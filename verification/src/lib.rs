//! Start-up logic of the single-ion launcher, which runs the services reactive,
//! ion, gluon and neutrino in one process.
//!
//! The library decides and computes; it does no input or output. A run is a
//! state machine whose `next` takes the reply to the last action and gives the
//! next one, and a binary performs the actions. What the runs promise as a whole
//! is stated by the lemmas beside them.
//!
//! - `headless`, `desktop`, `services`: the runs of the headless process, of a
//!   desktop shell, and of the thread on which a shell starts its services
//! - `folders`, `cfg_files`: the working directory and the configuration files
//!   in it
//! - `layout`: where the process was installed and where its assets are
//! - `env`, `network`: environment variables, ports and addresses
//! - `readiness`, `platform`, `window`: what a desktop shell waits for, needs,
//!   and shows
//! - `exit`: why the process stops
//! - `icon`: the icon of a build for Windows
//! - `runs`: what the runs share
//! - `text`: strings

pub mod cfg_files;
pub mod desktop;
pub mod env;
pub mod exit;
pub mod folders;
pub mod headless;
pub mod icon;
pub mod layout;
pub mod network;
pub mod platform;
pub mod readiness;
pub mod runs;
pub mod services;
pub mod text;
pub mod window;
