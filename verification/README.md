# single-ion

One process that runs the four services reactive, ion, gluon and neutrino, as a
headless binary or behind a desktop window.

- `src/` is the library: every decision of the start-up, verified with Verus. The
  runs are state machines; the lemmas beside them say what holds of a whole run,
  whatever the system replies.
- `app/` is what performs the actions: the headless binary (`main.rs`), the
  desktop shells (`app.rs`, `win.rs`), and the build script (`embed_icon.rs`). It needs
  the service crates `gluon`, `db_server`, `ion`, `ion_config`, `neutrino`,
  `db_configs` and `db_scripts` of the workspace, and the `cfg/` directory whose
  files are embedded.
- `tests/` runs the library on concrete values.
