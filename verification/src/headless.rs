//! The headless process, from the path of its executable to its shutdown.
//!
//! The variables for the assets are written before the working directory
//! changes, all variables before the configurations are loaded that read them,
//! and gluon is given time to listen before the services start that connect to
//! it. On the way out the services are told to stop and given time to flush.
//! The decisions are made here, one reply at a time; the caller performs the
//! actions.

use crate::env::{
    applied, lemma_defaults_are_exact, lemma_defaults_keep_what_is_set, lemma_other_defaults,
    lemma_without_keeps_the_rest, lemma_without_leaves_no_name, lemma_without_once, text_or, unset,
    views, without, Child, Dir, Env, EnvView, Setting, SettingView, Value, ValueView,
};
use crate::folders::single_ion_dir;
use crate::layout::{
    asset_settings, find_layout, layout_of, lemma_root_is_above_first_target, with_cfg, ExePath,
    Layout,
};
use crate::network::{
    gluon_url_defaults, gluon_url_settings, headless_defaults, headless_settings,
};
use crate::runs::{
    env_after, lemma_env_concat, lemma_env_of_one_write, lemma_env_of_quiet_actions, lemma_prepend,
};
use crate::services::{Service, GLUON_HEAD_START_MS};
use crate::text::texts;
use vstd::prelude::*;

verus! {

/// How long the services are given to flush at shutdown, in milliseconds.
pub const FLUSH_MS: u64 = 500;

/// What the caller is asked to do.
#[derive(Clone, Copy, PartialEq, Eq, Structural, Debug)]
pub enum HeadlessAction {
    /// Say whether this is a directory.
    Probe(Dir),
    /// Write the variables for the assets.
    WriteAssetSettings,
    /// Make this the working directory.
    Enter(Dir),
    /// Write the defaults of the headless process.
    WriteDefaults,
    /// Say whether the scripts' variable names a directory.
    ProbeScripts,
    /// Unpack the embedded scripts; say whether that worked.
    UnpackScripts,
    /// Point the scripts' variable at the unpacked scripts.
    RedirectScripts,
    /// Load gluon's configuration, or its default.
    LoadGluon,
    /// Write the variables that tell where gluon is.
    WriteGluonUrls,
    /// Load ion's configuration; say whether that worked.
    LoadIon,
    /// Put gluon's address into ion's configuration.
    PointIonAtGluon,
    /// Load neutrino's configuration, or its default.
    LoadNeutrino,
    /// Start the task of a service.
    Spawn(Service),
    /// Sleep for this many milliseconds.
    Sleep(u64),
    /// Wait until a task ends or the user interrupts.
    AwaitExit,
    /// Tell the services to shut down.
    RequestShutdown,
    /// Leave: with success, or with the error of the last action.
    Stop(bool),
}

/// The last action whose reply is awaited.
#[derive(Clone, Copy, PartialEq, Eq, Structural, Debug)]
pub enum HeadlessPhase {
    Start,
    CfgProbed,
    AssetsWritten,
    HomeProbed,
    HomeEntered,
    DefaultsWritten,
    ScriptsProbed,
    ScriptsUnpacked,
    ScriptsRedirected,
    GluonLoaded,
    GluonUrlsWritten,
    IonLoaded,
    IonPointed,
    NeutrinoLoaded,
    GluonSpawned,
    GluonListening,
    ReactiveSpawned,
    IonSpawned,
    NeutrinoSpawned,
    Exited,
    ShutdownRequested,
    Flushed,
    Stopped(bool),
}

/// The start-up of the headless process.
#[derive(Clone, Copy, PartialEq, Eq, Structural, Debug)]
pub struct Headless {
    pub layout: Layout,
    pub phase: HeadlessPhase,
}

/// A phase and the action that leads to it.
pub type HeadlessMove = (HeadlessPhase, HeadlessAction);

/// The move to the directory of the layout, once the assets are written.
pub open spec fn home_move(layout: Layout) -> HeadlessMove {
    match layout {
        Layout::Monorepo(i) => (
            HeadlessPhase::HomeProbed,
            HeadlessAction::Probe(single_ion_dir(i)),
        ),
        Layout::Portable(i) => (
            HeadlessPhase::HomeEntered,
            HeadlessAction::Enter(Dir { ancestor: i, child: Child::Itself }),
        ),
        Layout::Unknown => (HeadlessPhase::DefaultsWritten, HeadlessAction::WriteDefaults),
    }
}

/// The moves up to the working directory.
pub open spec fn locate_move(layout: Layout, phase: HeadlessPhase, ok: bool) -> HeadlessMove {
    match phase {
        HeadlessPhase::Start => match layout {
            Layout::Portable(i) => (
                HeadlessPhase::CfgProbed,
                HeadlessAction::Probe(Dir { ancestor: i, child: Child::Cfg }),
            ),
            _ => (HeadlessPhase::AssetsWritten, HeadlessAction::WriteAssetSettings),
        },
        HeadlessPhase::CfgProbed => (
            HeadlessPhase::AssetsWritten,
            HeadlessAction::WriteAssetSettings,
        ),
        HeadlessPhase::AssetsWritten => home_move(layout),
        _ => match layout {
            Layout::Monorepo(i) if ok => (
                HeadlessPhase::HomeEntered,
                HeadlessAction::Enter(single_ion_dir(i)),
            ),
            _ => (HeadlessPhase::DefaultsWritten, HeadlessAction::WriteDefaults),
        },
    }
}

/// The moves from the working directory on.
pub open spec fn launch_move(phase: HeadlessPhase, ok: bool) -> HeadlessMove {
    match phase {
        HeadlessPhase::DefaultsWritten => (
            HeadlessPhase::ScriptsProbed,
            HeadlessAction::ProbeScripts,
        ),
        HeadlessPhase::ScriptsProbed if !ok => (
            HeadlessPhase::ScriptsUnpacked,
            HeadlessAction::UnpackScripts,
        ),
        HeadlessPhase::ScriptsUnpacked if ok => (
            HeadlessPhase::ScriptsRedirected,
            HeadlessAction::RedirectScripts,
        ),
        HeadlessPhase::ScriptsProbed | HeadlessPhase::ScriptsUnpacked
        | HeadlessPhase::ScriptsRedirected => (
            HeadlessPhase::GluonLoaded,
            HeadlessAction::LoadGluon,
        ),
        HeadlessPhase::GluonLoaded => (
            HeadlessPhase::GluonUrlsWritten,
            HeadlessAction::WriteGluonUrls,
        ),
        HeadlessPhase::GluonUrlsWritten => (HeadlessPhase::IonLoaded, HeadlessAction::LoadIon),
        HeadlessPhase::IonLoaded if ok => (
            HeadlessPhase::IonPointed,
            HeadlessAction::PointIonAtGluon,
        ),
        HeadlessPhase::IonLoaded => (HeadlessPhase::Stopped(false), HeadlessAction::Stop(false)),
        HeadlessPhase::IonPointed => (HeadlessPhase::NeutrinoLoaded, HeadlessAction::LoadNeutrino),
        HeadlessPhase::NeutrinoLoaded => (
            HeadlessPhase::GluonSpawned,
            HeadlessAction::Spawn(Service::Gluon),
        ),
        HeadlessPhase::GluonSpawned => (
            HeadlessPhase::GluonListening,
            HeadlessAction::Sleep(GLUON_HEAD_START_MS),
        ),
        HeadlessPhase::GluonListening => (
            HeadlessPhase::ReactiveSpawned,
            HeadlessAction::Spawn(Service::Reactive),
        ),
        HeadlessPhase::ReactiveSpawned => (
            HeadlessPhase::IonSpawned,
            HeadlessAction::Spawn(Service::Ion),
        ),
        HeadlessPhase::IonSpawned => (
            HeadlessPhase::NeutrinoSpawned,
            HeadlessAction::Spawn(Service::Neutrino),
        ),
        HeadlessPhase::NeutrinoSpawned => (HeadlessPhase::Exited, HeadlessAction::AwaitExit),
        HeadlessPhase::Exited => (
            HeadlessPhase::ShutdownRequested,
            HeadlessAction::RequestShutdown,
        ),
        HeadlessPhase::ShutdownRequested => (
            HeadlessPhase::Flushed,
            HeadlessAction::Sleep(FLUSH_MS),
        ),
        HeadlessPhase::Stopped(success) => (phase, HeadlessAction::Stop(success)),
        _ => (HeadlessPhase::Stopped(true), HeadlessAction::Stop(true)),
    }
}

/// Whether the working directory is still to be chosen.
pub open spec fn is_locating(phase: HeadlessPhase) -> bool {
    phase is Start || phase is CfgProbed || phase is AssetsWritten || phase is HomeProbed
}

/// The next state and action after the reply `ok` to the last action.
pub open spec fn headless_step(m: Headless, ok: bool) -> (Headless, HeadlessAction) {
    let layout = if m.phase is CfgProbed {
        with_cfg(m.layout, ok)
    } else {
        m.layout
    };
    let (phase, action) = if is_locating(m.phase) {
        locate_move(layout, m.phase, ok)
    } else if m.phase is HomeEntered {
        (HeadlessPhase::DefaultsWritten, HeadlessAction::WriteDefaults)
    } else {
        launch_move(m.phase, ok)
    };
    (Headless { layout, phase }, action)
}

/// The actions of the first `steps` steps from `m`, where `ok` answers the last
/// action and `replies` the ones to come. Stopping ends the run.
pub open spec fn headless_run(
    m: Headless,
    ok: bool,
    replies: spec_fn(HeadlessAction) -> bool,
    steps: nat,
) -> Seq<HeadlessAction>
    decreases steps,
{
    if steps == 0 {
        Seq::empty()
    } else {
        let (next, action) = headless_step(m, ok);
        if action is Stop {
            seq![action]
        } else {
            seq![action] + headless_run(next, replies(action), replies, (steps - 1) as nat)
        }
    }
}

/// Writing the variables for the assets, then going to the directory of the
/// layout.
pub open spec fn locate_actions(
    layout: Layout,
    replies: spec_fn(HeadlessAction) -> bool,
) -> Seq<HeadlessAction> {
    match layout {
        Layout::Monorepo(i) => {
            let dir = single_ion_dir(i);
            if replies(HeadlessAction::Probe(dir)) {
                seq![
                    HeadlessAction::WriteAssetSettings,
                    HeadlessAction::Probe(dir),
                    HeadlessAction::Enter(dir),
                ]
            } else {
                seq![HeadlessAction::WriteAssetSettings, HeadlessAction::Probe(dir)]
            }
        },
        Layout::Portable(i) => {
            let cfg = Dir { ancestor: i, child: Child::Cfg };
            if replies(HeadlessAction::Probe(cfg)) {
                seq![
                    HeadlessAction::Probe(cfg),
                    HeadlessAction::WriteAssetSettings,
                    HeadlessAction::Enter(Dir { ancestor: i, child: Child::Itself }),
                ]
            } else {
                seq![HeadlessAction::Probe(cfg), HeadlessAction::WriteAssetSettings]
            }
        },
        Layout::Unknown => seq![HeadlessAction::WriteAssetSettings],
    }
}

/// Making sure that there are scripts.
pub open spec fn script_actions(
    replies: spec_fn(HeadlessAction) -> bool,
) -> Seq<HeadlessAction> {
    if replies(HeadlessAction::ProbeScripts) {
        seq![HeadlessAction::ProbeScripts]
    } else if replies(HeadlessAction::UnpackScripts) {
        seq![
            HeadlessAction::ProbeScripts,
            HeadlessAction::UnpackScripts,
            HeadlessAction::RedirectScripts,
        ]
    } else {
        seq![HeadlessAction::ProbeScripts, HeadlessAction::UnpackScripts]
    }
}

/// Loading the configurations and running the services until one of them ends.
pub open spec fn service_actions(
    replies: spec_fn(HeadlessAction) -> bool,
) -> Seq<HeadlessAction> {
    if replies(HeadlessAction::LoadIon) {
        seq![
            HeadlessAction::LoadGluon,
            HeadlessAction::WriteGluonUrls,
            HeadlessAction::LoadIon,
            HeadlessAction::PointIonAtGluon,
            HeadlessAction::LoadNeutrino,
            HeadlessAction::Spawn(Service::Gluon),
            HeadlessAction::Sleep(GLUON_HEAD_START_MS),
            HeadlessAction::Spawn(Service::Reactive),
            HeadlessAction::Spawn(Service::Ion),
            HeadlessAction::Spawn(Service::Neutrino),
            HeadlessAction::AwaitExit,
            HeadlessAction::RequestShutdown,
            HeadlessAction::Sleep(FLUSH_MS),
            HeadlessAction::Stop(true),
        ]
    } else {
        seq![
            HeadlessAction::LoadGluon,
            HeadlessAction::WriteGluonUrls,
            HeadlessAction::LoadIon,
            HeadlessAction::Stop(false),
        ]
    }
}

/// Everything after the choice of the working directory.
pub open spec fn launch_actions(
    replies: spec_fn(HeadlessAction) -> bool,
) -> Seq<HeadlessAction> {
    seq![HeadlessAction::WriteDefaults] + script_actions(replies) + service_actions(replies)
}

/// The services part of a run, from a state whose next action is to load
/// gluon's configuration.
proof fn lemma_service_run(
    m: Headless,
    ok: bool,
    replies: spec_fn(HeadlessAction) -> bool,
    steps: nat,
)
    requires
        headless_step(m, ok) == (
            Headless { layout: m.layout, phase: HeadlessPhase::GluonLoaded },
            HeadlessAction::LoadGluon,
        ),
        steps >= 14,
    ensures
        headless_run(m, ok, replies, steps) == service_actions(replies),
{
    reveal_with_fuel(headless_run, 15);
    assert(headless_run(m, ok, replies, steps) =~= service_actions(replies));
}

/// The part of a run from the scripts on.
proof fn lemma_script_run(layout: Layout, ok: bool, replies: spec_fn(HeadlessAction) -> bool, steps: nat)
    requires
        steps >= 17,
    ensures
        headless_run(
            Headless { layout, phase: HeadlessPhase::DefaultsWritten },
            ok,
            replies,
            steps,
        ) == script_actions(replies) + service_actions(replies),
{
    let probe = HeadlessAction::ProbeScripts;
    let unpack = HeadlessAction::UnpackScripts;
    let redirect = HeadlessAction::RedirectScripts;
    let start = Headless { layout, phase: HeadlessPhase::DefaultsWritten };
    let probed = Headless { layout, phase: HeadlessPhase::ScriptsProbed };
    let unpacked = Headless { layout, phase: HeadlessPhase::ScriptsUnpacked };
    let redirected = Headless { layout, phase: HeadlessPhase::ScriptsRedirected };
    let rest = service_actions(replies);
    assert(headless_run(start, ok, replies, steps) == seq![probe] + headless_run(
        probed,
        replies(probe),
        replies,
        (steps - 1) as nat,
    ));
    if replies(probe) {
        lemma_service_run(probed, true, replies, (steps - 1) as nat);
        assert(seq![probe] + rest =~= script_actions(replies) + rest);
    } else {
        assert(headless_run(probed, false, replies, (steps - 1) as nat) == seq![unpack]
            + headless_run(unpacked, replies(unpack), replies, (steps - 2) as nat));
        if replies(unpack) {
            assert(headless_run(unpacked, true, replies, (steps - 2) as nat) == seq![redirect]
                + headless_run(redirected, replies(redirect), replies, (steps - 3) as nat));
            lemma_service_run(redirected, replies(redirect), replies, (steps - 3) as nat);
            assert(seq![probe] + (seq![unpack] + (seq![redirect] + rest)) =~= script_actions(
                replies,
            ) + rest);
        } else {
            lemma_service_run(unpacked, false, replies, (steps - 2) as nat);
            assert(seq![probe] + (seq![unpack] + rest) =~= script_actions(replies) + rest);
        }
    }
}

/// The part of a run from the defaults on, from a state whose next action is to
/// write them.
proof fn lemma_defaults_run(
    m: Headless,
    ok: bool,
    layout: Layout,
    replies: spec_fn(HeadlessAction) -> bool,
    steps: nat,
)
    requires
        headless_step(m, ok) == (
            Headless { layout, phase: HeadlessPhase::DefaultsWritten },
            HeadlessAction::WriteDefaults,
        ),
        steps >= 18,
    ensures
        headless_run(m, ok, replies, steps) == launch_actions(replies),
{
    let defaults = HeadlessAction::WriteDefaults;
    lemma_script_run(layout, replies(defaults), replies, (steps - 1) as nat);
    assert(seq![defaults] + (script_actions(replies) + service_actions(replies))
        =~= launch_actions(replies));
}

/// One step of a run.
proof fn lemma_one_step(
    m: Headless,
    ok: bool,
    replies: spec_fn(HeadlessAction) -> bool,
    steps: nat,
    next: Headless,
    action: HeadlessAction,
)
    requires
        steps > 0,
        headless_step(m, ok) == (next, action),
        !(action is Stop),
    ensures
        headless_run(m, ok, replies, steps) == seq![action] + headless_run(
            next,
            replies(action),
            replies,
            (steps - 1) as nat,
        ),
{
}

/// However the system replies, the process writes the variables for the assets
/// before it leaves its first working directory, writes every variable before
/// it loads the configurations that read it, starts gluon first and lets it
/// listen before the other services start, and after the first exit tells the
/// services to stop and waits before it leaves. It gives up early only where
/// ion's configuration cannot be loaded, and then no service was started.
pub proof fn lemma_headless_run(
    layout: Layout,
    replies: spec_fn(HeadlessAction) -> bool,
    ok: bool,
    steps: nat,
)
    requires
        steps >= 21,
    ensures
        headless_run(Headless { layout, phase: HeadlessPhase::Start }, ok, replies, steps)
            == locate_actions(layout, replies) + launch_actions(replies),
{
    let start = Headless { layout, phase: HeadlessPhase::Start };
    let write = HeadlessAction::WriteAssetSettings;
    let tail = launch_actions(replies);
    let n1 = (steps - 1) as nat;
    let n2 = (steps - 2) as nat;
    let n3 = (steps - 3) as nat;
    let written = Headless { layout, phase: HeadlessPhase::AssetsWritten };
    let entered = Headless { layout, phase: HeadlessPhase::HomeEntered };
    match layout {
        Layout::Monorepo(i) => {
            let probe = HeadlessAction::Probe(single_ion_dir(i));
            let enter = HeadlessAction::Enter(single_ion_dir(i));
            let probed = Headless { layout, phase: HeadlessPhase::HomeProbed };
            lemma_one_step(start, ok, replies, steps, written, write);
            lemma_one_step(written, replies(write), replies, n1, probed, probe);
            lemma_prepend(write, probe, enter, tail);
            if replies(probe) {
                lemma_one_step(probed, true, replies, n2, entered, enter);
                lemma_defaults_run(entered, replies(enter), layout, replies, n3);
            } else {
                lemma_defaults_run(probed, false, layout, replies, n2);
            }
        },
        Layout::Portable(i) => {
            let cfg = HeadlessAction::Probe(Dir { ancestor: i, child: Child::Cfg });
            let enter = HeadlessAction::Enter(Dir { ancestor: i, child: Child::Itself });
            let probed = Headless { layout, phase: HeadlessPhase::CfgProbed };
            let nowhere = Headless {
                layout: Layout::Unknown,
                phase: HeadlessPhase::AssetsWritten,
            };
            lemma_one_step(start, ok, replies, steps, probed, cfg);
            lemma_prepend(cfg, write, enter, tail);
            if replies(cfg) {
                lemma_one_step(probed, true, replies, n1, written, write);
                lemma_one_step(written, replies(write), replies, n2, entered, enter);
                lemma_defaults_run(entered, replies(enter), layout, replies, n3);
            } else {
                lemma_one_step(probed, false, replies, n1, nowhere, write);
                lemma_defaults_run(nowhere, replies(write), Layout::Unknown, replies, n2);
            }
        },
        Layout::Unknown => {
            lemma_one_step(start, ok, replies, steps, written, write);
            lemma_defaults_run(written, replies(write), layout, replies, n1);
        },
    }
}

/// The run of the process from the start.
pub open spec fn whole_run(
    layout: Layout,
    replies: spec_fn(HeadlessAction) -> bool,
    ok: bool,
    steps: nat,
) -> Seq<HeadlessAction> {
    headless_run(Headless { layout, phase: HeadlessPhase::Start }, ok, replies, steps)
}

/// Before a service other than gluon starts, gluon was started and given its
/// head start.
pub proof fn lemma_gluon_listens_first(
    layout: Layout,
    replies: spec_fn(HeadlessAction) -> bool,
    ok: bool,
    steps: nat,
    k: int,
)
    requires
        steps >= 21,
        0 <= k < whole_run(layout, replies, ok, steps).len(),
        whole_run(layout, replies, ok, steps)[k] matches HeadlessAction::Spawn(s) && s
            != Service::Gluon,
    ensures
        exists|j: int|
            0 <= j < k - 1 && #[trigger] whole_run(layout, replies, ok, steps)[j]
                == HeadlessAction::Spawn(Service::Gluon) && whole_run(
                layout,
                replies,
                ok,
                steps,
            )[j + 1] == HeadlessAction::Sleep(GLUON_HEAD_START_MS),
{
    lemma_headless_run(layout, replies, ok, steps);
    let run = whole_run(layout, replies, ok, steps);
    let n = (locate_actions(layout, replies).len() + 1 + script_actions(replies).len()) as int;
    lemma_parts_of_run(layout, replies);
    assert(run[n + 5] == service_actions(replies)[5]);
    assert(run[n + 6] == service_actions(replies)[6]);
}

/// The working directory changes only after the variables for the assets were
/// written.
pub proof fn lemma_assets_are_written_first(
    layout: Layout,
    replies: spec_fn(HeadlessAction) -> bool,
    ok: bool,
    steps: nat,
    k: int,
)
    requires
        steps >= 21,
        0 <= k < whole_run(layout, replies, ok, steps).len(),
        whole_run(layout, replies, ok, steps)[k] is Enter,
    ensures
        exists|j: int|
            0 <= j < k && #[trigger] whole_run(layout, replies, ok, steps)[j]
                == HeadlessAction::WriteAssetSettings,
{
    lemma_headless_run(layout, replies, ok, steps);
    let run = whole_run(layout, replies, ok, steps);
    lemma_parts_of_run(layout, replies);
    assert(run[0] == locate_actions(layout, replies)[0]);
    assert(k > 1 ==> run[1] == locate_actions(layout, replies)[1]);
}

/// A process that leaves with success told the services to stop and then gave
/// them the time to flush; one that leaves with an error has started no
/// service.
pub proof fn lemma_services_are_flushed(
    layout: Layout,
    replies: spec_fn(HeadlessAction) -> bool,
    ok: bool,
    steps: nat,
)
    requires
        steps >= 21,
    ensures
        ({
            let run = whole_run(layout, replies, ok, steps);
            let n = run.len() as int;
            &&& n >= 4
            &&& run.last() == HeadlessAction::Stop(replies(HeadlessAction::LoadIon))
            &&& replies(HeadlessAction::LoadIon) ==> {
                &&& run[n - 4] == HeadlessAction::AwaitExit
                &&& run[n - 3] == HeadlessAction::RequestShutdown
                &&& run[n - 2] == HeadlessAction::Sleep(FLUSH_MS)
            }
            &&& !replies(HeadlessAction::LoadIon) ==> forall|k: int|
                0 <= k < n ==> !((#[trigger] run[k]) is Spawn)
        }),
{
    lemma_headless_run(layout, replies, ok, steps);
    let run = whole_run(layout, replies, ok, steps);
    let m = (locate_actions(layout, replies).len() + 1 + script_actions(replies).len()) as int;
    lemma_parts_of_run(layout, replies);
    let last = service_actions(replies).len() as int;
    assert(run.len() == m + last);
    assert(run[m + last - 1] == service_actions(replies)[last - 1]);
    if replies(HeadlessAction::LoadIon) {
        assert(run[m + last - 2] == service_actions(replies)[last - 2]);
        assert(run[m + last - 3] == service_actions(replies)[last - 3]);
        assert(run[m + last - 4] == service_actions(replies)[last - 4]);
    } else {
        assert forall|k: int| 0 <= k < run.len() implies !((#[trigger] run[k]) is Spawn) by {
            if k >= m {
                assert(run[k] == service_actions(replies)[k - m]);
            }
        }
    }
}

/// Which part of a run an action belongs to.
proof fn lemma_parts_of_run(layout: Layout, replies: spec_fn(HeadlessAction) -> bool)
    ensures
        ({
            let a = locate_actions(layout, replies);
            let b = script_actions(replies);
            let c = service_actions(replies);
            let n = a.len() + 1 + b.len();
            let run = a + launch_actions(replies);
            &&& run.len() == n + c.len()
            &&& forall|k: int| 0 <= k < a.len() ==> #[trigger] run[k] == a[k]
            &&& forall|k: int| n <= k < run.len() ==> #[trigger] run[k] == c[k - n]
            &&& forall|k: int| 0 <= k < n ==> !((#[trigger] run[k]) is Spawn)
            &&& forall|k: int| a.len() <= k < run.len() ==> !((#[trigger] run[k]) is Enter)
        }),
{
    let a = locate_actions(layout, replies);
    let b = script_actions(replies);
    let c = service_actions(replies);
    let n = a.len() + 1 + b.len();
    let run = a + launch_actions(replies);
    assert forall|k: int| 0 <= k < n implies !((#[trigger] run[k]) is Spawn) by {
        if k > a.len() {
            assert(run[k] == b[k - a.len() - 1]);
        }
    }
    assert forall|k: int| a.len() <= k < run.len() implies !((#[trigger] run[k]) is Enter) by {
        if k >= n {
            assert(run[k] == c[k - n]);
        } else if k > a.len() {
            assert(run[k] == b[k - a.len() - 1]);
        }
    }
}

/// Pointing the scripts' variable at the unpacked scripts.
pub open spec fn redirect_setting() -> SettingView {
    SettingView { name: "REACTIVE_SCRIPTS_ROOT"@, value: ValueView::UnpackedScripts }
}

/// The environment that the services see. `in_file` names the variables whose
/// values ion's configuration file holds, `redirected` says whether the embedded
/// scripts are used, and `url` is where gluon is reached.
pub open spec fn environment_of_services(
    env: EnvView,
    layout: Layout,
    in_file: Seq<Seq<char>>,
    redirected: bool,
    url: Seq<char>,
) -> EnvView {
    let assets = applied(env, unset(env, asset_settings(layout)));
    let defaults = applied(assets, unset(assets, without(headless_settings(), in_file)));
    let scripts = if redirected {
        defaults.insert(redirect_setting().name, redirect_setting().value)
    } else {
        defaults
    };
    applied(scripts, unset(scripts, gluon_url_settings(url)))
}

/// What the operator has set stays as it is. The one exception is a scripts'
/// variable that names no directory, in which case the embedded scripts are
/// used.
pub proof fn lemma_overrides_survive(
    env: EnvView,
    layout: Layout,
    in_file: Seq<Seq<char>>,
    redirected: bool,
    url: Seq<char>,
    name: Seq<char>,
)
    requires
        env.contains_key(name),
        !redirected || name != "REACTIVE_SCRIPTS_ROOT"@,
    ensures
        environment_of_services(env, layout, in_file, redirected, url).contains_key(name),
        environment_of_services(env, layout, in_file, redirected, url)[name] == env[name],
{
    let wanted = without(headless_settings(), in_file);
    let assets = applied(env, unset(env, asset_settings(layout)));
    let defaults = applied(assets, unset(assets, wanted));
    let scripts = if redirected {
        defaults.insert(redirect_setting().name, redirect_setting().value)
    } else {
        defaults
    };
    lemma_defaults_keep_what_is_set(env, asset_settings(layout), name);
    lemma_defaults_keep_what_is_set(assets, wanted, name);
    lemma_defaults_keep_what_is_set(scripts, gluon_url_settings(url), name);
}

/// A run is made of steps, each of which takes the reply to the action before;
/// stopping is the last action.
pub proof fn lemma_run_follows_steps(
    m: Headless,
    ok: bool,
    replies: spec_fn(HeadlessAction) -> bool,
    steps: nat,
)
    ensures
        headless_run(m, ok, replies, 0) == Seq::<HeadlessAction>::empty(),
        headless_state(m, ok, replies, 0) == m,
        ({
            let (next, action) = headless_step(m, ok);
            &&& headless_run(m, ok, replies, steps + 1) == if action is Stop {
                seq![action]
            } else {
                seq![action] + headless_run(next, replies(action), replies, steps)
            }
            &&& headless_state(m, ok, replies, steps + 1) == headless_state(
                next,
                replies(action),
                replies,
                steps,
            )
        }),
{
}

/// A process that was told to leave stays so, for the same reason.
pub proof fn lemma_stopped_stays_stopped(m: Headless, ok: bool, later: bool)
    requires
        headless_step(m, ok).1 is Stop,
    ensures
        headless_step(headless_step(m, ok).0, later) == headless_step(m, ok),
{
}

/// How every run goes on from the working directory: the defaults, the scripts
/// where there are none, the configurations, gluon half a second before the
/// others, and at the end the request to stop and half a second to flush. Where
/// ion's configuration cannot be loaded nothing is started.
pub proof fn lemma_launch_in_order(replies: spec_fn(HeadlessAction) -> bool)
    ensures
        launch_actions(replies) == seq![
            HeadlessAction::WriteDefaults,
            HeadlessAction::ProbeScripts,
        ] + (if replies(HeadlessAction::ProbeScripts) {
            Seq::empty()
        } else if replies(HeadlessAction::UnpackScripts) {
            seq![HeadlessAction::UnpackScripts, HeadlessAction::RedirectScripts]
        } else {
            seq![HeadlessAction::UnpackScripts]
        }) + seq![
            HeadlessAction::LoadGluon,
            HeadlessAction::WriteGluonUrls,
            HeadlessAction::LoadIon,
        ] + (if replies(HeadlessAction::LoadIon) {
            seq![
                HeadlessAction::PointIonAtGluon,
                HeadlessAction::LoadNeutrino,
                HeadlessAction::Spawn(Service::Gluon),
                HeadlessAction::Sleep(500),
                HeadlessAction::Spawn(Service::Reactive),
                HeadlessAction::Spawn(Service::Ion),
                HeadlessAction::Spawn(Service::Neutrino),
                HeadlessAction::AwaitExit,
                HeadlessAction::RequestShutdown,
                HeadlessAction::Sleep(500),
                HeadlessAction::Stop(true),
            ]
        } else {
            seq![HeadlessAction::Stop(false)]
        }),
{
    let defaults = seq![HeadlessAction::WriteDefaults];
    let ask = seq![HeadlessAction::WriteDefaults, HeadlessAction::ProbeScripts];
    let scripts = if replies(HeadlessAction::ProbeScripts) {
        Seq::empty()
    } else if replies(HeadlessAction::UnpackScripts) {
        seq![HeadlessAction::UnpackScripts, HeadlessAction::RedirectScripts]
    } else {
        seq![HeadlessAction::UnpackScripts]
    };
    assert(defaults + script_actions(replies) =~= ask + scripts);
    let load = seq![
        HeadlessAction::LoadGluon,
        HeadlessAction::WriteGluonUrls,
        HeadlessAction::LoadIon,
    ];
    let services = if replies(HeadlessAction::LoadIon) {
        seq![
            HeadlessAction::PointIonAtGluon,
            HeadlessAction::LoadNeutrino,
            HeadlessAction::Spawn(Service::Gluon),
            HeadlessAction::Sleep(500),
            HeadlessAction::Spawn(Service::Reactive),
            HeadlessAction::Spawn(Service::Ion),
            HeadlessAction::Spawn(Service::Neutrino),
            HeadlessAction::AwaitExit,
            HeadlessAction::RequestShutdown,
            HeadlessAction::Sleep(500),
            HeadlessAction::Stop(true),
        ]
    } else {
        seq![HeadlessAction::Stop(false)]
    };
    assert(load + services =~= service_actions(replies));
    assert(ask + scripts + load + services =~= ask + scripts + (load + services));
}

/// What a process in a monorepo with the root `i` does before it launches: it
/// asks for the launcher's directory there, and for no other, and enters it
/// where it is there.
pub proof fn lemma_run_in_a_monorepo(
    i: usize,
    replies: spec_fn(HeadlessAction) -> bool,
    ok: bool,
    steps: nat,
)
    requires
        steps >= 21,
    ensures
        ({
            let start = Headless { layout: Layout::Monorepo(i), phase: HeadlessPhase::Start };
            let dir = Dir { ancestor: i, child: Child::SingleIon };
            headless_run(start, ok, replies, steps) == seq![
                HeadlessAction::WriteAssetSettings,
                HeadlessAction::Probe(dir),
            ] + (if replies(HeadlessAction::Probe(dir)) {
                seq![HeadlessAction::Enter(dir)]
            } else {
                Seq::empty()
            }) + launch_actions(replies)
        }),
{
    lemma_headless_run(Layout::Monorepo(i), replies, ok, steps);
    let dir = Dir { ancestor: i, child: Child::SingleIon };
    let ask = seq![HeadlessAction::WriteAssetSettings, HeadlessAction::Probe(dir)];
    let enter = if replies(HeadlessAction::Probe(dir)) {
        seq![HeadlessAction::Enter(dir)]
    } else {
        Seq::empty()
    };
    assert(ask + enter =~= locate_actions(Layout::Monorepo(i), replies));
}

/// What a process in directory `i` outside a monorepo does before it launches:
/// it asks for `cfg` there, and enters the directory where that is there.
pub proof fn lemma_run_of_a_deployment(
    i: usize,
    replies: spec_fn(HeadlessAction) -> bool,
    ok: bool,
    steps: nat,
)
    requires
        steps >= 21,
    ensures
        ({
            let start = Headless { layout: Layout::Portable(i), phase: HeadlessPhase::Start };
            let cfg = Dir { ancestor: i, child: Child::Cfg };
            let dir = Dir { ancestor: i, child: Child::Itself };
            headless_run(start, ok, replies, steps) == seq![
                HeadlessAction::Probe(cfg),
                HeadlessAction::WriteAssetSettings,
            ] + (if replies(HeadlessAction::Probe(cfg)) {
                seq![HeadlessAction::Enter(dir)]
            } else {
                Seq::empty()
            }) + launch_actions(replies)
        }),
{
    lemma_headless_run(Layout::Portable(i), replies, ok, steps);
    let cfg = Dir { ancestor: i, child: Child::Cfg };
    let dir = Dir { ancestor: i, child: Child::Itself };
    let ask = seq![HeadlessAction::Probe(cfg), HeadlessAction::WriteAssetSettings];
    let enter = if replies(HeadlessAction::Probe(cfg)) {
        seq![HeadlessAction::Enter(dir)]
    } else {
        Seq::empty()
    };
    assert(ask + enter =~= locate_actions(Layout::Portable(i), replies));
}

/// Where nothing is known of the layout, nothing is asked for and the process
/// stays where it is.
pub proof fn lemma_run_of_an_unknown_layout(
    replies: spec_fn(HeadlessAction) -> bool,
    ok: bool,
    steps: nat,
)
    requires
        steps >= 21,
    ensures
        headless_run(
            Headless { layout: Layout::Unknown, phase: HeadlessPhase::Start },
            ok,
            replies,
            steps,
        ) == seq![HeadlessAction::WriteAssetSettings] + launch_actions(replies),
{
    lemma_headless_run(Layout::Unknown, replies, ok, steps);
}

/// For an executable in a build directory, the only directory that the process
/// asks for or enters is the launcher's, below the entry that stands directly
/// above the nearest one named `target`.
pub proof fn lemma_only_the_directory_above_target(
    names: Seq<Option<Seq<char>>>,
    k: int,
    replies: spec_fn(HeadlessAction) -> bool,
    ok: bool,
    steps: nat,
    n: int,
)
    requires
        steps >= 21,
        1 <= k < names.len() - 1,
        names[k] == Some("target"@),
        forall|j: int| 1 <= j < k ==> #[trigger] names[j] != Some("target"@),
        0 <= n < headless_run(
            Headless { layout: layout_of(Some(names)), phase: HeadlessPhase::Start },
            ok,
            replies,
            steps,
        ).len(),
    ensures
        ({
            let start = Headless { layout: layout_of(Some(names)), phase: HeadlessPhase::Start };
            let dir = Dir { ancestor: (k + 1) as usize, child: Child::SingleIon };
            let action = headless_run(start, ok, replies, steps)[n];
            &&& action matches HeadlessAction::Probe(d) ==> d == dir
            &&& action matches HeadlessAction::Enter(d) ==> d == dir && replies(
                HeadlessAction::Probe(dir),
            )
        }),
{
    let i = (k + 1) as usize;
    lemma_root_is_above_first_target(names, k);
    lemma_run_in_a_monorepo(i, replies, ok, steps);
    let dir = Dir { ancestor: i, child: Child::SingleIon };
    let home = seq![HeadlessAction::WriteAssetSettings, HeadlessAction::Probe(dir)] + (if replies(
        HeadlessAction::Probe(dir),
    ) {
        seq![HeadlessAction::Enter(dir)]
    } else {
        Seq::empty()
    });
    let tail = launch_actions(replies);
    let b = script_actions(replies);
    let c = service_actions(replies);
    if n >= home.len() {
        let m = n - home.len();
        assert((home + tail)[n] == tail[m]);
        if m == 0 {
            assert(tail[m] == HeadlessAction::WriteDefaults);
        } else if m < 1 + b.len() {
            assert(tail[m] == b[m - 1]);
        } else {
            assert(tail[m] == c[m - 1 - b.len()]);
        }
    }
}

/// At every moment of a run the layout is the one that the path told; only that
/// of a deployment whose `cfg` is not there becomes unknown, with the second
/// step, which is the one that writes the variables for the assets.
pub proof fn lemma_layout_at_every_moment(
    i: usize,
    replies: spec_fn(HeadlessAction) -> bool,
    ok: bool,
    k: nat,
)
    ensures
        headless_state(
            Headless { layout: Layout::Monorepo(i), phase: HeadlessPhase::Start },
            ok,
            replies,
            k,
        ).layout == Layout::Monorepo(i),
        headless_state(
            Headless { layout: Layout::Unknown, phase: HeadlessPhase::Start },
            ok,
            replies,
            k,
        ).layout == Layout::Unknown,
        headless_state(
            Headless { layout: Layout::Portable(i), phase: HeadlessPhase::Start },
            ok,
            replies,
            k,
        ).layout == if k < 2 || replies(
            HeadlessAction::Probe(Dir { ancestor: i, child: Child::Cfg }),
        ) {
            Layout::Portable(i)
        } else {
            Layout::Unknown
        },
{
    if k > 0 {
        let n = (k - 1) as nat;
        let a = Headless { layout: Layout::Monorepo(i), phase: HeadlessPhase::Start };
        let (a1, x) = headless_step(a, ok);
        lemma_layout_is_kept(a1, replies(x), replies, n);
        let b = Headless { layout: Layout::Unknown, phase: HeadlessPhase::Start };
        let (b1, y) = headless_step(b, ok);
        lemma_layout_is_kept(b1, replies(y), replies, n);
        let c = Headless { layout: Layout::Portable(i), phase: HeadlessPhase::Start };
        let (c1, z) = headless_step(c, ok);
        if k > 1 {
            let (c2, w) = headless_step(c1, replies(z));
            lemma_layout_is_kept(c2, replies(w), replies, (k - 2) as nat);
            assert(headless_state(c1, replies(z), replies, n) == headless_state(
                c2,
                replies(w),
                replies,
                (k - 2) as nat,
            ));
        } else {
            assert(headless_state(c1, replies(z), replies, 0) == c1);
        }
    }
}

/// Four actions write, each its own variables, and no other writes anything: the
/// assets of the layout, the defaults that the file does not hold, the scripts'
/// variable, and where gluon is.
pub proof fn lemma_what_actions_write(
    action: HeadlessAction,
    layout: Layout,
    env: EnvView,
    in_file: Seq<Seq<char>>,
    url: Seq<char>,
)
    ensures
        writes_of_run(layout, in_file, url)(action, env) == action_writes(
            action,
            layout,
            env,
            in_file,
            url,
        ),
        action == HeadlessAction::WriteAssetSettings ==> action_writes(
            action,
            layout,
            env,
            in_file,
            url,
        ) == unset(env, asset_settings(layout)),
        action == HeadlessAction::WriteDefaults ==> action_writes(
            action,
            layout,
            env,
            in_file,
            url,
        ) == unset(env, without(headless_settings(), in_file)),
        action == HeadlessAction::RedirectScripts ==> action_writes(
            action,
            layout,
            env,
            in_file,
            url,
        ) == seq![
            SettingView {
                name: "REACTIVE_SCRIPTS_ROOT"@,
                value: ValueView::UnpackedScripts,
            },
        ],
        action == HeadlessAction::WriteGluonUrls ==> action_writes(
            action,
            layout,
            env,
            in_file,
            url,
        ) == unset(env, gluon_url_settings(url)),
        !(action is WriteAssetSettings || action is WriteDefaults || action is RedirectScripts
            || action is WriteGluonUrls) ==> action_writes(action, layout, env, in_file, url)
            == Seq::<SettingView>::empty(),
        redirect_setting() == (SettingView {
            name: "REACTIVE_SCRIPTS_ROOT"@,
            value: ValueView::UnpackedScripts,
        }),
{
}

/// What an action writes to the environment, where `layout` is the one that the
/// run has settled on. An action that writes nothing gives nothing.
pub open spec fn action_writes(
    action: HeadlessAction,
    layout: Layout,
    env: EnvView,
    in_file: Seq<Seq<char>>,
    url: Seq<char>,
) -> Seq<SettingView> {
    match action {
        HeadlessAction::WriteAssetSettings => unset(env, asset_settings(layout)),
        HeadlessAction::WriteDefaults => unset(env, without(headless_settings(), in_file)),
        HeadlessAction::RedirectScripts => seq![redirect_setting()],
        HeadlessAction::WriteGluonUrls => unset(env, gluon_url_settings(url)),
        _ => Seq::empty(),
    }
}

/// What each action writes, for a run that has settled on `layout`.
pub open spec fn writes_of_run(
    layout: Layout,
    in_file: Seq<Seq<char>>,
    url: Seq<char>,
) -> spec_fn(HeadlessAction, EnvView) -> Seq<SettingView> {
    |action: HeadlessAction, env: EnvView| action_writes(action, layout, env, in_file, url)
}

/// The layout once the disk has been asked: a portable deployment only where
/// its `cfg` directory is there.
pub open spec fn settled_layout(
    layout: Layout,
    replies: spec_fn(HeadlessAction) -> bool,
) -> Layout {
    match layout {
        Layout::Portable(i) => with_cfg(
            layout,
            replies(HeadlessAction::Probe(Dir { ancestor: i, child: Child::Cfg })),
        ),
        _ => layout,
    }
}

/// The state after `steps` steps from `m`, where `ok` answers the last action
/// and `replies` the ones to come.
pub open spec fn headless_state(
    m: Headless,
    ok: bool,
    replies: spec_fn(HeadlessAction) -> bool,
    steps: nat,
) -> Headless
    decreases steps,
{
    if steps == 0 {
        m
    } else {
        let (next, action) = headless_step(m, ok);
        headless_state(next, replies(action), replies, (steps - 1) as nat)
    }
}

/// The layout of a state that is past the question for `cfg` never changes.
proof fn lemma_layout_is_kept(
    m: Headless,
    ok: bool,
    replies: spec_fn(HeadlessAction) -> bool,
    steps: nat,
)
    requires
        !(m.phase is Start),
        !(m.phase is CfgProbed),
    ensures
        headless_state(m, ok, replies, steps).layout == m.layout,
    decreases steps,
{
    if steps > 0 {
        let (next, action) = headless_step(m, ok);
        lemma_layout_is_kept(next, replies(action), replies, (steps - 1) as nat);
    }
}

/// At every action that writes, and after it, the layout of the run is the
/// settled one.
pub proof fn lemma_layout_is_settled_first(
    layout: Layout,
    replies: spec_fn(HeadlessAction) -> bool,
    ok: bool,
    steps: nat,
    k: nat,
)
    requires
        steps >= 21,
        k < whole_run(layout, replies, ok, steps).len(),
        k > 0 || is_write(whole_run(layout, replies, ok, steps)[0]),
    ensures
        headless_state(
            Headless { layout, phase: HeadlessPhase::Start },
            ok,
            replies,
            k + 1,
        ).layout == settled_layout(layout, replies),
{
    let start = Headless { layout, phase: HeadlessPhase::Start };
    let (first, a) = headless_step(start, ok);
    lemma_headless_run(layout, replies, ok, steps);
    assert(whole_run(layout, replies, ok, steps)[0] == a);
    if first.phase is CfgProbed {
        let (second, b) = headless_step(first, replies(a));
        lemma_layout_is_kept(second, replies(b), replies, (k - 1) as nat);
        assert(headless_state(first, replies(a), replies, k) == headless_state(
            second,
            replies(b),
            replies,
            (k - 1) as nat,
        ));
    } else {
        lemma_layout_is_kept(first, replies(a), replies, k);
    }
}

/// Whether an action writes to the environment.
pub open spec fn is_write(action: HeadlessAction) -> bool {
    action is WriteAssetSettings || action is WriteDefaults || action is RedirectScripts
        || action is WriteGluonUrls
}

/// However the system replies, the writes of a whole run amount to the
/// environment of the services: that of the settled layout, in which the
/// scripts are redirected exactly where the run does so. No service starts
/// before the last of the writes.
pub proof fn lemma_run_makes_environment(
    env: EnvView,
    layout: Layout,
    replies: spec_fn(HeadlessAction) -> bool,
    ok: bool,
    steps: nat,
    in_file: Seq<Seq<char>>,
    url: Seq<char>,
)
    requires
        steps >= 21,
    ensures
        ({
            let run = whole_run(layout, replies, ok, steps);
            let settled = settled_layout(layout, replies);
            let redirected = run.contains(HeadlessAction::RedirectScripts);
            &&& env_after(env, run, writes_of_run(settled, in_file, url))
                == environment_of_services(
                env,
                settled,
                in_file,
                redirected,
                url,
            )
            &&& redirected == (!replies(HeadlessAction::ProbeScripts) && replies(
                HeadlessAction::UnpackScripts,
            ))
            &&& forall|j: int, k: int|
                0 <= j < run.len() && 0 <= k < run.len() && is_write(#[trigger] run[j]) && (
                #[trigger] run[k]) is Spawn ==> j < k
        }),
{
    lemma_headless_run(layout, replies, ok, steps);
    let settled = settled_layout(layout, replies);
    let a = locate_actions(layout, replies);
    let d = seq![HeadlessAction::WriteDefaults];
    let b = script_actions(replies);
    let c = service_actions(replies);
    let run = whole_run(layout, replies, ok, steps);
    let redirected = !replies(HeadlessAction::ProbeScripts) && replies(
        HeadlessAction::UnpackScripts,
    );
    lemma_parts_of_run(layout, replies);
    lemma_where_scripts_are_redirected(layout, replies);
    let w: int = if layout is Portable {
        1
    } else {
        0
    };
    let f = writes_of_run(settled, in_file, url);
    let env_a = env_after(env, a, f);
    lemma_env_of_one_write(env, a, f, w);
    let env_d = env_after(env_a, d, f);
    lemma_env_of_one_write(env_a, d, f, 0);
    let env_b = env_after(env_d, b, f);
    if redirected {
        lemma_env_of_one_write(env_d, b, f, 2);
    } else {
        lemma_env_of_quiet_actions(env_d, b, f);
    }
    lemma_env_of_one_write(env_b, c, f, 1);
    lemma_env_concat(env, a, d + b + c, f);
    lemma_env_concat(env_a, d + b, c, f);
    lemma_env_concat(env_a, d, b, f);
    if redirected {
        let writes = seq![redirect_setting()];
        assert(writes.drop_last() =~= Seq::empty());
        reveal_with_fuel(applied, 2);
    }
    let n = (a.len() + 1 + b.len()) as int;
    assert forall|j: int, k: int|
        0 <= j < run.len() && 0 <= k < run.len() && is_write(#[trigger] run[j]) && (
        #[trigger] run[k]) is Spawn implies j < k by {
        if j >= n {
            assert(run[j] == c[j - n]);
        }
        assert(run[k] == c[k - n]);
    }
}

/// Where a run redirects the scripts.
proof fn lemma_where_scripts_are_redirected(
    layout: Layout,
    replies: spec_fn(HeadlessAction) -> bool,
)
    ensures
        (locate_actions(layout, replies) + launch_actions(replies)).contains(
            HeadlessAction::RedirectScripts,
        ) == (!replies(HeadlessAction::ProbeScripts) && replies(HeadlessAction::UnpackScripts)),
{
    let a = locate_actions(layout, replies);
    let b = script_actions(replies);
    let c = service_actions(replies);
    let n = (a.len() + 1 + b.len()) as int;
    let run = a + launch_actions(replies);
    let redirect = HeadlessAction::RedirectScripts;
    if !replies(HeadlessAction::ProbeScripts) && replies(HeadlessAction::UnpackScripts) {
        assert(run[a.len() as int + 3] == b[2]);
    } else {
        assert forall|k: int| 0 <= k < run.len() implies run[k] != redirect by {
            if k < a.len() {
                assert(run[k] == a[k]);
            } else if k == a.len() {
                assert(run[k] == HeadlessAction::WriteDefaults);
            } else if k < n {
                assert(run[k] == b[k - a.len() - 1]);
            } else {
                assert(run[k] == c[k - n]);
            }
        }
    }
}

/// The three defaults of the headless process are for different variables, and
/// nothing else that it writes is for one of them.
proof fn lemma_headless_names(layout: Layout, url: Seq<char>, i: int)
    requires
        0 <= i < 3,
    ensures
        headless_settings()[i].name != redirect_setting().name,
        forall|j: int|
            0 <= j < 3 && j != i ==> (#[trigger] headless_settings()[j]).name
                != headless_settings()[i].name,
        forall|j: int|
            0 <= j < asset_settings(layout).len() ==> (#[trigger] asset_settings(layout)[j]).name
                != headless_settings()[i].name,
        forall|j: int|
            0 <= j < gluon_url_settings(url).len() ==> (#[trigger] gluon_url_settings(url)[j]).name
                != headless_settings()[i].name,
{
    reveal_strlit("ION_REACTIVE__URL");
    reveal_strlit("ION_REACTIVE__HTTP_POOL_MAX_IDLE_PER_HOST");
    reveal_strlit("ION_REACTIVE__SERVICE_TOKEN");
    reveal_strlit("REACTIVE_SCRIPTS_ROOT");
    reveal_strlit("ION_SERVER__STATIC_DIR");
    reveal_strlit("NEUTRINO_BUILD_CONTEXT_DIR");
    reveal_strlit("NEUTRINO_GLUON__INTERNAL_URL");
    reveal_strlit("NEUTRINO_PHOTON__GLUON_URL");
    let h = headless_settings();
    let a = asset_settings(layout);
    let g = gluon_url_settings(url);
    assert(h[0].name.len() == 17 && h[1].name.len() == 41 && h[2].name.len() == 27);
    assert(a[0].name.len() == 21 && a[1].name.len() == 22 && a[2].name.len() == 26);
    assert(g[0].name.len() == 28 && g[1].name.len() == 26);
    assert(redirect_setting().name.len() == 21);
}

/// A value that ion's configuration file holds is not shadowed: no default is
/// written for its variable, which is set for the services only where the
/// operator had set it.
pub proof fn lemma_file_settings_are_not_shadowed(
    env: EnvView,
    layout: Layout,
    in_file: Seq<Seq<char>>,
    redirected: bool,
    url: Seq<char>,
    i: int,
)
    requires
        0 <= i < headless_settings().len(),
        in_file.contains(headless_settings()[i].name),
    ensures
        environment_of_services(env, layout, in_file, redirected, url).contains_key(
            headless_settings()[i].name,
        ) == env.contains_key(headless_settings()[i].name),
{
    let name = headless_settings()[i].name;
    let wanted = without(headless_settings(), in_file);
    let assets = applied(env, unset(env, asset_settings(layout)));
    let defaults = applied(assets, unset(assets, wanted));
    let scripts = if redirected {
        defaults.insert(redirect_setting().name, redirect_setting().value)
    } else {
        defaults
    };
    lemma_headless_names(layout, url, i);
    assert forall|j: int| 0 <= j < wanted.len() implies (#[trigger] wanted[j]).name != name by {
        lemma_without_leaves_no_name(headless_settings(), in_file, j);
    }
    lemma_other_defaults(env, asset_settings(layout), name);
    lemma_other_defaults(assets, wanted, name);
    lemma_other_defaults(scripts, gluon_url_settings(url), name);
}

/// Where neither the operator nor ion's configuration file says otherwise, the
/// services see exactly the default.
pub proof fn lemma_headless_defaults_apply(
    env: EnvView,
    layout: Layout,
    in_file: Seq<Seq<char>>,
    redirected: bool,
    url: Seq<char>,
    i: int,
)
    requires
        0 <= i < headless_settings().len(),
        !env.contains_key(headless_settings()[i].name),
        !in_file.contains(headless_settings()[i].name),
    ensures
        ({
            let after = environment_of_services(env, layout, in_file, redirected, url);
            &&& after.contains_key(headless_settings()[i].name)
            &&& after[headless_settings()[i].name] == headless_settings()[i].value
        }),
{
    let name = headless_settings()[i].name;
    let wanted = without(headless_settings(), in_file);
    let assets = applied(env, unset(env, asset_settings(layout)));
    let defaults = applied(assets, unset(assets, wanted));
    let scripts = if redirected {
        defaults.insert(redirect_setting().name, redirect_setting().value)
    } else {
        defaults
    };
    lemma_headless_names(layout, url, i);
    lemma_other_defaults(env, asset_settings(layout), name);
    lemma_without_keeps_the_rest(headless_settings(), in_file, i);
    let k = choose|k: int| 0 <= k < wanted.len() && wanted[k] == headless_settings()[i];
    lemma_without_once(headless_settings(), in_file, i, k);
    lemma_defaults_are_exact(assets, wanted, k);
    lemma_other_defaults(scripts, gluon_url_settings(url), name);
}

/// The filter of the log: what `FR_LOG` says, or `info`.
pub fn log_filter(env: &Env) -> (r: String)
    ensures
        r@ == text_or(env@, "FR_LOG"@, "info"@),
{
    env.text_or("FR_LOG", "info")
}

/// The setting that points the scripts' variable at the unpacked scripts.
pub fn scripts_redirect() -> (r: Setting)
    ensures
        r@ == redirect_setting(),
{
    Setting { name: "REACTIVE_SCRIPTS_ROOT".to_owned(), value: Value::UnpackedScripts }
}

/// The name, in the directory for temporary files, of the directory that the
/// embedded scripts are unpacked to.
pub fn scripts_dir_name() -> (r: &'static str)
    ensures
        r@ == "freeradicals-scripts"@,
{
    "freeradicals-scripts"
}

impl Headless {
    /// Starts the run of the process whose executable is at `exe`.
    pub fn new(exe: &Option<ExePath>) -> (r: Headless)
        ensures
            r.phase == HeadlessPhase::Start,
            r.layout == layout_of(
                match *exe {
                    Some(p) => Some(p@),
                    None => None,
                },
            ),
    {
        Headless { layout: find_layout(exe), phase: HeadlessPhase::Start }
    }

    /// What an action writes to the environment. `in_file` names the variables
    /// whose values ion's configuration file holds, and `url` is where gluon is
    /// reached.
    pub fn writes(
        &self,
        action: HeadlessAction,
        env: &Env,
        in_file: &Vec<String>,
        url: &str,
    ) -> (r: Vec<Setting>)
        ensures
            views(r@) == action_writes(action, self.layout, env@, texts(in_file@), url@),
    {
        match action {
            HeadlessAction::WriteAssetSettings => self.layout.asset_defaults(env),
            HeadlessAction::WriteDefaults => headless_defaults(env, in_file),
            HeadlessAction::RedirectScripts => {
                let r: Vec<Setting> = vec![scripts_redirect()];
                assert(views(r@) =~= seq![redirect_setting()]);
                r
            },
            HeadlessAction::WriteGluonUrls => gluon_url_defaults(env, url),
            _ => {
                let r: Vec<Setting> = Vec::new();
                assert(views(r@) =~= Seq::empty());
                r
            },
        }
    }

    /// The next move while the working directory is still to be chosen.
    fn locate(&self, ok: bool) -> (r: (HeadlessPhase, HeadlessAction))
        ensures
            r == locate_move(self.layout, self.phase, ok),
    {
        match self.phase {
            HeadlessPhase::Start => match self.layout {
                Layout::Portable(i) => (
                    HeadlessPhase::CfgProbed,
                    HeadlessAction::Probe(Dir { ancestor: i, child: Child::Cfg }),
                ),
                _ => (HeadlessPhase::AssetsWritten, HeadlessAction::WriteAssetSettings),
            },
            HeadlessPhase::CfgProbed => (
                HeadlessPhase::AssetsWritten,
                HeadlessAction::WriteAssetSettings,
            ),
            HeadlessPhase::AssetsWritten => match self.layout {
                Layout::Monorepo(i) => (
                    HeadlessPhase::HomeProbed,
                    HeadlessAction::Probe(Dir { ancestor: i, child: Child::SingleIon }),
                ),
                Layout::Portable(i) => (
                    HeadlessPhase::HomeEntered,
                    HeadlessAction::Enter(Dir { ancestor: i, child: Child::Itself }),
                ),
                Layout::Unknown => (HeadlessPhase::DefaultsWritten, HeadlessAction::WriteDefaults),
            },
            _ => match self.layout {
                Layout::Monorepo(i) if ok => (
                    HeadlessPhase::HomeEntered,
                    HeadlessAction::Enter(Dir { ancestor: i, child: Child::SingleIon }),
                ),
                _ => (HeadlessPhase::DefaultsWritten, HeadlessAction::WriteDefaults),
            },
        }
    }

    /// The next move once the working directory is chosen.
    fn launch(&self, ok: bool) -> (r: (HeadlessPhase, HeadlessAction))
        ensures
            r == launch_move(self.phase, ok),
    {
        match self.phase {
            HeadlessPhase::DefaultsWritten => (
                HeadlessPhase::ScriptsProbed,
                HeadlessAction::ProbeScripts,
            ),
            HeadlessPhase::ScriptsProbed if !ok => (
                HeadlessPhase::ScriptsUnpacked,
                HeadlessAction::UnpackScripts,
            ),
            HeadlessPhase::ScriptsUnpacked if ok => (
                HeadlessPhase::ScriptsRedirected,
                HeadlessAction::RedirectScripts,
            ),
            HeadlessPhase::ScriptsProbed | HeadlessPhase::ScriptsUnpacked
            | HeadlessPhase::ScriptsRedirected => (
                HeadlessPhase::GluonLoaded,
                HeadlessAction::LoadGluon,
            ),
            HeadlessPhase::GluonLoaded => (
                HeadlessPhase::GluonUrlsWritten,
                HeadlessAction::WriteGluonUrls,
            ),
            HeadlessPhase::GluonUrlsWritten => (HeadlessPhase::IonLoaded, HeadlessAction::LoadIon),
            HeadlessPhase::IonLoaded if ok => (
                HeadlessPhase::IonPointed,
                HeadlessAction::PointIonAtGluon,
            ),
            HeadlessPhase::IonLoaded => (
                HeadlessPhase::Stopped(false),
                HeadlessAction::Stop(false),
            ),
            HeadlessPhase::IonPointed => (
                HeadlessPhase::NeutrinoLoaded,
                HeadlessAction::LoadNeutrino,
            ),
            HeadlessPhase::NeutrinoLoaded => (
                HeadlessPhase::GluonSpawned,
                HeadlessAction::Spawn(Service::Gluon),
            ),
            HeadlessPhase::GluonSpawned => (
                HeadlessPhase::GluonListening,
                HeadlessAction::Sleep(GLUON_HEAD_START_MS),
            ),
            HeadlessPhase::GluonListening => (
                HeadlessPhase::ReactiveSpawned,
                HeadlessAction::Spawn(Service::Reactive),
            ),
            HeadlessPhase::ReactiveSpawned => (
                HeadlessPhase::IonSpawned,
                HeadlessAction::Spawn(Service::Ion),
            ),
            HeadlessPhase::IonSpawned => (
                HeadlessPhase::NeutrinoSpawned,
                HeadlessAction::Spawn(Service::Neutrino),
            ),
            HeadlessPhase::NeutrinoSpawned => (HeadlessPhase::Exited, HeadlessAction::AwaitExit),
            HeadlessPhase::Exited => (
                HeadlessPhase::ShutdownRequested,
                HeadlessAction::RequestShutdown,
            ),
            HeadlessPhase::ShutdownRequested => (
                HeadlessPhase::Flushed,
                HeadlessAction::Sleep(FLUSH_MS),
            ),
            HeadlessPhase::Stopped(success) => (
                HeadlessPhase::Stopped(success),
                HeadlessAction::Stop(success),
            ),
            _ => (HeadlessPhase::Stopped(true), HeadlessAction::Stop(true)),
        }
    }

    /// Takes the reply to the last action and gives the next action. The first
    /// call's reply is ignored, and so are the replies to actions that have no
    /// answer.
    pub fn next(&mut self, ok: bool) -> (r: HeadlessAction)
        ensures
            (*final(self), r) == headless_step(*old(self), ok),
    {
        let (phase, action) = match self.phase {
            HeadlessPhase::CfgProbed => {
                self.layout = self.layout.require_cfg(ok);
                self.locate(ok)
            },
            HeadlessPhase::Start | HeadlessPhase::AssetsWritten | HeadlessPhase::HomeProbed =>
            self.locate(ok),
            HeadlessPhase::HomeEntered => (
                HeadlessPhase::DefaultsWritten,
                HeadlessAction::WriteDefaults,
            ),
            _ => self.launch(ok),
        };
        self.phase = phase;
        action
    }
}

} // verus!
