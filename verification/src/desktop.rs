//! A desktop shell, from its first check to its window.
//!
//! The shell makes sure that the libraries it needs are there and that it is
//! the only instance, then reserves a loopback port for each service. The ports
//! are told to the services through the environment and released just before
//! the services start. The window opens once ion accepts connections. The
//! decisions are made here, one reply at a time; the caller performs the
//! actions.

use crate::env::{
    applied, lemma_defaults_keep_what_is_set, lemma_other_variables_untouched, unset, views, Env,
    EnvView, Setting, SettingView,
};
use crate::layout::{set_static_dirs, static_dir_settings};
use crate::network::{
    admin_defaults, admin_settings, http_text, http_url, lemma_defaults_keep_ports,
    lemma_port_settings_agree, loopback, loopback_text, port_settings, port_settings_of,
    ports_agree, Ports,
};
use crate::readiness::{wait_for_tcp, TcpWait, WaitPhase};
use crate::runs::{
    env_after, lemma_env_concat, lemma_env_of_one_write, lemma_env_of_quiet_actions, lemma_prepend,
};
use crate::text::{decimal, glue, to_decimal};
use vstd::prelude::*;

verus! {

/// How long ion may take to accept connections, in nanoseconds.
pub const READY_TIMEOUT_NS: u128 = 30_000_000_000;

/// The number of ports that are reserved.
pub const PORT_COUNT: usize = 5;

/// Which shell is run.
#[derive(Clone, Copy, PartialEq, Eq, Structural, Debug)]
pub enum Shell {
    /// The shell for every platform.
    App,
    /// The packaged shell for Windows.
    Packaged,
}

impl Shell {
    /// Whether neutrino's configuration is pointed at the port that was
    /// reserved for it; the packaged shell leaves that to the environment.
    pub fn binds_neutrino(&self) -> (r: bool)
        ensures
            r == (*self == Shell::App),
    {
        *self == Shell::App
    }
}

/// The platform that the shell was built for.
#[derive(Clone, Copy, PartialEq, Eq, Structural, Debug)]
pub enum Host {
    Linux,
    Windows,
    Other,
}

/// Why the shell ends.
#[derive(Clone, Copy, PartialEq, Eq, Structural, Debug)]
pub enum StopReason {
    /// The window was closed, or another instance is running.
    Success,
    /// Libraries are missing.
    MissingDependencies,
    /// Ion did not accept connections in time.
    NotReady,
    /// The last action failed, with an error of its own.
    Failed,
}

/// What the caller is asked to do.
#[derive(Clone, Copy, PartialEq, Eq, Structural, Debug)]
pub enum DesktopAction {
    /// Say whether the libraries can be loaded.
    CheckDependencies,
    /// Print which packages are missing.
    ReportMissing,
    /// Say whether this is the only instance.
    AcquireInstance,
    /// Bring the window of the running instance to the front.
    FocusRunning,
    /// Print that another instance is running.
    AnnounceRunning,
    /// Reserve the port with this number; say whether that worked.
    ReservePort(usize),
    /// Write the variables for the ports.
    WritePortSettings,
    /// Write the default credentials.
    WriteAdminDefaults,
    /// Release the reserved ports.
    ReleasePorts,
    /// Write the variables for the static assets.
    WriteStaticDirs,
    /// Start the log.
    StartLog,
    /// Start the thread of the services; say whether that worked.
    StartServices,
    /// Wait for ion; say whether it accepts connections.
    AwaitIon,
    /// Open the window on ion's page; say whether that worked.
    OpenWindow,
    /// Run the event loop of the window.
    RunLoop,
    /// Leave.
    Stop(StopReason),
}

/// The last action whose reply is awaited.
#[derive(Clone, Copy, PartialEq, Eq, Structural, Debug)]
pub enum DesktopPhase {
    Start,
    DependenciesChecked,
    MissingReported,
    InstanceAcquired,
    RunningFocused,
    RunningAnnounced,
    PortReserved(usize),
    PortSettingsWritten,
    AdminDefaultsWritten,
    PortsReleased,
    StaticDirsWritten,
    LogStarted,
    ServicesStarted,
    IonAwaited,
    WindowOpened,
    LoopEnded,
    Stopped(StopReason),
}

/// The run of a desktop shell.
#[derive(Clone, Copy, PartialEq, Eq, Structural, Debug)]
pub struct Desktop {
    pub shell: Shell,
    pub host: Host,
    pub phase: DesktopPhase,
}

/// A phase and the action that leads to it.
pub type DesktopMove = (DesktopPhase, DesktopAction);

/// Whether the shell looks for its libraries before it opens a window.
pub open spec fn checks_dependencies(shell: Shell, host: Host) -> bool {
    shell is App && host is Linux
}

/// Whether the shell insists on being the only instance. The packaged shell
/// has a guard on Windows only.
pub open spec fn is_guarded(shell: Shell, host: Host) -> bool {
    shell is App || host is Windows
}

/// Reserving port `i`, or going on where all are reserved.
pub open spec fn port_move(i: int) -> DesktopMove {
    if i < PORT_COUNT {
        (DesktopPhase::PortReserved(i as usize), DesktopAction::ReservePort(i as usize))
    } else {
        (DesktopPhase::PortSettingsWritten, DesktopAction::WritePortSettings)
    }
}

/// Insisting on being the only instance, or going on where that does not
/// matter.
pub open spec fn guard_move(shell: Shell, host: Host) -> DesktopMove {
    if is_guarded(shell, host) {
        (DesktopPhase::InstanceAcquired, DesktopAction::AcquireInstance)
    } else {
        port_move(0)
    }
}

/// Leaving.
pub open spec fn stop_move(reason: StopReason) -> DesktopMove {
    (DesktopPhase::Stopped(reason), DesktopAction::Stop(reason))
}

/// The move after the reply `ok` to the last action.
pub open spec fn desktop_move(
    shell: Shell,
    host: Host,
    phase: DesktopPhase,
    ok: bool,
) -> DesktopMove {
    match phase {
        DesktopPhase::Start => if checks_dependencies(shell, host) {
            (DesktopPhase::DependenciesChecked, DesktopAction::CheckDependencies)
        } else {
            guard_move(shell, host)
        },
        DesktopPhase::DependenciesChecked => if ok {
            guard_move(shell, host)
        } else {
            (DesktopPhase::MissingReported, DesktopAction::ReportMissing)
        },
        DesktopPhase::MissingReported => stop_move(StopReason::MissingDependencies),
        DesktopPhase::InstanceAcquired => if ok {
            port_move(0)
        } else if shell is Packaged {
            (DesktopPhase::RunningFocused, DesktopAction::FocusRunning)
        } else {
            (DesktopPhase::RunningAnnounced, DesktopAction::AnnounceRunning)
        },
        DesktopPhase::RunningFocused => (
            DesktopPhase::RunningAnnounced,
            DesktopAction::AnnounceRunning,
        ),
        DesktopPhase::RunningAnnounced => stop_move(StopReason::Success),
        DesktopPhase::PortReserved(i) => if ok {
            port_move(i + 1)
        } else {
            stop_move(StopReason::Failed)
        },
        DesktopPhase::PortSettingsWritten if shell is Packaged => (
            DesktopPhase::AdminDefaultsWritten,
            DesktopAction::WriteAdminDefaults,
        ),
        DesktopPhase::PortSettingsWritten | DesktopPhase::AdminDefaultsWritten => (
            DesktopPhase::PortsReleased,
            DesktopAction::ReleasePorts,
        ),
        DesktopPhase::PortsReleased => (
            DesktopPhase::StaticDirsWritten,
            DesktopAction::WriteStaticDirs,
        ),
        DesktopPhase::StaticDirsWritten => (DesktopPhase::LogStarted, DesktopAction::StartLog),
        DesktopPhase::LogStarted => (DesktopPhase::ServicesStarted, DesktopAction::StartServices),
        DesktopPhase::ServicesStarted => if ok {
            (DesktopPhase::IonAwaited, DesktopAction::AwaitIon)
        } else {
            stop_move(StopReason::Failed)
        },
        DesktopPhase::IonAwaited => if ok {
            (DesktopPhase::WindowOpened, DesktopAction::OpenWindow)
        } else {
            stop_move(StopReason::NotReady)
        },
        DesktopPhase::WindowOpened => if ok {
            (DesktopPhase::LoopEnded, DesktopAction::RunLoop)
        } else {
            stop_move(StopReason::Failed)
        },
        DesktopPhase::LoopEnded => stop_move(StopReason::Success),
        DesktopPhase::Stopped(reason) => stop_move(reason),
    }
}

/// The next state and action after the reply `ok` to the last action.
pub open spec fn desktop_step(m: Desktop, ok: bool) -> (Desktop, DesktopAction) {
    let (phase, action) = desktop_move(m.shell, m.host, m.phase, ok);
    (Desktop { shell: m.shell, host: m.host, phase }, action)
}

/// The actions of the first `steps` steps from `m`, where `ok` answers the last
/// action and `replies` the ones to come. Stopping ends the run.
pub open spec fn desktop_run(
    m: Desktop,
    ok: bool,
    replies: spec_fn(DesktopAction) -> bool,
    steps: nat,
) -> Seq<DesktopAction>
    decreases steps,
{
    if steps == 0 {
        Seq::empty()
    } else {
        let (next, action) = desktop_step(m, ok);
        if action is Stop {
            seq![action]
        } else {
            seq![action] + desktop_run(next, replies(action), replies, (steps - 1) as nat)
        }
    }
}

/// The window, once the services were started.
pub open spec fn window_actions(replies: spec_fn(DesktopAction) -> bool) -> Seq<DesktopAction> {
    if !replies(DesktopAction::StartServices) {
        seq![DesktopAction::Stop(StopReason::Failed)]
    } else if !replies(DesktopAction::AwaitIon) {
        seq![DesktopAction::AwaitIon, DesktopAction::Stop(StopReason::NotReady)]
    } else if !replies(DesktopAction::OpenWindow) {
        seq![
            DesktopAction::AwaitIon,
            DesktopAction::OpenWindow,
            DesktopAction::Stop(StopReason::Failed),
        ]
    } else {
        seq![
            DesktopAction::AwaitIon,
            DesktopAction::OpenWindow,
            DesktopAction::RunLoop,
            DesktopAction::Stop(StopReason::Success),
        ]
    }
}

/// Telling the services their ports and starting them.
pub open spec fn start_actions(shell: Shell) -> Seq<DesktopAction> {
    if shell is Packaged {
        seq![
            DesktopAction::WritePortSettings,
            DesktopAction::WriteAdminDefaults,
            DesktopAction::ReleasePorts,
            DesktopAction::WriteStaticDirs,
            DesktopAction::StartLog,
            DesktopAction::StartServices,
        ]
    } else {
        seq![
            DesktopAction::WritePortSettings,
            DesktopAction::ReleasePorts,
            DesktopAction::WriteStaticDirs,
            DesktopAction::StartLog,
            DesktopAction::StartServices,
        ]
    }
}

/// Reserving the ports from `i` on; the first that cannot be had ends the run.
pub open spec fn port_actions(
    shell: Shell,
    i: int,
    replies: spec_fn(DesktopAction) -> bool,
) -> Seq<DesktopAction>
    decreases PORT_COUNT - i,
{
    if i < 0 || i >= PORT_COUNT {
        start_actions(shell) + window_actions(replies)
    } else {
        let reserve = DesktopAction::ReservePort(i as usize);
        if replies(reserve) {
            seq![reserve] + port_actions(shell, i + 1, replies)
        } else {
            seq![reserve, DesktopAction::Stop(StopReason::Failed)]
        }
    }
}

/// Insisting on being the only instance.
pub open spec fn guard_actions(
    shell: Shell,
    host: Host,
    replies: spec_fn(DesktopAction) -> bool,
) -> Seq<DesktopAction> {
    if !is_guarded(shell, host) {
        port_actions(shell, 0, replies)
    } else if replies(DesktopAction::AcquireInstance) {
        seq![DesktopAction::AcquireInstance] + port_actions(shell, 0, replies)
    } else if shell is Packaged {
        seq![
            DesktopAction::AcquireInstance,
            DesktopAction::FocusRunning,
            DesktopAction::AnnounceRunning,
            DesktopAction::Stop(StopReason::Success),
        ]
    } else {
        seq![
            DesktopAction::AcquireInstance,
            DesktopAction::AnnounceRunning,
            DesktopAction::Stop(StopReason::Success),
        ]
    }
}

/// The whole run.
pub open spec fn desktop_actions(
    shell: Shell,
    host: Host,
    replies: spec_fn(DesktopAction) -> bool,
) -> Seq<DesktopAction> {
    if !checks_dependencies(shell, host) {
        guard_actions(shell, host, replies)
    } else if replies(DesktopAction::CheckDependencies) {
        seq![DesktopAction::CheckDependencies] + guard_actions(shell, host, replies)
    } else {
        seq![
            DesktopAction::CheckDependencies,
            DesktopAction::ReportMissing,
            DesktopAction::Stop(StopReason::MissingDependencies),
        ]
    }
}

/// A shell in a phase.
spec fn at(shell: Shell, host: Host, phase: DesktopPhase) -> Desktop {
    Desktop { shell, host, phase }
}

/// The run from the moment the services were started.
proof fn lemma_window_run(
    shell: Shell,
    host: Host,
    replies: spec_fn(DesktopAction) -> bool,
    steps: nat,
)
    requires
        steps >= 4,
    ensures
        desktop_run(
            at(shell, host, DesktopPhase::ServicesStarted),
            replies(DesktopAction::StartServices),
            replies,
            steps,
        ) == window_actions(replies),
{
    reveal_with_fuel(desktop_run, 5);
    assert(desktop_run(
        at(shell, host, DesktopPhase::ServicesStarted),
        replies(DesktopAction::StartServices),
        replies,
        steps,
    ) =~= window_actions(replies));
}

/// One step of a run.
proof fn lemma_one_step(
    m: Desktop,
    ok: bool,
    replies: spec_fn(DesktopAction) -> bool,
    steps: nat,
    next: Desktop,
    action: DesktopAction,
)
    requires
        steps > 0,
        desktop_step(m, ok) == (next, action),
        !(action is Stop),
    ensures
        desktop_run(m, ok, replies, steps) == seq![action] + desktop_run(
            next,
            replies(action),
            replies,
            (steps - 1) as nat,
        ),
{
}

/// The run from the moment the ports were released.
proof fn lemma_released_run(
    shell: Shell,
    host: Host,
    ok: bool,
    replies: spec_fn(DesktopAction) -> bool,
    steps: nat,
)
    requires
        steps >= 7,
    ensures
        desktop_run(at(shell, host, DesktopPhase::PortsReleased), ok, replies, steps) == seq![
            DesktopAction::WriteStaticDirs,
            DesktopAction::StartLog,
            DesktopAction::StartServices,
        ] + window_actions(replies),
{
    let dirs = DesktopAction::WriteStaticDirs;
    let log = DesktopAction::StartLog;
    let services = DesktopAction::StartServices;
    let m1 = at(shell, host, DesktopPhase::PortsReleased);
    let m2 = at(shell, host, DesktopPhase::StaticDirsWritten);
    let m3 = at(shell, host, DesktopPhase::LogStarted);
    let m4 = at(shell, host, DesktopPhase::ServicesStarted);
    lemma_one_step(m1, ok, replies, steps, m2, dirs);
    lemma_one_step(m2, replies(dirs), replies, (steps - 1) as nat, m3, log);
    lemma_one_step(m3, replies(log), replies, (steps - 2) as nat, m4, services);
    lemma_window_run(shell, host, replies, (steps - 3) as nat);
    lemma_prepend(dirs, log, services, window_actions(replies));
}

/// Both lists of start actions, split before the static directories.
proof fn lemma_split_start(tail: Seq<DesktopAction>)
    ensures
        seq![DesktopAction::WritePortSettings, DesktopAction::ReleasePorts] + (seq![
            DesktopAction::WriteStaticDirs,
            DesktopAction::StartLog,
            DesktopAction::StartServices,
        ] + tail) == start_actions(Shell::App) + tail,
        seq![
            DesktopAction::WritePortSettings,
            DesktopAction::WriteAdminDefaults,
            DesktopAction::ReleasePorts,
        ] + (seq![
            DesktopAction::WriteStaticDirs,
            DesktopAction::StartLog,
            DesktopAction::StartServices,
        ] + tail) == start_actions(Shell::Packaged) + tail,
{
    let end = seq![
        DesktopAction::WriteStaticDirs,
        DesktopAction::StartLog,
        DesktopAction::StartServices,
    ];
    assert(seq![DesktopAction::WritePortSettings, DesktopAction::ReleasePorts] + (end + tail)
        =~= start_actions(Shell::App) + tail);
    assert(seq![
        DesktopAction::WritePortSettings,
        DesktopAction::WriteAdminDefaults,
        DesktopAction::ReleasePorts,
    ] + (end + tail) =~= start_actions(Shell::Packaged) + tail);
}

/// The run from a state whose next action is to write the variables for the
/// ports.
proof fn lemma_start_run(
    m: Desktop,
    ok: bool,
    replies: spec_fn(DesktopAction) -> bool,
    steps: nat,
)
    requires
        steps >= 10,
        desktop_move(m.shell, m.host, m.phase, ok) == port_move(PORT_COUNT as int),
    ensures
        desktop_run(m, ok, replies, steps) == start_actions(m.shell) + window_actions(replies),
{
    let ports = DesktopAction::WritePortSettings;
    let admin = DesktopAction::WriteAdminDefaults;
    let release = DesktopAction::ReleasePorts;
    let written = at(m.shell, m.host, DesktopPhase::PortSettingsWritten);
    let defaulted = at(m.shell, m.host, DesktopPhase::AdminDefaultsWritten);
    let released = at(m.shell, m.host, DesktopPhase::PortsReleased);
    let n1 = (steps - 1) as nat;
    let n2 = (steps - 2) as nat;
    let n3 = (steps - 3) as nat;
    let rest = seq![
        DesktopAction::WriteStaticDirs,
        DesktopAction::StartLog,
        DesktopAction::StartServices,
    ] + window_actions(replies);
    lemma_one_step(m, ok, replies, steps, written, ports);
    lemma_split_start(window_actions(replies));
    if m.shell is Packaged {
        lemma_one_step(written, replies(ports), replies, n1, defaulted, admin);
        lemma_one_step(defaulted, replies(admin), replies, n2, released, release);
        lemma_released_run(m.shell, m.host, replies(release), replies, n3);
        lemma_prepend(ports, admin, release, rest);
    } else {
        lemma_one_step(written, replies(ports), replies, n1, released, release);
        lemma_released_run(m.shell, m.host, replies(release), replies, n2);
        lemma_prepend(ports, release, release, rest);
    }
}

/// The run from a state that turns to port `i`.
proof fn lemma_port_run(
    m: Desktop,
    ok: bool,
    i: int,
    replies: spec_fn(DesktopAction) -> bool,
    steps: nat,
)
    requires
        0 <= i <= PORT_COUNT,
        steps >= 10 + PORT_COUNT - i,
        desktop_move(m.shell, m.host, m.phase, ok) == port_move(i),
    ensures
        desktop_run(m, ok, replies, steps) == port_actions(m.shell, i, replies),
    decreases PORT_COUNT - i,
{
    if i == PORT_COUNT {
        lemma_start_run(m, ok, replies, steps);
    } else {
        let reserve = DesktopAction::ReservePort(i as usize);
        let next = at(m.shell, m.host, DesktopPhase::PortReserved(i as usize));
        assert(desktop_run(m, ok, replies, steps) == seq![reserve] + desktop_run(
            next,
            replies(reserve),
            replies,
            (steps - 1) as nat,
        ));
        if replies(reserve) {
            lemma_port_run(next, true, i + 1, replies, (steps - 1) as nat);
        } else {
            assert(desktop_run(next, false, replies, (steps - 1) as nat) =~= seq![
                DesktopAction::Stop(StopReason::Failed),
            ]);
            assert(seq![reserve] + seq![DesktopAction::Stop(StopReason::Failed)] =~= seq![
                reserve,
                DesktopAction::Stop(StopReason::Failed),
            ]);
        }
    }
}

/// The run from a state that turns to the guard.
proof fn lemma_guard_run(
    m: Desktop,
    ok: bool,
    replies: spec_fn(DesktopAction) -> bool,
    steps: nat,
)
    requires
        steps >= 16,
        desktop_move(m.shell, m.host, m.phase, ok) == guard_move(m.shell, m.host),
    ensures
        desktop_run(m, ok, replies, steps) == guard_actions(m.shell, m.host, replies),
{
    let acquire = DesktopAction::AcquireInstance;
    let next = at(m.shell, m.host, DesktopPhase::InstanceAcquired);
    if !is_guarded(m.shell, m.host) {
        lemma_port_run(m, ok, 0, replies, steps);
    } else {
        assert(desktop_run(m, ok, replies, steps) == seq![acquire] + desktop_run(
            next,
            replies(acquire),
            replies,
            (steps - 1) as nat,
        ));
        if replies(acquire) {
            lemma_port_run(next, true, 0, replies, (steps - 1) as nat);
        } else {
            reveal_with_fuel(desktop_run, 5);
            assert(desktop_run(m, ok, replies, steps) =~= guard_actions(
                m.shell,
                m.host,
                replies,
            ));
        }
    }
}

/// However the system replies, the shell looks for its libraries first, then
/// insists on being the only instance, reserves all five ports before it tells
/// the services, releases them before it starts the services, and opens the
/// window only once ion accepts connections. Whatever fails ends the run there.
pub proof fn lemma_desktop_run(
    shell: Shell,
    host: Host,
    replies: spec_fn(DesktopAction) -> bool,
    ok: bool,
    steps: nat,
)
    requires
        steps >= 17,
    ensures
        desktop_run(Desktop { shell, host, phase: DesktopPhase::Start }, ok, replies, steps)
            == desktop_actions(shell, host, replies),
{
    let start = at(shell, host, DesktopPhase::Start);
    let check = DesktopAction::CheckDependencies;
    let next = at(shell, host, DesktopPhase::DependenciesChecked);
    if !checks_dependencies(shell, host) {
        lemma_guard_run(start, ok, replies, steps);
    } else {
        assert(desktop_run(start, ok, replies, steps) == seq![check] + desktop_run(
            next,
            replies(check),
            replies,
            (steps - 1) as nat,
        ));
        if replies(check) {
            lemma_guard_run(next, true, replies, (steps - 1) as nat);
        } else {
            reveal_with_fuel(desktop_run, 4);
            assert(desktop_run(start, ok, replies, steps) =~= desktop_actions(
                shell,
                host,
                replies,
            ));
        }
    }
}

/// Whether everything that comes before the services succeeds.
pub open spec fn may_start_services(
    shell: Shell,
    host: Host,
    replies: spec_fn(DesktopAction) -> bool,
) -> bool {
    &&& checks_dependencies(shell, host) ==> replies(DesktopAction::CheckDependencies)
    &&& is_guarded(shell, host) ==> replies(DesktopAction::AcquireInstance)
    &&& replies(DesktopAction::ReservePort(0))
    &&& replies(DesktopAction::ReservePort(1))
    &&& replies(DesktopAction::ReservePort(2))
    &&& replies(DesktopAction::ReservePort(3))
    &&& replies(DesktopAction::ReservePort(4))
}

/// The checks of a shell, as far as it makes them.
pub open spec fn check_actions(shell: Shell, host: Host) -> Seq<DesktopAction> {
    (if checks_dependencies(shell, host) {
        seq![DesktopAction::CheckDependencies]
    } else {
        Seq::empty()
    }) + (if is_guarded(shell, host) {
        seq![DesktopAction::AcquireInstance]
    } else {
        Seq::empty()
    })
}

/// Reserving all ports.
pub open spec fn reserve_actions() -> Seq<DesktopAction> {
    seq![
        DesktopAction::ReservePort(0),
        DesktopAction::ReservePort(1),
        DesktopAction::ReservePort(2),
        DesktopAction::ReservePort(3),
        DesktopAction::ReservePort(4),
    ]
}

/// Whether an action touches the services or the window.
pub open spec fn is_launch(action: DesktopAction) -> bool {
    action is StartServices || action is AwaitIon || action is OpenWindow || action is RunLoop
}

/// The ports part of a run: all ports and what follows, or an early end.
proof fn lemma_port_list(shell: Shell, replies: spec_fn(DesktopAction) -> bool)
    ensures
        ({
            let list = port_actions(shell, 0, replies);
            if replies(DesktopAction::ReservePort(0)) && replies(DesktopAction::ReservePort(1))
                && replies(DesktopAction::ReservePort(2)) && replies(DesktopAction::ReservePort(3))
                && replies(DesktopAction::ReservePort(4)) {
                list == reserve_actions() + (start_actions(shell) + window_actions(replies))
            } else {
                &&& list.last() == DesktopAction::Stop(StopReason::Failed)
                &&& forall|k: int| 0 <= k < list.len() ==> !is_launch(#[trigger] list[k])
            }
        }),
{
    reveal_with_fuel(port_actions, 6);
    let tail = start_actions(shell) + window_actions(replies);
    let r0 = DesktopAction::ReservePort(0);
    let r1 = DesktopAction::ReservePort(1);
    let r2 = DesktopAction::ReservePort(2);
    let r3 = DesktopAction::ReservePort(3);
    let r4 = DesktopAction::ReservePort(4);
    if replies(r0) && replies(r1) && replies(r2) && replies(r3) && replies(r4) {
        assert(port_actions(shell, 5, replies) == tail);
        assert(port_actions(shell, 0, replies) == seq![r0] + (seq![r1] + (seq![r2] + (seq![r3] + (
        seq![r4] + tail)))));
        assert(seq![r0] + (seq![r1] + (seq![r2] + (seq![r3] + (seq![r4] + tail))))
            =~= reserve_actions() + tail);
    }
}

/// The run of a shell from the start.
pub open spec fn whole_run(
    shell: Shell,
    host: Host,
    replies: spec_fn(DesktopAction) -> bool,
    ok: bool,
    steps: nat,
) -> Seq<DesktopAction> {
    desktop_run(Desktop { shell, host, phase: DesktopPhase::Start }, ok, replies, steps)
}

/// A run that may start the services goes, in this order, through the checks,
/// all five reservations, the announcement of the ports, their release and the
/// start of the services, and only then to the window.
pub proof fn lemma_order_of_a_launch(
    shell: Shell,
    host: Host,
    replies: spec_fn(DesktopAction) -> bool,
    ok: bool,
    steps: nat,
)
    requires
        steps >= 17,
        may_start_services(shell, host, replies),
    ensures
        whole_run(shell, host, replies, ok, steps) == check_actions(shell, host) + (
        reserve_actions() + (start_actions(shell) + window_actions(replies))),
{
    lemma_desktop_run(shell, host, replies, ok, steps);
    lemma_port_list(shell, replies);
    let check = DesktopAction::CheckDependencies;
    let acquire = DesktopAction::AcquireInstance;
    let tail = port_actions(shell, 0, replies);
    if checks_dependencies(shell, host) {
        assert(seq![check] + (seq![acquire] + tail) =~= check_actions(shell, host) + tail);
    } else if is_guarded(shell, host) {
        assert(seq![acquire] + tail =~= check_actions(shell, host) + tail);
    } else {
        assert(tail =~= check_actions(shell, host) + tail);
    }
}

/// Where a library is missing, another instance runs or a port cannot be had,
/// no service starts and no window opens.
pub proof fn lemma_no_launch_after_failed_check(
    shell: Shell,
    host: Host,
    replies: spec_fn(DesktopAction) -> bool,
    ok: bool,
    steps: nat,
    k: int,
)
    requires
        steps >= 17,
        !may_start_services(shell, host, replies),
        0 <= k < whole_run(shell, host, replies, ok, steps).len(),
    ensures
        !is_launch(whole_run(shell, host, replies, ok, steps)[k]),
{
    lemma_desktop_run(shell, host, replies, ok, steps);
    lemma_port_list(shell, replies);
    let run = desktop_actions(shell, host, replies);
    let ports = port_actions(shell, 0, replies);
    let n = run.len() - ports.len();
    if !(checks_dependencies(shell, host) && !replies(DesktopAction::CheckDependencies)) {
        if !(is_guarded(shell, host) && !replies(DesktopAction::AcquireInstance)) {
            if k >= n {
                assert(run[k] == ports[k - n]);
            }
        }
    }
}

/// A second instance ends with success and without a launch.
pub proof fn lemma_second_instance_leaves(
    shell: Shell,
    host: Host,
    replies: spec_fn(DesktopAction) -> bool,
    ok: bool,
    steps: nat,
)
    requires
        steps >= 17,
        is_guarded(shell, host),
        checks_dependencies(shell, host) ==> replies(DesktopAction::CheckDependencies),
        !replies(DesktopAction::AcquireInstance),
    ensures
        whole_run(shell, host, replies, ok, steps).last() == DesktopAction::Stop(
            StopReason::Success,
        ),
{
    lemma_desktop_run(shell, host, replies, ok, steps);
}

/// In the order of a launch, the window stands behind the wait for ion.
proof fn lemma_window_part(
    shell: Shell,
    host: Host,
    replies: spec_fn(DesktopAction) -> bool,
    list: Seq<DesktopAction>,
    k: int,
)
    requires
        list == check_actions(shell, host) + (reserve_actions() + (start_actions(shell)
            + window_actions(replies))),
        0 <= k < list.len(),
        list[k] is OpenWindow || list[k] is RunLoop,
    ensures
        replies(DesktopAction::AwaitIon),
        exists|j: int| 0 <= j < k && #[trigger] list[j] == DesktopAction::AwaitIon,
{
    let a = check_actions(shell, host);
    let b = reserve_actions();
    let c = start_actions(shell);
    let d = window_actions(replies);
    let n = (a.len() + b.len() + c.len()) as int;
    if k < a.len() {
        assert(list[k] == a[k]);
    } else if k < a.len() + b.len() {
        assert(list[k] == b[k - a.len()]);
    } else if k < n {
        assert(list[k] == c[k - a.len() - b.len()]);
    } else {
        assert(list[k] == d[k - n]);
        assert(list[n] == d[0]);
    }
}

/// The window opens only after ion was waited for and accepted connections.
pub proof fn lemma_window_waits_for_ion(
    shell: Shell,
    host: Host,
    replies: spec_fn(DesktopAction) -> bool,
    ok: bool,
    steps: nat,
    k: int,
)
    requires
        steps >= 17,
        0 <= k < whole_run(shell, host, replies, ok, steps).len(),
        whole_run(shell, host, replies, ok, steps)[k] is OpenWindow || whole_run(
            shell,
            host,
            replies,
            ok,
            steps,
        )[k] is RunLoop,
    ensures
        replies(DesktopAction::AwaitIon),
        exists|j: int|
            0 <= j < k && #[trigger] whole_run(shell, host, replies, ok, steps)[j]
                == DesktopAction::AwaitIon,
{
    if may_start_services(shell, host, replies) {
        lemma_order_of_a_launch(shell, host, replies, ok, steps);
        lemma_window_part(
            shell,
            host,
            replies,
            whole_run(shell, host, replies, ok, steps),
            k,
        );
    } else {
        lemma_no_launch_after_failed_check(shell, host, replies, ok, steps, k);
    }
}

/// What an action writes to the environment. An action that writes nothing
/// gives nothing.
pub open spec fn action_writes(
    action: DesktopAction,
    env: EnvView,
    ports: Ports,
) -> Seq<SettingView> {
    match action {
        DesktopAction::WritePortSettings => port_settings_of(ports),
        DesktopAction::WriteAdminDefaults => unset(env, admin_settings()),
        DesktopAction::WriteStaticDirs => unset(env, static_dir_settings()),
        _ => Seq::empty(),
    }
}

/// What each action writes, for a run with these ports.
pub open spec fn writes_of_run(
    ports: Ports,
) -> spec_fn(DesktopAction, EnvView) -> Seq<SettingView> {
    |action: DesktopAction, env: EnvView| action_writes(action, env, ports)
}

/// Whether an action writes to the environment.
pub open spec fn is_write(action: DesktopAction) -> bool {
    action is WritePortSettings || action is WriteAdminDefaults || action is WriteStaticDirs
}

/// The environment that the services of a shell see: the ports, then the
/// credentials and the static assets where they are not set.
pub open spec fn environment_of_services(env: EnvView, shell: Shell, ports: Ports) -> EnvView {
    let told = applied(env, port_settings_of(ports));
    let known = if shell is Packaged {
        applied(told, unset(told, admin_settings()))
    } else {
        told
    };
    applied(known, unset(known, static_dir_settings()))
}

/// What the announcement of the ports and the rest of the start write.
proof fn lemma_env_of_start(env: EnvView, shell: Shell, ports: Ports)
    ensures
        env_after(env, start_actions(shell), writes_of_run(ports)) == environment_of_services(
            env,
            shell,
            ports,
        ),
{
    let f = writes_of_run(ports);
    let told = applied(env, port_settings_of(ports));
    let a = seq![DesktopAction::WritePortSettings];
    let b = if shell is Packaged {
        seq![DesktopAction::WriteAdminDefaults]
    } else {
        Seq::empty()
    };
    let c = seq![
        DesktopAction::ReleasePorts,
        DesktopAction::WriteStaticDirs,
        DesktopAction::StartLog,
        DesktopAction::StartServices,
    ];
    assert(start_actions(shell) =~= a + (b + c));
    lemma_env_concat(env, a, b + c, f);
    lemma_env_concat(told, b, c, f);
    lemma_env_of_one_write(env, a, f, 0);
    if shell is Packaged {
        lemma_env_of_one_write(told, b, f, 0);
    }
    lemma_env_of_one_write(env_after(told, b, f), c, f, 1);
}

/// However the system replies, the writes of a run that may start the services
/// amount to the environment of the services, and all of them come before the
/// start of the services.
pub proof fn lemma_run_makes_environment(
    env: EnvView,
    shell: Shell,
    host: Host,
    replies: spec_fn(DesktopAction) -> bool,
    ok: bool,
    steps: nat,
    ports: Ports,
)
    requires
        steps >= 17,
        may_start_services(shell, host, replies),
    ensures
        ({
            let run = whole_run(shell, host, replies, ok, steps);
            &&& env_after(env, run, writes_of_run(ports)) == environment_of_services(
                env,
                shell,
                ports,
            )
            &&& forall|j: int, k: int|
                0 <= j < run.len() && 0 <= k < run.len() && is_write(#[trigger] run[j]) && (
                #[trigger] run[k]) is StartServices ==> j < k
        }),
{
    lemma_order_of_a_launch(shell, host, replies, ok, steps);
    let a = check_actions(shell, host);
    let b = reserve_actions();
    let c = start_actions(shell);
    let d = window_actions(replies);
    let run = whole_run(shell, host, replies, ok, steps);
    let f = writes_of_run(ports);
    lemma_env_of_quiet_actions(env, a, f);
    lemma_env_of_quiet_actions(env, b, f);
    lemma_env_of_start(env, shell, ports);
    lemma_env_of_quiet_actions(environment_of_services(env, shell, ports), d, f);
    lemma_env_concat(env, a, b + (c + d), f);
    lemma_env_concat(env, b, c + d, f);
    lemma_env_concat(env, c, d, f);
    let n = (a.len() + b.len()) as int;
    let last = c.len() - 1;
    assert forall|k: int| 0 <= k < run.len() implies {
        &&& is_write(#[trigger] run[k]) ==> k < n + last
        &&& run[k] is StartServices ==> k == n + last
    } by {
        if k < a.len() {
            assert(run[k] == a[k]);
        } else if k < n {
            assert(run[k] == b[k - a.len()]);
        } else if k <= n + last {
            assert(run[k] == c[k - n]);
        } else {
            assert(run[k] == d[k - n - c.len()]);
        }
    }
}

/// The services of a shell see the ports that were reserved for them: the
/// defaults that are written after the ports replace none of their variables.
pub proof fn lemma_services_see_their_ports(env: EnvView, shell: Shell, ports: Ports)
    ensures
        ports_agree(environment_of_services(env, shell, ports), ports),
{
    let told = applied(env, port_settings_of(ports));
    let known = if shell is Packaged {
        applied(told, unset(told, admin_settings()))
    } else {
        told
    };
    lemma_port_settings_agree(env, ports);
    if shell is Packaged {
        lemma_defaults_keep_ports(told, ports, admin_settings());
    }
    lemma_defaults_keep_ports(known, ports, static_dir_settings());
}

/// What the operator has set stays as it is, but for the variables of the
/// ports.
pub proof fn lemma_overrides_survive(
    env: EnvView,
    shell: Shell,
    ports: Ports,
    name: Seq<char>,
)
    requires
        env.contains_key(name),
        forall|i: int|
            0 <= i < port_settings_of(ports).len() ==> (#[trigger] port_settings_of(ports)[i]).name
                != name,
    ensures
        environment_of_services(env, shell, ports).contains_key(name),
        environment_of_services(env, shell, ports)[name] == env[name],
{
    let told = applied(env, port_settings_of(ports));
    let known = if shell is Packaged {
        applied(told, unset(told, admin_settings()))
    } else {
        told
    };
    lemma_other_variables_untouched(env, port_settings_of(ports), name);
    lemma_defaults_keep_what_is_set(told, admin_settings(), name);
    lemma_defaults_keep_what_is_set(known, static_dir_settings(), name);
}

/// A run is made of steps, each of which takes the reply to the action before;
/// stopping is the last action.
pub proof fn lemma_run_follows_steps(
    m: Desktop,
    ok: bool,
    replies: spec_fn(DesktopAction) -> bool,
    steps: nat,
)
    ensures
        desktop_run(m, ok, replies, 0) == Seq::<DesktopAction>::empty(),
        ({
            let (next, action) = desktop_step(m, ok);
            desktop_run(m, ok, replies, steps + 1) == if action is Stop {
                seq![action]
            } else {
                seq![action] + desktop_run(next, replies(action), replies, steps)
            }
        }),
{
}

/// A shell that was told to leave stays so, for the same reason.
pub proof fn lemma_stopped_stays_stopped(m: Desktop, ok: bool, later: bool)
    requires
        desktop_step(m, ok).1 is Stop,
    ensures
        desktop_step(desktop_step(m, ok).0, later) == desktop_step(m, ok),
{
}

/// From the announcement of the ports to the window: the packaged shell alone
/// writes credentials; the ports are released before the services start; the
/// window opens only once ion was waited for; and every failure has its own end.
pub proof fn lemma_launch_in_order(shell: Shell, replies: spec_fn(DesktopAction) -> bool)
    ensures
        start_actions(shell) + window_actions(replies) == seq![DesktopAction::WritePortSettings] + (
        if shell == Shell::Packaged {
            seq![DesktopAction::WriteAdminDefaults]
        } else {
            Seq::empty()
        }) + seq![
            DesktopAction::ReleasePorts,
            DesktopAction::WriteStaticDirs,
            DesktopAction::StartLog,
            DesktopAction::StartServices,
        ] + (if !replies(DesktopAction::StartServices) {
            seq![DesktopAction::Stop(StopReason::Failed)]
        } else if !replies(DesktopAction::AwaitIon) {
            seq![DesktopAction::AwaitIon, DesktopAction::Stop(StopReason::NotReady)]
        } else if !replies(DesktopAction::OpenWindow) {
            seq![
                DesktopAction::AwaitIon,
                DesktopAction::OpenWindow,
                DesktopAction::Stop(StopReason::Failed),
            ]
        } else {
            seq![
                DesktopAction::AwaitIon,
                DesktopAction::OpenWindow,
                DesktopAction::RunLoop,
                DesktopAction::Stop(StopReason::Success),
            ]
        }),
{
    let tell = seq![DesktopAction::WritePortSettings];
    let admin = if shell == Shell::Packaged {
        seq![DesktopAction::WriteAdminDefaults]
    } else {
        Seq::empty()
    };
    let start = seq![
        DesktopAction::ReleasePorts,
        DesktopAction::WriteStaticDirs,
        DesktopAction::StartLog,
        DesktopAction::StartServices,
    ];
    assert(tell + admin + start =~= start_actions(shell));
}

/// The five ports are reserved one by one; the first that cannot be had ends the
/// run with its error, and only with all of them the launch follows.
pub proof fn lemma_ports_in_order(shell: Shell, replies: spec_fn(DesktopAction) -> bool, i: usize)
    ensures
        i < 5 && replies(DesktopAction::ReservePort(i)) ==> port_actions(shell, i as int, replies)
            == seq![DesktopAction::ReservePort(i)] + port_actions(shell, i + 1, replies),
        i < 5 && !replies(DesktopAction::ReservePort(i)) ==> port_actions(shell, i as int, replies)
            == seq![DesktopAction::ReservePort(i), DesktopAction::Stop(StopReason::Failed)],
        port_actions(shell, 5, replies) == start_actions(shell) + window_actions(replies),
{
}

/// How a shell begins: on Linux the shell for every platform looks for its
/// libraries; that shell, and the packaged one on Windows, insist on being the
/// only instance; then come the ports. A second instance leaves with success,
/// and the packaged shell brings the first to the front before.
pub proof fn lemma_beginning_of_a_run(
    shell: Shell,
    host: Host,
    replies: spec_fn(DesktopAction) -> bool,
    ok: bool,
    steps: nat,
)
    requires
        steps >= 17,
    ensures
        ({
            let run = desktop_run(
                Desktop { shell, host, phase: DesktopPhase::Start },
                ok,
                replies,
                steps,
            );
            let ports = port_actions(shell, 0, replies);
            let checks = shell == Shell::App && host == Host::Linux;
            let guards = shell == Shell::App || host == Host::Windows;
            let check = if checks {
                seq![DesktopAction::CheckDependencies]
            } else {
                Seq::empty()
            };
            if checks && !replies(DesktopAction::CheckDependencies) {
                run == seq![
                    DesktopAction::CheckDependencies,
                    DesktopAction::ReportMissing,
                    DesktopAction::Stop(StopReason::MissingDependencies),
                ]
            } else if !guards {
                run == check + ports
            } else if replies(DesktopAction::AcquireInstance) {
                run == check + (seq![DesktopAction::AcquireInstance] + ports)
            } else if shell == Shell::Packaged {
                run == check + seq![
                    DesktopAction::AcquireInstance,
                    DesktopAction::FocusRunning,
                    DesktopAction::AnnounceRunning,
                    DesktopAction::Stop(StopReason::Success),
                ]
            } else {
                run == check + seq![
                    DesktopAction::AcquireInstance,
                    DesktopAction::AnnounceRunning,
                    DesktopAction::Stop(StopReason::Success),
                ]
            }
        }),
{
    lemma_desktop_run(shell, host, replies, ok, steps);
    let guard = guard_actions(shell, host, replies);
    assert(Seq::<DesktopAction>::empty() + guard =~= guard);
}

/// Three actions write, each its own variables, and no other writes anything: the
/// ports, the credentials, and the static assets.
pub proof fn lemma_what_actions_write(action: DesktopAction, env: EnvView, ports: Ports)
    ensures
        writes_of_run(ports)(action, env) == action_writes(action, env, ports),
        action == DesktopAction::WritePortSettings ==> action_writes(action, env, ports)
            == port_settings_of(ports),
        action == DesktopAction::WriteAdminDefaults ==> action_writes(action, env, ports) == unset(
            env,
            admin_settings(),
        ),
        action == DesktopAction::WriteStaticDirs ==> action_writes(action, env, ports) == unset(
            env,
            static_dir_settings(),
        ),
        !(action is WritePortSettings || action is WriteAdminDefaults || action is WriteStaticDirs)
            ==> action_writes(action, env, ports) == Seq::<SettingView>::empty(),
{
}

/// The wait for ion, on its own port.
pub fn wait_for_ion(ports: &Ports) -> (r: TcpWait)
    ensures
        r == (TcpWait {
            port: ports.ion,
            timeout_ns: READY_TIMEOUT_NS,
            phase: WaitPhase::Clock,
        }),
        r.timeout_ns == 30_000_000_000,
{
    wait_for_tcp(ports.ion, READY_TIMEOUT_NS)
}

/// The page that the window opens on: that of ion.
pub fn page_url(ports: &Ports) -> (r: String)
    ensures
        r@ == http_text(ports.ion),
        r@ == "http://127.0.0.1:"@ + decimal(ports.ion as nat),
{
    http_url(ports.ion)
}

/// The address that is put into neutrino's configuration.
pub fn neutrino_address(ports: &Ports) -> (r: String)
    ensures
        r@ == loopback_text(ports.neutrino),
        r@ == "127.0.0.1:"@ + decimal(ports.neutrino as nat),
{
    loopback(ports.neutrino)
}

/// The message for an ion that did not accept connections in time.
pub fn not_ready_message(port: u16) -> (r: String)
    ensures
        r@ == "ION did not start within 30 seconds on port "@ + decimal(port as nat),
{
    glue("ION did not start within 30 seconds on port ", to_decimal(port as u64).as_str())
}

/// The ports by service, in the order in which they are reserved.
pub fn assign_ports(reserved: &Vec<u16>) -> (r: Option<Ports>)
    ensures
        match r {
            Some(p) => reserved@ == seq![p.gluon, p.reactive, p.pgwire, p.ion, p.neutrino],
            None => reserved@.len() != PORT_COUNT,
        },
{
    if reserved.len() == PORT_COUNT {
        let p = Ports {
            gluon: reserved[0],
            reactive: reserved[1],
            pgwire: reserved[2],
            ion: reserved[3],
            neutrino: reserved[4],
        };
        assert(reserved@ =~= seq![p.gluon, p.reactive, p.pgwire, p.ion, p.neutrino]);
        Some(p)
    } else {
        None
    }
}

impl Desktop {
    /// Starts the run of a shell on the platform that it was built for.
    pub fn new(shell: Shell, host: Host) -> (r: Desktop)
        ensures
            r == (Desktop { shell, host, phase: DesktopPhase::Start }),
    {
        Desktop { shell, host, phase: DesktopPhase::Start }
    }

    /// What an action writes to the environment, where the ports are known.
    pub fn writes(&self, action: DesktopAction, env: &Env, ports: &Ports) -> (r: Vec<Setting>)
        ensures
            views(r@) == action_writes(action, env@, *ports),
    {
        match action {
            DesktopAction::WritePortSettings => port_settings(ports),
            DesktopAction::WriteAdminDefaults => admin_defaults(env),
            DesktopAction::WriteStaticDirs => set_static_dirs(env),
            _ => {
                let r: Vec<Setting> = Vec::new();
                assert(views(r@) =~= Seq::empty());
                r
            },
        }
    }

    /// Reserving port `i`, or going on where all are reserved.
    fn port(i: usize) -> (r: (DesktopPhase, DesktopAction))
        ensures
            r == port_move(i as int),
    {
        if i < PORT_COUNT {
            (DesktopPhase::PortReserved(i), DesktopAction::ReservePort(i))
        } else {
            (DesktopPhase::PortSettingsWritten, DesktopAction::WritePortSettings)
        }
    }

    /// Insisting on being the only instance, or going on where that does not
    /// matter.
    fn guard(&self) -> (r: (DesktopPhase, DesktopAction))
        ensures
            r == guard_move(self.shell, self.host),
    {
        if self.shell == Shell::App || self.host == Host::Windows {
            (DesktopPhase::InstanceAcquired, DesktopAction::AcquireInstance)
        } else {
            Self::port(0)
        }
    }

    /// Leaving.
    fn stop(reason: StopReason) -> (r: (DesktopPhase, DesktopAction))
        ensures
            r == stop_move(reason),
    {
        (DesktopPhase::Stopped(reason), DesktopAction::Stop(reason))
    }

    /// Takes the reply to the last action and gives the next action. The first
    /// call's reply is ignored, and so are the replies to actions that have no
    /// answer.
    pub fn next(&mut self, ok: bool) -> (r: DesktopAction)
        ensures
            (*final(self), r) == desktop_step(*old(self), ok),
    {
        let (phase, action) = match self.phase {
            DesktopPhase::Start => if self.shell == Shell::App && self.host == Host::Linux {
                (DesktopPhase::DependenciesChecked, DesktopAction::CheckDependencies)
            } else {
                self.guard()
            },
            DesktopPhase::DependenciesChecked => if ok {
                self.guard()
            } else {
                (DesktopPhase::MissingReported, DesktopAction::ReportMissing)
            },
            DesktopPhase::MissingReported => Self::stop(StopReason::MissingDependencies),
            DesktopPhase::InstanceAcquired => if ok {
                Self::port(0)
            } else if self.shell == Shell::Packaged {
                (DesktopPhase::RunningFocused, DesktopAction::FocusRunning)
            } else {
                (DesktopPhase::RunningAnnounced, DesktopAction::AnnounceRunning)
            },
            DesktopPhase::RunningFocused => (
                DesktopPhase::RunningAnnounced,
                DesktopAction::AnnounceRunning,
            ),
            DesktopPhase::RunningAnnounced => Self::stop(StopReason::Success),
            DesktopPhase::PortReserved(i) => if ok {
                Self::port(
                    if i < PORT_COUNT {
                        i + 1
                    } else {
                        PORT_COUNT
                    },
                )
            } else {
                Self::stop(StopReason::Failed)
            },
            DesktopPhase::PortSettingsWritten => if self.shell == Shell::Packaged {
                (DesktopPhase::AdminDefaultsWritten, DesktopAction::WriteAdminDefaults)
            } else {
                (DesktopPhase::PortsReleased, DesktopAction::ReleasePorts)
            },
            DesktopPhase::AdminDefaultsWritten => (
                DesktopPhase::PortsReleased,
                DesktopAction::ReleasePorts,
            ),
            DesktopPhase::PortsReleased => (
                DesktopPhase::StaticDirsWritten,
                DesktopAction::WriteStaticDirs,
            ),
            DesktopPhase::StaticDirsWritten => (DesktopPhase::LogStarted, DesktopAction::StartLog),
            DesktopPhase::LogStarted => (
                DesktopPhase::ServicesStarted,
                DesktopAction::StartServices,
            ),
            DesktopPhase::ServicesStarted => if ok {
                (DesktopPhase::IonAwaited, DesktopAction::AwaitIon)
            } else {
                Self::stop(StopReason::Failed)
            },
            DesktopPhase::IonAwaited => if ok {
                (DesktopPhase::WindowOpened, DesktopAction::OpenWindow)
            } else {
                Self::stop(StopReason::NotReady)
            },
            DesktopPhase::WindowOpened => if ok {
                (DesktopPhase::LoopEnded, DesktopAction::RunLoop)
            } else {
                Self::stop(StopReason::Failed)
            },
            DesktopPhase::LoopEnded => Self::stop(StopReason::Success),
            DesktopPhase::Stopped(reason) => Self::stop(reason),
        };
        self.phase = phase;
        action
    }
}

} // verus!
