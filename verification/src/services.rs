//! The four services that one process runs, and the order in which a desktop
//! shell starts them on their own thread.

use vstd::prelude::*;

verus! {

/// A service of the process.
#[derive(Clone, Copy, PartialEq, Eq, Structural, Debug)]
pub enum Service {
    Gluon,
    Reactive,
    Ion,
    Neutrino,
}

/// The name under which a service appears in messages.
pub open spec fn service_name(service: Service) -> Seq<char> {
    match service {
        Service::Gluon => "gluon"@,
        Service::Reactive => "reactive"@,
        Service::Ion => "ion"@,
        Service::Neutrino => "neutrino"@,
    }
}

/// The services by name; no two share one.
pub proof fn lemma_service_names(a: Service, b: Service)
    ensures
        service_name(a) == service_name(b) <==> a == b,
        service_name(a) == "gluon"@ <==> a == Service::Gluon,
        service_name(a) == "reactive"@ <==> a == Service::Reactive,
        service_name(a) == "ion"@ <==> a == Service::Ion,
        service_name(a) == "neutrino"@ <==> a == Service::Neutrino,
{
    reveal_strlit("gluon");
    reveal_strlit("reactive");
    reveal_strlit("ion");
    reveal_strlit("neutrino");
    assert("gluon"@.len() == 5 && "reactive"@.len() == 8 && "ion"@.len() == 3);
    assert("reactive"@[0] == 'r' && "neutrino"@[0] == 'n');
}

impl Service {
    /// The name under which the service appears in messages.
    pub fn name(&self) -> (r: &'static str)
        ensures
            r@ == service_name(*self),
    {
        match self {
            Service::Gluon => "gluon",
            Service::Reactive => "reactive",
            Service::Ion => "ion",
            Service::Neutrino => "neutrino",
        }
    }
}

/// How long gluon is given to bind its listener, in milliseconds.
pub const GLUON_HEAD_START_MS: u64 = 500;

/// What the thread of the services is asked to do.
#[derive(Clone, Copy, PartialEq, Eq, Structural, Debug)]
pub enum ThreadAction {
    /// Load ion's configuration; say whether that worked.
    LoadIon,
    /// Load gluon's configuration, or its default.
    LoadGluon,
    /// Load neutrino's configuration, or its default.
    LoadNeutrino,
    /// Put neutrino's loopback address into its configuration.
    BindNeutrino,
    /// Start the task of a service.
    Spawn(Service),
    /// Sleep for this many milliseconds.
    Sleep(u64),
    /// Wait until a task ends.
    AwaitExit,
    /// End the thread.
    Stop,
}

/// The last action whose reply is awaited.
#[derive(Clone, Copy, PartialEq, Eq, Structural, Debug)]
pub enum ThreadPhase {
    Start,
    IonLoaded,
    GluonLoaded,
    NeutrinoLoaded,
    NeutrinoBound,
    GluonSpawned,
    GluonListening,
    ReactiveSpawned,
    IonSpawned,
    NeutrinoSpawned,
    Stopped,
}

/// The thread on which a desktop shell runs its services.
#[derive(Clone, Copy, PartialEq, Eq, Structural, Debug)]
pub struct ServiceThread {
    /// Whether the shell puts neutrino's address into its configuration.
    pub binds_neutrino: bool,
    pub phase: ThreadPhase,
}

/// The next state and action after the reply `ok` to the last action.
pub open spec fn thread_step(m: ServiceThread, ok: bool) -> (ServiceThread, ThreadAction) {
    let (phase, action) = match m.phase {
        ThreadPhase::Start => (ThreadPhase::IonLoaded, ThreadAction::LoadIon),
        ThreadPhase::IonLoaded if ok => (ThreadPhase::GluonLoaded, ThreadAction::LoadGluon),
        ThreadPhase::GluonLoaded => (ThreadPhase::NeutrinoLoaded, ThreadAction::LoadNeutrino),
        ThreadPhase::NeutrinoLoaded if m.binds_neutrino => (
            ThreadPhase::NeutrinoBound,
            ThreadAction::BindNeutrino,
        ),
        ThreadPhase::NeutrinoLoaded | ThreadPhase::NeutrinoBound => (
            ThreadPhase::GluonSpawned,
            ThreadAction::Spawn(Service::Gluon),
        ),
        ThreadPhase::GluonSpawned => (
            ThreadPhase::GluonListening,
            ThreadAction::Sleep(GLUON_HEAD_START_MS),
        ),
        ThreadPhase::GluonListening => (
            ThreadPhase::ReactiveSpawned,
            ThreadAction::Spawn(Service::Reactive),
        ),
        ThreadPhase::ReactiveSpawned => (
            ThreadPhase::IonSpawned,
            ThreadAction::Spawn(Service::Ion),
        ),
        ThreadPhase::IonSpawned => (
            ThreadPhase::NeutrinoSpawned,
            ThreadAction::Spawn(Service::Neutrino),
        ),
        ThreadPhase::NeutrinoSpawned => (ThreadPhase::Stopped, ThreadAction::AwaitExit),
        ThreadPhase::IonLoaded | ThreadPhase::Stopped => (
            ThreadPhase::Stopped,
            ThreadAction::Stop,
        ),
    };
    (ServiceThread { binds_neutrino: m.binds_neutrino, phase }, action)
}

/// The actions of the first `steps` steps from `m`, where `ok` answers the last
/// action and `replies` the ones to come. Stopping ends the run.
pub open spec fn thread_run(
    m: ServiceThread,
    ok: bool,
    replies: spec_fn(ThreadAction) -> bool,
    steps: nat,
) -> Seq<ThreadAction>
    decreases steps,
{
    if steps == 0 {
        Seq::empty()
    } else {
        let (next, action) = thread_step(m, ok);
        if action == ThreadAction::Stop {
            seq![action]
        } else {
            seq![action] + thread_run(next, replies(action), replies, (steps - 1) as nat)
        }
    }
}

/// Loading the configurations.
pub open spec fn loading_actions(binds_neutrino: bool) -> Seq<ThreadAction> {
    if binds_neutrino {
        seq![
            ThreadAction::LoadIon,
            ThreadAction::LoadGluon,
            ThreadAction::LoadNeutrino,
            ThreadAction::BindNeutrino,
        ]
    } else {
        seq![ThreadAction::LoadIon, ThreadAction::LoadGluon, ThreadAction::LoadNeutrino]
    }
}

/// Starting the services and waiting for the first of them to end.
pub open spec fn spawning_actions() -> Seq<ThreadAction> {
    seq![
        ThreadAction::Spawn(Service::Gluon),
        ThreadAction::Sleep(GLUON_HEAD_START_MS),
        ThreadAction::Spawn(Service::Reactive),
        ThreadAction::Spawn(Service::Ion),
        ThreadAction::Spawn(Service::Neutrino),
        ThreadAction::AwaitExit,
        ThreadAction::Stop,
    ]
}

/// However the loading goes, the thread starts gluon first and lets it listen
/// before the other services start; it starts none of them where ion's
/// configuration cannot be loaded.
pub proof fn lemma_thread_run(
    binds_neutrino: bool,
    replies: spec_fn(ThreadAction) -> bool,
    ok: bool,
    steps: nat,
)
    requires
        steps >= 11,
    ensures
        thread_run(
            ServiceThread { binds_neutrino, phase: ThreadPhase::Start },
            ok,
            replies,
            steps,
        ) == if replies(ThreadAction::LoadIon) {
            loading_actions(binds_neutrino) + spawning_actions()
        } else {
            seq![ThreadAction::LoadIon, ThreadAction::Stop]
        },
{
    reveal_with_fuel(thread_run, 12);
    let run = thread_run(
        ServiceThread { binds_neutrino, phase: ThreadPhase::Start },
        ok,
        replies,
        steps,
    );
    if !replies(ThreadAction::LoadIon) {
        assert(run =~= seq![ThreadAction::LoadIon, ThreadAction::Stop]);
    } else {
        assert(run =~= loading_actions(binds_neutrino) + spawning_actions());
    }
}

/// A run is made of steps, each of which takes the reply to the action before.
pub proof fn lemma_run_follows_steps(
    m: ServiceThread,
    ok: bool,
    replies: spec_fn(ThreadAction) -> bool,
    steps: nat,
)
    ensures
        thread_run(m, ok, replies, 0) == Seq::<ThreadAction>::empty(),
        ({
            let (next, action) = thread_step(m, ok);
            thread_run(m, ok, replies, steps + 1) == if action == ThreadAction::Stop {
                seq![action]
            } else {
                seq![action] + thread_run(next, replies(action), replies, steps)
            }
        }),
{
}

/// A thread that was told to end stays so.
pub proof fn lemma_stopped_stays_stopped(m: ServiceThread, ok: bool, later: bool)
    requires
        thread_step(m, ok).1 == ThreadAction::Stop,
    ensures
        thread_step(thread_step(m, ok).0, later) == (thread_step(m, ok).0, ThreadAction::Stop),
{
}

/// The order in which a thread loads, binds and starts: gluon gets half a second
/// before the others start, and nothing starts where ion's configuration cannot
/// be loaded.
pub proof fn lemma_order_of_the_thread(
    binds_neutrino: bool,
    replies: spec_fn(ThreadAction) -> bool,
    ok: bool,
    steps: nat,
)
    requires
        steps >= 11,
    ensures
        thread_run(
            ServiceThread { binds_neutrino, phase: ThreadPhase::Start },
            ok,
            replies,
            steps,
        ) == if !replies(ThreadAction::LoadIon) {
            seq![ThreadAction::LoadIon, ThreadAction::Stop]
        } else {
            seq![ThreadAction::LoadIon, ThreadAction::LoadGluon, ThreadAction::LoadNeutrino] + (
            if binds_neutrino {
                seq![ThreadAction::BindNeutrino]
            } else {
                Seq::empty()
            }) + seq![
                ThreadAction::Spawn(Service::Gluon),
                ThreadAction::Sleep(500),
                ThreadAction::Spawn(Service::Reactive),
                ThreadAction::Spawn(Service::Ion),
                ThreadAction::Spawn(Service::Neutrino),
                ThreadAction::AwaitExit,
                ThreadAction::Stop,
            ]
        },
{
    lemma_thread_run(binds_neutrino, replies, ok, steps);
    let load = seq![ThreadAction::LoadIon, ThreadAction::LoadGluon, ThreadAction::LoadNeutrino];
    let bind = if binds_neutrino {
        seq![ThreadAction::BindNeutrino]
    } else {
        Seq::empty()
    };
    assert(load + bind =~= loading_actions(binds_neutrino));
}

impl ServiceThread {
    /// Starts the thread; `binds_neutrino` says whether the shell puts
    /// neutrino's address into its configuration.
    pub fn new(binds_neutrino: bool) -> (r: ServiceThread)
        ensures
            r == (ServiceThread { binds_neutrino, phase: ThreadPhase::Start }),
    {
        ServiceThread { binds_neutrino, phase: ThreadPhase::Start }
    }

    /// Takes the reply to the last action and gives the next action. The first
    /// call's reply is ignored, and so are the replies to actions that have no
    /// answer.
    pub fn next(&mut self, ok: bool) -> (r: ThreadAction)
        ensures
            (*final(self), r) == thread_step(*old(self), ok),
    {
        let (phase, action) = match self.phase {
            ThreadPhase::Start => (ThreadPhase::IonLoaded, ThreadAction::LoadIon),
            ThreadPhase::IonLoaded if ok => (ThreadPhase::GluonLoaded, ThreadAction::LoadGluon),
            ThreadPhase::GluonLoaded => (ThreadPhase::NeutrinoLoaded, ThreadAction::LoadNeutrino),
            ThreadPhase::NeutrinoLoaded if self.binds_neutrino => (
                ThreadPhase::NeutrinoBound,
                ThreadAction::BindNeutrino,
            ),
            ThreadPhase::NeutrinoLoaded | ThreadPhase::NeutrinoBound => (
                ThreadPhase::GluonSpawned,
                ThreadAction::Spawn(Service::Gluon),
            ),
            ThreadPhase::GluonSpawned => (
                ThreadPhase::GluonListening,
                ThreadAction::Sleep(GLUON_HEAD_START_MS),
            ),
            ThreadPhase::GluonListening => (
                ThreadPhase::ReactiveSpawned,
                ThreadAction::Spawn(Service::Reactive),
            ),
            ThreadPhase::ReactiveSpawned => (
                ThreadPhase::IonSpawned,
                ThreadAction::Spawn(Service::Ion),
            ),
            ThreadPhase::IonSpawned => (
                ThreadPhase::NeutrinoSpawned,
                ThreadAction::Spawn(Service::Neutrino),
            ),
            ThreadPhase::NeutrinoSpawned => (ThreadPhase::Stopped, ThreadAction::AwaitExit),
            ThreadPhase::IonLoaded | ThreadPhase::Stopped => (
                ThreadPhase::Stopped,
                ThreadAction::Stop,
            ),
        };
        self.phase = phase;
        action
    }
}

} // verus!
