//! Waiting for a service to accept connections.
//!
//! A connection to the service's port on loopback is tried, with a pause after
//! each failure, for as long as the time allows. The decisions are made here; the
//! caller reads the clock, tries the connection and sleeps.

use crate::network::{loopback, loopback_text};
use crate::text::decimal;
use vstd::prelude::*;

verus! {

/// The pause after a failed connection, in milliseconds.
pub const PAUSE_MS: u64 = 100;

/// The pause after a failed connection, in nanoseconds.
pub const PAUSE_NS: u128 = 100_000_000;

/// What the caller is asked to do.
#[derive(Clone, Copy, PartialEq, Eq, Structural, Debug)]
pub enum WaitAction {
    /// Try a connection to this port on loopback; say whether it succeeded.
    Connect(u16),
    /// Sleep for this many milliseconds, then read the clock.
    Sleep(u64),
    /// The service accepts connections.
    Ready,
    /// The time is up.
    TimedOut,
}

/// What is awaited.
#[derive(Clone, Copy, PartialEq, Eq, Structural, Debug)]
pub enum WaitPhase {
    /// The time that has passed.
    Clock,
    /// The outcome of a connection.
    Connection,
    /// Nothing: the wait ended, with or without a connection.
    Ended(bool),
}

/// The wait for a connection to `port`, for at most `timeout_ns` nanoseconds.
#[derive(Clone, Copy, PartialEq, Eq, Structural, Debug)]
pub struct TcpWait {
    pub port: u16,
    pub timeout_ns: u128,
    pub phase: WaitPhase,
}

/// The next state and action. `elapsed_ns` is the time since the wait began and
/// only matters where the clock is awaited; `connected` only where a connection
/// is.
pub open spec fn wait_step(m: TcpWait, elapsed_ns: int, connected: bool) -> (TcpWait, WaitAction) {
    let (phase, action) = match m.phase {
        WaitPhase::Clock => if elapsed_ns < m.timeout_ns {
            (WaitPhase::Connection, WaitAction::Connect(m.port))
        } else {
            (WaitPhase::Ended(false), WaitAction::TimedOut)
        },
        WaitPhase::Connection => if connected {
            (WaitPhase::Ended(true), WaitAction::Ready)
        } else {
            (WaitPhase::Clock, WaitAction::Sleep(PAUSE_MS))
        },
        WaitPhase::Ended(true) => (m.phase, WaitAction::Ready),
        WaitPhase::Ended(false) => (m.phase, WaitAction::TimedOut),
    };
    (TcpWait { port: m.port, timeout_ns: m.timeout_ns, phase }, action)
}

/// Where an action connects to.
pub open spec fn target_of(action: WaitAction) -> Option<Seq<char>> {
    match action {
        WaitAction::Connect(port) => Some(loopback_text(port)),
        _ => None,
    }
}

/// A round of the wait: the time that the clock showed, and whether the
/// connection tried then succeeded.
pub struct Round {
    pub elapsed_ns: int,
    pub connected: bool,
}

/// The state after the rounds, each of which feeds the clock and then the
/// connection.
pub open spec fn after_rounds(m: TcpWait, rounds: Seq<Round>) -> TcpWait
    decreases rounds.len(),
{
    if rounds.len() == 0 {
        m
    } else {
        let before = after_rounds(m, rounds.drop_last());
        let round = rounds.last();
        let asked = wait_step(before, round.elapsed_ns, false).0;
        if asked.phase == WaitPhase::Connection {
            wait_step(asked, round.elapsed_ns, round.connected).0
        } else {
            asked
        }
    }
}

/// Whether round `k` is the first that ends the wait.
pub open spec fn ends_in(rounds: Seq<Round>, timeout_ns: int, k: int) -> bool {
    &&& 0 <= k < rounds.len()
    &&& rounds[k].elapsed_ns >= timeout_ns || rounds[k].connected
    &&& forall|j: int|
        0 <= j < k ==> (#[trigger] rounds[j]).elapsed_ns < timeout_ns && !rounds[j].connected
}

/// What a wait asks for: before the time is up, a connection to its port; after
/// a failure, a pause of a hundred milliseconds and then the clock again; and
/// after a connection, or once the time is up, nothing more.
pub proof fn lemma_wait_asks(port: u16, timeout_ns: u128, elapsed_ns: int, connected: bool)
    ensures
        ({
            let at = |phase: WaitPhase| TcpWait { port, timeout_ns, phase };
            let clock = at(WaitPhase::Clock);
            let connection = at(WaitPhase::Connection);
            let ready = at(WaitPhase::Ended(true));
            let late = at(WaitPhase::Ended(false));
            &&& elapsed_ns < timeout_ns ==> wait_step(clock, elapsed_ns, connected) == (
                connection,
                WaitAction::Connect(port),
            )
            &&& elapsed_ns >= timeout_ns ==> wait_step(clock, elapsed_ns, connected) == (
                late,
                WaitAction::TimedOut,
            )
            &&& connected ==> wait_step(connection, elapsed_ns, connected) == (
                ready,
                WaitAction::Ready,
            )
            &&& !connected ==> wait_step(connection, elapsed_ns, connected) == (
                clock,
                WaitAction::Sleep(100),
            )
            &&& wait_step(ready, elapsed_ns, connected) == (ready, WaitAction::Ready)
            &&& wait_step(late, elapsed_ns, connected) == (late, WaitAction::TimedOut)
        }),
{
}

/// A connection goes to `127.0.0.1` and the port in decimal notation, and
/// nothing else connects.
pub proof fn lemma_targets(port: u16, ms: u64)
    ensures
        target_of(WaitAction::Connect(port)) == Some("127.0.0.1:"@ + decimal(port as nat)),
        target_of(WaitAction::Sleep(ms)) is None,
        target_of(WaitAction::Ready) is None,
        target_of(WaitAction::TimedOut) is None,
{
}

/// One round more reads the clock and, where a connection is asked for, gives its
/// outcome; it counts as an attempt exactly then.
pub proof fn lemma_one_more_round(m: TcpWait, rounds: Seq<Round>, round: Round)
    ensures
        after_rounds(m, Seq::empty()) == m,
        attempts(m, Seq::empty()) == 0,
        ({
            let before = after_rounds(m, rounds);
            let (asked, action) = wait_step(before, round.elapsed_ns, false);
            &&& action is Connect ==> after_rounds(m, rounds.push(round)) == wait_step(
                asked,
                round.elapsed_ns,
                round.connected,
            ).0 && attempts(m, rounds.push(round)) == attempts(m, rounds) + 1
            &&& !(action is Connect) ==> attempts(m, rounds.push(round)) == attempts(m, rounds)
            &&& !(action is Connect) && !(asked.phase is Connection) ==> after_rounds(
                m,
                rounds.push(round),
            ) == asked
        }),
{
    assert(rounds.push(round).drop_last() =~= rounds);
}

/// A wait reports success exactly where a connection succeeded in time, and
/// gives up exactly where the time was up first; until one of the two happens
/// it goes on.
pub proof fn lemma_wait_outcome(port: u16, timeout_ns: u128, rounds: Seq<Round>)
    ensures
        match after_rounds(TcpWait { port, timeout_ns, phase: WaitPhase::Clock }, rounds).phase {
            WaitPhase::Ended(ready) => exists|k: int| #[trigger]
                ends_in(rounds, timeout_ns as int, k) && ready == (rounds[k].elapsed_ns
                    < timeout_ns),
            WaitPhase::Clock => forall|j: int|
                0 <= j < rounds.len() ==> (#[trigger] rounds[j]).elapsed_ns < timeout_ns
                    && !rounds[j].connected,
            WaitPhase::Connection => false,
        },
        after_rounds(TcpWait { port, timeout_ns, phase: WaitPhase::Clock }, rounds).timeout_ns
            == timeout_ns,
    decreases rounds.len(),
{
    let m = TcpWait { port, timeout_ns, phase: WaitPhase::Clock };
    if rounds.len() > 0 {
        let head = rounds.drop_last();
        lemma_wait_outcome(port, timeout_ns, head);
        let last = rounds.len() - 1;
        assert forall|j: int| 0 <= j < head.len() implies head[j] == rounds[j] by {}
        match after_rounds(m, head).phase {
            WaitPhase::Ended(ready) => {
                let k = choose|k: int| #[trigger]
                    ends_in(head, timeout_ns as int, k) && ready == (head[k].elapsed_ns
                        < timeout_ns);
                assert(head[k] == rounds[k]);
                assert forall|j: int| 0 <= j < k implies (#[trigger] rounds[j]).elapsed_ns
                    < timeout_ns && !rounds[j].connected by {
                    assert(head[j] == rounds[j]);
                }
                assert(ends_in(rounds, timeout_ns as int, k));
            },
            WaitPhase::Clock => {
                assert forall|j: int| 0 <= j < last implies (#[trigger] rounds[j]).elapsed_ns
                    < timeout_ns && !rounds[j].connected by {
                    assert(head[j] == rounds[j]);
                }
                if rounds[last].elapsed_ns >= timeout_ns || rounds[last].connected {
                    assert(ends_in(rounds, timeout_ns as int, last));
                }
            },
            WaitPhase::Connection => {},
        }
    }
}

/// Whatever the clock shows and the connections give, a wait connects to
/// nothing but its own port on loopback.
pub proof fn lemma_connects_to_loopback_only(
    port: u16,
    timeout_ns: u128,
    rounds: Seq<Round>,
    elapsed_ns: int,
    connected: bool,
)
    ensures
        ({
            let m = after_rounds(
                TcpWait { port, timeout_ns, phase: WaitPhase::Clock },
                rounds,
            );
            let action = wait_step(m, elapsed_ns, connected).1;
            target_of(action) is None || target_of(action) == Some(loopback_text(port))
        }),
{
    lemma_port_is_kept(TcpWait { port, timeout_ns, phase: WaitPhase::Clock }, rounds);
}

/// The port stays what it is.
proof fn lemma_port_is_kept(m: TcpWait, rounds: Seq<Round>)
    ensures
        after_rounds(m, rounds).port == m.port,
    decreases rounds.len(),
{
    if rounds.len() > 0 {
        lemma_port_is_kept(m, rounds.drop_last());
    }
}

/// As every failed round sleeps for the pause, the wait ends after as many
/// rounds as there are pauses in the time allowed, and one more.
pub proof fn lemma_wait_ends(port: u16, timeout_ns: u128, rounds: Seq<Round>)
    requires
        forall|k: int|
            0 <= k < rounds.len() ==> (#[trigger] rounds[k]).elapsed_ns >= k * PAUSE_NS,
        rounds.len() >= timeout_ns / PAUSE_NS + 2,
    ensures
        after_rounds(TcpWait { port, timeout_ns, phase: WaitPhase::Clock }, rounds).phase is Ended,
{
    lemma_wait_outcome(port, timeout_ns, rounds);
    let k = (timeout_ns / PAUSE_NS + 1) as int;
    assert(rounds[k].elapsed_ns >= k * PAUSE_NS);
    assert(k * PAUSE_NS >= timeout_ns) by (nonlinear_arith)
        requires
            k == timeout_ns / PAUSE_NS + 1,
            PAUSE_NS == 100_000_000u128,
    ;
}

/// In how many of the rounds a connection is tried.
pub open spec fn attempts(m: TcpWait, rounds: Seq<Round>) -> nat
    decreases rounds.len(),
{
    if rounds.len() == 0 {
        0
    } else {
        let init = rounds.drop_last();
        let (_, action) = wait_step(after_rounds(m, init), rounds.last().elapsed_ns, false);
        attempts(m, init) + if action is Connect {
            1nat
        } else {
            0
        }
    }
}

/// As every failed round sleeps for the pause, a connection is tried at most as
/// many times as there are pauses in the time allowed, rounded up, however long
/// the caller goes on.
pub proof fn lemma_attempts_are_bounded(port: u16, timeout_ns: u128, rounds: Seq<Round>)
    requires
        forall|k: int|
            0 <= k < rounds.len() ==> (#[trigger] rounds[k]).elapsed_ns >= k * PAUSE_NS,
    ensures
        attempts(TcpWait { port, timeout_ns, phase: WaitPhase::Clock }, rounds) <= (timeout_ns + PAUSE_NS
            - 1) / PAUSE_NS as int,
        attempts(TcpWait { port, timeout_ns, phase: WaitPhase::Clock }, rounds) <= rounds.len(),
    decreases rounds.len(),
{
    let m = TcpWait { port, timeout_ns, phase: WaitPhase::Clock };
    if rounds.len() > 0 {
        let init = rounds.drop_last();
        let last = rounds.len() - 1;
        assert forall|k: int| 0 <= k < init.len() implies (#[trigger] init[k]).elapsed_ns >= k
            * PAUSE_NS by {
            assert(init[k] == rounds[k]);
        }
        lemma_attempts_are_bounded(port, timeout_ns, init);
        lemma_wait_outcome(port, timeout_ns, init);
        let before = after_rounds(m, init);
        if wait_step(before, rounds[last].elapsed_ns, false).1 is Connect {
            assert(rounds[last].elapsed_ns < timeout_ns);
            assert(rounds[last].elapsed_ns >= last * PAUSE_NS);
        }
    }
}

/// Starts a wait of at most `timeout_ns` nanoseconds for a connection to `port`
/// on loopback.
pub fn wait_for_tcp(port: u16, timeout_ns: u128) -> (r: TcpWait)
    ensures
        r == (TcpWait { port, timeout_ns, phase: WaitPhase::Clock }),
{
    TcpWait { port, timeout_ns, phase: WaitPhase::Clock }
}

impl WaitAction {
    /// Where the action connects to, as an address with a port.
    pub fn target(&self) -> (r: Option<String>)
        ensures
            match r {
                Some(address) => target_of(*self) == Some(address@),
                None => target_of(*self) is None,
            },
    {
        match self {
            WaitAction::Connect(port) => Some(loopback(*port)),
            _ => None,
        }
    }
}

impl TcpWait {
    /// Takes the time since the wait began and the outcome of the last
    /// connection, and gives the next action.
    pub fn next(&mut self, elapsed_ns: u128, connected: bool) -> (r: WaitAction)
        ensures
            (*final(self), r) == wait_step(*old(self), elapsed_ns as int, connected),
    {
        let (phase, action) = match self.phase {
            WaitPhase::Clock => if elapsed_ns < self.timeout_ns {
                (WaitPhase::Connection, WaitAction::Connect(self.port))
            } else {
                (WaitPhase::Ended(false), WaitAction::TimedOut)
            },
            WaitPhase::Connection => if connected {
                (WaitPhase::Ended(true), WaitAction::Ready)
            } else {
                (WaitPhase::Clock, WaitAction::Sleep(PAUSE_MS))
            },
            WaitPhase::Ended(true) => (WaitPhase::Ended(true), WaitAction::Ready),
            WaitPhase::Ended(false) => (WaitPhase::Ended(false), WaitAction::TimedOut),
        };
        self.phase = phase;
        action
    }
}

} // verus!
