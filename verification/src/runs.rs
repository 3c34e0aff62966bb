//! What the runs share: building a list of actions from its front, and what the
//! actions of a run write to the environment.

use crate::env::{applied, EnvView, SettingView};
use vstd::prelude::*;

verus! {

/// The environment after the actions, in order, where `writes` tells what an
/// action writes to an environment.
pub open spec fn env_after<A>(
    env: EnvView,
    actions: Seq<A>,
    writes: spec_fn(A, EnvView) -> Seq<SettingView>,
) -> EnvView
    decreases actions.len(),
{
    if actions.len() == 0 {
        env
    } else {
        let before = env_after(env, actions.drop_last(), writes);
        applied(before, writes(actions.last(), before))
    }
}

/// One action more writes what it writes to the environment that the actions
/// before it left.
pub proof fn lemma_env_after_one_more<A>(
    env: EnvView,
    actions: Seq<A>,
    action: A,
    writes: spec_fn(A, EnvView) -> Seq<SettingView>,
)
    ensures
        env_after(env, Seq::<A>::empty(), writes) == env,
        env_after(env, actions.push(action), writes) == applied(
            env_after(env, actions, writes),
            writes(action, env_after(env, actions, writes)),
        ),
{
    assert(actions.push(action).drop_last() =~= actions);
}

/// Whether an action writes nothing to any environment.
pub open spec fn is_quiet<A>(action: A, writes: spec_fn(A, EnvView) -> Seq<SettingView>) -> bool {
    forall|env: EnvView| (#[trigger] writes(action, env)).len() == 0
}

/// The environment after two lists of actions, one after the other.
pub proof fn lemma_env_concat<A>(
    env: EnvView,
    a: Seq<A>,
    b: Seq<A>,
    writes: spec_fn(A, EnvView) -> Seq<SettingView>,
)
    ensures
        env_after(env, a + b, writes) == env_after(env_after(env, a, writes), b, writes),
    decreases b.len(),
{
    if b.len() == 0 {
        assert(a + b =~= a);
    } else {
        assert((a + b).drop_last() =~= a + b.drop_last());
        lemma_env_concat(env, a, b.drop_last(), writes);
    }
}

/// Quiet actions leave the environment as it is.
pub proof fn lemma_env_of_quiet_actions<A>(
    env: EnvView,
    actions: Seq<A>,
    writes: spec_fn(A, EnvView) -> Seq<SettingView>,
)
    requires
        forall|j: int| 0 <= j < actions.len() ==> is_quiet(#[trigger] actions[j], writes),
    ensures
        env_after(env, actions, writes) == env,
    decreases actions.len(),
{
    if actions.len() > 0 {
        let init = actions.drop_last();
        assert forall|j: int| 0 <= j < init.len() implies is_quiet(#[trigger] init[j], writes) by {
            assert(init[j] == actions[j]);
        }
        lemma_env_of_quiet_actions(env, init, writes);
        assert(is_quiet(actions[actions.len() - 1], writes));
        assert(writes(actions.last(), env).len() == 0);
    }
}

/// Where all actions but one are quiet, only that one counts.
pub proof fn lemma_env_of_one_write<A>(
    env: EnvView,
    actions: Seq<A>,
    writes: spec_fn(A, EnvView) -> Seq<SettingView>,
    w: int,
)
    requires
        0 <= w < actions.len(),
        forall|j: int|
            0 <= j < actions.len() && j != w ==> is_quiet(#[trigger] actions[j], writes),
    ensures
        env_after(env, actions, writes) == applied(env, writes(actions[w], env)),
{
    let head = actions.take(w);
    let one = seq![actions[w]];
    let tail = actions.skip(w + 1);
    assert forall|j: int| 0 <= j < head.len() implies is_quiet(#[trigger] head[j], writes) by {
        assert(head[j] == actions[j]);
    }
    assert forall|j: int| 0 <= j < tail.len() implies is_quiet(#[trigger] tail[j], writes) by {
        assert(tail[j] == actions[w + 1 + j]);
    }
    assert(actions =~= head + (one + tail));
    lemma_env_concat(env, head, one + tail, writes);
    lemma_env_concat(env, one, tail, writes);
    lemma_env_of_quiet_actions(env, head, writes);
    assert(one.drop_last() =~= Seq::empty());
    reveal_with_fuel(env_after, 2);
    lemma_env_of_quiet_actions(applied(env, writes(actions[w], env)), tail, writes);
}

/// Prepending two or three actions one at a time is prepending them together.
pub proof fn lemma_prepend<A>(a: A, b: A, c: A, tail: Seq<A>)
    ensures
        seq![a] + (seq![b] + tail) == seq![a, b] + tail,
        seq![a] + (seq![b] + (seq![c] + tail)) == seq![a, b, c] + tail,
{
    assert(seq![a] + (seq![b] + tail) =~= seq![a, b] + tail);
    assert(seq![a] + (seq![b] + (seq![c] + tail)) =~= seq![a, b, c] + tail);
}

} // verus!
