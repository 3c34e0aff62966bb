//! Unpacking the embedded configuration files.
//!
//! The files are taken in order. One that exists on disk is left untouched; for
//! one that is absent the directory is created and the embedded copy written. A
//! file that cannot be written is passed over. The decisions are made here, one
//! reply at a time; the caller performs the actions.

use vstd::prelude::*;

verus! {

/// What the caller is asked to do. The number is that of the embedded file.
#[derive(Clone, Copy, PartialEq, Eq, Structural, Debug)]
pub enum CfgAction {
    /// Say whether the file exists.
    Probe(usize),
    /// Create the directory that holds the file; say whether that worked.
    CreateParent(usize),
    /// Write the embedded copy of the file.
    Write(usize),
    /// Nothing is left to do.
    Done,
}

/// The reply that is awaited.
#[derive(Clone, Copy, PartialEq, Eq, Structural, Debug)]
pub enum CfgPhase {
    Start,
    Probed(usize),
    ParentCreated(usize),
    Written(usize),
    Finished,
}

/// The unpacking of a number of embedded files.
#[derive(Clone, Copy, PartialEq, Eq, Structural, Debug)]
pub struct CfgFiles {
    pub total: usize,
    pub phase: CfgPhase,
}

/// Turning to file `i`, or ending where there is none.
pub open spec fn turn_to(total: usize, i: int) -> (CfgFiles, CfgAction) {
    if i < total {
        (CfgFiles { total, phase: CfgPhase::Probed(i as usize) }, CfgAction::Probe(i as usize))
    } else {
        (CfgFiles { total, phase: CfgPhase::Finished }, CfgAction::Done)
    }
}

/// The next state and action after the reply `ok` to the last action.
pub open spec fn cfg_step(m: CfgFiles, ok: bool) -> (CfgFiles, CfgAction) {
    match m.phase {
        CfgPhase::Start => turn_to(m.total, 0),
        CfgPhase::Probed(i) => if ok {
            turn_to(m.total, i + 1)
        } else {
            (
                CfgFiles { total: m.total, phase: CfgPhase::ParentCreated(i) },
                CfgAction::CreateParent(i),
            )
        },
        CfgPhase::ParentCreated(i) => if ok {
            (CfgFiles { total: m.total, phase: CfgPhase::Written(i) }, CfgAction::Write(i))
        } else {
            turn_to(m.total, i + 1)
        },
        CfgPhase::Written(i) => turn_to(m.total, i + 1),
        CfgPhase::Finished => (m, CfgAction::Done),
    }
}

/// The actions of the first `steps` steps from `m`, where `ok` answers the last
/// action and `replies` the ones to come.
pub open spec fn cfg_run(
    m: CfgFiles,
    ok: bool,
    replies: spec_fn(CfgAction) -> bool,
    steps: nat,
) -> Seq<CfgAction>
    decreases steps,
{
    if steps == 0 {
        Seq::empty()
    } else {
        let (next, action) = cfg_step(m, ok);
        if action == CfgAction::Done {
            Seq::empty()
        } else {
            seq![action] + cfg_run(next, replies(action), replies, (steps - 1) as nat)
        }
    }
}

/// What is done for one file.
pub open spec fn file_actions(i: usize, replies: spec_fn(CfgAction) -> bool) -> Seq<CfgAction> {
    if replies(CfgAction::Probe(i)) {
        seq![CfgAction::Probe(i)]
    } else if replies(CfgAction::CreateParent(i)) {
        seq![CfgAction::Probe(i), CfgAction::CreateParent(i), CfgAction::Write(i)]
    } else {
        seq![CfgAction::Probe(i), CfgAction::CreateParent(i)]
    }
}

/// What is done for the files from `from` on, in order.
pub open spec fn all_actions(
    total: usize,
    from: int,
    replies: spec_fn(CfgAction) -> bool,
) -> Seq<CfgAction>
    decreases total - from,
{
    if from < 0 || from >= total {
        Seq::empty()
    } else {
        file_actions(from as usize, replies) + all_actions(total, from + 1, replies)
    }
}

/// The files on disk after the actions, as far as the writes succeed;
/// `embedded` holds the built-in copies.
pub open spec fn disk_after(
    disk: Map<int, Seq<u8>>,
    embedded: Seq<Seq<u8>>,
    actions: Seq<CfgAction>,
    replies: spec_fn(CfgAction) -> bool,
) -> Map<int, Seq<u8>>
    decreases actions.len(),
{
    if actions.len() == 0 {
        disk
    } else {
        let before = disk_after(disk, embedded, actions.drop_last(), replies);
        match actions.last() {
            CfgAction::Write(i) if replies(CfgAction::Write(i)) => before.insert(
                i as int,
                embedded[i as int],
            ),
            _ => before,
        }
    }
}

/// Whether file `i` is absent, its directory can be created, and it can be
/// written.
pub open spec fn gets_written(i: usize, replies: spec_fn(CfgAction) -> bool) -> bool {
    &&& !replies(CfgAction::Probe(i))
    &&& replies(CfgAction::CreateParent(i))
    &&& replies(CfgAction::Write(i))
}

/// However the disk replies, a run takes the files in order and does for each
/// exactly what its replies call for, within three steps per file.
pub proof fn lemma_run_takes_every_file(
    total: usize,
    replies: spec_fn(CfgAction) -> bool,
    ok: bool,
    steps: nat,
)
    requires
        steps >= 3 * total + 1,
    ensures
        cfg_run(CfgFiles { total, phase: CfgPhase::Start }, ok, replies, steps) == all_actions(
            total,
            0,
            replies,
        ),
{
    let start = CfgFiles { total, phase: CfgPhase::Start };
    if total == 0 {
    } else {
        lemma_run_from(total, 0, replies, (steps - 1) as nat);
        let first = seq![CfgAction::Probe(0)];
        let probed = CfgFiles { total, phase: CfgPhase::Probed(0) };
        assert(cfg_step(start, ok) == (probed, CfgAction::Probe(0)));
        assert(cfg_run(start, ok, replies, steps) == first + cfg_run(
            probed,
            replies(CfgAction::Probe(0)),
            replies,
            (steps - 1) as nat,
        ));
    }
}

/// The run from the moment the existence of file `i` was asked for.
proof fn lemma_run_from(
    total: usize,
    i: usize,
    replies: spec_fn(CfgAction) -> bool,
    steps: nat,
)
    requires
        i < total,
        steps >= 3 * (total - i),
    ensures
        seq![CfgAction::Probe(i)] + cfg_run(
            CfgFiles { total, phase: CfgPhase::Probed(i) },
            replies(CfgAction::Probe(i)),
            replies,
            steps,
        ) == all_actions(total, i as int, replies),
    decreases total - i, 1int,
{
    let probe = CfgAction::Probe(i);
    let create = CfgAction::CreateParent(i);
    let write = CfgAction::Write(i);
    let probed = CfgFiles { total, phase: CfgPhase::Probed(i) };
    let created = CfgFiles { total, phase: CfgPhase::ParentCreated(i) };
    let written = CfgFiles { total, phase: CfgPhase::Written(i) };
    let rest = all_actions(total, i + 1, replies);
    let left = (steps - 1) as nat;
    if replies(probe) {
        lemma_turn(probed, true, i, replies, steps);
        assert(seq![probe] + rest =~= file_actions(i, replies) + rest);
    } else {
        assert(cfg_run(probed, false, replies, steps) == seq![create] + cfg_run(
            created,
            replies(create),
            replies,
            left,
        ));
        if replies(create) {
            let left2 = (steps - 2) as nat;
            assert(cfg_run(created, true, replies, left) == seq![write] + cfg_run(
                written,
                replies(write),
                replies,
                left2,
            ));
            lemma_turn(written, replies(write), i, replies, left2);
            assert(seq![probe] + (seq![create] + (seq![write] + rest)) =~= file_actions(i, replies)
                + rest);
        } else {
            lemma_turn(created, false, i, replies, left);
            assert(seq![probe] + (seq![create] + rest) =~= file_actions(i, replies) + rest);
        }
    }
}

/// The run from a state that is done with file `i`.
proof fn lemma_turn(
    m: CfgFiles,
    ok: bool,
    i: usize,
    replies: spec_fn(CfgAction) -> bool,
    steps: nat,
)
    requires
        i < m.total,
        cfg_step(m, ok) == turn_to(m.total, i + 1),
        steps >= 3 * (m.total - i - 1) + 1,
    ensures
        cfg_run(m, ok, replies, steps) == all_actions(m.total, i + 1, replies),
    decreases m.total - i, 0int,
{
    if i + 1 < m.total {
        let j = (i + 1) as usize;
        lemma_run_from(m.total, j, replies, (steps - 1) as nat);
        assert(cfg_run(m, ok, replies, steps) == seq![CfgAction::Probe(j)] + cfg_run(
            CfgFiles { total: m.total, phase: CfgPhase::Probed(j) },
            replies(CfgAction::Probe(j)),
            replies,
            (steps - 1) as nat,
        ));
    }
}

/// The disk after two runs of actions, one after the other.
proof fn lemma_disk_concat(
    disk: Map<int, Seq<u8>>,
    embedded: Seq<Seq<u8>>,
    a: Seq<CfgAction>,
    b: Seq<CfgAction>,
    replies: spec_fn(CfgAction) -> bool,
)
    ensures
        disk_after(disk, embedded, a + b, replies) == disk_after(
            disk_after(disk, embedded, a, replies),
            embedded,
            b,
            replies,
        ),
    decreases b.len(),
{
    if b.len() == 0 {
        assert(a + b =~= a);
    } else {
        assert((a + b).drop_last() =~= a + b.drop_last());
        lemma_disk_concat(disk, embedded, a, b.drop_last(), replies);
    }
}

/// What the actions for one file do to the disk.
proof fn lemma_disk_one_file(
    disk: Map<int, Seq<u8>>,
    embedded: Seq<Seq<u8>>,
    i: usize,
    replies: spec_fn(CfgAction) -> bool,
)
    ensures
        disk_after(disk, embedded, file_actions(i, replies), replies) == if gets_written(
            i,
            replies,
        ) {
            disk.insert(i as int, embedded[i as int])
        } else {
            disk
        },
{
    let actions = file_actions(i, replies);
    reveal_with_fuel(disk_after, 4);
    if replies(CfgAction::Probe(i)) {
        assert(actions.drop_last() =~= Seq::empty());
    } else if replies(CfgAction::CreateParent(i)) {
        assert(actions.drop_last() =~= seq![CfgAction::Probe(i), CfgAction::CreateParent(i)]);
        assert(actions.drop_last().drop_last() =~= seq![CfgAction::Probe(i)]);
        assert(actions.drop_last().drop_last().drop_last() =~= Seq::empty());
    } else {
        assert(actions.drop_last() =~= seq![CfgAction::Probe(i)]);
        assert(actions.drop_last().drop_last() =~= Seq::empty());
    }
}

/// The disk after the files from `from` on were taken.
proof fn lemma_disk_from(
    disk: Map<int, Seq<u8>>,
    embedded: Seq<Seq<u8>>,
    total: usize,
    from: int,
    replies: spec_fn(CfgAction) -> bool,
    i: int,
)
    requires
        0 <= from,
    ensures
        ({
            let after = disk_after(disk, embedded, all_actions(total, from, replies), replies);
            if from <= i < total && gets_written(i as usize, replies) {
                after.contains_key(i) && after[i] == embedded[i]
            } else {
                after.contains_key(i) == disk.contains_key(i) && (disk.contains_key(i) ==> after[i]
                    == disk[i])
            }
        }),
    decreases total - from,
{
    if from < total {
        let head = file_actions(from as usize, replies);
        let tail = all_actions(total, from + 1, replies);
        lemma_disk_concat(disk, embedded, head, tail, replies);
        lemma_disk_one_file(disk, embedded, from as usize, replies);
        lemma_disk_from(
            disk_after(disk, embedded, head, replies),
            embedded,
            total,
            from + 1,
            replies,
            i,
        );
    }
}

/// A file that exists keeps its content, whatever else happens. A file that is
/// absent holds the embedded copy afterwards where its directory could be
/// created and the write succeeded, and stays absent where the directory could
/// not be created.
pub proof fn lemma_existing_files_survive(
    disk: Map<int, Seq<u8>>,
    embedded: Seq<Seq<u8>>,
    total: usize,
    replies: spec_fn(CfgAction) -> bool,
    ok: bool,
    steps: nat,
    i: int,
)
    requires
        steps >= 3 * total + 1,
        0 <= i < total,
        forall|k: usize|
            k < total ==> (#[trigger] replies(CfgAction::Probe(k)) == disk.contains_key(k as int)),
    ensures
        ({
            let run = cfg_run(CfgFiles { total, phase: CfgPhase::Start }, ok, replies, steps);
            let after = disk_after(disk, embedded, run, replies);
            &&& disk.contains_key(i) ==> after.contains_key(i) && after[i] == disk[i]
            &&& !disk.contains_key(i) && replies(CfgAction::CreateParent(i as usize)) && replies(
                CfgAction::Write(i as usize),
            ) ==> after.contains_key(i) && after[i] == embedded[i]
            &&& !disk.contains_key(i) && !replies(CfgAction::CreateParent(i as usize))
                ==> !after.contains_key(i)
        }),
{
    lemma_run_takes_every_file(total, replies, ok, steps);
    lemma_disk_from(disk, embedded, total, 0, replies, i);
    assert(replies(CfgAction::Probe(i as usize)) == disk.contains_key(i as usize as int));
}

/// Unpacking changes nothing on disk but embedded files that are absent.
pub proof fn lemma_only_absent_files_change(
    disk: Map<int, Seq<u8>>,
    embedded: Seq<Seq<u8>>,
    total: usize,
    replies: spec_fn(CfgAction) -> bool,
    ok: bool,
    steps: nat,
    i: int,
)
    requires
        steps >= 3 * total + 1,
        forall|k: usize|
            k < total ==> (#[trigger] replies(CfgAction::Probe(k)) == disk.contains_key(k as int)),
        i < 0 || i >= total || disk.contains_key(i),
    ensures
        ({
            let run = cfg_run(CfgFiles { total, phase: CfgPhase::Start }, ok, replies, steps);
            let after = disk_after(disk, embedded, run, replies);
            &&& after.contains_key(i) == disk.contains_key(i)
            &&& disk.contains_key(i) ==> after[i] == disk[i]
        }),
{
    lemma_run_takes_every_file(total, replies, ok, steps);
    lemma_disk_from(disk, embedded, total, 0, replies, i);
    if 0 <= i < total {
        assert(replies(CfgAction::Probe(i as usize)) == disk.contains_key(i as usize as int));
    }
}

/// Where every file exists, all that is done is to ask for each.
proof fn lemma_probes_only(total: usize, from: int, replies: spec_fn(CfgAction) -> bool)
    requires
        0 <= from,
        forall|k: usize| k < total ==> #[trigger] replies(CfgAction::Probe(k)),
    ensures
        forall|j: int|
            0 <= j < all_actions(total, from, replies).len() ==> (#[trigger] all_actions(
                total,
                from,
                replies,
            )[j]) is Probe,
    decreases total - from,
{
    if from < total {
        lemma_probes_only(total, from + 1, replies);
        let head = file_actions(from as usize, replies);
        let tail = all_actions(total, from + 1, replies);
        assert(replies(CfgAction::Probe(from as usize)));
        assert forall|j: int| 0 <= j < (head + tail).len() implies (#[trigger] (head
            + tail)[j]) is Probe by {
            if j > 0 {
                assert((head + tail)[j] == tail[j - 1]);
            }
        }
    }
}

/// Asking for files changes none.
proof fn lemma_probes_change_nothing(
    disk: Map<int, Seq<u8>>,
    embedded: Seq<Seq<u8>>,
    actions: Seq<CfgAction>,
    replies: spec_fn(CfgAction) -> bool,
)
    requires
        forall|j: int| 0 <= j < actions.len() ==> (#[trigger] actions[j]) is Probe,
    ensures
        disk_after(disk, embedded, actions, replies) == disk,
    decreases actions.len(),
{
    if actions.len() > 0 {
        let init = actions.drop_last();
        assert forall|j: int| 0 <= j < init.len() implies (#[trigger] init[j]) is Probe by {
            assert(init[j] == actions[j]);
        }
        lemma_probes_change_nothing(disk, embedded, init, replies);
        assert(actions[actions.len() - 1] is Probe);
    }
}

/// Once every absent file could be written, a second unpacking only looks: it
/// creates no directory, writes no file and leaves the disk as it is.
pub proof fn lemma_second_unpacking_writes_nothing(
    disk: Map<int, Seq<u8>>,
    embedded: Seq<Seq<u8>>,
    total: usize,
    first: spec_fn(CfgAction) -> bool,
    second: spec_fn(CfgAction) -> bool,
    ok: bool,
    steps: nat,
)
    requires
        steps >= 3 * total + 1,
        forall|k: usize|
            k < total ==> (#[trigger] first(CfgAction::Probe(k)) == disk.contains_key(k as int)),
        forall|k: usize|
            k < total && !disk.contains_key(k as int) ==> #[trigger] first(
                CfgAction::CreateParent(k),
            ) && first(CfgAction::Write(k)),
        forall|k: usize|
            k < total ==> (#[trigger] second(CfgAction::Probe(k)) == disk_after(
                disk,
                embedded,
                cfg_run(CfgFiles { total, phase: CfgPhase::Start }, ok, first, steps),
                first,
            ).contains_key(k as int)),
    ensures
        ({
            let start = CfgFiles { total, phase: CfgPhase::Start };
            let after = disk_after(disk, embedded, cfg_run(start, ok, first, steps), first);
            let run = cfg_run(start, ok, second, steps);
            &&& forall|j: int| 0 <= j < run.len() ==> (#[trigger] run[j]) is Probe
            &&& disk_after(after, embedded, run, second) == after
        }),
{
    let start = CfgFiles { total, phase: CfgPhase::Start };
    let after = disk_after(disk, embedded, cfg_run(start, ok, first, steps), first);
    assert forall|k: usize| k < total implies #[trigger] second(CfgAction::Probe(k)) by {
        lemma_existing_files_survive(disk, embedded, total, first, ok, steps, k as int);
        if !disk.contains_key(k as int) {
            assert(first(CfgAction::CreateParent(k)));
        }
    }
    lemma_run_takes_every_file(total, second, ok, steps);
    lemma_probes_only(total, 0, second);
    lemma_probes_change_nothing(after, embedded, all_actions(total, 0, second), second);
}

/// A run is made of steps, each of which takes the reply to the action before.
pub proof fn lemma_run_follows_steps(
    m: CfgFiles,
    ok: bool,
    replies: spec_fn(CfgAction) -> bool,
    steps: nat,
)
    ensures
        cfg_run(m, ok, replies, 0) == Seq::<CfgAction>::empty(),
        ({
            let (next, action) = cfg_step(m, ok);
            cfg_run(m, ok, replies, steps + 1) == if action == CfgAction::Done {
                Seq::empty()
            } else {
                seq![action] + cfg_run(next, replies(action), replies, steps)
            }
        }),
{
}

/// An unpacking that is done stays so.
pub proof fn lemma_done_stays_done(m: CfgFiles, ok: bool, later: bool)
    requires
        cfg_step(m, ok).1 == CfgAction::Done,
    ensures
        cfg_step(cfg_step(m, ok).0, later) == (cfg_step(m, ok).0, CfgAction::Done),
{
}

/// The files are taken one by one up to the last: each is asked for; where it is
/// absent its directory is created, and where that worked it is written.
pub proof fn lemma_files_are_taken_one_by_one(
    total: usize,
    i: usize,
    replies: spec_fn(CfgAction) -> bool,
)
    requires
        i < total,
    ensures
        all_actions(total, total as int, replies) == Seq::<CfgAction>::empty(),
        all_actions(total, i as int, replies) == (if replies(CfgAction::Probe(i)) {
            seq![CfgAction::Probe(i)]
        } else if replies(CfgAction::CreateParent(i)) {
            seq![CfgAction::Probe(i), CfgAction::CreateParent(i), CfgAction::Write(i)]
        } else {
            seq![CfgAction::Probe(i), CfgAction::CreateParent(i)]
        }) + all_actions(total, i + 1, replies),
{
}

/// Only a write that succeeds changes the disk, and only its own file, which
/// then holds the embedded copy.
pub proof fn lemma_only_writes_change_the_disk(
    disk: Map<int, Seq<u8>>,
    embedded: Seq<Seq<u8>>,
    actions: Seq<CfgAction>,
    action: CfgAction,
    replies: spec_fn(CfgAction) -> bool,
    i: usize,
)
    ensures
        disk_after(disk, embedded, Seq::empty(), replies) == disk,
        ({
            let before = disk_after(disk, embedded, actions, replies);
            let after = disk_after(disk, embedded, actions.push(action), replies);
            &&& action == CfgAction::Write(i) && replies(action) ==> after == before.insert(
                i as int,
                embedded[i as int],
            )
            &&& !(action is Write) || !replies(action) ==> after == before
        }),
{
    assert(actions.push(action).drop_last() =~= actions);
}

/// Starts the unpacking of `total` embedded files.
pub fn ensure_cfg_files(total: usize) -> (r: CfgFiles)
    ensures
        r == (CfgFiles { total, phase: CfgPhase::Start }),
{
    CfgFiles { total, phase: CfgPhase::Start }
}

impl CfgFiles {
    /// Turns to file `i`, or ends where there is none.
    fn turn(&mut self, i: usize) -> (r: CfgAction)
        ensures
            (*final(self), r) == turn_to(old(self).total, i as int),
    {
        if i < self.total {
            self.phase = CfgPhase::Probed(i);
            CfgAction::Probe(i)
        } else {
            self.phase = CfgPhase::Finished;
            CfgAction::Done
        }
    }

    /// Turns to the file after `i`.
    fn turn_after(&mut self, i: usize) -> (r: CfgAction)
        ensures
            (*final(self), r) == turn_to(old(self).total, i + 1),
    {
        let next: usize = if i < self.total {
            i + 1
        } else {
            self.total
        };
        self.turn(next)
    }

    /// Takes the reply to the last action and gives the next action. The first
    /// call's reply is ignored, and so is the reply to a write.
    pub fn next(&mut self, ok: bool) -> (r: CfgAction)
        ensures
            (*final(self), r) == cfg_step(*old(self), ok),
    {
        match self.phase {
            CfgPhase::Start => self.turn(0),
            CfgPhase::Probed(i) => if ok {
                self.turn_after(i)
            } else {
                self.phase = CfgPhase::ParentCreated(i);
                CfgAction::CreateParent(i)
            },
            CfgPhase::ParentCreated(i) => if ok {
                self.phase = CfgPhase::Written(i);
                CfgAction::Write(i)
            } else {
                self.turn_after(i)
            },
            CfgPhase::Written(i) => self.turn_after(i),
            CfgPhase::Finished => CfgAction::Done,
        }
    }
}

} // verus!
