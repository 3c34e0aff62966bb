//! Choosing the working directory at start-up.
//!
//! An executable outside a build directory belongs to a portable deployment
//! only where a `cfg` directory lies beside it. Once the layout is known, the
//! variables for the assets are written; then the process goes to the
//! launcher's directory of the monorepo, or to the directory of the deployment.
//! All runtime state lives in an `ion` directory below it, which is created and
//! entered, so that the directory of the executable stays clean; the embedded
//! configuration files are unpacked there. No failure on the way is final. The
//! decisions are made here, one reply at a time; the caller performs the
//! actions.

use crate::env::{
    applied, unset, views, Child, Dir, Env, EnvView, Setting, SettingView,
};
use crate::layout::{
    asset_settings, deployment_root, find_layout, layout_of, lemma_root_is_above_first_target,
    monorepo_root, with_cfg, ExePath, Layout,
};
use crate::runs::{
    env_after, lemma_env_concat, lemma_env_of_one_write, lemma_env_of_quiet_actions, lemma_prepend,
};
use vstd::prelude::*;

verus! {

/// What the caller is asked to do.
#[derive(Clone, Copy, PartialEq, Eq, Structural, Debug)]
pub enum FolderAction {
    /// Say whether this is a directory.
    Probe(Dir),
    /// Write the variables for the assets of the layout.
    WriteAssetSettings,
    /// Make this the working directory.
    Enter(Dir),
    /// Read the working directory; say whether that worked.
    ReadCurrentDir,
    /// Create the runtime directory below the working directory that was read;
    /// say whether that worked.
    CreateRuntimeDir,
    /// Make the runtime directory the working directory.
    EnterRuntimeDir,
    /// Unpack the configuration files that are absent.
    UnpackCfgFiles,
    /// Nothing is left to do.
    Done,
}

/// The reply that is awaited.
#[derive(Clone, Copy, PartialEq, Eq, Structural, Debug)]
pub enum FolderPhase {
    Start,
    CfgProbed,
    AssetsWritten,
    HomeProbed,
    HomeEntered,
    CurrentDirRead,
    RuntimeDirCreated,
    RuntimeDirEntered,
    CfgFilesUnpacked,
    Finished,
}

/// The choice of the working directory for a layout.
#[derive(Clone, Copy, PartialEq, Eq, Structural, Debug)]
pub struct Folders {
    pub layout: Layout,
    pub phase: FolderPhase,
}

/// The launcher's directory below the root of the monorepo.
pub open spec fn single_ion_dir(root: usize) -> Dir {
    Dir { ancestor: root, child: Child::SingleIon }
}

/// The directory of a portable deployment.
pub open spec fn exe_dir(i: usize) -> Dir {
    Dir { ancestor: i, child: Child::Itself }
}

/// The configuration files beside the executable of a portable deployment.
pub open spec fn cfg_dir(i: usize) -> Dir {
    Dir { ancestor: i, child: Child::Cfg }
}

/// The phase and action after the reply `ok` to the last action, where the
/// reply was already taken into account in `layout`.
pub open spec fn folder_move(
    layout: Layout,
    phase: FolderPhase,
    ok: bool,
) -> (FolderPhase, FolderAction) {
    match phase {
        FolderPhase::Start => match layout {
            Layout::Portable(i) => (FolderPhase::CfgProbed, FolderAction::Probe(cfg_dir(i))),
            _ => (FolderPhase::AssetsWritten, FolderAction::WriteAssetSettings),
        },
        FolderPhase::CfgProbed => (FolderPhase::AssetsWritten, FolderAction::WriteAssetSettings),
        FolderPhase::AssetsWritten => match layout {
            Layout::Monorepo(i) => (
                FolderPhase::HomeProbed,
                FolderAction::Probe(single_ion_dir(i)),
            ),
            Layout::Portable(i) => (FolderPhase::HomeEntered, FolderAction::Enter(exe_dir(i))),
            Layout::Unknown => (FolderPhase::CurrentDirRead, FolderAction::ReadCurrentDir),
        },
        FolderPhase::HomeProbed => match layout {
            Layout::Monorepo(i) if ok => (
                FolderPhase::HomeEntered,
                FolderAction::Enter(single_ion_dir(i)),
            ),
            _ => (FolderPhase::CurrentDirRead, FolderAction::ReadCurrentDir),
        },
        FolderPhase::HomeEntered => (FolderPhase::CurrentDirRead, FolderAction::ReadCurrentDir),
        FolderPhase::CurrentDirRead if ok => (
            FolderPhase::RuntimeDirCreated,
            FolderAction::CreateRuntimeDir,
        ),
        FolderPhase::RuntimeDirCreated if ok => (
            FolderPhase::RuntimeDirEntered,
            FolderAction::EnterRuntimeDir,
        ),
        FolderPhase::CurrentDirRead | FolderPhase::RuntimeDirCreated
        | FolderPhase::RuntimeDirEntered => (
            FolderPhase::CfgFilesUnpacked,
            FolderAction::UnpackCfgFiles,
        ),
        FolderPhase::CfgFilesUnpacked | FolderPhase::Finished => (
            FolderPhase::Finished,
            FolderAction::Done,
        ),
    }
}

/// The next state and action after the reply `ok` to the last action.
pub open spec fn folder_step(m: Folders, ok: bool) -> (Folders, FolderAction) {
    let layout = if m.phase is CfgProbed {
        with_cfg(m.layout, ok)
    } else {
        m.layout
    };
    let (phase, action) = folder_move(layout, m.phase, ok);
    (Folders { layout, phase }, action)
}

/// The actions of the first `steps` steps from `m`, where `ok` answers the last
/// action and `replies` the ones to come.
pub open spec fn folder_run(
    m: Folders,
    ok: bool,
    replies: spec_fn(FolderAction) -> bool,
    steps: nat,
) -> Seq<FolderAction>
    decreases steps,
{
    if steps == 0 {
        Seq::empty()
    } else {
        let (next, action) = folder_step(m, ok);
        if action == FolderAction::Done {
            Seq::empty()
        } else {
            seq![action] + folder_run(next, replies(action), replies, (steps - 1) as nat)
        }
    }
}

/// The state after `steps` steps from `m`, where `ok` answers the last action
/// and `replies` the ones to come.
pub open spec fn folder_state(
    m: Folders,
    ok: bool,
    replies: spec_fn(FolderAction) -> bool,
    steps: nat,
) -> Folders
    decreases steps,
{
    if steps == 0 {
        m
    } else {
        let (next, action) = folder_step(m, ok);
        folder_state(next, replies(action), replies, (steps - 1) as nat)
    }
}

/// The layout once the disk has been asked: a portable deployment only where
/// its `cfg` directory is there.
pub open spec fn settled_layout(
    layout: Layout,
    replies: spec_fn(FolderAction) -> bool,
) -> Layout {
    match layout {
        Layout::Portable(i) => with_cfg(layout, replies(FolderAction::Probe(cfg_dir(i)))),
        _ => layout,
    }
}

/// Settling the layout, writing the variables for the assets, and going to the
/// directory of the layout.
pub open spec fn home_actions(
    layout: Layout,
    replies: spec_fn(FolderAction) -> bool,
) -> Seq<FolderAction> {
    match layout {
        Layout::Monorepo(i) => {
            let dir = single_ion_dir(i);
            if replies(FolderAction::Probe(dir)) {
                seq![
                    FolderAction::WriteAssetSettings,
                    FolderAction::Probe(dir),
                    FolderAction::Enter(dir),
                ]
            } else {
                seq![FolderAction::WriteAssetSettings, FolderAction::Probe(dir)]
            }
        },
        Layout::Portable(i) => {
            let cfg = cfg_dir(i);
            if replies(FolderAction::Probe(cfg)) {
                seq![
                    FolderAction::Probe(cfg),
                    FolderAction::WriteAssetSettings,
                    FolderAction::Enter(exe_dir(i)),
                ]
            } else {
                seq![FolderAction::Probe(cfg), FolderAction::WriteAssetSettings]
            }
        },
        Layout::Unknown => seq![FolderAction::WriteAssetSettings],
    }
}

/// Creating and entering the runtime directory.
pub open spec fn runtime_actions(replies: spec_fn(FolderAction) -> bool) -> Seq<FolderAction> {
    if !replies(FolderAction::ReadCurrentDir) {
        seq![FolderAction::ReadCurrentDir]
    } else if !replies(FolderAction::CreateRuntimeDir) {
        seq![FolderAction::ReadCurrentDir, FolderAction::CreateRuntimeDir]
    } else {
        seq![
            FolderAction::ReadCurrentDir,
            FolderAction::CreateRuntimeDir,
            FolderAction::EnterRuntimeDir,
        ]
    }
}

/// The runtime directory and the configuration files in it.
pub open spec fn settle_actions(replies: spec_fn(FolderAction) -> bool) -> Seq<FolderAction> {
    runtime_actions(replies) + seq![FolderAction::UnpackCfgFiles]
}

/// One step of a run, for its actions and for its state.
proof fn lemma_one_step(
    m: Folders,
    ok: bool,
    replies: spec_fn(FolderAction) -> bool,
    steps: nat,
    next: Folders,
    action: FolderAction,
)
    requires
        steps > 0,
        folder_step(m, ok) == (next, action),
        action != FolderAction::Done,
    ensures
        folder_run(m, ok, replies, steps) == seq![action] + folder_run(
            next,
            replies(action),
            replies,
            (steps - 1) as nat,
        ),
        folder_state(m, ok, replies, steps) == folder_state(
            next,
            replies(action),
            replies,
            (steps - 1) as nat,
        ),
{
}

/// A run that has ended stays as it is.
proof fn lemma_ended(
    layout: Layout,
    phase: FolderPhase,
    ok: bool,
    replies: spec_fn(FolderAction) -> bool,
    steps: nat,
)
    requires
        phase is CfgFilesUnpacked || phase is Finished,
        steps > 0,
    ensures
        folder_run(Folders { layout, phase }, ok, replies, steps) == Seq::<FolderAction>::empty(),
        folder_state(Folders { layout, phase }, ok, replies, steps) == (Folders {
            layout,
            phase: FolderPhase::Finished,
        }),
    decreases steps,
{
    if steps > 1 {
        lemma_ended(
            layout,
            FolderPhase::Finished,
            replies(FolderAction::Done),
            replies,
            (steps - 1) as nat,
        );
    } else {
        reveal_with_fuel(folder_state, 2);
    }
}

/// The run from a state whose next action is to read the working directory.
proof fn lemma_settle_run(
    m: Folders,
    ok: bool,
    replies: spec_fn(FolderAction) -> bool,
    steps: nat,
)
    requires
        steps >= 5,
        folder_step(m, ok) == (
            Folders { layout: m.layout, phase: FolderPhase::CurrentDirRead },
            FolderAction::ReadCurrentDir,
        ),
    ensures
        folder_run(m, ok, replies, steps) == settle_actions(replies),
        folder_state(m, ok, replies, steps) == (Folders {
            layout: m.layout,
            phase: FolderPhase::Finished,
        }),
{
    let read = FolderAction::ReadCurrentDir;
    let create = FolderAction::CreateRuntimeDir;
    let enter = FolderAction::EnterRuntimeDir;
    let unpack = FolderAction::UnpackCfgFiles;
    let layout = m.layout;
    let was_read = Folders { layout, phase: FolderPhase::CurrentDirRead };
    let created = Folders { layout, phase: FolderPhase::RuntimeDirCreated };
    let entered = Folders { layout, phase: FolderPhase::RuntimeDirEntered };
    let unpacked = Folders { layout, phase: FolderPhase::CfgFilesUnpacked };
    let n1 = (steps - 1) as nat;
    let n2 = (steps - 2) as nat;
    let n3 = (steps - 3) as nat;
    let n4 = (steps - 4) as nat;
    let none = Seq::<FolderAction>::empty();
    lemma_one_step(m, ok, replies, steps, was_read, read);
    if !replies(read) {
        lemma_one_step(was_read, false, replies, n1, unpacked, unpack);
        lemma_ended(layout, FolderPhase::CfgFilesUnpacked, replies(unpack), replies, n2);
        assert(seq![read] + (seq![unpack] + none) =~= settle_actions(replies));
    } else {
        lemma_one_step(was_read, true, replies, n1, created, create);
        if !replies(create) {
            lemma_one_step(created, false, replies, n2, unpacked, unpack);
            lemma_ended(layout, FolderPhase::CfgFilesUnpacked, replies(unpack), replies, n3);
            assert(seq![read] + (seq![create] + (seq![unpack] + none)) =~= settle_actions(
                replies,
            ));
        } else {
            lemma_one_step(created, true, replies, n2, entered, enter);
            lemma_one_step(entered, replies(enter), replies, n3, unpacked, unpack);
            lemma_ended(layout, FolderPhase::CfgFilesUnpacked, replies(unpack), replies, n4);
            assert(seq![read] + (seq![create] + (seq![enter] + (seq![unpack] + none)))
                =~= settle_actions(replies));
        }
    }
}

/// However the system replies, the run settles the layout, writes the variables
/// for the assets, goes to the directory of the layout, then to the runtime
/// directory, then unpacks the configuration files, and ends with the settled
/// layout. The monorepo directory is entered only where it exists, that of a
/// deployment only where it holds `cfg`, and the runtime directory only where
/// it was created; unpacking comes last in every run.
pub proof fn lemma_run_of_folders(
    layout: Layout,
    replies: spec_fn(FolderAction) -> bool,
    ok: bool,
    steps: nat,
)
    requires
        steps >= 8,
    ensures
        folder_run(Folders { layout, phase: FolderPhase::Start }, ok, replies, steps)
            == home_actions(layout, replies) + settle_actions(replies),
        folder_state(Folders { layout, phase: FolderPhase::Start }, ok, replies, steps) == (
        Folders { layout: settled_layout(layout, replies), phase: FolderPhase::Finished }),
{
    let start = Folders { layout, phase: FolderPhase::Start };
    let write = FolderAction::WriteAssetSettings;
    let tail = settle_actions(replies);
    let n1 = (steps - 1) as nat;
    let n2 = (steps - 2) as nat;
    let n3 = (steps - 3) as nat;
    let written = Folders { layout, phase: FolderPhase::AssetsWritten };
    let entered = Folders { layout, phase: FolderPhase::HomeEntered };
    match layout {
        Layout::Monorepo(i) => {
            let probe = FolderAction::Probe(single_ion_dir(i));
            let enter = FolderAction::Enter(single_ion_dir(i));
            let probed = Folders { layout, phase: FolderPhase::HomeProbed };
            lemma_one_step(start, ok, replies, steps, written, write);
            lemma_one_step(written, replies(write), replies, n1, probed, probe);
            lemma_prepend(write, probe, enter, tail);
            if replies(probe) {
                lemma_one_step(probed, true, replies, n2, entered, enter);
                lemma_settle_run(entered, replies(enter), replies, n3);
            } else {
                lemma_settle_run(probed, false, replies, n2);
            }
        },
        Layout::Portable(i) => {
            let cfg = FolderAction::Probe(cfg_dir(i));
            let enter = FolderAction::Enter(exe_dir(i));
            let probed = Folders { layout, phase: FolderPhase::CfgProbed };
            let nowhere = Folders { layout: Layout::Unknown, phase: FolderPhase::AssetsWritten };
            lemma_one_step(start, ok, replies, steps, probed, cfg);
            lemma_prepend(cfg, write, enter, tail);
            if replies(cfg) {
                lemma_one_step(probed, true, replies, n1, written, write);
                lemma_one_step(written, replies(write), replies, n2, entered, enter);
                lemma_settle_run(entered, replies(enter), replies, n3);
            } else {
                lemma_one_step(probed, false, replies, n1, nowhere, write);
                lemma_settle_run(nowhere, replies(write), replies, n2);
            }
        },
        Layout::Unknown => {
            lemma_one_step(start, ok, replies, steps, written, write);
            lemma_settle_run(written, replies(write), replies, n1);
        },
    }
}

/// An executable outside a monorepo has a deployment root at the end of the run
/// exactly where a `cfg` directory lies beside it, and the root of a monorepo
/// does not depend on what the system replies.
pub proof fn lemma_deployment_needs_cfg(
    layout: Layout,
    replies: spec_fn(FolderAction) -> bool,
    ok: bool,
    steps: nat,
)
    requires
        steps >= 8,
    ensures
        ({
            let end = folder_state(
                Folders { layout, phase: FolderPhase::Start },
                ok,
                replies,
                steps,
            );
            &&& monorepo_root(end.layout) == monorepo_root(layout)
            &&& deployment_root(end.layout) == match layout {
                Layout::Portable(i) if replies(FolderAction::Probe(cfg_dir(i))) => Some(i),
                _ => None,
            }
        }),
{
    lemma_run_of_folders(layout, replies, ok, steps);
}

/// A directory is entered only after the variables for the assets were written.
pub proof fn lemma_assets_are_written_first(
    layout: Layout,
    replies: spec_fn(FolderAction) -> bool,
    ok: bool,
    steps: nat,
    k: int,
)
    requires
        steps >= 8,
        0 <= k < folder_run(
            Folders { layout, phase: FolderPhase::Start },
            ok,
            replies,
            steps,
        ).len(),
        folder_run(Folders { layout, phase: FolderPhase::Start }, ok, replies, steps)[k] is Enter,
    ensures
        exists|j: int|
            0 <= j < k && #[trigger] folder_run(
                Folders { layout, phase: FolderPhase::Start },
                ok,
                replies,
                steps,
            )[j] == FolderAction::WriteAssetSettings,
{
    lemma_run_of_folders(layout, replies, ok, steps);
    lemma_enter_stands_behind_write(layout, replies, k);
}

/// The same, of the list of actions.
proof fn lemma_enter_stands_behind_write(
    layout: Layout,
    replies: spec_fn(FolderAction) -> bool,
    k: int,
)
    requires
        0 <= k < (home_actions(layout, replies) + settle_actions(replies)).len(),
        (home_actions(layout, replies) + settle_actions(replies))[k] is Enter,
    ensures
        exists|j: int|
            0 <= j < k && #[trigger] (home_actions(layout, replies) + settle_actions(replies))[j]
                == FolderAction::WriteAssetSettings,
{
    let a = home_actions(layout, replies);
    let b = settle_actions(replies);
    let list = a + b;
    if k >= a.len() {
        assert(list[k] == b[k - a.len()]);
    } else {
        assert(list[k] == a[k]);
        assert(list[0] == a[0]);
        assert(k > 1 ==> list[1] == a[1]);
    }
}

/// The directories of a layout, by the number of its root: the launcher's own
/// directory of a monorepo, and the deployment with its configuration files.
pub proof fn lemma_dirs_of_layouts(i: usize)
    ensures
        single_ion_dir(i) == (Dir { ancestor: i, child: Child::SingleIon }),
        exe_dir(i) == (Dir { ancestor: i, child: Child::Itself }),
        cfg_dir(i) == (Dir { ancestor: i, child: Child::Cfg }),
{
}

/// A run is made of steps, each of which takes the reply to the action before.
pub proof fn lemma_run_follows_steps(
    m: Folders,
    ok: bool,
    replies: spec_fn(FolderAction) -> bool,
    steps: nat,
)
    ensures
        folder_run(m, ok, replies, 0) == Seq::<FolderAction>::empty(),
        folder_state(m, ok, replies, 0) == m,
        ({
            let (next, action) = folder_step(m, ok);
            &&& folder_run(m, ok, replies, steps + 1) == if action == FolderAction::Done {
                Seq::empty()
            } else {
                seq![action] + folder_run(next, replies(action), replies, steps)
            }
            &&& folder_state(m, ok, replies, steps + 1) == folder_state(
                next,
                replies(action),
                replies,
                steps,
            )
        }),
{
}

/// A run that is done stays so.
pub proof fn lemma_done_stays_done(m: Folders, ok: bool, later: bool)
    requires
        folder_step(m, ok).1 == FolderAction::Done,
    ensures
        folder_step(folder_step(m, ok).0, later) == (folder_step(m, ok).0, FolderAction::Done),
{
}

/// What a run does in a monorepo with the root `i`: it asks for the launcher's
/// directory there, and for no other, and enters it where it is there. The
/// layout stays what it is.
pub proof fn lemma_run_in_a_monorepo(
    i: usize,
    replies: spec_fn(FolderAction) -> bool,
    ok: bool,
    steps: nat,
)
    requires
        steps >= 8,
    ensures
        ({
            let start = Folders { layout: Layout::Monorepo(i), phase: FolderPhase::Start };
            let dir = Dir { ancestor: i, child: Child::SingleIon };
            &&& folder_run(start, ok, replies, steps) == seq![
                FolderAction::WriteAssetSettings,
                FolderAction::Probe(dir),
            ] + (if replies(FolderAction::Probe(dir)) {
                seq![FolderAction::Enter(dir)]
            } else {
                Seq::empty()
            }) + settle_actions(replies)
            &&& folder_state(start, ok, replies, steps).layout == Layout::Monorepo(i)
        }),
{
    lemma_run_of_folders(Layout::Monorepo(i), replies, ok, steps);
    let dir = Dir { ancestor: i, child: Child::SingleIon };
    let ask = seq![FolderAction::WriteAssetSettings, FolderAction::Probe(dir)];
    let enter = if replies(FolderAction::Probe(dir)) {
        seq![FolderAction::Enter(dir)]
    } else {
        Seq::empty()
    };
    assert(ask + enter =~= home_actions(Layout::Monorepo(i), replies));
}

/// What a run does beside an executable in directory `i`: it asks for `cfg`
/// there, and enters the directory where that is there; otherwise the layout is
/// unknown from then on and nothing is entered.
pub proof fn lemma_run_of_a_deployment(
    i: usize,
    replies: spec_fn(FolderAction) -> bool,
    ok: bool,
    steps: nat,
)
    requires
        steps >= 8,
    ensures
        ({
            let start = Folders { layout: Layout::Portable(i), phase: FolderPhase::Start };
            let cfg = Dir { ancestor: i, child: Child::Cfg };
            let dir = Dir { ancestor: i, child: Child::Itself };
            let there = replies(FolderAction::Probe(cfg));
            &&& folder_run(start, ok, replies, steps) == seq![
                FolderAction::Probe(cfg),
                FolderAction::WriteAssetSettings,
            ] + (if there {
                seq![FolderAction::Enter(dir)]
            } else {
                Seq::empty()
            }) + settle_actions(replies)
            &&& folder_state(start, ok, replies, steps).layout == if there {
                Layout::Portable(i)
            } else {
                Layout::Unknown
            }
        }),
{
    lemma_run_of_folders(Layout::Portable(i), replies, ok, steps);
    let cfg = Dir { ancestor: i, child: Child::Cfg };
    let dir = Dir { ancestor: i, child: Child::Itself };
    let ask = seq![FolderAction::Probe(cfg), FolderAction::WriteAssetSettings];
    let enter = if replies(FolderAction::Probe(cfg)) {
        seq![FolderAction::Enter(dir)]
    } else {
        Seq::empty()
    };
    assert(ask + enter =~= home_actions(Layout::Portable(i), replies));
}

/// What a run does where nothing is known of the layout: nothing is asked for
/// and nothing of the layout is entered.
pub proof fn lemma_run_of_an_unknown_layout(
    replies: spec_fn(FolderAction) -> bool,
    ok: bool,
    steps: nat,
)
    requires
        steps >= 8,
    ensures
        ({
            let start = Folders { layout: Layout::Unknown, phase: FolderPhase::Start };
            &&& folder_run(start, ok, replies, steps) == seq![FolderAction::WriteAssetSettings]
                + settle_actions(replies)
            &&& folder_state(start, ok, replies, steps).layout == Layout::Unknown
        }),
{
    lemma_run_of_folders(Layout::Unknown, replies, ok, steps);
}

/// How every run ends: the working directory is read, the runtime directory
/// created and entered, each where the step before it worked, and the
/// configuration files are unpacked in any case.
pub proof fn lemma_how_runs_end(replies: spec_fn(FolderAction) -> bool)
    ensures
        !replies(FolderAction::ReadCurrentDir) ==> settle_actions(replies) == seq![
            FolderAction::ReadCurrentDir,
            FolderAction::UnpackCfgFiles,
        ],
        replies(FolderAction::ReadCurrentDir) && !replies(FolderAction::CreateRuntimeDir)
            ==> settle_actions(replies) == seq![
            FolderAction::ReadCurrentDir,
            FolderAction::CreateRuntimeDir,
            FolderAction::UnpackCfgFiles,
        ],
        replies(FolderAction::ReadCurrentDir) && replies(FolderAction::CreateRuntimeDir)
            ==> settle_actions(replies) == seq![
            FolderAction::ReadCurrentDir,
            FolderAction::CreateRuntimeDir,
            FolderAction::EnterRuntimeDir,
            FolderAction::UnpackCfgFiles,
        ],
{
    let list = settle_actions(replies);
    if !replies(FolderAction::ReadCurrentDir) {
        assert(list =~= seq![FolderAction::ReadCurrentDir, FolderAction::UnpackCfgFiles]);
    } else if !replies(FolderAction::CreateRuntimeDir) {
        assert(list =~= seq![
            FolderAction::ReadCurrentDir,
            FolderAction::CreateRuntimeDir,
            FolderAction::UnpackCfgFiles,
        ]);
    } else {
        assert(list =~= seq![
            FolderAction::ReadCurrentDir,
            FolderAction::CreateRuntimeDir,
            FolderAction::EnterRuntimeDir,
            FolderAction::UnpackCfgFiles,
        ]);
    }
}

/// For an executable in a build directory, the only directory that a run asks
/// for or enters is the launcher's, below the entry that stands directly above
/// the nearest one named `target`.
pub proof fn lemma_only_the_directory_above_target(
    names: Seq<Option<Seq<char>>>,
    k: int,
    replies: spec_fn(FolderAction) -> bool,
    ok: bool,
    steps: nat,
    n: int,
)
    requires
        steps >= 8,
        1 <= k < names.len() - 1,
        names[k] == Some("target"@),
        forall|j: int| 1 <= j < k ==> #[trigger] names[j] != Some("target"@),
        0 <= n < folder_run(
            Folders { layout: layout_of(Some(names)), phase: FolderPhase::Start },
            ok,
            replies,
            steps,
        ).len(),
    ensures
        ({
            let start = Folders { layout: layout_of(Some(names)), phase: FolderPhase::Start };
            let dir = Dir { ancestor: (k + 1) as usize, child: Child::SingleIon };
            let action = folder_run(start, ok, replies, steps)[n];
            &&& action matches FolderAction::Probe(d) ==> d == dir
            &&& action matches FolderAction::Enter(d) ==> d == dir && replies(
                FolderAction::Probe(dir),
            )
        }),
{
    let i = (k + 1) as usize;
    lemma_root_is_above_first_target(names, k);
    lemma_run_in_a_monorepo(i, replies, ok, steps);
    lemma_how_runs_end(replies);
    let dir = Dir { ancestor: i, child: Child::SingleIon };
    let home = seq![FolderAction::WriteAssetSettings, FolderAction::Probe(dir)] + (if replies(
        FolderAction::Probe(dir),
    ) {
        seq![FolderAction::Enter(dir)]
    } else {
        Seq::empty()
    });
    if n >= home.len() {
        assert((home + settle_actions(replies))[n] == settle_actions(replies)[n - home.len()]);
    }
}

/// The layout of a state that is past the question for `cfg` never changes.
proof fn lemma_layout_is_kept(
    m: Folders,
    ok: bool,
    replies: spec_fn(FolderAction) -> bool,
    steps: nat,
)
    requires
        !(m.phase is Start),
        !(m.phase is CfgProbed),
    ensures
        folder_state(m, ok, replies, steps).layout == m.layout,
    decreases steps,
{
    if steps > 0 {
        let (next, action) = folder_step(m, ok);
        lemma_layout_is_kept(next, replies(action), replies, (steps - 1) as nat);
    }
}

/// At every moment of a run the layout is the one that the path told; only that
/// of a deployment whose `cfg` is not there becomes unknown, with the second
/// step, which is the one that writes the variables for the assets.
pub proof fn lemma_layout_at_every_moment(
    i: usize,
    replies: spec_fn(FolderAction) -> bool,
    ok: bool,
    k: nat,
)
    ensures
        folder_state(
            Folders { layout: Layout::Monorepo(i), phase: FolderPhase::Start },
            ok,
            replies,
            k,
        ).layout == Layout::Monorepo(i),
        folder_state(
            Folders { layout: Layout::Unknown, phase: FolderPhase::Start },
            ok,
            replies,
            k,
        ).layout == Layout::Unknown,
        folder_state(
            Folders { layout: Layout::Portable(i), phase: FolderPhase::Start },
            ok,
            replies,
            k,
        ).layout == if k < 2 || replies(
            FolderAction::Probe(Dir { ancestor: i, child: Child::Cfg }),
        ) {
            Layout::Portable(i)
        } else {
            Layout::Unknown
        },
{
    if k > 0 {
        let n = (k - 1) as nat;
        let a = Folders { layout: Layout::Monorepo(i), phase: FolderPhase::Start };
        let (a1, x) = folder_step(a, ok);
        lemma_layout_is_kept(a1, replies(x), replies, n);
        let b = Folders { layout: Layout::Unknown, phase: FolderPhase::Start };
        let (b1, y) = folder_step(b, ok);
        lemma_layout_is_kept(b1, replies(y), replies, n);
        let c = Folders { layout: Layout::Portable(i), phase: FolderPhase::Start };
        let (c1, z) = folder_step(c, ok);
        if k > 1 {
            let (c2, w) = folder_step(c1, replies(z));
            lemma_layout_is_kept(c2, replies(w), replies, (k - 2) as nat);
            assert(folder_state(c1, replies(z), replies, n) == folder_state(
                c2,
                replies(w),
                replies,
                (k - 2) as nat,
            ));
        } else {
            assert(folder_state(c1, replies(z), replies, 0) == c1);
        }
    }
}

/// What an action writes to the environment, where `layout` is the one that the
/// run has settled on. An action that writes nothing gives nothing.
pub open spec fn action_writes(
    action: FolderAction,
    layout: Layout,
    env: EnvView,
) -> Seq<SettingView> {
    match action {
        FolderAction::WriteAssetSettings => unset(env, asset_settings(layout)),
        _ => Seq::empty(),
    }
}

/// What each action writes, for a run that has settled on `layout`.
pub open spec fn writes_of_run(
    layout: Layout,
) -> spec_fn(FolderAction, EnvView) -> Seq<SettingView> {
    |action: FolderAction, env: EnvView| action_writes(action, layout, env)
}

/// All that a run writes are the variables for the assets of the settled
/// layout, as far as they are not set.
pub proof fn lemma_run_writes_assets(
    env: EnvView,
    layout: Layout,
    replies: spec_fn(FolderAction) -> bool,
    ok: bool,
    steps: nat,
)
    requires
        steps >= 8,
    ensures
        env_after(
            env,
            folder_run(Folders { layout, phase: FolderPhase::Start }, ok, replies, steps),
            writes_of_run(settled_layout(layout, replies)),
        ) == applied(env, unset(env, asset_settings(settled_layout(layout, replies)))),
{
    lemma_run_of_folders(layout, replies, ok, steps);
    let f = writes_of_run(settled_layout(layout, replies));
    let a = home_actions(layout, replies);
    let b = settle_actions(replies);
    lemma_env_concat(env, a, b, f);
    lemma_env_of_one_write(
        env,
        a,
        f,
        if layout is Portable {
            1
        } else {
            0
        },
    );
    lemma_env_of_quiet_actions(env_after(env, a, f), b, f);
}

/// The variables for the assets are written by the one action for them, and by
/// no other.
pub proof fn lemma_what_actions_write(action: FolderAction, layout: Layout, env: EnvView)
    ensures
        writes_of_run(layout)(action, env) == action_writes(action, layout, env),
        action == FolderAction::WriteAssetSettings ==> action_writes(action, layout, env) == unset(
            env,
            asset_settings(layout),
        ),
        action != FolderAction::WriteAssetSettings ==> action_writes(action, layout, env)
            == Seq::<SettingView>::empty(),
{
}

/// A directory, as the steps that lead to it.
pub struct Place {
    /// The directory from which the names below lead: one that is named from the
    /// executable, or else the directory in which the process was started.
    pub home: Option<Dir>,
    /// The names of the directories on the way down from there.
    pub below: Seq<Seq<char>>,
}

/// What is known of the directories of the process.
pub struct Places {
    /// The working directory.
    pub current: Place,
    /// The runtime directory, as it follows from the working directory that was
    /// read last.
    pub runtime: Place,
}

/// The directory in which the process was started.
pub open spec fn start_place() -> Place {
    Place { home: None, below: Seq::empty() }
}

/// The runtime directory of a working directory.
pub open spec fn runtime_below(place: Place) -> Place {
    Place { home: place.home, below: place.below.push("ion"@) }
}

/// What one action does to the directories, as far as it succeeds.
pub open spec fn moved(
    places: Places,
    action: FolderAction,
    replies: spec_fn(FolderAction) -> bool,
) -> Places {
    match action {
        FolderAction::Enter(dir) if replies(action) => Places {
            current: Place { home: Some(dir), below: Seq::empty() },
            runtime: places.runtime,
        },
        FolderAction::ReadCurrentDir if replies(action) => Places {
            current: places.current,
            runtime: runtime_below(places.current),
        },
        FolderAction::EnterRuntimeDir if replies(action) => Places {
            current: places.runtime,
            runtime: places.runtime,
        },
        _ => places,
    }
}

/// The directories after the actions, in order.
pub open spec fn places_after(
    places: Places,
    actions: Seq<FolderAction>,
    replies: spec_fn(FolderAction) -> bool,
) -> Places
    decreases actions.len(),
{
    if actions.len() == 0 {
        places
    } else {
        moved(places_after(places, actions.drop_last(), replies), actions.last(), replies)
    }
}

/// The directory that the layout resolves to: the launcher's directory of the
/// monorepo where it is there, that of a deployment where `cfg` is, and the
/// directory of the start otherwise or where it could not be entered.
pub open spec fn resolved_place(
    layout: Layout,
    replies: spec_fn(FolderAction) -> bool,
) -> Place {
    match settled_layout(layout, replies) {
        Layout::Monorepo(i) if replies(FolderAction::Probe(single_ion_dir(i))) && replies(
            FolderAction::Enter(single_ion_dir(i)),
        ) => Place { home: Some(single_ion_dir(i)), below: Seq::empty() },
        Layout::Portable(i) if replies(FolderAction::Enter(exe_dir(i))) => Place {
            home: Some(exe_dir(i)),
            below: Seq::empty(),
        },
        _ => start_place(),
    }
}

/// Whether the runtime directory could be told, made and entered.
pub open spec fn reaches_runtime_dir(replies: spec_fn(FolderAction) -> bool) -> bool {
    &&& replies(FolderAction::ReadCurrentDir)
    &&& replies(FolderAction::CreateRuntimeDir)
    &&& replies(FolderAction::EnterRuntimeDir)
}

/// The process ends in the directory `ion` below the resolved directory, and
/// stays in the resolved directory where that cannot be told, made or entered.
/// The configuration files are unpacked there: that is the last action.
pub proof fn lemma_run_ends_in_runtime_dir(
    layout: Layout,
    replies: spec_fn(FolderAction) -> bool,
    ok: bool,
    steps: nat,
    runtime: Place,
)
    requires
        steps >= 8,
    ensures
        ({
            let run = folder_run(
                Folders { layout, phase: FolderPhase::Start },
                ok,
                replies,
                steps,
            );
            let start = Places { current: start_place(), runtime };
            let resolved = resolved_place(layout, replies);
            let end = if reaches_runtime_dir(replies) {
                runtime_below(resolved)
            } else {
                resolved
            };
            &&& run.len() > 0
            &&& run.last() == FolderAction::UnpackCfgFiles
            &&& places_after(start, run.drop_last(), replies).current == end
            &&& places_after(start, run, replies).current == end
        }),
{
    lemma_run_of_folders(layout, replies, ok, steps);
    let start = Places { current: start_place(), runtime };
    let home = home_actions(layout, replies);
    let way = runtime_actions(replies);
    let unpack = FolderAction::UnpackCfgFiles;
    let at_home = places_after(start, home, replies);
    assert(at_home.current == resolved_place(layout, replies)) by {
        reveal_with_fuel(places_after, 4);
        if home.len() > 1 {
            assert(home.drop_last().drop_last() =~= home.take(home.len() - 2));
            assert(home.drop_last().last() == home[home.len() - 2]);
        }
        if home.len() > 2 {
            assert(home.drop_last().drop_last().last() == home[0]);
        }
    }
    lemma_places_concat(start, home, way, replies);
    assert(places_after(at_home, way, replies).current == if reaches_runtime_dir(replies) {
        runtime_below(at_home.current)
    } else {
        at_home.current
    }) by {
        reveal_with_fuel(places_after, 4);
        if way.len() > 1 {
            assert(way.drop_last().last() == way[way.len() - 2]);
        }
        if way.len() > 2 {
            assert(way.drop_last().drop_last().last() == way[0]);
        }
    }
    assert(home + settle_actions(replies) =~= (home + way).push(unpack));
    assert((home + way).push(unpack).drop_last() =~= home + way);
}

/// An action moves the process only where it enters a directory and that worked;
/// the runtime directory is `ion` below the working directory that was read.
pub proof fn lemma_what_actions_move(
    places: Places,
    actions: Seq<FolderAction>,
    action: FolderAction,
    replies: spec_fn(FolderAction) -> bool,
    dir: Dir,
)
    ensures
        start_place() == (Place { home: None, below: Seq::empty() }),
        places_after(places, Seq::empty(), replies) == places,
        places_after(places, actions.push(action), replies) == moved(
            places_after(places, actions, replies),
            action,
            replies,
        ),
        action == FolderAction::Enter(dir) && replies(action) ==> moved(places, action, replies)
            == (Places {
            current: Place { home: Some(dir), below: Seq::empty() },
            runtime: places.runtime,
        }),
        action == FolderAction::ReadCurrentDir && replies(action) ==> moved(
            places,
            action,
            replies,
        ) == (Places {
            current: places.current,
            runtime: Place {
                home: places.current.home,
                below: places.current.below.push("ion"@),
            },
        }),
        action == FolderAction::EnterRuntimeDir && replies(action) ==> moved(
            places,
            action,
            replies,
        ) == (Places { current: places.runtime, runtime: places.runtime }),
        !replies(action) || !(action is Enter || action is ReadCurrentDir
            || action is EnterRuntimeDir) ==> moved(places, action, replies) == places,
{
    assert(actions.push(action).drop_last() =~= actions);
}

/// In a monorepo with the root `i` whose launcher's directory is there and can be
/// entered, the process ends in `ion` below it; it ends in the directory itself
/// where `ion` cannot be told, made or entered.
pub proof fn lemma_end_in_a_monorepo(
    i: usize,
    replies: spec_fn(FolderAction) -> bool,
    ok: bool,
    steps: nat,
    start: Places,
)
    requires
        steps >= 8,
        start.current == (Place { home: None, below: Seq::empty() }),
        replies(FolderAction::Probe(Dir { ancestor: i, child: Child::SingleIon })),
        replies(FolderAction::Enter(Dir { ancestor: i, child: Child::SingleIon })),
    ensures
        ({
            let m = Folders { layout: Layout::Monorepo(i), phase: FolderPhase::Start };
            let end = places_after(start, folder_run(m, ok, replies, steps), replies).current;
            &&& end.home == Some(Dir { ancestor: i, child: Child::SingleIon })
            &&& end.below == if replies(FolderAction::ReadCurrentDir) && replies(
                FolderAction::CreateRuntimeDir,
            ) && replies(FolderAction::EnterRuntimeDir) {
                seq!["ion"@]
            } else {
                Seq::empty()
            }
        }),
{
    lemma_run_ends_in_runtime_dir(Layout::Monorepo(i), replies, ok, steps, start.runtime);
    assert(Seq::<Seq<char>>::empty().push("ion"@) =~= seq!["ion"@]);
    assert(start == Places { current: start_place(), runtime: start.runtime });
}

/// A deployment with its `cfg` whose directory `i` can be entered is where the
/// process ends up, in `ion` below it or in the directory itself.
pub proof fn lemma_end_of_a_deployment(
    i: usize,
    replies: spec_fn(FolderAction) -> bool,
    ok: bool,
    steps: nat,
    start: Places,
)
    requires
        steps >= 8,
        start.current == (Place { home: None, below: Seq::empty() }),
        replies(FolderAction::Probe(Dir { ancestor: i, child: Child::Cfg })),
        replies(FolderAction::Enter(Dir { ancestor: i, child: Child::Itself })),
    ensures
        ({
            let m = Folders { layout: Layout::Portable(i), phase: FolderPhase::Start };
            let end = places_after(start, folder_run(m, ok, replies, steps), replies).current;
            &&& end.home == Some(Dir { ancestor: i, child: Child::Itself })
            &&& end.below == if replies(FolderAction::ReadCurrentDir) && replies(
                FolderAction::CreateRuntimeDir,
            ) && replies(FolderAction::EnterRuntimeDir) {
                seq!["ion"@]
            } else {
                Seq::empty()
            }
        }),
{
    lemma_run_ends_in_runtime_dir(Layout::Portable(i), replies, ok, steps, start.runtime);
    assert(Seq::<Seq<char>>::empty().push("ion"@) =~= seq!["ion"@]);
    assert(start == Places { current: start_place(), runtime: start.runtime });
}

/// The directories after two lists of actions, one after the other.
proof fn lemma_places_concat(
    places: Places,
    a: Seq<FolderAction>,
    b: Seq<FolderAction>,
    replies: spec_fn(FolderAction) -> bool,
)
    ensures
        places_after(places, a + b, replies) == places_after(
            places_after(places, a, replies),
            b,
            replies,
        ),
    decreases b.len(),
{
    if b.len() == 0 {
        assert(a + b =~= a);
    } else {
        assert((a + b).drop_last() =~= a + b.drop_last());
        lemma_places_concat(places, a, b.drop_last(), replies);
    }
}

/// The name of the runtime directory.
pub fn runtime_dir_name() -> (r: &'static str)
    ensures
        r@ == "ion"@,
{
    "ion"
}

/// Starts the choice of the working directory for an executable at `exe`.
pub fn init_folders(exe: &Option<ExePath>) -> (r: Folders)
    ensures
        r.phase == FolderPhase::Start,
        r.layout == layout_of(
            match *exe {
                Some(p) => Some(p@),
                None => None,
            },
        ),
{
    Folders { layout: find_layout(exe), phase: FolderPhase::Start }
}

impl Folders {
    /// What an action writes to the environment.
    pub fn writes(&self, action: FolderAction, env: &Env) -> (r: Vec<Setting>)
        ensures
            views(r@) == action_writes(action, self.layout, env@),
    {
        match action {
            FolderAction::WriteAssetSettings => self.layout.asset_defaults(env),
            _ => {
                let r: Vec<Setting> = Vec::new();
                assert(views(r@) =~= Seq::empty());
                r
            },
        }
    }

    /// Takes the reply to the last action and gives the next action. The first
    /// call's reply is ignored, and so are the replies to actions that have no
    /// answer.
    pub fn next(&mut self, ok: bool) -> (r: FolderAction)
        ensures
            (*final(self), r) == folder_step(*old(self), ok),
    {
        if self.phase == FolderPhase::CfgProbed {
            self.layout = self.layout.require_cfg(ok);
        }
        let (phase, action) = match self.phase {
            FolderPhase::Start => match self.layout {
                Layout::Portable(i) => (
                    FolderPhase::CfgProbed,
                    FolderAction::Probe(Dir { ancestor: i, child: Child::Cfg }),
                ),
                _ => (FolderPhase::AssetsWritten, FolderAction::WriteAssetSettings),
            },
            FolderPhase::CfgProbed => (
                FolderPhase::AssetsWritten,
                FolderAction::WriteAssetSettings,
            ),
            FolderPhase::AssetsWritten => match self.layout {
                Layout::Monorepo(i) => (
                    FolderPhase::HomeProbed,
                    FolderAction::Probe(Dir { ancestor: i, child: Child::SingleIon }),
                ),
                Layout::Portable(i) => (
                    FolderPhase::HomeEntered,
                    FolderAction::Enter(Dir { ancestor: i, child: Child::Itself }),
                ),
                Layout::Unknown => (FolderPhase::CurrentDirRead, FolderAction::ReadCurrentDir),
            },
            FolderPhase::HomeProbed => match self.layout {
                Layout::Monorepo(i) if ok => (
                    FolderPhase::HomeEntered,
                    FolderAction::Enter(Dir { ancestor: i, child: Child::SingleIon }),
                ),
                _ => (FolderPhase::CurrentDirRead, FolderAction::ReadCurrentDir),
            },
            FolderPhase::HomeEntered => (FolderPhase::CurrentDirRead, FolderAction::ReadCurrentDir),
            FolderPhase::CurrentDirRead if ok => (
                FolderPhase::RuntimeDirCreated,
                FolderAction::CreateRuntimeDir,
            ),
            FolderPhase::RuntimeDirCreated if ok => (
                FolderPhase::RuntimeDirEntered,
                FolderAction::EnterRuntimeDir,
            ),
            FolderPhase::CurrentDirRead | FolderPhase::RuntimeDirCreated
            | FolderPhase::RuntimeDirEntered => (
                FolderPhase::CfgFilesUnpacked,
                FolderAction::UnpackCfgFiles,
            ),
            FolderPhase::CfgFilesUnpacked | FolderPhase::Finished => (
                FolderPhase::Finished,
                FolderAction::Done,
            ),
        };
        self.phase = phase;
        action
    }
}

} // verus!
