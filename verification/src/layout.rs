//! Where the process was installed, read off the path of its executable, and
//! where its assets are to be found.
//!
//! Two layouts are known. In a development build the executable lies inside a
//! `target` directory, and the directory above the nearest `target` is the root
//! of the monorepo; the name of the executable itself does not count. Otherwise
//! the directory of the executable is a portable deployment, where it holds a
//! `cfg` directory.

use crate::env::{
    applied, dir_view, lemma_defaults_are_exact, lemma_defaults_keep_what_is_set,
    lemma_other_defaults, text_view, unset, views, Child, Dir, Env, EnvView, Setting, SettingView,
    ValueView,
};
use crate::text::same;
use vstd::prelude::*;

verus! {

/// The path of the executable, as the file names of the path itself and of its
/// ancestors: entry 0 belongs to the path, entry `i + 1` to the parent of entry
/// `i`. A path that ends in no file name (a root, or `..`) has none, so the
/// topmost entry of a path is none: it belongs to a root or to the empty path.
pub struct ExePath {
    pub names: Vec<Option<String>>,
}

impl View for ExePath {
    type V = Seq<Option<Seq<char>>>;

    open spec fn view(&self) -> Seq<Option<Seq<char>>> {
        self.names@.map_values(
            |n: Option<String>|
                match n {
                    Some(s) => Some(s@),
                    None => None,
                },
        )
    }
}

/// How the process was installed. The number counts the steps up from the
/// executable.
#[derive(Clone, Copy, PartialEq, Eq, Structural, Debug)]
pub enum Layout {
    /// A development build; the root of the monorepo.
    Monorepo(usize),
    /// A portable deployment, if `cfg` lies there; the directory of the
    /// executable.
    Portable(usize),
    /// Neither could be told.
    Unknown,
}

/// Whether a file name is that of a build directory.
pub open spec fn is_target(name: Option<Seq<char>>) -> bool {
    name == Some("target"@)
}

/// The first entry, from `from` on, that is a build directory.
pub open spec fn nearest_target(names: Seq<Option<Seq<char>>>, from: int) -> Option<int>
    decreases names.len() - from,
{
    if from < 0 || from >= names.len() {
        None
    } else if is_target(names[from]) {
        Some(from)
    } else {
        nearest_target(names, from + 1)
    }
}

/// The layout that the path of the executable alone tells. Only the directories
/// above the executable are looked at, which stand from entry 1 on. Whether a portable
/// deployment is one is for its `cfg` directory to say: see `with_cfg`.
pub open spec fn layout_of(exe: Option<Seq<Option<Seq<char>>>>) -> Layout {
    match exe {
        None => Layout::Unknown,
        Some(names) => match nearest_target(names, 1) {
            Some(i) if i + 1 < names.len() => Layout::Monorepo((i + 1) as usize),
            _ => if names.len() > 1 {
                Layout::Portable(1)
            } else {
                Layout::Unknown
            },
        },
    }
}

/// A portable deployment only counts as one where `cfg` is true; the other
/// layouts stand.
pub open spec fn with_cfg(layout: Layout, cfg: bool) -> Layout {
    match layout {
        Layout::Portable(_) if !cfg => Layout::Unknown,
        _ => layout,
    }
}

/// The root of the monorepo.
pub open spec fn monorepo_root(layout: Layout) -> Option<usize> {
    match layout {
        Layout::Monorepo(i) => Some(i),
        _ => None,
    }
}

/// The directory of the portable deployment.
pub open spec fn deployment_root(layout: Layout) -> Option<usize> {
    match layout {
        Layout::Portable(i) => Some(i),
        _ => None,
    }
}

/// The path of an asset: below the root of the layout, or `fallback` where
/// there is none.
pub open spec fn asset_setting(
    name: Seq<char>,
    layout: Layout,
    child: Child,
    fallback: Seq<char>,
) -> SettingView {
    match layout {
        Layout::Monorepo(i) => dir_view(name, Dir { ancestor: i, child }),
        Layout::Portable(i) => dir_view(name, Dir { ancestor: i, child }),
        Layout::Unknown => text_view(name, fallback),
    }
}

/// The variables that tell the services where their assets are.
pub open spec fn asset_settings(layout: Layout) -> Seq<SettingView> {
    seq![
        asset_setting(
            "REACTIVE_SCRIPTS_ROOT"@,
            layout,
            Child::ReactiveScripts,
            "../reactive/scripts"@,
        ),
        asset_setting("ION_SERVER__STATIC_DIR"@, layout, Child::IonStatic, "../ion/static"@),
        asset_setting("NEUTRINO_BUILD_CONTEXT_DIR"@, layout, Child::Itself, ".."@),
    ]
}

/// The nearest build directory is one, and none lies between it and the
/// executable; where there is none, no ancestor is a build directory.
pub proof fn lemma_nearest_target(names: Seq<Option<Seq<char>>>, from: int)
    requires
        0 <= from,
    ensures
        match nearest_target(names, from) {
            Some(i) => from <= i < names.len() && is_target(names[i]) && forall|j: int|
                from <= j < i ==> !is_target(#[trigger] names[j]),
            None => forall|j: int| from <= j < names.len() ==> !is_target(#[trigger] names[j]),
        },
    decreases names.len() - from,
{
    if from < names.len() && !is_target(names[from]) {
        lemma_nearest_target(names, from + 1);
    }
}

/// The root of the monorepo lies strictly above the executable and directly
/// above the build directory nearest to the executable.
pub proof fn lemma_monorepo_root_is_above_target(names: Seq<Option<Seq<char>>>)
    requires
        names.len() <= usize::MAX,
    ensures
        layout_of(Some(names)) matches Layout::Monorepo(i) ==> {
            &&& 2 <= i < names.len()
            &&& is_target(names[i - 1])
            &&& forall|j: int| 1 <= j < i - 1 ==> !is_target(#[trigger] names[j])
        },
{
    lemma_nearest_target(names, 1);
}

/// An executable is taken for a development build exactly where it lies in a
/// build directory, whatever its own name is; the topmost entry of a path has no name.
pub proof fn lemma_monorepo_iff_target(names: Seq<Option<Seq<char>>>)
    requires
        names.len() > 0,
        names.last() is None,
    ensures
        layout_of(Some(names)) is Monorepo <==> exists|j: int|
            1 <= j < names.len() && is_target(#[trigger] names[j]),
{
    lemma_nearest_target(names, 1);
    if let Some(i) = nearest_target(names, 1) {
        assert(names[names.len() - 1] is None);
        assert(is_target(names[i]));
    }
}

/// An executable that lies in no build directory is never taken for a
/// development build, and it is a portable deployment exactly where it has a
/// directory and a `cfg` directory lies there.
pub proof fn lemma_portable_needs_cfg(names: Seq<Option<Seq<char>>>, cfg: bool)
    requires
        forall|j: int| 1 <= j < names.len() ==> !is_target(#[trigger] names[j]),
    ensures
        with_cfg(layout_of(Some(names)), cfg) == if cfg && names.len() > 1 {
            Layout::Portable(1)
        } else {
            Layout::Unknown
        },
{
    lemma_nearest_target(names, 1);
    if let Some(i) = nearest_target(names, 1) {
        assert(!is_target(names[i]));
    }
}

/// The view of a path keeps every file name, and which entries have none.
pub proof fn lemma_path_view_keeps_every_name(exe: ExePath, i: int)
    ensures
        exe@.len() == exe.names@.len(),
        0 <= i < exe@.len() ==> {
            &&& exe.names@[i] matches Some(s) ==> exe@[i] == Some(s@)
            &&& exe.names@[i] is None ==> exe@[i] is None
        },
{
}

/// Where entry `k` is the first from 1 on that is named `target`, the root of
/// the monorepo is the entry directly above it.
pub proof fn lemma_root_is_above_first_target(names: Seq<Option<Seq<char>>>, k: int)
    requires
        1 <= k < names.len() - 1,
        names[k] == Some("target"@),
        forall|j: int| 1 <= j < k ==> #[trigger] names[j] != Some("target"@),
    ensures
        layout_of(Some(names)) == Layout::Monorepo((k + 1) as usize),
{
    lemma_nearest_target(names, 1);
    match nearest_target(names, 1) {
        Some(i) => {
            assert(names[i] == Some("target"@));
            if k < i {
                assert(!is_target(names[k]));
            }
        },
        None => {
            assert(!is_target(names[k]));
        },
    }
}

/// A path of which no entry from 1 on is named `target` is that of a portable
/// deployment in the directory of the executable, if it has one; and without a
/// path nothing is known.
pub proof fn lemma_path_without_target(names: Seq<Option<Seq<char>>>)
    requires
        forall|j: int| 1 <= j < names.len() - 1 ==> #[trigger] names[j] != Some("target"@),
    ensures
        names.len() > 1 ==> layout_of(Some(names)) == Layout::Portable(1),
        names.len() <= 1 ==> layout_of(Some(names)) == Layout::Unknown,
        layout_of(None) == Layout::Unknown,
{
    lemma_nearest_target(names, 1);
    if let Some(i) = nearest_target(names, 1) {
        assert(names[i] == Some("target"@));
    }
}

/// A path whose topmost entry has no name is that of a development build exactly
/// where an entry from 1 on is named `target`; otherwise it is that of a
/// portable deployment.
pub proof fn lemma_layout_by_the_name_target(names: Seq<Option<Seq<char>>>)
    requires
        names.len() > 1,
        names.last() is None,
    ensures
        layout_of(Some(names)) is Monorepo <==> exists|j: int|
            1 <= j < names.len() && #[trigger] names[j] == Some("target"@),
        !(layout_of(Some(names)) is Monorepo) ==> layout_of(Some(names)) == Layout::Portable(1),
{
    lemma_nearest_target(names, 1);
    if let Some(i) = nearest_target(names, 1) {
        assert(names[i] == Some("target"@));
        assert(names[names.len() - 1] is None);
    } else {
        assert forall|j: int| 1 <= j < names.len() implies #[trigger] names[j] != Some(
            "target"@,
        ) by {
            assert(!is_target(names[j]));
        }
    }
}

/// The `cfg` directory decides about a portable deployment and about nothing
/// else.
pub proof fn lemma_cfg_decides_about_deployments_only(i: usize, cfg: bool)
    ensures
        with_cfg(Layout::Portable(i), true) == Layout::Portable(i),
        with_cfg(Layout::Portable(i), false) == Layout::Unknown,
        with_cfg(Layout::Monorepo(i), cfg) == Layout::Monorepo(i),
        with_cfg(Layout::Unknown, cfg) == Layout::Unknown,
{
}

/// Each layout has its own root, at the number that it holds.
pub proof fn lemma_roots_of_layouts(i: usize)
    ensures
        monorepo_root(Layout::Monorepo(i)) == Some(i),
        deployment_root(Layout::Monorepo(i)) is None,
        monorepo_root(Layout::Portable(i)) is None,
        deployment_root(Layout::Portable(i)) == Some(i),
        monorepo_root(Layout::Unknown) is None,
        deployment_root(Layout::Unknown) is None,
{
}

/// After the defaults for the assets were written, each of the three variables
/// has what it had or, where it was not set, the path below the root `i` of the
/// layout; every other variable is as it was.
pub proof fn lemma_assets_lie_below_the_root(
    env: EnvView,
    layout: Layout,
    i: usize,
    name: Seq<char>,
)
    requires
        layout == Layout::Monorepo(i) || layout == Layout::Portable(i),
    ensures
        ({
            let after = applied(env, unset(env, asset_settings(layout)));
            &&& !env.contains_key("REACTIVE_SCRIPTS_ROOT"@) ==> after.contains_key(
                "REACTIVE_SCRIPTS_ROOT"@,
            ) && after["REACTIVE_SCRIPTS_ROOT"@] == ValueView::Dir(
                Dir { ancestor: i, child: Child::ReactiveScripts },
            )
            &&& !env.contains_key("ION_SERVER__STATIC_DIR"@) ==> after.contains_key(
                "ION_SERVER__STATIC_DIR"@,
            ) && after["ION_SERVER__STATIC_DIR"@] == ValueView::Dir(
                Dir { ancestor: i, child: Child::IonStatic },
            )
            &&& !env.contains_key("NEUTRINO_BUILD_CONTEXT_DIR"@) ==> after.contains_key(
                "NEUTRINO_BUILD_CONTEXT_DIR"@,
            ) && after["NEUTRINO_BUILD_CONTEXT_DIR"@] == ValueView::Dir(
                Dir { ancestor: i, child: Child::Itself },
            )
            &&& env.contains_key(name) ==> after.contains_key(name) && after[name] == env[name]
            &&& name != "REACTIVE_SCRIPTS_ROOT"@ && name != "ION_SERVER__STATIC_DIR"@ && name
                != "NEUTRINO_BUILD_CONTEXT_DIR"@ ==> after.contains_key(name)
                == env.contains_key(name)
        }),
{
    lemma_asset_defaults(env, layout, name);
}

/// Where the layout is not known, the assets are looked for from the working
/// directory.
pub proof fn lemma_assets_of_an_unknown_layout(env: EnvView, name: Seq<char>)
    ensures
        ({
            let after = applied(env, unset(env, asset_settings(Layout::Unknown)));
            &&& !env.contains_key("REACTIVE_SCRIPTS_ROOT"@) ==> after.contains_key(
                "REACTIVE_SCRIPTS_ROOT"@,
            ) && after["REACTIVE_SCRIPTS_ROOT"@] == ValueView::Text("../reactive/scripts"@)
            &&& !env.contains_key("ION_SERVER__STATIC_DIR"@) ==> after.contains_key(
                "ION_SERVER__STATIC_DIR"@,
            ) && after["ION_SERVER__STATIC_DIR"@] == ValueView::Text("../ion/static"@)
            &&& !env.contains_key("NEUTRINO_BUILD_CONTEXT_DIR"@) ==> after.contains_key(
                "NEUTRINO_BUILD_CONTEXT_DIR"@,
            ) && after["NEUTRINO_BUILD_CONTEXT_DIR"@] == ValueView::Text(".."@)
            &&& env.contains_key(name) ==> after.contains_key(name) && after[name] == env[name]
            &&& name != "REACTIVE_SCRIPTS_ROOT"@ && name != "ION_SERVER__STATIC_DIR"@ && name
                != "NEUTRINO_BUILD_CONTEXT_DIR"@ ==> after.contains_key(name)
                == env.contains_key(name)
        }),
{
    lemma_asset_defaults(env, Layout::Unknown, name);
}

/// What the defaults for the assets do to the environment.
proof fn lemma_asset_defaults(env: EnvView, layout: Layout, name: Seq<char>)
    ensures
        ({
            let wanted = asset_settings(layout);
            let after = applied(env, unset(env, wanted));
            &&& wanted.len() == 3
            &&& wanted[0].name == "REACTIVE_SCRIPTS_ROOT"@
            &&& wanted[1].name == "ION_SERVER__STATIC_DIR"@
            &&& wanted[2].name == "NEUTRINO_BUILD_CONTEXT_DIR"@
            &&& forall|k: int|
                0 <= k < 3 && !env.contains_key((#[trigger] wanted[k]).name)
                    ==> after.contains_key(wanted[k].name) && after[wanted[k].name]
                    == wanted[k].value
            &&& env.contains_key(name) ==> after.contains_key(name) && after[name] == env[name]
            &&& (forall|k: int| 0 <= k < 3 ==> (#[trigger] wanted[k]).name != name)
                ==> after.contains_key(name) == env.contains_key(name)
        }),
{
    let wanted = asset_settings(layout);
    reveal_strlit("REACTIVE_SCRIPTS_ROOT");
    reveal_strlit("ION_SERVER__STATIC_DIR");
    reveal_strlit("NEUTRINO_BUILD_CONTEXT_DIR");
    assert(wanted[0].name.len() == 21 && wanted[1].name.len() == 22 && wanted[2].name.len() == 26);
    assert forall|k: int| 0 <= k < 3 && !env.contains_key((#[trigger] wanted[k]).name) implies
        applied(env, unset(env, wanted)).contains_key(wanted[k].name) && applied(
        env,
        unset(env, wanted),
    )[wanted[k].name] == wanted[k].value by {
        lemma_defaults_are_exact(env, wanted, k);
    }
    if env.contains_key(name) {
        lemma_defaults_keep_what_is_set(env, wanted, name);
    }
    if forall|k: int| 0 <= k < 3 ==> (#[trigger] wanted[k]).name != name {
        lemma_other_defaults(env, wanted, name);
    }
}

/// At most one of the two roots is known.
pub proof fn lemma_roots_exclude_each_other(layout: Layout)
    ensures
        monorepo_root(layout) is None || deployment_root(layout) is None,
{
}

impl ExePath {
    /// The layout that the path of the executable tells.
    pub fn layout(&self) -> (r: Layout)
        ensures
            r == layout_of(Some(self@)),
    {
        let n: usize = self.names.len();
        let mut i: usize = 1;
        while i < n
            invariant
                n == self.names@.len(),
                1 <= i,
                nearest_target(self@, 1) == nearest_target(self@, i as int),
            decreases n - i,
        {
            let target = match &self.names[i] {
                Some(s) => same(s.as_str(), "target"),
                None => false,
            };
            assert(target == is_target(self@[i as int]));
            if target {
                return if i < n - 1 {
                    Layout::Monorepo(i + 1)
                } else {
                    Layout::Portable(1)
                };
            }
            i = i + 1;
        }
        if n > 1 {
            Layout::Portable(1)
        } else {
            Layout::Unknown
        }
    }
}

/// The layout that the path of the executable tells, where the path is known.
pub fn find_layout(exe: &Option<ExePath>) -> (r: Layout)
    ensures
        r == layout_of(
            match *exe {
                Some(p) => Some(p@),
                None => None,
            },
        ),
{
    match exe {
        Some(p) => p.layout(),
        None => Layout::Unknown,
    }
}

impl Layout {
    /// Gives up a portable deployment that lacks its `cfg` directory.
    pub fn require_cfg(self, cfg: bool) -> (r: Layout)
        ensures
            r == with_cfg(self, cfg),
    {
        match self {
            Layout::Portable(i) => if cfg {
                Layout::Portable(i)
            } else {
                Layout::Unknown
            },
            other => other,
        }
    }

    /// The root of the monorepo.
    pub fn monorepo_root(&self) -> (r: Option<usize>)
        ensures
            r == monorepo_root(*self),
    {
        match self {
            Layout::Monorepo(i) => Some(*i),
            _ => None,
        }
    }

    /// The directory of the portable deployment.
    pub fn deployment_root(&self) -> (r: Option<usize>)
        ensures
            r == deployment_root(*self),
    {
        match self {
            Layout::Portable(i) => Some(*i),
            _ => None,
        }
    }

    /// The setting for an asset.
    fn asset(&self, name: &str, child: Child, fallback: &str) -> (r: Setting)
        ensures
            r@ == asset_setting(name@, *self, child, fallback@),
    {
        match self {
            Layout::Monorepo(i) => Setting::dir(name, Dir { ancestor: *i, child }),
            Layout::Portable(i) => Setting::dir(name, Dir { ancestor: *i, child }),
            Layout::Unknown => Setting::text(name, fallback),
        }
    }

    /// What to write so that the services find their assets; variables that are
    /// set already are left alone.
    pub fn asset_defaults(&self, env: &Env) -> (r: Vec<Setting>)
        ensures
            views(r@) == unset(env@, asset_settings(*self)),
    {
        let wanted: Vec<Setting> = vec![
            self.asset("REACTIVE_SCRIPTS_ROOT", Child::ReactiveScripts, "../reactive/scripts"),
            self.asset("ION_SERVER__STATIC_DIR", Child::IonStatic, "../ion/static"),
            self.asset("NEUTRINO_BUILD_CONTEXT_DIR", Child::Itself, ".."),
        ];
        assert(views(wanted@) =~= asset_settings(*self));
        env.unset(&wanted)
    }
}

/// The static asset directories of a desktop shell, relative to its working
/// directory.
pub open spec fn static_dir_settings() -> Seq<SettingView> {
    seq![
        text_view("REACTIVE_SCRIPTS_ROOT"@, "../reactive/scripts"@),
        text_view("REACTIVE_STATIC_DIR"@, "../reactive/crates/db_server/static"@),
        text_view("GLUON_STATIC_DIR"@, "../gluon/static"@),
        text_view("NEUTRINO_STATIC_DIR"@, "../neutrino/static"@),
        text_view("NEUTRINO_BUILD_CONTEXT_DIR"@, ".."@),
        text_view("ION_SERVER__STATIC_DIR"@, "../ion/static"@),
    ]
}

/// A shell writes six variables, each with its own path.
pub proof fn lemma_static_dirs(env: EnvView, name: Seq<char>)
    ensures
        ({
            let after = applied(env, unset(env, static_dir_settings()));
            let old_or = |n: Seq<char>, v: Seq<char>|
                after.contains_key(n) && after[n] == if env.contains_key(n) {
                    env[n]
                } else {
                    ValueView::Text(v)
                };
            &&& old_or("REACTIVE_SCRIPTS_ROOT"@, "../reactive/scripts"@)
            &&& old_or("REACTIVE_STATIC_DIR"@, "../reactive/crates/db_server/static"@)
            &&& old_or("GLUON_STATIC_DIR"@, "../gluon/static"@)
            &&& old_or("NEUTRINO_STATIC_DIR"@, "../neutrino/static"@)
            &&& old_or("NEUTRINO_BUILD_CONTEXT_DIR"@, ".."@)
            &&& old_or("ION_SERVER__STATIC_DIR"@, "../ion/static"@)
            &&& env.contains_key(name) ==> after.contains_key(name) && after[name] == env[name]
            &&& name != "REACTIVE_SCRIPTS_ROOT"@ && name != "REACTIVE_STATIC_DIR"@ && name
                != "GLUON_STATIC_DIR"@ && name != "NEUTRINO_STATIC_DIR"@ && name
                != "NEUTRINO_BUILD_CONTEXT_DIR"@ && name != "ION_SERVER__STATIC_DIR"@
                ==> after.contains_key(name) == env.contains_key(name)
        }),
{
    let wanted = static_dir_settings();
    reveal_strlit("REACTIVE_SCRIPTS_ROOT");
    reveal_strlit("REACTIVE_STATIC_DIR");
    reveal_strlit("GLUON_STATIC_DIR");
    reveal_strlit("NEUTRINO_STATIC_DIR");
    reveal_strlit("NEUTRINO_BUILD_CONTEXT_DIR");
    reveal_strlit("ION_SERVER__STATIC_DIR");
    assert(wanted[0].name.len() == 21 && wanted[1].name.len() == 19 && wanted[2].name.len() == 16);
    assert(wanted[3].name.len() == 19 && wanted[4].name.len() == 26 && wanted[5].name.len() == 22);
    assert(wanted[1].name[0] == 'R' && wanted[3].name[0] == 'N');
    let after = applied(env, unset(env, wanted));
    assert forall|k: int| 0 <= k < 6 implies after.contains_key((#[trigger] wanted[k]).name)
        && after[wanted[k].name] == if env.contains_key(wanted[k].name) {
        env[wanted[k].name]
    } else {
        wanted[k].value
    } by {
        if env.contains_key(wanted[k].name) {
            lemma_defaults_keep_what_is_set(env, wanted, wanted[k].name);
        } else {
            lemma_defaults_are_exact(env, wanted, k);
        }
    }
    assert(wanted[0].name == "REACTIVE_SCRIPTS_ROOT"@);
    assert(wanted[1].name == "REACTIVE_STATIC_DIR"@);
    assert(wanted[2].name == "GLUON_STATIC_DIR"@);
    assert(wanted[3].name == "NEUTRINO_STATIC_DIR"@);
    assert(wanted[4].name == "NEUTRINO_BUILD_CONTEXT_DIR"@);
    assert(wanted[5].name == "ION_SERVER__STATIC_DIR"@);
    if env.contains_key(name) {
        lemma_defaults_keep_what_is_set(env, wanted, name);
    }
    if forall|k: int| 0 <= k < 6 ==> (#[trigger] wanted[k]).name != name {
        lemma_other_defaults(env, wanted, name);
    }
}

/// What a desktop shell writes so that the services find their assets;
/// variables that are set already are left alone.
pub fn set_static_dirs(env: &Env) -> (r: Vec<Setting>)
    ensures
        views(r@) == unset(env@, static_dir_settings()),
{
    let wanted: Vec<Setting> = vec![
        Setting::text("REACTIVE_SCRIPTS_ROOT", "../reactive/scripts"),
        Setting::text("REACTIVE_STATIC_DIR", "../reactive/crates/db_server/static"),
        Setting::text("GLUON_STATIC_DIR", "../gluon/static"),
        Setting::text("NEUTRINO_STATIC_DIR", "../neutrino/static"),
        Setting::text("NEUTRINO_BUILD_CONTEXT_DIR", ".."),
        Setting::text("ION_SERVER__STATIC_DIR", "../ion/static"),
    ];
    assert(views(wanted@) =~= static_dir_settings());
    env.unset(&wanted)
}

} // verus!
