//! Environment variables: what is set, what a launcher writes, and the rule
//! that a default never replaces a value that is already there.

use crate::text::{same, texts};
use vstd::prelude::*;

verus! {

/// A fixed path below a directory.
#[derive(Clone, Copy, PartialEq, Eq, Structural, Debug)]
pub enum Child {
    /// The directory itself.
    Itself,
    /// The launcher's own directory in the monorepo.
    SingleIon,
    /// The configuration files.
    Cfg,
    /// The scripts of the reactive service.
    ReactiveScripts,
    /// The static assets of the ion service.
    IonStatic,
}

/// The path of `child` relative to its directory; nothing for the directory
/// itself.
pub open spec fn child_path(child: Child) -> Option<Seq<char>> {
    match child {
        Child::Itself => None,
        Child::SingleIon => Some("single-ion"@),
        Child::Cfg => Some("cfg"@),
        Child::ReactiveScripts => Some("reactive/scripts"@),
        Child::IonStatic => Some("ion/static"@),
    }
}

impl Child {
    /// The path relative to the directory; nothing for the directory itself.
    pub fn path(&self) -> (r: Option<&'static str>)
        ensures
            match r {
                Some(p) => child_path(*self) == Some(p@),
                None => child_path(*self) is None,
            },
    {
        match self {
            Child::Itself => None,
            Child::SingleIon => Some("single-ion"),
            Child::Cfg => Some("cfg"),
            Child::ReactiveScripts => Some("reactive/scripts"),
            Child::IonStatic => Some("ion/static"),
        }
    }
}

/// A directory named from the path of the executable: `ancestor` steps up from
/// the executable, then down to `child`.
#[derive(Clone, Copy, PartialEq, Eq, Structural, Debug)]
pub struct Dir {
    pub ancestor: usize,
    pub child: Child,
}

/// The value of a variable.
#[derive(Debug)]
pub enum Value {
    /// A text.
    Text(String),
    /// The path of a directory that is named from the executable's path.
    Dir(Dir),
    /// The path of the directory that the embedded scripts were unpacked to.
    UnpackedScripts,
}

/// The value of a variable, as the contracts see it.
pub enum ValueView {
    Text(Seq<char>),
    Dir(Dir),
    UnpackedScripts,
}

impl View for Value {
    type V = ValueView;

    open spec fn view(&self) -> ValueView {
        match *self {
            Value::Text(s) => ValueView::Text(s@),
            Value::Dir(d) => ValueView::Dir(d),
            Value::UnpackedScripts => ValueView::UnpackedScripts,
        }
    }
}

/// A variable with its value.
#[derive(Debug)]
pub struct Setting {
    pub name: String,
    pub value: Value,
}

/// A variable with its value, as the contracts see it.
pub struct SettingView {
    pub name: Seq<char>,
    pub value: ValueView,
}

impl View for Setting {
    type V = SettingView;

    open spec fn view(&self) -> SettingView {
        SettingView { name: self.name@, value: self.value@ }
    }
}

/// An environment: each variable that is set, with its value.
pub type EnvView = Map<Seq<char>, ValueView>;

/// The views of a list of settings.
pub open spec fn views(settings: Seq<Setting>) -> Seq<SettingView> {
    settings.map_values(|s: Setting| s@)
}

/// A variable with a text.
pub open spec fn text_view(name: Seq<char>, value: Seq<char>) -> SettingView {
    SettingView { name, value: ValueView::Text(value) }
}

/// A variable with the path of a directory.
pub open spec fn dir_view(name: Seq<char>, value: Dir) -> SettingView {
    SettingView { name, value: ValueView::Dir(value) }
}

/// The environment after the writes, in order.
pub open spec fn applied(env: EnvView, writes: Seq<SettingView>) -> EnvView
    decreases writes.len(),
{
    if writes.len() == 0 {
        env
    } else {
        applied(env, writes.drop_last()).insert(writes.last().name, writes.last().value)
    }
}

/// Those of the wanted settings whose variable is not set yet, in order.
pub open spec fn unset(env: EnvView, wanted: Seq<SettingView>) -> Seq<SettingView>
    decreases wanted.len(),
{
    if wanted.len() == 0 {
        Seq::empty()
    } else {
        let head = unset(env, wanted.drop_last());
        if env.contains_key(wanted.last().name) {
            head
        } else {
            head.push(wanted.last())
        }
    }
}

/// Those of the settings whose variable is none of `names`, in order.
pub open spec fn without(settings: Seq<SettingView>, names: Seq<Seq<char>>) -> Seq<SettingView>
    decreases settings.len(),
{
    if settings.len() == 0 {
        Seq::empty()
    } else {
        let head = without(settings.drop_last(), names);
        if names.contains(settings.last().name) {
            head
        } else {
            head.push(settings.last())
        }
    }
}

/// The text of a variable, or `default` where it is not set to a text.
pub open spec fn text_or(env: EnvView, name: Seq<char>, default: Seq<char>) -> Seq<char> {
    if env.contains_key(name) && env[name] is Text {
        env[name]->Text_0
    } else {
        default
    }
}

/// Whether a variable is set to this text.
pub open spec fn has_text(env: EnvView, name: Seq<char>, value: Seq<char>) -> bool {
    env.contains_key(name) && env[name] == ValueView::Text(value)
}

/// The paths below a directory, by name: no two of them are the same, and only
/// the directory itself has none.
pub proof fn lemma_child_paths(a: Child, b: Child)
    ensures
        child_path(a) == child_path(b) <==> a == b,
        child_path(a) is None <==> a == Child::Itself,
        child_path(a) == Some("single-ion"@) <==> a == Child::SingleIon,
        child_path(a) == Some("cfg"@) <==> a == Child::Cfg,
        child_path(a) == Some("reactive/scripts"@) <==> a == Child::ReactiveScripts,
        child_path(a) == Some("ion/static"@) <==> a == Child::IonStatic,
{
    reveal_strlit("single-ion");
    reveal_strlit("cfg");
    reveal_strlit("reactive/scripts");
    reveal_strlit("ion/static");
    assert("single-ion"@.len() == 10 && "cfg"@.len() == 3 && "reactive/scripts"@.len() == 16);
    assert("ion/static"@[0] == 'i' && "single-ion"@[0] == 's');
}

/// The views keep everything: the text of a name and of a value, the directory,
/// and the order of a list.
pub proof fn lemma_views_keep_everything(settings: Seq<Setting>, i: int)
    ensures
        views(settings).len() == settings.len(),
        0 <= i < settings.len() ==> {
            &&& views(settings)[i].name == settings[i].name@
            &&& settings[i].value matches Value::Text(s) ==> views(settings)[i].value
                == ValueView::Text(s@)
            &&& settings[i].value matches Value::Dir(d) ==> views(settings)[i].value
                == ValueView::Dir(d)
            &&& settings[i].value is UnpackedScripts ==> views(settings)[i].value
                == ValueView::UnpackedScripts
        },
{
}

/// A setting with a text, or with a directory, holds the name and what was given.
pub proof fn lemma_setting_views(name: Seq<char>, text: Seq<char>, dir: Dir)
    ensures
        text_view(name, text) == (SettingView { name, value: ValueView::Text(text) }),
        dir_view(name, dir) == (SettingView { name, value: ValueView::Dir(dir) }),
{
}

/// The text of a variable is what it is set to, and the default counts exactly
/// where it is not set to a text.
pub proof fn lemma_text_of_a_variable(
    env: EnvView,
    name: Seq<char>,
    text: Seq<char>,
    default: Seq<char>,
)
    ensures
        has_text(env, name, text) <==> env.contains_key(name) && env[name] == ValueView::Text(text),
        env.contains_key(name) && env[name] == ValueView::Text(text) ==> text_or(env, name, default)
            == text,
        !env.contains_key(name) || !(env[name] is Text) ==> text_or(env, name, default) == default,
{
}

/// The last write to a variable counts.
pub proof fn lemma_last_write_wins(env: EnvView, writes: Seq<SettingView>, i: int)
    requires
        0 <= i < writes.len(),
        forall|j: int| i < j < writes.len() ==> (#[trigger] writes[j]).name != writes[i].name,
    ensures
        applied(env, writes).contains_key(writes[i].name),
        applied(env, writes)[writes[i].name] == writes[i].value,
    decreases writes.len(),
{
    if i < writes.len() - 1 {
        let head = writes.drop_last();
        assert(head[i] == writes[i]);
        assert forall|j: int| i < j < head.len() implies (#[trigger] head[j]).name
            != head[i].name by {
            assert(head[j] == writes[j]);
        }
        lemma_last_write_wins(env, head, i);
        assert(writes[writes.len() - 1].name != writes[i].name);
    }
}

/// What is left to write of one setting is that setting, unless its variable is
/// set; of two lists it is what is left of each, in order.
pub proof fn lemma_unset_concat(
    env: EnvView,
    a: Seq<SettingView>,
    b: Seq<SettingView>,
    w: SettingView,
)
    ensures
        unset(env, a + b) == unset(env, a) + unset(env, b),
        env.contains_key(w.name) ==> unset(env, seq![w]) == Seq::<SettingView>::empty(),
        !env.contains_key(w.name) ==> unset(env, seq![w]) == seq![w],
    decreases b.len(),
{
    reveal_with_fuel(unset, 2);
    assert(seq![w].drop_last() =~= Seq::empty());
    assert(Seq::<SettingView>::empty().push(w) =~= seq![w]);
    if b.len() == 0 {
        assert(a + b =~= a);
        assert(unset(env, a) + unset(env, b) =~= unset(env, a));
    } else {
        assert((a + b).drop_last() =~= a + b.drop_last());
        lemma_unset_concat(env, a, b.drop_last(), w);
        assert(unset(env, a + b) =~= unset(env, a) + unset(env, b));
    }
}

/// Without some names, one setting is left unless it has one of them; of two
/// lists what is left is what is left of each, in order.
pub proof fn lemma_without_concat(
    a: Seq<SettingView>,
    b: Seq<SettingView>,
    names: Seq<Seq<char>>,
    w: SettingView,
)
    ensures
        without(a + b, names) == without(a, names) + without(b, names),
        names.contains(w.name) ==> without(seq![w], names) == Seq::<SettingView>::empty(),
        !names.contains(w.name) ==> without(seq![w], names) == seq![w],
    decreases b.len(),
{
    reveal_with_fuel(without, 2);
    assert(seq![w].drop_last() =~= Seq::empty());
    assert(Seq::<SettingView>::empty().push(w) =~= seq![w]);
    if b.len() == 0 {
        assert(a + b =~= a);
        assert(without(a, names) + without(b, names) =~= without(a, names));
    } else {
        assert((a + b).drop_last() =~= a + b.drop_last());
        lemma_without_concat(a, b.drop_last(), names, w);
        assert(without(a + b, names) =~= without(a, names) + without(b, names));
    }
}

/// Writing two lists one after the other is writing their concatenation.
pub proof fn lemma_applied_concat(env: EnvView, a: Seq<SettingView>, b: Seq<SettingView>)
    ensures
        applied(env, a + b) == applied(applied(env, a), b),
    decreases b.len(),
{
    if b.len() == 0 {
        assert(a + b =~= a);
    } else {
        lemma_applied_concat(env, a, b.drop_last());
        assert((a + b).drop_last() =~= a + b.drop_last());
    }
}

/// A default never replaces a value that is already set.
pub proof fn lemma_defaults_keep_what_is_set(
    env: EnvView,
    wanted: Seq<SettingView>,
    name: Seq<char>,
)
    requires
        env.contains_key(name),
    ensures
        applied(env, unset(env, wanted)).contains_key(name),
        applied(env, unset(env, wanted))[name] == env[name],
    decreases wanted.len(),
{
    if wanted.len() > 0 {
        lemma_defaults_keep_what_is_set(env, wanted.drop_last(), name);
        let head = unset(env, wanted.drop_last());
        if !env.contains_key(wanted.last().name) {
            assert(unset(env, wanted).drop_last() =~= head);
        }
    }
}

/// After its defaults were written, every wanted variable is set.
pub proof fn lemma_defaults_set_everything(env: EnvView, wanted: Seq<SettingView>, i: int)
    requires
        0 <= i < wanted.len(),
    ensures
        applied(env, unset(env, wanted)).contains_key(wanted[i].name),
    decreases wanted.len(),
{
    let head = unset(env, wanted.drop_last());
    if i < wanted.len() - 1 {
        lemma_defaults_set_everything(env, wanted.drop_last(), i);
        if !env.contains_key(wanted.last().name) {
            assert(unset(env, wanted).drop_last() =~= head);
        }
    } else if env.contains_key(wanted.last().name) {
        lemma_defaults_keep_what_is_set(env, wanted, wanted.last().name);
    } else {
        assert(unset(env, wanted).drop_last() =~= head);
    }
}

/// A wanted variable that was not set has exactly its default afterwards, where
/// no other of the wanted settings names it.
pub proof fn lemma_defaults_are_exact(env: EnvView, wanted: Seq<SettingView>, i: int)
    requires
        0 <= i < wanted.len(),
        !env.contains_key(wanted[i].name),
        forall|j: int|
            0 <= j < wanted.len() && j != i ==> (#[trigger] wanted[j]).name != wanted[i].name,
    ensures
        applied(env, unset(env, wanted)).contains_key(wanted[i].name),
        applied(env, unset(env, wanted))[wanted[i].name] == wanted[i].value,
    decreases wanted.len(),
{
    let init = wanted.drop_last();
    let head = unset(env, init);
    if !env.contains_key(wanted.last().name) {
        assert(unset(env, wanted).drop_last() =~= head);
    }
    if i < wanted.len() - 1 {
        assert(init[i] == wanted[i]);
        assert forall|j: int| 0 <= j < init.len() && j != i implies (#[trigger] init[j]).name
            != init[i].name by {
            assert(init[j] == wanted[j]);
        }
        lemma_defaults_are_exact(env, init, i);
        assert(wanted[wanted.len() - 1].name != wanted[i].name);
    }
}

/// What is left without some names are settings of the list, and none of them
/// names one.
pub proof fn lemma_without_leaves_no_name(
    settings: Seq<SettingView>,
    names: Seq<Seq<char>>,
    i: int,
)
    requires
        0 <= i < without(settings, names).len(),
    ensures
        settings.contains(without(settings, names)[i]),
        !names.contains(without(settings, names)[i].name),
    decreases settings.len(),
{
    let init = settings.drop_last();
    let head = without(init, names);
    if i < head.len() {
        lemma_without_leaves_no_name(init, names, i);
        let k = choose|k: int| 0 <= k < init.len() && init[k] == head[i];
        assert(settings[k] == head[i]);
    } else {
        assert(settings[settings.len() - 1] == without(settings, names)[i]);
    }
}

/// A setting whose variable is none of the names is left.
pub proof fn lemma_without_keeps_the_rest(
    settings: Seq<SettingView>,
    names: Seq<Seq<char>>,
    k: int,
)
    requires
        0 <= k < settings.len(),
        !names.contains(settings[k].name),
    ensures
        without(settings, names).contains(settings[k]),
    decreases settings.len(),
{
    let init = settings.drop_last();
    let head = without(init, names);
    let all = without(settings, names);
    if k < settings.len() - 1 {
        assert(init[k] == settings[k]);
        lemma_without_keeps_the_rest(init, names, k);
        let i = choose|i: int| 0 <= i < head.len() && head[i] == settings[k];
        assert(all[i] == settings[k]);
    } else {
        assert(all[all.len() - 1] == settings[k]);
    }
}

/// Where every wanted variable is set, there is nothing to write.
proof fn lemma_unset_is_empty(env: EnvView, wanted: Seq<SettingView>)
    requires
        forall|i: int| 0 <= i < wanted.len() ==> env.contains_key(#[trigger] wanted[i].name),
    ensures
        unset(env, wanted).len() == 0,
    decreases wanted.len(),
{
    if wanted.len() > 0 {
        assert forall|i: int| 0 <= i < wanted.drop_last().len() implies env.contains_key(
            #[trigger] wanted.drop_last()[i].name,
        ) by {
            assert(wanted.drop_last()[i] == wanted[i]);
        }
        lemma_unset_is_empty(env, wanted.drop_last());
        assert(env.contains_key(wanted[wanted.len() - 1].name));
    }
}

/// Writing the same defaults a second time changes nothing: there is nothing
/// left to write.
pub proof fn lemma_defaults_are_idempotent(env: EnvView, wanted: Seq<SettingView>)
    ensures
        unset(applied(env, unset(env, wanted)), wanted).len() == 0,
{
    let after = applied(env, unset(env, wanted));
    assert forall|i: int| 0 <= i < wanted.len() implies after.contains_key(
        #[trigger] wanted[i].name,
    ) by {
        lemma_defaults_set_everything(env, wanted, i);
    }
    lemma_unset_is_empty(after, wanted);
}

/// A variable that none of the writes names keeps its state.
pub proof fn lemma_other_variables_untouched(
    env: EnvView,
    writes: Seq<SettingView>,
    name: Seq<char>,
)
    requires
        forall|i: int| 0 <= i < writes.len() ==> (#[trigger] writes[i]).name != name,
    ensures
        applied(env, writes).contains_key(name) == env.contains_key(name),
        env.contains_key(name) ==> applied(env, writes)[name] == env[name],
    decreases writes.len(),
{
    if writes.len() > 0 {
        assert forall|i: int| 0 <= i < writes.drop_last().len() implies (
        #[trigger] writes.drop_last()[i]).name != name by {
            assert(writes.drop_last()[i] == writes[i]);
        }
        lemma_other_variables_untouched(env, writes.drop_last(), name);
        assert(writes[writes.len() - 1].name != name);
    }
}

/// What is unset is among what is wanted.
proof fn lemma_unset_is_wanted(env: EnvView, wanted: Seq<SettingView>, i: int)
    requires
        0 <= i < unset(env, wanted).len(),
    ensures
        wanted.contains(unset(env, wanted)[i]),
    decreases wanted.len(),
{
    let init = wanted.drop_last();
    let head = unset(env, init);
    if i < head.len() {
        lemma_unset_is_wanted(env, init, i);
        let k = choose|k: int| 0 <= k < init.len() && init[k] == head[i];
        assert(wanted[k] == head[i]);
    } else {
        assert(wanted[wanted.len() - 1] == unset(env, wanted)[i]);
    }
}

/// Defaults for other variables leave a variable as it is.
pub proof fn lemma_other_defaults(env: EnvView, wanted: Seq<SettingView>, name: Seq<char>)
    requires
        forall|i: int| 0 <= i < wanted.len() ==> (#[trigger] wanted[i]).name != name,
    ensures
        applied(env, unset(env, wanted)).contains_key(name) == env.contains_key(name),
        env.contains_key(name) ==> applied(env, unset(env, wanted))[name] == env[name],
{
    let writes = unset(env, wanted);
    assert forall|i: int| 0 <= i < writes.len() implies (#[trigger] writes[i]).name != name by {
        lemma_unset_is_wanted(env, wanted, i);
        let k = choose|k: int| 0 <= k < wanted.len() && wanted[k] == writes[i];
        assert(wanted[k].name != name);
    }
    lemma_other_variables_untouched(env, writes, name);
}

/// A variable that a list names once is named once without some names.
pub proof fn lemma_without_once(
    settings: Seq<SettingView>,
    names: Seq<Seq<char>>,
    i: int,
    k: int,
)
    requires
        0 <= i < settings.len(),
        forall|j: int|
            0 <= j < settings.len() && j != i ==> (#[trigger] settings[j]).name
                != settings[i].name,
        0 <= k < without(settings, names).len(),
        without(settings, names)[k] == settings[i],
    ensures
        forall|j: int|
            0 <= j < without(settings, names).len() && j != k ==> (#[trigger] without(
                settings,
                names,
            )[j]).name != settings[i].name,
    decreases settings.len(),
{
    let init = settings.drop_last();
    let head = without(init, names);
    let all = without(settings, names);
    let last = settings.len() - 1;
    if i < last {
        assert(init[i] == settings[i]);
        assert(settings[last].name != settings[i].name);
        assert(k < head.len());
        assert forall|j: int| 0 <= j < init.len() && j != i implies (#[trigger] init[j]).name
            != init[i].name by {
            assert(init[j] == settings[j]);
        }
        lemma_without_once(init, names, i, k);
        assert forall|j: int| 0 <= j < all.len() && j != k implies (#[trigger] all[j]).name
            != settings[i].name by {
            if j < head.len() {
                assert(all[j] == head[j]);
            }
        }
    } else {
        assert forall|j: int| 0 <= j < head.len() implies (#[trigger] head[j]).name
            != settings[i].name by {
            lemma_without_leaves_no_name(init, names, j);
            let q = choose|q: int| 0 <= q < init.len() && init[q] == head[j];
            assert(settings[q].name != settings[i].name);
        }
        assert forall|j: int| 0 <= j < all.len() && j != k implies (#[trigger] all[j]).name
            != settings[i].name by {
            if k < head.len() {
                assert(head[k].name != settings[i].name);
            }
            assert(j < head.len());
            assert(all[j] == head[j]);
        }
    }
}

impl Value {
    /// The same value once more.
    pub fn copy(&self) -> (r: Value)
        ensures
            r@ == self@,
    {
        match self {
            Value::Text(s) => Value::Text(s.clone()),
            Value::Dir(d) => Value::Dir(*d),
            Value::UnpackedScripts => Value::UnpackedScripts,
        }
    }
}

impl Setting {
    /// A variable with a text.
    pub fn text(name: &str, value: &str) -> (r: Setting)
        ensures
            r@ == text_view(name@, value@),
    {
        Setting { name: name.to_owned(), value: Value::Text(value.to_owned()) }
    }

    /// A variable with the path of a directory.
    pub fn dir(name: &str, value: Dir) -> (r: Setting)
        ensures
            r@ == dir_view(name@, value),
    {
        Setting { name: name.to_owned(), value: Value::Dir(value) }
    }

    /// The same setting once more.
    pub fn copy(&self) -> (r: Setting)
        ensures
            r@ == self@,
    {
        Setting { name: self.name.clone(), value: self.value.copy() }
    }
}

/// Whether `name` is one of the names.
fn is_among(name: &str, names: &Vec<String>) -> (r: bool)
    ensures
        r == texts(names@).contains(name@),
{
    let ghost all = texts(names@);
    let mut i: usize = 0;
    while i < names.len()
        invariant
            i <= names@.len(),
            all == texts(names@),
            forall|j: int| 0 <= j < i ==> #[trigger] all[j] != name@,
        decreases names@.len() - i,
    {
        assert(all[i as int] == names@[i as int]@);
        if same(names[i].as_str(), name) {
            return true;
        }
        i = i + 1;
    }
    false
}

/// Those of the settings whose variable is none of `names`, in order.
pub fn leave_out(settings: &Vec<Setting>, names: &Vec<String>) -> (r: Vec<Setting>)
    ensures
        views(r@) == without(views(settings@), texts(names@)),
{
    let ghost all = views(settings@);
    let mut r: Vec<Setting> = Vec::new();
    let mut i: usize = 0;
    assert(views(r@) =~= Seq::empty());
    while i < settings.len()
        invariant
            i <= settings@.len(),
            all == views(settings@),
            views(r@) == without(all.take(i as int), texts(names@)),
        decreases settings@.len() - i,
    {
        assert(all.take(i + 1).drop_last() =~= all.take(i as int));
        assert(all.take(i + 1).last() == settings@[i as int]@);
        if !is_among(settings[i].name.as_str(), names) {
            let ghost before = views(r@);
            r.push(settings[i].copy());
            assert(views(r@) =~= before.push(settings@[i as int]@));
        }
        i = i + 1;
    }
    assert(all.take(i as int) =~= all);
    r
}

/// A snapshot of the environment, as the list of writes that made it.
pub struct Env {
    writes: Vec<Setting>,
}

impl View for Env {
    type V = EnvView;

    closed spec fn view(&self) -> EnvView {
        applied(Map::empty(), views(self.writes@))
    }
}

impl Env {
    /// An environment in which nothing is set.
    pub fn new() -> (r: Env)
        ensures
            r@ == Map::<Seq<char>, ValueView>::empty(),
    {
        let r = Env { writes: Vec::new() };
        assert(views(r.writes@) =~= Seq::empty());
        r
    }

    /// Sets a variable, whether or not it was set before.
    pub fn set(&mut self, setting: Setting)
        ensures
            final(self)@ == old(self)@.insert(setting@.name, setting@.value),
    {
        let ghost before = views(self.writes@);
        self.writes.push(setting);
        assert(views(self.writes@).drop_last() =~= before);
    }

    /// The value of a variable, where it is set.
    pub fn get(&self, name: &str) -> (r: Option<Value>)
        ensures
            match r {
                Some(v) => self@.contains_key(name@) && v@ == self@[name@],
                None => !self@.contains_key(name@),
            },
    {
        let ghost all = views(self.writes@);
        let mut i: usize = self.writes.len();
        assert(all.take(i as int) =~= all);
        while i > 0
            invariant
                i <= self.writes@.len(),
                all == views(self.writes@),
                self@ == applied(Map::empty(), all),
                self@.contains_key(name@) == applied(Map::empty(), all.take(i as int)).contains_key(
                    name@,
                ),
                self@.contains_key(name@) ==> self@[name@] == applied(
                    Map::empty(),
                    all.take(i as int),
                )[name@],
            decreases i,
        {
            i = i - 1;
            assert(all.take(i + 1).drop_last() =~= all.take(i as int));
            assert(all.take(i + 1).last() == self.writes@[i as int]@);
            if same(self.writes[i].name.as_str(), name) {
                return Some(self.writes[i].value.copy());
            }
        }
        None
    }

    /// Whether a variable is set.
    pub fn is_set(&self, name: &str) -> (r: bool)
        ensures
            r == self@.contains_key(name@),
    {
        self.get(name).is_some()
    }

    /// The text of a variable, or `default` where it is not set to a text.
    pub fn text_or(&self, name: &str, default: &str) -> (r: String)
        ensures
            r@ == text_or(self@, name@, default@),
    {
        match self.get(name) {
            Some(Value::Text(s)) => s,
            _ => default.to_owned(),
        }
    }

    /// Writes the settings, in order.
    pub fn apply(&mut self, writes: &Vec<Setting>)
        ensures
            final(self)@ == applied(old(self)@, views(writes@)),
    {
        let ghost start = self@;
        let ghost all = views(writes@);
        assert(all.take(0) =~= Seq::empty());
        let mut i: usize = 0;
        while i < writes.len()
            invariant
                i <= writes@.len(),
                all == views(writes@),
                self@ == applied(start, all.take(i as int)),
            decreases writes@.len() - i,
        {
            assert(all.take(i + 1).drop_last() =~= all.take(i as int));
            assert(all.take(i + 1).last() == writes@[i as int]@);
            self.set(writes[i].copy());
            i = i + 1;
        }
        assert(all.take(i as int) =~= all);
    }

    /// Those of the wanted settings whose variable is not set yet, in order.
    pub fn unset(&self, wanted: &Vec<Setting>) -> (r: Vec<Setting>)
        ensures
            views(r@) == unset(self@, views(wanted@)),
    {
        let ghost all = views(wanted@);
        let mut r: Vec<Setting> = Vec::new();
        let mut i: usize = 0;
        assert(views(r@) =~= Seq::empty());
        while i < wanted.len()
            invariant
                i <= wanted@.len(),
                all == views(wanted@),
                views(r@) == unset(self@, all.take(i as int)),
            decreases wanted@.len() - i,
        {
            assert(all.take(i + 1).drop_last() =~= all.take(i as int));
            assert(all.take(i + 1).last() == wanted@[i as int]@);
            if !self.is_set(wanted[i].name.as_str()) {
                let ghost before = views(r@);
                r.push(wanted[i].copy());
                assert(views(r@) =~= before.push(wanted@[i as int]@));
            }
            i = i + 1;
        }
        assert(all.take(i as int) =~= all);
        r
    }
}

} // verus!
