//! Addresses: the loopback ports of a desktop shell, and the URLs under which
//! the services reach each other.

use crate::env::{
    applied, has_text, leave_out, lemma_defaults_are_exact, lemma_defaults_keep_what_is_set,
    lemma_last_write_wins, lemma_other_defaults, lemma_other_variables_untouched,
    lemma_without_keeps_the_rest, lemma_without_leaves_no_name, lemma_without_once, text_view,
    unset, views, without, Env, EnvView, Setting, SettingView, ValueView,
};
use crate::text::{
    decimal, glue, glue3, lemma_decimal_round_trip, lemma_replaced_at_first_occurrence,
    lemma_replaced_is_free_of_pattern, lemma_replaced_unchanged, occurs, occurs_at, replace_all, replaced, texts, to_decimal,
};
use vstd::prelude::*;

verus! {

/// The ports that the system assigned to the services of a desktop shell.
#[derive(Clone, Copy, PartialEq, Eq, Structural, Debug)]
pub struct Ports {
    pub gluon: u16,
    pub reactive: u16,
    pub pgwire: u16,
    pub ion: u16,
    pub neutrino: u16,
}

/// The loopback address with a port.
pub open spec fn loopback_text(port: u16) -> Seq<char> {
    "127.0.0.1:"@ + decimal(port as nat)
}

/// The web address of a service on a loopback port.
pub open spec fn http_text(port: u16) -> Seq<char> {
    "http://127.0.0.1:"@ + decimal(port as nat)
}

/// The web socket address of gluon on a loopback port.
pub open spec fn ws_text(port: u16) -> Seq<char> {
    "ws://127.0.0.1:"@ + decimal(port as nat) + "/ws"@
}

/// The web socket address of gluon, derived from the address that it binds: a
/// wildcard address is reached over loopback.
pub open spec fn ws_url_of_bind(bind: Seq<char>) -> Seq<char> {
    "ws://"@ + replaced(bind, "0.0.0.0"@, "127.0.0.1"@) + "/ws"@
}

/// What a desktop shell writes so that every service binds its own port on
/// loopback and finds the others.
pub open spec fn port_settings_of(ports: Ports) -> Seq<SettingView> {
    seq![
        text_view("GLUON_BIND"@, loopback_text(ports.gluon)),
        text_view("REACTIVE__SERVER__HOST"@, "127.0.0.1"@),
        text_view("REACTIVE__SERVER__PORT"@, decimal(ports.reactive as nat)),
        text_view("REACTIVE__PGWIRE__HOST"@, "127.0.0.1"@),
        text_view("REACTIVE__PGWIRE__PORT"@, decimal(ports.pgwire as nat)),
        text_view("REACTIVE__GLUON__URL"@, ws_text(ports.gluon)),
        text_view("ION_SERVER__HOST"@, "127.0.0.1"@),
        text_view("ION_SERVER__PORT"@, decimal(ports.ion as nat)),
        text_view("ION_REACTIVE__URL"@, http_text(ports.reactive)),
        text_view("ION_GLUON__URL"@, ws_text(ports.gluon)),
        text_view("NEUTRINO_BIND"@, loopback_text(ports.neutrino)),
    ]
}

/// The credentials of the packaged Windows shell, for which there is no
/// configuration file.
pub open spec fn admin_settings() -> Seq<SettingView> {
    seq![
        text_view("REACTIVE__SECURITY__ADMIN_USER"@, "admin"@),
        text_view("REACTIVE__SECURITY__ADMIN_PASSWORD"@, "admin"@),
    ]
}

/// What differs from the services' own defaults when all of them run in one
/// process.
pub open spec fn headless_settings() -> Seq<SettingView> {
    seq![
        text_view("ION_REACTIVE__URL"@, "http://127.0.0.1:4749"@),
        text_view("ION_REACTIVE__HTTP_POOL_MAX_IDLE_PER_HOST"@, "0"@),
        text_view("ION_REACTIVE__SERVICE_TOKEN"@, "single-ion-dev-token"@),
    ]
}

/// A variable, and the key under which ion's configuration file holds the same
/// value.
#[derive(Debug)]
pub struct FileKey {
    pub name: String,
    pub key: String,
}

/// A variable and its key, as the contracts see them.
pub struct FileKeyView {
    pub name: Seq<char>,
    pub key: Seq<char>,
}

impl View for FileKey {
    type V = FileKeyView;

    open spec fn view(&self) -> FileKeyView {
        FileKeyView { name: self.name@, key: self.key@ }
    }
}

/// The keys of the headless process's defaults: the name of a variable without
/// its `ION_`, in lower case, with a dot for each double underscore.
pub open spec fn headless_file_keys() -> Seq<FileKeyView> {
    seq![
        FileKeyView { name: "ION_REACTIVE__URL"@, key: "reactive.url"@ },
        FileKeyView {
            name: "ION_REACTIVE__HTTP_POOL_MAX_IDLE_PER_HOST"@,
            key: "reactive.http_pool_max_idle_per_host"@,
        },
        FileKeyView { name: "ION_REACTIVE__SERVICE_TOKEN"@, key: "reactive.service_token"@ },
    ]
}

/// Every default of the headless process has its key.
pub proof fn lemma_every_headless_default_has_a_key(i: int)
    requires
        0 <= i < headless_settings().len(),
    ensures
        headless_file_keys().len() == headless_settings().len(),
        headless_file_keys()[i].name == headless_settings()[i].name,
{
}

/// The variables through which neutrino learns where gluon is.
pub open spec fn gluon_url_settings(url: Seq<char>) -> Seq<SettingView> {
    seq![
        text_view("NEUTRINO_GLUON__INTERNAL_URL"@, url),
        text_view("NEUTRINO_PHOTON__GLUON_URL"@, url),
    ]
}

/// The address of gluon that ion is given: the one that gluon really binds,
/// unless the environment overrides it, in which case the loaded configuration
/// stands.
pub open spec fn ion_gluon_url_of(env: EnvView, loaded: Seq<char>, derived: Seq<char>) -> Seq<char> {
    if env.contains_key("ION_GLUON__URL"@) {
        loaded
    } else {
        derived
    }
}

/// An occurrence of a pattern in a concatenation lies in one of the two parts,
/// where the character at one side of the seam is none of the pattern's.
proof fn lemma_no_occurrence_across_seam(a: Seq<char>, b: Seq<char>, pat: Seq<char>)
    requires
        pat.len() > 0,
        !occurs(a, pat),
        !occurs(b, pat),
        (a.len() > 0 && !pat.contains(a.last())) || (b.len() > 0 && !pat.contains(b[0])),
    ensures
        !occurs(a + b, pat),
{
    let s = a + b;
    let n = a.len() as int;
    assert forall|i: int| !occurs_at(s, pat, i) by {
        if occurs_at(s, pat, i) {
            let window = s.subrange(i, i + pat.len());
            if i + pat.len() <= n {
                assert(a.subrange(i, i + pat.len()) =~= window);
                assert(occurs_at(a, pat, i));
            } else if i >= n {
                assert(b.subrange(i - n, i - n + pat.len()) =~= window);
                assert(occurs_at(b, pat, i - n));
            } else {
                assert(pat[n - 1 - i] == window[n - 1 - i] == a.last());
                assert(pat[n - i] == window[n - i] == b[0]);
            }
        }
    }
}

/// A text shorter than the pattern does not hold it.
proof fn lemma_short_text_is_free(s: Seq<char>, pat: Seq<char>)
    requires
        s.len() < pat.len(),
    ensures
        !occurs(s, pat),
{
    assert forall|i: int| !occurs_at(s, pat, i) by {}
}

/// Whatever gluon binds, its derived address never names the wildcard address.
pub proof fn lemma_ws_url_never_names_wildcard(bind: Seq<char>)
    ensures
        !occurs(ws_url_of_bind(bind), "0.0.0.0"@),
{
    reveal_strlit("0.0.0.0");
    reveal_strlit("127.0.0.1");
    reveal_strlit("ws://");
    reveal_strlit("/ws");
    let pat = "0.0.0.0"@;
    let with = "127.0.0.1"@;
    let mid = replaced(bind, pat, with);
    assert forall|i: int| !occurs_at(with, pat, i) by {
        if occurs_at(with, pat, i) {
            assert(with.subrange(i, i + 7)[0] == pat[0]);
            assert(with.subrange(i, i + 7)[6] == pat[6]);
        }
    }
    lemma_replaced_is_free_of_pattern(bind, pat, with);
    lemma_short_text_is_free("ws://"@, pat);
    lemma_short_text_is_free("/ws"@, pat);
    lemma_no_occurrence_across_seam("ws://"@, mid, pat);
    lemma_no_occurrence_across_seam("ws://"@ + mid, "/ws"@, pat);
}

/// An address without the wildcard is used as it stands.
pub proof fn lemma_ws_url_keeps_specific_bind(bind: Seq<char>)
    requires
        !occurs(bind, "0.0.0.0"@),
    ensures
        ws_url_of_bind(bind) == "ws://"@ + bind + "/ws"@,
{
    lemma_replaced_unchanged(bind, "0.0.0.0"@, "127.0.0.1"@);
}

/// Different ports give different loopback addresses.
pub proof fn lemma_loopback_tells_ports_apart(a: u16, b: u16)
    requires
        loopback_text(a) == loopback_text(b),
    ensures
        a == b,
{
    let p = "127.0.0.1:"@;
    let n = p.len() as int;
    assert(loopback_text(a).skip(n) =~= decimal(a as nat));
    assert(loopback_text(b).skip(n) =~= decimal(b as nat));
    lemma_decimal_round_trip(a as nat);
    lemma_decimal_round_trip(b as nat);
}

/// A variable that is written once has the value written.
proof fn lemma_written_once(env: EnvView, writes: Seq<SettingView>, i: int)
    requires
        0 <= i < writes.len(),
        forall|j: int| i < j < writes.len() ==> (#[trigger] writes[j]).name != writes[i].name,
    ensures
        applied(env, writes).contains_key(writes[i].name),
        applied(env, writes)[writes[i].name] == writes[i].value,
{
    lemma_last_write_wins(env, writes, i);
}

/// The addresses on loopback end in the decimal notation of the port.
pub proof fn lemma_loopback_addresses(port: u16)
    ensures
        loopback_text(port) == "127.0.0.1:"@ + decimal(port as nat),
        http_text(port) == "http://127.0.0.1:"@ + decimal(port as nat),
        ws_text(port) == "ws://127.0.0.1:"@ + decimal(port as nat) + "/ws"@,
{
}

/// The address of gluon is what it binds, between the scheme and the path, with
/// the loopback address for every wildcard; what stands before the first
/// wildcard and behind it is kept.
pub proof fn lemma_ws_url_keeps_all_but_wildcards(a: Seq<char>, b: Seq<char>)
    requires
        !occurs(a, "0.0.0.0"@),
        !occurs(b, "0.0.0.0"@),
        a.len() > 0 ==> a.last() != '0' && a.last() != '.',
    ensures
        ws_url_of_bind(a + "0.0.0.0"@ + b) == "ws://"@ + (a + "127.0.0.1"@ + b) + "/ws"@,
{
    reveal_strlit("0.0.0.0");
    let pat = "0.0.0.0"@;
    let with = "127.0.0.1"@;
    let s = a + pat + b;
    assert forall|i: int| 0 <= i < a.len() implies !#[trigger] occurs_at(s, pat, i) by {
        if occurs_at(s, pat, i) {
            let window = s.subrange(i, i + pat.len());
            if i + pat.len() <= a.len() {
                assert(a.subrange(i, i + pat.len()) =~= window);
                assert(occurs_at(a, pat, i));
            } else {
                let k = a.len() - 1 - i;
                assert(window[k] == s[i + k]);
                assert(s[i + k] == a.last());
                assert(pat[k] == '0' || pat[k] == '.');
            }
        }
    }
    lemma_replaced_at_first_occurrence(a, pat, b, with);
    lemma_replaced_unchanged(b, pat, with);
}

/// The port of a wildcard bind is kept.
pub proof fn lemma_ws_url_keeps_port_of_wildcard(rest: Seq<char>)
    requires
        !occurs(rest, "0.0.0.0"@),
        rest.len() > 0,
        rest[0] == ':',
    ensures
        ws_url_of_bind("0.0.0.0"@ + rest) == "ws://127.0.0.1"@ + rest + "/ws"@,
{
    reveal_strlit("0.0.0.0");
    reveal_strlit("ws://127.0.0.1");
    reveal_strlit("ws://");
    reveal_strlit("127.0.0.1");
    let none = Seq::<char>::empty();
    lemma_short_text_is_free(none, "0.0.0.0"@);
    lemma_ws_url_keeps_all_but_wildcards(none, rest);
    assert(none + "0.0.0.0"@ + rest =~= "0.0.0.0"@ + rest);
    assert("ws://"@ + (none + "127.0.0.1"@ + rest) =~= "ws://127.0.0.1"@ + rest);
}

/// In general the address is the scheme, the bind with every wildcard replaced,
/// and the path.
pub proof fn lemma_ws_url_replaces_every_wildcard(bind: Seq<char>)
    ensures
        ws_url_of_bind(bind) == "ws://"@ + replaced(bind, "0.0.0.0"@, "127.0.0.1"@) + "/ws"@,
{
}

/// After a shell has told the services their ports, every variable has the text
/// of its own port, whatever it was before, and no other variable has changed.
pub proof fn lemma_each_variable_has_its_port(env: EnvView, ports: Ports, name: Seq<char>)
    ensures
        ({
            let after = applied(env, port_settings_of(ports));
            let is = |n: Seq<char>, v: Seq<char>|
                after.contains_key(n) && after[n] == ValueView::Text(v);
            let gluon_url = "ws://127.0.0.1:"@ + decimal(ports.gluon as nat) + "/ws"@;
            &&& is("GLUON_BIND"@, "127.0.0.1:"@ + decimal(ports.gluon as nat))
            &&& is("REACTIVE__SERVER__HOST"@, "127.0.0.1"@)
            &&& is("REACTIVE__SERVER__PORT"@, decimal(ports.reactive as nat))
            &&& is("REACTIVE__PGWIRE__HOST"@, "127.0.0.1"@)
            &&& is("REACTIVE__PGWIRE__PORT"@, decimal(ports.pgwire as nat))
            &&& is("REACTIVE__GLUON__URL"@, gluon_url)
            &&& is("ION_SERVER__HOST"@, "127.0.0.1"@)
            &&& is("ION_SERVER__PORT"@, decimal(ports.ion as nat))
            &&& is("ION_REACTIVE__URL"@, "http://127.0.0.1:"@ + decimal(ports.reactive as nat))
            &&& is("ION_GLUON__URL"@, gluon_url)
            &&& is("NEUTRINO_BIND"@, "127.0.0.1:"@ + decimal(ports.neutrino as nat))
            &&& name != "GLUON_BIND"@ && name != "REACTIVE__SERVER__HOST"@ && name
                != "REACTIVE__SERVER__PORT"@ && name != "REACTIVE__PGWIRE__HOST"@ && name
                != "REACTIVE__PGWIRE__PORT"@ && name != "REACTIVE__GLUON__URL"@ && name
                != "ION_SERVER__HOST"@ && name != "ION_SERVER__PORT"@ && name
                != "ION_REACTIVE__URL"@ && name != "ION_GLUON__URL"@ && name != "NEUTRINO_BIND"@
                ==> after.contains_key(name) == env.contains_key(name) && (env.contains_key(name)
                ==> after[name] == env[name])
        }),
{
    let w = port_settings_of(ports);
    let after = applied(env, w);
    lemma_port_names_are_distinct(ports);
    assert forall|i: int| 0 <= i < 11 implies after.contains_key((#[trigger] w[i]).name)
        && after[w[i].name] == w[i].value by {
        assert forall|j: int| i < j < w.len() implies (#[trigger] w[j]).name != w[i].name by {}
        lemma_last_write_wins(env, w, i);
    }
    assert(w[0].name == "GLUON_BIND"@);
    assert(w[1].name == "REACTIVE__SERVER__HOST"@);
    assert(w[2].name == "REACTIVE__SERVER__PORT"@);
    assert(w[3].name == "REACTIVE__PGWIRE__HOST"@);
    assert(w[4].name == "REACTIVE__PGWIRE__PORT"@);
    assert(w[5].name == "REACTIVE__GLUON__URL"@);
    assert(w[6].name == "ION_SERVER__HOST"@);
    assert(w[7].name == "ION_SERVER__PORT"@);
    assert(w[8].name == "ION_REACTIVE__URL"@);
    assert(w[9].name == "ION_GLUON__URL"@);
    assert(w[10].name == "NEUTRINO_BIND"@);
    if forall|i: int| 0 <= i < 11 ==> (#[trigger] w[i]).name != name {
        lemma_other_variables_untouched(env, w, name);
    }
}

/// What a list of defaults for different variables does: each of them has what
/// it had or its default, and nothing else changes.
proof fn lemma_distinct_defaults(env: EnvView, wanted: Seq<SettingView>, name: Seq<char>)
    requires
        forall|i: int, j: int|
            0 <= i < j < wanted.len() ==> (#[trigger] wanted[i]).name != (
            #[trigger] wanted[j]).name,
    ensures
        ({
            let after = applied(env, unset(env, wanted));
            &&& forall|k: int|
                0 <= k < wanted.len() ==> after.contains_key((#[trigger] wanted[k]).name)
                    && after[wanted[k].name] == if env.contains_key(wanted[k].name) {
                    env[wanted[k].name]
                } else {
                    wanted[k].value
                }
            &&& (forall|k: int| 0 <= k < wanted.len() ==> (#[trigger] wanted[k]).name != name)
                ==> after.contains_key(name) == env.contains_key(name) && (env.contains_key(name)
                ==> after[name] == env[name])
        }),
{
    let after = applied(env, unset(env, wanted));
    assert forall|k: int| 0 <= k < wanted.len() implies after.contains_key(
        (#[trigger] wanted[k]).name,
    ) && after[wanted[k].name] == if env.contains_key(wanted[k].name) {
        env[wanted[k].name]
    } else {
        wanted[k].value
    } by {
        if env.contains_key(wanted[k].name) {
            lemma_defaults_keep_what_is_set(env, wanted, wanted[k].name);
        } else {
            lemma_defaults_are_exact(env, wanted, k);
        }
    }
    if forall|k: int| 0 <= k < wanted.len() ==> (#[trigger] wanted[k]).name != name {
        lemma_other_defaults(env, wanted, name);
    }
}

/// After the credentials were written, the administrator is `admin` with the
/// password `admin`, unless the operator said otherwise; nothing else changes.
pub proof fn lemma_admin_credentials(env: EnvView, name: Seq<char>)
    ensures
        ({
            let after = applied(env, unset(env, admin_settings()));
            let old_or = |n: Seq<char>, v: Seq<char>|
                after.contains_key(n) && after[n] == if env.contains_key(n) {
                    env[n]
                } else {
                    ValueView::Text(v)
                };
            &&& old_or("REACTIVE__SECURITY__ADMIN_USER"@, "admin"@)
            &&& old_or("REACTIVE__SECURITY__ADMIN_PASSWORD"@, "admin"@)
            &&& name != "REACTIVE__SECURITY__ADMIN_USER"@ && name
                != "REACTIVE__SECURITY__ADMIN_PASSWORD"@ ==> after.contains_key(name)
                == env.contains_key(name) && (env.contains_key(name) ==> after[name] == env[name])
        }),
{
    reveal_strlit("REACTIVE__SECURITY__ADMIN_USER");
    reveal_strlit("REACTIVE__SECURITY__ADMIN_PASSWORD");
    let wanted = admin_settings();
    assert(wanted[0].name.len() == 30 && wanted[1].name.len() == 34);
    lemma_distinct_defaults(env, wanted, name);
    assert(wanted[0].name == "REACTIVE__SECURITY__ADMIN_USER"@);
    assert(wanted[1].name == "REACTIVE__SECURITY__ADMIN_PASSWORD"@);
}

/// After the defaults of the headless process were written, each of its three
/// variables has what it had; where it was not set it has its default, unless
/// ion's configuration file holds the value, in which case it stays unset.
/// Nothing else changes.
pub proof fn lemma_headless_variables(env: EnvView, in_file: Seq<Seq<char>>, name: Seq<char>)
    ensures
        ({
            let after = applied(env, unset(env, without(headless_settings(), in_file)));
            let told = |n: Seq<char>, v: Seq<char>|
                if env.contains_key(n) {
                    after.contains_key(n) && after[n] == env[n]
                } else if in_file.contains(n) {
                    !after.contains_key(n)
                } else {
                    after.contains_key(n) && after[n] == ValueView::Text(v)
                };
            &&& told("ION_REACTIVE__URL"@, "http://127.0.0.1:4749"@)
            &&& told("ION_REACTIVE__HTTP_POOL_MAX_IDLE_PER_HOST"@, "0"@)
            &&& told("ION_REACTIVE__SERVICE_TOKEN"@, "single-ion-dev-token"@)
            &&& name != "ION_REACTIVE__URL"@ && name
                != "ION_REACTIVE__HTTP_POOL_MAX_IDLE_PER_HOST"@ && name
                != "ION_REACTIVE__SERVICE_TOKEN"@ ==> after.contains_key(name)
                == env.contains_key(name) && (env.contains_key(name) ==> after[name] == env[name])
        }),
{
    reveal_strlit("ION_REACTIVE__URL");
    reveal_strlit("ION_REACTIVE__HTTP_POOL_MAX_IDLE_PER_HOST");
    reveal_strlit("ION_REACTIVE__SERVICE_TOKEN");
    let all = headless_settings();
    let wanted = without(all, in_file);
    let after = applied(env, unset(env, wanted));
    assert(all[0].name.len() == 17 && all[1].name.len() == 41 && all[2].name.len() == 27);
    assert(all[0].name == "ION_REACTIVE__URL"@);
    assert(all[1].name == "ION_REACTIVE__HTTP_POOL_MAX_IDLE_PER_HOST"@);
    assert(all[2].name == "ION_REACTIVE__SERVICE_TOKEN"@);
    assert forall|i: int| 0 <= i < 3 implies if env.contains_key((#[trigger] all[i]).name) {
        after.contains_key(all[i].name) && after[all[i].name] == env[all[i].name]
    } else if in_file.contains(all[i].name) {
        !after.contains_key(all[i].name)
    } else {
        after.contains_key(all[i].name) && after[all[i].name] == all[i].value
    } by {
        if env.contains_key(all[i].name) {
            lemma_defaults_keep_what_is_set(env, wanted, all[i].name);
        } else if in_file.contains(all[i].name) {
            assert forall|j: int| 0 <= j < wanted.len() implies (#[trigger] wanted[j]).name
                != all[i].name by {
                lemma_without_leaves_no_name(all, in_file, j);
            }
            lemma_other_defaults(env, wanted, all[i].name);
        } else {
            lemma_without_keeps_the_rest(all, in_file, i);
            let k = choose|k: int| 0 <= k < wanted.len() && wanted[k] == all[i];
            lemma_without_once(all, in_file, i, k);
            lemma_defaults_are_exact(env, wanted, k);
        }
    }
    if forall|i: int| 0 <= i < 3 ==> (#[trigger] all[i]).name != name {
        assert forall|j: int| 0 <= j < wanted.len() implies (#[trigger] wanted[j]).name != name by {
            lemma_without_leaves_no_name(all, in_file, j);
            let i = choose|i: int| 0 <= i < all.len() && all[i] == wanted[j];
            assert(all[i].name != name);
        }
        lemma_other_defaults(env, wanted, name);
    }
}

/// The keys under which ion's configuration file holds the three values.
pub proof fn lemma_keys_of_the_file(k: FileKey)
    ensures
        k@.name == k.name@,
        k@.key == k.key@,
        headless_file_keys() == seq![
            FileKeyView { name: "ION_REACTIVE__URL"@, key: "reactive.url"@ },
            FileKeyView {
                name: "ION_REACTIVE__HTTP_POOL_MAX_IDLE_PER_HOST"@,
                key: "reactive.http_pool_max_idle_per_host"@,
            },
            FileKeyView { name: "ION_REACTIVE__SERVICE_TOKEN"@, key: "reactive.service_token"@ },
        ],
{
}

/// After it was told, neutrino looks for gluon at the given address, unless the
/// operator said otherwise; nothing else changes.
pub proof fn lemma_neutrino_is_told_where_gluon_is(
    env: EnvView,
    url: Seq<char>,
    name: Seq<char>,
)
    ensures
        ({
            let after = applied(env, unset(env, gluon_url_settings(url)));
            let old_or = |n: Seq<char>|
                after.contains_key(n) && after[n] == if env.contains_key(n) {
                    env[n]
                } else {
                    ValueView::Text(url)
                };
            &&& old_or("NEUTRINO_GLUON__INTERNAL_URL"@)
            &&& old_or("NEUTRINO_PHOTON__GLUON_URL"@)
            &&& name != "NEUTRINO_GLUON__INTERNAL_URL"@ && name != "NEUTRINO_PHOTON__GLUON_URL"@
                ==> after.contains_key(name) == env.contains_key(name) && (env.contains_key(name)
                ==> after[name] == env[name])
        }),
{
    reveal_strlit("NEUTRINO_GLUON__INTERNAL_URL");
    reveal_strlit("NEUTRINO_PHOTON__GLUON_URL");
    let wanted = gluon_url_settings(url);
    assert(wanted[0].name.len() == 28 && wanted[1].name.len() == 26);
    lemma_distinct_defaults(env, wanted, name);
    assert(wanted[0].name == "NEUTRINO_GLUON__INTERNAL_URL"@);
    assert(wanted[1].name == "NEUTRINO_PHOTON__GLUON_URL"@);
}

/// Ion is given the address that gluon really binds, unless the operator has set
/// `ION_GLUON__URL`; then its loaded configuration stands.
pub proof fn lemma_ion_is_pointed_at_gluon(env: EnvView, loaded: Seq<char>, derived: Seq<char>)
    ensures
        !env.contains_key("ION_GLUON__URL"@) ==> ion_gluon_url_of(env, loaded, derived) == derived,
        env.contains_key("ION_GLUON__URL"@) ==> ion_gluon_url_of(env, loaded, derived) == loaded,
{
}

/// Whether the variables of a desktop shell agree with each other: every address
/// under which one service looks for another is the address that the other
/// binds, and all of them are on loopback.
pub open spec fn ports_agree(env: EnvView, ports: Ports) -> bool {
    let gluon_url = "ws://"@ + loopback_text(ports.gluon) + "/ws"@;
    let reactive_url = "http://"@ + loopback_text(ports.reactive);
    &&& has_text(env, "GLUON_BIND"@, loopback_text(ports.gluon))
    &&& has_text(env, "REACTIVE__GLUON__URL"@, gluon_url)
    &&& has_text(env, "ION_GLUON__URL"@, gluon_url)
    &&& has_text(env, "REACTIVE__SERVER__HOST"@, "127.0.0.1"@)
    &&& has_text(env, "REACTIVE__SERVER__PORT"@, decimal(ports.reactive as nat))
    &&& has_text(env, "ION_REACTIVE__URL"@, reactive_url)
    &&& has_text(env, "REACTIVE__PGWIRE__HOST"@, "127.0.0.1"@)
    &&& has_text(env, "REACTIVE__PGWIRE__PORT"@, decimal(ports.pgwire as nat))
    &&& has_text(env, "ION_SERVER__HOST"@, "127.0.0.1"@)
    &&& has_text(env, "ION_SERVER__PORT"@, decimal(ports.ion as nat))
    &&& has_text(env, "NEUTRINO_BIND"@, loopback_text(ports.neutrino))
}

/// Once they are written, the variables of a desktop shell agree with each
/// other.
pub proof fn lemma_port_settings_agree(env: EnvView, ports: Ports)
    ensures
        ports_agree(applied(env, port_settings_of(ports)), ports),
{
    let w = port_settings_of(ports);
    lemma_port_names_are_distinct(ports);
    assert forall|i: int| 0 <= i < 11 implies applied(env, w).contains_key(
        (#[trigger] w[i]).name,
    ) && applied(env, w)[w[i].name] == w[i].value by {
        assert forall|j: int| i < j < w.len() implies (#[trigger] w[j]).name != w[i].name by {}
        lemma_written_once(env, w, i);
    }
    assert(w[0].name == "GLUON_BIND"@);
    assert(w[1].name == "REACTIVE__SERVER__HOST"@);
    assert(w[2].name == "REACTIVE__SERVER__PORT"@);
    assert(w[3].name == "REACTIVE__PGWIRE__HOST"@);
    assert(w[4].name == "REACTIVE__PGWIRE__PORT"@);
    assert(w[5].name == "REACTIVE__GLUON__URL"@);
    assert(w[6].name == "ION_SERVER__HOST"@);
    assert(w[7].name == "ION_SERVER__PORT"@);
    assert(w[8].name == "ION_REACTIVE__URL"@);
    assert(w[9].name == "ION_GLUON__URL"@);
    assert(w[10].name == "NEUTRINO_BIND"@);
    assert("ws://127.0.0.1:"@ =~= "ws://"@ + "127.0.0.1:"@) by {
        reveal_strlit("ws://127.0.0.1:");
        reveal_strlit("ws://");
        reveal_strlit("127.0.0.1:");
    }
    assert("http://127.0.0.1:"@ =~= "http://"@ + "127.0.0.1:"@) by {
        reveal_strlit("http://127.0.0.1:");
        reveal_strlit("http://");
        reveal_strlit("127.0.0.1:");
    }
    assert(ws_text(ports.gluon) =~= "ws://"@ + loopback_text(ports.gluon) + "/ws"@);
    assert(http_text(ports.reactive) =~= "http://"@ + loopback_text(ports.reactive));
}

/// Defaults for whatever variables leave the ports as they are.
pub proof fn lemma_defaults_keep_ports(env: EnvView, ports: Ports, wanted: Seq<SettingView>)
    requires
        ports_agree(env, ports),
    ensures
        ports_agree(applied(env, unset(env, wanted)), ports),
{
    assert forall|name: Seq<char>, value: Seq<char>| #[trigger]
        has_text(env, name, value) implies has_text(
        applied(env, unset(env, wanted)),
        name,
        value,
    ) by {
        lemma_defaults_keep_what_is_set(env, wanted, name);
    }
}

/// No two of the port settings write the same variable.
proof fn lemma_port_names_are_distinct(ports: Ports)
    ensures
        forall|i: int, j: int|
            0 <= i < j < 11 ==> (#[trigger] port_settings_of(ports)[i]).name
                != (#[trigger] port_settings_of(ports)[j]).name,
{
    reveal_strlit("GLUON_BIND");
    reveal_strlit("REACTIVE__SERVER__HOST");
    reveal_strlit("REACTIVE__SERVER__PORT");
    reveal_strlit("REACTIVE__PGWIRE__HOST");
    reveal_strlit("REACTIVE__PGWIRE__PORT");
    reveal_strlit("REACTIVE__GLUON__URL");
    reveal_strlit("ION_SERVER__HOST");
    reveal_strlit("ION_SERVER__PORT");
    reveal_strlit("ION_REACTIVE__URL");
    reveal_strlit("ION_GLUON__URL");
    reveal_strlit("NEUTRINO_BIND");
    let w = port_settings_of(ports);
    assert(w[0].name.len() == 10);
    assert(w[1].name.len() == 22);
    assert(w[2].name.len() == 22);
    assert(w[3].name.len() == 22);
    assert(w[4].name.len() == 22);
    assert(w[5].name.len() == 20);
    assert(w[6].name.len() == 16);
    assert(w[7].name.len() == 16);
    assert(w[8].name.len() == 17);
    assert(w[9].name.len() == 14);
    assert(w[10].name.len() == 13);
    assert(w[1].name[10] == 'S' && w[1].name[18] == 'H');
    assert(w[2].name[10] == 'S' && w[2].name[18] == 'P');
    assert(w[3].name[10] == 'P' && w[3].name[18] == 'H');
    assert(w[4].name[10] == 'P' && w[4].name[18] == 'P');
    assert(w[6].name[12] == 'H');
    assert(w[7].name[12] == 'P');
}

/// The loopback address with a port.
pub fn loopback(port: u16) -> (r: String)
    ensures
        r@ == loopback_text(port),
{
    glue("127.0.0.1:", to_decimal(port as u64).as_str())
}

/// The web address of a service on a loopback port.
pub fn http_url(port: u16) -> (r: String)
    ensures
        r@ == http_text(port),
{
    glue("http://127.0.0.1:", to_decimal(port as u64).as_str())
}

/// The web socket address of gluon on a loopback port.
pub fn ws_url(port: u16) -> (r: String)
    ensures
        r@ == ws_text(port),
{
    glue3("ws://127.0.0.1:", to_decimal(port as u64).as_str(), "/ws")
}

/// The web socket address of gluon, derived from the address that it binds.
pub fn gluon_ws_url(bind: &str) -> (r: String)
    ensures
        r@ == ws_url_of_bind(bind@),
{
    proof {
        reveal_strlit("0.0.0.0");
    }
    let addr = replace_all(bind, "0.0.0.0", "127.0.0.1");
    glue3("ws://", addr.as_str(), "/ws")
}

/// What a desktop shell writes once its ports are known.
pub fn port_settings(ports: &Ports) -> (r: Vec<Setting>)
    ensures
        views(r@) == port_settings_of(*ports),
{
    let gluon_url = ws_url(ports.gluon);
    let r: Vec<Setting> = vec![
        Setting::text("GLUON_BIND", loopback(ports.gluon).as_str()),
        Setting::text("REACTIVE__SERVER__HOST", "127.0.0.1"),
        Setting::text("REACTIVE__SERVER__PORT", to_decimal(ports.reactive as u64).as_str()),
        Setting::text("REACTIVE__PGWIRE__HOST", "127.0.0.1"),
        Setting::text("REACTIVE__PGWIRE__PORT", to_decimal(ports.pgwire as u64).as_str()),
        Setting::text("REACTIVE__GLUON__URL", gluon_url.as_str()),
        Setting::text("ION_SERVER__HOST", "127.0.0.1"),
        Setting::text("ION_SERVER__PORT", to_decimal(ports.ion as u64).as_str()),
        Setting::text("ION_REACTIVE__URL", http_url(ports.reactive).as_str()),
        Setting::text("ION_GLUON__URL", gluon_url.as_str()),
        Setting::text("NEUTRINO_BIND", loopback(ports.neutrino).as_str()),
    ];
    assert(views(r@) =~= port_settings_of(*ports));
    r
}

/// What the packaged Windows shell writes so that there is an administrator;
/// variables that are set already are left alone.
pub fn admin_defaults(env: &Env) -> (r: Vec<Setting>)
    ensures
        views(r@) == unset(env@, admin_settings()),
{
    let wanted: Vec<Setting> = vec![
        Setting::text("REACTIVE__SECURITY__ADMIN_USER", "admin"),
        Setting::text("REACTIVE__SECURITY__ADMIN_PASSWORD", "admin"),
    ];
    assert(views(wanted@) =~= admin_settings());
    env.unset(&wanted)
}

impl FileKey {
    /// A variable with its key.
    fn new(name: &str, key: &str) -> (r: FileKey)
        ensures
            r@ == (FileKeyView { name: name@, key: key@ }),
    {
        FileKey { name: name.to_owned(), key: key.to_owned() }
    }
}

/// The path, from the working directory, of ion's configuration file.
pub fn ion_cfg_file() -> (r: &'static str)
    ensures
        r@ == "cfg/ion.yaml"@,
{
    "cfg/ion.yaml"
}

/// The keys under which ion's configuration file may hold what the headless
/// process has defaults for.
pub fn file_keys() -> (r: Vec<FileKey>)
    ensures
        r@.map_values(|k: FileKey| k@) == headless_file_keys(),
{
    let r: Vec<FileKey> = vec![
        FileKey::new("ION_REACTIVE__URL", "reactive.url"),
        FileKey::new(
            "ION_REACTIVE__HTTP_POOL_MAX_IDLE_PER_HOST",
            "reactive.http_pool_max_idle_per_host",
        ),
        FileKey::new("ION_REACTIVE__SERVICE_TOKEN", "reactive.service_token"),
    ];
    assert(r@.map_values(|k: FileKey| k@) =~= headless_file_keys());
    r
}

/// What the headless process writes. Variables that are set already are left
/// alone, and so are those of `in_file`, whose values ion's configuration file
/// holds.
pub fn headless_defaults(env: &Env, in_file: &Vec<String>) -> (r: Vec<Setting>)
    ensures
        views(r@) == unset(env@, without(headless_settings(), texts(in_file@))),
{
    let wanted: Vec<Setting> = vec![
        Setting::text("ION_REACTIVE__URL", "http://127.0.0.1:4749"),
        Setting::text("ION_REACTIVE__HTTP_POOL_MAX_IDLE_PER_HOST", "0"),
        Setting::text("ION_REACTIVE__SERVICE_TOKEN", "single-ion-dev-token"),
    ];
    assert(views(wanted@) =~= headless_settings());
    env.unset(&leave_out(&wanted, in_file))
}

/// What the headless process writes so that neutrino finds gluon at `url`;
/// variables that are set already are left alone.
pub fn gluon_url_defaults(env: &Env, url: &str) -> (r: Vec<Setting>)
    ensures
        views(r@) == unset(env@, gluon_url_settings(url@)),
{
    let wanted: Vec<Setting> = vec![
        Setting::text("NEUTRINO_GLUON__INTERNAL_URL", url),
        Setting::text("NEUTRINO_PHOTON__GLUON_URL", url),
    ];
    assert(views(wanted@) =~= gluon_url_settings(url@));
    env.unset(&wanted)
}

/// The address of gluon that ion is given, where its loaded configuration says
/// `loaded` and gluon is really reached at `derived`.
pub fn ion_gluon_url(env: &Env, loaded: &str, derived: &str) -> (r: String)
    ensures
        r@ == ion_gluon_url_of(env@, loaded@, derived@),
{
    if env.is_set("ION_GLUON__URL") {
        loaded.to_owned()
    } else {
        derived.to_owned()
    }
}

} // verus!
