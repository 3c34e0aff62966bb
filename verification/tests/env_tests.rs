use single_ion::env::{leave_out, Child, Dir, Env, Setting, Value};
use single_ion::headless::{log_filter, scripts_redirect};
use single_ion::layout::{set_static_dirs, Layout};
use single_ion::network::{
    admin_defaults, file_keys, gluon_url_defaults, gluon_ws_url, headless_defaults, http_url,
    ion_cfg_file, ion_gluon_url, loopback, port_settings, ws_url, Ports,
};

fn env(pairs: &[(&str, &str)]) -> Env {
    let mut env = Env::new();
    for (name, value) in pairs {
        env.set(Setting::text(name, value));
    }
    env
}

fn pairs(settings: &[Setting]) -> Vec<(String, String)> {
    settings
        .iter()
        .map(|s| {
            let value = match &s.value {
                Value::Text(t) => t.clone(),
                Value::Dir(d) => format!("^{}/{}", d.ancestor, d.child.path().unwrap_or("")),
                Value::UnpackedScripts => "<scripts>".to_string(),
            };
            (s.name.clone(), value)
        })
        .collect()
}

fn expect(list: &[(&str, &str)]) -> Vec<(String, String)> {
    list.iter().map(|(a, b)| (a.to_string(), b.to_string())).collect()
}

#[test]
fn the_last_write_counts() {
    let mut e = env(&[("A", "1"), ("B", "2")]);
    assert!(e.is_set("A"));
    assert!(!e.is_set("C"));
    assert!(e.get("C").is_none());
    e.set(Setting::text("A", "3"));
    assert_eq!(e.text_or("A", "x"), "3");
    assert_eq!(e.text_or("B", "x"), "2");
    assert_eq!(e.text_or("C", "x"), "x");
    assert!(matches!(e.get("B"), Some(Value::Text(t)) if t == "2"));
}

#[test]
fn a_path_is_no_text() {
    let mut e = Env::new();
    e.set(Setting::dir("D", Dir { ancestor: 2, child: Child::Cfg }));
    assert!(e.is_set("D"));
    assert_eq!(e.text_or("D", "x"), "x");
    assert!(matches!(
        e.get("D"),
        Some(Value::Dir(Dir { ancestor: 2, child: Child::Cfg }))
    ));
}

#[test]
fn defaults_leave_what_is_set() {
    let e = env(&[("A", "mine")]);
    let wanted = vec![Setting::text("A", "default"), Setting::text("B", "default")];
    assert_eq!(pairs(&e.unset(&wanted)), expect(&[("B", "default")]));
}

#[test]
fn defaults_are_complete_and_idempotent() {
    let mut e = env(&[("A", "mine")]);
    let wanted = vec![Setting::text("A", "default"), Setting::text("B", "default")];
    let writes = e.unset(&wanted);
    e.apply(&writes);
    assert_eq!(e.text_or("A", ""), "mine");
    assert_eq!(e.text_or("B", ""), "default");
    assert!(e.unset(&wanted).is_empty());
}

#[test]
fn writing_in_two_parts_is_writing_at_once() {
    let mut a = env(&[("A", "0")]);
    let mut b = env(&[("A", "0")]);
    a.apply(&vec![Setting::text("A", "1")]);
    a.apply(&vec![Setting::text("A", "2"), Setting::text("B", "3")]);
    b.apply(&vec![
        Setting::text("A", "1"),
        Setting::text("A", "2"),
        Setting::text("B", "3"),
    ]);
    for name in ["A", "B", "C"] {
        assert_eq!(a.text_or(name, "-"), b.text_or(name, "-"));
    }
}

#[test]
fn other_variables_are_untouched() {
    let mut e = env(&[("KEEP", "k")]);
    e.apply(&port_settings(&Ports { gluon: 1, reactive: 2, pgwire: 3, ion: 4, neutrino: 5 }));
    assert_eq!(e.text_or("KEEP", ""), "k");
}

#[test]
fn settings_can_be_copied() {
    let s = Setting::text("A", "1");
    assert_eq!(pairs(&[s.copy()]), expect(&[("A", "1")]));
    let d = Value::Dir(Dir { ancestor: 1, child: Child::IonStatic });
    assert!(matches!(
        d.copy(),
        Value::Dir(Dir { ancestor: 1, child: Child::IonStatic })
    ));
    assert!(matches!(Value::UnpackedScripts.copy(), Value::UnpackedScripts));
}

#[test]
fn children_have_paths() {
    assert_eq!(Child::Itself.path(), None);
    assert_eq!(Child::SingleIon.path(), Some("single-ion"));
    assert_eq!(Child::Cfg.path(), Some("cfg"));
    assert_eq!(Child::ReactiveScripts.path(), Some("reactive/scripts"));
    assert_eq!(Child::IonStatic.path(), Some("ion/static"));
}

#[test]
fn assets_below_a_root() {
    let e = Env::new();
    let want = |i: usize| {
        expect(&[
            ("REACTIVE_SCRIPTS_ROOT", &format!("^{i}/reactive/scripts")),
            ("ION_SERVER__STATIC_DIR", &format!("^{i}/ion/static")),
            ("NEUTRINO_BUILD_CONTEXT_DIR", &format!("^{i}/")),
        ])
    };
    assert_eq!(pairs(&Layout::Monorepo(3).asset_defaults(&e)), want(3));
    assert_eq!(pairs(&Layout::Portable(1).asset_defaults(&e)), want(1));
}

#[test]
fn assets_without_a_root() {
    assert_eq!(
        pairs(&Layout::Unknown.asset_defaults(&Env::new())),
        expect(&[
            ("REACTIVE_SCRIPTS_ROOT", "../reactive/scripts"),
            ("ION_SERVER__STATIC_DIR", "../ion/static"),
            ("NEUTRINO_BUILD_CONTEXT_DIR", ".."),
        ])
    );
}

#[test]
fn assets_that_are_set_stay() {
    let e = env(&[("ION_SERVER__STATIC_DIR", "/srv/ion")]);
    assert_eq!(
        pairs(&Layout::Portable(1).asset_defaults(&e)),
        expect(&[
            ("REACTIVE_SCRIPTS_ROOT", "^1/reactive/scripts"),
            ("NEUTRINO_BUILD_CONTEXT_DIR", "^1/"),
        ])
    );
}

#[test]
fn static_dirs_of_a_desktop_shell() {
    assert_eq!(
        pairs(&set_static_dirs(&Env::new())),
        expect(&[
            ("REACTIVE_SCRIPTS_ROOT", "../reactive/scripts"),
            ("REACTIVE_STATIC_DIR", "../reactive/crates/db_server/static"),
            ("GLUON_STATIC_DIR", "../gluon/static"),
            ("NEUTRINO_STATIC_DIR", "../neutrino/static"),
            ("NEUTRINO_BUILD_CONTEXT_DIR", ".."),
            ("ION_SERVER__STATIC_DIR", "../ion/static"),
        ])
    );
    let e = env(&[("GLUON_STATIC_DIR", "g"), ("NEUTRINO_BUILD_CONTEXT_DIR", "n")]);
    assert_eq!(set_static_dirs(&e).len(), 4);
}

#[test]
fn loopback_addresses() {
    assert_eq!(loopback(8080), "127.0.0.1:8080");
    assert_eq!(http_url(80), "http://127.0.0.1:80");
    assert_eq!(ws_url(9000), "ws://127.0.0.1:9000/ws");
    assert_ne!(loopback(1), loopback(10));
}

#[test]
fn gluon_is_reached_over_loopback() {
    assert_eq!(gluon_ws_url("0.0.0.0:4748"), "ws://127.0.0.1:4748/ws");
    assert_eq!(gluon_ws_url("0.0.0.00.0.0.0"), "ws://127.0.0.1127.0.0.1/ws");
    assert!(!gluon_ws_url("0.0.0.0.0.0:1").contains("0.0.0.0"));
}

#[test]
fn a_specific_bind_is_kept() {
    assert_eq!(gluon_ws_url("192.168.1.5:4748"), "ws://192.168.1.5:4748/ws");
    assert_eq!(gluon_ws_url("[::]:1"), "ws://[::]:1/ws");
}

#[test]
fn ports_are_told_to_the_services() {
    let ports = Ports { gluon: 1001, reactive: 1002, pgwire: 1003, ion: 1004, neutrino: 1005 };
    assert_eq!(
        pairs(&port_settings(&ports)),
        expect(&[
            ("GLUON_BIND", "127.0.0.1:1001"),
            ("REACTIVE__SERVER__HOST", "127.0.0.1"),
            ("REACTIVE__SERVER__PORT", "1002"),
            ("REACTIVE__PGWIRE__HOST", "127.0.0.1"),
            ("REACTIVE__PGWIRE__PORT", "1003"),
            ("REACTIVE__GLUON__URL", "ws://127.0.0.1:1001/ws"),
            ("ION_SERVER__HOST", "127.0.0.1"),
            ("ION_SERVER__PORT", "1004"),
            ("ION_REACTIVE__URL", "http://127.0.0.1:1002"),
            ("ION_GLUON__URL", "ws://127.0.0.1:1001/ws"),
            ("NEUTRINO_BIND", "127.0.0.1:1005"),
        ])
    );
}

#[test]
fn port_variables_agree() {
    let mut e = env(&[("GLUON_BIND", "0.0.0.0:1"), ("ION_GLUON__URL", "ws://elsewhere")]);
    e.apply(&port_settings(&Ports { gluon: 7, reactive: 8, pgwire: 9, ion: 10, neutrino: 11 }));
    let bind = e.text_or("GLUON_BIND", "");
    assert_eq!(e.text_or("ION_GLUON__URL", ""), format!("ws://{bind}/ws"));
    assert_eq!(e.text_or("REACTIVE__GLUON__URL", ""), format!("ws://{bind}/ws"));
    let host = e.text_or("REACTIVE__SERVER__HOST", "");
    let port = e.text_or("REACTIVE__SERVER__PORT", "");
    assert_eq!(e.text_or("ION_REACTIVE__URL", ""), format!("http://{host}:{port}"));
}

#[test]
fn default_credentials() {
    assert_eq!(
        pairs(&admin_defaults(&Env::new())),
        expect(&[
            ("REACTIVE__SECURITY__ADMIN_USER", "admin"),
            ("REACTIVE__SECURITY__ADMIN_PASSWORD", "admin"),
        ])
    );
    let e = env(&[("REACTIVE__SECURITY__ADMIN_USER", "root")]);
    assert_eq!(
        pairs(&admin_defaults(&e)),
        expect(&[("REACTIVE__SECURITY__ADMIN_PASSWORD", "admin")])
    );
}

#[test]
fn headless_defaults_are_written() {
    assert_eq!(
        pairs(&headless_defaults(&Env::new(), &vec![])),
        expect(&[
            ("ION_REACTIVE__URL", "http://127.0.0.1:4749"),
            ("ION_REACTIVE__HTTP_POOL_MAX_IDLE_PER_HOST", "0"),
            ("ION_REACTIVE__SERVICE_TOKEN", "single-ion-dev-token"),
        ])
    );
}

#[test]
fn a_configuration_file_counts_like_the_environment() {
    let in_file = vec!["ION_REACTIVE__URL".to_string(), "OTHER".to_string()];
    assert_eq!(
        pairs(&headless_defaults(&Env::new(), &in_file)),
        expect(&[
            ("ION_REACTIVE__HTTP_POOL_MAX_IDLE_PER_HOST", "0"),
            ("ION_REACTIVE__SERVICE_TOKEN", "single-ion-dev-token"),
        ])
    );
    let e = env(&[("ION_REACTIVE__SERVICE_TOKEN", "mine")]);
    assert_eq!(
        pairs(&headless_defaults(&e, &in_file)),
        expect(&[("ION_REACTIVE__HTTP_POOL_MAX_IDLE_PER_HOST", "0")])
    );
}

#[test]
fn the_keys_of_the_headless_defaults() {
    let keys = file_keys();
    let defaults = headless_defaults(&Env::new(), &vec![]);
    assert_eq!(keys.len(), defaults.len());
    for (k, d) in keys.iter().zip(&defaults) {
        assert_eq!(k.name, d.name);
        let rule = k.name.strip_prefix("ION_").unwrap().to_lowercase().replace("__", ".");
        assert_eq!(k.key, rule);
    }
    assert_eq!(keys[2].key, "reactive.service_token");
    assert_eq!(ion_cfg_file(), "cfg/ion.yaml");
}

#[test]
fn an_unset_variable_gets_exactly_its_default() {
    let wanted = vec![Setting::text("A", "1"), Setting::text("B", "2"), Setting::text("C", "3")];
    let mut e = env(&[("B", "mine")]);
    let writes = e.unset(&wanted);
    e.apply(&writes);
    assert_eq!(e.text_or("A", ""), "1");
    assert_eq!(e.text_or("B", ""), "mine");
    assert_eq!(e.text_or("C", ""), "3");
    let left = leave_out(&wanted, &vec!["A".to_string(), "C".to_string()]);
    assert_eq!(pairs(&left), expect(&[("B", "2")]));
}

#[test]
fn neutrino_learns_where_gluon_is() {
    let e = env(&[("NEUTRINO_PHOTON__GLUON_URL", "ws://mine")]);
    assert_eq!(
        pairs(&gluon_url_defaults(&e, "ws://g/ws")),
        expect(&[("NEUTRINO_GLUON__INTERNAL_URL", "ws://g/ws")])
    );
    assert_eq!(gluon_url_defaults(&Env::new(), "u").len(), 2);
}

#[test]
fn ion_is_pointed_at_gluon() {
    assert_eq!(ion_gluon_url(&Env::new(), "ws://cfg", "ws://real"), "ws://real");
}

#[test]
fn an_override_of_ions_gluon_address_counts() {
    let e = env(&[("ION_GLUON__URL", "ws://mine")]);
    assert_eq!(ion_gluon_url(&e, "ws://mine", "ws://real"), "ws://mine");
}

#[test]
fn overrides_survive_the_start() {
    let mut e = env(&[
        ("ION_REACTIVE__URL", "http://db"),
        ("REACTIVE_SCRIPTS_ROOT", "/scripts"),
        ("NEUTRINO_GLUON__INTERNAL_URL", "ws://n"),
    ]);
    let writes = Layout::Portable(1).asset_defaults(&e);
    e.apply(&writes);
    let writes = headless_defaults(&e, &vec![]);
    e.apply(&writes);
    let writes = gluon_url_defaults(&e, "ws://g/ws");
    e.apply(&writes);
    assert_eq!(e.text_or("ION_REACTIVE__URL", ""), "http://db");
    assert_eq!(e.text_or("REACTIVE_SCRIPTS_ROOT", ""), "/scripts");
    assert_eq!(e.text_or("NEUTRINO_GLUON__INTERNAL_URL", ""), "ws://n");
    assert_eq!(e.text_or("NEUTRINO_PHOTON__GLUON_URL", ""), "ws://g/ws");
}

#[test]
fn unpacked_scripts_replace_the_variable() {
    let mut e = env(&[("REACTIVE_SCRIPTS_ROOT", "/gone")]);
    e.apply(&vec![scripts_redirect()]);
    assert!(matches!(e.get("REACTIVE_SCRIPTS_ROOT"), Some(Value::UnpackedScripts)));
}

#[test]
fn the_log_filter() {
    assert_eq!(log_filter(&Env::new()), "info");
    assert_eq!(log_filter(&env(&[("FR_LOG", "ion=debug")])), "ion=debug");
}
