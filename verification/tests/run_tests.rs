use single_ion::cfg_files::{ensure_cfg_files, CfgAction};
use single_ion::desktop::{
    assign_ports, neutrino_address, not_ready_message, page_url, wait_for_ion, Desktop,
    DesktopAction, Host, Shell, StopReason, READY_TIMEOUT_NS,
};
use single_ion::env::{Child, Dir, Env, Setting, Value};
use single_ion::folders::{init_folders, runtime_dir_name, FolderAction};
use single_ion::headless::{scripts_dir_name, Headless, HeadlessAction};
use single_ion::layout::{ExePath, Layout};
use single_ion::network::Ports;
use single_ion::readiness::{wait_for_tcp, WaitAction, WaitPhase};
use single_ion::services::{Service, ServiceThread, ThreadAction};
use std::path::Path;

fn exe(names: &[&str]) -> Option<ExePath> {
    Some(ExePath { names: names.iter().map(|n| Some(n.to_string())).collect() })
}

fn dir(ancestor: usize, child: Child) -> Dir {
    Dir { ancestor, child }
}

fn cfg_run(total: usize, reply: impl Fn(CfgAction) -> bool) -> Vec<CfgAction> {
    let mut m = ensure_cfg_files(total);
    let mut actions = Vec::new();
    let mut ok = true;
    loop {
        let a = m.next(ok);
        if a == CfgAction::Done {
            assert_eq!(m.next(true), CfgAction::Done);
            return actions;
        }
        actions.push(a);
        ok = reply(a);
    }
}

#[test]
fn existing_files_are_never_written() {
    assert_eq!(
        cfg_run(3, |_| true),
        vec![CfgAction::Probe(0), CfgAction::Probe(1), CfgAction::Probe(2)]
    );
}

#[test]
fn absent_files_are_unpacked() {
    let run = cfg_run(3, |a| a == CfgAction::Probe(1) || !matches!(a, CfgAction::Probe(_)));
    assert_eq!(
        run,
        vec![
            CfgAction::Probe(0),
            CfgAction::CreateParent(0),
            CfgAction::Write(0),
            CfgAction::Probe(1),
            CfgAction::Probe(2),
            CfgAction::CreateParent(2),
            CfgAction::Write(2),
        ]
    );
}

#[test]
fn a_file_without_a_directory_is_passed_over() {
    assert_eq!(
        cfg_run(2, |_| false),
        vec![
            CfgAction::Probe(0),
            CfgAction::CreateParent(0),
            CfgAction::Probe(1),
            CfgAction::CreateParent(1),
        ]
    );
    assert!(cfg_run(0, |_| false).is_empty());
}

#[test]
fn a_second_unpacking_writes_nothing() {
    let mut disk = vec![Some("mine"), None, None];
    let first = cfg_run(3, |a| !matches!(a, CfgAction::Probe(1) | CfgAction::Probe(2)));
    for a in first {
        if let CfgAction::Write(i) = a {
            disk[i] = Some("embedded");
        }
    }
    assert_eq!(disk, vec![Some("mine"), Some("embedded"), Some("embedded")]);
    let second = cfg_run(3, |a| match a {
        CfgAction::Probe(i) => disk[i].is_some(),
        _ => true,
    });
    assert_eq!(
        second,
        vec![CfgAction::Probe(0), CfgAction::Probe(1), CfgAction::Probe(2)]
    );
}

fn folder_run(
    exe: Option<ExePath>,
    reply: impl Fn(FolderAction) -> bool,
) -> (Vec<FolderAction>, Layout) {
    let mut m = init_folders(&exe);
    let mut actions = Vec::new();
    let mut ok = true;
    loop {
        let a = m.next(ok);
        if a == FolderAction::Done {
            return (actions, m.layout);
        }
        actions.push(a);
        ok = reply(a);
    }
}

#[test]
fn folders_of_a_development_build() {
    let home = dir(2, Child::SingleIon);
    let (run, layout) = folder_run(exe(&["single-ion", "target", "repo"]), |_| true);
    assert_eq!(layout, Layout::Monorepo(2));
    assert_eq!(
        run,
        vec![
            FolderAction::WriteAssetSettings,
            FolderAction::Probe(home),
            FolderAction::Enter(home),
            FolderAction::ReadCurrentDir,
            FolderAction::CreateRuntimeDir,
            FolderAction::EnterRuntimeDir,
            FolderAction::UnpackCfgFiles,
        ]
    );
}

#[test]
fn folders_of_a_portable_deployment() {
    let (run, layout) = folder_run(exe(&["single-ion", "opt"]), |a| {
        a != FolderAction::CreateRuntimeDir
    });
    assert_eq!(layout, Layout::Portable(1));
    assert_eq!(
        run,
        vec![
            FolderAction::Probe(dir(1, Child::Cfg)),
            FolderAction::WriteAssetSettings,
            FolderAction::Enter(dir(1, Child::Itself)),
            FolderAction::ReadCurrentDir,
            FolderAction::CreateRuntimeDir,
            FolderAction::UnpackCfgFiles,
        ]
    );
    assert_eq!(layout.monorepo_root(), None);
    assert_eq!(layout.deployment_root(), Some(1));
}

#[test]
fn folders_of_an_executable_without_cfg() {
    let path: Vec<Option<String>> = Path::new("/opt/app/single-ion")
        .ancestors()
        .map(|p| p.file_name().map(|n| n.to_string_lossy().into_owned()))
        .collect();
    let cfg = FolderAction::Probe(dir(1, Child::Cfg));
    let (run, layout) = folder_run(Some(ExePath { names: path }), |a| a != cfg);
    assert_eq!(
        run,
        vec![
            cfg,
            FolderAction::WriteAssetSettings,
            FolderAction::ReadCurrentDir,
            FolderAction::CreateRuntimeDir,
            FolderAction::EnterRuntimeDir,
            FolderAction::UnpackCfgFiles,
        ]
    );
    assert_eq!((layout.monorepo_root(), layout.deployment_root()), (None, None));
}

#[test]
fn folders_write_the_assets_before_entering() {
    for path in [&["single-ion", "target", "repo"][..], &["single-ion", "opt"][..]] {
        let (run, _) = folder_run(exe(path), |_| true);
        let at = |f: fn(&FolderAction) -> bool| run.iter().position(f).unwrap();
        let written = at(|a| *a == FolderAction::WriteAssetSettings);
        let entered = at(|a| matches!(a, FolderAction::Enter(_)));
        assert!(written < entered);
    }
}

#[test]
fn folders_where_everything_fails() {
    let (run, _) = folder_run(exe(&["single-ion", "target", "repo"]), |_| false);
    assert_eq!(
        run,
        vec![
            FolderAction::WriteAssetSettings,
            FolderAction::Probe(dir(2, Child::SingleIon)),
            FolderAction::ReadCurrentDir,
            FolderAction::UnpackCfgFiles,
        ]
    );
    let (run, layout) = folder_run(None, |_| false);
    assert_eq!(layout, Layout::Unknown);
    assert_eq!(
        run,
        vec![
            FolderAction::WriteAssetSettings,
            FolderAction::ReadCurrentDir,
            FolderAction::UnpackCfgFiles,
        ]
    );
    assert_eq!(runtime_dir_name(), "ion");
}

fn headless_run(
    exe: Option<ExePath>,
    reply: impl Fn(HeadlessAction) -> bool,
) -> (Vec<HeadlessAction>, Layout) {
    let mut m = Headless::new(&exe);
    let mut actions = Vec::new();
    let mut ok = true;
    loop {
        let a = m.next(ok);
        actions.push(a);
        if let HeadlessAction::Stop(success) = a {
            assert_eq!(m.next(true), HeadlessAction::Stop(success));
            return (actions, m.layout);
        }
        ok = reply(a);
    }
}

#[test]
fn a_headless_run() {
    let home = dir(2, Child::SingleIon);
    let (run, _) = headless_run(exe(&["single-ion", "target", "repo"]), |_| true);
    assert_eq!(
        run,
        vec![
            HeadlessAction::WriteAssetSettings,
            HeadlessAction::Probe(home),
            HeadlessAction::Enter(home),
            HeadlessAction::WriteDefaults,
            HeadlessAction::ProbeScripts,
            HeadlessAction::LoadGluon,
            HeadlessAction::WriteGluonUrls,
            HeadlessAction::LoadIon,
            HeadlessAction::PointIonAtGluon,
            HeadlessAction::LoadNeutrino,
            HeadlessAction::Spawn(Service::Gluon),
            HeadlessAction::Sleep(500),
            HeadlessAction::Spawn(Service::Reactive),
            HeadlessAction::Spawn(Service::Ion),
            HeadlessAction::Spawn(Service::Neutrino),
            HeadlessAction::AwaitExit,
            HeadlessAction::RequestShutdown,
            HeadlessAction::Sleep(500),
            HeadlessAction::Stop(true),
        ]
    );
}

#[test]
fn a_headless_run_without_ions_configuration() {
    let (run, _) = headless_run(None, |a| a != HeadlessAction::LoadIon);
    assert_eq!(
        run,
        vec![
            HeadlessAction::WriteAssetSettings,
            HeadlessAction::WriteDefaults,
            HeadlessAction::ProbeScripts,
            HeadlessAction::LoadGluon,
            HeadlessAction::WriteGluonUrls,
            HeadlessAction::LoadIon,
            HeadlessAction::Stop(false),
        ]
    );
}

#[test]
fn a_headless_deployment_with_and_without_cfg() {
    let cfg = HeadlessAction::Probe(dir(1, Child::Cfg));
    let enter = HeadlessAction::Enter(dir(1, Child::Itself));
    let (run, layout) = headless_run(exe(&["single-ion", "opt"]), |_| true);
    assert_eq!(layout, Layout::Portable(1));
    assert_eq!(run[..3].to_vec(), vec![cfg, HeadlessAction::WriteAssetSettings, enter]);
    let (run, layout) = headless_run(exe(&["single-ion", "opt"]), |a| a != cfg);
    assert_eq!(layout, Layout::Unknown);
    assert!(!run.contains(&enter));
}

#[test]
fn a_missing_monorepo_directory_is_not_entered() {
    let home = dir(2, Child::SingleIon);
    let (run, _) = headless_run(exe(&["single-ion", "target", "repo"]), |a| {
        a != HeadlessAction::Probe(home)
    });
    assert!(!run.contains(&HeadlessAction::Enter(home)));
    assert_eq!(run[2], HeadlessAction::WriteDefaults);
}

#[test]
fn scripts_are_unpacked_where_there_are_none() {
    let (run, _) = headless_run(None, |a| a != HeadlessAction::ProbeScripts);
    assert_eq!(
        run[2..6].to_vec(),
        vec![
            HeadlessAction::ProbeScripts,
            HeadlessAction::UnpackScripts,
            HeadlessAction::RedirectScripts,
            HeadlessAction::LoadGluon,
        ]
    );
    let (run, _) = headless_run(None, |a| {
        a != HeadlessAction::ProbeScripts && a != HeadlessAction::UnpackScripts
    });
    assert!(!run.contains(&HeadlessAction::RedirectScripts));
    assert_eq!(scripts_dir_name(), "freeradicals-scripts");
}

fn thread_run(binds: bool, reply: impl Fn(ThreadAction) -> bool) -> Vec<ThreadAction> {
    let mut m = ServiceThread::new(binds);
    let mut actions = Vec::new();
    let mut ok = true;
    loop {
        let a = m.next(ok);
        actions.push(a);
        if a == ThreadAction::Stop {
            return actions;
        }
        ok = reply(a);
    }
}

#[test]
fn the_thread_of_the_services() {
    assert_eq!(
        thread_run(true, |_| true),
        vec![
            ThreadAction::LoadIon,
            ThreadAction::LoadGluon,
            ThreadAction::LoadNeutrino,
            ThreadAction::BindNeutrino,
            ThreadAction::Spawn(Service::Gluon),
            ThreadAction::Sleep(500),
            ThreadAction::Spawn(Service::Reactive),
            ThreadAction::Spawn(Service::Ion),
            ThreadAction::Spawn(Service::Neutrino),
            ThreadAction::AwaitExit,
            ThreadAction::Stop,
        ]
    );
    assert!(!thread_run(false, |_| true).contains(&ThreadAction::BindNeutrino));
    assert_eq!(
        thread_run(true, |_| false),
        vec![ThreadAction::LoadIon, ThreadAction::Stop]
    );
}

fn desktop_run(
    shell: Shell,
    host: Host,
    reply: impl Fn(DesktopAction) -> bool,
) -> Vec<DesktopAction> {
    let mut m = Desktop::new(shell, host);
    let mut actions = Vec::new();
    let mut ok = true;
    loop {
        let a = m.next(ok);
        actions.push(a);
        if let DesktopAction::Stop(_) = a {
            return actions;
        }
        ok = reply(a);
    }
}

#[test]
fn a_desktop_run_on_linux() {
    assert_eq!(
        desktop_run(Shell::App, Host::Linux, |_| true),
        vec![
            DesktopAction::CheckDependencies,
            DesktopAction::AcquireInstance,
            DesktopAction::ReservePort(0),
            DesktopAction::ReservePort(1),
            DesktopAction::ReservePort(2),
            DesktopAction::ReservePort(3),
            DesktopAction::ReservePort(4),
            DesktopAction::WritePortSettings,
            DesktopAction::ReleasePorts,
            DesktopAction::WriteStaticDirs,
            DesktopAction::StartLog,
            DesktopAction::StartServices,
            DesktopAction::AwaitIon,
            DesktopAction::OpenWindow,
            DesktopAction::RunLoop,
            DesktopAction::Stop(StopReason::Success),
        ]
    );
}

#[test]
fn a_packaged_run_on_windows() {
    let run = desktop_run(Shell::Packaged, Host::Windows, |_| true);
    assert_eq!(run[0], DesktopAction::AcquireInstance);
    assert_eq!(
        run[6..9].to_vec(),
        vec![
            DesktopAction::WritePortSettings,
            DesktopAction::WriteAdminDefaults,
            DesktopAction::ReleasePorts,
        ]
    );
    let run = desktop_run(Shell::Packaged, Host::Other, |_| true);
    assert_eq!(run[0], DesktopAction::ReservePort(0));
}

#[test]
fn missing_libraries_end_the_run() {
    assert_eq!(
        desktop_run(Shell::App, Host::Linux, |_| false),
        vec![
            DesktopAction::CheckDependencies,
            DesktopAction::ReportMissing,
            DesktopAction::Stop(StopReason::MissingDependencies),
        ]
    );
    assert_eq!(
        desktop_run(Shell::App, Host::Other, |_| true)[0],
        DesktopAction::AcquireInstance
    );
}

#[test]
fn a_second_instance_leaves() {
    let reply = |a| a != DesktopAction::AcquireInstance;
    assert_eq!(
        desktop_run(Shell::App, Host::Windows, reply),
        vec![
            DesktopAction::AcquireInstance,
            DesktopAction::AnnounceRunning,
            DesktopAction::Stop(StopReason::Success),
        ]
    );
    assert_eq!(
        desktop_run(Shell::Packaged, Host::Windows, reply),
        vec![
            DesktopAction::AcquireInstance,
            DesktopAction::FocusRunning,
            DesktopAction::AnnounceRunning,
            DesktopAction::Stop(StopReason::Success),
        ]
    );
}

#[test]
fn whatever_fails_ends_the_run() {
    let last = |failing: DesktopAction| {
        let run = desktop_run(Shell::App, Host::Linux, |a| a != failing);
        assert_eq!(run[run.len() - 2], failing);
        run[run.len() - 1]
    };
    let failed = DesktopAction::Stop(StopReason::Failed);
    assert_eq!(last(DesktopAction::ReservePort(2)), failed);
    assert_eq!(last(DesktopAction::StartServices), failed);
    assert_eq!(last(DesktopAction::OpenWindow), failed);
    assert_eq!(last(DesktopAction::AwaitIon), DesktopAction::Stop(StopReason::NotReady));
}

#[test]
fn ports_go_to_their_services() {
    assert_eq!(
        assign_ports(&vec![1, 2, 3, 4, 5]),
        Some(Ports { gluon: 1, reactive: 2, pgwire: 3, ion: 4, neutrino: 5 })
    );
    assert_eq!(assign_ports(&vec![1, 2, 3, 4]), None);
    assert_eq!(assign_ports(&vec![1, 2, 3, 4, 5, 6]), None);
}

#[test]
fn an_ion_that_is_not_ready() {
    assert_eq!(
        not_ready_message(4711),
        "ION did not start within 30 seconds on port 4711"
    );
    assert_eq!(READY_TIMEOUT_NS, std::time::Duration::from_secs(30).as_nanos());
}

#[test]
fn a_connection_ends_the_wait() {
    let mut w = wait_for_tcp(4711, 1000);
    assert_eq!(w.next(0, false), WaitAction::Connect(4711));
    assert_eq!(w.next(1, false), WaitAction::Sleep(100));
    assert_eq!(w.next(999, false), WaitAction::Connect(4711));
    assert_eq!(w.next(5000, true), WaitAction::Ready);
    assert_eq!(w.next(9000, false), WaitAction::Ready);
}

#[test]
fn the_time_ends_the_wait() {
    let mut w = wait_for_tcp(4711, 1000);
    assert_eq!(w.next(0, false), WaitAction::Connect(4711));
    assert_eq!(w.next(0, false), WaitAction::Sleep(100));
    assert_eq!(w.next(1000, true), WaitAction::TimedOut);
    assert_eq!(w.next(0, true), WaitAction::TimedOut);
    assert_eq!(wait_for_tcp(4711, 0).next(0, true), WaitAction::TimedOut);
}

#[test]
fn the_wait_ends_within_its_pauses() {
    let mut w = wait_for_tcp(4711, READY_TIMEOUT_NS);
    let mut clock: u128 = 0;
    let mut rounds = 0;
    loop {
        match w.next(clock, false) {
            WaitAction::Connect(_) => rounds += 1,
            WaitAction::Sleep(ms) => clock += u128::from(ms) * 1_000_000,
            other => {
                assert_eq!(other, WaitAction::TimedOut);
                break;
            }
        }
    }
    assert_eq!(rounds, 300);
}

#[test]
fn attempts_are_bounded_by_the_time_allowed() {
    for (timeout_ms, bound) in [(0u128, 0u128), (1, 1), (100, 1), (101, 2), (250, 3), (300, 3)] {
        let mut wait = wait_for_tcp(4711, timeout_ms * 1_000_000);
        let (mut now_ns, mut attempts) = (0u128, 0u128);
        loop {
            match wait.next(now_ns, false) {
                WaitAction::Connect(_) => attempts += 1,
                WaitAction::Sleep(ms) => now_ns += ms as u128 * 1_000_000,
                WaitAction::Ready => panic!("nothing listens"),
                WaitAction::TimedOut => break,
            }
        }
        assert_eq!(attempts, bound);
    }
}

#[test]
fn only_the_shell_for_every_platform_binds_neutrino() {
    assert!(Shell::App.binds_neutrino());
    assert!(!Shell::Packaged.binds_neutrino());
}

#[test]
fn a_wait_connects_to_its_port_on_loopback() {
    let mut w = wait_for_tcp(8080, 1000);
    let action = w.next(0, false);
    assert_eq!(action, WaitAction::Connect(8080));
    assert_eq!(action.target(), Some("127.0.0.1:8080".to_string()));
    assert_eq!(w.next(0, false).target(), None);
    assert_eq!(w.next(1000, false).target(), None);
    assert_eq!(w.port, 8080);
}

#[test]
fn each_part_of_a_shell_has_its_port() {
    let ports = Ports { gluon: 1, reactive: 2, pgwire: 3, ion: 4, neutrino: 5 };
    let wait = wait_for_ion(&ports);
    assert_eq!((wait.port, wait.timeout_ns), (4, READY_TIMEOUT_NS));
    assert_eq!(wait.phase, WaitPhase::Clock);
    assert_eq!(page_url(&ports), "http://127.0.0.1:4");
    assert_eq!(neutrino_address(&ports), "127.0.0.1:5");
}

#[test]
fn the_environment_of_a_headless_run() {
    let mut env = Env::new();
    env.set(Setting::text("NEUTRINO_PHOTON__GLUON_URL", "ws://mine"));
    let in_file = vec!["ION_REACTIVE__URL".to_string()];
    let mut m = Headless::new(&exe(&["single-ion", "opt"]));
    let mut ok = true;
    loop {
        let a = m.next(ok);
        let writes = m.writes(a, &env, &in_file, "ws://g/ws");
        env.apply(&writes);
        match a {
            HeadlessAction::Spawn(_) => assert!(env.is_set("NEUTRINO_GLUON__INTERNAL_URL")),
            HeadlessAction::Stop(_) => break,
            _ => {}
        }
        ok = a != HeadlessAction::ProbeScripts;
    }
    assert!(matches!(env.get("REACTIVE_SCRIPTS_ROOT"), Some(Value::UnpackedScripts)));
    assert!(matches!(
        env.get("ION_SERVER__STATIC_DIR"),
        Some(Value::Dir(d)) if d == dir(1, Child::IonStatic)
    ));
    assert!(!env.is_set("ION_REACTIVE__URL"));
    assert_eq!(env.text_or("ION_REACTIVE__SERVICE_TOKEN", ""), "single-ion-dev-token");
    assert_eq!(env.text_or("NEUTRINO_GLUON__INTERNAL_URL", ""), "ws://g/ws");
    assert_eq!(env.text_or("NEUTRINO_PHOTON__GLUON_URL", ""), "ws://mine");
}

#[test]
fn a_headless_run_without_cfg_falls_back() {
    let cfg = HeadlessAction::Probe(dir(1, Child::Cfg));
    let mut m = Headless::new(&exe(&["single-ion", "opt"]));
    assert_eq!(m.next(true), cfg);
    let a = m.next(false);
    let mut env = Env::new();
    let writes = m.writes(a, &env, &vec![], "");
    env.apply(&writes);
    assert_eq!(env.text_or("REACTIVE_SCRIPTS_ROOT", ""), "../reactive/scripts");
}

#[test]
fn the_environment_of_a_desktop_shell() {
    let ports = Ports { gluon: 1, reactive: 2, pgwire: 3, ion: 4, neutrino: 5 };
    for (shell, user) in [(Shell::App, ""), (Shell::Packaged, "admin")] {
        let mut env = Env::new();
        env.set(Setting::text("GLUON_BIND", "0.0.0.0:9"));
        env.set(Setting::text("GLUON_STATIC_DIR", "/mine"));
        let mut m = Desktop::new(shell, Host::Windows);
        loop {
            let a = m.next(true);
            let writes = m.writes(a, &env, &ports);
            env.apply(&writes);
            if a == DesktopAction::StartServices {
                break;
            }
        }
        assert_eq!(env.text_or("GLUON_BIND", ""), "127.0.0.1:1");
        assert_eq!(env.text_or("REACTIVE__GLUON__URL", ""), "ws://127.0.0.1:1/ws");
        assert_eq!(env.text_or("ION_REACTIVE__URL", ""), "http://127.0.0.1:2");
        assert_eq!(env.text_or("REACTIVE__PGWIRE__PORT", ""), "3");
        assert_eq!(env.text_or("ION_SERVER__PORT", ""), "4");
        assert_eq!(env.text_or("NEUTRINO_BIND", ""), "127.0.0.1:5");
        assert_eq!(env.text_or("REACTIVE__SECURITY__ADMIN_USER", ""), user);
        assert_eq!(env.text_or("GLUON_STATIC_DIR", ""), "/mine");
        assert_eq!(env.text_or("ION_SERVER__STATIC_DIR", ""), "../ion/static");
    }
}

#[test]
fn folders_write_the_assets_of_the_settled_layout() {
    let mut env = Env::new();
    let mut m = init_folders(&exe(&["single-ion", "target", "repo"]));
    loop {
        let a = m.next(true);
        if a == FolderAction::Done {
            break;
        }
        let writes = m.writes(a, &env);
        env.apply(&writes);
    }
    assert!(matches!(
        env.get("REACTIVE_SCRIPTS_ROOT"),
        Some(Value::Dir(d)) if d == dir(2, Child::ReactiveScripts)
    ));
}

/// Where a run of the folders leaves the process, from `/start` and with the
/// directories of the executable as `/exe/<ancestor>`.
fn end_of_folders(names: &[&str], reply: impl Fn(FolderAction) -> bool) -> String {
    let mut m = init_folders(&exe(names));
    let mut cwd = "/start".to_string();
    let mut runtime = String::new();
    let mut ok = true;
    loop {
        let a = m.next(ok);
        ok = reply(a);
        match a {
            FolderAction::Enter(d) if ok => {
                cwd = format!("/exe/{}/{}", d.ancestor, d.child.path().unwrap_or("."));
            }
            FolderAction::ReadCurrentDir if ok => runtime = format!("{cwd}/{}", runtime_dir_name()),
            FolderAction::EnterRuntimeDir if ok => cwd = runtime.clone(),
            FolderAction::UnpackCfgFiles => return cwd,
            _ => {}
        }
    }
}

#[test]
fn folders_end_in_the_runtime_directory() {
    let dev = ["single-ion", "target", "repo"];
    let portable = ["single-ion", "opt"];
    assert_eq!(end_of_folders(&dev, |_| true), "/exe/2/single-ion/ion");
    assert_eq!(end_of_folders(&portable, |_| true), "/exe/1/./ion");
    assert_eq!(
        end_of_folders(&dev, |a| a != FolderAction::CreateRuntimeDir),
        "/exe/2/single-ion"
    );
    assert_eq!(
        end_of_folders(&portable, |a| a != FolderAction::EnterRuntimeDir),
        "/exe/1/."
    );
    assert_eq!(
        end_of_folders(&portable, |a| a != FolderAction::Probe(dir(1, Child::Cfg))),
        "/start/ion"
    );
}
