use single_ion::env::{Env, Setting};
use single_ion::icon::{embeds_icon, icon_plan};
use single_ion::platform::{
    acquire_single_instance, check_linux_dependencies, dependency_report, lock_path,
    mutex_is_ours, mutex_name, required_libraries, LockAttempt, Probed,
};
use single_ion::window::{
    ends_loop, ipc_command, title, LoopEvent, WindowCommand, HEIGHT, WIDTH,
};

#[test]
fn libraries_and_their_packages() {
    let libs: Vec<(String, String)> =
        required_libraries().into_iter().map(|l| (l.soname, l.package)).collect();
    assert_eq!(
        libs,
        vec![
            ("libgtk-3.so.0".to_string(), "libgtk-3-dev".to_string()),
            ("libwebkit2gtk-4.1.so.0".to_string(), "libwebkit2gtk-4.1-dev".to_string()),
        ]
    );
}

#[test]
fn missing_packages_in_order() {
    let probed = |p: &str, loaded| Probed { package: p.to_string(), loaded };
    assert!(check_linux_dependencies(&vec![probed("a", true), probed("b", true)]).is_empty());
    assert_eq!(
        check_linux_dependencies(&vec![probed("a", false), probed("b", true), probed("c", false)]),
        vec!["a".to_string(), "c".to_string()]
    );
}

#[test]
fn the_report_of_missing_packages() {
    let report = dependency_report(&vec![
        "libgtk-3-dev".to_string(),
        "libwebkit2gtk-4.1-dev".to_string(),
    ]);
    assert_eq!(
        report,
        "\x1b[1;31merror:\x1b[0m single-ion-app requires the following system libraries:\n\n  \
         - libgtk-3-dev\n  - libwebkit2gtk-4.1-dev\n\nInstall them with:\n\n  \
         \x1b[1msudo apt install libgtk-3-dev libwebkit2gtk-4.1-dev\x1b[0m      \
         (Debian/Ubuntu)\n  \x1b[1msudo dnf install libgtk-3-devel libwebkit2gtk-4.1-devel\x1b[0m\
         \x20     (Fedora)\n\n"
    );
}

#[test]
fn the_lock_file() {
    let mut env = Env::new();
    assert_eq!(lock_path(&env), "/tmp/single-ion.lock");
    env.set(Setting::text("XDG_RUNTIME_DIR", "/run/user/1000"));
    assert_eq!(lock_path(&env), "/run/user/1000/single-ion.lock");
}

#[test]
fn the_only_instance() {
    assert!(acquire_single_instance(LockAttempt::NoFile));
    assert!(acquire_single_instance(LockAttempt::Locked(0)));
    assert!(!acquire_single_instance(LockAttempt::Locked(-1)));
    assert!(mutex_is_ours(0));
    assert!(!mutex_is_ours(183));
}

#[test]
fn the_name_of_the_mutex() {
    let expected: Vec<u16> = "Global\\single-ion\0".encode_utf16().collect();
    assert_eq!(mutex_name(), expected);
}

#[test]
fn messages_from_the_page() {
    assert_eq!(ipc_command("toggle-fullscreen", false), WindowCommand::EnterFullscreen);
    assert_eq!(ipc_command("toggle-fullscreen", true), WindowCommand::LeaveFullscreen);
    assert_eq!(ipc_command("quit", false), WindowCommand::Quit);
    assert_eq!(ipc_command("quit", true), WindowCommand::Quit);
}

#[test]
fn escape_only_leaves_fullscreen() {
    assert_eq!(ipc_command("escape", true), WindowCommand::LeaveFullscreen);
    assert_eq!(ipc_command("escape", false), WindowCommand::Nothing);
}

#[test]
fn unknown_messages_do_nothing() {
    for message in ["", "Quit", "quit ", "resize"] {
        assert_eq!(ipc_command(message, true), WindowCommand::Nothing);
    }
}

#[test]
fn the_event_loop_ends() {
    assert!(ends_loop(LoopEvent::CloseRequested));
    assert!(ends_loop(LoopEvent::QuitRequested));
    assert!(!ends_loop(LoopEvent::Other));
    assert_eq!((title(), WIDTH, HEIGHT), ("single-ion", 1400, 900));
}

#[test]
fn the_icon_of_a_windows_build() {
    let mut env = Env::new();
    assert!(!embeds_icon(&env));
    env.set(Setting::text("CARGO_CFG_WINDOWS", ""));
    assert!(embeds_icon(&env));
    let plan = icon_plan("/src/single-ion", "/out");
    assert_eq!(plan.png, "/src/single-ion/../ion/art/ion_logo.png");
    assert_eq!(plan.ico, "/out/ion.ico");
    assert_eq!(
        plan.rerun,
        "cargo:rerun-if-changed=/src/single-ion/../ion/art/ion_logo.png"
    );
    assert_eq!(plan.sizes, vec![16, 32, 48, 256]);
}
