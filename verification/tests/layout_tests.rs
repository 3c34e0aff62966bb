use single_ion::layout::{find_layout, ExePath, Layout};
use std::path::Path;

fn exe(path: &str) -> ExePath {
    ExePath {
        names: Path::new(path)
            .ancestors()
            .map(|p| p.file_name().map(|n| n.to_string_lossy().into_owned()))
            .collect(),
    }
}

fn ancestor(path: &str, i: usize) -> &str {
    Path::new(path).ancestors().nth(i).unwrap().to_str().unwrap()
}

#[test]
fn a_development_build() {
    let path = "/home/me/repo/target/debug/single-ion";
    assert_eq!(exe(path).layout(), Layout::Monorepo(3));
    assert_eq!(ancestor(path, 3), "/home/me/repo");
}

#[test]
fn the_nearest_target_counts() {
    let path = "/target/repo/target/release/deps/single-ion";
    assert_eq!(exe(path).layout(), Layout::Monorepo(4));
    assert_eq!(ancestor(path, 4), "/target/repo");
}

#[test]
fn an_executable_named_target() {
    assert_eq!(exe("/opt/app/target").layout(), Layout::Portable(1));
    assert_eq!(exe("target").layout(), Layout::Portable(1));
    let path = "/repo/target/debug/target";
    assert_eq!(exe(path).layout(), Layout::Monorepo(3));
    assert_eq!(ancestor(path, 3), "/repo");
}

#[test]
fn a_portable_deployment() {
    let path = "/opt/ion/single-ion";
    assert_eq!(exe(path).layout(), Layout::Portable(1));
    assert_eq!(ancestor(path, 1), "/opt/ion");
    assert_eq!(exe("/opt/targets/single-ion").layout(), Layout::Portable(1));
}

#[test]
fn no_layout() {
    assert_eq!(exe("/").layout(), Layout::Unknown);
    assert_eq!(exe("").layout(), Layout::Unknown);
    assert_eq!(find_layout(&None), Layout::Unknown);
    assert_eq!(find_layout(&Some(exe("/a/b"))), Layout::Portable(1));
}

#[test]
fn a_target_without_a_parent() {
    let lone = ExePath { names: vec![Some("target".to_string())] };
    assert_eq!(lone.layout(), Layout::Unknown);
    let last = ExePath { names: vec![Some("x".to_string()), Some("target".to_string())] };
    assert_eq!(last.layout(), Layout::Portable(1));
}

#[test]
fn a_deployment_needs_its_cfg() {
    assert_eq!(Layout::Portable(1).require_cfg(true), Layout::Portable(1));
    assert_eq!(Layout::Portable(1).require_cfg(false), Layout::Unknown);
    assert_eq!(Layout::Monorepo(3).require_cfg(false), Layout::Monorepo(3));
    assert_eq!(Layout::Unknown.require_cfg(true), Layout::Unknown);
}

#[test]
fn at_most_one_root_is_known() {
    assert_eq!(Layout::Monorepo(3).monorepo_root(), Some(3));
    assert_eq!(Layout::Monorepo(3).deployment_root(), None);
    assert_eq!(Layout::Portable(1).monorepo_root(), None);
    assert_eq!(Layout::Portable(1).deployment_root(), Some(1));
    assert_eq!(Layout::Unknown.monorepo_root(), None);
    assert_eq!(Layout::Unknown.deployment_root(), None);
}
