use nvm_core::arch::validate;
use nvm_core::fetch::{default_node_mirror, default_npm_mirror, normalize_mirror};
use nvm_core::index::{is_version_available, Release};
use nvm_core::inventory::{is_version_installed, record_install, record_uninstall, Inventory};
use nvm_core::paths::join;
use nvm_core::resolve::{resolve, ArchMode, Snapshot};
use nvm_core::version::Version;

fn release(v: Version, lts: bool) -> Release {
    Release {
        version: v,
        npm: String::from("6.14.17"),
        date: String::from("2021-02-23"),
        files: vec![String::from("win-x64")],
        modules: 83,
        lts,
        security: false,
    }
}

#[test]
fn main_test() {
    let path = join("/path/to/some/", vec!["a", "b"]);
    println!("{}", path);
    assert_eq!(path, "/path/to/some/a/b");
}

#[test]
fn test_validate() {
    let res = validate("", "x86_64");
    assert_eq!(res, "64");
}

#[test]
fn test_set_mirrors() {
    let node = normalize_mirror("a.com", default_node_mirror());
    let npm = normalize_mirror("b.com", default_npm_mirror());
    println!("{:?} {:?}", node, npm);
    assert_eq!(node, "http://a.com/");
    assert_eq!(npm, "http://b.com/");
}

#[test]
fn test_is_version_available() {
    let index = vec![
        release(Version::new(14, 16, 0), true),
        release(Version::new(14, 15, 5), true),
    ];
    assert_eq!(is_version_available(&index, &Version::new(14, 16, 0)), true);
}

#[test]
fn test_get_version() {
    let snap = Snapshot { releases: vec![], latest: None, installed: vec![], current: None };
    let res = resolve("14.16.0", "64", "x86_64", false, &snap).unwrap();
    println!("version:{:?},cpu:{:?}", res.version, res.arch);
    assert_eq!(res.version, Version::new(14, 16, 0));
    assert_eq!(res.arch, ArchMode::A64);
}

#[test]
fn test_install() {
    let mut inv = Inventory { dirs: vec![], active: None };
    record_install(&mut inv, Version::new(18, 20, 1), ArchMode::A64);
    assert!(is_version_installed(&inv, &Version::new(18, 20, 1), ArchMode::A64));
}

#[test]
fn test_uninstall() {
    let mut inv = Inventory { dirs: vec![], active: None };
    record_install(&mut inv, Version::new(18, 20, 1), ArchMode::A64);
    record_uninstall(&mut inv, &Version::new(18, 20, 1));
    assert!(!is_version_installed(&inv, &Version::new(18, 20, 1), ArchMode::All));
    assert!(inv.dirs.is_empty());
}
