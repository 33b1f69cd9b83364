use nvm_core::activate::{
    act_step, activate, classify_link_error, is_access_denied, link_retry, ActEvent, ActPhase,
    ActivateError, LinkFailure, LinkRetry,
};
use nvm_core::arch::{arch_map, bit, executable_width, validate};
use nvm_core::current::{parse_reported_version, width_from_process_arch};
use nvm_core::daemon::{classify_response, encode_request, handle_request, HelperAction, PathKind};
use nvm_core::elevate::{fallback_command_args, primary_command_args};
use nvm_core::fetch::{
    classify_download, classify_proxy, default_node_mirror, get_full_node_url, get_node_pre,
    get_node_url, is_node64_bid_available, node_fetch_plan, normalize_mirror, npm_fetch_plan,
    uses_modern_path, FetchStep, ProxyPlan,
};
use nvm_core::index::{
    get_lts, get_npm_version, max_version, sort_versions_desc, versions_in, Category, Release,
};
use nvm_core::install::{
    check_version_exceeds_latest, install_step, needs_deactivation, npm_relocation, plan_install,
    relocation_backoff, InstallDecision, InstallState,
};
use nvm_core::inventory::{
    is_version_installed, record_install, record_uninstall, Inventory, VersionDir,
};
use nvm_core::listing::{available_rows, index_of_version, list_installed, pick_enable_dir};
use nvm_core::manifest::get_latest;
use nvm_core::paths::{clean, entry_dest_path, join, split_all};
use nvm_core::resolve::{resolve, ArchMode, ResolveError, Snapshot};
use nvm_core::settings::{lookup, parse_settings, settings_content, Settings};
use nvm_core::strings::{contains_any, replace_env_vars, str_contains, trim};
use nvm_core::version::{
    clean_version, parse_numeric_token, strip_leading_nondigits, u64_to_string, version_to_string,
    ParsedToken, Version,
};

fn release(v: Version, lts: bool, security: bool, npm: &str) -> Release {
    Release {
        version: v,
        npm: String::from(npm),
        date: String::from("2024-04-03"),
        files: vec![String::from("win-x64")],
        modules: 115,
        lts,
        security,
    }
}

fn empty_snapshot() -> Snapshot {
    Snapshot { releases: vec![], latest: None, installed: vec![], current: None }
}

// ---------------------------------------------------------------- versions
#[test]
fn parses_full_partial_and_single_tokens() {
    assert_eq!(parse_numeric_token("18.20.1"), ParsedToken::Full(Version::new(18, 20, 1)));
    assert_eq!(parse_numeric_token("18.20"), ParsedToken::Pair(18, 20));
    assert_eq!(parse_numeric_token("18"), ParsedToken::Single(18));
    assert_eq!(parse_numeric_token("1.2.3.4"), ParsedToken::Invalid);
    assert_eq!(parse_numeric_token(""), ParsedToken::Invalid);
    assert_eq!(parse_numeric_token("a.b.c"), ParsedToken::Invalid);
    assert_eq!(parse_numeric_token("18."), ParsedToken::Invalid);
    assert_eq!(parse_numeric_token("99999999999999999999"), ParsedToken::Invalid);
}

#[test]
fn strips_leading_version_marker() {
    assert_eq!(strip_leading_nondigits("v18.20.1"), "18.20.1");
    assert_eq!(strip_leading_nondigits("18"), "18");
    assert_eq!(strip_leading_nondigits("abc"), "");
}

#[test]
fn renders_versions_in_decimal() {
    assert_eq!(u64_to_string(0), "0");
    assert_eq!(u64_to_string(407), "407");
    assert_eq!(version_to_string(&Version::new(18, 20, 1)), "18.20.1");
}

#[test]
fn zero_fills_partial_versions() {
    assert_eq!(clean_version(ParsedToken::Pair(18, 20)), Some(Version::new(18, 20, 0)));
    assert_eq!(clean_version(ParsedToken::Single(18)), Some(Version::new(18, 0, 0)));
    assert_eq!(clean_version(ParsedToken::Invalid), None);
}

// ---------------------------------------------------------------- resolve
#[test]
fn full_token_resolves_without_any_snapshot_data() {
    // A complete three-component token needs no index, manifest, or local
    // state at all.
    let snap = empty_snapshot();
    let res = resolve("18.20.1", "", "x86_64", false, &snap).unwrap();
    assert_eq!(res.version, Version::new(18, 20, 1));
    assert_eq!(res.arch, ArchMode::A64);
    let res = resolve("v18.20.1", "32", "x86_64", false, &snap).unwrap();
    assert_eq!(res.version, Version::new(18, 20, 1));
    assert_eq!(res.arch, ArchMode::A32);
}

#[test]
fn partial_token_picks_highest_matching_release() {
    let snap = Snapshot {
        releases: vec![
            release(Version::new(18, 20, 3), true, false, "10.7.0"),
            release(Version::new(18, 20, 1), true, false, "10.5.0"),
            release(Version::new(18, 19, 0), true, false, "10.2.3"),
            release(Version::new(17, 9, 1), false, false, "8.11.0"),
        ],
        latest: None,
        installed: vec![],
        current: None,
    };
    let res = resolve("18.20", "64", "x86_64", false, &snap).unwrap();
    assert_eq!(res.version, Version::new(18, 20, 3));
    let res = resolve("18", "64", "x86_64", false, &snap).unwrap();
    assert_eq!(res.version, Version::new(18, 20, 3));
    assert_eq!(
        resolve("19.1", "64", "x86_64", false, &snap),
        Err(ResolveError::Unrecognized)
    );
}

#[test]
fn latest_and_node_aliases_agree() {
    let mut snap = empty_snapshot();
    snap.latest = Some(Version::new(22, 3, 0));
    let a = resolve("latest", "64", "x86_64", false, &snap);
    let b = resolve("node", "64", "x86_64", false, &snap);
    assert_eq!(a, b);
    assert_eq!(a.unwrap().version, Version::new(22, 3, 0));
    let c = resolve("LATEST", "64", "x86_64", false, &snap);
    assert_eq!(a, c);
}

#[test]
fn lts_alias_picks_newest_lts_record() {
    // A one-record index whose record is marked with an lts release name.
    let snap = Snapshot {
        releases: vec![release(Version::new(18, 20, 1), true, true, "10.5.0")],
        latest: None,
        installed: vec![],
        current: None,
    };
    let res = resolve("lts", "64", "x86_64", false, &snap).unwrap();
    assert_eq!(res.version, Version::new(18, 20, 1));
}

#[test]
fn newest_alias_picks_highest_installed() {
    let mut snap = empty_snapshot();
    snap.installed = vec![Version::new(16, 1, 0), Version::new(18, 2, 0), Version::new(17, 9, 9)];
    let res = resolve("newest", "64", "x86_64", false, &snap).unwrap();
    assert_eq!(res.version, Version::new(18, 2, 0));
}

#[test]
fn width_tokens_keep_current_version() {
    let mut snap = empty_snapshot();
    snap.current = Some(Version::new(18, 20, 1));
    let res = resolve("32", "64", "x86_64", false, &snap).unwrap();
    assert_eq!(res.version, Version::new(18, 20, 1));
    assert_eq!(res.arch, ArchMode::A32);
}

#[test]
fn resolve_reports_each_missing_datum() {
    let snap = empty_snapshot();
    assert_eq!(resolve("18.20.1", "128", "x86_64", false, &snap), Err(ResolveError::BadArch));
    assert_eq!(resolve("", "64", "x86_64", false, &snap), Err(ResolveError::EmptyVersion));
    assert_eq!(resolve("latest", "64", "x86_64", false, &snap), Err(ResolveError::NoLatest));
    assert_eq!(resolve("lts", "64", "x86_64", false, &snap), Err(ResolveError::NoLts));
    assert_eq!(resolve("newest", "64", "x86_64", false, &snap), Err(ResolveError::NoneInstalled));
    assert_eq!(resolve("64", "64", "x86_64", false, &snap), Err(ResolveError::NoCurrent));
    assert_eq!(resolve("nonsense", "64", "x86_64", false, &snap), Err(ResolveError::Unrecognized));
}

#[test]
fn local_only_resolution_stays_local() {
    let mut snap = Snapshot {
        releases: vec![release(Version::new(18, 20, 3), true, false, "10.7.0")],
        latest: None,
        installed: vec![Version::new(18, 20, 1)],
        current: None,
    };
    let res = resolve("18.20", "64", "x86_64", true, &snap).unwrap();
    assert_eq!(res.version, Version::new(18, 20, 1));
    snap.installed.clear();
    assert_eq!(resolve("18.20", "64", "x86_64", true, &snap), Err(ResolveError::Unrecognized));
}

// ---------------------------------------------------------------- index
#[test]
fn categorizes_releases() {
    let index = vec![
        release(Version::new(22, 3, 0), false, false, "10.8.1"),
        release(Version::new(18, 20, 1), true, true, "10.5.0"),
        release(Version::new(0, 12, 18), false, false, "2.15.11"),
        release(Version::new(0, 11, 16), false, false, "2.11.3"),
    ];
    let all = versions_in(&index, Category::All);
    assert_eq!(all.len(), 4);
    assert_eq!(versions_in(&index, Category::Lts), vec![Version::new(18, 20, 1)]);
    assert_eq!(versions_in(&index, Category::Current), vec![Version::new(22, 3, 0)]);
    assert_eq!(versions_in(&index, Category::Stable), vec![Version::new(0, 12, 18)]);
    assert_eq!(versions_in(&index, Category::Unstable), vec![Version::new(0, 11, 16)]);
    assert_eq!(get_lts(&index), Some(Version::new(18, 20, 1)));
    assert_eq!(
        get_npm_version(&index, &Version::new(18, 20, 1)).unwrap(),
        String::from("10.5.0")
    );
    assert_eq!(get_npm_version(&index, &Version::new(9, 9, 9)), None);
}

#[test]
fn sorts_versions_descending() {
    let vs = vec![
        Version::new(1, 2, 3),
        Version::new(10, 0, 0),
        Version::new(1, 10, 0),
        Version::new(1, 2, 3),
    ];
    let sorted = sort_versions_desc(vs);
    assert_eq!(
        sorted,
        vec![
            Version::new(10, 0, 0),
            Version::new(1, 10, 0),
            Version::new(1, 2, 3),
            Version::new(1, 2, 3),
        ]
    );
    assert_eq!(max_version(&sorted), Some(Version::new(10, 0, 0)));
}

// ---------------------------------------------------------------- daemon
#[test]
fn daemon_creates_missing_directory_then_reports_exists() {
    let d = handle_request("CREATE_DIR /tmp/x", PathKind::Missing);
    assert_eq!(d.response, "CREATE_DIR_YES");
    assert_eq!(d.action, HelperAction::CreateDirAll);
    assert_eq!(d.request.path, "/tmp/x");
    // The identical request once the directory exists.
    let d = handle_request("CREATE_DIR /tmp/x", PathKind::Dir);
    assert_eq!(d.response, "CREATE_DIR_EXISTS");
    assert_eq!(d.action, HelperAction::NoAct);
}

#[test]
fn daemon_refuses_deleting_missing_file() {
    let d = handle_request("DELETE_FILE /tmp/missing", PathKind::Missing);
    assert_eq!(d.response, "DELETE_FILE_NO");
    assert_eq!(d.action, HelperAction::NoAct);
}

#[test]
fn daemon_handles_remaining_commands() {
    let d = handle_request("DELETE_DIR /tmp/x", PathKind::Dir);
    assert_eq!(d.response, "DELETE_DIR_YES");
    assert_eq!(d.action, HelperAction::RemoveDirAll);
    let d = handle_request("DELETE_DIR /tmp/x", PathKind::File);
    assert_eq!(d.response, "DELETE_DIR_NO");
    let d = handle_request("CREATE_SYMLINK_DIR /tmp/link /tmp/target", PathKind::Missing);
    assert_eq!(d.response, "CREATE_SYMLINK_DIR_YES");
    assert_eq!(d.action, HelperAction::SymlinkDir);
    assert_eq!(d.request.target, "/tmp/target");
    let d = handle_request("CREATE_SYMLINK_DIR /tmp/link", PathKind::Missing);
    assert_eq!(d.response, "CREATE_SYMLINK_DIR_NO");
    let d = handle_request("CREATE_SYMLINK_FILE /tmp/f /tmp/t", PathKind::File);
    assert_eq!(d.response, "CREATE_SYMLINK_FILE_EXISTS");
    let d = handle_request("DELETE_FILE /tmp/f", PathKind::File);
    assert_eq!(d.response, "DELETE_FILE_YES");
    assert_eq!(d.action, HelperAction::RemoveFile);
    let d = handle_request("FROBNICATE /tmp/f", PathKind::File);
    assert_eq!(d.response, "Unknown command");
    assert_eq!(d.action, HelperAction::NoAct);
}

#[test]
fn client_encodes_and_classifies() {
    assert_eq!(encode_request("CREATE_DIR", "/tmp/x", None), "CREATE_DIR /tmp/x");
    assert_eq!(
        encode_request("CREATE_SYMLINK_DIR", "/l", Some("/t")),
        "CREATE_SYMLINK_DIR /l /t"
    );
    assert_eq!(
        classify_response("CREATE_DIR", String::from("CREATE_DIR_YES")),
        Ok(true)
    );
    assert_eq!(
        classify_response("CREATE_DIR", String::from("CREATE_DIR_EXISTS")),
        Err(String::from("CREATE_DIR_EXISTS"))
    );
    // Wire round trip: what the client sends, the daemon reads back.
    let line = encode_request("DELETE_DIR", "/tmp/x", None);
    let d = handle_request(line.as_str(), PathKind::Dir);
    assert_eq!(classify_response("DELETE_DIR", d.response), Ok(true));
}

// ---------------------------------------------------------------- fetch
#[test]
fn self_redirect_reports_failure() {
    let url = "https://example.org/dist/node.zip";
    match classify_download(300, Some(url), url) {
        FetchStep::Fail => {},
        _ => panic!("a self-redirect must fail"),
    }
}

#[test]
fn legacy_shim_substitutes_once_then_fails() {
    let url = "https://example.org/npm/cli/archive/v6.14.17.zip";
    let replaced = match classify_download(300, Some(url), url) {
        FetchStep::Redirect(u) => u,
        _ => panic!("the legacy target must be substituted"),
    };
    assert_eq!(replaced, "https://github.com/npm/cli/archive/refs/tags/v6.14.17.zip");
    match classify_download(300, Some(replaced.as_str()), replaced.as_str()) {
        FetchStep::Fail => {},
        _ => panic!("the substituted URL must not loop"),
    }
}

#[test]
fn download_classification_by_status() {
    let url = "https://example.org/a";
    match classify_download(418, None, url) {
        FetchStep::Keep => {},
        _ => panic!("no location header keeps the body"),
    }
    match classify_download(307, Some("https://example.org/b"), url) {
        FetchStep::Redirect(u) => assert_eq!(u, "https://example.org/b"),
        _ => panic!("temporary redirects are followed"),
    }
    match classify_download(302, Some("https://example.org/b"), url) {
        FetchStep::Keep => {},
        _ => panic!("found keeps the body"),
    }
    match classify_download(300, Some("https://example.org/b"), url) {
        FetchStep::Redirect(u) => assert_eq!(u, "https://example.org/b"),
        _ => panic!("multiple choices follows a differing location"),
    }
    match classify_download(403, Some("https://example.org/b"), url) {
        FetchStep::FailCleanup => {},
        _ => panic!("other statuses with a location fail and clean up"),
    }
}

#[test]
fn builds_download_urls() {
    let base = default_node_mirror();
    assert_eq!(get_full_node_url(base, "index.json"), "https://nodejs.org/dist/index.json");
    assert_eq!(get_node_pre("linux", "x64", 18), "linux-x64");
    assert_eq!(get_node_pre("linux", "x64", 0), "");
    assert!(uses_modern_path(&Version::new(16, 9, 0)));
    assert!(!uses_modern_path(&Version::new(16, 8, 9)));
    let url = get_node_url(base, &Version::new(18, 20, 1), "linux-x64", ".tar.gz", false, false);
    assert_eq!(url, "https://nodejs.org/dist/v18.20.1/node-v18.20.1-linux-x64.tar.gz");
    let url = get_node_url(base, &Version::new(4, 9, 1), "win-x64", ".zip", false, true);
    assert_eq!(url, "https://nodejs.org/dist/v4.9.1/win-x64/node.exe");
    let url = get_node_url(base, &Version::new(4, 9, 1), "linux-x64", ".tar.gz", false, false);
    assert_eq!(url, "");
}

#[test]
fn plans_fetch_destinations() {
    let plan = node_fetch_plan(
        "/opt/versions",
        &Version::new(18, 20, 1),
        "64",
        String::from("https://nodejs.org/dist/v18.20.1/node-v18.20.1-linux-x64.tar.gz"),
    );
    assert_eq!(plan.dest, "/opt/versions/v18.20.1/node.tar.gz");
    assert!(plan.extract);
    assert!(plan.strip_top);
    let plan = node_fetch_plan(
        "/opt/versions",
        &Version::new(4, 9, 1),
        "64",
        String::from("https://nodejs.org/dist/v4.9.1/win-x64/node.exe"),
    );
    assert_eq!(plan.dest, "/opt/versions/v4.9.1/node64");
    assert!(!plan.extract);
    let npm = npm_fetch_plan("https://github.com/npm/cli/archive/", "/opt/versions", "10.5.0", ".tar.gz");
    assert_eq!(npm.url, "https://github.com/npm/cli/archive/v10.5.0.tar.gz");
    assert_eq!(npm.temp_dir, "/opt/versions/temp");
    assert_eq!(npm.archive, "/opt/versions/temp/npm-v10.5.0.tar.gz");
}

#[test]
fn normalizes_mirrors_and_proxies() {
    let def = default_node_mirror();
    assert_eq!(normalize_mirror("", def), def);
    assert_eq!(normalize_mirror("none", def), def);
    assert_eq!(normalize_mirror("mirror.example.org", def), "http://mirror.example.org/");
    assert_eq!(normalize_mirror("https://m.example.org/dist/", def), "https://m.example.org/dist/");
    assert_eq!(normalize_mirror("HTTP://m.example.org", def), "HTTP://m.example.org/");
    assert_eq!(classify_proxy(""), ProxyPlan::NoProxy);
    assert_eq!(classify_proxy("none"), ProxyPlan::NoProxy);
    assert_eq!(classify_proxy("http://p:3128"), ProxyPlan::Http);
    assert_eq!(classify_proxy("https://p:3128"), ProxyPlan::Https);
}

#[test]
fn width_availability_by_line() {
    assert!(!is_node64_bid_available(&Version::new(0, 7, 12)));
    assert!(is_node64_bid_available(&Version::new(0, 8, 0)));
    assert!(is_node64_bid_available(&Version::new(18, 20, 1)));
}

// ---------------------------------------------------------------- install
#[test]
fn install_prechecks_in_order() {
    let index = vec![release(Version::new(18, 20, 1), true, false, "10.5.0")];
    let latest = Version::new(22, 3, 0);
    let inv = Inventory { dirs: vec![], active: None };
    match plan_install(&inv, &index, Some(&latest), &Version::new(23, 0, 0), ArchMode::A64) {
        InstallDecision::NotYetReleased => {},
        _ => panic!("a version beyond the newest release is refused"),
    }
    match plan_install(&inv, &index, Some(&latest), &Version::new(0, 6, 2), ArchMode::A64) {
        InstallDecision::Only32Bit => {},
        _ => panic!("the 0.6 line has no 64-bit build"),
    }
    match plan_install(&inv, &index, Some(&latest), &Version::new(18, 19, 0), ArchMode::A64) {
        InstallDecision::NotInIndex => {},
        _ => panic!("a version the index does not offer is refused"),
    }
    match plan_install(&inv, &index, Some(&latest), &Version::new(18, 20, 1), ArchMode::A64) {
        InstallDecision::Proceed { fetch32, fetch64, append32, append64 } => {
            assert!(!fetch32);
            assert!(fetch64);
            assert!(!append32);
            assert!(!append64);
        },
        _ => panic!("a fresh install proceeds"),
    }
    let mut inv = inv;
    record_install(&mut inv, Version::new(18, 20, 1), ArchMode::A64);
    match plan_install(&inv, &index, Some(&latest), &Version::new(18, 20, 1), ArchMode::A64) {
        InstallDecision::AlreadyInstalled => {},
        _ => panic!("an installed version is reported as such"),
    }
    match plan_install(&inv, &index, Some(&latest), &Version::new(18, 20, 1), ArchMode::A32) {
        InstallDecision::Proceed { fetch32, fetch64, append32, append64 } => {
            assert!(fetch32);
            assert!(!fetch64);
            assert!(append32);
            assert!(!append64);
        },
        _ => panic!("the missing width is still fetched"),
    }
}

#[test]
fn install_round_trip_on_inventory() {
    let mut inv = Inventory {
        dirs: vec![VersionDir {
            version: Version::new(16, 1, 0),
            node32: true,
            node64: false,
            node_plain: false,
            plain_known: false,
            plain_is_64: false,
            npm: true,
        }],
        active: None,
    };
    let v = Version::new(18, 20, 1);
    record_install(&mut inv, v, ArchMode::A64);
    assert!(is_version_installed(&inv, &v, ArchMode::A64));
    record_uninstall(&mut inv, &v);
    assert!(!is_version_installed(&inv, &v, ArchMode::All));
    assert!(!is_version_installed(&inv, &v, ArchMode::A32));
    assert!(!is_version_installed(&inv, &v, ArchMode::A64));
    assert_eq!(inv.dirs.len(), 1);
    // The unrelated version is untouched.
    assert!(is_version_installed(&inv, &Version::new(16, 1, 0), ArchMode::A32));
}

#[test]
fn uninstall_deactivates_the_active_version() {
    let mut inv = Inventory { dirs: vec![], active: None };
    let v = Version::new(18, 20, 1);
    record_install(&mut inv, v, ArchMode::All);
    inv.active = Some(v);
    assert!(needs_deactivation(&inv, &v));
    assert!(!needs_deactivation(&inv, &Version::new(1, 0, 0)));
    record_uninstall(&mut inv, &v);
    assert_eq!(inv.active, None);
}

#[test]
fn install_state_machine_walks_to_complete() {
    let mut s = InstallState::Requested;
    for _ in 0..6 {
        s = install_step(s, true);
    }
    assert_eq!(s, InstallState::Complete);
    assert_eq!(install_step(s, false), InstallState::Complete);
    let failed = install_step(InstallState::FetchingRuntime, false);
    assert_eq!(failed, InstallState::Failed);
    assert_eq!(install_step(failed, true), InstallState::Failed);
}

#[test]
fn relocation_backoff_schedule() {
    assert_eq!(relocation_backoff(0), Some(1));
    assert_eq!(relocation_backoff(1), Some(2));
    assert_eq!(relocation_backoff(2), Some(3));
    assert_eq!(relocation_backoff(3), Some(8));
    assert_eq!(relocation_backoff(4), Some(16));
    assert_eq!(relocation_backoff(5), None);
}

#[test]
fn npm_relocation_paths() {
    let r = npm_relocation("/opt/versions", &Version::new(18, 20, 1), "10.5.0");
    assert_eq!(r.unpack_dir, "/opt/versions/temp/nvm-npm");
    assert_eq!(r.bin_primary, "/opt/versions/temp/nvm-npm/cli-10.5.0/bin");
    assert_eq!(r.bin_fallback, "/opt/versions/temp/nvm-npm/npm-10.5.0/bin");
    assert_eq!(r.source_primary, "/opt/versions/temp/nvm-npm/npm-10.5.0");
    assert_eq!(r.source_fallback, "/opt/versions/temp/nvm-npm/cli-10.5.0");
    assert_eq!(r.target, "/opt/versions/v18.20.1/node_modules/npm");
}

#[test]
fn version_exceeds_latest_componentwise() {
    let latest = Version::new(22, 3, 0);
    assert!(check_version_exceeds_latest(&Version::new(23, 0, 0), &latest));
    assert!(check_version_exceeds_latest(&Version::new(22, 3, 1), &latest));
    assert!(!check_version_exceeds_latest(&Version::new(22, 3, 0), &latest));
    assert!(!check_version_exceeds_latest(&Version::new(21, 9, 9), &latest));
}

// ---------------------------------------------------------------- activate
#[test]
fn activating_missing_width_suggests_the_other() {
    let mut inv = Inventory { dirs: vec![], active: None };
    let v = Version::new(18, 20, 1);
    record_install(&mut inv, v, ArchMode::A32);
    let r = activate(&mut inv, &v, ArchMode::A64);
    assert_eq!(r, Err(ActivateError::NotInstalled { alternate: true }));
    assert_eq!(inv.active, None);
    let r = activate(&mut inv, &Version::new(9, 9, 9), ArchMode::A64);
    assert_eq!(r, Err(ActivateError::NotInstalled { alternate: false }));
}

#[test]
fn activation_is_idempotent_safe() {
    let mut inv = Inventory { dirs: vec![], active: None };
    let v = Version::new(18, 20, 1);
    record_install(&mut inv, v, ArchMode::A64);
    assert_eq!(activate(&mut inv, &v, ArchMode::A64), Ok(()));
    assert_eq!(inv.active, Some(v));
    let dirs_after_first = inv.dirs.clone();
    // Activating the already-active version: still one link, same target,
    // directories unchanged.
    assert_eq!(activate(&mut inv, &v, ArchMode::A64), Ok(()));
    assert_eq!(inv.active, Some(v));
    assert_eq!(inv.dirs, dirs_after_first);
    assert!(is_version_installed(&inv, &v, ArchMode::A64));
}

#[test]
fn activation_renames_widths() {
    let mut inv = Inventory {
        dirs: vec![VersionDir {
            version: Version::new(18, 20, 1),
            node32: true,
            node64: true,
            node_plain: false,
            plain_known: false,
            plain_is_64: false,
            npm: true,
        }],
        active: None,
    };
    let v = Version::new(18, 20, 1);
    assert_eq!(activate(&mut inv, &v, ArchMode::A32), Ok(()));
    let d = inv.dirs[0];
    assert!(d.node_plain && d.plain_known && !d.plain_is_64);
    assert!(!d.node32);
    // Both widths still count as installed after the renaming.
    assert!(is_version_installed(&inv, &v, ArchMode::A32));
    assert!(is_version_installed(&inv, &v, ArchMode::A64));
}

#[test]
fn link_failures_classified_and_retried_once() {
    assert_eq!(
        classify_link_error("You do not have sufficient privilege to perform this operation."),
        LinkFailure::Privilege
    );
    assert_eq!(classify_link_error("Access is denied."), LinkFailure::Privilege);
    assert_eq!(
        classify_link_error("Cannot create a file when that file already exists."),
        LinkFailure::AlreadyExists
    );
    assert_eq!(classify_link_error("disk on fire"), LinkFailure::Other);
    assert!(is_access_denied("ACCESS IS DENIED"));
    assert!(!is_access_denied("permission granted"));
    assert_eq!(link_retry(LinkFailure::Privilege, true), LinkRetry::RetryElevated);
    assert_eq!(link_retry(LinkFailure::Privilege, false), LinkRetry::Abort);
    assert_eq!(link_retry(LinkFailure::AlreadyExists, true), LinkRetry::RemoveAndRestart);
    assert_eq!(link_retry(LinkFailure::AlreadyExists, false), LinkRetry::Abort);
    assert_eq!(link_retry(LinkFailure::Other, true), LinkRetry::Abort);
}

#[test]
fn activation_phases_advance_and_fail() {
    let mut p = ActPhase::Idle;
    p = act_step(p, ActEvent::Begin);
    assert_eq!(p, ActPhase::LinkRemoving);
    p = act_step(p, ActEvent::LinkRemoved);
    assert_eq!(p, ActPhase::LinkCreating);
    p = act_step(p, ActEvent::CreateFailedRetryable);
    assert_eq!(p, ActPhase::Retrying);
    p = act_step(p, ActEvent::RetrySucceeded);
    assert_eq!(p, ActPhase::Renaming);
    p = act_step(p, ActEvent::Renamed);
    assert_eq!(p, ActPhase::Done);
    assert_eq!(act_step(ActPhase::LinkCreating, ActEvent::Fail), ActPhase::Failed);
    assert_eq!(act_step(ActPhase::Failed, ActEvent::Begin), ActPhase::Failed);
}

// ---------------------------------------------------------------- manifest
#[test]
fn extracts_latest_from_checksums() {
    let content = "aaaa  node-v22.3.0-x64.msi\nbbbb  node-v22.3.0-x86.msi\n";
    assert_eq!(get_latest(content), Some(Version::new(22, 3, 0)));
    assert_eq!(get_latest("no artifacts here"), None);
}

// ---------------------------------------------------------------- paths
#[test]
fn joins_and_cleans_paths() {
    assert_eq!(join("/root", vec!["v18.20.1", "node.exe"]), "/root/v18.20.1/node.exe");
    assert_eq!(join("/root/", vec!["a"]), "/root/a");
    assert_eq!(join("/root", vec!["/abs"]), "/abs");
    assert_eq!(join("", vec!["a"]), "a");
    assert_eq!(clean("/a/./b/../c"), "/a/c");
    assert_eq!(clean("a//b///c"), "a/b/c");
    assert_eq!(clean("/.."), "/");
    assert_eq!(clean("a/.."), "");
    assert_eq!(split_all("a:b::c", ':'), vec!["a", "b", "", "c"]);
}

#[test]
fn archive_entries_land_under_destination() {
    assert_eq!(entry_dest_path("/dest", "top/bin/node", true), "/dest/bin/node");
    assert_eq!(entry_dest_path("/dest", "top/bin/node", false), "/dest/top/bin/node");
}

// ---------------------------------------------------------------- arch
#[test]
fn reads_executable_width_from_headers() {
    let elf64 = minimal_elf(true);
    let elf32 = minimal_elf(false);
    assert_eq!(bit(&elf64), "64");
    assert_eq!(bit(&elf32), "32");
    assert_eq!(bit(&vec![0u8; 16]), "?");
    assert_eq!(executable_width(&elf64), (true, true));
    assert_eq!(executable_width(&vec![]), (false, false));
}

fn minimal_elf(is64: bool) -> Vec<u8> {
    // The smallest header goblin accepts: magic, class, little-endian,
    // current version, no program or section headers.
    let mut b = vec![0u8; if is64 { 64 } else { 52 }];
    b[0] = 0x7f;
    b[1] = b'E';
    b[2] = b'L';
    b[3] = b'F';
    b[4] = if is64 { 2 } else { 1 };
    b[5] = 1;
    b[6] = 1;
    b[16] = 2; // executable
    b[18] = if is64 { 0x3e } else { 0x03 };
    b[20] = 1;
    if is64 {
        b[52] = 64; // e_ehsize
    } else {
        b[40] = 52;
    }
    b
}

#[test]
fn maps_and_validates_architectures() {
    assert_eq!(arch_map("x86_64"), "x64");
    assert_eq!(arch_map("aarch64"), "arm64");
    assert_eq!(arch_map("s390x"), "?");
    assert_eq!(validate("x86_64", ""), "64");
    assert_eq!(validate("32", "x86_64"), "32");
    assert_eq!(validate("", "i686"), "32");
}

// ---------------------------------------------------------------- current
#[test]
fn parses_runtime_version_reports() {
    assert_eq!(parse_reported_version("v18.20.1\r\n"), Some(Version::new(18, 20, 1)));
    assert_eq!(parse_reported_version("v21.0.0-pre\n"), Some(Version::new(21, 0, 0)));
    assert_eq!(parse_reported_version("Unknown"), None);
    assert_eq!(width_from_process_arch("x64"), "64");
    assert_eq!(width_from_process_arch("ia32"), "32");
}

// ---------------------------------------------------------------- strings
#[test]
fn string_utilities() {
    assert!(contains_any("node32.exe", "123"));
    assert!(!contains_any("node.exe", "123"));
    assert!(str_contains("access is denied by policy", "denied"));
    assert!(!str_contains("fine", "denied"));
    assert_eq!(trim("  a b\r\n"), "a b");
}

#[test]
fn substitutes_variable_placeholders() {
    let vars = vec![
        (String::from("HOME"), String::from("/home/u")),
        (String::from("NVM_HOME"), String::from("/opt/versions")),
    ];
    assert_eq!(replace_env_vars("${NVM_HOME}/temp", &vars), "/opt/versions/temp");
    assert_eq!(replace_env_vars("$HOME/bin", &vars), "/home/u/bin");
    assert_eq!(replace_env_vars("$MISSING/bin", &vars), "/bin");
    assert_eq!(replace_env_vars("no markers", &vars), "no markers");
    assert_eq!(replace_env_vars("a $ b", &vars), "a $ b");
    assert_eq!(replace_env_vars("${}", &vars), "${}");
    assert_eq!(replace_env_vars("tail $", &vars), "tail $");
    assert_eq!(replace_env_vars("${HOME}$HOME", &vars), "/home/u/home/u");
}

// ---------------------------------------------------------------- settings
#[test]
fn settings_lookup_last_wins() {
    let lines = vec![
        String::from("root: C:\\nvm"),
        String::from("arch: 64"),
        String::from("root: /opt/versions"),
        String::from("garbage line"),
    ];
    assert_eq!(lookup(&lines, "root"), Some(String::from("/opt/versions")));
    assert_eq!(lookup(&lines, "arch"), Some(String::from("64")));
    assert_eq!(lookup(&lines, "proxy"), None);
}

#[test]
fn settings_parse_and_serialize() {
    let lines = vec![
        String::from("root: /opt/versions"),
        String::from("arch: amd64"),
        String::from("proxy: proxy.example.org:3128"),
        String::from("node_mirror: mirror.example.org/node/"),
    ];
    let s = parse_settings(&lines, "x86_64");
    assert_eq!(s.root, "/opt/versions");
    assert_eq!(s.arch, "64");
    assert_eq!(s.proxy, "http://proxy.example.org:3128");
    assert_eq!(s.node_mirror, "mirror.example.org/node/");
    assert_eq!(s.symlink, "");
    let content = settings_content(&s);
    assert!(content.starts_with("root: /opt/versions\r\narch: 64\r\n"));
    assert!(content.ends_with("npm_mirror: \r\n"));
    let none = parse_settings(&vec![String::from("proxy: https://p.example.org")], "x86_64");
    assert_eq!(none.proxy, "none");
}

// ---------------------------------------------------------------- listing
#[test]
fn renders_installed_listing() {
    let installed = vec![Version::new(18, 20, 1), Version::new(16, 1, 0)];
    let current = Version::new(16, 1, 0);
    let lines = list_installed(&installed, Some(&current), "64");
    assert_eq!(lines.len(), 2);
    assert_eq!(lines[0], "  18.20.1");
    assert_eq!(lines[1], "* 16.1.0 (Currently using 64-bit executable)");
}

#[test]
fn lays_out_available_table() {
    let current = vec![Version::new(22, 3, 0)];
    let lts = vec![Version::new(18, 20, 1), Version::new(18, 19, 0)];
    let rows = available_rows(&current, &lts, &vec![], &vec![]);
    assert_eq!(rows.len(), 20);
    assert_eq!(rows[0].current, Version::new(22, 3, 0));
    assert_eq!(rows[0].lts, Version::new(18, 20, 1));
    assert_eq!(rows[1].current, Version::new(0, 0, 0));
    assert_eq!(rows[1].lts, Version::new(18, 19, 0));
}

#[test]
fn picks_enable_directory_and_menu_index() {
    let names = vec![String::from("temp"), String::from("v16.1.0"), String::from("v18.20.1")];
    assert_eq!(pick_enable_dir(&names), Some(String::from("v18.20.1")));
    assert_eq!(pick_enable_dir(&vec![String::from("temp")]), None);
    let vs = vec![Version::new(18, 20, 1), Version::new(16, 1, 0)];
    assert_eq!(index_of_version(&vs, &Version::new(16, 1, 0)), 1);
    assert_eq!(index_of_version(&vs, &Version::new(1, 0, 0)), 2);
}

// ---------------------------------------------------------------- elevate
#[test]
fn builds_elevated_command_lines() {
    let args = vec![String::from("/tmp/link")];
    assert_eq!(primary_command_args("rmdir", &args), vec!["/C", "rmdir", "/tmp/link"]);
    assert_eq!(
        fallback_command_args("rmdir", &args),
        vec!["cmd", "/C", "rmdir", "/tmp/link"]
    );
}
