use vstd::prelude::*;

use crate::strings::{
    ends_with, spec_contains_seq, spec_ends_with, spec_lower, spec_starts_with, starts_with,
    starts_with_ci, str_contains, str_eq,
};
use crate::version::{spec_version_string, version_lt, version_to_string, Version};

verus! {

/// What the downloader does with one HTTP response, by status code and
/// `Location` header.
pub enum FetchStep {
    /// The body already written to the destination is the final content.
    Keep,
    /// Fetch again from this URL.
    Redirect(String),
    /// Report failure; the destination is left for diagnostics.
    Fail,
    /// Report failure and delete the destination.
    FailCleanup,
}

/// Ghost counterpart of `FetchStep`.
pub enum SpecFetchStep {
    Keep,
    Redirect(Seq<char>),
    Fail,
    FailCleanup,
}

/// The one historical redirect target that is answered with a fixed
/// replacement URL rather than followed: a compatibility shim for a single
/// legacy package-manager release, not general redirect policy.
pub open spec fn spec_legacy_npm_marker() -> Seq<char> {
    "/npm/cli/archive/v6.14.17.zip"@
}

pub open spec fn spec_legacy_npm_replacement() -> Seq<char> {
    "https://github.com/npm/cli/archive/refs/tags/v6.14.17.zip"@
}

/// How one response is handled. No `Location` header means the body stands,
/// whatever the status. With one: 300 follows a Location that differs from
/// the asked URL, substitutes the legacy shim, and otherwise fails; 200 and
/// 302 keep the body; 307 follows; anything else fails and cleans up.
pub open spec fn spec_classify_download(
    status: u16,
    location: Option<Seq<char>>,
    url: Seq<char>,
) -> SpecFetchStep {
    match location {
        None => SpecFetchStep::Keep,
        Some(loc) => {
            if status == 300 {
                if loc.len() > 0 && loc != url {
                    SpecFetchStep::Redirect(loc)
                } else if spec_contains_seq(loc, spec_legacy_npm_marker()) {
                    SpecFetchStep::Redirect(spec_legacy_npm_replacement())
                } else {
                    SpecFetchStep::Fail
                }
            } else if status == 302 || status == 200 {
                SpecFetchStep::Keep
            } else if status == 307 {
                SpecFetchStep::Redirect(loc)
            } else {
                SpecFetchStep::FailCleanup
            }
        },
    }
}

pub open spec fn spec_location_view(location: Option<&str>) -> Option<Seq<char>> {
    match location {
        Some(l) => Some(l@),
        None => None,
    }
}

/// Decide what to do with one download response.
pub fn classify_download(status: u16, location: Option<&str>, url: &str) -> (r: FetchStep)
    ensures
        match r {
            FetchStep::Keep => spec_classify_download(status, spec_location_view(location), url@)
                is Keep,
            FetchStep::Redirect(u) => spec_classify_download(
                status,
                spec_location_view(location),
                url@,
            ) == SpecFetchStep::Redirect(u@),
            FetchStep::Fail => spec_classify_download(status, spec_location_view(location), url@)
                is Fail,
            FetchStep::FailCleanup => spec_classify_download(
                status,
                spec_location_view(location),
                url@,
            ) is FailCleanup,
        },
{
    match location {
        None => FetchStep::Keep,
        Some(loc) => {
            if status == 300 {
                if loc.unicode_len() > 0 && !str_eq(loc, url) {
                    FetchStep::Redirect(loc.to_owned())
                } else if str_contains(loc, "/npm/cli/archive/v6.14.17.zip") {
                    FetchStep::Redirect(
                        String::from_str("https://github.com/npm/cli/archive/refs/tags/v6.14.17.zip"),
                    )
                } else {
                    FetchStep::Fail
                }
            } else if status == 302 || status == 200 {
                FetchStep::Keep
            } else if status == 307 {
                FetchStep::Redirect(loc.to_owned())
            } else {
                FetchStep::FailCleanup
            }
        },
    }
}

/// LAW: a Multiple Choices response whose `Location` is the asked URL
/// itself is reported as a failure (outside the one legacy shim), so the
/// self-redirect cannot recurse.
pub proof fn lemma_self_redirect_fails(url: Seq<char>)
    requires
        !spec_contains_seq(url, spec_legacy_npm_marker()),
    ensures
        spec_classify_download(300, Some(url), url) is Fail,
{
}

/// The default distribution hosts.
pub fn default_node_mirror() -> (r: &'static str)
    ensures
        r@ == "https://nodejs.org/dist/"@,
{
    "https://nodejs.org/dist/"
}

pub fn default_npm_mirror() -> (r: &'static str)
    ensures
        r@ == "https://github.com/npm/cli/archive/"@,
{
    "https://github.com/npm/cli/archive/"
}

/// What a configured mirror becomes: empty and "none" keep the default;
/// anything else gains a scheme when it has none and a trailing separator
/// when it lacks one.
pub open spec fn spec_normalize_mirror(m: Seq<char>, default: Seq<char>) -> Seq<char> {
    if m.len() == 0 || m == "none"@ {
        default
    } else {
        let with_scheme = if spec_starts_with(spec_lower(m), "http"@) {
            m
        } else {
            "http://"@ + m
        };
        if spec_ends_with(with_scheme, "/"@) {
            with_scheme
        } else {
            with_scheme + "/"@
        }
    }
}

/// Normalize one configured mirror against its default.
pub fn normalize_mirror(mirror: &str, default: &str) -> (r: String)
    ensures
        r@ == spec_normalize_mirror(mirror@, default@),
{
    proof {
        reveal_strlit("http");
        assert(spec_lower("http"@) =~= "http"@);
    }
    if mirror.unicode_len() == 0 || str_eq(mirror, "none") {
        return default.to_owned();
    }
    let with_scheme: String = if starts_with_ci(mirror, "http") {
        mirror.to_owned()
    } else {
        let mut s = String::from_str("http://");
        s.append(mirror);
        s
    };
    if ends_with(with_scheme.as_str(), "/") {
        with_scheme
    } else {
        let mut s = with_scheme;
        s.append("/");
        s
    }
}

/// A full URL under the configured node mirror.
pub fn get_full_node_url(node_base: &str, path: &str) -> (r: String)
    ensures
        r@ == node_base@ + path@,
{
    let mut s = node_base.to_owned();
    s.append(path);
    s
}

/// A full URL under the configured package-manager mirror.
pub fn get_full_npm_url(npm_base: &str, path: &str) -> (r: String)
    ensures
        r@ == npm_base@ + path@,
{
    let mut s = npm_base.to_owned();
    s.append(path);
    s
}

/// The artifact name prefix for a release line: "<os>-<arch>" from the
/// 1.x line on, and empty for the 0.x line (whose artifacts carry no
/// platform in their path).
pub open spec fn spec_artifact_prefix(os: Seq<char>, arch: Seq<char>, major: u64) -> Seq<char> {
    if major > 0 {
        os + seq!['-'] + arch
    } else {
        Seq::empty()
    }
}

pub fn get_node_pre(os_name: &str, node_arch: &str, major: u64) -> (r: String)
    ensures
        r@ == spec_artifact_prefix(os_name@, node_arch@, major),
{
    if major > 0 {
        let mut s = os_name.to_owned();
        s.append("-");
        s.append(node_arch);
        proof {
            reveal_strlit("-");
            assert("-"@ =~= seq!['-']);
        }
        s
    } else {
        String::new()
    }
}

/// The version from which the structured per-version download path is
/// used; older releases use the legacy path shape.
pub open spec fn spec_path_baseline() -> Version {
    Version { major: 16, minor: 9, patch: 0 }
}

pub open spec fn spec_uses_modern_path(v: Version) -> bool {
    !version_lt(v, spec_path_baseline())
}

pub fn uses_modern_path(v: &Version) -> (r: bool)
    ensures
        r == spec_uses_modern_path(*v),
{
    !v.lt(&Version { major: 16, minor: 9, patch: 0 })
}

/// The archive path of a release: `v<version>/node-v<version>-<prefix><ext>`.
pub open spec fn spec_archive_path(v: Version, pre: Seq<char>, ext: Seq<char>) -> Seq<char> {
    "v"@ + spec_version_string(v) + "/node-v"@ + spec_version_string(v) + "-"@ + pre + ext
}

/// The legacy path of a release: `v<version>/<prefix>/node.exe`.
pub open spec fn spec_legacy_path(v: Version, pre: Seq<char>) -> Seq<char> {
    "v"@ + spec_version_string(v) + "/"@ + pre + "/node.exe"@
}

/// The download URL for a runtime artifact: the structured per-version
/// archive from the baseline on; otherwise the legacy single-executable
/// path where the platform offers it, and nothing at all where it does not
/// (an empty URL tells the caller the combination is unavailable).
///
/// `append` asks for a bare width executable to be added beside an
/// already-installed width, which the archive layout does not offer.
pub open spec fn spec_node_url(
    base: Seq<char>,
    v: Version,
    pre: Seq<char>,
    ext: Seq<char>,
    append: bool,
    legacy_exe: bool,
) -> Seq<char> {
    if !append && spec_uses_modern_path(v) {
        base + spec_archive_path(v, pre, ext)
    } else if legacy_exe {
        base + spec_legacy_path(v, pre)
    } else {
        Seq::empty()
    }
}

pub fn get_node_url(
    base: &str,
    v: &Version,
    pre: &str,
    ext: &str,
    append: bool,
    legacy_exe: bool,
) -> (r: String)
    ensures
        r@ == spec_node_url(base@, *v, pre@, ext@, append, legacy_exe),
{
    let vs = version_to_string(v);
    if !append && uses_modern_path(v) {
        let mut s = base.to_owned();
        s.append("v");
        s.append(vs.as_str());
        s.append("/node-v");
        s.append(vs.as_str());
        s.append("-");
        s.append(pre);
        s.append(ext);
        proof {
            reveal_strlit("v");
            reveal_strlit("/node-v");
            reveal_strlit("-");
            assert(s@ =~= spec_node_url(base@, *v, pre@, ext@, append, legacy_exe));
        }
        s
    } else if legacy_exe {
        let mut s = base.to_owned();
        s.append("v");
        s.append(vs.as_str());
        s.append("/");
        s.append(pre);
        s.append("/node.exe");
        proof {
            reveal_strlit("v");
            reveal_strlit("/");
            reveal_strlit("/node.exe");
            assert(s@ =~= spec_node_url(base@, *v, pre@, ext@, append, legacy_exe));
        }
        s
    } else {
        String::new()
    }
}

/// Whether a release line offers a 64-bit build at all: everything from
/// 0.8 on does.
pub open spec fn spec_node64_available(v: Version) -> bool {
    !(v.major == 0 && v.minor < 8)
}

pub fn is_node64_bid_available(v: &Version) -> (r: bool)
    ensures
        r == spec_node64_available(*v),
{
    !(v.major == 0 && v.minor < 8)
}

/// Where a runtime download lands and what happens to it afterwards.
pub struct NodeFetchPlan {
    pub url: String,
    pub dest: String,
    pub extract: bool,
    pub strip_top: bool,
}

/// Whether the artifact at `url` is an archive (by its name) rather than a
/// bare executable.
pub open spec fn spec_is_archive(url: Seq<char>) -> bool {
    spec_ends_with(url, ".zip"@) || spec_ends_with(url, ".tar.gz"@)
}

/// Plan one runtime fetch into `root/v<version>`: an archive lands beside
/// the tree as `node.tar.gz` and is extracted with its top-level folder
/// stripped; a bare executable lands directly at its width-suffixed name.
/// An empty URL stands for "not available" and plans nothing.
pub open spec fn spec_node_fetch_dest(
    root: Seq<char>,
    v: Version,
    arch_label: Seq<char>,
    url: Seq<char>,
) -> Seq<char> {
    if spec_is_archive(url) {
        root + "/v"@ + spec_version_string(v) + "/node.tar.gz"@
    } else {
        root + "/v"@ + spec_version_string(v) + "/node"@ + arch_label
    }
}

pub fn node_fetch_plan(root: &str, v: &Version, arch_label: &str, url: String) -> (r:
    NodeFetchPlan)
    ensures
        r.url@ == url@,
        r.dest@ == spec_node_fetch_dest(root@, *v, arch_label@, url@),
        r.extract == spec_is_archive(url@),
        r.strip_top == spec_is_archive(url@),
{
    let vs = version_to_string(v);
    let archive = ends_with(url.as_str(), ".zip") || ends_with(url.as_str(), ".tar.gz");
    let mut dest = root.to_owned();
    dest.append("/v");
    dest.append(vs.as_str());
    if archive {
        dest.append("/node.tar.gz");
    } else {
        dest.append("/node");
        dest.append(arch_label);
    }
    proof {
        reveal_strlit("/v");
        reveal_strlit("/node.tar.gz");
        reveal_strlit("/node");
        assert(dest@ =~= spec_node_fetch_dest(root@, *v, arch_label@, url@));
    }
    NodeFetchPlan { url, dest, extract: archive, strip_top: archive }
}

/// Where a package-manager fetch goes: its URL under the mirror, the
/// shared scratch directory, and the archive file inside it.
pub struct NpmFetchPlan {
    pub url: String,
    pub temp_dir: String,
    pub archive: String,
}

pub fn npm_fetch_plan(npm_base: &str, root: &str, npm_version: &str, ext: &str) -> (r:
    NpmFetchPlan)
    ensures
        r.url@ == npm_base@ + "v"@ + npm_version@ + ext@,
        r.temp_dir@ == root@ + "/temp"@,
        r.archive@ == root@ + "/temp"@ + "/npm-v"@ + npm_version@ + ext@,
{
    let mut url = npm_base.to_owned();
    url.append("v");
    url.append(npm_version);
    url.append(ext);
    let mut temp_dir = root.to_owned();
    temp_dir.append("/temp");
    let mut archive = temp_dir.clone();
    archive.append("/npm-v");
    archive.append(npm_version);
    archive.append(ext);
    proof {
        reveal_strlit("v");
        reveal_strlit("/temp");
        reveal_strlit("/npm-v");
        assert(url@ =~= npm_base@ + "v"@ + npm_version@ + ext@);
        assert(archive@ =~= root@ + "/temp"@ + "/npm-v"@ + npm_version@ + ext@);
    }
    NpmFetchPlan { url, temp_dir, archive }
}

/// How the proxy setting is applied: no proxy for empty or "none", an
/// https proxy for an https URL, an http proxy otherwise.
#[derive(Clone, Copy, Debug, PartialEq, Eq, Structural)]
pub enum ProxyPlan {
    NoProxy,
    Http,
    Https,
}

pub open spec fn spec_proxy_plan(p: Seq<char>) -> ProxyPlan {
    if p.len() == 0 || p == "none"@ {
        ProxyPlan::NoProxy
    } else if spec_starts_with(p, "https"@) {
        ProxyPlan::Https
    } else {
        ProxyPlan::Http
    }
}

pub fn classify_proxy(p: &str) -> (r: ProxyPlan)
    ensures
        r == spec_proxy_plan(p@),
{
    if p.unicode_len() == 0 || str_eq(p, "none") {
        ProxyPlan::NoProxy
    } else if starts_with(p, "https") {
        ProxyPlan::Https
    } else {
        ProxyPlan::Http
    }
}

} // verus!
