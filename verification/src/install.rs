use vstd::prelude::*;

use crate::index::{is_version_available, spec_index_has, Release};
use crate::inventory::{is_version_installed, spec_installed, Inventory};
use crate::resolve::ArchMode;
use crate::version::{spec_version_string, version_lt, version_to_string, Version};

verus! {

/// What the pre-flight checks decide about one install request, in the
/// order they are applied: a version beyond the newest published release
/// is refused, then a 64-bit request for a line with no 64-bit build, then
/// an already-satisfied request, then a version the index does not offer;
/// everything else proceeds, with the widths still to fetch spelled out.
#[derive(Clone, Copy, Debug, PartialEq, Eq, Structural)]
pub enum InstallDecision {
    NotYetReleased,
    Only32Bit,
    AlreadyInstalled,
    NotInIndex,
    Proceed { fetch32: bool, fetch64: bool, append32: bool, append64: bool },
}

/// The decision the checks owe, as one case split over the given state.
pub open spec fn spec_install_decision(
    dirs: Seq<crate::inventory::VersionDir>,
    index: Seq<Release>,
    latest: Option<Version>,
    v: Version,
    arch: ArchMode,
) -> InstallDecision {
    if latest is Some && version_lt(latest.unwrap(), v) {
        InstallDecision::NotYetReleased
    } else if arch is A64 && !crate::fetch::spec_node64_available(v) {
        InstallDecision::Only32Bit
    } else if spec_installed(dirs, v, arch) {
        InstallDecision::AlreadyInstalled
    } else if !spec_index_has(index, v) {
        InstallDecision::NotInIndex
    } else {
        InstallDecision::Proceed {
            fetch32: (arch is A32 || arch is All) && !spec_installed(dirs, v, ArchMode::A32),
            fetch64: (arch is A64 || arch is All) && !spec_installed(dirs, v, ArchMode::A64),
            append32: spec_installed(dirs, v, ArchMode::A64),
            append64: spec_installed(dirs, v, ArchMode::A32),
        }
    }
}

/// Run the pre-flight checks of one install request.
pub fn plan_install(
    inv: &Inventory,
    index: &Vec<Release>,
    latest: Option<&Version>,
    v: &Version,
    arch: ArchMode,
) -> (r: InstallDecision)
    ensures
        r == spec_install_decision(
            inv.dirs@,
            index@,
            match latest {
                Some(l) => Some(*l),
                None => None,
            },
            *v,
            arch,
        ),
{
    let exceeds = match latest {
        Some(l) => l.lt(v),
        None => false,
    };
    if exceeds {
        return InstallDecision::NotYetReleased;
    }
    if matches!(arch, ArchMode::A64) && !crate::fetch::is_node64_bid_available(v) {
        return InstallDecision::Only32Bit;
    }
    if is_version_installed(inv, v, arch) {
        return InstallDecision::AlreadyInstalled;
    }
    if !is_version_available(index, v) {
        return InstallDecision::NotInIndex;
    }
    let has32 = is_version_installed(inv, v, ArchMode::A32);
    let has64 = is_version_installed(inv, v, ArchMode::A64);
    InstallDecision::Proceed {
        fetch32: (matches!(arch, ArchMode::A32) || matches!(arch, ArchMode::All)) && !has32,
        fetch64: (matches!(arch, ArchMode::A64) || matches!(arch, ArchMode::All)) && !has64,
        append32: has64,
        append64: has32,
    }
}

/// Whether a resolved version lies beyond the newest published release.
pub fn check_version_exceeds_latest(v: &Version, latest: &Version) -> (r: bool)
    ensures
        r == version_lt(*latest, *v),
{
    latest.lt(v)
}

/// The steps one install request passes through, in order; a failure in
/// any step ends in `Failed`, and the terminal states absorb every event.
#[derive(Clone, Copy, Debug, PartialEq, Eq, Structural)]
pub enum InstallState {
    Requested,
    Resolving,
    DirectoryPrepared,
    FetchingRuntime,
    FetchingPackageManager,
    Relocating,
    Complete,
    Failed,
}

pub open spec fn spec_install_next(s: InstallState) -> InstallState {
    match s {
        InstallState::Requested => InstallState::Resolving,
        InstallState::Resolving => InstallState::DirectoryPrepared,
        InstallState::DirectoryPrepared => InstallState::FetchingRuntime,
        InstallState::FetchingRuntime => InstallState::FetchingPackageManager,
        InstallState::FetchingPackageManager => InstallState::Relocating,
        InstallState::Relocating => InstallState::Complete,
        InstallState::Complete => InstallState::Complete,
        InstallState::Failed => InstallState::Failed,
    }
}

pub open spec fn spec_install_step(s: InstallState, ok: bool) -> InstallState {
    match s {
        InstallState::Complete => InstallState::Complete,
        InstallState::Failed => InstallState::Failed,
        _ => if ok {
            spec_install_next(s)
        } else {
            InstallState::Failed
        },
    }
}

/// Advance the install state machine by one step's outcome.
pub fn install_step(s: InstallState, ok: bool) -> (r: InstallState)
    ensures
        r == spec_install_step(s, ok),
        !ok && !(s is Complete) ==> r is Failed,
{
    match s {
        InstallState::Complete => InstallState::Complete,
        InstallState::Failed => InstallState::Failed,
        InstallState::Requested => if ok {
            InstallState::Resolving
        } else {
            InstallState::Failed
        },
        InstallState::Resolving => if ok {
            InstallState::DirectoryPrepared
        } else {
            InstallState::Failed
        },
        InstallState::DirectoryPrepared => if ok {
            InstallState::FetchingRuntime
        } else {
            InstallState::Failed
        },
        InstallState::FetchingRuntime => if ok {
            InstallState::FetchingPackageManager
        } else {
            InstallState::Failed
        },
        InstallState::FetchingPackageManager => if ok {
            InstallState::Relocating
        } else {
            InstallState::Failed
        },
        InstallState::Relocating => if ok {
            InstallState::Complete
        } else {
            InstallState::Failed
        },
    }
}

/// The relocation retry schedule: five bounded retries with fixed,
/// growing delays (in seconds), then giving up.
pub fn relocation_backoff(attempt: usize) -> (r: Option<u64>)
    ensures
        attempt == 0 ==> r == Some(1u64),
        attempt == 1 ==> r == Some(2u64),
        attempt == 2 ==> r == Some(3u64),
        attempt == 3 ==> r == Some(8u64),
        attempt == 4 ==> r == Some(16u64),
        attempt >= 5 ==> r is None,
{
    match attempt {
        0 => Some(1),
        1 => Some(2),
        2 => Some(3),
        3 => Some(8),
        4 => Some(16),
        _ => None,
    }
}

/// Where the fetched package manager is unpacked and moved from and to.
/// Two historical archive layouts are tried for its `bin` directory and
/// its root, and the root is relocated — not copied — into the version's
/// module tree.
pub struct NpmRelocation {
    pub unpack_dir: String,
    pub bin_primary: String,
    pub bin_fallback: String,
    pub source_primary: String,
    pub source_fallback: String,
    pub target: String,
}

pub fn npm_relocation(root: &str, v: &Version, npm_version: &str) -> (r: NpmRelocation)
    ensures
        r.unpack_dir@ == root@ + "/temp/nvm-npm"@,
        r.bin_primary@ == root@ + "/temp/nvm-npm/cli-"@ + npm_version@ + "/bin"@,
        r.bin_fallback@ == root@ + "/temp/nvm-npm/npm-"@ + npm_version@ + "/bin"@,
        r.source_primary@ == root@ + "/temp/nvm-npm/npm-"@ + npm_version@,
        r.source_fallback@ == root@ + "/temp/nvm-npm/cli-"@ + npm_version@,
        r.target@ == root@ + "/v"@ + spec_version_string(*v) + "/node_modules/npm"@,
{
    let vs = version_to_string(v);
    let mut unpack_dir = root.to_owned();
    unpack_dir.append("/temp/nvm-npm");
    let mut bin_primary = root.to_owned();
    bin_primary.append("/temp/nvm-npm/cli-");
    bin_primary.append(npm_version);
    bin_primary.append("/bin");
    let mut bin_fallback = root.to_owned();
    bin_fallback.append("/temp/nvm-npm/npm-");
    bin_fallback.append(npm_version);
    bin_fallback.append("/bin");
    let mut source_primary = root.to_owned();
    source_primary.append("/temp/nvm-npm/npm-");
    source_primary.append(npm_version);
    let mut source_fallback = root.to_owned();
    source_fallback.append("/temp/nvm-npm/cli-");
    source_fallback.append(npm_version);
    let mut target = root.to_owned();
    target.append("/v");
    target.append(vs.as_str());
    target.append("/node_modules/npm");
    proof {
        reveal_strlit("/temp/nvm-npm");
        reveal_strlit("/temp/nvm-npm/cli-");
        reveal_strlit("/temp/nvm-npm/npm-");
        reveal_strlit("/bin");
        reveal_strlit("/v");
        reveal_strlit("/node_modules/npm");
        assert(bin_primary@ =~= root@ + "/temp/nvm-npm/cli-"@ + npm_version@ + "/bin"@);
        assert(bin_fallback@ =~= root@ + "/temp/nvm-npm/npm-"@ + npm_version@ + "/bin"@);
        assert(target@ =~= root@ + "/v"@ + spec_version_string(*v) + "/node_modules/npm"@);
    }
    NpmRelocation { unpack_dir, bin_primary, bin_fallback, source_primary, source_fallback, target }
}

/// Whether uninstalling `v` must tear the active link down first.
pub fn needs_deactivation(inv: &Inventory, v: &Version) -> (r: bool)
    ensures
        r == (inv.active == Some(*v)),
{
    match inv.active {
        Some(a) => a.major == v.major && a.minor == v.minor && a.patch == v.patch,
        None => false,
    }
}

} // verus!
