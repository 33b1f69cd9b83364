use vstd::prelude::*;

use crate::resolve::ArchMode;
use crate::version::Version;

verus! {

/// What one installed version's directory holds: the width-suffixed
/// executables, the plain executable (and its width, where it is known),
/// and whether the package-manager subtree is present.
#[derive(Clone, Copy, Debug, PartialEq, Eq, Structural)]
pub struct VersionDir {
    pub version: Version,
    pub node32: bool,
    pub node64: bool,
    pub node_plain: bool,
    pub plain_known: bool,
    pub plain_is_64: bool,
    pub npm: bool,
}

/// The local state the manager acts on: the version directories under the
/// root, and the single active link (absent or pointing at one version).
pub struct Inventory {
    pub dirs: Vec<VersionDir>,
    pub active: Option<Version>,
}

/// Well-formed local state: one directory per version.
pub open spec fn dirs_wf(s: Seq<VersionDir>) -> bool {
    forall|i: int, j: int|
        0 <= i < j < s.len() ==> (#[trigger] s[i]).version != (#[trigger] s[j]).version
}

pub open spec fn inv_wf(inv: Inventory) -> bool {
    dirs_wf(inv.dirs@)
}

/// The first index whose directory is `v`; the length when there is none.
pub open spec fn spec_find_index(s: Seq<VersionDir>, v: Version) -> int
    decreases s.len(),
{
    if s.len() == 0 {
        0
    } else if s[0].version == v {
        0
    } else {
        1 + spec_find_index(s.subrange(1, s.len() as int), v)
    }
}

pub open spec fn spec_find_dir(s: Seq<VersionDir>, v: Version) -> Option<VersionDir> {
    if spec_find_index(s, v) < s.len() {
        Some(s[spec_find_index(s, v)])
    } else {
        None
    }
}

/// `spec_find_index` is characterized by its prefix: it is the unique `i`
/// below which no entry carries `v` and which carries `v` itself (or the
/// length, when no entry does).
pub proof fn lemma_find_index_at(s: Seq<VersionDir>, v: Version, i: int)
    requires
        0 <= i <= s.len(),
        forall|m: int| 0 <= m < i ==> (#[trigger] s[m]).version != v,
        i < s.len() ==> s[i].version == v,
    ensures
        spec_find_index(s, v) == i,
    decreases i,
{
    if s.len() == 0 {
    } else if i == 0 {
    } else {
        let t = s.subrange(1, s.len() as int);
        assert(forall|m: int| 0 <= m < i - 1 ==> #[trigger] t[m] == s[m + 1]);
        if i < s.len() {
            assert(t[i - 1] == s[i]);
        }
        lemma_find_index_at(t, v, i - 1);
    }
}

pub proof fn lemma_find_index_props(s: Seq<VersionDir>, v: Version)
    ensures
        0 <= spec_find_index(s, v) <= s.len(),
        spec_find_index(s, v) < s.len() ==> s[spec_find_index(s, v)].version == v,
        forall|m: int| 0 <= m < spec_find_index(s, v) ==> (#[trigger] s[m]).version != v,
    decreases s.len(),
{
    if s.len() > 0 && s[0].version != v {
        let t = s.subrange(1, s.len() as int);
        lemma_find_index_props(t, v);
        assert(forall|m: int| 0 <= m < t.len() ==> #[trigger] t[m] == s[m + 1]);
        assert forall|m: int| 0 <= m < spec_find_index(s, v) implies (#[trigger] s[m]).version
            != v by {
            if m >= 1 {
                assert(t[m - 1] == s[m]);
            }
        }
    }
}

/// Whether a directory with these contents counts as installed for the
/// asked width. The plain executable satisfies a width either when a
/// width-suffixed twin stands beside it, or when its own header shows the
/// asked width.
pub open spec fn spec_dir_installed(d: VersionDir, c: ArchMode) -> bool {
    let both = ((d.node32 || d.node64) && d.node_plain) || (d.node32 && d.node64);
    match c {
        ArchMode::All => both,
        ArchMode::A32 => d.node32 || both || (!d.node32 && !d.node64 && d.node_plain
            && d.plain_known && !d.plain_is_64),
        ArchMode::A64 => d.node64 || both || (!d.node32 && !d.node64 && d.node_plain
            && d.plain_known && d.plain_is_64),
    }
}

/// Whether version `v` is installed for width `c` in this directory state.
pub open spec fn spec_installed(s: Seq<VersionDir>, v: Version, c: ArchMode) -> bool {
    match spec_find_dir(s, v) {
        Some(d) => spec_dir_installed(d, c),
        None => false,
    }
}

/// Whether the asked version is installed for the asked width.
pub fn is_version_installed(inv: &Inventory, version: &Version, cpu: ArchMode) -> (r: bool)
    ensures
        r == spec_installed(inv.dirs@, *version, cpu),
{
    let n = inv.dirs.len();
    let mut i: usize = 0;
    while i < n
        invariant
            0 <= i <= n == inv.dirs@.len(),
            forall|m: int| 0 <= m < i ==> (#[trigger] inv.dirs@[m]).version != *version,
        decreases n - i,
    {
        let d = inv.dirs[i];
        if d.version.major == version.major && d.version.minor == version.minor && d.version.patch
            == version.patch {
            proof {
                lemma_find_index_at(inv.dirs@, *version, i as int);
            }
            let both = ((d.node32 || d.node64) && d.node_plain) || (d.node32 && d.node64);
            let r = match cpu {
                ArchMode::All => both,
                ArchMode::A32 => d.node32 || both || (!d.node32 && !d.node64 && d.node_plain
                    && d.plain_known && !d.plain_is_64),
                ArchMode::A64 => d.node64 || both || (!d.node32 && !d.node64 && d.node_plain
                    && d.plain_known && d.plain_is_64),
            };
            return r;
        }
        i = i + 1;
    }
    proof {
        lemma_find_index_at(inv.dirs@, *version, n as int);
    }
    false
}

/// The directory contents a fresh, fully fetched install leaves behind.
pub open spec fn spec_fresh_dir(v: Version, with32: bool, with64: bool) -> VersionDir {
    VersionDir {
        version: v,
        node32: with32,
        node64: with64,
        node_plain: false,
        plain_known: false,
        plain_is_64: false,
        npm: true,
    }
}

/// The directory state after a completed install of `v` for `arch`: the
/// version's directory gains the requested widths and its package manager;
/// every other directory is untouched.
pub open spec fn spec_install_dirs(s: Seq<VersionDir>, v: Version, arch: ArchMode) -> Seq<
    VersionDir,
> {
    let with32 = arch is A32 || arch is All;
    let with64 = arch is A64 || arch is All;
    let i = spec_find_index(s, v);
    if i < s.len() {
        let d = s[i];
        s.update(
            i,
            VersionDir {
                version: v,
                node32: d.node32 || with32,
                node64: d.node64 || with64,
                node_plain: d.node_plain,
                plain_known: d.plain_known,
                plain_is_64: d.plain_is_64,
                npm: true,
            },
        )
    } else {
        s.push(spec_fresh_dir(v, with32, with64))
    }
}

/// The directory state after an uninstall of `v`: its directory is gone,
/// every other directory is untouched.
pub open spec fn spec_uninstall_dirs(s: Seq<VersionDir>, v: Version) -> Seq<VersionDir> {
    let i = spec_find_index(s, v);
    if i < s.len() {
        s.remove(i)
    } else {
        s
    }
}

/// Record a completed install of `v` for the requested width(s).
///
/// This is the state a successful install ends in; the caller
/// performs the fetches first and records only on success.
pub fn record_install(inv: &mut Inventory, v: Version, arch: ArchMode)
    requires
        inv_wf(*old(inv)),
    ensures
        inv_wf(*final(inv)),
        final(inv).dirs@ == spec_install_dirs(old(inv).dirs@, v, arch),
        final(inv).active == old(inv).active,
{
    let ghost s0 = inv.dirs@;
    let with32 = matches!(arch, ArchMode::A32) || matches!(arch, ArchMode::All);
    let with64 = matches!(arch, ArchMode::A64) || matches!(arch, ArchMode::All);
    let n = inv.dirs.len();
    let mut i: usize = 0;
    while i < n
        invariant
            0 <= i <= n == inv.dirs@.len(),
            inv.dirs@ == s0,
            s0 == old(inv).dirs@,
            inv_wf(*inv),
            inv.active == old(inv).active,
            with32 == (arch is A32 || arch is All),
            with64 == (arch is A64 || arch is All),
            forall|m: int| 0 <= m < i ==> (#[trigger] s0[m]).version != v,
        decreases n - i,
    {
        let d = inv.dirs[i];
        if d.version.major == v.major && d.version.minor == v.minor && d.version.patch == v.patch {
            proof {
                lemma_find_index_at(s0, v, i as int);
            }
            let nd = VersionDir {
                version: v,
                node32: d.node32 || with32,
                node64: d.node64 || with64,
                node_plain: d.node_plain,
                plain_known: d.plain_known,
                plain_is_64: d.plain_is_64,
                npm: true,
            };
            inv.dirs[i] = nd;
            proof {
                assert(inv.dirs@ == s0.update(i as int, nd));
                assert(spec_find_index(s0, v) == i as int);
                assert(inv.dirs@ == spec_install_dirs(s0, v, arch));
                assert(forall|a: int, b: int|
                    0 <= a < b < inv.dirs@.len() ==> (#[trigger] inv.dirs@[a]).version != (
                    #[trigger] inv.dirs@[b]).version) by {
                    assert(forall|m: int|
                        0 <= m < s0.len() ==> (#[trigger] inv.dirs@[m]).version == s0[m].version);
                }
            }
            return ;
        }
        i = i + 1;
    }
    proof {
        lemma_find_index_at(s0, v, n as int);
    }
    inv.dirs.push(
        VersionDir {
            version: v,
            node32: with32,
            node64: with64,
            node_plain: false,
            plain_known: false,
            plain_is_64: false,
            npm: true,
        },
    );
    proof {
        assert(forall|m: int| 0 <= m < s0.len() ==> #[trigger] inv.dirs@[m] == s0[m]);
    }
}

/// Record an uninstall of `v`: the version's directory is removed, and when
/// `v` was the active version the active link is torn down first.
pub fn record_uninstall(inv: &mut Inventory, v: &Version)
    requires
        inv_wf(*old(inv)),
    ensures
        inv_wf(*final(inv)),
        final(inv).dirs@ == spec_uninstall_dirs(old(inv).dirs@, *v),
        final(inv).active == (if old(inv).active == Some(*v) {
            None::<Version>
        } else {
            old(inv).active
        }),
{
    let ghost s0 = inv.dirs@;
    let was_active = match inv.active {
        Some(a) => a.major == v.major && a.minor == v.minor && a.patch == v.patch,
        None => false,
    };
    if was_active {
        inv.active = None;
    }
    let n = inv.dirs.len();
    let mut i: usize = 0;
    while i < n
        invariant
            0 <= i <= n == inv.dirs@.len(),
            inv.dirs@ == s0,
            s0 == old(inv).dirs@,
            dirs_wf(inv.dirs@),
            inv.active == (if old(inv).active == Some(*v) {
                None::<Version>
            } else {
                old(inv).active
            }),
            forall|m: int| 0 <= m < i ==> (#[trigger] s0[m]).version != *v,
        decreases n - i,
    {
        let d = inv.dirs[i];
        if d.version.major == v.major && d.version.minor == v.minor && d.version.patch == v.patch {
            proof {
                lemma_find_index_at(s0, *v, i as int);
            }
            inv.dirs.remove(i);
            proof {
                assert(inv.dirs@ == s0.remove(i as int));
                assert(spec_find_index(s0, *v) == i as int);
                assert(inv.dirs@ == spec_uninstall_dirs(s0, *v));
                assert(forall|a: int, b: int|
                    0 <= a < b < inv.dirs@.len() ==> (#[trigger] inv.dirs@[a]).version != (
                    #[trigger] inv.dirs@[b]).version) by {
                    assert(forall|m: int|
                        0 <= m < inv.dirs@.len() ==> #[trigger] inv.dirs@[m] == (if m < i as int {
                            s0[m]
                        } else {
                            s0[m + 1]
                        }));
                }
            }
            return ;
        }
        i = i + 1;
    }
    proof {
        lemma_find_index_at(s0, *v, n as int);
    }
}

/// After an install of `v` for a width, `v` is installed for that width
/// (and "all" installs both); every other version's state is untouched.
pub proof fn lemma_install_installs(s: Seq<VersionDir>, v: Version, arch: ArchMode)
    requires
        dirs_wf(s),
    ensures
        spec_installed(spec_install_dirs(s, v, arch), v, arch),
        arch is All ==> spec_installed(spec_install_dirs(s, v, arch), v, ArchMode::A32)
            && spec_installed(spec_install_dirs(s, v, arch), v, ArchMode::A64),
        forall|w: Version, c: ArchMode|
            w != v ==> spec_installed(spec_install_dirs(s, v, arch), w, c) == #[trigger]
            spec_installed(s, w, c),
{
    let t = spec_install_dirs(s, v, arch);
    let i = spec_find_index(s, v);
    lemma_find_index_props(s, v);
    lemma_install_dirs_wf(s, v, arch);
    lemma_find_index_at(t, v, i);
    assert forall|w: Version, c: ArchMode| w != v implies spec_installed(t, w, c) == #[trigger]
    spec_installed(s, w, c) by {
        if i < s.len() {
            lemma_find_after_update(s, i, t[i], w);
        } else {
            lemma_find_after_push(s, t[i], w);
        }
    }
}

/// After an uninstall of `v`, no width of `v` is installed and its
/// directory is gone; every other version's state is untouched.
pub proof fn lemma_uninstall_uninstalls(s: Seq<VersionDir>, v: Version)
    requires
        dirs_wf(s),
    ensures
        spec_find_dir(spec_uninstall_dirs(s, v), v) is None,
        forall|c: ArchMode| !spec_installed(spec_uninstall_dirs(s, v), v, c),
        forall|w: Version, c: ArchMode|
            w != v ==> spec_installed(spec_uninstall_dirs(s, v), w, c) == #[trigger]
            spec_installed(s, w, c),
{
    let t = spec_uninstall_dirs(s, v);
    let i = spec_find_index(s, v);
    lemma_find_index_props(s, v);
    if i < s.len() {
        assert(forall|m: int|
            0 <= m < t.len() ==> #[trigger] t[m] == (if m < i {
                s[m]
            } else {
                s[m + 1]
            }));
        assert(forall|m: int| 0 <= m < t.len() ==> (#[trigger] t[m]).version != v);
        lemma_find_index_at(t, v, t.len() as int);
    } else {
        lemma_find_index_at(t, v, t.len() as int);
    }
    assert(dirs_wf(t)) by {
        if i < s.len() {
            assert(forall|m: int|
                0 <= m < t.len() ==> #[trigger] t[m] == (if m < i { s[m] } else { s[m + 1] }));
        }
    }
    assert forall|w: Version, c: ArchMode| w != v implies spec_installed(t, w, c) == #[trigger]
    spec_installed(s, w, c) by {
        if i < s.len() {
            lemma_find_after_remove(s, i, w);
        }
    }
}

/// Updating the one entry that carries a version leaves every other
/// version's lookup unchanged.
proof fn lemma_find_after_update(s: Seq<VersionDir>, i: int, nd: VersionDir, w: Version)
    requires
        dirs_wf(s),
        0 <= i < s.len(),
        s[i].version == nd.version,
        w != nd.version,
    ensures
        spec_find_dir(s.update(i, nd), w) == spec_find_dir(s, w),
{
    let t = s.update(i, nd);
    lemma_find_index_props(s, w);
    let si = spec_find_index(s, w);
    if si < s.len() {
        assert(si != i);
        assert(forall|m: int| 0 <= m < si ==> (#[trigger] t[m]).version != w) by {
            assert(forall|m: int| 0 <= m < si && m != i ==> t[m] == #[trigger] s[m]);
        }
        assert(t[si] == s[si]);
        lemma_find_index_at(t, w, si);
    } else {
        assert(forall|m: int| 0 <= m < t.len() ==> (#[trigger] t[m]).version != w) by {
            assert(forall|m: int| 0 <= m < t.len() && m != i ==> t[m] == #[trigger] s[m]);
        }
        lemma_find_index_at(t, w, t.len() as int);
    }
}

/// Appending an entry for a fresh version leaves every other version's
/// lookup unchanged.
proof fn lemma_find_after_push(s: Seq<VersionDir>, nd: VersionDir, w: Version)
    requires
        w != nd.version,
    ensures
        spec_find_dir(s.push(nd), w) == spec_find_dir(s, w),
{
    let t = s.push(nd);
    lemma_find_index_props(s, w);
    let si = spec_find_index(s, w);
    if si < s.len() {
        assert(forall|m: int| 0 <= m < si ==> #[trigger] t[m] == s[m]);
        assert(t[si] == s[si]);
        lemma_find_index_at(t, w, si);
    } else {
        assert(forall|m: int| 0 <= m < s.len() ==> #[trigger] t[m] == s[m]);
        assert(t[s.len() as int].version != w);
        lemma_find_index_at(t, w, t.len() as int);
    }
}

/// Removing the entry of one version leaves every other version's lookup
/// unchanged.
proof fn lemma_find_after_remove(s: Seq<VersionDir>, i: int, w: Version)
    requires
        dirs_wf(s),
        0 <= i < s.len(),
        s[i].version != w,
    ensures
        spec_find_dir(s.remove(i), w) == spec_find_dir(s, w),
{
    let t = s.remove(i);
    lemma_find_index_props(s, w);
    let si = spec_find_index(s, w);
    assert(forall|m: int|
        0 <= m < t.len() ==> #[trigger] t[m] == (if m < i {
            s[m]
        } else {
            s[m + 1]
        }));
    if si < s.len() {
        assert(si != i);
        if si < i {
            assert(forall|m: int| 0 <= m < si ==> (#[trigger] t[m]).version != w);
            assert(t[si] == s[si]);
            lemma_find_index_at(t, w, si);
        } else {
            assert(forall|m: int| 0 <= m < si - 1 ==> (#[trigger] t[m]).version != w);
            assert(t[si - 1] == s[si]);
            lemma_find_index_at(t, w, si - 1);
        }
    } else {
        assert(forall|m: int| 0 <= m < t.len() ==> (#[trigger] t[m]).version != w);
        lemma_find_index_at(t, w, t.len() as int);
    }
}

/// LAW: the install / uninstall round trip. Installing `v` for 64-bit
/// makes `is_version_installed(v, 64)` true; uninstalling it afterwards
/// leaves no width of `v` installed and no directory for `v` at all, and
/// leaves every other version exactly as it was.
pub proof fn lemma_install_uninstall_round_trip(s: Seq<VersionDir>, v: Version)
    requires
        dirs_wf(s),
    ensures
        spec_installed(spec_install_dirs(s, v, ArchMode::A64), v, ArchMode::A64),
        !spec_installed(
            spec_uninstall_dirs(spec_install_dirs(s, v, ArchMode::A64), v),
            v,
            ArchMode::All,
        ),
        spec_find_dir(spec_uninstall_dirs(spec_install_dirs(s, v, ArchMode::A64), v), v) is None,
        forall|w: Version, c: ArchMode|
            w != v ==> spec_installed(
                spec_uninstall_dirs(spec_install_dirs(s, v, ArchMode::A64), v),
                w,
                c,
            ) == #[trigger] spec_installed(s, w, c),
{
    lemma_install_installs(s, v, ArchMode::A64);
    let t = spec_install_dirs(s, v, ArchMode::A64);
    assert(dirs_wf(t)) by {
        lemma_install_dirs_wf(s, v, ArchMode::A64);
    }
    lemma_uninstall_uninstalls(t, v);
}

/// Installing keeps the one-directory-per-version invariant.
pub proof fn lemma_install_dirs_wf(s: Seq<VersionDir>, v: Version, arch: ArchMode)
    requires
        dirs_wf(s),
    ensures
        dirs_wf(spec_install_dirs(s, v, arch)),
{
    let t = spec_install_dirs(s, v, arch);
    let i = spec_find_index(s, v);
    lemma_find_index_props(s, v);
    if i < s.len() {
        assert(forall|m: int| 0 <= m < t.len() ==> (#[trigger] t[m]).version == s[m].version);
    } else {
        assert(forall|m: int| 0 <= m < s.len() ==> #[trigger] t[m] == s[m]);
        assert(forall|m: int| 0 <= m < s.len() ==> (#[trigger] s[m]).version != v);
        assert(t[s.len() as int].version == v);
    }
}

} // verus!
