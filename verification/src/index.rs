use vstd::prelude::*;
use vstd::multiset::Multiset;

use crate::version::{version_le, version_lt, Version};

verus! {

/// One record of the remote version index.
///
/// `lts` mirrors how the index field is read: it is `false` only when the
/// record literally says so; a release-name string ("Hydrogen") counts as
/// long-term support. `npm` is the bundled package-manager version as listed,
/// `date` the release date as listed; both are carried, never interpreted.
pub struct Release {
    pub version: Version,
    pub npm: String,
    pub date: String,
    pub files: Vec<String>,
    pub modules: u64,
    pub lts: bool,
    pub security: bool,
}

pub open spec fn spec_is_lts(r: Release) -> bool {
    r.lts
}

/// A current release: not long-term support and at least 1.0.0.
pub open spec fn spec_is_current(r: Release) -> bool {
    !r.lts && !version_lt(r.version, Version { major: 1, minor: 0, patch: 0 })
}

/// An old stable release: a 0.x line with an even minor.
pub open spec fn spec_is_stable(r: Release) -> bool {
    !spec_is_current(r) && r.version.major == 0 && r.version.minor % 2 == 0
}

/// An old unstable release: a 0.x line with an odd minor.
pub open spec fn spec_is_unstable(r: Release) -> bool {
    !spec_is_stable(r) && r.version.major == 0 && r.version.minor % 2 != 0
}

impl Release {
    pub fn is_lts(&self) -> (b: bool)
        ensures
            b == spec_is_lts(*self),
    {
        self.lts
    }

    pub fn is_current(&self) -> (b: bool)
        ensures
            b == spec_is_current(*self),
    {
        !self.lts && !self.version.lt(&Version { major: 1, minor: 0, patch: 0 })
    }

    pub fn is_stable(&self) -> (b: bool)
        ensures
            b == spec_is_stable(*self),
    {
        !self.is_current() && self.version.major == 0 && self.version.minor % 2 == 0
    }

    pub fn is_unstable(&self) -> (b: bool)
        ensures
            b == spec_is_unstable(*self),
    {
        !self.is_stable() && self.version.major == 0 && self.version.minor % 2 != 0
    }
}

/// The buckets a release can be listed under.
#[derive(Clone, Copy, Debug, PartialEq, Eq, Structural)]
pub enum Category {
    All,
    Lts,
    Current,
    Stable,
    Unstable,
}

/// Which single bucket (besides `All`) a release falls in: the first of
/// lts / current / stable / unstable that holds of it.
pub open spec fn spec_in_category(r: Release, c: Category) -> bool {
    match c {
        Category::All => true,
        Category::Lts => spec_is_lts(r),
        Category::Current => !spec_is_lts(r) && spec_is_current(r),
        Category::Stable => !spec_is_lts(r) && !spec_is_current(r) && spec_is_stable(r),
        Category::Unstable => !spec_is_lts(r) && !spec_is_current(r) && !spec_is_stable(r)
            && spec_is_unstable(r),
    }
}

/// The versions of the releases of `s` that fall in `c`, in index order.
pub open spec fn spec_versions_in(s: Seq<Release>, c: Category) -> Seq<Version>
    decreases s.len(),
{
    if s.len() == 0 {
        Seq::empty()
    } else {
        spec_versions_in(s.drop_last(), c) + (if spec_in_category(s.last(), c) {
            seq![s.last().version]
        } else {
            Seq::empty()
        })
    }
}

fn in_category(r: &Release, c: Category) -> (b: bool)
    ensures
        b == spec_in_category(*r, c),
{
    match c {
        Category::All => true,
        Category::Lts => r.is_lts(),
        Category::Current => !r.is_lts() && r.is_current(),
        Category::Stable => !r.is_lts() && !r.is_current() && r.is_stable(),
        Category::Unstable => !r.is_lts() && !r.is_current() && !r.is_stable() && r.is_unstable(),
    }
}

/// List the versions of one bucket of the index, in index order.
pub fn versions_in(index: &Vec<Release>, c: Category) -> (r: Vec<Version>)
    ensures
        r@ == spec_versions_in(index@, c),
{
    let mut out: Vec<Version> = Vec::new();
    let n = index.len();
    let mut i: usize = 0;
    while i < n
        invariant
            0 <= i <= n == index@.len(),
            out@ == spec_versions_in(index@.subrange(0, i as int), c),
        decreases n - i,
    {
        proof {
            assert(index@.subrange(0, i as int + 1).drop_last() =~= index@.subrange(0, i as int));
            assert(index@.subrange(0, i as int + 1).last() == index@[i as int]);
        }
        if in_category(&index[i], c) {
            out.push(index[i].version);
        }
        i = i + 1;
    }
    assert(index@.subrange(0, n as int) =~= index@);
    out
}

/// Whether some release of the index carries exactly this version.
pub open spec fn spec_index_has(s: Seq<Release>, v: Version) -> bool {
    exists|i: int| 0 <= i < s.len() && s[i].version == v
}

/// Whether `v` is offered by the remote index at all.
pub fn is_version_available(index: &Vec<Release>, v: &Version) -> (r: bool)
    ensures
        r == spec_index_has(index@, *v),
{
    let n = index.len();
    let mut i: usize = 0;
    while i < n
        invariant
            0 <= i <= n == index@.len(),
            forall|m: int| 0 <= m < i ==> index@[m].version != *v,
        decreases n - i,
    {
        if index[i].version.major == v.major && index[i].version.minor == v.minor
            && index[i].version.patch == v.patch {
            assert(index@[i as int].version == *v);
            return true;
        }
        i = i + 1;
    }
    false
}

/// The bundled package-manager version of the first record carrying `v`.
pub open spec fn spec_npm_of(s: Seq<Release>, v: Version) -> Option<Seq<char>>
    decreases s.len(),
{
    if s.len() == 0 {
        None
    } else if s[0].version == v {
        Some(s[0].npm@)
    } else {
        spec_npm_of(s.subrange(1, s.len() as int), v)
    }
}

proof fn lemma_npm_of_skip(s: Seq<Release>, v: Version, k: int)
    requires
        0 <= k <= s.len(),
        forall|m: int| 0 <= m < k ==> s[m].version != v,
    ensures
        spec_npm_of(s, v) == spec_npm_of(s.subrange(k, s.len() as int), v),
    decreases k,
{
    if k > 0 {
        assert(s[0].version != v);
        assert(s.subrange(1, s.len() as int).subrange(k - 1, s.len() - 1) =~= s.subrange(
            k,
            s.len() as int,
        ));
        lemma_npm_of_skip(s.subrange(1, s.len() as int), v, k - 1);
    } else {
        assert(s.subrange(0, s.len() as int) =~= s);
    }
}

/// Look up the package-manager version bundled with release `v`.
pub fn get_npm_version(index: &Vec<Release>, v: &Version) -> (r: Option<String>)
    ensures
        match r {
            Some(s) => spec_npm_of(index@, *v) == Some(s@),
            None => spec_npm_of(index@, *v) is None,
        },
{
    let n = index.len();
    let mut i: usize = 0;
    while i < n
        invariant
            0 <= i <= n == index@.len(),
            forall|m: int| 0 <= m < i ==> index@[m].version != *v,
        decreases n - i,
    {
        if index[i].version.major == v.major && index[i].version.minor == v.minor
            && index[i].version.patch == v.patch {
            proof {
                lemma_npm_of_skip(index@, *v, i as int);
                assert(index@.subrange(i as int, n as int)[0] == index@[i as int]);
            }
            return Some(index[i].npm.clone());
        }
        i = i + 1;
    }
    proof {
        lemma_npm_of_skip(index@, *v, n as int);
    }
    None
}

/// The newest long-term-support release: the first lts record in index
/// order (the index lists releases newest first).
pub open spec fn spec_first_lts(s: Seq<Release>) -> Option<Version>
    decreases s.len(),
{
    if s.len() == 0 {
        None
    } else if s[0].lts {
        Some(s[0].version)
    } else {
        spec_first_lts(s.subrange(1, s.len() as int))
    }
}

proof fn lemma_first_lts_skip(s: Seq<Release>, k: int)
    requires
        0 <= k <= s.len(),
        forall|m: int| 0 <= m < k ==> !s[m].lts,
    ensures
        spec_first_lts(s) == spec_first_lts(s.subrange(k, s.len() as int)),
    decreases k,
{
    if k > 0 {
        assert(!s[0].lts);
        assert(s.subrange(1, s.len() as int).subrange(k - 1, s.len() - 1) =~= s.subrange(
            k,
            s.len() as int,
        ));
        lemma_first_lts_skip(s.subrange(1, s.len() as int), k - 1);
    } else {
        assert(s.subrange(0, s.len() as int) =~= s);
    }
}

/// The newest lts release of the index, if any.
pub fn get_lts(index: &Vec<Release>) -> (r: Option<Version>)
    ensures
        r == spec_first_lts(index@),
{
    let n = index.len();
    let mut i: usize = 0;
    while i < n
        invariant
            0 <= i <= n == index@.len(),
            forall|m: int| 0 <= m < i ==> !index@[m].lts,
        decreases n - i,
    {
        if index[i].lts {
            proof {
                lemma_first_lts_skip(index@, i as int);
                assert(index@.subrange(i as int, n as int)[0] == index@[i as int]);
            }
            return Some(index[i].version);
        }
        i = i + 1;
    }
    proof {
        lemma_first_lts_skip(index@, n as int);
    }
    None
}

/// The greatest version of a list, component-wise.
pub open spec fn spec_max_version(s: Seq<Version>) -> Option<Version>
    decreases s.len(),
{
    if s.len() == 0 {
        None
    } else {
        match spec_max_version(s.drop_last()) {
            None => Some(s.last()),
            Some(m) => Some(
                if version_lt(m, s.last()) {
                    s.last()
                } else {
                    m
                },
            ),
        }
    }
}

pub fn max_version(vs: &Vec<Version>) -> (r: Option<Version>)
    ensures
        r == spec_max_version(vs@),
{
    let n = vs.len();
    let mut best: Option<Version> = None;
    let mut i: usize = 0;
    while i < n
        invariant
            0 <= i <= n == vs@.len(),
            best == spec_max_version(vs@.subrange(0, i as int)),
        decreases n - i,
    {
        proof {
            assert(vs@.subrange(0, i as int + 1).drop_last() =~= vs@.subrange(0, i as int));
            assert(vs@.subrange(0, i as int + 1).last() == vs@[i as int]);
        }
        best = match best {
            None => Some(vs[i]),
            Some(m) => Some(
                if m.lt(&vs[i]) {
                    vs[i]
                } else {
                    m
                },
            ),
        };
        i = i + 1;
    }
    assert(vs@.subrange(0, n as int) =~= vs@);
    best
}

/// The greatest version is an element and bounds every element.
pub proof fn lemma_max_version_props(s: Seq<Version>)
    ensures
        match spec_max_version(s) {
            Some(m) => (exists|i: int| 0 <= i < s.len() && s[i] == m) && (forall|i: int|
                0 <= i < s.len() ==> version_le(#[trigger] s[i], m)),
            None => s.len() == 0,
        },
    decreases s.len(),
{
    if s.len() > 0 {
        lemma_max_version_props(s.drop_last());
        let m = spec_max_version(s).unwrap();
        assert forall|i: int| 0 <= i < s.len() implies version_le(#[trigger] s[i], m) by {
            if i < s.len() - 1 {
                assert(s.drop_last()[i] == s[i]);
            }
        }
        match spec_max_version(s.drop_last()) {
            None => {
                assert(s[0] == m);
            },
            Some(p) => {
                if version_lt(p, s.last()) {
                    assert(s[s.len() - 1] == m);
                } else {
                    let i = choose|i: int| 0 <= i < s.drop_last().len() && s.drop_last()[i] == p;
                    assert(s[i] == m);
                }
            },
        }
    }
}

/// Whether `v` completes the partial prefix: all given components equal.
pub open spec fn spec_matches_prefix(v: Version, major: u64, minor: Option<u64>) -> bool {
    v.major == major && (minor is Some ==> v.minor == minor.unwrap())
}

/// The greatest version of `s` that completes the prefix.
pub open spec fn spec_best_match(s: Seq<Version>, major: u64, minor: Option<u64>) -> Option<
    Version,
>
    decreases s.len(),
{
    if s.len() == 0 {
        None
    } else {
        let rest = spec_best_match(s.drop_last(), major, minor);
        if spec_matches_prefix(s.last(), major, minor) {
            match rest {
                None => Some(s.last()),
                Some(m) => Some(
                    if version_lt(m, s.last()) {
                        s.last()
                    } else {
                        m
                    },
                ),
            }
        } else {
            rest
        }
    }
}

/// Find the highest version completing a one- or two-component prefix.
pub fn best_match(vs: &Vec<Version>, major: u64, minor: Option<u64>) -> (r: Option<Version>)
    ensures
        r == spec_best_match(vs@, major, minor),
{
    let n = vs.len();
    let mut best: Option<Version> = None;
    let mut i: usize = 0;
    while i < n
        invariant
            0 <= i <= n == vs@.len(),
            best == spec_best_match(vs@.subrange(0, i as int), major, minor),
        decreases n - i,
    {
        proof {
            assert(vs@.subrange(0, i as int + 1).drop_last() =~= vs@.subrange(0, i as int));
            assert(vs@.subrange(0, i as int + 1).last() == vs@[i as int]);
        }
        let candidate = vs[i];
        let fits = candidate.major == major && (match minor {
            Some(b) => candidate.minor == b,
            None => true,
        });
        if fits {
            best = match best {
                None => Some(candidate),
                Some(m) => Some(
                    if m.lt(&candidate) {
                        candidate
                    } else {
                        m
                    },
                ),
            };
        }
        i = i + 1;
    }
    assert(vs@.subrange(0, n as int) =~= vs@);
    best
}

/// The best match completes the prefix, is an element, and bounds every
/// element that completes the prefix; `None` means nothing completes it.
pub proof fn lemma_best_match_props(s: Seq<Version>, major: u64, minor: Option<u64>)
    ensures
        match spec_best_match(s, major, minor) {
            Some(m) => spec_matches_prefix(m, major, minor) && (exists|i: int|
                0 <= i < s.len() && s[i] == m) && (forall|i: int|
                0 <= i < s.len() && spec_matches_prefix(#[trigger] s[i], major, minor)
                    ==> version_le(s[i], m)),
            None => forall|i: int|
                0 <= i < s.len() ==> !spec_matches_prefix(#[trigger] s[i], major, minor),
        },
    decreases s.len(),
{
    if s.len() > 0 {
        lemma_best_match_props(s.drop_last(), major, minor);
        assert(forall|i: int| 0 <= i < s.len() - 1 ==> s.drop_last()[i] == #[trigger] s[i]);
        match spec_best_match(s, major, minor) {
            Some(m) => {
                if spec_matches_prefix(s.last(), major, minor) {
                    match spec_best_match(s.drop_last(), major, minor) {
                        None => {
                            assert(s[s.len() - 1] == m);
                        },
                        Some(p) => {
                            if version_lt(p, s.last()) {
                                assert(s[s.len() - 1] == m);
                            } else {
                                let i = choose|i: int|
                                    0 <= i < s.drop_last().len() && s.drop_last()[i] == p;
                                assert(s[i] == m);
                            }
                        },
                    }
                } else {
                    let i = choose|i: int| 0 <= i < s.drop_last().len() && s.drop_last()[i] == m;
                    assert(s[i] == m);
                }
            },
            None => {},
        }
    }
}

/// Sort a version list in descending order; the result holds exactly the
/// versions of the input, as a multiset.
pub fn sort_versions_desc(vs: Vec<Version>) -> (r: Vec<Version>)
    ensures
        r@.to_multiset() == vs@.to_multiset(),
        forall|i: int, j: int| 0 <= i < j < r@.len() ==> version_le(#[trigger] r@[j], #[trigger] r@[i]),
{
    broadcast use vstd::seq_lib::group_to_multiset_ensures;

    let mut src = vs;
    let ghost orig = src@;
    let mut out: Vec<Version> = Vec::new();
    while src.len() > 0
        invariant
            out@.to_multiset().add(src@.to_multiset()) == orig.to_multiset(),
            forall|i: int, j: int|
                0 <= i < j < out@.len() ==> version_le(#[trigger] out@[j], #[trigger] out@[i]),
            forall|i: int, k: int|
                0 <= i < out@.len() && 0 <= k < src@.len() ==> version_le(
                    #[trigger] src@[k],
                    #[trigger] out@[i],
                ),
        decreases src.len(),
    {
        // Pick the greatest remaining version.
        let mut mi: usize = 0;
        let mut k: usize = 1;
        while k < src.len()
            invariant
                0 <= mi < k <= src.len(),
                forall|m: int| 0 <= m < k ==> version_le(#[trigger] src@[m], src@[mi as int]),
            decreases src.len() - k,
        {
            if src[mi].lt(&src[k]) {
                mi = k;
            }
            k = k + 1;
        }
        let ghost src_before = src@;
        let ghost out_before = out@;
        let v = src.remove(mi);
        out.push(v);
        proof {
            vstd::seq_lib::to_multiset_remove::<Version>(src_before, mi as int);
            vstd::seq_lib::to_multiset_build::<Version>(out_before, v);
            vstd::seq_lib::to_multiset_contains::<Version>(src_before, v);
            assert(src_before.contains(v)) by {
                assert(src_before[mi as int] == v);
            }
            assert(out@.to_multiset().add(src@.to_multiset()) =~= out_before.to_multiset().add(
                src_before.to_multiset(),
            ));
        }
    }
    proof {
        vstd::seq_lib::to_multiset_len::<Version>(src@);
        assert(out@.to_multiset().add(src@.to_multiset()) =~= out@.to_multiset());
    }
    out
}

} // verus!
