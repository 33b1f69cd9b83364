use vstd::prelude::*;

use crate::index::{
    best_match, get_lts, lemma_best_match_props, max_version, spec_best_match, spec_first_lts,
    spec_index_has, spec_matches_prefix, spec_max_version, spec_versions_in, versions_in, Category,
    Release,
};
use crate::strings::{eq_ignore_case, lower_char, spec_contains_seq, spec_lower, str_contains, str_eq};
use crate::version::{
    all_digits, dec_val, is_digit, is_num, is_pair, is_triple, pair_at, parse_numeric_token,
    spec_parse_token, spec_strip_nondigit, strip_leading_nondigits, triple_at, version_le,
    ParsedToken, Version,
};

verus! {

/// Everything resolution may consult, taken as one snapshot: the remote
/// release index (newest first, as served), the version named by the remote
/// "latest" manifest, the locally installed versions, and the version the
/// active link currently points at.
pub struct Snapshot {
    pub releases: Vec<Release>,
    pub latest: Option<Version>,
    pub installed: Vec<Version>,
    pub current: Option<Version>,
}

/// A requested executable width: one of the two concrete widths, or both.
#[derive(Clone, Copy, Debug, PartialEq, Eq, Structural)]
pub enum ArchMode {
    A32,
    A64,
    All,
}

impl ArchMode {
    /// The width as the command line spells it.
    pub fn label(&self) -> (r: &'static str)
        ensures
            *self is A32 ==> r@ == "32"@,
            *self is A64 ==> r@ == "64"@,
            *self is All ==> r@ == "all"@,
    {
        match self {
            ArchMode::A32 => "32",
            ArchMode::A64 => "64",
            ArchMode::All => "all",
        }
    }
}

/// A fully resolved request: a concrete version and a width selection.
#[derive(Clone, Copy, Debug, PartialEq, Eq, Structural)]
pub struct Resolution {
    pub version: Version,
    pub arch: ArchMode,
}

#[derive(Clone, Copy, Debug, PartialEq, Eq, Structural)]
pub enum ResolveError {
    /// The architecture hint is none of "32", "64", "all".
    BadArch,
    /// The version token is empty.
    EmptyVersion,
    /// "latest"/"node" was asked but the latest manifest gave no version.
    NoLatest,
    /// "lts" was asked but the index holds no long-term-support release.
    NoLts,
    /// "newest" was asked but nothing is installed.
    NoneInstalled,
    /// "32"/"64" was asked but no version is currently active.
    NoCurrent,
    /// The token matches no known version.
    Unrecognized,
}

/// The width a hint resolves to: a non-empty hint must be one of the three
/// accepted words; an empty hint falls back to the host architecture, read
/// with the loose width heuristic (anything naming "64" is 64-bit).
pub open spec fn spec_arch_of(hint: Seq<char>, host: Seq<char>) -> Option<ArchMode> {
    if hint.len() > 0 {
        if hint == "32"@ {
            Some(ArchMode::A32)
        } else if hint == "64"@ {
            Some(ArchMode::A64)
        } else if hint == "all"@ {
            Some(ArchMode::All)
        } else {
            None
        }
    } else {
        Some(
            if spec_contains_seq(host, "64"@) {
                ArchMode::A64
            } else {
                ArchMode::A32
            },
        )
    }
}

/// Which versions a partial token is completed from: the installed versions
/// when resolution is restricted to local state, else the whole remote index.
pub open spec fn spec_completion_pool(local_only: bool, snap: Snapshot) -> Seq<Version> {
    if local_only {
        snap.installed@
    } else {
        spec_versions_in(snap.releases@, Category::All)
    }
}

/// The version a token denotes under a snapshot, with the width override the
/// bare "32"/"64" tokens carry. Alias words are matched case-insensitively;
/// numeric tokens resolve through their numeric tail.
pub open spec fn spec_resolve_version(t: Seq<char>, local_only: bool, snap: Snapshot) -> Result<
    (Version, Option<ArchMode>),
    ResolveError,
> {
    if t.len() == 0 {
        Err(ResolveError::EmptyVersion)
    } else if spec_lower(t) == "latest"@ || spec_lower(t) == "node"@ {
        match snap.latest {
            Some(v) => Ok((v, None)),
            None => Err(ResolveError::NoLatest),
        }
    } else if spec_lower(t) == "lts"@ {
        match spec_first_lts(snap.releases@) {
            Some(v) => Ok((v, None)),
            None => Err(ResolveError::NoLts),
        }
    } else if spec_lower(t) == "newest"@ {
        match spec_max_version(snap.installed@) {
            Some(v) => Ok((v, None)),
            None => Err(ResolveError::NoneInstalled),
        }
    } else if spec_lower(t) == "32"@ {
        match snap.current {
            Some(v) => Ok((v, Some(ArchMode::A32))),
            None => Err(ResolveError::NoCurrent),
        }
    } else if spec_lower(t) == "64"@ {
        match snap.current {
            Some(v) => Ok((v, Some(ArchMode::A64))),
            None => Err(ResolveError::NoCurrent),
        }
    } else {
        match spec_parse_token(spec_strip_nondigit(t)) {
            ParsedToken::Full(v) => Ok((v, None)),
            ParsedToken::Pair(a, b) => match spec_best_match(
                spec_completion_pool(local_only, snap),
                a,
                Some(b),
            ) {
                Some(v) => Ok((v, None)),
                None => Err(ResolveError::Unrecognized),
            },
            ParsedToken::Single(a) => match spec_best_match(
                spec_completion_pool(local_only, snap),
                a,
                None,
            ) {
                Some(v) => Ok((v, None)),
                None => Err(ResolveError::Unrecognized),
            },
            ParsedToken::Invalid => Err(ResolveError::Unrecognized),
        }
    }
}

/// What `resolve` returns: the architecture hint is validated first, then the
/// token is resolved, and a bare "32"/"64" token overrides the width.
pub open spec fn spec_resolve(
    token: Seq<char>,
    hint: Seq<char>,
    host: Seq<char>,
    local_only: bool,
    snap: Snapshot,
) -> Result<Resolution, ResolveError> {
    match spec_arch_of(hint, host) {
        None => Err(ResolveError::BadArch),
        Some(base) => match spec_resolve_version(token, local_only, snap) {
            Err(e) => Err(e),
            Ok((v, over)) => Ok(
                Resolution {
                    version: v,
                    arch: match over {
                        Some(a) => a,
                        None => base,
                    },
                },
            ),
        },
    }
}

/// The lower-cased alias words are themselves; proved once and reused by the
/// branch tests.
proof fn lemma_alias_literals()
    ensures
        spec_lower("latest"@) == "latest"@,
        spec_lower("node"@) == "node"@,
        spec_lower("lts"@) == "lts"@,
        spec_lower("newest"@) == "newest"@,
        spec_lower("32"@) == "32"@,
        spec_lower("64"@) == "64"@,
{
    reveal_strlit("latest");
    reveal_strlit("node");
    reveal_strlit("lts");
    reveal_strlit("newest");
    reveal_strlit("32");
    reveal_strlit("64");
    assert(spec_lower("latest"@) =~= "latest"@);
    assert(spec_lower("node"@) =~= "node"@);
    assert(spec_lower("lts"@) =~= "lts"@);
    assert(spec_lower("newest"@) =~= "newest"@);
    assert(spec_lower("32"@) =~= "32"@);
    assert(spec_lower("64"@) =~= "64"@);
}

/// Validate the architecture hint against the host width.
pub fn resolve_arch(hint: &str, host: &str) -> (r: Option<ArchMode>)
    ensures
        r == spec_arch_of(hint@, host@),
{
    if hint.unicode_len() > 0 {
        if str_eq(hint, "32") {
            Some(ArchMode::A32)
        } else if str_eq(hint, "64") {
            Some(ArchMode::A64)
        } else if str_eq(hint, "all") {
            Some(ArchMode::All)
        } else {
            None
        }
    } else {
        Some(
            if str_contains(host, "64") {
                ArchMode::A64
            } else {
                ArchMode::A32
            },
        )
    }
}

/// Turn a user token and architecture hint into one concrete version and
/// width, consulting only the given snapshot.
///
/// Every case is pinned by `spec_resolve`: alias words map to the snapshot's
/// latest / lts / newest-installed / current version; a full numeric token
/// denotes exactly itself; a partial numeric token is completed to the
/// highest matching version of the completion pool; everything else is
/// `Unrecognized`, and the error cases say which datum was missing.
pub fn resolve(token: &str, arch_hint: &str, host_arch: &str, local_only: bool, snap: &Snapshot)
    -> (r: Result<Resolution, ResolveError>)
    ensures
        r == spec_resolve(token@, arch_hint@, host_arch@, local_only, *snap),
{
    proof {
        lemma_alias_literals();
    }
    let base = match resolve_arch(arch_hint, host_arch) {
        Some(a) => a,
        None => {
            return Err(ResolveError::BadArch);
        },
    };
    let resolved: Result<(Version, Option<ArchMode>), ResolveError> = if token.unicode_len()
        == 0 {
        Err(ResolveError::EmptyVersion)
    } else if eq_ignore_case(token, "latest") || eq_ignore_case(token, "node") {
        match snap.latest {
            Some(v) => Ok((v, None)),
            None => Err(ResolveError::NoLatest),
        }
    } else if eq_ignore_case(token, "lts") {
        match get_lts(&snap.releases) {
            Some(v) => Ok((v, None)),
            None => Err(ResolveError::NoLts),
        }
    } else if eq_ignore_case(token, "newest") {
        match max_version(&snap.installed) {
            Some(v) => Ok((v, None)),
            None => Err(ResolveError::NoneInstalled),
        }
    } else if eq_ignore_case(token, "32") {
        match snap.current {
            Some(v) => Ok((v, Some(ArchMode::A32))),
            None => Err(ResolveError::NoCurrent),
        }
    } else if eq_ignore_case(token, "64") {
        match snap.current {
            Some(v) => Ok((v, Some(ArchMode::A64))),
            None => Err(ResolveError::NoCurrent),
        }
    } else {
        let stripped = strip_leading_nondigits(token);
        match parse_numeric_token(stripped) {
            ParsedToken::Full(v) => Ok((v, None)),
            ParsedToken::Pair(a, b) => {
                match complete_prefix(a, Some(b), local_only, snap) {
                    Some(v) => Ok((v, None)),
                    None => Err(ResolveError::Unrecognized),
                }
            },
            ParsedToken::Single(a) => {
                match complete_prefix(a, None, local_only, snap) {
                    Some(v) => Ok((v, None)),
                    None => Err(ResolveError::Unrecognized),
                }
            },
            ParsedToken::Invalid => Err(ResolveError::Unrecognized),
        }
    };
    match resolved {
        Err(e) => Err(e),
        Ok((v, over)) => Ok(
            Resolution {
                version: v,
                arch: match over {
                    Some(a) => a,
                    None => base,
                },
            },
        ),
    }
}

/// Complete a one- or two-component prefix to the highest matching version
/// of the completion pool.
fn complete_prefix(major: u64, minor: Option<u64>, local_only: bool, snap: &Snapshot) -> (r:
    Option<Version>)
    ensures
        r == spec_best_match(spec_completion_pool(local_only, *snap), major, minor),
{
    if local_only {
        best_match(&snap.installed, major, minor)
    } else {
        let all = versions_in(&snap.releases, Category::All);
        best_match(&all, major, minor)
    }
}

// ------------------------------------------------------------------
// Laws of resolution.
// ------------------------------------------------------------------
/// Lower-casing keeps a character's digit-ness.
proof fn lemma_lower_digit(c: char)
    ensures
        is_digit(lower_char(c)) == is_digit(c),
        is_digit(c) ==> lower_char(c) == c,
{
}

/// A token with no digit anywhere strips to the empty sequence.
proof fn lemma_no_digit_strips_empty(t: Seq<char>)
    requires
        forall|i: int| 0 <= i < t.len() ==> !is_digit(#[trigger] t[i]),
    ensures
        spec_strip_nondigit(t).len() == 0,
    decreases t.len(),
{
    if t.len() > 0 {
        lemma_no_digit_strips_empty(t.subrange(1, t.len() as int));
    }
}

/// A token whose numeric tail parses at all cannot be one of the alias
/// words: the alias words hold no digit, and the bare width words parse to a
/// single component, never to the arity at hand.
proof fn lemma_parsed_token_not_word(t: Seq<char>, w: Seq<char>)
    requires
        spec_lower(t) == w,
        forall|i: int| 0 <= i < w.len() ==> !is_digit(#[trigger] w[i]),
    ensures
        spec_strip_nondigit(t).len() == 0,
{
    assert forall|i: int| 0 <= i < t.len() implies !is_digit(#[trigger] t[i]) by {
        assert(spec_lower(t)[i] == lower_char(t[i]));
        lemma_lower_digit(t[i]);
    }
    lemma_no_digit_strips_empty(t);
}

/// The alias words hold no digits; proved once from the literals.
proof fn lemma_alias_words_not_numeric()
    ensures
        forall|i: int| 0 <= i < "latest"@.len() ==> !is_digit(#[trigger] "latest"@[i]),
        forall|i: int| 0 <= i < "node"@.len() ==> !is_digit(#[trigger] "node"@[i]),
        forall|i: int| 0 <= i < "lts"@.len() ==> !is_digit(#[trigger] "lts"@[i]),
        forall|i: int| 0 <= i < "newest"@.len() ==> !is_digit(#[trigger] "newest"@[i]),
{
    reveal_strlit("latest");
    reveal_strlit("node");
    reveal_strlit("lts");
    reveal_strlit("newest");
}

/// A lower-cased width word is that word itself: lower-casing only moves
/// letters, and the width words are all digits.
proof fn lemma_width_word_exact(t: Seq<char>, w: Seq<char>)
    requires
        spec_lower(t) == w,
        forall|i: int| 0 <= i < w.len() ==> is_digit(#[trigger] w[i]),
    ensures
        t == w,
{
    assert forall|i: int| 0 <= i < t.len() implies t[i] == w[i] by {
        assert(spec_lower(t)[i] == lower_char(t[i]));
        lemma_lower_digit(t[i]);
    }
    assert(t =~= w);
}

/// LAW: a complete three-component token resolves to exactly that version,
/// without consulting any snapshot — two arbitrary snapshots (and either
/// local-only setting) give the same answer, and under any accepted
/// architecture hint the answer is the token's own version.
pub proof fn lemma_full_token_resolves_exactly(
    token: Seq<char>,
    hint: Seq<char>,
    host: Seq<char>,
    lo1: bool,
    lo2: bool,
    s1: Snapshot,
    s2: Snapshot,
    v: Version,
)
    requires
        spec_parse_token(spec_strip_nondigit(token)) == ParsedToken::Full(v),
    ensures
        spec_resolve(token, hint, host, lo1, s1) == spec_resolve(token, hint, host, lo2, s2),
        spec_arch_of(hint, host) matches Some(a) ==> spec_resolve(token, hint, host, lo1, s1)
            == Ok::<Resolution, ResolveError>(Resolution { version: v, arch: a }),
{
    lemma_token_takes_numeric_branch(token);
}

/// A token whose numeric tail parses with more than one component is neither
/// empty nor any alias word, so resolution takes the numeric branch.
proof fn lemma_token_takes_numeric_branch(token: Seq<char>)
    requires
        spec_parse_token(spec_strip_nondigit(token)) is Full || spec_parse_token(
            spec_strip_nondigit(token),
        ) is Pair,
    ensures
        token.len() > 0,
        spec_lower(token) != "latest"@,
        spec_lower(token) != "node"@,
        spec_lower(token) != "lts"@,
        spec_lower(token) != "newest"@,
        spec_lower(token) != "32"@,
        spec_lower(token) != "64"@,
{
    lemma_alias_words_not_numeric();
    if token.len() == 0 {
        assert(spec_strip_nondigit(token).len() == 0);
    }
    if spec_lower(token) == "latest"@ {
        lemma_parsed_token_not_word(token, "latest"@);
    }
    if spec_lower(token) == "node"@ {
        lemma_parsed_token_not_word(token, "node"@);
    }
    if spec_lower(token) == "lts"@ {
        lemma_parsed_token_not_word(token, "lts"@);
    }
    if spec_lower(token) == "newest"@ {
        lemma_parsed_token_not_word(token, "newest"@);
    }
    reveal_strlit("32");
    reveal_strlit("64");
    if spec_lower(token) == "32"@ {
        lemma_width_word_exact(token, "32"@);
        lemma_width_token_parses_single("32"@);
    }
    if spec_lower(token) == "64"@ {
        lemma_width_word_exact(token, "64"@);
        lemma_width_token_parses_single("64"@);
    }
}

/// "32" and "64" strip to themselves and parse as a bare major component.
proof fn lemma_width_token_parses_single(w: Seq<char>)
    requires
        w.len() == 2,
        is_digit(w[0]),
        is_digit(w[1]),
    ensures
        spec_strip_nondigit(w) == w,
        spec_parse_token(w) matches ParsedToken::Single(_),
{
    assert(spec_strip_nondigit(w) == w);
    assert(!is_triple(w)) by {
        if exists|i: int, j: int| triple_at(w, i, j) {
            let (i, j) = choose|i: int, j: int| triple_at(w, i, j);
        }
    }
    assert(!is_pair(w)) by {
        if exists|i: int| pair_at(w, i) {
            let i = choose|i: int| pair_at(w, i);
        }
    }
    assert(all_digits(w));
    assert(dec_val(w) <= 99) by {
        let dl = w.drop_last();
        assert(dl.len() == 1);
        assert(dl.drop_last() =~= Seq::<char>::empty());
        assert(dec_val(dl.drop_last()) == 0);
        assert(dl.last() == w[0]);
        assert(dec_val(dl) == crate::version::digit_val(w[0]));
        assert(crate::version::digit_val(w[0]) <= 9);
        assert(w.last() == w[1]);
        assert(crate::version::digit_val(w[1]) <= 9);
        assert(dec_val(w) == dec_val(dl) * 10 + crate::version::digit_val(w[1]));
    }
    assert(is_num(w));
}

/// LAW: "latest" and "node" are the same alias — under any one snapshot they
/// resolve to the same answer.
pub proof fn lemma_latest_and_node_agree(
    hint: Seq<char>,
    host: Seq<char>,
    local_only: bool,
    snap: Snapshot,
)
    ensures
        spec_resolve("latest"@, hint, host, local_only, snap) == spec_resolve(
            "node"@,
            hint,
            host,
            local_only,
            snap,
        ),
{
    lemma_alias_literals();
    reveal_strlit("latest");
    reveal_strlit("node");
}

/// LAW: a partial token "X.Y" with at least one release of that line in the
/// index resolves (non-locally) to the highest such release.
pub proof fn lemma_partial_token_picks_highest(
    token: Seq<char>,
    hint: Seq<char>,
    host: Seq<char>,
    snap: Snapshot,
    a: u64,
    b: u64,
)
    requires
        spec_parse_token(spec_strip_nondigit(token)) == ParsedToken::Pair(a, b),
        spec_arch_of(hint, host) is Some,
        exists|i: int|
            0 <= i < snap.releases@.len() && (#[trigger] snap.releases@[i].version).major == a
                && snap.releases@[i].version.minor == b,
    ensures
        spec_resolve(token, hint, host, false, snap) matches Ok(res) && res.version.major == a
            && res.version.minor == b && spec_index_has(snap.releases@, res.version) && (forall|
            i: int,
        |
            0 <= i < snap.releases@.len() && (#[trigger] snap.releases@[i].version).major == a
                && snap.releases@[i].version.minor == b ==> version_le(
                snap.releases@[i].version,
                res.version,
            )),
{
    lemma_token_takes_numeric_branch(token);
    let pool = spec_versions_in(snap.releases@, Category::All);
    lemma_versions_all(snap.releases@);
    let w = choose|i: int|
        0 <= i < snap.releases@.len() && (#[trigger] snap.releases@[i].version).major == a
            && snap.releases@[i].version.minor == b;
    assert(pool[w] == snap.releases@[w].version);
    assert(spec_matches_prefix(pool[w], a, Some(b)));
    lemma_best_match_props(pool, a, Some(b));
    let res = spec_best_match(pool, a, Some(b)).unwrap();
    let k = choose|k: int| 0 <= k < pool.len() && pool[k] == res;
    assert(snap.releases@[k].version == res);
    assert forall|i: int|
        0 <= i < snap.releases@.len() && (#[trigger] snap.releases@[i].version).major == a
            && snap.releases@[i].version.minor == b implies version_le(
        snap.releases@[i].version,
        res,
    ) by {
        assert(pool[i] == snap.releases@[i].version);
        assert(spec_matches_prefix(pool[i], a, Some(b)));
    }
}

/// LAW (canonical round trip): the canonical rendering of any version is a
/// token that resolves to exactly that version, under every snapshot.
pub proof fn lemma_canonical_token_resolves(
    v: Version,
    hint: Seq<char>,
    host: Seq<char>,
    local_only: bool,
    snap: Snapshot,
)
    ensures
        spec_arch_of(hint, host) matches Some(a) ==> spec_resolve(
            crate::version::spec_version_string(v),
            hint,
            host,
            local_only,
            snap,
        ) == Ok::<Resolution, ResolveError>(Resolution { version: v, arch: a }),
{
    crate::version::lemma_version_string_parses(v);
    lemma_full_token_resolves_exactly(
        crate::version::spec_version_string(v),
        hint,
        host,
        local_only,
        local_only,
        snap,
        snap,
        v,
    );
}

/// The `All` bucket of the index is exactly its versions, in order.
pub proof fn lemma_versions_all(s: Seq<Release>)
    ensures
        spec_versions_in(s, Category::All).len() == s.len(),
        forall|i: int|
            0 <= i < s.len() ==> #[trigger] spec_versions_in(s, Category::All)[i] == s[i].version,
    decreases s.len(),
{
    if s.len() > 0 {
        lemma_versions_all(s.drop_last());
        assert(forall|i: int| 0 <= i < s.len() - 1 ==> s.drop_last()[i] == #[trigger] s[i]);
    }
}

} // verus!
