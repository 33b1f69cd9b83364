use vstd::prelude::*;

verus! {

/// A fully-qualified semantic version: major.minor.patch.
///
/// Versions are immutable once resolved; every operation of the library that
/// needs a concrete release works on this type.
#[derive(Clone, Copy, Debug, PartialEq, Eq, Structural)]
pub struct Version {
    pub major: u64,
    pub minor: u64,
    pub patch: u64,
}

/// Component-wise (lexicographic) strict order on versions.
pub open spec fn version_lt(a: Version, b: Version) -> bool {
    a.major < b.major || (a.major == b.major && (a.minor < b.minor || (a.minor == b.minor
        && a.patch < b.patch)))
}

pub open spec fn version_le(a: Version, b: Version) -> bool {
    version_lt(a, b) || a == b
}

impl Version {
    pub fn new(major: u64, minor: u64, patch: u64) -> (r: Version)
        ensures
            r == (Version { major, minor, patch }),
    {
        Version { major, minor, patch }
    }

    /// True exactly when `self` is strictly below `other` component-wise.
    pub fn lt(&self, other: &Version) -> (r: bool)
        ensures
            r == version_lt(*self, *other),
    {
        self.major < other.major || (self.major == other.major && (self.minor < other.minor || (
        self.minor == other.minor && self.patch < other.patch)))
    }

    pub fn le(&self, other: &Version) -> (r: bool)
        ensures
            r == version_le(*self, *other),
    {
        self.major < other.major || (self.major == other.major && (self.minor < other.minor || (
        self.minor == other.minor && self.patch <= other.patch)))
    }
}

pub proof fn lemma_version_order_total(a: Version, b: Version)
    ensures
        version_le(a, b) || version_le(b, a),
        version_le(a, b) && version_le(b, a) ==> a == b,
{
}

pub open spec fn is_digit(c: char) -> bool {
    '0' <= c && c <= '9'
}

pub open spec fn digit_val(c: char) -> nat {
    ((c as int) - ('0' as int)) as nat
}

/// The value of a sequence of decimal digits, most significant first.
pub open spec fn dec_val(s: Seq<char>) -> nat
    decreases s.len(),
{
    if s.len() == 0 {
        0
    } else {
        dec_val(s.drop_last()) * 10 + digit_val(s.last())
    }
}

pub open spec fn all_digits(s: Seq<char>) -> bool {
    forall|i: int| 0 <= i < s.len() ==> is_digit(#[trigger] s[i])
}

/// A numeric component: non-empty, digits only, and small enough for `u64`.
pub open spec fn is_num(s: Seq<char>) -> bool {
    s.len() > 0 && all_digits(s) && dec_val(s) <= u64::MAX
}

/// `s` is a three-component numeric version whose dots stand at `i` and `j`.
pub open spec fn triple_at(s: Seq<char>, i: int, j: int) -> bool {
    0 <= i < j < s.len() && s[i] == '.' && s[j] == '.' && is_num(s.subrange(0, i)) && is_num(
        s.subrange(i + 1, j)) && is_num(s.subrange(j + 1, s.len() as int))
}

pub open spec fn is_triple(s: Seq<char>) -> bool {
    exists|i: int, j: int| triple_at(s, i, j)
}

pub open spec fn triple_value_at(s: Seq<char>, i: int, j: int) -> Version {
    Version {
        major: dec_val(s.subrange(0, i)) as u64,
        minor: dec_val(s.subrange(i + 1, j)) as u64,
        patch: dec_val(s.subrange(j + 1, s.len() as int)) as u64,
    }
}

/// The version a three-component token denotes.
pub open spec fn triple_value(s: Seq<char>) -> Version {
    let (i, j) = choose|i: int, j: int| triple_at(s, i, j);
    triple_value_at(s, i, j)
}

/// `s` is a two-component numeric prefix ("X.Y") with its dot at `i`.
pub open spec fn pair_at(s: Seq<char>, i: int) -> bool {
    0 <= i < s.len() && s[i] == '.' && is_num(s.subrange(0, i)) && is_num(
        s.subrange(i + 1, s.len() as int),
    )
}

pub open spec fn is_pair(s: Seq<char>) -> bool {
    exists|i: int| pair_at(s, i)
}

pub open spec fn pair_value_at(s: Seq<char>, i: int) -> (u64, u64) {
    (dec_val(s.subrange(0, i)) as u64, dec_val(s.subrange(i + 1, s.len() as int)) as u64)
}

pub open spec fn pair_value(s: Seq<char>) -> (u64, u64) {
    let i = choose|i: int| pair_at(s, i);
    pair_value_at(s, i)
}

/// What a version token parses to: a full version, a partial prefix of one or
/// two components, or nothing numeric at all.
#[derive(Clone, Copy, Debug, PartialEq, Eq, Structural)]
pub enum ParsedToken {
    Full(Version),
    Pair(u64, u64),
    Single(u64),
    Invalid,
}

/// What a numeric version token denotes, as a single mathematical case split.
pub open spec fn spec_parse_token(s: Seq<char>) -> ParsedToken {
    if is_triple(s) {
        ParsedToken::Full(triple_value(s))
    } else if is_pair(s) {
        ParsedToken::Pair(pair_value(s).0, pair_value(s).1)
    } else if is_num(s) {
        ParsedToken::Single(dec_val(s) as u64)
    } else {
        ParsedToken::Invalid
    }
}

proof fn lemma_dec_val_snoc(s: Seq<char>, c: char)
    ensures
        dec_val(s.push(c)) == dec_val(s) * 10 + digit_val(c),
{
    assert(s.push(c).drop_last() =~= s);
    assert(s.push(c).last() == c);
}

proof fn lemma_subrange_snoc(s: Seq<char>, a: int, b: int)
    requires
        0 <= a <= b < s.len(),
    ensures
        s.subrange(a, b + 1) =~= s.subrange(a, b).push(s[b]),
{
}

/// Inside a triple decomposition the only dots of `s` are the two witnesses.
proof fn lemma_triple_dots(s: Seq<char>, i: int, j: int)
    requires
        triple_at(s, i, j),
    ensures
        forall|k: int| 0 <= k < s.len() && #[trigger] s[k] == '.' ==> k == i || k == j,
{
    assert forall|k: int| 0 <= k < s.len() && #[trigger] s[k] == '.' implies k == i || k == j by {
        if k < i {
            assert(s.subrange(0, i)[k] == s[k]);
        } else if i < k < j {
            assert(s.subrange(i + 1, j)[k - i - 1] == s[k]);
        } else if j < k {
            assert(s.subrange(j + 1, s.len() as int)[k - j - 1] == s[k]);
        }
    }
}

proof fn lemma_pair_dots(s: Seq<char>, i: int)
    requires
        pair_at(s, i),
    ensures
        forall|k: int| 0 <= k < s.len() && #[trigger] s[k] == '.' ==> k == i,
{
    assert forall|k: int| 0 <= k < s.len() && #[trigger] s[k] == '.' implies k == i by {
        if k < i {
            assert(s.subrange(0, i)[k] == s[k]);
        } else if i < k {
            assert(s.subrange(i + 1, s.len() as int)[k - i - 1] == s[k]);
        }
    }
}

pub proof fn lemma_triple_unique(s: Seq<char>, i1: int, j1: int, i2: int, j2: int)
    requires
        triple_at(s, i1, j1),
        triple_at(s, i2, j2),
    ensures
        i1 == i2 && j1 == j2,
{
    lemma_triple_dots(s, i1, j1);
    lemma_triple_dots(s, i2, j2);
}

pub proof fn lemma_pair_unique(s: Seq<char>, i1: int, i2: int)
    requires
        pair_at(s, i1),
        pair_at(s, i2),
    ensures
        i1 == i2,
{
    lemma_pair_dots(s, i1);
    lemma_pair_dots(s, i2);
}

/// Parse the decimal run `s[start..end]`; `None` when it is empty, holds a
/// non-digit, or does not fit in `u64`.
fn parse_dec(s: &str, start: usize, end: usize) -> (r: Option<u64>)
    requires
        start <= end <= s@.len(),
    ensures
        match r {
            Some(v) => is_num(s@.subrange(start as int, end as int)) && v == dec_val(
                s@.subrange(start as int, end as int),
            ),
            None => !is_num(s@.subrange(start as int, end as int)),
        },
{
    if start == end {
        assert(s@.subrange(start as int, end as int).len() == 0);
        return None;
    }
    let ghost whole = s@.subrange(start as int, end as int);
    let mut val: u64 = 0;
    let mut k: usize = start;
    while k < end
        invariant
            start <= k <= end <= s@.len(),
            whole == s@.subrange(start as int, end as int),
            all_digits(s@.subrange(start as int, k as int)),
            val == dec_val(s@.subrange(start as int, k as int)),
        decreases end - k,
    {
        let c = s.get_char(k);
        assert(c == s@[k as int]);
        if !('0' <= c && c <= '9') {
            assert(whole[k - start] == s@[k as int]);
            assert(!all_digits(whole));
            return None;
        }
        let d: u64 = (c as u32 as u64) - ('0' as u32 as u64);
        assert(d == digit_val(c));
        proof {
            lemma_subrange_snoc(s@, start as int, k as int);
            lemma_dec_val_snoc(s@.subrange(start as int, k as int), c);
        }
        let next = match val.checked_mul(10) {
            Some(m) => m.checked_add(d),
            None => None,
        };
        match next {
            Some(n) => {
                val = n;
            },
            None => {
                // The run's value exceeds u64::MAX; a longer run only grows it.
                proof {
                    let pre = s@.subrange(start as int, k as int + 1);
                    assert(dec_val(pre) > u64::MAX);
                    lemma_dec_val_prefix_le(s@, start as int, k as int + 1, end as int);
                }
                return None;
            },
        }
        k = k + 1;
    }
    assert(s@.subrange(start as int, k as int) =~= whole);
    Some(val)
}

/// A longer digit run never has a smaller value than its prefix.
proof fn lemma_dec_val_prefix_le(s: Seq<char>, start: int, mid: int, end: int)
    requires
        0 <= start <= mid <= end <= s.len(),
    ensures
        dec_val(s.subrange(start, mid)) <= dec_val(s.subrange(start, end)),
    decreases end - mid,
{
    if mid < end {
        lemma_dec_val_prefix_le(s, start, mid + 1, end);
        lemma_subrange_snoc(s, start, mid);
        lemma_dec_val_snoc(s.subrange(start, mid), s[mid]);
        assert(dec_val(s.subrange(start, mid)) <= dec_val(s.subrange(start, mid + 1)));
    } else {
        assert(s.subrange(start, mid) =~= s.subrange(start, end));
    }
}

/// Parse a numeric version token: "X.Y.Z", "X.Y", or "X".
pub fn parse_numeric_token(s: &str) -> (r: ParsedToken)
    ensures
        r == spec_parse_token(s@),
{
    let n = s.unicode_len();
    // Find the dot positions; more than two make the token invalid.
    let mut dot1: usize = 0;
    let mut dot2: usize = 0;
    let mut dots: usize = 0;
    let mut k: usize = 0;
    while k < n
        invariant
            0 <= k <= n == s@.len(),
            dots <= 2,
            dots >= 1 ==> 0 <= dot1 < k && s@[dot1 as int] == '.',
            dots >= 2 ==> dot1 < dot2 < k && s@[dot2 as int] == '.',
            forall|m: int|
                0 <= m < k && #[trigger] s@[m] == '.' ==> (dots >= 1 && m == dot1) || (dots >= 2
                    && m == dot2),
            dots == 0 ==> forall|m: int| 0 <= m < k ==> #[trigger] s@[m] != '.',
        decreases n - k,
    {
        let c = s.get_char(k);
        if c == '.' {
            if dots == 0 {
                dot1 = k;
                dots = 1;
            } else if dots == 1 {
                dot2 = k;
                dots = 2;
            } else {
                // A third dot: no decomposition of any arity can hold.
                proof {
                    if exists|i: int, j: int| triple_at(s@, i, j) {
                        let (i, j) = choose|i: int, j: int| triple_at(s@, i, j);
                        lemma_triple_dots(s@, i, j);
                    }
                    if exists|i: int| pair_at(s@, i) {
                        let i = choose|i: int| pair_at(s@, i);
                        lemma_pair_dots(s@, i);
                    }
                }
                return ParsedToken::Invalid;
            }
        }
        k = k + 1;
    }
    if dots == 2 {
        proof {
            if exists|i: int| pair_at(s@, i) {
                let i = choose|i: int| pair_at(s@, i);
                lemma_pair_dots(s@, i);
            }
        }
        let a = parse_dec(s, 0, dot1);
        let b = parse_dec(s, dot1 + 1, dot2);
        let c = parse_dec(s, dot2 + 1, n);
        match (a, b, c) {
            (Some(x), Some(y), Some(z)) => {
                proof {
                    assert(triple_at(s@, dot1 as int, dot2 as int));
                    let (i, j) = choose|i: int, j: int| triple_at(s@, i, j);
                    lemma_triple_unique(s@, dot1 as int, dot2 as int, i, j);
                }
                ParsedToken::Full(Version { major: x, minor: y, patch: z })
            },
            _ => {
                proof {
                    if exists|i: int, j: int| triple_at(s@, i, j) {
                        let (i, j) = choose|i: int, j: int| triple_at(s@, i, j);
                        lemma_triple_dots(s@, i, j);
                        assert(i == dot1 as int && j == dot2 as int);
                    }
                }
                ParsedToken::Invalid
            },
        }
    } else if dots == 1 {
        proof {
            if exists|i: int, j: int| triple_at(s@, i, j) {
                let (i, j) = choose|i: int, j: int| triple_at(s@, i, j);
                lemma_triple_dots(s@, i, j);
            }
        }
        let a = parse_dec(s, 0, dot1);
        let b = parse_dec(s, dot1 + 1, n);
        match (a, b) {
            (Some(x), Some(y)) => {
                proof {
                    assert(pair_at(s@, dot1 as int));
                    let i = choose|i: int| pair_at(s@, i);
                    lemma_pair_unique(s@, dot1 as int, i);
                }
                ParsedToken::Pair(x, y)
            },
            _ => {
                proof {
                    if exists|i: int| pair_at(s@, i) {
                        let i = choose|i: int| pair_at(s@, i);
                        lemma_pair_dots(s@, i);
                        assert(i == dot1 as int);
                    }
                }
                ParsedToken::Invalid
            },
        }
    } else {
        proof {
            if exists|i: int, j: int| triple_at(s@, i, j) {
                let (i, j) = choose|i: int, j: int| triple_at(s@, i, j);
                assert(s@[i] == '.');
            }
            if exists|i: int| pair_at(s@, i) {
                let i = choose|i: int| pair_at(s@, i);
                assert(s@[i] == '.');
            }
        }
        match parse_dec(s, 0, n) {
            Some(x) => {
                assert(s@.subrange(0, n as int) =~= s@);
                ParsedToken::Single(x)
            },
            None => {
                assert(s@.subrange(0, n as int) =~= s@);
                ParsedToken::Invalid
            },
        }
    }
}

/// Leading characters that are not decimal digits, dropped: a token such as
/// "v18.20.1" resolves through its numeric tail.
pub open spec fn spec_strip_nondigit(s: Seq<char>) -> Seq<char>
    decreases s.len(),
{
    if s.len() == 0 || is_digit(s[0]) {
        s
    } else {
        spec_strip_nondigit(s.subrange(1, s.len() as int))
    }
}

proof fn lemma_strip_skip(s: Seq<char>, k: int)
    requires
        0 <= k <= s.len(),
        forall|m: int| 0 <= m < k ==> !is_digit(#[trigger] s[m]),
    ensures
        spec_strip_nondigit(s) == spec_strip_nondigit(s.subrange(k, s.len() as int)),
    decreases k,
{
    if k > 0 {
        assert(!is_digit(s[0]));
        assert(s.subrange(1, s.len() as int).subrange(k - 1, s.len() - 1) =~= s.subrange(
            k,
            s.len() as int,
        ));
        lemma_strip_skip(s.subrange(1, s.len() as int), k - 1);
    } else {
        assert(s.subrange(0, s.len() as int) =~= s);
    }
}

/// Drop everything before the first decimal digit.
pub fn strip_leading_nondigits<'a>(s: &'a str) -> (r: &'a str)
    ensures
        r@ == spec_strip_nondigit(s@),
{
    let n = s.unicode_len();
    let mut k: usize = 0;
    while k < n
        invariant
            0 <= k <= n == s@.len(),
            forall|m: int| 0 <= m < k ==> !is_digit(#[trigger] s@[m]),
        decreases n - k,
    {
        let c = s.get_char(k);
        if '0' <= c && c <= '9' {
            proof {
                lemma_strip_skip(s@, k as int);
                assert(is_digit(s@.subrange(k as int, n as int)[0]));
            }
            return s.substring_char(k, n);
        }
        k = k + 1;
    }
    proof {
        lemma_strip_skip(s@, n as int);
        assert(s@.subrange(n as int, n as int).len() == 0);
    }
    s.substring_char(n, n)
}

/// Complete a partial token to a full version by zero-filling the missing
/// components; a full token is kept as it is.
pub open spec fn spec_completed(t: ParsedToken) -> Option<Version> {
    match t {
        ParsedToken::Full(v) => Some(v),
        ParsedToken::Pair(a, b) => Some(Version { major: a, minor: b, patch: 0 }),
        ParsedToken::Single(a) => Some(Version { major: a, minor: 0, patch: 0 }),
        ParsedToken::Invalid => None,
    }
}

/// Zero-fill a partial version token ("18" or "18.20") to a full version.
pub fn clean_version(t: ParsedToken) -> (r: Option<Version>)
    ensures
        r == spec_completed(t),
{
    match t {
        ParsedToken::Full(v) => Some(v),
        ParsedToken::Pair(a, b) => Some(Version { major: a, minor: b, patch: 0 }),
        ParsedToken::Single(a) => Some(Version { major: a, minor: 0, patch: 0 }),
        ParsedToken::Invalid => None,
    }
}

/// The canonical decimal rendering of `n`, most significant digit first.
pub open spec fn spec_dec_string(n: nat) -> Seq<char>
    decreases n,
{
    if n < 10 {
        seq![spec_digit_char(n)]
    } else {
        spec_dec_string(n / 10).push(spec_digit_char(n % 10))
    }
}

pub open spec fn spec_digit_char(d: nat) -> char {
    if d == 0 {
        '0'
    } else if d == 1 {
        '1'
    } else if d == 2 {
        '2'
    } else if d == 3 {
        '3'
    } else if d == 4 {
        '4'
    } else if d == 5 {
        '5'
    } else if d == 6 {
        '6'
    } else if d == 7 {
        '7'
    } else if d == 8 {
        '8'
    } else {
        '9'
    }
}

/// One decimal digit as a string slice.
fn digit_str(d: u64) -> (r: &'static str)
    requires
        d < 10,
    ensures
        r@ =~= seq![spec_digit_char(d as nat)],
{
    proof {
        reveal_strlit("0");
        reveal_strlit("1");
        reveal_strlit("2");
        reveal_strlit("3");
        reveal_strlit("4");
        reveal_strlit("5");
        reveal_strlit("6");
        reveal_strlit("7");
        reveal_strlit("8");
        reveal_strlit("9");
    }
    match d {
        0 => "0",
        1 => "1",
        2 => "2",
        3 => "3",
        4 => "4",
        5 => "5",
        6 => "6",
        7 => "7",
        8 => "8",
        _ => "9",
    }
}

/// Render `n` in decimal.
pub fn u64_to_string(n: u64) -> (r: String)
    ensures
        r@ == spec_dec_string(n as nat),
    decreases n,
{
    if n < 10 {
        let mut s = String::new();
        s.append(digit_str(n));
        assert(s@ =~= spec_dec_string(n as nat));
        s
    } else {
        let mut s = u64_to_string(n / 10);
        s.append(digit_str(n % 10));
        assert(s@ =~= spec_dec_string(n as nat));
        s
    }
}

/// The canonical "major.minor.patch" rendering of a version.
pub open spec fn spec_version_string(v: Version) -> Seq<char> {
    spec_dec_string(v.major as nat) + seq!['.'] + spec_dec_string(v.minor as nat) + seq!['.']
        + spec_dec_string(v.patch as nat)
}

pub fn version_to_string(v: &Version) -> (r: String)
    ensures
        r@ == spec_version_string(*v),
{
    proof {
        reveal_strlit(".");
    }
    let mut s = u64_to_string(v.major);
    s.append(".");
    let minor = u64_to_string(v.minor);
    s.append(minor.as_str());
    s.append(".");
    let patch = u64_to_string(v.patch);
    s.append(patch.as_str());
    assert(s@ =~= spec_version_string(*v));
    s
}


proof fn lemma_digit_char_value(d: nat)
    requires
        d < 10,
    ensures
        is_digit(spec_digit_char(d)),
        digit_val(spec_digit_char(d)) == d,
{
}

/// The decimal rendering of `n` is a non-empty digit string worth `n`.
pub proof fn lemma_dec_string_value(n: nat)
    ensures
        spec_dec_string(n).len() > 0,
        all_digits(spec_dec_string(n)),
        dec_val(spec_dec_string(n)) == n,
    decreases n,
{
    if n < 10 {
        lemma_digit_char_value(n);
        let s = seq![spec_digit_char(n)];
        assert(s.drop_last() =~= Seq::<char>::empty());
        assert(dec_val(Seq::<char>::empty()) == 0);
        assert(dec_val(s.drop_last()) == 0);
        assert(s.last() == spec_digit_char(n));
        assert(dec_val(s) == dec_val(s.drop_last()) * 10 + digit_val(s.last()));
    } else {
        lemma_dec_string_value(n / 10);
        lemma_digit_char_value(n % 10);
        lemma_dec_val_snoc(spec_dec_string(n / 10), spec_digit_char(n % 10));
        vstd::arithmetic::div_mod::lemma_fundamental_div_mod(n as int, 10);
        let s = spec_dec_string(n);
        assert(all_digits(s)) by {
            let p = spec_dec_string(n / 10);
            assert(forall|i: int| 0 <= i < p.len() ==> #[trigger] s[i] == p[i]);
            assert(s[s.len() - 1] == spec_digit_char(n % 10));
        }
    }
}

/// LAW (canonical form): the rendering of a version parses back to exactly
/// that version.
pub proof fn lemma_version_string_parses(v: Version)
    ensures
        is_triple(spec_version_string(v)),
        spec_parse_token(spec_version_string(v)) == ParsedToken::Full(v),
        spec_strip_nondigit(spec_version_string(v)) == spec_version_string(v),
{
    let a = spec_dec_string(v.major as nat);
    let b = spec_dec_string(v.minor as nat);
    let c = spec_dec_string(v.patch as nat);
    lemma_dec_string_value(v.major as nat);
    lemma_dec_string_value(v.minor as nat);
    lemma_dec_string_value(v.patch as nat);
    let s = spec_version_string(v);
    let i = a.len() as int;
    let j = i + 1 + b.len();
    assert(s.len() == a.len() + 1 + b.len() + 1 + c.len());
    assert(s.subrange(0, i) =~= a);
    assert(s[i] == '.');
    assert(s.subrange(i + 1, j) =~= b);
    assert(s[j] == '.');
    assert(s.subrange(j + 1, s.len() as int) =~= c);
    assert(triple_at(s, i, j));
    let (i2, j2) = choose|i2: int, j2: int| triple_at(s, i2, j2);
    lemma_triple_unique(s, i, j, i2, j2);
    assert(triple_value(s) == v);
    assert(is_digit(s[0]));
}

} // verus!
