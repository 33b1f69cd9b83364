use vstd::prelude::*;

use crate::version::is_digit;

verus! {

pub open spec fn spec_contains_char(s: Seq<char>, c: char) -> bool {
    exists|i: int| 0 <= i < s.len() && s[i] == c
}

pub fn contains_char(s: &str, c: char) -> (r: bool)
    ensures
        r == spec_contains_char(s@, c),
{
    let n = s.unicode_len();
    let mut k: usize = 0;
    while k < n
        invariant
            0 <= k <= n == s@.len(),
            forall|m: int| 0 <= m < k ==> s@[m] != c,
        decreases n - k,
    {
        if s.get_char(k) == c {
            return true;
        }
        k = k + 1;
    }
    false
}

pub open spec fn spec_contains_any(s: Seq<char>, chars: Seq<char>) -> bool {
    exists|i: int| 0 <= i < chars.len() && spec_contains_char(s, chars[i])
}

/// Whether `s` holds any one of the characters of `chars`.
pub fn contains_any(s: &str, chars: &str) -> (r: bool)
    ensures
        r == spec_contains_any(s@, chars@),
{
    let n = chars.unicode_len();
    let mut k: usize = 0;
    while k < n
        invariant
            0 <= k <= n == chars@.len(),
            forall|m: int| 0 <= m < k ==> !spec_contains_char(s@, chars@[m]),
        decreases n - k,
    {
        if contains_char(s, chars.get_char(k)) {
            return true;
        }
        k = k + 1;
    }
    false
}

/// `sub` occurs in `s` starting at position `i`.
pub open spec fn match_at(s: Seq<char>, sub: Seq<char>, i: int) -> bool {
    0 <= i && i + sub.len() <= s.len() && s.subrange(i, i + sub.len()) == sub
}

pub open spec fn spec_contains_seq(s: Seq<char>, sub: Seq<char>) -> bool {
    exists|i: int| match_at(s, sub, i)
}

/// Substring search: whether `sub` occurs anywhere in `s`.
pub fn str_contains(s: &str, sub: &str) -> (r: bool)
    ensures
        r == spec_contains_seq(s@, sub@),
{
    let n = s.unicode_len();
    let m = sub.unicode_len();
    if m > n {
        assert(forall|i: int| !match_at(s@, sub@, i));
        return false;
    }
    let mut i: usize = 0;
    while i <= n - m
        invariant
            0 <= i <= n - m + 1,
            m <= n == s@.len(),
            m == sub@.len(),
            forall|p: int| 0 <= p < i ==> !match_at(s@, sub@, p),
        decreases n - m - i + 1,
    {
        let mut j: usize = 0;
        let mut all_eq = true;
        while j < m
            invariant
                0 <= j <= m == sub@.len(),
                0 <= i <= n - m,
                n == s@.len(),
                all_eq <==> (forall|q: int| 0 <= q < j ==> s@[i + q] == sub@[q]),
            decreases m - j,
        {
            if s.get_char(i + j) != sub.get_char(j) {
                all_eq = false;
                j = m;
            } else {
                j = j + 1;
            }
        }
        if all_eq {
            assert(s@.subrange(i as int, i + sub@.len()) =~= sub@);
            assert(match_at(s@, sub@, i as int));
            return true;
        }
        assert(!match_at(s@, sub@, i as int)) by {
            if match_at(s@, sub@, i as int) {
                let q = choose|q: int| 0 <= q < sub@.len() && s@[i + q] != sub@[q];
                assert(s@.subrange(i as int, i + sub@.len())[q] == s@[i + q]);
            }
        }
        i = i + 1;
    }
    assert(forall|p: int| #![auto] p > n - m ==> !match_at(s@, sub@, p));
    false
}

/// Exact string equality, stated over the views.
pub fn str_eq(s: &str, t: &str) -> (r: bool)
    ensures
        r == (s@ == t@),
{
    let n = s.unicode_len();
    let m = t.unicode_len();
    if n != m {
        return false;
    }
    let mut k: usize = 0;
    while k < n
        invariant
            0 <= k <= n == s@.len(),
            n == t@.len(),
            forall|p: int| 0 <= p < k ==> s@[p] == t@[p],
        decreases n - k,
    {
        if s.get_char(k) != t.get_char(k) {
            return false;
        }
        k = k + 1;
    }
    assert(s@ =~= t@);
    true
}

/// ASCII lower-casing of one character.
pub open spec fn lower_char(c: char) -> char {
    if 'A' <= c && c <= 'Z' {
        (((c as u8) + 32) as char)
    } else {
        c
    }
}

pub open spec fn spec_lower(s: Seq<char>) -> Seq<char> {
    s.map_values(|c: char| lower_char(c))
}

/// Case-insensitive (ASCII) string equality.
pub fn eq_ignore_case(s: &str, t: &str) -> (r: bool)
    ensures
        r == (spec_lower(s@) == spec_lower(t@)),
{
    let n = s.unicode_len();
    let m = t.unicode_len();
    if n != m {
        assert(spec_lower(s@).len() != spec_lower(t@).len());
        return false;
    }
    let mut k: usize = 0;
    while k < n
        invariant
            0 <= k <= n == s@.len(),
            n == t@.len(),
            forall|p: int| 0 <= p < k ==> lower_char(s@[p]) == lower_char(t@[p]),
        decreases n - k,
    {
        let a = s.get_char(k);
        let b = t.get_char(k);
        let la = if 'A' <= a && a <= 'Z' {
            ((a as u8) + 32) as char
        } else {
            a
        };
        let lb = if 'A' <= b && b <= 'Z' {
            ((b as u8) + 32) as char
        } else {
            b
        };
        if la != lb {
            assert(spec_lower(s@)[k as int] != spec_lower(t@)[k as int]);
            return false;
        }
        k = k + 1;
    }
    assert(spec_lower(s@) =~= spec_lower(t@));
    true
}

pub open spec fn spec_starts_with(s: Seq<char>, p: Seq<char>) -> bool {
    p.len() <= s.len() && s.subrange(0, p.len() as int) == p
}

pub open spec fn spec_ends_with(s: Seq<char>, p: Seq<char>) -> bool {
    p.len() <= s.len() && s.subrange(s.len() - p.len(), s.len() as int) == p
}

pub fn starts_with(s: &str, p: &str) -> (r: bool)
    ensures
        r == spec_starts_with(s@, p@),
{
    let n = s.unicode_len();
    let m = p.unicode_len();
    if m > n {
        return false;
    }
    let mut k: usize = 0;
    while k < m
        invariant
            0 <= k <= m == p@.len(),
            m <= n == s@.len(),
            forall|q: int| 0 <= q < k ==> s@[q] == p@[q],
        decreases m - k,
    {
        if s.get_char(k) != p.get_char(k) {
            assert(!spec_starts_with(s@, p@)) by {
                if spec_starts_with(s@, p@) {
                    assert(s@.subrange(0, p@.len() as int)[k as int] == s@[k as int]);
                }
            }
            return false;
        }
        k = k + 1;
    }
    assert(s@.subrange(0, p@.len() as int) =~= p@);
    true
}

pub fn ends_with(s: &str, p: &str) -> (r: bool)
    ensures
        r == spec_ends_with(s@, p@),
{
    let n = s.unicode_len();
    let m = p.unicode_len();
    if m > n {
        return false;
    }
    let off = n - m;
    let mut k: usize = 0;
    while k < m
        invariant
            0 <= k <= m == p@.len(),
            m <= n == s@.len(),
            off == n - m,
            forall|q: int| 0 <= q < k ==> s@[off + q] == p@[q],
        decreases m - k,
    {
        if s.get_char(off + k) != p.get_char(k) {
            assert(!spec_ends_with(s@, p@)) by {
                if spec_ends_with(s@, p@) {
                    assert(s@.subrange(s@.len() - p@.len(), s@.len() as int)[k as int] == s@[off
                        + k]);
                }
            }
            return false;
        }
        k = k + 1;
    }
    assert(s@.subrange(s@.len() - p@.len(), s@.len() as int) =~= p@);
    true
}

/// Case-insensitive (ASCII) prefix test.
pub fn starts_with_ci(s: &str, p: &str) -> (r: bool)
    ensures
        r == spec_starts_with(spec_lower(s@), spec_lower(p@)),
{
    let n = s.unicode_len();
    let m = p.unicode_len();
    if m > n {
        return false;
    }
    let mut k: usize = 0;
    while k < m
        invariant
            0 <= k <= m == p@.len(),
            m <= n == s@.len(),
            forall|q: int| 0 <= q < k ==> lower_char(s@[q]) == lower_char(p@[q]),
        decreases m - k,
    {
        let a = s.get_char(k);
        let b = p.get_char(k);
        let la = if 'A' <= a && a <= 'Z' {
            ((a as u8) + 32) as char
        } else {
            a
        };
        let lb = if 'A' <= b && b <= 'Z' {
            ((b as u8) + 32) as char
        } else {
            b
        };
        if la != lb {
            assert(!spec_starts_with(spec_lower(s@), spec_lower(p@))) by {
                if spec_starts_with(spec_lower(s@), spec_lower(p@)) {
                    assert(spec_lower(s@).subrange(0, spec_lower(p@).len() as int)[k as int]
                        == spec_lower(s@)[k as int]);
                }
            }
            return false;
        }
        k = k + 1;
    }
    assert(spec_lower(s@).subrange(0, spec_lower(p@).len() as int) =~= spec_lower(p@));
    true
}

/// Case-insensitive (ASCII) substring search: whether `sub` occurs anywhere
/// in `s` once both are lower-cased.
pub fn str_contains_ci(s: &str, sub: &str) -> (r: bool)
    ensures
        r == spec_contains_seq(spec_lower(s@), spec_lower(sub@)),
{
    let ghost ls = spec_lower(s@);
    let ghost lsub = spec_lower(sub@);
    let n = s.unicode_len();
    let m = sub.unicode_len();
    if m > n {
        assert(forall|i: int| !match_at(ls, lsub, i));
        return false;
    }
    let mut i: usize = 0;
    while i <= n - m
        invariant
            0 <= i <= n - m + 1,
            m <= n == s@.len(),
            m == sub@.len(),
            ls == spec_lower(s@),
            lsub == spec_lower(sub@),
            forall|p: int| 0 <= p < i ==> !match_at(ls, lsub, p),
        decreases n - m - i + 1,
    {
        let mut j: usize = 0;
        let mut all_eq = true;
        while j < m
            invariant
                0 <= j <= m == sub@.len(),
                0 <= i <= n - m,
                n == s@.len(),
                ls == spec_lower(s@),
                lsub == spec_lower(sub@),
                all_eq <==> (forall|q: int| 0 <= q < j ==> ls[i + q] == lsub[q]),
            decreases m - j,
        {
            let a = s.get_char(i + j);
            let b = sub.get_char(j);
            let la = if 'A' <= a && a <= 'Z' {
                ((a as u8) + 32) as char
            } else {
                a
            };
            let lb = if 'A' <= b && b <= 'Z' {
                ((b as u8) + 32) as char
            } else {
                b
            };
            proof {
                assert(ls[i + j] == lower_char(s@[i + j]));
                assert(lsub[j as int] == lower_char(sub@[j as int]));
            }
            if la != lb {
                all_eq = false;
                j = m;
            } else {
                j = j + 1;
            }
        }
        if all_eq {
            assert(ls.subrange(i as int, i + lsub.len()) =~= lsub);
            assert(match_at(ls, lsub, i as int));
            return true;
        }
        assert(!match_at(ls, lsub, i as int)) by {
            if match_at(ls, lsub, i as int) {
                let q = choose|q: int| 0 <= q < lsub.len() && ls[i + q] != lsub[q];
                assert(ls.subrange(i as int, i + lsub.len())[q] == ls[i + q]);
            }
        }
        i = i + 1;
    }
    assert(forall|p: int| #![auto] p > n - m ==> !match_at(ls, lsub, p));
    false
}

/// The whitespace the protocol and the settings file care about.
pub open spec fn is_space(c: char) -> bool {
    c == ' ' || c == '\r' || c == '\n' || c == '\t'
}

pub open spec fn spec_trim_start(s: Seq<char>) -> Seq<char>
    decreases s.len(),
{
    if s.len() == 0 || !is_space(s[0]) {
        s
    } else {
        spec_trim_start(s.subrange(1, s.len() as int))
    }
}

pub open spec fn spec_trim_end(s: Seq<char>) -> Seq<char>
    decreases s.len(),
{
    if s.len() == 0 || !is_space(s.last()) {
        s
    } else {
        spec_trim_end(s.drop_last())
    }
}

pub open spec fn spec_trim(s: Seq<char>) -> Seq<char> {
    spec_trim_end(spec_trim_start(s))
}

proof fn lemma_trim_start_skip(s: Seq<char>, k: int)
    requires
        0 <= k <= s.len(),
        forall|m: int| 0 <= m < k ==> is_space(#[trigger] s[m]),
    ensures
        spec_trim_start(s) == spec_trim_start(s.subrange(k, s.len() as int)),
    decreases k,
{
    if k > 0 {
        assert(is_space(s[0]));
        assert(s.subrange(1, s.len() as int).subrange(k - 1, s.len() - 1) =~= s.subrange(
            k,
            s.len() as int,
        ));
        lemma_trim_start_skip(s.subrange(1, s.len() as int), k - 1);
    } else {
        assert(s.subrange(0, s.len() as int) =~= s);
    }
}

proof fn lemma_trim_end_skip(s: Seq<char>, k: int)
    requires
        0 <= k <= s.len(),
        forall|m: int| k <= m < s.len() ==> is_space(#[trigger] s[m]),
    ensures
        spec_trim_end(s) == spec_trim_end(s.subrange(0, k)),
    decreases s.len() - k,
{
    if k < s.len() {
        assert(is_space(s.last()));
        assert(s.drop_last() =~= s.subrange(0, s.len() - 1));
        lemma_trim_end_skip(s.subrange(0, s.len() - 1), k);
        assert(s.subrange(0, s.len() - 1).subrange(0, k) =~= s.subrange(0, k));
    } else {
        assert(s.subrange(0, k) =~= s);
    }
}

/// The index of the first non-whitespace character, or the length.
fn scan_start(s: &str) -> (a: usize)
    ensures
        0 <= a <= s@.len(),
        forall|m: int| 0 <= m < a ==> is_space(#[trigger] s@[m]),
        a < s@.len() ==> !is_space(s@[a as int]),
{
    let n = s.unicode_len();
    let mut k: usize = 0;
    while k < n
        invariant
            0 <= k <= n == s@.len(),
            forall|m: int| 0 <= m < k ==> is_space(#[trigger] s@[m]),
        decreases n - k,
    {
        let c = s.get_char(k);
        if !(c == ' ' || c == '\r' || c == '\n' || c == '\t') {
            return k;
        }
        k = k + 1;
    }
    n
}

/// The index one past the last non-whitespace character at or after `a`.
fn scan_end(s: &str, a: usize) -> (b: usize)
    requires
        a <= s@.len(),
    ensures
        a <= b <= s@.len(),
        forall|m: int| b <= m < s@.len() ==> is_space(#[trigger] s@[m]),
        b > a ==> !is_space(s@[b - 1]),
{
    let n = s.unicode_len();
    let mut k: usize = n;
    while k > a
        invariant
            a <= k <= n == s@.len(),
            forall|m: int| k <= m < n ==> is_space(#[trigger] s@[m]),
        decreases k,
    {
        let c = s.get_char(k - 1);
        if !(c == ' ' || c == '\r' || c == '\n' || c == '\t') {
            return k;
        }
        k = k - 1;
    }
    k
}

/// Strip leading and trailing whitespace.
pub fn trim<'a>(s: &'a str) -> (r: &'a str)
    ensures
        r@ == spec_trim(s@),
{
    let n = s.unicode_len();
    let a = scan_start(s);
    let b = scan_end(s, a);
    proof {
        lemma_trim_start_skip(s@, a as int);
        let tail = s@.subrange(a as int, n as int);
        if a < b {
            assert(!is_space(s@[a as int]));
            assert(tail[0] == s@[a as int]);
            assert(spec_trim_start(tail) == tail);
            assert(forall|m: int| b - a <= m < tail.len() ==> is_space(#[trigger] tail[m]));
            lemma_trim_end_skip(tail, b - a);
            assert(tail.subrange(0, b - a) =~= s@.subrange(a as int, b as int));
            assert(!is_space(s@[b - 1]));
        } else {
            assert(tail.len() == n - a);
            assert(forall|m: int| 0 <= m < tail.len() ==> is_space(#[trigger] tail[m]));
            if tail.len() > 0 {
                assert(is_space(tail[0]));
            }
            lemma_trim_start_skip(tail, tail.len() as int);
            assert(tail.subrange(tail.len() as int, tail.len() as int) =~= Seq::<char>::empty());
            assert(spec_trim_start(s@) =~= Seq::<char>::empty());
            assert(s@.subrange(a as int, b as int) =~= Seq::<char>::empty());
        }
    }
    s.substring_char(a, b)
}

/// The prefix of `s` before the first `c`; all of `s` when `c` is absent.
pub open spec fn spec_until_char(s: Seq<char>, c: char) -> Seq<char>
    decreases s.len(),
{
    if s.len() == 0 {
        s
    } else if s[0] == c {
        Seq::empty()
    } else {
        seq![s[0]] + spec_until_char(s.subrange(1, s.len() as int), c)
    }
}

/// The suffix of `s` after the first `c`; empty when `c` is absent.
pub open spec fn spec_after_char(s: Seq<char>, c: char) -> Seq<char>
    decreases s.len(),
{
    if s.len() == 0 {
        Seq::empty()
    } else if s[0] == c {
        s.subrange(1, s.len() as int)
    } else {
        spec_after_char(s.subrange(1, s.len() as int), c)
    }
}

pub proof fn lemma_split_at(s: Seq<char>, c: char, i: int)
    requires
        0 <= i <= s.len(),
        forall|m: int| 0 <= m < i ==> s[m] != c,
        i < s.len() ==> s[i] == c,
    ensures
        i < s.len() ==> spec_until_char(s, c) == s.subrange(0, i) && spec_after_char(s, c)
            == s.subrange(i + 1, s.len() as int),
        i == s.len() ==> spec_until_char(s, c) == s && spec_after_char(s, c) == Seq::<
            char,
        >::empty(),
    decreases i,
{
    if s.len() == 0 {
    } else if i == 0 {
        if i < s.len() {
            assert(s.subrange(0, 0) =~= Seq::<char>::empty());
        }
    } else {
        let t = s.subrange(1, s.len() as int);
        lemma_split_at(t, c, i - 1);
        if i < s.len() {
            assert(t.subrange(0, i - 1) =~= s.subrange(1, i));
            assert(seq![s[0]] + s.subrange(1, i) =~= s.subrange(0, i));
            assert(t.subrange(i, t.len() as int) =~= s.subrange(i + 1, s.len() as int));
        } else {
            assert(seq![s[0]] + t =~= s);
        }
    }
}

/// Split at the first occurrence of `c`: the part before it, the part after
/// it, and whether `c` occurred at all.
pub fn split_once_char<'a>(s: &'a str, c: char) -> (r: (&'a str, &'a str, bool))
    ensures
        r.0@ == spec_until_char(s@, c),
        r.1@ == spec_after_char(s@, c),
        r.2 == spec_contains_char(s@, c),
{
    let n = s.unicode_len();
    let mut k: usize = 0;
    while k < n
        invariant
            0 <= k <= n == s@.len(),
            forall|m: int| 0 <= m < k ==> s@[m] != c,
        decreases n - k,
    {
        if s.get_char(k) == c {
            proof {
                lemma_split_at(s@, c, k as int);
            }
            return (s.substring_char(0, k), s.substring_char(k + 1, n), true);
        }
        k = k + 1;
    }
    proof {
        lemma_split_at(s@, c, n as int);
    }
    (s.substring_char(0, n), s.substring_char(n, n), false)
}


/// A character that can open a bare variable name.
pub open spec fn is_name_start(c: char) -> bool {
    ('a' <= c && c <= 'z') || ('A' <= c && c <= 'Z') || c == '_'
}

/// A character that can continue a bare variable name.
pub open spec fn is_name_char(c: char) -> bool {
    is_name_start(c) || is_digit(c)
}

/// The leading run of name characters.
pub open spec fn spec_name_run(s: Seq<char>) -> Seq<char>
    decreases s.len(),
{
    if s.len() == 0 || !is_name_char(s[0]) {
        Seq::empty()
    } else {
        seq![s[0]] + spec_name_run(s.subrange(1, s.len() as int))
    }
}

/// The value a variable list gives a name; absent names substitute to
/// nothing.
pub open spec fn spec_var_value(vars: Seq<(String, String)>, name: Seq<char>) -> Seq<char>
    decreases vars.len(),
{
    if vars.len() == 0 {
        Seq::empty()
    } else if vars[0].0@ == name {
        vars[0].1@
    } else {
        spec_var_value(vars.subrange(1, vars.len() as int), name)
    }
}

/// Whether a braced placeholder `${name}` with a non-empty name opens the
/// sequence.
pub open spec fn spec_braced_at_start(s: Seq<char>) -> bool {
    s.len() >= 2 && s[0] == '$' && s[1] == '{' && spec_contains_char(
        s.subrange(2, s.len() as int),
        '}',
    ) && spec_until_char(s.subrange(2, s.len() as int), '}').len() > 0
}

/// Whether a bare placeholder `$name` opens the sequence.
pub open spec fn spec_bare_at_start(s: Seq<char>) -> bool {
    s.len() >= 2 && s[0] == '$' && is_name_start(s[1])
}

/// The input with every `${name}` and `$name` placeholder replaced by the
/// variable's value (or nothing); everything else is copied through.
pub open spec fn spec_expand(s: Seq<char>, vars: Seq<(String, String)>) -> Seq<char>
    decreases s.len(),
    via spec_expand_decreases
{
    if s.len() == 0 {
        Seq::empty()
    } else if spec_braced_at_start(s) {
        let name = spec_until_char(s.subrange(2, s.len() as int), '}');
        spec_var_value(vars, name) + spec_expand(
            s.subrange(3 + name.len() as int, s.len() as int),
            vars,
        )
    } else if spec_bare_at_start(s) {
        let name = seq![s[1]] + spec_name_run(s.subrange(2, s.len() as int));
        spec_var_value(vars, name) + spec_expand(
            s.subrange(1 + name.len() as int, s.len() as int),
            vars,
        )
    } else {
        seq![s[0]] + spec_expand(s.subrange(1, s.len() as int), vars)
    }
}

#[via_fn]
proof fn spec_expand_decreases(s: Seq<char>, vars: Seq<(String, String)>) {
    if s.len() > 0 && spec_braced_at_start(s) {
        lemma_until_shorter(s.subrange(2, s.len() as int), '}');
    }
    if s.len() > 0 && !spec_braced_at_start(s) && spec_bare_at_start(s) {
        lemma_name_run_len(s.subrange(2, s.len() as int));
    }
}

/// The name run is never longer than what it runs over.
proof fn lemma_name_run_len(s: Seq<char>)
    ensures
        spec_name_run(s).len() <= s.len(),
    decreases s.len(),
{
    if s.len() > 0 && is_name_char(s[0]) {
        lemma_name_run_len(s.subrange(1, s.len() as int));
    }
}

/// The prefix before a contained character is strictly shorter.
pub proof fn lemma_until_shorter(s: Seq<char>, c: char)
    requires
        spec_contains_char(s, c),
    ensures
        spec_until_char(s, c).len() < s.len(),
    decreases s.len(),
{
    if s.len() > 0 && s[0] != c {
        let t = s.subrange(1, s.len() as int);
        assert(spec_contains_char(t, c)) by {
            let i = choose|i: int| 0 <= i < s.len() && s[i] == c;
            assert(t[i - 1] == c);
        }
        lemma_until_shorter(t, c);
    }
}

/// A run without any marker expands to itself.
proof fn lemma_expand_plain(s: Seq<char>, vars: Seq<(String, String)>, j: int)
    requires
        0 <= j <= s.len(),
        forall|m: int| 0 <= m < j ==> s[m] != '$',
    ensures
        spec_expand(s, vars) == s.subrange(0, j) + spec_expand(s.subrange(j, s.len() as int), vars),
    decreases j,
{
    if j == 0 {
        assert(s.subrange(0, s.len() as int) =~= s);
        assert(s.subrange(0, 0) + spec_expand(s, vars) =~= spec_expand(s, vars));
    } else {
        assert(s[0] != '$');
        let t = s.subrange(1, s.len() as int);
        assert(forall|m: int| 0 <= m < t.len() ==> #[trigger] t[m] == s[m + 1]);
        lemma_expand_plain(t, vars, j - 1);
        assert(t.subrange(0, j - 1) =~= s.subrange(1, j));
        assert(t.subrange(j - 1, t.len() as int) =~= s.subrange(j, s.len() as int));
        assert(seq![s[0]] + (s.subrange(1, j) + spec_expand(s.subrange(j, s.len() as int), vars))
            =~= s.subrange(0, j) + spec_expand(s.subrange(j, s.len() as int), vars));
    }
}

/// Look one name up in the variable list.
fn var_value(vars: &Vec<(String, String)>, name: &str) -> (r: String)
    ensures
        r@ == spec_var_value(vars@, name@),
{
    let n = vars.len();
    let mut i: usize = 0;
    assert(vars@.subrange(0, n as int) =~= vars@);
    while i < n
        invariant
            0 <= i <= n == vars@.len(),
            spec_var_value(vars@, name@) == spec_var_value(
                vars@.subrange(i as int, n as int),
                name@,
            ),
        decreases n - i,
    {
        proof {
            let rest = vars@.subrange(i as int, n as int);
            assert(rest[0] == vars@[i as int]);
            assert(rest.subrange(1, rest.len() as int) =~= vars@.subrange(i as int + 1, n as int));
        }
        if str_eq(vars[i].0.as_str(), name) {
            return vars[i].1.clone();
        }
        i = i + 1;
    }
    assert(vars@.subrange(n as int, n as int).len() == 0);
    String::new()
}

/// The first marker at or after `start`, or the length.
fn scan_to_marker(s: &str, start: usize) -> (j: usize)
    requires
        start <= s@.len(),
    ensures
        start <= j <= s@.len(),
        forall|m: int| start <= m < j ==> s@[m] != '$',
        j < s@.len() ==> s@[j as int] == '$',
{
    let n = s.unicode_len();
    let mut k: usize = start;
    while k < n
        invariant
            start <= k <= n == s@.len(),
            forall|m: int| start <= m < k ==> s@[m] != '$',
        decreases n - k,
    {
        if s.get_char(k) == '$' {
            return k;
        }
        k = k + 1;
    }
    n
}

/// The end of the bare name starting at `start`.
fn scan_name_end(s: &str, start: usize) -> (j: usize)
    requires
        start <= s@.len(),
    ensures
        start <= j <= s@.len(),
        forall|m: int| start <= m < j ==> is_name_char(#[trigger] s@[m]),
        j < s@.len() ==> !is_name_char(s@[j as int]),
{
    let n = s.unicode_len();
    let mut k: usize = start;
    while k < n
        invariant
            start <= k <= n == s@.len(),
            forall|m: int| start <= m < k ==> is_name_char(#[trigger] s@[m]),
        decreases n - k,
    {
        let c = s.get_char(k);
        let name_char = ('a' <= c && c <= 'z') || ('A' <= c && c <= 'Z') || c == '_' || ('0' <= c
            && c <= '9');
        if !name_char {
            return k;
        }
        k = k + 1;
    }
    n
}

proof fn lemma_name_run_at(s: Seq<char>, k: int)
    requires
        0 <= k <= s.len(),
        forall|m: int| 0 <= m < k ==> is_name_char(#[trigger] s[m]),
        k < s.len() ==> !is_name_char(s[k]),
    ensures
        spec_name_run(s) == s.subrange(0, k),
    decreases k,
{
    if k == 0 {
        if s.len() > 0 {
            assert(!is_name_char(s[0]));
        }
        assert(s.subrange(0, 0) =~= Seq::<char>::empty());
    } else {
        let t = s.subrange(1, s.len() as int);
        assert(forall|m: int| 0 <= m < t.len() ==> #[trigger] t[m] == s[m + 1]);
        if k < s.len() {
            assert(!is_name_char(t[k - 1]));
        }
        lemma_name_run_at(t, k - 1);
        assert(seq![s[0]] + t.subrange(0, k - 1) =~= s.subrange(0, k));
    }
}

/// Substitute `${name}` and `$name` placeholders from a variable list.
pub fn replace_env_vars(input: &str, vars: &Vec<(String, String)>) -> (r: String)
    ensures
        r@ == spec_expand(input@, vars@),
{
    let n = input.unicode_len();
    let mut out = String::new();
    let mut i: usize = 0;
    proof {
        assert(input@.subrange(0, n as int) =~= input@);
        assert(Seq::<char>::empty() + spec_expand(input@, vars@) =~= spec_expand(input@, vars@));
    }
    while i < n
        invariant
            0 <= i <= n == input@.len(),
            spec_expand(input@, vars@) == out@ + spec_expand(
                input@.subrange(i as int, n as int),
                vars@,
            ),
        decreases n - i,
    {
        let ghost rem = input@.subrange(i as int, n as int);
        // Copy the run up to the next marker through unchanged.
        let j = scan_to_marker(input, i);
        if j > i {
            out.append(input.substring_char(i, j));
            proof {
                assert(forall|m: int| 0 <= m < j - i ==> #[trigger] rem[m] == input@[m + i]);
                lemma_expand_plain(rem, vars@, j - i);
                assert(rem.subrange(0, j - i) =~= input@.subrange(i as int, j as int));
                assert(rem.subrange(j - i, rem.len() as int) =~= input@.subrange(
                    j as int,
                    n as int,
                ));
            }
            i = j;
            continue ;
        }
        // A marker stands at `i`.
        let ghost t = input@.subrange(i as int, n as int);
        proof {
            assert(t[0] == input@[i as int] && t[0] == '$');
            if i + 1 < n {
                assert(t[1] == input@[i as int + 1]);
            }
        }
        if i + 1 < n && input.get_char(i + 1) == '{' {
            let after = input.substring_char(i + 2, n);
            let (name, _, closed) = split_once_char(after, '}');
            proof {
                assert(after@ =~= t.subrange(2, t.len() as int));
            }
            if closed && name.unicode_len() > 0 {
                assert(spec_braced_at_start(t));
                let value = var_value(vars, name);
                out.append(value.as_str());
                proof {
                    lemma_until_shorter(t.subrange(2, t.len() as int), '}');
                    assert(name@.len() < t.len() - 2);
                }
                let consumed = 3 + name.unicode_len();
                proof {
                    assert(t.subrange(3 + name@.len() as int, t.len() as int) =~= input@.subrange(
                        i + consumed,
                        n as int,
                    ));
                }
                i = i + consumed;
            } else {
                // "${" with no closing brace or an empty name: the marker
                // is an ordinary character.
                assert(!spec_braced_at_start(t) && !spec_bare_at_start(t)) by {
                    assert(t[1] == '{');
                }
                out.append("$");
                proof {
                    reveal_strlit("$");
                    assert("$"@ =~= seq![t[0]]);
                    assert(t.subrange(1, t.len() as int) =~= input@.subrange(
                        i as int + 1,
                        n as int,
                    ));
                }
                i = i + 1;
            }
        } else if i + 1 < n {
            let c = input.get_char(i + 1);
            if ('a' <= c && c <= 'z') || ('A' <= c && c <= 'Z') || c == '_' {
                assert(spec_bare_at_start(t));
                let end = scan_name_end(input, i + 2);
                let name = input.substring_char(i + 1, end);
                let value = var_value(vars, name);
                out.append(value.as_str());
                proof {
                    let tail = t.subrange(2, t.len() as int);
                    assert(forall|m: int| 0 <= m < tail.len() ==> #[trigger] tail[m] == input@[m
                        + i + 2]);
                    lemma_name_run_at(tail, end - (i + 2));
                    assert(tail.subrange(0, end - (i + 2)) =~= input@.subrange(
                        i as int + 2,
                        end as int,
                    ));
                    assert(name@ =~= seq![t[1]] + spec_name_run(tail));
                    assert(t.subrange(1 + name@.len() as int, t.len() as int) =~= input@.subrange(
                        end as int,
                        n as int,
                    ));
                }
                i = end;
            } else {
                assert(!spec_braced_at_start(t) && !spec_bare_at_start(t)) by {
                    assert(t[1] == input@[i as int + 1]);
                }
                out.append("$");
                proof {
                    reveal_strlit("$");
                    assert("$"@ =~= seq![t[0]]);
                    assert(t.subrange(1, t.len() as int) =~= input@.subrange(
                        i as int + 1,
                        n as int,
                    ));
                }
                i = i + 1;
            }
        } else {
            // A trailing marker with nothing behind it.
            assert(!spec_braced_at_start(t) && !spec_bare_at_start(t)) by {
                assert(t.len() == 1);
            }
            out.append("$");
            proof {
                reveal_strlit("$");
                assert("$"@ =~= seq![t[0]]);
                assert(t.subrange(1, t.len() as int) =~= input@.subrange(i as int + 1, n as int));
            }
            i = i + 1;
        }
    }
    proof {
        assert(input@.subrange(n as int, n as int).len() == 0);
        assert(out@ + Seq::<char>::empty() =~= out@);
    }
    out
}

} // verus!
