use vstd::prelude::*;

use crate::strings::{spec_starts_with, starts_with};
use crate::version::{
    is_digit, parse_numeric_token, spec_parse_token, ParsedToken, Version,
};

verus! {

/// A character that can stand inside a dotted version number.
pub open spec fn is_run_char(c: char) -> bool {
    is_digit(c) || c == '.'
}

/// The leading run of digits and dots.
pub open spec fn spec_num_run(s: Seq<char>) -> Seq<char>
    decreases s.len(),
{
    if s.len() == 0 || !is_run_char(s[0]) {
        Seq::empty()
    } else {
        seq![s[0]] + spec_num_run(s.subrange(1, s.len() as int))
    }
}

/// The version embedded in the latest-release manifest: the digits-and-dots
/// run behind the first artifact name marker "node-v", which must form a
/// full three-component version.
pub open spec fn spec_extract_latest(s: Seq<char>) -> Option<Version>
    decreases s.len(),
{
    if s.len() == 0 {
        None
    } else if spec_starts_with(s, "node-v"@) {
        match spec_parse_token(
            spec_num_run(s.subrange("node-v"@.len() as int, s.len() as int)),
        ) {
            ParsedToken::Full(v) => Some(v),
            _ => None,
        }
    } else {
        spec_extract_latest(s.subrange(1, s.len() as int))
    }
}

proof fn lemma_extract_skip(s: Seq<char>, k: int)
    requires
        0 <= k <= s.len(),
        forall|m: int|
            0 <= m < k ==> !spec_starts_with(#[trigger] s.subrange(m, s.len() as int), "node-v"@),
    ensures
        spec_extract_latest(s) == spec_extract_latest(s.subrange(k, s.len() as int)),
    decreases k,
{
    if k > 0 {
        assert(s.subrange(0, s.len() as int) =~= s);
        assert(!spec_starts_with(s, "node-v"@));
        if s.len() > 0 {
            let t = s.subrange(1, s.len() as int);
            assert(forall|m: int|
                0 <= m < k - 1 ==> #[trigger] t.subrange(m, t.len() as int) =~= s.subrange(
                    m + 1,
                    s.len() as int,
                ));
            lemma_extract_skip(t, k - 1);
            assert(t.subrange(k - 1, t.len() as int) =~= s.subrange(k, s.len() as int));
        }
    } else {
        assert(s.subrange(0, s.len() as int) =~= s);
    }
}

proof fn lemma_num_run_at(s: Seq<char>, k: int)
    requires
        0 <= k <= s.len(),
        forall|m: int| 0 <= m < k ==> is_run_char(#[trigger] s[m]),
        k < s.len() ==> !is_run_char(s[k]),
    ensures
        spec_num_run(s) == s.subrange(0, k),
    decreases k,
{
    if k == 0 {
        if s.len() > 0 {
            assert(!is_run_char(s[0]));
        }
        assert(s.subrange(0, 0) =~= Seq::<char>::empty());
    } else {
        let t = s.subrange(1, s.len() as int);
        assert(forall|m: int| 0 <= m < t.len() ==> #[trigger] t[m] == s[m + 1]);
        if k < s.len() {
            assert(!is_run_char(t[k - 1]));
        }
        lemma_num_run_at(t, k - 1);
        assert(seq![s[0]] + t.subrange(0, k - 1) =~= s.subrange(0, k));
    }
}

/// The first index at or after `start` that cannot stand inside a dotted
/// version number (or the length).
fn scan_run_end(s: &str, start: usize) -> (j: usize)
    requires
        start <= s@.len(),
    ensures
        start <= j <= s@.len(),
        forall|m: int| start <= m < j ==> is_run_char(#[trigger] s@[m]),
        j < s@.len() ==> !is_run_char(s@[j as int]),
{
    let n = s.unicode_len();
    let mut k: usize = start;
    while k < n
        invariant
            start <= k <= n == s@.len(),
            forall|m: int| start <= m < k ==> is_run_char(#[trigger] s@[m]),
        decreases n - k,
    {
        let c = s.get_char(k);
        if !(('0' <= c && c <= '9') || c == '.') {
            return k;
        }
        k = k + 1;
    }
    n
}

/// Read the newest published version out of the latest-release manifest.
pub fn get_latest(content: &str) -> (r: Option<Version>)
    ensures
        r == spec_extract_latest(content@),
{
    let n = content.unicode_len();
    let mut i: usize = 0;
    while i < n
        invariant
            0 <= i <= n == content@.len(),
            forall|m: int|
                0 <= m < i ==> !spec_starts_with(
                    #[trigger] content@.subrange(m, n as int),
                    "node-v"@,
                ),
        decreases n - i,
    {
        let rest = content.substring_char(i, n);
        if starts_with(rest, "node-v") {
            proof {
                lemma_extract_skip(content@, i as int);
                reveal_strlit("node-v");
                assert(rest@.len() >= "node-v"@.len());
            }
            // The run of digits and dots behind the marker.
            let start = i + 6;
            let j = scan_run_end(content, start);
            let run = content.substring_char(start, j);
            proof {
                let tail = content@.subrange(start as int, n as int);
                assert(forall|m: int| 0 <= m < tail.len() ==> #[trigger] tail[m] == content@[m
                    + start]);
                lemma_num_run_at(tail, j - start);
                assert(tail.subrange(0, j - start) =~= content@.subrange(start as int, j as int));
                assert(rest@.subrange("node-v"@.len() as int, rest@.len() as int) =~= tail);
            }
            return match parse_numeric_token(run) {
                ParsedToken::Full(v) => Some(v),
                _ => None,
            };
        }
        i = i + 1;
    }
    proof {
        lemma_extract_skip(content@, n as int);
        assert(content@.subrange(n as int, n as int).len() == 0);
    }
    None
}

} // verus!
