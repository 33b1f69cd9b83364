use vstd::prelude::*;

use crate::strings::{
    spec_after_char, spec_contains_char, spec_until_char, split_once_char, str_eq,
};

verus! {

/// One `push` of a path component: an absolute component replaces the whole
/// path, anything else is appended behind a single separator.
pub open spec fn spec_push_component(base: Seq<char>, p: Seq<char>) -> Seq<char> {
    if p.len() > 0 && p[0] == '/' {
        p
    } else if base.len() == 0 {
        p
    } else if base.last() == '/' {
        base + p
    } else {
        base + seq!['/'] + p
    }
}

/// `base` with every component of `paths` pushed in turn.
pub open spec fn spec_join(base: Seq<char>, paths: Seq<Seq<char>>) -> Seq<char>
    decreases paths.len(),
{
    if paths.len() == 0 {
        base
    } else {
        spec_push_component(spec_join(base, paths.drop_last()), paths.last())
    }
}

/// Join path components onto a base path.
pub fn join(base: &str, paths: Vec<&str>) -> (r: String)
    ensures
        r@ == spec_join(base@, paths.deep_view()),
{
    let mut out: String = base.to_owned();
    let n = paths.len();
    let mut i: usize = 0;
    while i < n
        invariant
            0 <= i <= n == paths@.len(),
            out@ == spec_join(base@, paths.deep_view().subrange(0, i as int)),
        decreases n - i,
    {
        proof {
            assert(paths.deep_view().subrange(0, i as int + 1).drop_last() =~= paths.deep_view()
                .subrange(0, i as int));
            assert(paths.deep_view().subrange(0, i as int + 1).last() == paths.deep_view()[i as int]);
            assert(paths.deep_view()[i as int] == paths@[i as int]@);
        }
        let p = paths[i];
        let pn = p.unicode_len();
        if pn > 0 && p.get_char(0) == '/' {
            out = p.to_owned();
        } else if out.as_str().unicode_len() == 0 {
            out = p.to_owned();
        } else {
            let on = out.as_str().unicode_len();
            let last = out.as_str().get_char(on - 1);
            if last == '/' {
                out.append(p);
            } else {
                out.append("/");
                out.append(p);
                proof {
                    reveal_strlit("/");
                    assert("/"@ =~= seq!['/']);
                }
            }
        }
        i = i + 1;
    }
    assert(paths.deep_view().subrange(0, n as int) =~= paths.deep_view());
    out
}

/// Split a path at every separator; empty pieces are kept.
pub open spec fn spec_split(s: Seq<char>, c: char) -> Seq<Seq<char>>
    decreases s.len(),
    via spec_split_decreases
{
    if !spec_contains_char(s, c) {
        seq![s]
    } else {
        seq![spec_until_char(s, c)] + spec_split(spec_after_char(s, c), c)
    }
}

#[via_fn]
proof fn spec_split_decreases(s: Seq<char>, c: char) {
    if spec_contains_char(s, c) {
        lemma_after_shorter(s, c);
    }
}

proof fn lemma_after_shorter(s: Seq<char>, c: char)
    requires
        spec_contains_char(s, c),
    ensures
        spec_after_char(s, c).len() < s.len(),
        spec_until_char(s, c).len() < s.len(),
    decreases s.len(),
{
    if s.len() > 0 && s[0] != c {
        let t = s.subrange(1, s.len() as int);
        assert(spec_contains_char(t, c)) by {
            let i = choose|i: int| 0 <= i < s.len() && s[i] == c;
            assert(t[i - 1] == c);
        }
        lemma_after_shorter(t, c);
    }
}

/// Split a path into its separator-delimited pieces.
pub fn split_all(s: &str, c: char) -> (r: Vec<String>)
    ensures
        r.deep_view() == spec_split(s@, c),
{
    let mut parts: Vec<String> = Vec::new();
    let mut rem: &str = s;
    loop
        invariant
            spec_split(s@, c) == parts.deep_view() + spec_split(rem@, c),
        decreases rem@.len(),
    {
        let (head, tail, found) = split_once_char(rem, c);
        let ghost before = parts.deep_view();
        if found {
            proof {
                lemma_after_shorter(rem@, c);
            }
            parts.push(head.to_owned());
            rem = tail;
            proof {
                assert(parts.deep_view() =~= before.push(head@));
                assert(before.push(head@) + spec_split(rem@, c) =~= before + (seq![head@]
                    + spec_split(rem@, c)));
            }
        } else {
            proof {
                crate::strings::lemma_split_at(rem@, c, rem@.len() as int);
            }
            parts.push(head.to_owned());
            proof {
                assert(parts.deep_view() =~= before.push(rem@));
                assert(spec_split(rem@, c) =~= seq![rem@]);
                assert(before.push(rem@) =~= before + seq![rem@]);
                assert(parts.deep_view() =~= spec_split(s@, c));
            }
            return parts;
        }
    }
}

/// Normalization of one component onto the cleaned stack: "." and empty
/// pieces vanish, ".." pops what it can, anything else is kept.
pub open spec fn spec_clean_step(acc: Seq<Seq<char>>, seg: Seq<char>) -> Seq<Seq<char>> {
    if seg.len() == 0 || seg == "."@ {
        acc
    } else if seg == ".."@ {
        if acc.len() > 0 {
            acc.drop_last()
        } else {
            acc
        }
    } else {
        acc.push(seg)
    }
}

pub open spec fn spec_clean_segs(parts: Seq<Seq<char>>) -> Seq<Seq<char>>
    decreases parts.len(),
{
    if parts.len() == 0 {
        Seq::empty()
    } else {
        spec_clean_step(spec_clean_segs(parts.drop_last()), parts.last())
    }
}

/// The kept components, joined by single separators.
pub open spec fn spec_render_segs(segs: Seq<Seq<char>>) -> Seq<char>
    decreases segs.len(),
{
    if segs.len() == 0 {
        Seq::empty()
    } else if segs.len() == 1 {
        segs[0]
    } else {
        spec_render_segs(segs.drop_last()) + seq!['/'] + segs.last()
    }
}

/// What `clean` returns: the path's pieces normalized and re-joined, with
/// the leading separator kept for an absolute path.
pub open spec fn spec_clean(s: Seq<char>) -> Seq<char> {
    let abs = s.len() > 0 && s[0] == '/';
    let segs = spec_clean_segs(spec_split(s, '/'));
    if abs {
        seq!['/'] + spec_render_segs(segs)
    } else {
        spec_render_segs(segs)
    }
}

/// Normalize a path: resolve "." and ".." lexically and collapse repeated
/// separators, keeping a leading separator.
pub fn clean(path: &str) -> (r: String)
    ensures
        r@ == spec_clean(path@),
{
    let abs = path.unicode_len() > 0 && path.get_char(0) == '/';
    let parts = split_all(path, '/');
    let mut segs: Vec<String> = Vec::new();
    let n = parts.len();
    let mut i: usize = 0;
    while i < n
        invariant
            0 <= i <= n == parts@.len(),
            segs.deep_view() == spec_clean_segs(parts.deep_view().subrange(0, i as int)),
        decreases n - i,
    {
        proof {
            assert(parts.deep_view().subrange(0, i as int + 1).drop_last() =~= parts.deep_view()
                .subrange(0, i as int));
            assert(parts.deep_view().subrange(0, i as int + 1).last() == parts.deep_view()[i as int]);
            assert(parts.deep_view()[i as int] == parts@[i as int]@);
        }
        let seg = &parts[i];
        if seg.as_str().unicode_len() == 0 || str_eq(seg.as_str(), ".") {
        } else if str_eq(seg.as_str(), "..") {
            if segs.len() > 0 {
                segs.pop();
            }
        } else {
            segs.push(seg.clone());
        }
        i = i + 1;
    }
    proof {
        assert(parts.deep_view().subrange(0, n as int) =~= parts.deep_view());
    }
    let mut out = String::new();
    let m = segs.len();
    let mut j: usize = 0;
    while j < m
        invariant
            0 <= j <= m == segs@.len(),
            out@ == spec_render_segs(segs.deep_view().subrange(0, j as int)),
        decreases m - j,
    {
        proof {
            assert(segs.deep_view().subrange(0, j as int + 1).drop_last() =~= segs.deep_view()
                .subrange(0, j as int));
            assert(segs.deep_view().subrange(0, j as int + 1).last() == segs.deep_view()[j as int]);
            assert(segs.deep_view()[j as int] == segs@[j as int]@);
            reveal_strlit("/");
            assert("/"@ =~= seq!['/']);
        }
        if j > 0 {
            out.append("/");
        }
        out.append(segs[j].as_str());
        j = j + 1;
    }
    proof {
        assert(segs.deep_view().subrange(0, m as int) =~= segs.deep_view());
    }
    if abs {
        let mut r = String::new();
        r.append("/");
        r.append(out.as_str());
        proof {
            reveal_strlit("/");
            assert("/"@ =~= seq!['/']);
            assert(r@ =~= seq!['/'] + out@);
        }
        r
    } else {
        out
    }
}

/// Where one archive entry lands: under `dest`, either at its full
/// archive-relative name, or — when the single top-level folder is being
/// stripped — at its name with the first piece removed.
pub open spec fn spec_entry_dest(dest: Seq<char>, name: Seq<char>, strip: bool) -> Seq<char> {
    if strip {
        dest + seq!['/'] + spec_after_char(name, '/')
    } else {
        dest + seq!['/'] + name
    }
}

/// The destination path for one archive entry.
pub fn entry_dest_path(dest: &str, name: &str, strip: bool) -> (r: String)
    ensures
        r@ == spec_entry_dest(dest@, name@, strip),
{
    let mut out = dest.to_owned();
    out.append("/");
    proof {
        reveal_strlit("/");
        assert("/"@ =~= seq!['/']);
    }
    if strip {
        let (_, tail, _) = split_once_char(name, '/');
        out.append(tail);
    } else {
        out.append(name);
    }
    out
}

} // verus!
