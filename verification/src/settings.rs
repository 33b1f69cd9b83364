use vstd::prelude::*;

use crate::arch::{spec_validate, validate};
use crate::strings::{
    spec_after_char, spec_contains_char, spec_lower, spec_starts_with, spec_trim, spec_until_char,
    split_once_char, starts_with_ci, str_eq, trim,
};

verus! {

/// The persisted configuration, one `key: value` line each.
pub struct Settings {
    pub root: String,
    pub symlink: String,
    pub arch: String,
    pub proxy: String,
    pub original_path: String,
    pub original_version: String,
    pub node_mirror: String,
    pub npm_mirror: String,
}

/// The key of one settings line: what stands before the first colon of the
/// trimmed line.
pub open spec fn spec_line_key(l: Seq<char>) -> Seq<char> {
    spec_until_char(spec_trim(l), ':')
}

/// The value of one settings line: what stands after the first colon,
/// trimmed.
pub open spec fn spec_line_value(l: Seq<char>) -> Seq<char> {
    spec_trim(spec_after_char(spec_trim(l), ':'))
}

/// The value the settings lines give a key: the last line with that key
/// wins; lines without a colon are skipped.
pub open spec fn spec_lookup(lines: Seq<Seq<char>>, key: Seq<char>) -> Option<Seq<char>>
    decreases lines.len(),
{
    if lines.len() == 0 {
        None
    } else {
        let l = lines.last();
        if spec_contains_char(spec_trim(l), ':') && spec_line_key(l) == key {
            Some(spec_line_value(l))
        } else {
            spec_lookup(lines.drop_last(), key)
        }
    }
}

/// Find the configured value of one key.
pub fn lookup(lines: &Vec<String>, key: &str) -> (r: Option<String>)
    ensures
        match r {
            Some(v) => spec_lookup(lines.deep_view(), key@) == Some(v@),
            None => spec_lookup(lines.deep_view(), key@) is None,
        },
{
    let mut found: Option<String> = None;
    let n = lines.len();
    let mut i: usize = 0;
    while i < n
        invariant
            0 <= i <= n == lines@.len(),
            match found {
                Some(v) => spec_lookup(lines.deep_view().subrange(0, i as int), key@) == Some(v@),
                None => spec_lookup(lines.deep_view().subrange(0, i as int), key@) is None,
            },
        decreases n - i,
    {
        proof {
            assert(lines.deep_view().subrange(0, i as int + 1).drop_last() =~= lines.deep_view()
                .subrange(0, i as int));
            assert(lines.deep_view().subrange(0, i as int + 1).last() == lines.deep_view()[i as int]);
            assert(lines.deep_view()[i as int] == lines@[i as int]@);
        }
        let t = trim(lines[i].as_str());
        let (k, rest, has_colon) = split_once_char(t, ':');
        if has_colon && str_eq(k, key) {
            found = Some(trim(rest).to_owned());
        }
        i = i + 1;
    }
    proof {
        assert(lines.deep_view().subrange(0, n as int) =~= lines.deep_view());
    }
    found
}

pub open spec fn spec_setting_or(
    lines: Seq<Seq<char>>,
    key: Seq<char>,
    default: Seq<char>,
) -> Seq<char> {
    match spec_lookup(lines, key) {
        Some(v) => v,
        None => default,
    }
}

/// The proxy a settings file configures: absent, empty, "none", and — as
/// the loader has always behaved — a value already carrying an http(s)
/// scheme all leave the proxy off; anything else gains the plain scheme.
pub open spec fn spec_proxy_setting(lines: Seq<Seq<char>>) -> Seq<char> {
    match spec_lookup(lines, "proxy"@) {
        None => "none"@,
        Some(p) => if p != "none"@ && p.len() > 0 && !spec_starts_with(spec_lower(p), "http"@) {
            "http://"@ + p
        } else {
            "none"@
        },
    }
}

fn setting_or(lines: &Vec<String>, key: &str, default: &str) -> (r: String)
    ensures
        r@ == spec_setting_or(lines.deep_view(), key@, default@),
{
    match lookup(lines, key) {
        Some(v) => v,
        None => default.to_owned(),
    }
}

/// Read the settings file's lines into one configuration value.
///
/// The architecture setting is normalized against the host width; the
/// proxy follows `spec_proxy_setting`; every other field is the configured
/// value or empty.
pub fn parse_settings(lines: &Vec<String>, host_arch: &str) -> (r: Settings)
    ensures
        r.root@ == spec_setting_or(lines.deep_view(), "root"@, Seq::empty()),
        r.symlink@ == spec_setting_or(lines.deep_view(), "symlink"@, Seq::empty()),
        r.original_path@ == spec_setting_or(lines.deep_view(), "originalpath"@, Seq::empty()),
        r.original_version@ == spec_setting_or(lines.deep_view(), "originalversion"@, Seq::empty()),
        r.node_mirror@ == spec_setting_or(lines.deep_view(), "node_mirror"@, Seq::empty()),
        r.npm_mirror@ == spec_setting_or(lines.deep_view(), "npm_mirror"@, Seq::empty()),
        r.arch@ == spec_validate(
            spec_setting_or(lines.deep_view(), "arch"@, Seq::empty()),
            host_arch@,
        ),
        r.proxy@ == spec_proxy_setting(lines.deep_view()),
{
    proof {
        reveal_strlit("http");
        assert(spec_lower("http"@) =~= "http"@);
    }
    let root = setting_or(lines, "root", "");
    let symlink = setting_or(lines, "symlink", "");
    let original_path = setting_or(lines, "originalpath", "");
    let original_version = setting_or(lines, "originalversion", "");
    let node_mirror = setting_or(lines, "node_mirror", "");
    let npm_mirror = setting_or(lines, "npm_mirror", "");
    let arch_setting = setting_or(lines, "arch", "");
    let arch = validate(arch_setting.as_str(), host_arch);
    let proxy: String = match lookup(lines, "proxy") {
        None => String::from_str("none"),
        Some(p) => {
            if !str_eq(p.as_str(), "none") && p.as_str().unicode_len() > 0 && !starts_with_ci(
                p.as_str(),
                "http",
            ) {
                let mut s = String::from_str("http://");
                s.append(p.as_str());
                s
            } else {
                String::from_str("none")
            }
        },
    };
    proof {
        assert(Seq::<char>::empty() =~= ""@) by {
            reveal_strlit("");
        }
    }
    Settings { root, symlink, arch, proxy, original_path, original_version, node_mirror, npm_mirror }
}

/// Trailing line ends, dropped: the serializer keeps each stored field on
/// its own line.
pub open spec fn spec_trim_crlf(s: Seq<char>) -> Seq<char>
    decreases s.len(),
{
    if s.len() >= 2 && s[s.len() - 2] == '\r' && s[s.len() - 1] == '\n' {
        spec_trim_crlf(s.subrange(0, s.len() - 2))
    } else {
        s
    }
}

fn trim_crlf<'a>(s: &'a str) -> (r: &'a str)
    ensures
        r@ == spec_trim_crlf(s@),
{
    let n = s.unicode_len();
    let mut b: usize = n;
    assert(s@.subrange(0, n as int) =~= s@);
    while b >= 2
        invariant
            0 <= b <= n == s@.len(),
            spec_trim_crlf(s@) == spec_trim_crlf(s@.subrange(0, b as int)),
        decreases b,
    {
        if s.get_char(b - 2) == '\r' && s.get_char(b - 1) == '\n' {
            proof {
                let cur = s@.subrange(0, b as int);
                assert(cur[b - 2] == '\r' && cur[b - 1] == '\n');
                assert(cur.subrange(0, b - 2) =~= s@.subrange(0, b as int - 2));
            }
            b = b - 2;
        } else {
            proof {
                let cur = s@.subrange(0, b as int);
                assert(cur[b - 2] == s@[b - 2] && cur[b - 1] == s@[b - 1]);
            }
            return s.substring_char(0, b);
        }
    }
    s.substring_char(0, b)
}

/// The serialized settings file for these fields.
pub open spec fn spec_settings_content(
    root: Seq<char>,
    arch: Seq<char>,
    proxy: Seq<char>,
    original_path: Seq<char>,
    original_version: Seq<char>,
    node_mirror: Seq<char>,
    npm_mirror: Seq<char>,
) -> Seq<char> {
    "root: "@ + spec_trim_crlf(root) + "\r\n"@ + "arch: "@ + spec_trim_crlf(arch) + "\r\n"@
        + "proxy: "@ + spec_trim_crlf(proxy) + "\r\n"@ + "original_path: "@ + spec_trim_crlf(
        original_path,
    ) + "\r\n"@ + "original_version: "@ + spec_trim_crlf(original_version) + "\r\n"@
        + "node_mirror: "@ + spec_trim_crlf(node_mirror) + "\r\n"@ + "npm_mirror: "@
        + spec_trim_crlf(npm_mirror) + "\r\n"@
}

/// Serialize the settings, one `key: value` line per stored field.
pub fn settings_content(s: &Settings) -> (r: String)
    ensures
        r@ == spec_settings_content(
            s.root@,
            s.arch@,
            s.proxy@,
            s.original_path@,
            s.original_version@,
            s.node_mirror@,
            s.npm_mirror@,
        ),
{
    let mut out = String::from_str("root: ");
    out.append(trim_crlf(s.root.as_str()));
    out.append("\r\n");
    out.append("arch: ");
    out.append(trim_crlf(s.arch.as_str()));
    out.append("\r\n");
    out.append("proxy: ");
    out.append(trim_crlf(s.proxy.as_str()));
    out.append("\r\n");
    out.append("original_path: ");
    out.append(trim_crlf(s.original_path.as_str()));
    out.append("\r\n");
    out.append("original_version: ");
    out.append(trim_crlf(s.original_version.as_str()));
    out.append("\r\n");
    out.append("node_mirror: ");
    out.append(trim_crlf(s.node_mirror.as_str()));
    out.append("\r\n");
    out.append("npm_mirror: ");
    out.append(trim_crlf(s.npm_mirror.as_str()));
    out.append("\r\n");
    proof {
        assert(out@ =~= spec_settings_content(
            s.root@,
            s.arch@,
            s.proxy@,
            s.original_path@,
            s.original_version@,
            s.node_mirror@,
            s.npm_mirror@,
        ));
    }
    out
}

} // verus!
