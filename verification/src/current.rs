use vstd::prelude::*;

use crate::strings::{spec_trim, spec_until_char, split_once_char, str_eq, trim};
use crate::version::{
    parse_numeric_token, spec_parse_token, spec_strip_nondigit, strip_leading_nondigits,
    ParsedToken, Version,
};

verus! {

/// What the runtime's own version report ("v18.20.1", possibly with a
/// pre-release tail and trailing line ends) denotes: the line is trimmed,
/// the leading marker dropped, anything from the first dash on cut away,
/// and the remainder must be a full three-component version.
pub open spec fn spec_reported_version(s: Seq<char>) -> Option<Version> {
    match spec_parse_token(spec_until_char(spec_strip_nondigit(spec_trim(s)), '-')) {
        ParsedToken::Full(v) => Some(v),
        _ => None,
    }
}

/// Read the version out of the runtime's version report.
pub fn parse_reported_version(s: &str) -> (r: Option<Version>)
    ensures
        r == spec_reported_version(s@),
{
    let t = trim(s);
    let stripped = strip_leading_nondigits(t);
    let (body, _, _) = split_once_char(stripped, '-');
    match parse_numeric_token(body) {
        ParsedToken::Full(v) => Some(v),
        _ => None,
    }
}

/// The width the runtime reports for its own process: only "x64" counts
/// as 64-bit.
pub fn width_from_process_arch(s: &str) -> (r: &'static str)
    ensures
        s@ == "x64"@ ==> r@ == "64"@,
        s@ != "x64"@ ==> r@ == "32"@,
{
    if str_eq(s, "x64") {
        "64"
    } else {
        "32"
    }
}

} // verus!
