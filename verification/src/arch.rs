use vstd::prelude::*;

use crate::strings::{spec_contains_seq, str_contains, str_eq};

verus! {

/// The word width goblin reads out of an executable image's header:
/// `Some(is_64)` for an ELF, PE or single-architecture Mach-O binary,
/// `None` for anything else. A pure function of the bytes alone.
pub uninterp spec fn object_width_of(bytes: Seq<u8>) -> Option<bool>;

/// Relies on goblin::Object::parse: it reads the container header of an
/// executable image and reports, per format, whether the binary is 64-bit.
#[verifier::external_body]
fn parse_object_is_64(bytes: &Vec<u8>) -> (r: Option<bool>)
    ensures
        r == object_width_of(bytes@),
{
    match goblin::Object::parse(bytes) {
        Ok(goblin::Object::Elf(elf)) => Some(elf.is_64),
        Ok(goblin::Object::PE(pe)) => Some(pe.is_64),
        Ok(goblin::Object::Mach(goblin::mach::Mach::Binary(macho))) => Some(macho.is_64),
        _ => None,
    }
}

/// The width label of an executable image: "64" or "32" by its header,
/// "?" when the format is not recognized.
pub fn bit(bytes: &Vec<u8>) -> (r: &'static str)
    ensures
        object_width_of(bytes@) == Some(true) ==> r@ == "64"@,
        object_width_of(bytes@) == Some(false) ==> r@ == "32"@,
        object_width_of(bytes@) is None ==> r@ == "?"@,
{
    match parse_object_is_64(bytes) {
        Some(true) => "64",
        Some(false) => "32",
        None => "?",
    }
}

/// The width of an executable image as the inventory records it: whether
/// the header was readable, and whether it showed 64-bit.
pub fn executable_width(bytes: &Vec<u8>) -> (r: (bool, bool))
    ensures
        r.0 == (object_width_of(bytes@) is Some),
        r.0 ==> r.1 == object_width_of(bytes@).unwrap(),
{
    match parse_object_is_64(bytes) {
        Some(w) => (true, w),
        None => (false, false),
    }
}

/// The artifact architecture name for a host architecture, or "?" for one
/// the distribution does not offer.
pub fn arch_map(host: &str) -> (r: &'static str)
    ensures
        host@ == "x86"@ ==> r@ == "x86"@,
        host@ == "x86_64"@ ==> r@ == "x64"@,
        host@ == "arm"@ ==> r@ == "armv6"@,
        host@ == "armv7"@ ==> r@ == "armv7"@,
        host@ == "aarch64"@ ==> r@ == "arm64"@,
{
    proof {
        lemma_arch_names_distinct();
    }
    if str_eq(host, "x86") {
        "x86"
    } else if str_eq(host, "x86_64") {
        "x64"
    } else if str_eq(host, "arm") {
        "armv6"
    } else if str_eq(host, "armv7") {
        "armv7"
    } else if str_eq(host, "aarch64") {
        "arm64"
    } else {
        "?"
    }
}

proof fn lemma_arch_names_distinct()
    ensures
        "x86"@ != "x86_64"@,
        "x86"@ != "arm"@,
        "x86"@ != "armv7"@,
        "x86"@ != "aarch64"@,
        "x86_64"@ != "arm"@,
        "x86_64"@ != "armv7"@,
        "x86_64"@ != "aarch64"@,
        "arm"@ != "armv7"@,
        "arm"@ != "aarch64"@,
        "armv7"@ != "aarch64"@,
        "x64"@ != "x86"@,
        "armv6"@ != "x86"@,
{
    broadcast use vstd::string::group_string_axioms;

    reveal_strlit("x86");
    reveal_strlit("x86_64");
    reveal_strlit("arm");
    reveal_strlit("armv7");
    reveal_strlit("aarch64");
    reveal_strlit("x64");
    reveal_strlit("armv6");
    assert("x86"@.len() == 3);
    assert("x86_64"@.len() == 6);
    assert("arm"@.len() == 3);
    assert("armv7"@.len() == 5);
    assert("aarch64"@.len() == 7);
    assert("x64"@.len() == 3);
    assert("armv6"@.len() == 5);
    assert("x86"@[0] == 'x' && "arm"@[0] == 'a');
    assert("x86"@[1] == '8' && "x64"@[1] == '6');
}

/// The loose width check of an architecture token: empty falls back to the
/// host architecture, and anything that names "64" counts as 64-bit.
pub open spec fn spec_validate(s: Seq<char>, host: Seq<char>) -> Seq<char> {
    let t = if s.len() == 0 {
        host
    } else {
        s
    };
    if spec_contains_seq(t, "64"@) {
        "64"@
    } else {
        "32"@
    }
}

/// Normalize an architecture token to "64" or "32".
pub fn validate(s: &str, host: &str) -> (r: String)
    ensures
        r@ == spec_validate(s@, host@),
{
    let t: &str = if s.unicode_len() == 0 {
        host
    } else {
        s
    };
    if str_contains(t, "64") {
        String::from_str("64")
    } else {
        String::from_str("32")
    }
}

} // verus!
