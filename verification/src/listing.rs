use vstd::prelude::*;

use crate::strings::{contains_char, spec_contains_char};
use crate::version::{spec_version_string, version_to_string, Version};

verus! {

/// One line of the installed listing: the active version is starred and
/// annotated with the width of the executable in use, the others are
/// plainly indented.
pub open spec fn spec_installed_line(
    v: Version,
    current: Option<Version>,
    arch: Seq<char>,
) -> Seq<char> {
    if current == Some(v) {
        "* "@ + spec_version_string(v) + " (Currently using "@ + arch + "-bit executable)"@
    } else {
        "  "@ + spec_version_string(v)
    }
}

/// Render the installed listing, one line per version, in the given
/// (descending) order.
pub fn list_installed(installed: &Vec<Version>, current: Option<&Version>, arch: &str) -> (r: Vec<
    String,
>)
    ensures
        r@.len() == installed@.len(),
        forall|i: int|
            0 <= i < installed@.len() ==> #[trigger] r.deep_view()[i] == spec_installed_line(
                installed@[i],
                match current {
                    Some(c) => Some(*c),
                    None => None,
                },
                arch@,
            ),
{
    let ghost cur = match current {
        Some(c) => Some(*c),
        None => None::<Version>,
    };
    let mut out: Vec<String> = Vec::new();
    let n = installed.len();
    let mut i: usize = 0;
    while i < n
        invariant
            0 <= i <= n == installed@.len(),
            out@.len() == i,
            cur == (match current {
                Some(c) => Some(*c),
                None => None::<Version>,
            }),
            forall|m: int|
                0 <= m < i ==> #[trigger] out.deep_view()[m] == spec_installed_line(
                    installed@[m],
                    cur,
                    arch@,
                ),
        decreases n - i,
    {
        let v = installed[i];
        let is_current = match current {
            Some(c) => c.major == v.major && c.minor == v.minor && c.patch == v.patch,
            None => false,
        };
        let vs = version_to_string(&v);
        let line: String = if is_current {
            let mut s = String::from_str("* ");
            s.append(vs.as_str());
            s.append(" (Currently using ");
            s.append(arch);
            s.append("-bit executable)");
            proof {
                assert(s@ =~= spec_installed_line(installed@[i as int], cur, arch@));
            }
            s
        } else {
            let mut s = String::from_str("  ");
            s.append(vs.as_str());
            proof {
                assert(s@ =~= spec_installed_line(installed@[i as int], cur, arch@));
            }
            s
        };
        let ghost before = out.deep_view();
        out.push(line);
        proof {
            assert(out.deep_view() =~= before.push(line@));
        }
        i = i + 1;
    }
    out
}

/// The number of rows the available listing shows per column.
pub const RELEASE_ROWS: usize = 20;

/// One row of the available table; absent cells carry the zero version.
#[derive(Clone, Copy, Debug, PartialEq, Eq, Structural)]
pub struct ReleaseRow {
    pub current: Version,
    pub lts: Version,
    pub stable: Version,
    pub unstable: Version,
}

pub open spec fn spec_cell(s: Seq<Version>, i: int) -> Version {
    if 0 <= i < s.len() {
        s[i]
    } else {
        Version { major: 0, minor: 0, patch: 0 }
    }
}

/// Lay out the four release categories side by side, top twenty rows.
pub fn available_rows(
    current: &Vec<Version>,
    lts: &Vec<Version>,
    stable: &Vec<Version>,
    unstable: &Vec<Version>,
) -> (r: Vec<ReleaseRow>)
    ensures
        r@.len() == RELEASE_ROWS,
        forall|i: int|
            0 <= i < RELEASE_ROWS ==> #[trigger] r@[i] == (ReleaseRow {
                current: spec_cell(current@, i),
                lts: spec_cell(lts@, i),
                stable: spec_cell(stable@, i),
                unstable: spec_cell(unstable@, i),
            }),
{
    let mut out: Vec<ReleaseRow> = Vec::new();
    let mut i: usize = 0;
    while i < RELEASE_ROWS
        invariant
            0 <= i <= RELEASE_ROWS,
            out@.len() == i,
            forall|m: int|
                0 <= m < i ==> #[trigger] out@[m] == (ReleaseRow {
                    current: spec_cell(current@, m),
                    lts: spec_cell(lts@, m),
                    stable: spec_cell(stable@, m),
                    unstable: spec_cell(unstable@, m),
                }),
        decreases RELEASE_ROWS - i,
    {
        let zero = Version { major: 0, minor: 0, patch: 0 };
        let row = ReleaseRow {
            current: if i < current.len() {
                current[i]
            } else {
                zero
            },
            lts: if i < lts.len() {
                lts[i]
            } else {
                zero
            },
            stable: if i < stable.len() {
                stable[i]
            } else {
                zero
            },
            unstable: if i < unstable.len() {
                unstable[i]
            } else {
                zero
            },
        };
        out.push(row);
        i = i + 1;
    }
    out
}

/// The directory the on-switch picks back up: the last listed name that
/// carries a version marker.
pub open spec fn spec_last_with_marker(names: Seq<Seq<char>>) -> Option<Seq<char>>
    decreases names.len(),
{
    if names.len() == 0 {
        None
    } else if spec_contains_char(names.last(), 'v') {
        Some(names.last())
    } else {
        spec_last_with_marker(names.drop_last())
    }
}

/// Pick the version directory that re-enabling management activates.
pub fn pick_enable_dir(names: &Vec<String>) -> (r: Option<String>)
    ensures
        match r {
            Some(s) => spec_last_with_marker(names.deep_view()) == Some(s@),
            None => spec_last_with_marker(names.deep_view()) is None,
        },
{
    let mut found: Option<String> = None;
    let n = names.len();
    let mut i: usize = 0;
    while i < n
        invariant
            0 <= i <= n == names@.len(),
            match found {
                Some(s) => spec_last_with_marker(names.deep_view().subrange(0, i as int)) == Some(
                    s@,
                ),
                None => spec_last_with_marker(names.deep_view().subrange(0, i as int)) is None,
            },
        decreases n - i,
    {
        proof {
            assert(names.deep_view().subrange(0, i as int + 1).drop_last() =~= names.deep_view()
                .subrange(0, i as int));
            assert(names.deep_view().subrange(0, i as int + 1).last() == names.deep_view()[i as int]);
            assert(names.deep_view()[i as int] == names@[i as int]@);
        }
        if contains_char(names[i].as_str(), 'v') {
            found = Some(names[i].clone());
        }
        i = i + 1;
    }
    proof {
        assert(names.deep_view().subrange(0, n as int) =~= names.deep_view());
    }
    found
}

/// The position of `v` in a version list (its first occurrence), or the
/// length when it is absent: the switch menu's default selection.
pub fn index_of_version(vs: &Vec<Version>, v: &Version) -> (r: usize)
    ensures
        r <= vs@.len(),
        r < vs@.len() ==> vs@[r as int] == *v,
        forall|m: int| 0 <= m < r ==> vs@[m] != *v,
{
    let n = vs.len();
    let mut i: usize = 0;
    while i < n
        invariant
            0 <= i <= n == vs@.len(),
            forall|m: int| 0 <= m < i ==> vs@[m] != *v,
        decreases n - i,
    {
        let c = vs[i];
        if c.major == v.major && c.minor == v.minor && c.patch == v.patch {
            return i;
        }
        i = i + 1;
    }
    n
}

} // verus!
