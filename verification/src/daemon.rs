use vstd::prelude::*;

use crate::strings::{
    is_space, lemma_split_at, spec_after_char, spec_contains_char, spec_trim, spec_trim_end,
    spec_trim_start, spec_until_char, split_once_char, str_eq, trim,
};

verus! {

/// What the daemon finds at the path a request names.
#[derive(Clone, Copy, Debug, PartialEq, Eq, Structural)]
pub enum PathKind {
    Missing,
    Dir,
    File,
    OtherExisting,
}

/// The one privileged filesystem primitive a request asks for, if any.
#[derive(Clone, Copy, Debug, PartialEq, Eq, Structural)]
pub enum HelperAction {
    CreateDirAll,
    RemoveDirAll,
    SymlinkDir,
    SymlinkFile,
    RemoveFile,
    NoAct,
}

/// A decoded helper request: `<COMMAND> <path> [<target>]`.
pub struct Request {
    pub command: String,
    pub path: String,
    pub target: String,
    pub has_target: bool,
}

/// The fields a request line decodes to: command, path, target, and whether a
/// target field was present at all.
pub open spec fn spec_request_fields(line: Seq<char>) -> (Seq<char>, Seq<char>, Seq<char>, bool) {
    let t = spec_trim(line);
    let cmd = spec_until_char(t, ' ');
    let rest = spec_after_char(t, ' ');
    let path = spec_until_char(rest, ' ');
    let rest2 = spec_after_char(rest, ' ');
    let target = spec_until_char(rest2, ' ');
    (cmd, path, target, spec_contains_char(rest, ' '))
}

/// Decode one request line into its fields.
pub fn parse_request(line: &str) -> (r: Request)
    ensures
        r.command@ == spec_request_fields(line@).0,
        r.path@ == spec_request_fields(line@).1,
        r.target@ == spec_request_fields(line@).2,
        r.has_target == spec_request_fields(line@).3,
{
    let t = trim(line);
    let (cmd, rest, _) = split_once_char(t, ' ');
    let (path, rest2, has_second) = split_once_char(rest, ' ');
    let (target, _, _) = split_once_char(rest2, ' ');
    Request {
        command: cmd.to_owned(),
        path: path.to_owned(),
        target: target.to_owned(),
        has_target: has_second,
    }
}

/// The response the daemon owes for `line` when the named path is `kind`.
pub open spec fn spec_response(line: Seq<char>, kind: PathKind) -> Seq<char> {
    let (cmd, path, target, has_target) = spec_request_fields(line);
    if cmd == "DELETE_DIR"@ {
        if kind is Dir {
            "DELETE_DIR_YES"@
        } else {
            "DELETE_DIR_NO"@
        }
    } else if cmd == "CREATE_DIR"@ {
        if kind is Missing {
            "CREATE_DIR_YES"@
        } else {
            "CREATE_DIR_EXISTS"@
        }
    } else if cmd == "CREATE_SYMLINK_DIR"@ {
        if !has_target {
            "CREATE_SYMLINK_DIR_NO"@
        } else if kind is Missing {
            "CREATE_SYMLINK_DIR_YES"@
        } else {
            "CREATE_SYMLINK_DIR_EXISTS"@
        }
    } else if cmd == "CREATE_SYMLINK_FILE"@ {
        if !has_target {
            "CREATE_SYMLINK_FILE_NO"@
        } else if kind is Missing {
            "CREATE_SYMLINK_FILE_YES"@
        } else {
            "CREATE_SYMLINK_FILE_EXISTS"@
        }
    } else if cmd == "DELETE_FILE"@ {
        if kind is File {
            "DELETE_FILE_YES"@
        } else {
            "DELETE_FILE_NO"@
        }
    } else {
        "Unknown command"@
    }
}

/// The filesystem primitive the daemon performs for `line`: a mutation
/// happens exactly when the response is the command's `_YES` token.
pub open spec fn spec_action(line: Seq<char>, kind: PathKind) -> HelperAction {
    let (cmd, path, target, has_target) = spec_request_fields(line);
    if cmd == "DELETE_DIR"@ && kind is Dir {
        HelperAction::RemoveDirAll
    } else if cmd == "CREATE_DIR"@ && kind is Missing {
        HelperAction::CreateDirAll
    } else if cmd == "CREATE_SYMLINK_DIR"@ && has_target && kind is Missing {
        HelperAction::SymlinkDir
    } else if cmd == "CREATE_SYMLINK_FILE"@ && has_target && kind is Missing {
        HelperAction::SymlinkFile
    } else if cmd == "DELETE_FILE"@ && kind is File {
        HelperAction::RemoveFile
    } else {
        HelperAction::NoAct
    }
}

/// What the daemon decides for one request: the primitive to run (before
/// answering) and the response token to send back.
pub struct Decision {
    pub request: Request,
    pub action: HelperAction,
    pub response: String,
}

/// Decide one request, given what the filesystem holds at the request's path.
///
/// The daemon is idempotent-checked: it only creates what is missing and only
/// deletes what is present with the right kind, and says so in the response.
pub fn handle_request(line: &str, kind: PathKind) -> (d: Decision)
    ensures
        d.response@ == spec_response(line@, kind),
        d.action == spec_action(line@, kind),
        d.request.command@ == spec_request_fields(line@).0,
        d.request.path@ == spec_request_fields(line@).1,
        d.request.target@ == spec_request_fields(line@).2,
{
    let request = parse_request(line);
    let cmd = request.command.as_str();
    let (action, response): (HelperAction, &'static str) = if str_eq(cmd, "DELETE_DIR") {
        if matches!(kind, PathKind::Dir) {
            (HelperAction::RemoveDirAll, "DELETE_DIR_YES")
        } else {
            (HelperAction::NoAct, "DELETE_DIR_NO")
        }
    } else if str_eq(cmd, "CREATE_DIR") {
        if matches!(kind, PathKind::Missing) {
            (HelperAction::CreateDirAll, "CREATE_DIR_YES")
        } else {
            (HelperAction::NoAct, "CREATE_DIR_EXISTS")
        }
    } else if str_eq(cmd, "CREATE_SYMLINK_DIR") {
        if !request.has_target {
            (HelperAction::NoAct, "CREATE_SYMLINK_DIR_NO")
        } else if matches!(kind, PathKind::Missing) {
            (HelperAction::SymlinkDir, "CREATE_SYMLINK_DIR_YES")
        } else {
            (HelperAction::NoAct, "CREATE_SYMLINK_DIR_EXISTS")
        }
    } else if str_eq(cmd, "CREATE_SYMLINK_FILE") {
        if !request.has_target {
            (HelperAction::NoAct, "CREATE_SYMLINK_FILE_NO")
        } else if matches!(kind, PathKind::Missing) {
            (HelperAction::SymlinkFile, "CREATE_SYMLINK_FILE_YES")
        } else {
            (HelperAction::NoAct, "CREATE_SYMLINK_FILE_EXISTS")
        }
    } else if str_eq(cmd, "DELETE_FILE") {
        if matches!(kind, PathKind::File) {
            (HelperAction::RemoveFile, "DELETE_FILE_YES")
        } else {
            (HelperAction::NoAct, "DELETE_FILE_NO")
        }
    } else {
        (HelperAction::NoAct, "Unknown command")
    };
    proof {
        lemma_commands_distinct();
    }
    Decision { request, action, response: response.to_owned() }
}

/// The five command words are pairwise distinct, so the case analyses of
/// `spec_response` and `spec_action` fall through deterministically.
proof fn lemma_commands_distinct()
    ensures
        "DELETE_DIR"@ != "CREATE_DIR"@,
        "DELETE_DIR"@ != "CREATE_SYMLINK_DIR"@,
        "DELETE_DIR"@ != "CREATE_SYMLINK_FILE"@,
        "DELETE_DIR"@ != "DELETE_FILE"@,
        "CREATE_DIR"@ != "CREATE_SYMLINK_DIR"@,
        "CREATE_DIR"@ != "CREATE_SYMLINK_FILE"@,
        "CREATE_DIR"@ != "DELETE_FILE"@,
        "CREATE_SYMLINK_DIR"@ != "CREATE_SYMLINK_FILE"@,
        "CREATE_SYMLINK_DIR"@ != "DELETE_FILE"@,
        "CREATE_SYMLINK_FILE"@ != "DELETE_FILE"@,
{
    broadcast use vstd::string::group_string_axioms;

    reveal_strlit("DELETE_DIR");
    reveal_strlit("CREATE_DIR");
    reveal_strlit("CREATE_SYMLINK_DIR");
    reveal_strlit("CREATE_SYMLINK_FILE");
    reveal_strlit("DELETE_FILE");
    assert("DELETE_DIR"@.len() == 10);
    assert("CREATE_DIR"@.len() == 10);
    assert("CREATE_SYMLINK_DIR"@.len() == 18);
    assert("CREATE_SYMLINK_FILE"@.len() == 19);
    assert("DELETE_FILE"@.len() == 11);
    assert("DELETE_DIR"@[0] == 'D' && "CREATE_DIR"@[0] == 'C');
}

/// Encode one client request: `<COMMAND> <path>` or `<COMMAND> <path> <target>`.
pub fn encode_request(command: &str, path: &str, target: Option<&str>) -> (r: String)
    ensures
        match target {
            Some(t) => r@ == command@ + " "@ + path@ + " "@ + t@,
            None => r@ == command@ + " "@ + path@,
        },
{
    let mut s = command.to_owned();
    s.append(" ");
    s.append(path);
    match target {
        Some(t) => {
            s.append(" ");
            s.append(t);
            assert(s@ =~= command@ + " "@ + path@ + " "@ + t@);
        },
        None => {
            assert(s@ =~= command@ + " "@ + path@);
        },
    }
    s
}

/// Classify the daemon's reply on the client side: the operation succeeded
/// exactly when the reply is the command's own `_YES` token; any other reply
/// is handed back verbatim as the error.
pub fn classify_response(command: &str, response: String) -> (r: Result<bool, String>)
    ensures
        response@ == command@ + "_YES"@ ==> r == Result::<bool, String>::Ok(true),
        response@ != command@ + "_YES"@ ==> (r matches Err(e) && e@ == response@),
{
    let mut expect = command.to_owned();
    expect.append("_YES");
    if str_eq(response.as_str(), expect.as_str()) {
        Ok(true)
    } else {
        Err(response)
    }
}

/// A protocol word: non-empty and free of whitespace, as every command token
/// and well-formed path handed to the helper is.
pub open spec fn protocol_word(s: Seq<char>) -> bool {
    s.len() > 0 && forall|i: int| 0 <= i < s.len() ==> !is_space(#[trigger] s[i])
}

/// Round trip of the wire format: a two-field request built by
/// `encode_request` decodes to exactly its command and path, with no target.
pub proof fn lemma_encode_parse_round_trip(command: Seq<char>, path: Seq<char>)
    requires
        protocol_word(command),
        protocol_word(path),
    ensures
        spec_request_fields(command + " "@ + path) == (command, path, Seq::<char>::empty(), false),
{
    reveal_strlit(" ");
    let line = command + " "@ + path;
    assert(line.len() == command.len() + 1 + path.len());
    assert(forall|i: int| 0 <= i < command.len() ==> line[i] == command[i]);
    assert(line[command.len() as int] == ' ');
    assert(forall|i: int|
        command.len() + 1 <= i < line.len() ==> line[i] == path[i - command.len() - 1]);
    // No whitespace at either end: trim leaves the line unchanged.
    assert(spec_trim(line) == line) by {
        assert(!is_space(line[0]));
        assert(!is_space(line.last()));
        lemma_trim_of_untrimmed(line);
    }
    lemma_split_at(line, ' ', command.len() as int);
    assert(spec_until_char(line, ' ') =~= command);
    let rest = spec_after_char(line, ' ');
    assert(rest =~= path);
    lemma_split_at(rest, ' ', rest.len() as int);
    assert(spec_until_char(rest, ' ') =~= path);
    let rest2 = spec_after_char(rest, ' ');
    assert(rest2 =~= Seq::<char>::empty());
    lemma_split_at(rest2, ' ', 0);
    assert(spec_until_char(rest2, ' ') =~= Seq::<char>::empty());
    assert(!spec_contains_char(rest, ' '));
}

/// A line whose first and last characters are not whitespace trims to itself.
proof fn lemma_trim_of_untrimmed(s: Seq<char>)
    requires
        s.len() > 0,
        !is_space(s[0]),
        !is_space(s.last()),
    ensures
        spec_trim(s) == s,
{
    assert(spec_trim_start(s) == s);
    assert(spec_trim_end(s) == s);
}

} // verus!
