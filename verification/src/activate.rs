use vstd::prelude::*;

use crate::inventory::{
    dirs_wf, inv_wf, is_version_installed, lemma_find_index_at, lemma_find_index_props,
    spec_dir_installed, spec_find_dir, spec_find_index, spec_installed, Inventory, VersionDir,
};
use crate::resolve::ArchMode;
use crate::strings::{spec_contains_seq, spec_lower, str_contains, str_contains_ci};
use crate::version::Version;

verus! {

/// Why an activation was refused.
#[derive(Clone, Copy, Debug, PartialEq, Eq, Structural)]
pub enum ActivateError {
    /// The asked version is not installed for the asked width; `alternate`
    /// reports whether the other width is, so the caller can suggest it.
    NotInstalled { alternate: bool },
}

/// The other concrete width.
pub open spec fn spec_other_width(c: ArchMode) -> ArchMode {
    match c {
        ArchMode::A32 => ArchMode::A64,
        ArchMode::A64 => ArchMode::A32,
        ArchMode::All => ArchMode::All,
    }
}

/// Executable renaming at the end of an activation: when the requested
/// width stands under its suffixed name, it becomes the plain executable,
/// and a displaced plain executable moves to the other width's suffixed
/// name; otherwise nothing moves.
pub open spec fn spec_finalize_arch(d: VersionDir, want64: bool) -> VersionDir {
    if want64 && d.node64 {
        VersionDir {
            version: d.version,
            node32: d.node32 || d.node_plain,
            node64: false,
            node_plain: true,
            plain_known: true,
            plain_is_64: true,
            npm: d.npm,
        }
    } else if !want64 && d.node32 {
        VersionDir {
            version: d.version,
            node32: false,
            node64: d.node64 || d.node_plain,
            node_plain: true,
            plain_known: true,
            plain_is_64: false,
            npm: d.npm,
        }
    } else {
        d
    }
}

/// The directory state after activating `v` for a width: only `v`'s
/// directory changes, and only by the renaming step.
pub open spec fn spec_activate_dirs(s: Seq<VersionDir>, v: Version, want64: bool) -> Seq<
    VersionDir,
> {
    let i = spec_find_index(s, v);
    if i < s.len() {
        s.update(i, spec_finalize_arch(s[i], want64))
    } else {
        s
    }
}

/// LAW (renaming is safe): the renaming step keeps the directory's version
/// and package manager, and keeps exactly which widths count as installed.
pub proof fn lemma_finalize_preserves_installed(d: VersionDir, want64: bool)
    ensures
        spec_finalize_arch(d, want64).version == d.version,
        spec_finalize_arch(d, want64).npm == d.npm,
        forall|c: ArchMode|
            spec_dir_installed(spec_finalize_arch(d, want64), c) == spec_dir_installed(d, c),
{
    assert forall|c: ArchMode|
        spec_dir_installed(spec_finalize_arch(d, want64), c) == spec_dir_installed(d, c) by {
        match c {
            ArchMode::A32 => {},
            ArchMode::A64 => {},
            ArchMode::All => {},
        }
    }
}

/// LAW (idempotence of the renaming step): running it twice is running it
/// once.
pub proof fn lemma_finalize_idempotent(d: VersionDir, want64: bool)
    ensures
        spec_finalize_arch(spec_finalize_arch(d, want64), want64) == spec_finalize_arch(d, want64),
{
}

/// LAW (activation is idempotent-safe on the directories): activating the
/// same version for the same width a second time changes nothing further.
pub proof fn lemma_activate_dirs_idempotent(s: Seq<VersionDir>, v: Version, want64: bool)
    requires
        dirs_wf(s),
    ensures
        spec_activate_dirs(spec_activate_dirs(s, v, want64), v, want64) == spec_activate_dirs(
            s,
            v,
            want64,
        ),
{
    let i = spec_find_index(s, v);
    lemma_find_index_props(s, v);
    let t = spec_activate_dirs(s, v, want64);
    if i < s.len() {
        assert(forall|m: int| 0 <= m < i ==> #[trigger] t[m] == s[m]);
        assert(t[i].version == v);
        lemma_find_index_at(t, v, i);
        lemma_finalize_idempotent(s[i], want64);
        assert(spec_activate_dirs(t, v, want64) =~= t);
    } else {
        lemma_find_index_at(t, v, i);
    }
}

/// Repoint the active link at `version` and finalize its executables for
/// the asked width.
///
/// Succeeds exactly when the version is installed for that width. On
/// success the active link points at `version` (one link, one target — in
/// particular, activating the already-active version keeps it) and only
/// that version's directory changes, by the renaming step. On refusal the
/// state is untouched and the error says whether the other width would
/// have worked.
pub fn activate(inv: &mut Inventory, version: &Version, arch: ArchMode) -> (r: Result<
    (),
    ActivateError,
>)
    requires
        inv_wf(*old(inv)),
        arch is A32 || arch is A64,
    ensures
        inv_wf(*final(inv)),
        r is Ok <==> spec_installed(old(inv).dirs@, *version, arch),
        r is Ok ==> final(inv).active == Some(*version) && final(inv).dirs@ == spec_activate_dirs(
            old(inv).dirs@,
            *version,
            arch is A64,
        ),
        old(inv).active == Some(*version) && r is Ok ==> final(inv).active == old(inv).active,
        r matches Err(ActivateError::NotInstalled { alternate }) ==> final(inv).dirs@ == old(
            inv,
        ).dirs@ && final(inv).active == old(inv).active && alternate == spec_installed(
            old(inv).dirs@,
            *version,
            spec_other_width(arch),
        ),
{
    let ghost s0 = inv.dirs@;
    if !is_version_installed(inv, version, arch) {
        let other = match arch {
            ArchMode::A32 => ArchMode::A64,
            _ => ArchMode::A32,
        };
        let alternate = is_version_installed(inv, version, other);
        return Err(ActivateError::NotInstalled { alternate });
    }
    inv.active = Some(*version);
    let want64 = matches!(arch, ArchMode::A64);
    let n = inv.dirs.len();
    let mut i: usize = 0;
    while i < n
        invariant
            0 <= i <= n == inv.dirs@.len(),
            inv.dirs@ == s0,
            s0 == old(inv).dirs@,
            dirs_wf(inv.dirs@),
            inv.active == Some(*version),
            want64 == (arch is A64),
            arch is A32 || arch is A64,
            spec_installed(s0, *version, arch),
            forall|m: int| 0 <= m < i ==> (#[trigger] s0[m]).version != *version,
        decreases n - i,
    {
        let d = inv.dirs[i];
        if d.version.major == version.major && d.version.minor == version.minor && d.version.patch
            == version.patch {
            proof {
                lemma_find_index_at(s0, *version, i as int);
            }
            let nd = if want64 && d.node64 {
                VersionDir {
                    version: d.version,
                    node32: d.node32 || d.node_plain,
                    node64: false,
                    node_plain: true,
                    plain_known: true,
                    plain_is_64: true,
                    npm: d.npm,
                }
            } else if !want64 && d.node32 {
                VersionDir {
                    version: d.version,
                    node32: false,
                    node64: d.node64 || d.node_plain,
                    node_plain: true,
                    plain_known: true,
                    plain_is_64: false,
                    npm: d.npm,
                }
            } else {
                d
            };
            inv.dirs[i] = nd;
            proof {
                assert(inv.dirs@ == spec_activate_dirs(s0, *version, want64));
                assert(forall|m: int|
                    0 <= m < s0.len() ==> (#[trigger] inv.dirs@[m]).version == s0[m].version);
            }
            return Ok(());
        }
        i = i + 1;
    }
    proof {
        lemma_find_index_at(s0, *version, n as int);
        // Installed but no directory found cannot happen.
        assert(spec_find_dir(s0, *version) is None);
        assert(false);
    }
    Ok(())
}

/// How a link-creation failure reads, by the failure text the platform
/// hands back.
#[derive(Clone, Copy, Debug, PartialEq, Eq, Structural)]
pub enum LinkFailure {
    /// The caller lacks the right to create the link.
    Privilege,
    /// A link (or file) already stands at the path.
    AlreadyExists,
    Other,
}

pub open spec fn spec_classify_link_error(msg: Seq<char>) -> LinkFailure {
    if spec_contains_seq(msg, "not have sufficient privilege"@) || spec_contains_seq(
        spec_lower(msg),
        "access is denied"@,
    ) {
        LinkFailure::Privilege
    } else if spec_contains_seq(msg, "file already exists"@) {
        LinkFailure::AlreadyExists
    } else {
        LinkFailure::Other
    }
}

/// Read a link-creation failure message.
pub fn classify_link_error(msg: &str) -> (r: LinkFailure)
    ensures
        r == spec_classify_link_error(msg@),
{
    proof {
        lemma_lower_denied();
    }
    if str_contains(msg, "not have sufficient privilege") || str_contains_ci(
        msg,
        "access is denied",
    ) {
        LinkFailure::Privilege
    } else if str_contains(msg, "file already exists") {
        LinkFailure::AlreadyExists
    } else {
        LinkFailure::Other
    }
}

/// The needle of the permission check is already lower case.
proof fn lemma_lower_denied()
    ensures
        spec_lower("access is denied"@) == "access is denied"@,
{
    reveal_strlit("access is denied");
    assert(spec_lower("access is denied"@) =~= "access is denied"@);
}

/// Whether a failure text reports denied access (used to point the user at
/// the elevation help).
pub fn is_access_denied(err: &str) -> (r: bool)
    ensures
        r == spec_contains_seq(spec_lower(err@), "access is denied"@),
{
    proof {
        lemma_lower_denied();
    }
    str_contains_ci(err, "access is denied")
}

/// What to do after a failed link creation: retry through the privileged
/// helper on a permission failure, remove the stale link and run the whole
/// activation once more when the path was taken — each at most once —
/// and give up otherwise.
#[derive(Clone, Copy, Debug, PartialEq, Eq, Structural)]
pub enum LinkRetry {
    RetryElevated,
    RemoveAndRestart,
    Abort,
}

pub open spec fn spec_link_retry(f: LinkFailure, first_attempt: bool) -> LinkRetry {
    match f {
        LinkFailure::Privilege => if first_attempt {
            LinkRetry::RetryElevated
        } else {
            LinkRetry::Abort
        },
        LinkFailure::AlreadyExists => if first_attempt {
            LinkRetry::RemoveAndRestart
        } else {
            LinkRetry::Abort
        },
        LinkFailure::Other => LinkRetry::Abort,
    }
}

/// Decide the single bounded retry after a failed link creation.
pub fn link_retry(f: LinkFailure, first_attempt: bool) -> (r: LinkRetry)
    ensures
        r == spec_link_retry(f, first_attempt),
{
    match f {
        LinkFailure::Privilege => if first_attempt {
            LinkRetry::RetryElevated
        } else {
            LinkRetry::Abort
        },
        LinkFailure::AlreadyExists => if first_attempt {
            LinkRetry::RemoveAndRestart
        } else {
            LinkRetry::Abort
        },
        LinkFailure::Other => LinkRetry::Abort,
    }
}

/// The steps one activation passes through.
#[derive(Clone, Copy, Debug, PartialEq, Eq, Structural)]
pub enum ActPhase {
    Idle,
    LinkRemoving,
    LinkCreating,
    Retrying,
    Renaming,
    Done,
    Failed,
}

/// What the driver reports back between steps.
#[derive(Clone, Copy, Debug, PartialEq, Eq, Structural)]
pub enum ActEvent {
    Begin,
    LinkRemoved,
    LinkCreated,
    CreateFailedRetryable,
    RetrySucceeded,
    Renamed,
    Fail,
}

/// The activation state machine: Idle → LinkRemoving → LinkCreating →
/// (Retrying, at most once) → Renaming → Done, with Failed reachable from
/// every step; the terminal states absorb every event.
pub open spec fn spec_act_step(p: ActPhase, e: ActEvent) -> ActPhase {
    match (p, e) {
        (ActPhase::Idle, ActEvent::Begin) => ActPhase::LinkRemoving,
        (ActPhase::LinkRemoving, ActEvent::LinkRemoved) => ActPhase::LinkCreating,
        (ActPhase::LinkCreating, ActEvent::LinkCreated) => ActPhase::Renaming,
        (ActPhase::LinkCreating, ActEvent::CreateFailedRetryable) => ActPhase::Retrying,
        (ActPhase::Retrying, ActEvent::RetrySucceeded) => ActPhase::Renaming,
        (ActPhase::Renaming, ActEvent::Renamed) => ActPhase::Done,
        (ActPhase::Done, _) => ActPhase::Done,
        (ActPhase::Failed, _) => ActPhase::Failed,
        (_, ActEvent::Fail) => ActPhase::Failed,
        (_, _) => ActPhase::Failed,
    }
}

/// Advance the activation state machine by one observed event.
pub fn act_step(p: ActPhase, e: ActEvent) -> (r: ActPhase)
    ensures
        r == spec_act_step(p, e),
        e is Fail && !(p is Done) ==> r is Failed,
{
    match (p, e) {
        (ActPhase::Idle, ActEvent::Begin) => ActPhase::LinkRemoving,
        (ActPhase::LinkRemoving, ActEvent::LinkRemoved) => ActPhase::LinkCreating,
        (ActPhase::LinkCreating, ActEvent::LinkCreated) => ActPhase::Renaming,
        (ActPhase::LinkCreating, ActEvent::CreateFailedRetryable) => ActPhase::Retrying,
        (ActPhase::Retrying, ActEvent::RetrySucceeded) => ActPhase::Renaming,
        (ActPhase::Renaming, ActEvent::Renamed) => ActPhase::Done,
        (ActPhase::Done, _) => ActPhase::Done,
        (ActPhase::Failed, _) => ActPhase::Failed,
        (_, _) => ActPhase::Failed,
    }
}

} // verus!
