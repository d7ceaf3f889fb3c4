//! Git synchronisation of stacks: settings, the status of a repository
//! against its remote, and the counts of a diff.
use vstd::prelude::*;

use crate::convert::opt_view;
use crate::text::{chars_of, eq_str, push_str, string_of};

verus! {

/// How a stack is kept in git.
pub struct StackSync {
    pub stack_id: String,
    pub sync_type: String,
    pub remote_url: Option<String>,
    pub remote_branch: String,
    pub auth_token: Option<String>,
    pub last_commit: Option<String>,
    pub last_synced_at: Option<String>,
    pub status: String,
}

/// Body of the sync settings endpoint.
pub struct SyncConfigRequest {
    pub sync_type: Option<String>,
    pub remote_url: Option<String>,
    pub remote_branch: Option<String>,
    pub auth_token: Option<String>,
}

fn text(s: &str) -> (r: String)
    ensures
        r@ == s@,
{
    string_of(chars_of(s).as_slice())
}

/// The sync settings a request asks for: no sync and the `main` branch by
/// default, nothing committed or synced yet, the status `idle`.
pub fn sync_from_request(stack_id: &str, req: SyncConfigRequest) -> (r: StackSync)
    ensures
        r.stack_id@ == stack_id@,
        r.sync_type@ == (match req.sync_type {
            Some(t) => t@,
            None => "none"@,
        }),
        r.remote_url == req.remote_url,
        r.remote_branch@ == (match req.remote_branch {
            Some(b) => b@,
            None => "main"@,
        }),
        r.auth_token == req.auth_token,
        r.last_commit is None,
        r.last_synced_at is None,
        r.status@ == "idle"@,
{
    StackSync {
        stack_id: text(stack_id),
        sync_type: match req.sync_type {
            Some(t) => t,
            None => text("none"),
        },
        remote_url: req.remote_url,
        remote_branch: match req.remote_branch {
            Some(b) => b,
            None => text("main"),
        },
        auth_token: req.auth_token,
        last_commit: None,
        last_synced_at: None,
        status: text("idle"),
    }
}

/// The repository a sync type asks for.
pub enum RepoSetup {
    /// Clone this remote URL.
    Clone(String),
    /// Open or create a local repository.
    Init,
    /// Nothing to set up.
    Nothing,
}

/// What setting up the repository of a stack's sync settings takes: a
/// remote sync with a URL clones it, a directory sync creates a local
/// repository, anything else needs nothing.
pub fn repo_setup(sync: &StackSync) -> (r: RepoSetup)
    ensures
        sync.sync_type@ == "git_remote"@ && sync.remote_url is Some ==> (r matches RepoSetup::Clone(
            u,
        ) && Some(u@) == opt_view(sync.remote_url)),
        sync.sync_type@ == "git_dir"@ ==> r is Init,
        !(sync.sync_type@ == "git_dir"@) && !(sync.sync_type@ == "git_remote"@
            && sync.remote_url is Some) ==> r is Nothing,
{
    let t = chars_of(sync.sync_type.as_str());
    proof {
        reveal_strlit("git_remote");
        reveal_strlit("git_dir");
        assert("git_remote"@.len() != "git_dir"@.len());
    }
    if eq_str(t.as_slice(), "git_remote") {
        match &sync.remote_url {
            Some(u) => RepoSetup::Clone(u.clone()),
            None => RepoSetup::Nothing,
        }
    } else if eq_str(t.as_slice(), "git_dir") {
        RepoSetup::Init
    } else {
        RepoSetup::Nothing
    }
}

/// The settings once the repository is ready: synced, at `commit`.
pub fn mark_synced(sync: StackSync, commit: Option<String>) -> (r: StackSync)
    ensures
        r.status@ == "synced"@,
        r.last_commit == commit,
        r.stack_id == sync.stack_id,
        r.sync_type == sync.sync_type,
        r.remote_url == sync.remote_url,
        r.remote_branch == sync.remote_branch,
        r.auth_token == sync.auth_token,
        r.last_synced_at == sync.last_synced_at,
{
    StackSync { status: text("synced"), last_commit: commit, ..sync }
}

/// Whether changes to a stack are committed on their own: whenever it is
/// synced at all.
pub fn auto_commits(sync: &StackSync) -> (r: bool)
    ensures
        r == (sync.sync_type@ != "none"@),
{
    !eq_str(chars_of(sync.sync_type.as_str()).as_slice(), "none")
}

/// The branch to pull or push for a stack, or why it cannot be: the stack
/// must be synced with a remote.
pub fn remote_branch_of(sync: &Option<StackSync>) -> (r: Result<String, String>)
    ensures
        match sync {
            None => r matches Err(m) && m@ == "Sync not configured"@,
            Some(s) => if s.sync_type@ == "git_remote"@ {
                r matches Ok(b) && b@ == s.remote_branch@
            } else {
                r matches Err(m) && m@ == "Sync type is not git_remote"@
            },
        },
{
    match sync {
        None => Err(text("Sync not configured")),
        Some(s) => {
            if eq_str(chars_of(s.sync_type.as_str()).as_slice(), "git_remote") {
                Ok(s.remote_branch.clone())
            } else {
                Err(text("Sync type is not git_remote"))
            }
        },
    }
}

/// Whether the periodic sync pulls a stack: when it is synced with a
/// remote whose URL is known.
pub fn pulls_on_schedule(sync: &StackSync) -> (r: bool)
    ensures
        r == (sync.sync_type@ == "git_remote"@ && sync.remote_url is Some),
{
    eq_str(chars_of(sync.sync_type.as_str()).as_slice(), "git_remote") && sync.remote_url.is_some()
}

/// The status a scheduled pull leaves: synced when it succeeded, else in
/// conflict.
pub fn pull_outcome(succeeded: bool) -> (r: String)
    ensures
        r@ == (if succeeded {
            "synced"@
        } else {
            "conflict"@
        }),
{
    if succeeded {
        text("synced")
    } else {
        text("conflict")
    }
}

// ───── Status against the remote ─────

/// The first step of comparing a repository with its remote.
pub enum SyncCheck {
    /// The status is known.
    Decided(String),
    /// HEAD and the remote branch agree: ask for uncommitted changes.
    CheckUncommitted,
    /// HEAD and the remote branch differ: ask for their merge base.
    CheckMergeBase,
}

/// Compares the HEAD commit with the remote branch's: a missing one leaves
/// the repository pending.
pub fn sync_first_step(head: Option<&str>, remote: Option<&str>) -> (r: SyncCheck)
    ensures
        (head is None || remote is None) ==> (r matches SyncCheck::Decided(s) && s@ == "pending"@),
        (match (head, remote) {
            (Some(h), Some(m)) => if h@ == m@ {
                r is CheckUncommitted
            } else {
                r is CheckMergeBase
            },
            _ => true,
        }),
{
    match (head, remote) {
        (Some(h), Some(m)) => {
            let hc = chars_of(h);
            if eq_str(hc.as_slice(), m) {
                SyncCheck::CheckUncommitted
            } else {
                SyncCheck::CheckMergeBase
            }
        },
        _ => SyncCheck::Decided(text("pending")),
    }
}

/// The status of a repository at its remote's commit: pending while it has
/// uncommitted changes, else synced.
pub fn status_at_remote(uncommitted: bool) -> (r: String)
    ensures
        r@ == (if uncommitted {
            "pending"@
        } else {
            "synced"@
        }),
{
    if uncommitted {
        text("pending")
    } else {
        text("synced")
    }
}

/// The status of a repository whose HEAD differs from its remote: when one
/// is an ancestor of the other (the merge base is one of them) a pull or a
/// push is pending, else the histories conflict. `base` is `None` when no
/// merge base was found.
pub fn status_apart(head: &str, remote: &str, base: Option<&str>) -> (r: String)
    ensures
        r@ == (match base {
            Some(b) => if b@ == remote@ || b@ == head@ {
                "pending"@
            } else {
                "conflict"@
            },
            None => "conflict"@,
        }),
{
    match base {
        Some(b) => {
            let bc = chars_of(b);
            if eq_str(bc.as_slice(), remote) || eq_str(bc.as_slice(), head) {
                text("pending")
            } else {
                text("conflict")
            }
        },
        None => text("conflict"),
    }
}

/// The status the status endpoint reports for a stack: `none` without
/// settings, `idle` for a stack not kept in git; for a remote sync the
/// comparison with the remote (`unknown` when it failed), for a directory
/// sync pending or synced by its uncommitted changes, and the stored
/// status when the repository cannot be opened or read.
pub open spec fn reported_status(
    sync: Option<(Seq<char>, Seq<char>)>,
    repo_opened: bool,
    remote_status: Option<Seq<char>>,
    uncommitted: Option<bool>,
) -> Seq<char> {
    match sync {
        None => "none"@,
        Some(s) => if s.0 == "git_remote"@ {
            if repo_opened {
                match remote_status {
                    Some(st) => st,
                    None => "unknown"@,
                }
            } else {
                s.1
            }
        } else if s.0 == "git_dir"@ {
            if repo_opened {
                match uncommitted {
                    Some(true) => "pending"@,
                    Some(false) => "synced"@,
                    None => s.1,
                }
            } else {
                s.1
            }
        } else {
            "idle"@
        },
    }
}

/// The status the status endpoint reports, from the stack's settings,
/// whether its repository opened, the comparison with the remote (`None`
/// when it failed) and the check for uncommitted changes (`None` when it
/// failed).
pub fn report_status(
    sync: &Option<StackSync>,
    repo_opened: bool,
    remote_status: Option<String>,
    uncommitted: Option<bool>,
) -> (r: String)
    ensures
        r@ == reported_status(
            match sync {
                Some(s) => Some((s.sync_type@, s.status@)),
                None => None,
            },
            repo_opened,
            opt_view(remote_status),
            uncommitted,
        ),
{
    match sync {
        None => text("none"),
        Some(s) => {
            let t = chars_of(s.sync_type.as_str());
            if eq_str(t.as_slice(), "git_remote") {
                if repo_opened {
                    match remote_status {
                        Some(st) => st,
                        None => text("unknown"),
                    }
                } else {
                    s.status.clone()
                }
            } else if eq_str(t.as_slice(), "git_dir") {
                if repo_opened {
                    match uncommitted {
                        Some(true) => text("pending"),
                        Some(false) => text("synced"),
                        None => s.status.clone(),
                    }
                } else {
                    s.status.clone()
                }
            } else {
                text("idle")
            }
        },
    }
}

// ───── Refs and diffs ─────

/// The refspec that pushes a local branch to the same branch of the remote.
pub fn push_refspec(branch: &str) -> (r: String)
    ensures
        r@ == "refs/heads/"@ + branch@ + ":refs/heads/"@ + branch@,
{
    let mut out = chars_of("refs/heads/");
    push_str(&mut out, branch);
    push_str(&mut out, ":refs/heads/");
    push_str(&mut out, branch);
    string_of(out.as_slice())
}

/// The remote-tracking name of a branch.
pub fn remote_branch_name(branch: &str) -> (r: String)
    ensures
        r@ == "origin/"@ + branch@,
{
    let mut out = chars_of("origin/");
    push_str(&mut out, branch);
    string_of(out.as_slice())
}

/// How often `c` occurs in `s`.
pub open spec fn occurrences(s: Seq<char>, c: char) -> nat
    decreases s.len(),
{
    if s.len() == 0 {
        0
    } else {
        occurrences(s.drop_last(), c) + if s.last() == c {
            1nat
        } else {
            0nat
        }
    }
}

/// Counts the added and the deleted lines of a patch from the origin mark
/// of each of its lines.
pub fn diff_counts(origins: &Vec<char>) -> (r: (u64, u64))
    requires
        origins@.len() <= u64::MAX,
    ensures
        r.0 == occurrences(origins@, '+'),
        r.1 == occurrences(origins@, '-'),
{
    let mut adds: u64 = 0;
    let mut dels: u64 = 0;
    let mut i: usize = 0;
    while i < origins.len()
        invariant
            i <= origins@.len(),
            origins@.len() <= u64::MAX,
            adds == occurrences(origins@.take(i as int), '+'),
            dels == occurrences(origins@.take(i as int), '-'),
            adds + dels <= i,
        decreases origins@.len() - i,
    {
        proof {
            assert(origins@.take(i + 1).drop_last() =~= origins@.take(i as int));
        }
        if origins[i] == '+' {
            adds = adds + 1;
        } else if origins[i] == '-' {
            dels = dels + 1;
        }
        i = i + 1;
    }
    proof {
        assert(origins@.take(i as int) =~= origins@);
    }
    (adds, dels)
}

} // verus!
