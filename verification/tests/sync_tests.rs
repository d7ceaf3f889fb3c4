use dockpot::sync::{
    auto_commits, diff_counts, mark_synced, pull_outcome, pulls_on_schedule, push_refspec,
    remote_branch_name, remote_branch_of, repo_setup, report_status, status_apart,
    status_at_remote, sync_first_step, sync_from_request, RepoSetup, StackSync, SyncCheck,
    SyncConfigRequest,
};

fn sync(kind: &str, url: Option<&str>) -> StackSync {
    sync_from_request(
        "s1",
        SyncConfigRequest {
            sync_type: Some(kind.into()),
            remote_url: url.map(|u| u.to_string()),
            remote_branch: None,
            auth_token: None,
        },
    )
}

#[test]
fn settings_defaults() {
    let s = sync_from_request(
        "s1",
        SyncConfigRequest { sync_type: None, remote_url: None, remote_branch: None, auth_token: Some("t".into()) },
    );
    assert_eq!(s.stack_id, "s1");
    assert_eq!(s.sync_type, "none");
    assert_eq!(s.remote_branch, "main");
    assert_eq!(s.status, "idle");
    assert_eq!(s.auth_token, Some("t".to_string()));
    assert!(s.last_commit.is_none() && s.last_synced_at.is_none());
    assert!(!auto_commits(&s));
    assert!(auto_commits(&sync("git_dir", None)));
}

#[test]
fn repository_setup() {
    assert!(matches!(repo_setup(&sync("git_remote", Some("https://g/r.git"))), RepoSetup::Clone(u) if u == "https://g/r.git"));
    assert!(matches!(repo_setup(&sync("git_remote", None)), RepoSetup::Nothing));
    assert!(matches!(repo_setup(&sync("git_dir", None)), RepoSetup::Init));
    assert!(matches!(repo_setup(&sync("none", None)), RepoSetup::Nothing));
    let s = mark_synced(sync("git_dir", None), Some("abc".into()));
    assert_eq!(s.status, "synced");
    assert_eq!(s.last_commit, Some("abc".to_string()));
}

#[test]
fn remote_operations_need_a_remote() {
    assert_eq!(remote_branch_of(&None), Err("Sync not configured".to_string()));
    assert_eq!(remote_branch_of(&Some(sync("git_dir", None))), Err("Sync type is not git_remote".to_string()));
    assert_eq!(remote_branch_of(&Some(sync("git_remote", Some("u")))), Ok("main".to_string()));
    assert!(pulls_on_schedule(&sync("git_remote", Some("u"))));
    assert!(!pulls_on_schedule(&sync("git_remote", None)));
    assert!(!pulls_on_schedule(&sync("git_dir", Some("u"))));
    assert_eq!(pull_outcome(true), "synced");
    assert_eq!(pull_outcome(false), "conflict");
}

#[test]
fn status_against_remote() {
    assert!(matches!(sync_first_step(None, Some("a")), SyncCheck::Decided(s) if s == "pending"));
    assert!(matches!(sync_first_step(Some("a"), None), SyncCheck::Decided(s) if s == "pending"));
    assert!(matches!(sync_first_step(Some("a"), Some("a")), SyncCheck::CheckUncommitted));
    assert!(matches!(sync_first_step(Some("a"), Some("b")), SyncCheck::CheckMergeBase));
    assert_eq!(status_at_remote(true), "pending");
    assert_eq!(status_at_remote(false), "synced");
    assert_eq!(status_apart("h", "r", Some("r")), "pending");
    assert_eq!(status_apart("h", "r", Some("h")), "pending");
    assert_eq!(status_apart("h", "r", Some("b")), "conflict");
    assert_eq!(status_apart("h", "r", None), "conflict");
}

#[test]
fn reported_status() {
    assert_eq!(report_status(&None, false, None, None), "none");
    let remote = Some(sync("git_remote", Some("u")));
    assert_eq!(report_status(&remote, true, Some("synced".into()), None), "synced");
    assert_eq!(report_status(&remote, true, None, None), "unknown");
    assert_eq!(report_status(&remote, false, None, None), "idle");
    let dir = Some(sync("git_dir", None));
    assert_eq!(report_status(&dir, true, None, Some(true)), "pending");
    assert_eq!(report_status(&dir, true, None, Some(false)), "synced");
    assert_eq!(report_status(&dir, true, None, None), "idle");
    assert_eq!(report_status(&Some(sync("none", None)), true, None, None), "idle");
}

#[test]
fn refs_and_diffs() {
    assert_eq!(push_refspec("main"), "refs/heads/main:refs/heads/main");
    assert_eq!(remote_branch_name("dev"), "origin/dev");
    assert_eq!(diff_counts(&vec!['+', ' ', '-', '+', 'F', '-', '-']), (2, 3));
    assert_eq!(diff_counts(&vec![]), (0, 0));
}
