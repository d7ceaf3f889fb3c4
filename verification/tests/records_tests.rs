use dockpot::records::{
    backup_due, backup_expired, cron_hour, backup_failure_status, backup_file_name, count_lines,
    export_file_name, first_line, listed_names, no_swarm_configs, no_swarm_secrets, run_seconds,
    schedule_from, split_log, tagged_line, trimmed_output, LogsQuery, LOG_CHUNK,
};

#[test]
fn log_chunks_rejoin() {
    let log = "x".repeat(4096 * 2 + 10);
    let chunks = split_log(&log);
    assert_eq!(chunks.len(), 3);
    assert_eq!(chunks[0].len(), LOG_CHUNK);
    assert_eq!(chunks[2].len(), 10);
    assert_eq!(chunks.concat(), log.as_bytes());
    assert!(split_log("").is_empty());
    let one = split_log("héllo");
    assert_eq!(one, vec!["héllo".as_bytes().to_vec()]);
    let exact = split_log(&"y".repeat(4096));
    assert_eq!(exact.len(), 1);
}

#[test]
fn log_pages() {
    assert_eq!(LogsQuery { limit: None, offset: None }.page(), (100, 0));
    assert_eq!(LogsQuery { limit: Some(5000), offset: Some(20) }.page(), (1000, 20));
    assert_eq!(LogsQuery { limit: Some(10), offset: None }.page(), (10, 0));
}

#[test]
fn command_output() {
    assert_eq!(listed_names("web-1\n  db-1  \n\n"), vec!["web-1".to_string(), "db-1".to_string()]);
    assert_eq!(count_lines("a\nb\n\nc"), 3);
    assert_eq!(count_lines(""), 0);
    assert_eq!(trimmed_output(" 27.1.1\n"), Some("27.1.1".to_string()));
    assert_eq!(trimmed_output("  \n"), None);
    assert_eq!(first_line("1.2GB\n3MB\n"), Some("1.2GB".to_string()));
    assert_eq!(first_line(""), None);
    assert_eq!(first_line("\nx"), None);
    assert_eq!(tagged_line("web", "hello"), "[web] hello");
    assert_eq!(export_file_name("site"), "site-stack.zip");
}

#[test]
fn swarm_errors() {
    assert!(no_swarm_configs("Error response from daemon: This node is not a swarm manager."));
    assert!(!no_swarm_configs("permission denied"));
    assert!(no_swarm_secrets("Swarm does not have a leader"));
    assert!(!no_swarm_secrets("boom"));
}

#[test]
fn backups() {
    let s = schedule_from("id".into(), "now".into(), None, None, None, None, Some(false));
    assert!(s.enabled && s.include_git && !s.include_env);
    assert_eq!(s.cron_expression, "0 3 * * *");
    assert_eq!(s.retention_days, 30);
    assert_eq!((s.created_at.as_str(), s.updated_at.as_str()), ("now", "now"));
    assert!(s.last_run_at.is_none() && s.last_status.is_none());
    assert!(backup_expired(0, 31 * 86400, 30));
    assert!(!backup_expired(86400, 31 * 86400, 30));
    assert_eq!(run_seconds(100, 160), 60);
    assert_eq!(run_seconds(100, 90), 0);
    assert!(!backup_due(false, None, 3, None));
    assert!(backup_due(true, None, 15, None));
    assert!(!backup_due(true, None, 15, Some(22)));
    assert!(backup_due(true, None, 15, Some(23)));
    assert!(backup_due(true, Some(3), 3, Some(24)));
    assert!(!backup_due(true, Some(3), 15, Some(24)));
    assert!(!backup_due(true, Some(3), 3, Some(5)));
    assert!(!backup_due(false, Some(3), 3, Some(24)));
    assert_eq!(backup_failure_status("disk full"), "error: disk full");
    assert_eq!(backup_file_name("20260101_030000"), "dockpot-backup-20260101_030000.zip");
}

#[test]
fn cron_hour_of_schedule() {
    assert_eq!(cron_hour("0 3 * * *"), Some(3));
    assert!(!backup_due(true, cron_hour("0 3 * * *"), 15, Some(30)));
    assert!(backup_due(true, cron_hour("0 3 * * *"), 3, Some(30)));
    assert_eq!(cron_hour("0  3 * * *"), Some(3));
    assert_eq!(cron_hour("30 23 * * *"), Some(23));
    assert_eq!(cron_hour("*/5 * * * *"), None);
    assert_eq!(cron_hour("0 24 * * *"), None);
    assert_eq!(cron_hour("0"), None);
    assert_eq!(cron_hour(""), None);
}
