use sashiko::monitor::config::{MonitorConfig, MonitorSettings};
use sashiko::monitor::executor::SyncExecutor;
use sashiko::monitor::git_checker::{
    parse_commit_list, parse_upstream_hash, rev_list_args, upstream_ref, GitChecker,
};
use sashiko::monitor::poller::RepoPoller;
use sashiko::monitor::state::{plan_branch_sync, BranchPlan, BranchState, MonitorState, SyncRound};

#[test]
fn test_execute_sync_args() {
    let executor = SyncExecutor::new("127.0.0.1", 8080, 3, "/test/repo");
    assert_eq!(executor.server_ip(), "127.0.0.1");
    assert_eq!(executor.server_port(), 8080);
    assert_eq!(executor.max_retries(), 3);
    assert_eq!(executor.repo_path(), "/test/repo");
}

#[test]
fn sync_command_line_targets_server_and_repo() {
    let executor = SyncExecutor::new("127.0.0.1", 8080, 3, "/test/repo");
    let args = executor.sync_args("abc123");
    assert_eq!(
        args,
        vec!["--server", "http://127.0.0.1:8080", "submit", "--repo", "/test/repo", "abc123"]
    );
    assert!(args.join(" ").contains("--server http://127.0.0.1:8080 submit --repo"));
}

#[test]
fn sync_gives_up_after_max_retries_attempts() {
    let executor = SyncExecutor::new("10.0.0.2", 7, 3, "r");
    assert!(executor.retry_after_failures(1));
    assert!(executor.retry_after_failures(2));
    assert!(executor.retry_after_failures(3));
    assert!(!executor.retry_after_failures(4));
    let once = SyncExecutor::new("10.0.0.2", 7, 0, "r");
    assert!(!once.retry_after_failures(1));
    let one_retry = SyncExecutor::new("10.0.0.2", 7, 1, "r");
    assert!(one_retry.retry_after_failures(1));
    assert!(!one_retry.retry_after_failures(2));
}

#[test]
fn new_state_is_empty_and_finds_nothing() {
    let state = MonitorState::new();
    assert!(state.0.is_empty());
    assert!(state.get_branch_state("main").is_none());
    let d = MonitorState::default();
    assert!(d.0.is_empty());
}

#[test]
fn get_mut_branch_state_creates_then_updates() {
    let mut state = MonitorState::new();
    let branch_state = state.get_mut_branch_state("main");
    assert_eq!(branch_state.branch_name, "main");
    assert_eq!(branch_state.last_synced_commit, None);
    assert_eq!(branch_state.retry_count, 0);
    branch_state.last_synced_commit = Some("12345abcde".to_string());
    branch_state.retry_count = 1;

    let loaded_branch = state.get_branch_state("main").unwrap();
    assert_eq!(loaded_branch.last_synced_commit.as_deref(), Some("12345abcde"));
    assert_eq!(loaded_branch.retry_count, 1);

    // A second lookup returns the same entry rather than adding one.
    state.get_mut_branch_state("main").retry_count = 2;
    state.get_mut_branch_state("dev");
    assert_eq!(state.0.len(), 2);
    assert_eq!(state.get_branch_state("main").unwrap().retry_count, 2);
    assert_eq!(state.0[1].branch_name, "dev");
}

fn branch(last: Option<&str>, retries: u32) -> BranchState {
    BranchState {
        branch_name: "main".to_string(),
        last_synced_commit: last.map(|s| s.to_string()),
        retry_count: retries,
    }
}

#[test]
fn plan_follows_upstream_and_retries() {
    assert_eq!(plan_branch_sync(&branch(None, 0), "h1", 3), BranchPlan::SyncNewCommits);
    assert_eq!(plan_branch_sync(&branch(Some("h1"), 0), "h1", 3), BranchPlan::Unchanged);
    assert_eq!(plan_branch_sync(&branch(Some("h1"), 2), "h1", 3), BranchPlan::ResetRetries);
    assert_eq!(plan_branch_sync(&branch(Some("h0"), 2), "h1", 3), BranchPlan::SyncNewCommits);
    assert_eq!(plan_branch_sync(&branch(Some("h0"), 3), "h1", 3), BranchPlan::RetriesExhausted);
}

#[test]
fn failed_sync_is_retried_then_not_repeated() {
    // First round: the second commit fails.
    let mut b = branch(Some("h0"), 0);
    assert_eq!(plan_branch_sync(&b, "h2", 3), BranchPlan::SyncNewCommits);
    b.record_commit_synced("h1");
    b.record_sync_failure();
    assert_eq!(b.last_synced_commit.as_deref(), Some("h1"));
    assert_eq!(b.retry_count, 1);
    // Next round retries from h1 and succeeds.
    assert_eq!(plan_branch_sync(&b, "h2", 3), BranchPlan::SyncNewCommits);
    b.record_commit_synced("h2");
    b.record_branch_synced("h2");
    assert_eq!(b.retry_count, 0);
    // Later rounds (and restarts with the saved state) do not sync it again.
    assert_eq!(plan_branch_sync(&b, "h2", 3), BranchPlan::Unchanged);
    b.retry_count = 4;
    b.reset_retries();
    assert_eq!(b.retry_count, 0);
}

#[test]
fn git_arguments_and_output() {
    assert_eq!(upstream_ref("main"), "main@{u}");
    assert_eq!(
        rev_list_args(Some("aaa"), "bbb", 180),
        vec!["rev-list", "--since=180 days ago", "--reverse", "aaa..bbb"]
    );
    assert_eq!(
        rev_list_args(None, "HEAD", 7),
        vec!["rev-list", "--since=7 days ago", "--reverse", "HEAD"]
    );
    assert_eq!(parse_upstream_hash("  0123abc\n"), "0123abc");
    assert_eq!(
        parse_commit_list("c1\n  c2 \r\n\n c3"),
        vec!["c1".to_string(), "c2".to_string(), "c3".to_string()]
    );
    assert!(parse_commit_list("").is_empty());
    assert!(parse_commit_list("\n \n").is_empty());
    let checker = GitChecker::new("/repo");
    assert_eq!(checker.path(), "/repo");
}

#[test]
fn config_defaults_and_overrides() {
    let cfg = MonitorConfig::load(MonitorSettings {
        repository_path: Some("my_kernel_repo".to_string()),
        max_retries: Some(5),
        pull_interval_sec: Some(3600),
        server_ip: None,
        server_port: None,
        branches: Some(vec![Some("main".to_string()), None, Some("feature-x".to_string())]),
        max_history_days: Some(90),
    });
    assert_eq!(cfg.max_retries, 5);
    assert_eq!(cfg.pull_interval_sec, 3600);
    assert_eq!(cfg.repository_path, "my_kernel_repo");
    assert_eq!(cfg.max_history_days, 90);
    assert_eq!(cfg.branches, vec!["main".to_string(), "feature-x".to_string()]);
    assert_eq!(cfg.server_ip, "127.0.0.1");
    assert_eq!(cfg.server_port, 8080);

    let empty = MonitorConfig::load(MonitorSettings {
        repository_path: None,
        max_retries: None,
        pull_interval_sec: None,
        server_ip: None,
        server_port: None,
        branches: None,
        max_history_days: None,
    });
    assert_eq!(empty.repository_path, "");
    assert_eq!(empty.max_retries, 3);
    assert_eq!(empty.pull_interval_sec, 10);
    assert_eq!(empty.branches, vec!["main".to_string()]);
    assert_eq!(empty.max_history_days, 180);
}

#[test]
fn config_narrows_integers_like_casts() {
    let cfg = MonitorConfig::load(MonitorSettings {
        repository_path: None,
        max_retries: Some(-1),
        pull_interval_sec: Some(-1),
        server_ip: Some("10.1.1.1".to_string()),
        server_port: Some(70000),
        branches: Some(vec![]),
        max_history_days: Some(1 << 32),
    });
    assert_eq!(cfg.max_retries, u32::MAX);
    assert_eq!(cfg.pull_interval_sec, u64::MAX);
    assert_eq!(cfg.server_port, 70000u32 as u16);
    assert_eq!(cfg.max_history_days, 0);
    assert!(cfg.branches.is_empty());
    assert_eq!(cfg.server_ip, "10.1.1.1");
}

#[test]
fn poller_uses_absolute_repository_path() {
    let cfg = MonitorConfig::load(MonitorSettings {
        repository_path: Some("my_kernel_repo".to_string()),
        max_retries: Some(3),
        pull_interval_sec: Some(1),
        server_ip: None,
        server_port: Some(8080),
        branches: None,
        max_history_days: None,
    });
    let poller = RepoPoller::new(cfg, MonitorState::new(), ".state.json", "/abs/my_kernel_repo");
    assert_eq!(poller.git_checker.path(), "/abs/my_kernel_repo");
    assert_eq!(poller.executor.repo_path(), "/abs/my_kernel_repo");
    assert_eq!(poller.executor.server_port(), 8080);
    assert_eq!(poller.state_path, ".state.json");
    assert_eq!(poller.config.branches, vec!["main".to_string()]);
}

#[test]
fn failed_round_keeps_last_synced_commit() {
    let commits = vec!["c1".to_string(), "c2".to_string(), "c3".to_string()];
    let mut b = branch(Some("c0"), 1);
    b.record_round(&commits, 2, true, "c3");
    assert_eq!(b.last_synced_commit.as_deref(), Some("c2"));
    assert_eq!(b.retry_count, 2);

    let mut first_fails = branch(Some("c0"), 0);
    first_fails.record_round(&commits, 0, true, "c3");
    assert_eq!(first_fails.last_synced_commit.as_deref(), Some("c0"));
    assert_eq!(first_fails.retry_count, 1);
}

#[test]
fn complete_round_records_upstream_and_clears_retries() {
    let commits = vec!["c1".to_string(), "c2".to_string()];
    let mut b = branch(None, 2);
    b.record_round(&commits, 2, false, "c2");
    assert_eq!(b.last_synced_commit.as_deref(), Some("c2"));
    assert_eq!(b.retry_count, 0);
    assert_eq!(plan_branch_sync(&b, "c2", 3), BranchPlan::Unchanged);
}

#[test]
fn round_stops_at_the_first_failed_sync() {
    let commits = vec!["c1".to_string(), "c2".to_string(), "c3".to_string()];
    let mut round = SyncRound::new(commits);
    assert_eq!(round.next_commit(), Some("c1"));
    round.record(true);
    assert_eq!(round.next_commit(), Some("c2"));
    round.record(false);
    assert_eq!(round.next_commit(), None);
    assert!(round.has_failed());
    let mut b = branch(Some("c0"), 0);
    round.finish(&mut b, "c3");
    assert_eq!(b.last_synced_commit.as_deref(), Some("c1"));
    assert_eq!(b.retry_count, 1);

    let mut all = SyncRound::new(vec!["d1".to_string()]);
    all.record(true);
    assert_eq!(all.next_commit(), None);
    let mut b = branch(None, 2);
    all.finish(&mut b, "d1");
    assert_eq!(b.last_synced_commit.as_deref(), Some("d1"));
    assert_eq!(b.retry_count, 0);
}

#[test]
fn only_resets_and_sync_rounds_change_the_state() {
    assert!(BranchPlan::ResetRetries.changes_state());
    assert!(BranchPlan::SyncNewCommits.changes_state());
    assert!(!BranchPlan::Unchanged.changes_state());
    assert!(!BranchPlan::RetriesExhausted.changes_state());
}
