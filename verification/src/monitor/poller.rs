//! The repository poller: configuration, state, and the tools of one repository.

use vstd::prelude::*;
use crate::monitor::config::MonitorConfig;
use crate::monitor::executor::SyncExecutor;
use crate::monitor::git_checker::GitChecker;
use crate::monitor::state::MonitorState;

verus! {

/// Polls a git repository for changes and triggers synchronization.
pub struct RepoPoller {
    pub config: MonitorConfig,
    pub state: MonitorState,
    pub state_path: String,
    pub git_checker: GitChecker,
    pub executor: SyncExecutor,
}

impl RepoPoller {
    /// Creates a poller for the repository at `absolute_repo_path` (the configured
    /// repository path made absolute); git and the sync command both work on it, and the
    /// sync command targets the configured server.
    pub fn new(
        config: MonitorConfig,
        state: MonitorState,
        state_path: &str,
        absolute_repo_path: &str,
    ) -> (p: Self)
        ensures
            p.config == config,
            p.state == state,
            p.state_path@ == state_path@,
            p.git_checker.repo_path()@ == absolute_repo_path@,
            p.executor.ip()@ == config.server_ip@,
            p.executor.port() == config.server_port,
            p.executor.retries() == config.max_retries,
            p.executor.repo()@ == absolute_repo_path@,
    {
        let executor = SyncExecutor::new(
            config.server_ip.as_str(),
            config.server_port,
            config.max_retries,
            absolute_repo_path,
        );
        RepoPoller {
            executor,
            config,
            state,
            state_path: String::from_str(state_path),
            git_checker: GitChecker::new(absolute_repo_path),
        }
    }
}

} // verus!
