//! The sync command line and its retry policy.

use vstd::prelude::*;
use crate::dashboard::{base_url, server_base_url};
use crate::text::views_of;

verus! {

/// Runs the sync command for commits of one repository against one server.
#[derive(Debug)]
pub struct SyncExecutor {
    server_ip: String,
    server_port: u16,
    max_retries: u32,
    repo_path: String,
}

/// The arguments of the sync command for `commit`.
pub open spec fn sync_args_of(ip: Seq<char>, port: u16, repo: Seq<char>, commit: Seq<char>) -> Seq<
    Seq<char>,
> {
    seq!["--server"@, base_url(ip, port), "submit"@, "--repo"@, repo, commit]
}

impl SyncExecutor {
    /// Creates a new `SyncExecutor`.
    pub fn new(server_ip: &str, server_port: u16, max_retries: u32, repo_path: &str) -> (e: Self)
        ensures
            e.ip()@ == server_ip@,
            e.port() == server_port,
            e.retries() == max_retries,
            e.repo()@ == repo_path@,
    {
        SyncExecutor {
            server_ip: String::from_str(server_ip),
            server_port,
            max_retries,
            repo_path: String::from_str(repo_path),
        }
    }

    /// The server address.
    pub closed spec fn ip(&self) -> String {
        self.server_ip
    }

    /// The server port.
    pub closed spec fn port(&self) -> u16 {
        self.server_port
    }

    /// The number of attempts after which a failing sync is given up.
    pub closed spec fn retries(&self) -> u32 {
        self.max_retries
    }

    /// The repository whose commits are synced.
    pub closed spec fn repo(&self) -> String {
        self.repo_path
    }

    /// The server address.
    pub fn server_ip(&self) -> (r: &str)
        ensures
            r@ == self.ip()@,
    {
        self.server_ip.as_str()
    }

    /// The server port.
    pub fn server_port(&self) -> (r: u16)
        ensures
            r == self.port(),
    {
        self.server_port
    }

    /// The number of attempts after which a failing sync is given up.
    pub fn max_retries(&self) -> (r: u32)
        ensures
            r == self.retries(),
    {
        self.max_retries
    }

    /// The repository whose commits are synced.
    pub fn repo_path(&self) -> (r: &str)
        ensures
            r@ == self.repo()@,
    {
        self.repo_path.as_str()
    }

    /// The sync command's arguments for `commit`:
    /// `--server http://<ip>:<port> submit --repo <repo> <commit>`.
    pub fn sync_args(&self, commit: &str) -> (r: Vec<String>)
        ensures
            views_of(r@) == sync_args_of(self.ip()@, self.port(), self.repo()@, commit@),
    {
        let mut args: Vec<String> = Vec::new();
        args.push(String::from_str("--server"));
        args.push(server_base_url(self.server_ip.as_str(), self.server_port));
        args.push(String::from_str("submit"));
        args.push(String::from_str("--repo"));
        args.push(self.repo_path.clone());
        args.push(String::from_str(commit));
        proof {
            assert(views_of(args@) =~= sync_args_of(
                self.ip()@,
                self.port(),
                self.repo()@,
                commit@,
            ));
        }
        args
    }

    /// Whether another attempt follows after `failures` failed attempts in a row: the
    /// command is retried up to `max_retries` times after its first run.
    pub fn retry_after_failures(&self, failures: u64) -> (b: bool)
        ensures
            b == retries_after(failures as nat, self.retries()),
    {
        failures <= self.max_retries as u64
    }
}

/// Another attempt follows `failures` failed attempts in a row: at most `max_retries`
/// retries follow the first run.
pub open spec fn retries_after(failures: nat, max_retries: u32) -> bool {
    failures <= max_retries
}

/// The number of runs a sync that keeps failing gets: the first, and `max_retries`
/// retries.
pub open spec fn attempts_allowed(max_retries: u32) -> nat {
    max_retries as nat + 1
}

/// A sync that keeps failing is run exactly [`attempts_allowed`] times: after each of the
/// first `attempts_allowed - 1` failures another run follows, after the last one it stops.
pub proof fn lemma_attempts_allowed(max_retries: u32)
    ensures
        forall|k: nat|
            1 <= k < attempts_allowed(max_retries) ==> #[trigger] retries_after(k, max_retries),
        !retries_after(attempts_allowed(max_retries), max_retries),
{
}

} // verus!
