//! Configuration of the repository monitor, resolved from the values found in its
//! settings files with a default for each missing value.

use vstd::prelude::*;
use crate::text::views_of;

verus! {

/// Configuration for the repository monitor.
#[derive(Clone, Debug)]
pub struct MonitorConfig {
    /// Path to the local repository to monitor.
    pub repository_path: String,
    /// Maximum number of retries for the sync command.
    pub max_retries: u32,
    /// Interval in seconds between git pull attempts.
    pub pull_interval_sec: u64,
    /// Server IP.
    pub server_ip: String,
    /// Server port.
    pub server_port: u16,
    /// Branches to monitor.
    pub branches: Vec<String>,
    /// Maximum history days.
    pub max_history_days: u32,
}

/// The values found in the settings files (`None` where a key is missing or not of the
/// expected kind). `branches` holds, for each element of the `branches` array, its text
/// or `None` when it has none.
#[derive(Debug)]
pub struct MonitorSettings {
    pub repository_path: Option<String>,
    pub max_retries: Option<i64>,
    pub pull_interval_sec: Option<i64>,
    pub server_ip: Option<String>,
    pub server_port: Option<i64>,
    pub branches: Option<Vec<Option<String>>>,
    pub max_history_days: Option<i64>,
}

/// The texts among the array elements, in order.
pub open spec fn present_texts(v: Seq<Option<String>>) -> Seq<Seq<char>>
    decreases v.len(),
{
    if v.len() == 0 {
        Seq::empty()
    } else {
        let rest = present_texts(v.drop_last());
        match v.last() {
            Some(s) => rest.push(s@),
            None => rest,
        }
    }
}

/// The branches configured: the texts of the `branches` array, or `main` alone when
/// there is no such array.
pub open spec fn branches_of(b: Option<Vec<Option<String>>>) -> Seq<Seq<char>> {
    match b {
        Some(v) => present_texts(v@),
        None => seq!["main"@],
    }
}

impl MonitorConfig {
    /// Loads the configuration from the values read out of the settings files (the
    /// TOML settings and the JSON monitor configuration, the latter taking precedence).
    /// Defaults: empty repository path, 3 retries, a 10 s
    /// interval, server `127.0.0.1:8080`, branch `main`, 180 days of history. Integer
    /// values are narrowed to their field's width as `as` casts do.
    pub fn load(s: MonitorSettings) -> (c: MonitorConfig)
        ensures
            c.repository_path@ == match s.repository_path {
                Some(p) => p@,
                None => Seq::<char>::empty(),
            },
            c.max_retries == match s.max_retries {
                Some(v) => v as u32,
                None => 3u32,
            },
            c.pull_interval_sec == match s.pull_interval_sec {
                Some(v) => v as u64,
                None => 10u64,
            },
            c.server_ip@ == match s.server_ip {
                Some(ip) => ip@,
                None => "127.0.0.1"@,
            },
            c.server_port == match s.server_port {
                Some(v) => v as u16,
                None => 8080u16,
            },
            views_of(c.branches@) == branches_of(s.branches),
            c.max_history_days == match s.max_history_days {
                Some(v) => v as u32,
                None => 180u32,
            },
    {
        let MonitorSettings {
            repository_path,
            max_retries,
            pull_interval_sec,
            server_ip,
            server_port,
            branches,
            max_history_days,
        } = s;
        let ghost b_in = branches;
        let repository_path = match repository_path {
            Some(p) => p,
            None => String::new(),
        };
        let max_retries = match max_retries {
            Some(v) => v as u32,
            None => 3,
        };
        let pull_interval_sec = match pull_interval_sec {
            Some(v) => v as u64,
            None => 10,
        };
        let server_ip = match server_ip {
            Some(ip) => ip,
            None => String::from_str("127.0.0.1"),
        };
        let server_port = match server_port {
            Some(v) => v as u16,
            None => 8080,
        };
        let branches = match branches {
            Some(v) => present_strings(&v),
            None => {
                let mut b: Vec<String> = Vec::new();
                b.push(String::from_str("main"));
                proof {
                    assert(views_of(b@) =~= seq!["main"@]);
                }
                b
            },
        };
        let max_history_days = match max_history_days {
            Some(v) => v as u32,
            None => 180,
        };
        MonitorConfig {
            repository_path,
            max_retries,
            pull_interval_sec,
            server_ip,
            server_port,
            branches,
            max_history_days,
        }
    }
}

/// The texts among `v`, in order.
fn present_strings(v: &Vec<Option<String>>) -> (r: Vec<String>)
    ensures
        views_of(r@) == present_texts(v@),
{
    let mut out: Vec<String> = Vec::new();
    let n = v.len();
    assert(v@.take(0) =~= Seq::<Option<String>>::empty());
    for i in 0..n
        invariant
            n == v@.len(),
            views_of(out@) == present_texts(v@.take(i as int)),
    {
        proof {
            assert(v@.take(i + 1).drop_last() =~= v@.take(i as int));
        }
        let ghost before = views_of(out@);
        match &v[i] {
            Some(s) => {
                out.push(s.clone());
                proof {
                    assert(views_of(out@) =~= before.push(s@));
                }
            },
            None => {},
        }
    }
    assert(v@.take(n as int) =~= v@);
    out
}

} // verus!
