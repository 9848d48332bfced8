//! Dashboard aggregation over the configured remote servers: online counts, summed
//! statistics, per-server issue shares, server cards, and per-server message trends
//! aligned on one sorted day axis.

use vstd::prelude::*;
use crate::numbers::{decimal_text, push_decimal};
use crate::order::{chars_less, lemma_str_lt_irreflexive, lemma_str_lt_total, lemma_str_lt_transitive, str_lt};
use crate::sums::{
    lemma_sum_int_take_ends, lemma_sum_int_take_step, lemma_sum_take_ends, lemma_sum_take_le,
    lemma_sum_take_step, sum_int, sum_nat,
};
use crate::text::{chars_of, string_of};

verus! {

/// A configured remote server.
#[derive(Debug)]
pub struct ServerConfig {
    pub id: Option<i64>,
    pub name: String,
    pub ip: String,
    pub web_port: u16,
    pub description: String,
}

/// A remote server's `/api/stats` answer.
#[derive(Debug)]
pub struct RemoteStats {
    pub status: String,
    pub version: Option<String>,
    pub pending: Option<i64>,
    pub reviewing: Option<i64>,
    pub messages: Option<i64>,
    pub patchsets: Option<i64>,
}

/// A remote server's `/api/stats/findings` answer.
#[derive(Clone, Copy, Debug, PartialEq, Eq)]
pub struct RemoteFindings {
    pub total: u32,
    pub pending: u32,
    pub not_issue: u32,
    pub to_fix: u32,
    pub fixed: u32,
}

/// A count on one day.
#[derive(Debug)]
pub struct TimelinePoint {
    pub day: String,
    pub count: u32,
}

/// A count on one day for one status.
#[derive(Debug)]
pub struct TimelineStatusPoint {
    pub day: String,
    pub status: String,
    pub count: u32,
}

/// A remote server's `/api/stats/timeline` answer.
#[derive(Debug)]
pub struct RemoteTimeline {
    pub messages: Vec<TimelinePoint>,
    pub patchsets: Vec<TimelineStatusPoint>,
    pub patches: Vec<TimelinePoint>,
    pub reviews: Vec<TimelineStatusPoint>,
}

/// Sector data for a pie chart.
#[derive(Debug)]
pub struct PieSector {
    pub name: String,
    pub value: u32,
}

/// One server's trend line, with counts aligned to the shared day axis.
#[derive(Debug)]
pub struct ServerTrendSeries {
    pub name: String,
    pub counts: Vec<u32>,
}

/// Server card data for the dashboard.
#[derive(Debug)]
pub struct ServerCard {
    pub id: i64,
    pub name: String,
    pub ip: String,
    pub web_port: u16,
    pub description: String,
    pub online: bool,
}

/// What was learnt from one server: whether it is online and the answers that arrived
/// (`None` where the request failed).
#[derive(Debug)]
pub struct ServerProbe {
    pub server: ServerConfig,
    pub online: bool,
    pub stats: Option<RemoteStats>,
    pub findings: Option<RemoteFindings>,
    pub timeline: Option<RemoteTimeline>,
}

/// The aggregated dashboard. The average accuracy is
/// `accuracy_numerator / accuracy_denominator` (0 when the denominator is 0).
#[derive(Debug)]
pub struct DashboardTotals {
    pub total_patchsets: i64,
    pub total_issues: u32,
    pub accuracy_numerator: u32,
    pub accuracy_denominator: u32,
    pub online_servers: u32,
    pub offline_servers: u32,
    pub pie_chart_data: Vec<PieSector>,
    pub trend_days: Vec<String>,
    pub trend_series: Vec<ServerTrendSeries>,
    pub servers: Vec<ServerCard>,
}

/// A server counts as online when its stats answer arrived with status `ok`.
pub open spec fn online_status(stats: Option<RemoteStats>) -> bool {
    match stats {
        Some(s) => s.status@ == "ok"@,
        None => false,
    }
}

/// Whether a server with this stats answer (or none) is online.
pub fn is_online(stats: Option<&RemoteStats>) -> (b: bool)
    ensures
        b == online_status(
            match stats {
                Some(s) => Some(*s),
                None => None,
            },
        ),
{
    match stats {
        Some(s) => s.status == String::from_str("ok"),
        None => false,
    }
}

/// The base URL of a server's web API: `http://<ip>:<port>`.
pub open spec fn base_url(ip: Seq<char>, port: u16) -> Seq<char> {
    "http://"@ + ip + ":"@ + decimal_text(port as nat)
}

/// The base URL of the web API of the server at `ip`, `port`.
pub fn server_base_url(ip: &str, port: u16) -> (r: String)
    ensures
        r@ == base_url(ip@, port),
{
    let mut r = String::from_str("http://");
    r.append(ip);
    r.append(":");
    push_decimal(&mut r, port as u64);
    r
}


/// How long an aggregate is reused, in nanoseconds (30 s).
pub const CACHE_TTL_NANOS: u64 = 30_000_000_000;

/// Time from `stored_at` to `now` on a monotonic clock (0 if the clock reads earlier).
pub open spec fn elapsed_nanos(stored_at: u64, now: u64) -> u64 {
    if now >= stored_at {
        (now - stored_at) as u64
    } else {
        0
    }
}

/// The aggregate in `entry` that may still be served at `now`: one stored less than
/// [`CACHE_TTL_NANOS`] before.
pub open spec fn fresh_at<T>(entry: Option<(u64, T)>, now: u64) -> Option<T> {
    match entry {
        Some((t, v)) => if elapsed_nanos(t, now) < CACHE_TTL_NANOS {
            Some(v)
        } else {
            None
        },
        None => None,
    }
}

/// The last aggregate computed, with the time (in nanoseconds of a monotonic clock) at
/// which it was stored.
pub struct AggregateCache<T> {
    entry: Option<(u64, T)>,
}

impl<T> AggregateCache<T> {
    /// The stored aggregate and its time, if any.
    pub closed spec fn entry(&self) -> Option<(u64, T)> {
        self.entry
    }

    /// A cache holding nothing.
    pub fn new() -> (c: Self)
        ensures
            c.entry() is None,
    {
        AggregateCache { entry: None }
    }

    /// The stored aggregate if it is still fresh at `now`; `None` means it must be
    /// fetched and computed anew.
    pub fn fresh(&self, now: u64) -> (r: Option<&T>)
        ensures
            match fresh_at(self.entry(), now) {
                Some(v) => r matches Some(x) && *x == v,
                None => r is None,
            },
    {
        match &self.entry {
            Some((t, v)) => {
                let elapsed = if now >= *t {
                    now - *t
                } else {
                    0
                };
                if elapsed < CACHE_TTL_NANOS {
                    Some(v)
                } else {
                    None
                }
            },
            None => None,
        }
    }

    /// Stores a newly computed aggregate at `now`.
    pub fn store(&mut self, now: u64, value: T)
        ensures
            final(self).entry() == Some((now, value)),
    {
        self.entry = Some((now, value));
    }
}

/// An aggregate stored at `stored_at` is served as it is, without fetching, until 30 s
/// have passed; after that it is fetched anew.
pub proof fn lemma_fresh_cache_served<T>(stored_at: u64, v: T, now: u64)
    ensures
        stored_at <= now < stored_at + CACHE_TTL_NANOS ==> fresh_at(Some((stored_at, v)), now)
            == Some(v),
        now >= stored_at + CACHE_TTL_NANOS ==> fresh_at(Some((stored_at, v)), now) is None,
{
}

// ---------------------------------------------------------------------------
// Per-server quantities
// ---------------------------------------------------------------------------

/// 1 for an online server, else 0.
pub open spec fn online_term(p: ServerProbe) -> nat {
    if p.online {
        1
    } else {
        0
    }
}

/// The server's patchset count (0 if absent).
pub open spec fn patchsets_term(p: ServerProbe) -> int {
    match p.stats {
        Some(s) => match s.patchsets {
            Some(n) => n as int,
            None => 0,
        },
        None => 0,
    }
}

/// The server's total findings (0 if unknown).
pub open spec fn issues_term(p: ServerProbe) -> nat {
    match p.findings {
        Some(f) => f.total as nat,
        None => 0,
    }
}

/// The server's findings judged not to be issues.
pub open spec fn not_issue_term(p: ServerProbe) -> nat {
    match p.findings {
        Some(f) => f.not_issue as nat,
        None => 0,
    }
}

/// The server's findings still to fix.
pub open spec fn to_fix_term(p: ServerProbe) -> nat {
    match p.findings {
        Some(f) => f.to_fix as nat,
        None => 0,
    }
}

/// The server's fixed findings.
pub open spec fn fixed_term(p: ServerProbe) -> nat {
    match p.findings {
        Some(f) => f.fixed as nat,
        None => 0,
    }
}

/// Number of online servers.
pub open spec fn online_count(ps: Seq<ServerProbe>) -> nat {
    sum_nat(ps.map_values(|p: ServerProbe| online_term(p)))
}

/// The patchset counts of the servers.
pub open spec fn patchset_terms(ps: Seq<ServerProbe>) -> Seq<int> {
    ps.map_values(|p: ServerProbe| patchsets_term(p))
}

/// Sum of patchset counts.
pub open spec fn patchsets_total(ps: Seq<ServerProbe>) -> int {
    sum_int(patchset_terms(ps))
}

/// Sum of total findings.
pub open spec fn issues_total(ps: Seq<ServerProbe>) -> nat {
    sum_nat(ps.map_values(|p: ServerProbe| issues_term(p)))
}

/// Findings that are real issues (to fix or fixed), over all servers.
pub open spec fn accurate_total(ps: Seq<ServerProbe>) -> nat {
    sum_nat(ps.map_values(|p: ServerProbe| to_fix_term(p))) + sum_nat(
        ps.map_values(|p: ServerProbe| fixed_term(p)),
    )
}

/// Judged findings (not an issue, to fix, or fixed), over all servers.
pub open spec fn judged_total(ps: Seq<ServerProbe>) -> nat {
    sum_nat(ps.map_values(|p: ServerProbe| not_issue_term(p))) + accurate_total(ps)
}

/// The message timeline of a server (empty if unknown).
pub open spec fn points_of(p: ServerProbe) -> Seq<TimelinePoint> {
    match p.timeline {
        Some(t) => t.messages@,
        None => Seq::empty(),
    }
}

/// Sum of the counts of `points` on day `d`.
pub open spec fn day_total(points: Seq<TimelinePoint>, d: Seq<char>) -> nat
    decreases points.len(),
{
    if points.len() == 0 {
        0
    } else {
        day_total(points.drop_last(), d) + if points.last().day@ == d {
            points.last().count as nat
        } else {
            0
        }
    }
}

/// Some server reports messages on day `d`.
pub open spec fn day_seen(ps: Seq<ServerProbe>, d: Seq<char>) -> bool {
    exists|i: int, j: int|
        0 <= i < ps.len() && 0 <= j < points_of(ps[i]).len() && (#[trigger] points_of(
            ps[i],
        )[j]).day@ == d
}

/// The days are strictly increasing.
pub open spec fn days_sorted(days: Seq<Seq<char>>) -> bool {
    forall|i: int, j: int| 0 <= i < j < days.len() ==> str_lt(days[i], days[j])
}

/// The counters of the aggregation do not overflow.
pub open spec fn totals_fit(ps: Seq<ServerProbe>) -> bool {
    &&& ps.len() <= u32::MAX
    &&& forall|i: int|
        0 <= i <= ps.len() ==> i64::MIN <= #[trigger] sum_int(patchset_terms(ps).take(i))
            <= i64::MAX
    &&& issues_total(ps) <= u32::MAX
    &&& judged_total(ps) <= u32::MAX
    &&& forall|i: int, d: Seq<char>|
        0 <= i < ps.len() ==> #[trigger] day_total(points_of(ps[i]), d) <= u32::MAX
}

// ---------------------------------------------------------------------------
// Day axis
// ---------------------------------------------------------------------------

/// The character sequences of a list of character vectors.
pub open spec fn day_views(v: Seq<Vec<char>>) -> Seq<Seq<char>> {
    v.map_values(|x: Vec<char>| x@)
}

/// The views of a list of strings.
pub open spec fn string_views(v: Seq<String>) -> Seq<Seq<char>> {
    v.map_values(|x: String| x@)
}

/// Inserts `d` into the strictly sorted `days` unless present.
fn insert_day(days: &mut Vec<Vec<char>>, d: Vec<char>)
    requires
        days_sorted(day_views(old(days)@)),
    ensures
        days_sorted(day_views(final(days)@)),
        forall|x: Seq<char>|
            #[trigger] day_views(final(days)@).contains(x) <==> (day_views(old(days)@).contains(x)
                || x == d@),
{
    let ghost s = day_views(days@);
    let n = days.len();
    let mut p: usize = 0;
    while p < n && chars_less(days[p].as_slice(), d.as_slice())
        invariant
            n == days@.len(),
            s == day_views(days@),
            p <= n,
            forall|j: int| 0 <= j < p ==> str_lt(#[trigger] s[j], d@),
        decreases n - p,
    {
        p = p + 1;
    }
    if p < n && !chars_less(d.as_slice(), days[p].as_slice()) {
        proof {
            assert(s[p as int] == days@[p as int]@);
            lemma_str_lt_total(s[p as int], d@);
            assert(s[p as int] == d@);
            assert forall|x: Seq<char>| s.contains(x) <==> (s.contains(x) || x == d@) by {
                if x == d@ {
                    assert(s[p as int] == x);
                }
            }
        }
        return;
    }
    proof {
        assert(s.len() == n);
        if p < n {
            assert(s[p as int] == days@[p as int]@);
            lemma_str_lt_total(s[p as int], d@);
            assert(str_lt(d@, s[p as int]));
        }
    }
    let ghost dv = d@;
    days.insert(p, d);
    proof {
        let t = day_views(days@);
        assert(t =~= s.insert(p as int, dv));
        assert forall|i: int, j: int| 0 <= i < j < t.len() implies str_lt(t[i], t[j]) by {
            if j < p {
            } else if j == p {
                assert(t[i] == s[i]);
            } else if i < p {
                assert(t[i] == s[i] && t[j] == s[j - 1]);
                if j - 1 > p {
                    lemma_str_lt_transitive(s[i], s[p as int], s[j - 1]);
                    lemma_str_lt_transitive(s[i], dv, s[p as int]);
                } else {
                    lemma_str_lt_transitive(s[i], dv, s[p as int]);
                }
            } else if i == p {
                assert(t[j] == s[j - 1]);
                if j - 1 > p {
                    lemma_str_lt_transitive(dv, s[p as int], s[j - 1]);
                }
            } else {
                assert(t[i] == s[i - 1] && t[j] == s[j - 1]);
            }
        }
        assert forall|x: Seq<char>| t.contains(x) <==> (s.contains(x) || x == dv) by {
            if t.contains(x) {
                let k = choose|k: int| 0 <= k < t.len() && t[k] == x;
                if k < p {
                    assert(s[k] == x);
                } else if k > p {
                    assert(s[k - 1] == x);
                }
            }
            if s.contains(x) {
                let k = choose|k: int| 0 <= k < s.len() && s[k] == x;
                if k < p {
                    assert(t[k] == x);
                } else {
                    assert(t[k + 1] == x);
                }
            }
            if x == dv {
                assert(t[p as int] == x);
            }
        }
    }
}

/// The sorted, duplicate-free days on which some server reports messages.
fn collect_days(probes: &Vec<ServerProbe>) -> (days: Vec<String>)
    ensures
        days_sorted(string_views(days@)),
        forall|x: Seq<char>|
            #[trigger] string_views(days@).contains(x) <==> day_seen(probes@, x),
{
    let mut acc: Vec<Vec<char>> = Vec::new();
    let n = probes.len();
    for i in 0..n
        invariant
            n == probes@.len(),
            days_sorted(day_views(acc@)),
            forall|x: Seq<char>|
                #[trigger] day_views(acc@).contains(x) <==> day_seen(
                    probes@.take(i as int),
                    x,
                ),
    {
        let ghost before = day_views(acc@);
        match &probes[i].timeline {
            Some(t) => {
                let m = t.messages.len();
                for j in 0..m
                    invariant
                        n == probes@.len(),
                        i < n,
                        probes@[i as int].timeline == Some(*t),
                        m == t.messages@.len(),
                        days_sorted(day_views(acc@)),
                        forall|x: Seq<char>|
                            #[trigger] day_views(acc@).contains(x) <==> (before.contains(x)
                                || exists|k: int| 0 <= k < j && (#[trigger] t.messages@[k]).day@ == x),
                {
                    let d = chars_of(t.messages[j].day.as_str());
                    insert_day(&mut acc, d);
                    proof {
                        assert forall|x: Seq<char>|
                            day_views(acc@).contains(x) <==> (before.contains(x)
                                || exists|k: int| 0 <= k < j + 1 && (#[trigger] t.messages@[k]).day@ == x) by {
                            if x == t.messages@[j as int].day@ {
                                assert(0 <= j < j + 1);
                            }
                        }
                    }
                }
            },
            None => {},
        }
        proof {
            let pre = probes@.take(i as int);
            let post = probes@.take(i + 1);
            assert forall|x: Seq<char>|
                day_views(acc@).contains(x) <==> day_seen(post, x) by {
                if day_seen(post, x) {
                    let (a, b) = choose|a: int, b: int|
                        0 <= a < post.len() && 0 <= b < points_of(post[a]).len() && (#[trigger] points_of(
                            post[a],
                        )[b]).day@ == x;
                    if a < i {
                        assert(post[a] == pre[a]);
                        assert(day_seen(pre, x));
                    } else {
                        assert(post[a] == probes@[i as int]);
                    }
                }
                if day_seen(pre, x) {
                    let (a, b) = choose|a: int, b: int|
                        0 <= a < pre.len() && 0 <= b < points_of(pre[a]).len() && (#[trigger] points_of(
                            pre[a],
                        )[b]).day@ == x;
                    assert(post[a] == pre[a]);
                }
                if day_views(acc@).contains(x) && !before.contains(x) {
                    assert(post[i as int] == probes@[i as int]);
                    match probes@[i as int].timeline {
                        Some(t) => {
                            let k = choose|k: int|
                                0 <= k < t.messages@.len() && (#[trigger] t.messages@[k]).day@ == x;
                            assert(points_of(post[i as int])[k].day@ == x);
                        },
                        None => {},
                    }
                }
                if day_seen(post, x) && !day_seen(pre, x) {
                    let (a, b) = choose|a: int, b: int|
                        0 <= a < post.len() && 0 <= b < points_of(post[a]).len() && (#[trigger] points_of(
                            post[a],
                        )[b]).day@ == x;
                    if a < i {
                        assert(post[a] == pre[a]);
                        assert(points_of(pre[a])[b].day@ == x);
                    }
                    assert(a == i);
                    match probes@[i as int].timeline {
                        Some(t) => {
                            assert(t.messages@[b].day@ == x);
                        },
                        None => {},
                    }
                }
            }
        }
    }
    proof {
        assert(probes@.take(n as int) =~= probes@);
    }
    let mut days: Vec<String> = Vec::new();
    let k = acc.len();
    for j in 0..k
        invariant
            k == acc@.len(),
            days@.len() == j,
            forall|q: int| 0 <= q < j ==> (#[trigger] days@[q])@ == acc@[q]@,
    {
        days.push(string_of(acc[j].as_slice()));
    }
    proof {
        assert(string_views(days@) =~= day_views(acc@));
    }
    days
}


// ---------------------------------------------------------------------------
// Aggregation
// ---------------------------------------------------------------------------

/// The card shown for a server: its configuration (a missing id shows as 0) and whether
/// it is online.
pub open spec fn card_for(c: ServerCard, p: ServerProbe) -> bool {
    &&& c.id == match p.server.id {
        Some(id) => id,
        None => 0,
    }
    &&& c.name@ == p.server.name@
    &&& c.ip@ == p.server.ip@
    &&& c.web_port == p.server.web_port
    &&& c.description@ == p.server.description@
    &&& c.online == p.online
}

proof fn lemma_day_total_prefix(points: Seq<TimelinePoint>, d: Seq<char>, k: int)
    requires
        0 <= k <= points.len(),
    ensures
        day_total(points.take(k), d) <= day_total(points, d),
        k < points.len() ==> day_total(points.take(k + 1), d) == day_total(points.take(k), d)
            + if points[k].day@ == d {
            points[k].count as nat
        } else {
            0
        },
    decreases points.len() - k,
{
    if k < points.len() {
        assert(points.take(k + 1).drop_last() =~= points.take(k));
        lemma_day_total_prefix(points, d, k + 1);
    } else {
        assert(points.take(k) =~= points);
    }
}

/// Sum of the counts of `points` on day `d`.
fn day_total_exec(points: &Vec<TimelinePoint>, d: &String) -> (n: u32)
    requires
        day_total(points@, d@) <= u32::MAX,
    ensures
        n == day_total(points@, d@),
{
    let mut total: u32 = 0;
    let m = points.len();
    assert(points@.take(0) =~= Seq::<TimelinePoint>::empty());
    for k in 0..m
        invariant
            m == points@.len(),
            day_total(points@, d@) <= u32::MAX,
            total == day_total(points@.take(k as int), d@),
    {
        proof {
            lemma_day_total_prefix(points@, d@, k as int);
            lemma_day_total_prefix(points@, d@, k + 1);
        }
        if points[k].day == *d {
            total = total + points[k].count;
        }
    }
    assert(points@.take(m as int) =~= points@);
    total
}

proof fn lemma_online_le(ps: Seq<ServerProbe>, i: int)
    requires
        0 <= i <= ps.len(),
    ensures
        sum_nat(ps.map_values(|p: ServerProbe| online_term(p)).take(i)) <= i,
    decreases i,
{
    let t = ps.map_values(|p: ServerProbe| online_term(p));
    if i > 0 {
        lemma_online_le(ps, i - 1);
        lemma_sum_take_step(t, i - 1);
    } else {
        assert(t.take(0) =~= Seq::<nat>::empty());
    }
}

// ---------------------------------------------------------------------------
// Overflow check
// ---------------------------------------------------------------------------

/// A day with a positive total is the day of some point.
proof fn lemma_day_total_positive(points: Seq<TimelinePoint>, d: Seq<char>)
    requires
        day_total(points, d) > 0,
    ensures
        exists|j: int| 0 <= j < points.len() && (#[trigger] points[j]).day@ == d,
    decreases points.len(),
{
    let last = points.len() - 1;
    if points[last].day@ == d {
        assert(points[last].day@ == d);
    } else {
        lemma_day_total_positive(points.drop_last(), d);
        let j = choose|j: int|
            0 <= j < points.drop_last().len() && (#[trigger] points.drop_last()[j]).day@ == d;
        assert(points[j] == points.drop_last()[j]);
    }
}

/// The total of `points` on day `d`, or `None` when it exceeds `u32::MAX`.
fn day_total_capped(points: &Vec<TimelinePoint>, d: &String) -> (r: Option<u32>)
    ensures
        match r {
            Some(n) => n == day_total(points@, d@),
            None => day_total(points@, d@) > u32::MAX,
        },
{
    let mut total: u64 = 0;
    let m = points.len();
    assert(points@.take(0) =~= Seq::<TimelinePoint>::empty());
    for k in 0..m
        invariant
            m == points@.len(),
            total == day_total(points@.take(k as int), d@),
            total <= u32::MAX,
    {
        proof {
            lemma_day_total_prefix(points@, d@, k as int);
            lemma_day_total_prefix(points@, d@, k + 1);
        }
        if points[k].day == *d {
            total = total + points[k].count as u64;
            if total > 0xFFFF_FFFF {
                return None;
            }
        }
    }
    assert(points@.take(m as int) =~= points@);
    Some(total as u32)
}

/// Whether no day's total of `points` exceeds `u32::MAX`.
fn day_totals_fit(points: &Vec<TimelinePoint>) -> (b: bool)
    ensures
        b == (forall|d: Seq<char>| #[trigger] day_total(points@, d) <= u32::MAX),
{
    let m = points.len();
    for j in 0..m
        invariant
            m == points@.len(),
            forall|k: int| 0 <= k < j ==> day_total(points@, (#[trigger] points@[k]).day@) <= u32::MAX,
    {
        match day_total_capped(points, &points[j].day) {
            None => return false,
            Some(_) => {},
        }
    }
    assert forall|d: Seq<char>| #[trigger] day_total(points@, d) <= u32::MAX by {
        if day_total(points@, d) > 0 {
            lemma_day_total_positive(points@, d);
        }
    }
    true
}

/// Whether the aggregation of `results` stays within its counters' types (see
/// [`totals_fit`]), so that [`process_results`] may be called.
pub fn aggregation_fits(results: &Vec<ServerProbe>) -> (b: bool)
    ensures
        b == totals_fit(results@),
{
    let ghost ps = results@;
    let n = results.len();
    if n > 0xFFFF_FFFF {
        return false;
    }
    let ghost pt = patchset_terms(ps);
    let ghost it = ps.map_values(|p: ServerProbe| issues_term(p));
    let ghost nt = ps.map_values(|p: ServerProbe| not_issue_term(p));
    let ghost tt = ps.map_values(|p: ServerProbe| to_fix_term(p));
    let ghost ft = ps.map_values(|p: ServerProbe| fixed_term(p));
    proof {
        lemma_sum_int_take_ends(pt);
        lemma_sum_take_ends(it);
        lemma_sum_take_ends(nt);
        lemma_sum_take_ends(tt);
        lemma_sum_take_ends(ft);
    }
    let mut patchsets: i64 = 0;
    let mut issues: u64 = 0;
    let mut not_issue: u64 = 0;
    let mut to_fix: u64 = 0;
    let mut fixed: u64 = 0;
    for i in 0..n
        invariant
            n == ps.len(),
            ps == results@,
            n <= u32::MAX,
            pt == patchset_terms(ps),
            it == ps.map_values(|p: ServerProbe| issues_term(p)),
            nt == ps.map_values(|p: ServerProbe| not_issue_term(p)),
            tt == ps.map_values(|p: ServerProbe| to_fix_term(p)),
            ft == ps.map_values(|p: ServerProbe| fixed_term(p)),
            patchsets == sum_int(pt.take(i as int)),
            forall|k: int| 0 <= k <= i ==> i64::MIN <= #[trigger] sum_int(pt.take(k)) <= i64::MAX,
            issues == sum_nat(it.take(i as int)),
            not_issue == sum_nat(nt.take(i as int)),
            to_fix == sum_nat(tt.take(i as int)),
            fixed == sum_nat(ft.take(i as int)),
            issues <= u32::MAX,
            not_issue <= u32::MAX,
            to_fix <= u32::MAX,
            fixed <= u32::MAX,
            forall|k: int, d: Seq<char>| 0 <= k < i ==> #[trigger] day_total(points_of(ps[k]), d) <= u32::MAX,
    {
        proof {
            lemma_sum_int_take_step(pt, i as int);
            lemma_sum_take_step(it, i as int);
            lemma_sum_take_step(nt, i as int);
            lemma_sum_take_step(tt, i as int);
            lemma_sum_take_step(ft, i as int);
            lemma_sum_take_le(it, i + 1);
            lemma_sum_take_le(nt, i + 1);
            lemma_sum_take_le(tt, i + 1);
            lemma_sum_take_le(ft, i + 1);
        }
        let p = &results[i];
        let term: i64 = match &p.stats {
            Some(s) => match s.patchsets {
                Some(c) => c,
                None => 0,
            },
            None => 0,
        };
        let next: i128 = patchsets as i128 + term as i128;
        if next < -0x8000_0000_0000_0000i128 || next > 0x7FFF_FFFF_FFFF_FFFFi128 {
            return false;
        }
        patchsets = next as i64;
        match &p.findings {
            Some(f) => {
                issues = issues + f.total as u64;
                not_issue = not_issue + f.not_issue as u64;
                to_fix = to_fix + f.to_fix as u64;
                fixed = fixed + f.fixed as u64;
            },
            None => {},
        }
        if issues > 0xFFFF_FFFF || not_issue > 0xFFFF_FFFF || to_fix > 0xFFFF_FFFF || fixed
            > 0xFFFF_FFFF {
            return false;
        }
        match &p.timeline {
            Some(t) => {
                if !day_totals_fit(&t.messages) {
                    proof {
                        let d = choose|d: Seq<char>| !(day_total(t.messages@, d) <= u32::MAX);
                        assert(points_of(ps[i as int]) == t.messages@);
                        assert(day_total(points_of(ps[i as int]), d) > u32::MAX);
                    }
                    return false;
                }
            },
            None => {
                proof {
                    assert forall|d: Seq<char>| #[trigger] day_total(points_of(ps[i as int]), d) <= u32::MAX by {
                        assert(points_of(ps[i as int]) =~= Seq::<TimelinePoint>::empty());
                    }
                }
            },
        }
    }
    proof {
        lemma_sum_int_take_ends(pt);
        lemma_sum_take_ends(it);
        lemma_sum_take_ends(nt);
        lemma_sum_take_ends(tt);
        lemma_sum_take_ends(ft);
    }
    not_issue + to_fix + fixed <= 0xFFFF_FFFF
}

/// Aggregates what was learnt from each server, in the configured order.
///
/// Online/offline servers are counted; patchset counts and finding counts are summed
/// over the servers whose answers arrived; the average accuracy is the share of judged
/// findings that are real issues; every server gets a pie sector (its total findings),
/// a card, and a trend series with its message counts on each day of the shared,
/// ascending day axis (0 on days it did not report).
pub fn process_results(results: &Vec<ServerProbe>) -> (r: DashboardTotals)
    requires
        totals_fit(results@),
    ensures
        r.online_servers == online_count(results@),
        r.offline_servers == results@.len() - online_count(results@),
        r.total_patchsets == patchsets_total(results@),
        r.total_issues == issues_total(results@),
        r.accuracy_numerator == accurate_total(results@),
        r.accuracy_denominator == judged_total(results@),
        r.pie_chart_data@.len() == results@.len(),
        forall|i: int|
            0 <= i < results@.len() ==> (#[trigger] r.pie_chart_data@[i]).name@
                == results@[i].server.name@ && r.pie_chart_data@[i].value == issues_term(
                results@[i],
            ),
        r.servers@.len() == results@.len(),
        forall|i: int| 0 <= i < results@.len() ==> card_for(#[trigger] r.servers@[i], results@[i]),
        days_sorted(string_views(r.trend_days@)),
        forall|x: Seq<char>|
            #[trigger] string_views(r.trend_days@).contains(x) <==> day_seen(results@, x),
        r.trend_series@.len() == results@.len(),
        forall|i: int|
            0 <= i < results@.len() ==> {
                &&& (#[trigger] r.trend_series@[i]).name@ == results@[i].server.name@
                &&& r.trend_series@[i].counts@.len() == r.trend_days@.len()
                &&& forall|j: int|
                    0 <= j < r.trend_days@.len() ==> #[trigger] r.trend_series@[i].counts@[j]
                        == day_total(points_of(results@[i]), r.trend_days@[j]@)
            },
{
    let ghost ps = results@;
    let ghost t_online = ps.map_values(|p: ServerProbe| online_term(p));
    let ghost t_patch = patchset_terms(ps);
    let ghost t_issues = ps.map_values(|p: ServerProbe| issues_term(p));
    let ghost t_not = ps.map_values(|p: ServerProbe| not_issue_term(p));
    let ghost t_fix = ps.map_values(|p: ServerProbe| to_fix_term(p));
    let ghost t_fixed = ps.map_values(|p: ServerProbe| fixed_term(p));
    let mut online_servers: u32 = 0;
    let mut offline_servers: u32 = 0;
    let mut total_patchsets: i64 = 0;
    let mut total_issues: u32 = 0;
    let mut not_issue_total: u32 = 0;
    let mut to_fix_total: u32 = 0;
    let mut fixed_total: u32 = 0;
    let mut pie_chart_data: Vec<PieSector> = Vec::new();
    let mut servers: Vec<ServerCard> = Vec::new();
    let n = results.len();
    proof {
        lemma_sum_take_ends(t_online);
        lemma_sum_int_take_ends(t_patch);
        lemma_sum_take_ends(t_issues);
        lemma_sum_take_ends(t_not);
        lemma_sum_take_ends(t_fix);
        lemma_sum_take_ends(t_fixed);
    }
    for i in 0..n
        invariant
            n == ps.len(),
            ps == results@,
            totals_fit(ps),
            t_online == ps.map_values(|p: ServerProbe| online_term(p)),
            t_patch == patchset_terms(ps),
            t_issues == ps.map_values(|p: ServerProbe| issues_term(p)),
            t_not == ps.map_values(|p: ServerProbe| not_issue_term(p)),
            t_fix == ps.map_values(|p: ServerProbe| to_fix_term(p)),
            t_fixed == ps.map_values(|p: ServerProbe| fixed_term(p)),
            online_servers == sum_nat(t_online.take(i as int)),
            offline_servers == i - sum_nat(t_online.take(i as int)),
            total_patchsets == sum_int(t_patch.take(i as int)),
            total_issues == sum_nat(t_issues.take(i as int)),
            not_issue_total == sum_nat(t_not.take(i as int)),
            to_fix_total == sum_nat(t_fix.take(i as int)),
            fixed_total == sum_nat(t_fixed.take(i as int)),
            pie_chart_data@.len() == i,
            servers@.len() == i,
            forall|k: int|
                0 <= k < i ==> (#[trigger] pie_chart_data@[k]).name@ == ps[k].server.name@
                    && pie_chart_data@[k].value == issues_term(ps[k]),
            forall|k: int| 0 <= k < i ==> card_for(#[trigger] servers@[k], ps[k]),
    {
        proof {
            lemma_sum_take_step(t_online, i as int);
            lemma_online_le(ps, i as int);
            lemma_online_le(ps, i + 1);
            lemma_sum_int_take_step(t_patch, i as int);
            assert(i64::MIN <= sum_int(patchset_terms(ps).take(i + 1)) <= i64::MAX);
            lemma_sum_take_step(t_issues, i as int);
            lemma_sum_take_le(t_issues, i + 1);
            lemma_sum_take_step(t_not, i as int);
            lemma_sum_take_le(t_not, i + 1);
            lemma_sum_take_step(t_fix, i as int);
            lemma_sum_take_le(t_fix, i + 1);
            lemma_sum_take_step(t_fixed, i as int);
            lemma_sum_take_le(t_fixed, i + 1);
        }
        let probe = &results[i];
        if probe.online {
            online_servers = online_servers + 1;
        } else {
            offline_servers = offline_servers + 1;
        }
        match &probe.stats {
            Some(s) => {
                match s.patchsets {
                    Some(p) => {
                        total_patchsets = total_patchsets + p;
                    },
                    None => {},
                }
            },
            None => {},
        }
        let mut server_issues: u32 = 0;
        match &probe.findings {
            Some(f) => {
                server_issues = f.total;
                total_issues = total_issues + f.total;
                not_issue_total = not_issue_total + f.not_issue;
                to_fix_total = to_fix_total + f.to_fix;
                fixed_total = fixed_total + f.fixed;
            },
            None => {},
        }
        pie_chart_data.push(PieSector { name: probe.server.name.clone(), value: server_issues });
        let id = match probe.server.id {
            Some(id) => id,
            None => 0,
        };
        servers.push(
            ServerCard {
                id,
                name: probe.server.name.clone(),
                ip: probe.server.ip.clone(),
                web_port: probe.server.web_port,
                description: probe.server.description.clone(),
                online: probe.online,
            },
        );
    }
    proof {
        lemma_sum_take_ends(t_online);
        lemma_sum_int_take_ends(t_patch);
        lemma_sum_take_ends(t_issues);
        lemma_sum_take_ends(t_not);
        lemma_sum_take_ends(t_fix);
        lemma_sum_take_ends(t_fixed);
    }
    let accuracy_numerator = to_fix_total + fixed_total;
    let accuracy_denominator = not_issue_total + accuracy_numerator;
    let trend_days = collect_days(results);
    let mut trend_series: Vec<ServerTrendSeries> = Vec::new();
    let nd = trend_days.len();
    for i in 0..n
        invariant
            n == ps.len(),
            ps == results@,
            totals_fit(ps),
            nd == trend_days@.len(),
            trend_series@.len() == i,
            forall|k: int|
                0 <= k < i ==> {
                    &&& (#[trigger] trend_series@[k]).name@ == ps[k].server.name@
                    &&& trend_series@[k].counts@.len() == nd
                    &&& forall|j: int|
                        0 <= j < nd ==> #[trigger] trend_series@[k].counts@[j] == day_total(
                            points_of(ps[k]),
                            trend_days@[j]@,
                        )
                },
    {
        let probe = &results[i];
        assert(*probe == ps[i as int]);
        let mut counts: Vec<u32> = Vec::new();
        for j in 0..nd
            invariant
                n == ps.len(),
                ps == results@,
                i < n,
                *probe == ps[i as int],
                totals_fit(ps),
                nd == trend_days@.len(),
                counts@.len() == j,
                forall|q: int|
                    0 <= q < j ==> #[trigger] counts@[q] == day_total(
                        points_of(ps[i as int]),
                        trend_days@[q]@,
                    ),
        {
            assert(*probe == ps[i as int]);
            let c = match &probe.timeline {
                Some(t) => {
                    assert(points_of(ps[i as int]) == t.messages@);
                    assert(day_total(points_of(ps[i as int]), trend_days@[j as int]@) <= u32::MAX);
                    day_total_exec(&t.messages, &trend_days[j])
                },
                None => {
                    assert(points_of(ps[i as int]) =~= Seq::<TimelinePoint>::empty());
                    assert(day_total(points_of(ps[i as int]), trend_days@[j as int]@) == 0);
                    0
                },
            };
            counts.push(c);
        }
        trend_series.push(ServerTrendSeries { name: probe.server.name.clone(), counts });
    }
    DashboardTotals {
        total_patchsets,
        total_issues,
        accuracy_numerator,
        accuracy_denominator,
        online_servers,
        offline_servers,
        pie_chart_data,
        trend_days,
        trend_series,
        servers,
    }
}

} // verus!
