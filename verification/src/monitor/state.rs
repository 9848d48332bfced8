//! Persistent per-branch sync state.

use vstd::prelude::*;
use crate::openai::types::opt_view;
use crate::text::views_of;

verus! {

/// The sync state of a single branch.
#[derive(Clone, Debug)]
pub struct BranchState {
    pub branch_name: String,
    pub last_synced_commit: Option<String>,
    pub retry_count: u32,
}

/// Model of a branch's sync state.
pub struct BranchModel {
    pub branch_name: Seq<char>,
    pub last_synced_commit: Option<Seq<char>>,
    pub retry_count: u32,
}

impl View for BranchState {
    type V = BranchModel;

    open spec fn view(&self) -> BranchModel {
        BranchModel {
            branch_name: self.branch_name@,
            last_synced_commit: opt_view(self.last_synced_commit),
            retry_count: self.retry_count,
        }
    }
}

/// The state of a branch seen for the first time: nothing synced, no retries.
pub open spec fn fresh_branch(name: Seq<char>) -> BranchModel {
    BranchModel { branch_name: name, last_synced_commit: None, retry_count: 0 }
}

/// The persistent state of the monitor: one entry per branch, in first-seen order.
#[derive(Clone, Debug)]
pub struct MonitorState(pub Vec<BranchState>);

impl View for MonitorState {
    type V = Seq<BranchModel>;

    open spec fn view(&self) -> Seq<BranchModel> {
        self.0@.map_values(|b: BranchState| b@)
    }
}

/// The first entry at or after `i` for branch `name`.
pub open spec fn find_branch(s: Seq<BranchModel>, name: Seq<char>, i: int) -> Option<int>
    decreases s.len() - i,
    when 0 <= i <= s.len()
{
    if i >= s.len() {
        None
    } else if s[i].branch_name == name {
        Some(i)
    } else {
        find_branch(s, name, i + 1)
    }
}

proof fn lemma_find_branch_bounds(s: Seq<BranchModel>, name: Seq<char>, i: int)
    requires
        0 <= i <= s.len(),
    ensures
        find_branch(s, name, i) matches Some(k) ==> i <= k < s.len() && s[k].branch_name == name,
    decreases s.len() - i,
{
    if i < s.len() && s[i].branch_name != name {
        lemma_find_branch_bounds(s, name, i + 1);
    }
}

/// The recorded state of branch `name`, if any.
pub open spec fn lookup(s: Seq<BranchModel>, name: Seq<char>) -> Option<BranchModel> {
    match find_branch(s, name, 0) {
        Some(k) => Some(s[k]),
        None => None,
    }
}

/// The state after the entry of `name` is replaced by `b`, or `b` is added at the end
/// when `name` has no entry (what writing through `get_mut_branch_state` does).
pub open spec fn after_write(s: Seq<BranchModel>, name: Seq<char>, b: BranchModel) -> Seq<
    BranchModel,
> {
    match find_branch(s, name, 0) {
        Some(k) => s.update(k, b),
        None => s.push(b),
    }
}

/// Replacing entry `k` by one of the same name changes no search result.
proof fn lemma_find_branch_update(s: Seq<BranchModel>, k: int, b: BranchModel, m: Seq<char>, i: int)
    requires
        0 <= k < s.len(),
        0 <= i <= s.len(),
        b.branch_name == s[k].branch_name,
    ensures
        find_branch(s.update(k, b), m, i) == find_branch(s, m, i),
    decreases s.len() - i,
{
    if i < s.len() {
        assert(s.update(k, b)[i].branch_name == s[i].branch_name);
        lemma_find_branch_update(s, k, b, m, i + 1);
    }
}

/// Appending an entry changes the search for a name only when nothing was found.
proof fn lemma_find_branch_push(s: Seq<BranchModel>, b: BranchModel, m: Seq<char>, i: int)
    requires
        0 <= i <= s.len(),
    ensures
        find_branch(s, m, i) matches Some(k) ==> find_branch(s.push(b), m, i) == Some(k),
        find_branch(s, m, i) is None ==> find_branch(s.push(b), m, i) == (if b.branch_name == m {
            Some(s.len() as int)
        } else {
            None::<int>
        }),
    decreases s.len() - i,
{
    let t = s.push(b);
    if i < s.len() {
        assert(t[i] == s[i]);
        lemma_find_branch_push(s, b, m, i + 1);
    } else {
        assert(t[s.len() as int] == b);
        assert(find_branch(t, m, s.len() as int + 1) is None);
    }
}

/// Reading a branch right after writing its state gives what was written, and every
/// other branch reads as before.
pub proof fn lemma_read_after_write(s: Seq<BranchModel>, name: Seq<char>, b: BranchModel, other: Seq<char>)
    requires
        b.branch_name == name,
    ensures
        lookup(after_write(s, name, b), name) == Some(b),
        other != name ==> lookup(after_write(s, name, b), other) == lookup(s, other),
{
    lemma_find_branch_bounds(s, name, 0);
    match find_branch(s, name, 0) {
        Some(k) => {
            lemma_find_branch_update(s, k, b, name, 0);
            lemma_find_branch_update(s, k, b, other, 0);
            lemma_find_branch_bounds(s, other, 0);
        },
        None => {
            lemma_find_branch_push(s, b, name, 0);
            lemma_find_branch_push(s, b, other, 0);
            lemma_find_branch_bounds(s, other, 0);
            assert(s.push(b)[s.len() as int] == b);
            if let Some(j) = find_branch(s, other, 0) {
                assert(s.push(b)[j] == s[j]);
            }
        },
    }
}

impl Default for MonitorState {
    fn default() -> (s: Self)
        ensures
            s@ == Seq::<BranchModel>::empty(),
    {
        MonitorState::new()
    }
}

impl MonitorState {
    /// Creates a new, empty monitor state.
    pub fn new() -> (s: Self)
        ensures
            s@ == Seq::<BranchModel>::empty(),
    {
        let s = MonitorState(Vec::new());
        assert(s@ =~= Seq::<BranchModel>::empty());
        s
    }

    /// Position of the state of `branch_name`, if recorded.
    fn position(&self, branch_name: &str) -> (r: Option<usize>)
        ensures
            match r {
                Some(i) => i < self.0@.len() && find_branch(self@, branch_name@, 0) == Some(
                    i as int,
                ),
                None => find_branch(self@, branch_name@, 0) is None,
            },
    {
        proof {
            lemma_find_branch_bounds(self@, branch_name@, 0);
        }
        let target = String::from_str(branch_name);
        let n = self.0.len();
        let mut i: usize = 0;
        while i < n
            invariant
                n == self@.len(),
                target@ == branch_name@,
                i <= n,
                find_branch(self@, branch_name@, 0) == find_branch(self@, branch_name@, i as int),
            decreases n - i,
        {
            if self.0[i].branch_name == target {
                assert(self@[i as int].branch_name == branch_name@);
                return Some(i);
            }
            i = i + 1;
        }
        None
    }

    /// Gets the state for a specific branch.
    pub fn get_branch_state(&self, branch_name: &str) -> (r: Option<&BranchState>)
        ensures
            match find_branch(self@, branch_name@, 0) {
                Some(k) => r matches Some(b) && b@ == self@[k],
                None => r is None,
            },
    {
        match self.position(branch_name) {
            Some(i) => Some(&self.0[i]),
            None => None,
        }
    }

    /// Gets the state of a branch for update, adding a fresh entry at the end if the
    /// branch has none.
    pub fn get_mut_branch_state(&mut self, branch_name: &str) -> (r: &mut BranchState)
        ensures
            match find_branch(old(self)@, branch_name@, 0) {
                Some(k) => (*r)@ == old(self)@[k] && final(self)@ == old(self)@.update(
                    k,
                    (*final(r))@,
                ),
                None => (*r)@ == fresh_branch(branch_name@) && final(self)@ == old(self)@.push(
                    (*final(r))@,
                ),
            },
            (*r)@ == match lookup(old(self)@, branch_name@) {
                Some(b) => b,
                None => fresh_branch(branch_name@),
            },
            final(self)@ == after_write(old(self)@, branch_name@, (*final(r))@),
    {
        match self.position(branch_name) {
            Some(i) => {
                let r = &mut self.0[i];
                r
            },
            None => {
                self.0.push(
                    BranchState {
                        branch_name: String::from_str(branch_name),
                        last_synced_commit: None,
                        retry_count: 0,
                    },
                );
                let last = self.0.len() - 1;
                &mut self.0[last]
            },
        }
    }
}


// ---------------------------------------------------------------------------
// Per-branch decisions of a polling round
// ---------------------------------------------------------------------------

/// What a polling round does with a branch, given its upstream commit.
#[derive(Clone, Copy, Debug, PartialEq, Eq)]
pub enum BranchPlan {
    /// The upstream commit is already synced and no retries are recorded.
    Unchanged,
    /// The upstream commit is already synced; the recorded retries are cleared.
    ResetRetries,
    /// A new upstream commit, but the branch has used up its retries; it is skipped.
    RetriesExhausted,
    /// A new upstream commit: the commits since the last synced one are synced.
    SyncNewCommits,
}

/// Whether carrying out the plan changes the branch's state, so that the state file is
/// written afterwards: clearing retries and recording a sync round do, leaving the branch
/// alone or skipping it does not.
pub open spec fn plan_changes_state(p: BranchPlan) -> bool {
    p == BranchPlan::ResetRetries || p == BranchPlan::SyncNewCommits
}

impl BranchPlan {
    /// Whether carrying out this plan changes the state (see [`plan_changes_state`]).
    pub fn changes_state(&self) -> (b: bool)
        ensures
            b == plan_changes_state(*self),
    {
        match self {
            BranchPlan::ResetRetries => true,
            BranchPlan::SyncNewCommits => true,
            BranchPlan::Unchanged => false,
            BranchPlan::RetriesExhausted => false,
        }
    }
}

/// The plan for a branch whose upstream is at `upstream`.
pub open spec fn plan_of(b: BranchModel, upstream: Seq<char>, max_retries: u32) -> BranchPlan {
    if b.last_synced_commit == Some(upstream) {
        if b.retry_count > 0 {
            BranchPlan::ResetRetries
        } else {
            BranchPlan::Unchanged
        }
    } else if b.retry_count >= max_retries {
        BranchPlan::RetriesExhausted
    } else {
        BranchPlan::SyncNewCommits
    }
}

/// The state after a commit was synced.
pub open spec fn after_commit_synced(b: BranchModel, commit: Seq<char>) -> BranchModel {
    BranchModel { last_synced_commit: Some(commit), ..b }
}

/// The state after a sync attempt failed.
pub open spec fn after_sync_failure(b: BranchModel) -> BranchModel {
    BranchModel { retry_count: (b.retry_count + 1) as u32, ..b }
}

/// The state after every new commit up to `upstream` was synced.
pub open spec fn after_branch_synced(b: BranchModel, upstream: Seq<char>) -> BranchModel {
    BranchModel { last_synced_commit: Some(upstream), retry_count: 0, ..b }
}

/// The state with its retries cleared.
pub open spec fn after_reset(b: BranchModel) -> BranchModel {
    BranchModel { retry_count: 0, ..b }
}

/// Decides what to do with a branch whose upstream is at `upstream_hash`.
pub fn plan_branch_sync(branch: &BranchState, upstream_hash: &str, max_retries: u32) -> (p:
    BranchPlan)
    ensures
        p == plan_of(branch@, upstream_hash@, max_retries),
{
    let up = String::from_str(upstream_hash);
    let same = match &branch.last_synced_commit {
        Some(c) => *c == up,
        None => false,
    };
    if same {
        if branch.retry_count > 0 {
            BranchPlan::ResetRetries
        } else {
            BranchPlan::Unchanged
        }
    } else if branch.retry_count >= max_retries {
        BranchPlan::RetriesExhausted
    } else {
        BranchPlan::SyncNewCommits
    }
}

impl BranchState {
    /// Records that `commit` was synced.
    pub fn record_commit_synced(&mut self, commit: &str)
        ensures
            final(self)@ == after_commit_synced(old(self)@, commit@),
    {
        self.last_synced_commit = Some(String::from_str(commit));
    }

    /// Records a failed sync attempt.
    pub fn record_sync_failure(&mut self)
        requires
            old(self).retry_count < u32::MAX,
        ensures
            final(self)@ == after_sync_failure(old(self)@),
    {
        self.retry_count = self.retry_count + 1;
    }

    /// Records that the branch is synced up to `upstream_hash`, clearing its retries.
    pub fn record_branch_synced(&mut self, upstream_hash: &str)
        ensures
            final(self)@ == after_branch_synced(old(self)@, upstream_hash@),
    {
        self.last_synced_commit = Some(String::from_str(upstream_hash));
        self.retry_count = 0;
    }

    /// Clears the recorded retries.
    pub fn reset_retries(&mut self)
        ensures
            final(self)@ == after_reset(old(self)@),
    {
        self.retry_count = 0;
    }
}

/// The state after a round that synced new commits in order: the first `synced` of them
/// succeeded, and then either one failed (`failed`) or all were synced. A failure keeps
/// the last commit that did sync and counts one more retry; a complete round records the
/// upstream commit and clears the retries.
pub open spec fn after_round(
    b: BranchModel,
    commits: Seq<Seq<char>>,
    synced: int,
    failed: bool,
    upstream: Seq<char>,
) -> BranchModel {
    if failed {
        after_sync_failure(
            if synced > 0 {
                after_commit_synced(b, commits[synced - 1])
            } else {
                b
            },
        )
    } else {
        after_branch_synced(b, upstream)
    }
}

impl BranchState {
    /// Records the outcome of a round over the new commits `commits`, synced in order:
    /// `synced` of them succeeded, then one failed if `failed`, else all succeeded.
    pub fn record_round(&mut self, commits: &Vec<String>, synced: usize, failed: bool, upstream_hash: &str)
        requires
            synced <= commits@.len(),
            failed ==> synced < commits@.len() && old(self).retry_count < u32::MAX,
            !failed ==> synced == commits@.len(),
        ensures
            final(self)@ == after_round(
                old(self)@,
                crate::text::views_of(commits@),
                synced as int,
                failed,
                upstream_hash@,
            ),
    {
        let ghost b0 = self@;
        for i in 0..synced
            invariant
                synced <= commits@.len(),
                self.retry_count == b0.retry_count,
                self.branch_name@ == b0.branch_name,
                i == 0 ==> self@ == b0,
                i > 0 ==> self@ == after_commit_synced(b0, commits@[i - 1]@),
        {
            self.record_commit_synced(commits[i].as_str());
        }
        if failed {
            self.record_sync_failure();
        } else {
            self.record_branch_synced(upstream_hash);
        }
    }
}

/// A round of syncing a branch's new commits, in order, stopping at the first failure.
pub struct SyncRound {
    commits: Vec<String>,
    synced: usize,
    failed: bool,
}

impl SyncRound {
    /// The commits of the round.
    pub closed spec fn commits(&self) -> Seq<Seq<char>> {
        views_of(self.commits@)
    }

    /// How many commits were synced so far.
    pub closed spec fn synced(&self) -> nat {
        self.synced as nat
    }

    /// Whether a sync failed (which ends the round).
    pub closed spec fn failed(&self) -> bool {
        self.failed
    }

    /// Invariant: the synced commits are a prefix, and a failed one follows them.
    pub closed spec fn wf(&self) -> bool {
        &&& self.synced <= self.commits@.len()
        &&& self.failed ==> self.synced < self.commits@.len()
    }

    /// A round over `commits` with nothing synced yet.
    pub fn new(commits: Vec<String>) -> (r: Self)
        ensures
            r.wf(),
            r.commits() == views_of(commits@),
            r.synced() == 0,
            !r.failed(),
    {
        SyncRound { commits, synced: 0, failed: false }
    }

    /// The commit to sync next: none once a sync failed or every commit is synced.
    pub fn next_commit(&self) -> (r: Option<&str>)
        requires
            self.wf(),
        ensures
            if !self.failed() && self.synced() < self.commits().len() {
                r matches Some(c) && c@ == self.commits()[self.synced() as int]
            } else {
                r is None
            },
    {
        if !self.failed && self.synced < self.commits.len() {
            Some(self.commits[self.synced].as_str())
        } else {
            None
        }
    }

    /// Records whether the sync of the commit [`SyncRound::next_commit`] gave succeeded.
    pub fn record(&mut self, ok: bool)
        requires
            old(self).wf(),
            !old(self).failed(),
            old(self).synced() < old(self).commits().len(),
        ensures
            final(self).wf(),
            final(self).commits() == old(self).commits(),
            final(self).synced() == if ok {
                old(self).synced() + 1
            } else {
                old(self).synced()
            },
            final(self).failed() == !ok,
    {
        let n = self.commits.len();
        assert(self.commits().len() == n);
        if ok {
            self.synced = self.synced + 1;
        } else {
            self.failed = true;
        }
    }

    /// Whether a sync failed.
    pub fn has_failed(&self) -> (b: bool)
        ensures
            b == self.failed(),
    {
        self.failed
    }

    /// Records the finished round in the branch's state (see [`after_round`]).
    pub fn finish(self, branch: &mut BranchState, upstream_hash: &str)
        requires
            self.wf(),
            self.failed() || self.synced() == self.commits().len(),
            self.failed() ==> old(branch).retry_count < u32::MAX,
        ensures
            final(branch)@ == after_round(
                old(branch)@,
                self.commits(),
                self.synced() as int,
                self.failed(),
                upstream_hash@,
            ),
    {
        branch.record_round(&self.commits, self.synced, self.failed, upstream_hash);
    }
}

/// A failed round never loses progress: the last synced commit is the last commit of
/// the round that succeeded, or what it was before when none did.
pub proof fn lemma_failed_round_keeps_progress(
    b: BranchModel,
    commits: Seq<Seq<char>>,
    synced: int,
    upstream: Seq<char>,
)
    requires
        0 <= synced < commits.len(),
        b.retry_count < u32::MAX,
    ensures
        after_round(b, commits, synced, true, upstream).last_synced_commit == (if synced > 0 {
            Some(commits[synced - 1])
        } else {
            b.last_synced_commit
        }),
        after_round(b, commits, synced, true, upstream).retry_count == b.retry_count + 1,
{
}

/// Once a branch is synced up to its upstream commit, the next round leaves it alone
/// for as long as the upstream stays there: nothing is synced twice.
pub proof fn lemma_synced_branch_unchanged(b: BranchModel, upstream: Seq<char>, max_retries: u32)
    ensures
        plan_of(after_branch_synced(b, upstream), upstream, max_retries) == BranchPlan::Unchanged,
{
}

/// A branch whose recorded retries do not exceed the limit keeps them within it through
/// any failed sync: a failure is only recorded when a sync was planned, which needs
/// retries below the limit.
pub proof fn lemma_retries_bounded(b: BranchModel, upstream: Seq<char>, max_retries: u32)
    requires
        b.retry_count <= max_retries,
        plan_of(b, upstream, max_retries) == BranchPlan::SyncNewCommits,
    ensures
        b.retry_count < u32::MAX,
        after_sync_failure(b).retry_count <= max_retries,
{
}

/// A branch is synced again after failures exactly while its retries are below the
/// limit; once they reach it, a new upstream commit is skipped.
pub proof fn lemma_retry_until_limit(b: BranchModel, upstream: Seq<char>, max_retries: u32)
    requires
        b.last_synced_commit != Some(upstream),
    ensures
        plan_of(b, upstream, max_retries) == (if b.retry_count < max_retries {
            BranchPlan::SyncNewCommits
        } else {
            BranchPlan::RetriesExhausted
        }),
{
}
} // verus!
