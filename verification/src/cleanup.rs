//! The decisions of the patchset cleanup tool: whether a requested patchset may be
//! deleted, and the statements that delete it with everything that depends on it.

use vstd::prelude::*;
use crate::text::views_of;

verus! {

/// What the cleanup tool does with one requested patchset.
#[derive(Clone, Copy, Debug, PartialEq, Eq)]
pub enum PatchsetAction {
    /// No patchset has that id: a warning is printed.
    NotFound,
    /// The patchset is in review or reviewed: it is kept, with a warning.
    Protected,
    /// The patchset and everything that depends on it are deleted.
    Delete,
}

/// Statuses under which a patchset must not be deleted.
pub open spec fn is_protected_status(status: Seq<char>) -> bool {
    status == "In Review"@ || status == "Reviewed"@
}

/// The action for a patchset with the given status (`None` if it does not exist).
pub open spec fn action_for(status: Option<Seq<char>>) -> PatchsetAction {
    match status {
        None => PatchsetAction::NotFound,
        Some(s) => if is_protected_status(s) {
            PatchsetAction::Protected
        } else {
            PatchsetAction::Delete
        },
    }
}

/// Decides what to do with a patchset whose status was looked up.
pub fn patchset_action(status: Option<&str>) -> (a: PatchsetAction)
    ensures
        a == action_for(
            match status {
                Some(s) => Some(s@),
                None => None,
            },
        ),
{
    match status {
        None => PatchsetAction::NotFound,
        Some(s) => {
            let st = String::from_str(s);
            if st == String::from_str("In Review") || st == String::from_str("Reviewed") {
                PatchsetAction::Protected
            } else {
                PatchsetAction::Delete
            }
        },
    }
}

/// A patchset in review or already reviewed is never deleted.
pub proof fn lemma_reviewed_patchsets_kept(status: Seq<char>)
    requires
        is_protected_status(status),
    ensures
        action_for(Some(status)) != PatchsetAction::Delete,
{
}

// ---------------------------------------------------------------------------
// The delete cascade
// ---------------------------------------------------------------------------

/// One statement of the cascade: delete from `table` the rows whose `column` equals the
/// patchset id (`via` is `None`), or lies among the `via.0` values of the rows of table
/// `via.1` that belong to the patchset.
pub struct CascadeStep {
    pub table: Seq<char>,
    pub column: Seq<char>,
    pub via: Option<(Seq<char>, Seq<char>)>,
}

/// A step that deletes the rows keyed by the patchset id itself.
pub open spec fn direct_step(table: Seq<char>, column: Seq<char>) -> CascadeStep {
    CascadeStep { table, column, via: None }
}

/// A step that deletes the rows reached through the patchset's rows of `source`.
pub open spec fn via_step(table: Seq<char>, column: Seq<char>, pick: Seq<char>, source: Seq<char>) -> CascadeStep {
    CascadeStep { table, column, via: Some((pick, source)) }
}

/// The cascade, dependents first: outbox mails, tool usages, findings and AI
/// interactions of the patchset's patches and reviews, then the reviews, the patches'
/// subsystems, the patches, the patchset's subsystems, and the patchset itself.
pub open spec fn cascade() -> Seq<CascadeStep> {
    seq![
        via_step("email_outbox"@, "patch_id"@, "id"@, "patches"@),
        via_step("tool_usages"@, "review_id"@, "id"@, "reviews"@),
        via_step("findings"@, "review_id"@, "id"@, "reviews"@),
        via_step("ai_interactions"@, "id"@, "interaction_id"@, "reviews"@),
        direct_step("reviews"@, "patchset_id"@),
        via_step("patches_subsystems"@, "patch_id"@, "id"@, "patches"@),
        direct_step("patches"@, "patchset_id"@),
        direct_step("patchsets_subsystems"@, "patchset_id"@),
        direct_step("patchsets"@, "id"@),
    ]
}

/// The SQL text of a step; its one parameter is the patchset id.
pub open spec fn step_sql(s: CascadeStep) -> Seq<char> {
    match s.via {
        None => "DELETE FROM "@ + s.table + " WHERE "@ + s.column + " = ?"@,
        Some((pick, source)) => "DELETE FROM "@ + s.table + " WHERE "@ + s.column + " IN (SELECT "@
            + pick + " FROM "@ + source + " WHERE patchset_id = ?)"@,
    }
}

fn direct_sql(table: &str, column: &str) -> (r: String)
    ensures
        r@ == step_sql(direct_step(table@, column@)),
{
    let mut q = String::from_str("DELETE FROM ");
    q.append(table);
    q.append(" WHERE ");
    q.append(column);
    q.append(" = ?");
    q
}

fn via_sql(table: &str, column: &str, pick: &str, source: &str) -> (r: String)
    ensures
        r@ == step_sql(via_step(table@, column@, pick@, source@)),
{
    let mut q = String::from_str("DELETE FROM ");
    q.append(table);
    q.append(" WHERE ");
    q.append(column);
    q.append(" IN (SELECT ");
    q.append(pick);
    q.append(" FROM ");
    q.append(source);
    q.append(" WHERE patchset_id = ?)");
    q
}

/// The statements that delete a patchset and everything depending on it, in the order
/// they run (inside one transaction, each bound to the patchset id).
pub fn cascade_delete_statements() -> (v: Vec<String>)
    ensures
        views_of(v@) == cascade().map_values(|s: CascadeStep| step_sql(s)),
{
    let mut v: Vec<String> = Vec::new();
    v.push(via_sql("email_outbox", "patch_id", "id", "patches"));
    v.push(via_sql("tool_usages", "review_id", "id", "reviews"));
    v.push(via_sql("findings", "review_id", "id", "reviews"));
    v.push(via_sql("ai_interactions", "id", "interaction_id", "reviews"));
    v.push(direct_sql("reviews", "patchset_id"));
    v.push(via_sql("patches_subsystems", "patch_id", "id", "patches"));
    v.push(direct_sql("patches", "patchset_id"));
    v.push(direct_sql("patchsets_subsystems", "patchset_id"));
    v.push(direct_sql("patchsets", "id"));
    assert(views_of(v@) =~= cascade().map_values(|s: CascadeStep| step_sql(s)));
    v
}

/// Every statement that finds its rows through another table runs before that table is
/// emptied, and the patchset itself is deleted last: no step loses the rows it selects
/// by, and nothing is left pointing at a deleted patchset.
pub proof fn lemma_cascade_reads_before_delete(i: int, k: int)
    requires
        0 <= k <= i < cascade().len(),
    ensures
        cascade()[i].via matches Some((pick, source)) ==> cascade()[k].table != source,
        cascade()[i].table == "patchsets"@ ==> i == cascade().len() - 1,
{
    let c = cascade();
    reveal_strlit("email_outbox");
    reveal_strlit("tool_usages");
    reveal_strlit("findings");
    reveal_strlit("ai_interactions");
    reveal_strlit("reviews");
    reveal_strlit("patches_subsystems");
    reveal_strlit("patches");
    reveal_strlit("patchsets_subsystems");
    reveal_strlit("patchsets");
    assert(c[0].table.len() == 12 && c[1].table.len() == 11 && c[2].table.len() == 8);
    assert(c[3].table.len() == 15 && c[4].table.len() == 7 && c[5].table.len() == 18);
    assert(c[6].table.len() == 7 && c[7].table.len() == 20 && c[8].table.len() == 9);
    assert(c[4].table[0] == 'r' && "patches"@[0] == 'p');
    assert(c[0].via == Some(("id"@, "patches"@)));
    assert(c[5].via == Some(("id"@, "patches"@)));
    assert(c[1].via == Some(("id"@, "reviews"@)) && c[2].via == Some(("id"@, "reviews"@)));
    assert(c[3].via == Some(("interaction_id"@, "reviews"@)));
    assert(c[4].via is None && c[6].via is None && c[7].via is None && c[8].via is None);
}

} // verus!
