use sashiko::cleanup::{cascade_delete_statements, patchset_action, PatchsetAction};

#[test]
fn reviewed_and_in_review_patchsets_are_protected() {
    assert_eq!(patchset_action(Some("In Review")), PatchsetAction::Protected);
    assert_eq!(patchset_action(Some("Reviewed")), PatchsetAction::Protected);
}

#[test]
fn other_statuses_are_deleted() {
    assert_eq!(patchset_action(Some("Failed")), PatchsetAction::Delete);
    assert_eq!(patchset_action(Some("Pending")), PatchsetAction::Delete);
    assert_eq!(patchset_action(Some("in review")), PatchsetAction::Delete);
}

#[test]
fn missing_patchset_is_reported() {
    assert_eq!(patchset_action(None), PatchsetAction::NotFound);
}

#[test]
fn cascade_deletes_dependents_before_the_patchset() {
    let statements = cascade_delete_statements();
    assert_eq!(
        statements,
        vec![
            "DELETE FROM email_outbox WHERE patch_id IN (SELECT id FROM patches WHERE patchset_id = ?)",
            "DELETE FROM tool_usages WHERE review_id IN (SELECT id FROM reviews WHERE patchset_id = ?)",
            "DELETE FROM findings WHERE review_id IN (SELECT id FROM reviews WHERE patchset_id = ?)",
            "DELETE FROM ai_interactions WHERE id IN (SELECT interaction_id FROM reviews WHERE patchset_id = ?)",
            "DELETE FROM reviews WHERE patchset_id = ?",
            "DELETE FROM patches_subsystems WHERE patch_id IN (SELECT id FROM patches WHERE patchset_id = ?)",
            "DELETE FROM patches WHERE patchset_id = ?",
            "DELETE FROM patchsets_subsystems WHERE patchset_id = ?",
            "DELETE FROM patchsets WHERE id = ?",
        ]
    );
}
