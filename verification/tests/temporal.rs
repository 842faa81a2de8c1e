use rust_confessional::temporal::{
    release_reason, session_workflow_id, start_outcome, workflow_id,
};

#[test]
fn workflow_ids_are_stable_and_stage_readable() {
    assert_eq!(workflow_id("01ABC"), "rust-confession-01ABC");
}

#[test]
fn session_workflow_ids_are_stable_and_stage_readable() {
    assert_eq!(
        session_workflow_id("01SESS"),
        "rust-confession-session-01SESS"
    );
}

#[test]
fn different_confessions_have_different_workflows() {
    assert_ne!(workflow_id("a"), workflow_id("b"));
    assert_ne!(session_workflow_id("a"), session_workflow_id("b"));
}

#[test]
fn a_start_that_failed_counts_if_the_workflow_exists() {
    let id = || "wf".to_owned();
    assert_eq!(start_outcome::<&str>(id(), Ok(()), false), Ok(id()));
    assert_eq!(start_outcome(id(), Err("duplicate"), true), Ok(id()));
    assert_eq!(start_outcome(id(), Err("offline"), false), Err("offline"));
    assert_eq!(release_reason(), "stage operator released replies");
}
