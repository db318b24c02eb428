use cftail::stack_status::{StackStatus, StatusCategory};
use cftail::errors::TailError;

fn parsed(s: &str) -> StackStatus {
    StackStatus::parse(s).expect("status string should map to a variant")
}

#[test]
fn parses_every_known_status_string() {
    assert_eq!(parsed("CREATE_IN_PROGRESS"), StackStatus::CreateInProgress);
    assert_eq!(parsed("CREATE_COMPLETE"), StackStatus::CreateComplete);
    assert_eq!(parsed("CREATE_FAILED"), StackStatus::CreateFailed);
    assert_eq!(parsed("DELETE_COMPLETE"), StackStatus::DeleteComplete);
    assert_eq!(parsed("DELETE_FAILED"), StackStatus::DeleteFailed);
    assert_eq!(parsed("DELETE_IN_PROGRESS"), StackStatus::DeleteInProgress);
    assert_eq!(parsed("DELETE_SKIPPED"), StackStatus::DeleteSkipped);
    assert_eq!(parsed("REVIEW_IN_PROGRESS"), StackStatus::ReviewInProgress);
    assert_eq!(parsed("ROLLBACK_COMPLETE"), StackStatus::RollbackComplete);
    assert_eq!(parsed("ROLLBACK_FAILED"), StackStatus::RollbackFailed);
    assert_eq!(parsed("ROLLBACK_IN_PROGRESS"), StackStatus::RollbackInProgress);
    assert_eq!(parsed("UPDATE_COMPLETE"), StackStatus::UpdateComplete);
    assert_eq!(
        parsed("UPDATE_COMPLETE_CLEANUP_IN_PROGRESS"),
        StackStatus::UpdateCompleteCleanupInProgress
    );
    assert_eq!(parsed("UPDATE_FAILED"), StackStatus::UpdateFailed);
    assert_eq!(parsed("UPDATE_IN_PROGRESS"), StackStatus::UpdateInProgress);
    assert_eq!(parsed("UPDATE_ROLLBACK_COMPLETE"), StackStatus::UpdateRollbackComplete);
    assert_eq!(
        parsed("UPDATE_ROLLBACK_COMPLETE_CLEANUP_IN_PROGRESS"),
        StackStatus::UpdateRollbackCompleteCleanupInProgress
    );
    assert_eq!(parsed("UPDATE_ROLLBACK_FAILED"), StackStatus::UpdateRollbackFailed);
    assert_eq!(parsed("UPDATE_ROLLBACK_IN_PROGRESS"), StackStatus::UpdateRollbackInProgress);
    assert_eq!(parsed("IMPORT_IN_PROGRESS"), StackStatus::ImportInProgress);
    assert_eq!(parsed("IMPORT_COMPLETE"), StackStatus::ImportComplete);
    assert_eq!(parsed("IMPORT_ROLLBACK_IN_PROGRESS"), StackStatus::ImportRollbackInProgress);
    assert_eq!(parsed("IMPORT_ROLLBACK_FAILED"), StackStatus::ImportRollbackFailed);
    assert_eq!(parsed("IMPORT_ROLLBACK_COMPLETE"), StackStatus::ImportRollbackComplete);
}

#[test]
fn unmapped_status_string_is_an_error() {
    let r = StackStatus::parse("SOMETHING_ELSE");
    match r {
        Err(TailError::UnmappedStatus(raw)) => assert_eq!(raw, "SOMETHING_ELSE"),
        other => panic!("expected an unmapped-status error, got {:?}", other),
    }
    assert!(StackStatus::parse("").is_err());
    assert!(StackStatus::parse("create_complete").is_err());
}

#[test]
fn is_complete_holds_for_exactly_the_seven_terminal_success_variants() {
    let complete = [
        "CREATE_COMPLETE",
        "DELETE_COMPLETE",
        "ROLLBACK_COMPLETE",
        "UPDATE_COMPLETE",
        "UPDATE_ROLLBACK_COMPLETE",
        "IMPORT_COMPLETE",
        "IMPORT_ROLLBACK_COMPLETE",
    ];
    let not_complete = [
        "CREATE_IN_PROGRESS",
        "CREATE_FAILED",
        "DELETE_FAILED",
        "DELETE_IN_PROGRESS",
        "DELETE_SKIPPED",
        "REVIEW_IN_PROGRESS",
        "ROLLBACK_FAILED",
        "ROLLBACK_IN_PROGRESS",
        "UPDATE_COMPLETE_CLEANUP_IN_PROGRESS",
        "UPDATE_FAILED",
        "UPDATE_IN_PROGRESS",
        "UPDATE_ROLLBACK_COMPLETE_CLEANUP_IN_PROGRESS",
        "UPDATE_ROLLBACK_FAILED",
        "UPDATE_ROLLBACK_IN_PROGRESS",
        "IMPORT_IN_PROGRESS",
        "IMPORT_ROLLBACK_IN_PROGRESS",
        "IMPORT_ROLLBACK_FAILED",
    ];
    assert_eq!(complete.len() + not_complete.len(), 24);
    for s in complete {
        assert!(parsed(s).is_complete(), "{} should be complete", s);
    }
    for s in not_complete {
        assert!(!parsed(s).is_complete(), "{} should not be complete", s);
    }
}

#[test]
fn category_follows_the_status_family() {
    assert_eq!(parsed("CREATE_IN_PROGRESS").category(), StatusCategory::InProgress);
    assert_eq!(parsed("DELETE_SKIPPED").category(), StatusCategory::InProgress);
    assert_eq!(parsed("REVIEW_IN_PROGRESS").category(), StatusCategory::InProgress);
    assert_eq!(
        parsed("UPDATE_COMPLETE_CLEANUP_IN_PROGRESS").category(),
        StatusCategory::InProgress
    );
    assert_eq!(parsed("CREATE_COMPLETE").category(), StatusCategory::Complete);
    assert_eq!(parsed("IMPORT_ROLLBACK_COMPLETE").category(), StatusCategory::Complete);
    assert_eq!(parsed("CREATE_FAILED").category(), StatusCategory::Failed);
    assert_eq!(parsed("UPDATE_ROLLBACK_FAILED").category(), StatusCategory::Failed);
    assert_eq!(parsed("IMPORT_ROLLBACK_FAILED").category(), StatusCategory::Failed);
}

#[test]
fn category_complete_coincides_with_is_complete() {
    let all = [
        "CREATE_IN_PROGRESS",
        "CREATE_COMPLETE",
        "CREATE_FAILED",
        "DELETE_COMPLETE",
        "DELETE_FAILED",
        "DELETE_IN_PROGRESS",
        "DELETE_SKIPPED",
        "REVIEW_IN_PROGRESS",
        "ROLLBACK_COMPLETE",
        "ROLLBACK_FAILED",
        "ROLLBACK_IN_PROGRESS",
        "UPDATE_COMPLETE",
        "UPDATE_COMPLETE_CLEANUP_IN_PROGRESS",
        "UPDATE_FAILED",
        "UPDATE_IN_PROGRESS",
        "UPDATE_ROLLBACK_COMPLETE",
        "UPDATE_ROLLBACK_COMPLETE_CLEANUP_IN_PROGRESS",
        "UPDATE_ROLLBACK_FAILED",
        "UPDATE_ROLLBACK_IN_PROGRESS",
        "IMPORT_IN_PROGRESS",
        "IMPORT_COMPLETE",
        "IMPORT_ROLLBACK_IN_PROGRESS",
        "IMPORT_ROLLBACK_FAILED",
        "IMPORT_ROLLBACK_COMPLETE",
    ];
    for s in all {
        let st = parsed(s);
        assert_eq!(st.category() == StatusCategory::Complete, st.is_complete(), "{}", s);
    }
}
