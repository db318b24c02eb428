//! The status classifier: the closed enumeration of raw status strings
//! the backend can report, the pure parse into it, and its two derived
//! properties: the presentation category and terminal-success detection.

use vstd::prelude::*;
use crate::errors::TailError;
use crate::text::str_eq;

verus! {

/// All raw stack or resource status strings the backend can report.
/// Every observed raw string must map to exactly one variant; an
/// unmapped string is an `UnmappedStatus` error, never silently ignored.
#[derive(Debug, Clone, Copy, PartialEq, Eq, Structural)]
pub enum StackStatus {
    CreateInProgress,
    CreateComplete,
    CreateFailed,
    DeleteComplete,
    DeleteFailed,
    DeleteInProgress,
    DeleteSkipped,
    ReviewInProgress,
    RollbackComplete,
    RollbackFailed,
    RollbackInProgress,
    UpdateComplete,
    UpdateCompleteCleanupInProgress,
    UpdateFailed,
    UpdateInProgress,
    UpdateRollbackComplete,
    UpdateRollbackCompleteCleanupInProgress,
    UpdateRollbackFailed,
    UpdateRollbackInProgress,
    ImportInProgress,
    ImportComplete,
    ImportRollbackInProgress,
    ImportRollbackFailed,
    ImportRollbackComplete,
}

/// The presentation category of a status: still moving, terminally
/// succeeded, or terminally failed.
#[derive(Debug, Clone, Copy, PartialEq, Eq, Structural)]
pub enum StatusCategory {
    InProgress,
    Complete,
    Failed,
}

/// The status that a raw string maps to, if any.
pub open spec fn status_of(s: Seq<char>) -> Option<StackStatus> {
    if s == "CREATE_IN_PROGRESS"@ {
        Some(StackStatus::CreateInProgress)
    } else if s == "CREATE_COMPLETE"@ {
        Some(StackStatus::CreateComplete)
    } else if s == "CREATE_FAILED"@ {
        Some(StackStatus::CreateFailed)
    } else if s == "DELETE_COMPLETE"@ {
        Some(StackStatus::DeleteComplete)
    } else if s == "DELETE_FAILED"@ {
        Some(StackStatus::DeleteFailed)
    } else if s == "DELETE_IN_PROGRESS"@ {
        Some(StackStatus::DeleteInProgress)
    } else if s == "DELETE_SKIPPED"@ {
        Some(StackStatus::DeleteSkipped)
    } else if s == "REVIEW_IN_PROGRESS"@ {
        Some(StackStatus::ReviewInProgress)
    } else if s == "ROLLBACK_COMPLETE"@ {
        Some(StackStatus::RollbackComplete)
    } else if s == "ROLLBACK_FAILED"@ {
        Some(StackStatus::RollbackFailed)
    } else if s == "ROLLBACK_IN_PROGRESS"@ {
        Some(StackStatus::RollbackInProgress)
    } else if s == "UPDATE_COMPLETE"@ {
        Some(StackStatus::UpdateComplete)
    } else if s == "UPDATE_COMPLETE_CLEANUP_IN_PROGRESS"@ {
        Some(StackStatus::UpdateCompleteCleanupInProgress)
    } else if s == "UPDATE_FAILED"@ {
        Some(StackStatus::UpdateFailed)
    } else if s == "UPDATE_IN_PROGRESS"@ {
        Some(StackStatus::UpdateInProgress)
    } else if s == "UPDATE_ROLLBACK_COMPLETE"@ {
        Some(StackStatus::UpdateRollbackComplete)
    } else if s == "UPDATE_ROLLBACK_COMPLETE_CLEANUP_IN_PROGRESS"@ {
        Some(StackStatus::UpdateRollbackCompleteCleanupInProgress)
    } else if s == "UPDATE_ROLLBACK_FAILED"@ {
        Some(StackStatus::UpdateRollbackFailed)
    } else if s == "UPDATE_ROLLBACK_IN_PROGRESS"@ {
        Some(StackStatus::UpdateRollbackInProgress)
    } else if s == "IMPORT_IN_PROGRESS"@ {
        Some(StackStatus::ImportInProgress)
    } else if s == "IMPORT_COMPLETE"@ {
        Some(StackStatus::ImportComplete)
    } else if s == "IMPORT_ROLLBACK_IN_PROGRESS"@ {
        Some(StackStatus::ImportRollbackInProgress)
    } else if s == "IMPORT_ROLLBACK_FAILED"@ {
        Some(StackStatus::ImportRollbackFailed)
    } else if s == "IMPORT_ROLLBACK_COMPLETE"@ {
        Some(StackStatus::ImportRollbackComplete)
    } else {
        None
    }
}

impl StackStatus {
    /// Parses a raw status string; an unmapped string is returned as an
    /// `UnmappedStatus` error carrying the string.
    pub fn parse(s: &str) -> (r: Result<StackStatus, TailError>)
        ensures
            status_of(s@) is Some ==> r == Ok::<StackStatus, TailError>(status_of(s@).unwrap()),
            status_of(s@) is None ==> (r matches Err(TailError::UnmappedStatus(raw)) && raw@
                == s@),
    {
        if str_eq(s, "CREATE_IN_PROGRESS") {
            Ok(StackStatus::CreateInProgress)
        } else if str_eq(s, "CREATE_COMPLETE") {
            Ok(StackStatus::CreateComplete)
        } else if str_eq(s, "CREATE_FAILED") {
            Ok(StackStatus::CreateFailed)
        } else if str_eq(s, "DELETE_COMPLETE") {
            Ok(StackStatus::DeleteComplete)
        } else if str_eq(s, "DELETE_FAILED") {
            Ok(StackStatus::DeleteFailed)
        } else if str_eq(s, "DELETE_IN_PROGRESS") {
            Ok(StackStatus::DeleteInProgress)
        } else if str_eq(s, "DELETE_SKIPPED") {
            Ok(StackStatus::DeleteSkipped)
        } else if str_eq(s, "REVIEW_IN_PROGRESS") {
            Ok(StackStatus::ReviewInProgress)
        } else if str_eq(s, "ROLLBACK_COMPLETE") {
            Ok(StackStatus::RollbackComplete)
        } else if str_eq(s, "ROLLBACK_FAILED") {
            Ok(StackStatus::RollbackFailed)
        } else if str_eq(s, "ROLLBACK_IN_PROGRESS") {
            Ok(StackStatus::RollbackInProgress)
        } else if str_eq(s, "UPDATE_COMPLETE") {
            Ok(StackStatus::UpdateComplete)
        } else if str_eq(s, "UPDATE_COMPLETE_CLEANUP_IN_PROGRESS") {
            Ok(StackStatus::UpdateCompleteCleanupInProgress)
        } else if str_eq(s, "UPDATE_FAILED") {
            Ok(StackStatus::UpdateFailed)
        } else if str_eq(s, "UPDATE_IN_PROGRESS") {
            Ok(StackStatus::UpdateInProgress)
        } else if str_eq(s, "UPDATE_ROLLBACK_COMPLETE") {
            Ok(StackStatus::UpdateRollbackComplete)
        } else if str_eq(s, "UPDATE_ROLLBACK_COMPLETE_CLEANUP_IN_PROGRESS") {
            Ok(StackStatus::UpdateRollbackCompleteCleanupInProgress)
        } else if str_eq(s, "UPDATE_ROLLBACK_FAILED") {
            Ok(StackStatus::UpdateRollbackFailed)
        } else if str_eq(s, "UPDATE_ROLLBACK_IN_PROGRESS") {
            Ok(StackStatus::UpdateRollbackInProgress)
        } else if str_eq(s, "IMPORT_IN_PROGRESS") {
            Ok(StackStatus::ImportInProgress)
        } else if str_eq(s, "IMPORT_COMPLETE") {
            Ok(StackStatus::ImportComplete)
        } else if str_eq(s, "IMPORT_ROLLBACK_IN_PROGRESS") {
            Ok(StackStatus::ImportRollbackInProgress)
        } else if str_eq(s, "IMPORT_ROLLBACK_FAILED") {
            Ok(StackStatus::ImportRollbackFailed)
        } else if str_eq(s, "IMPORT_ROLLBACK_COMPLETE") {
            Ok(StackStatus::ImportRollbackComplete)
        } else {
            Err(TailError::UnmappedStatus(s.to_owned()))
        }
    }

    /// The category a status presents as.
    pub open spec fn spec_category(&self) -> StatusCategory {
        match self {
            StackStatus::CreateInProgress => StatusCategory::InProgress,
            StackStatus::DeleteInProgress => StatusCategory::InProgress,
            StackStatus::DeleteSkipped => StatusCategory::InProgress,
            StackStatus::ReviewInProgress => StatusCategory::InProgress,
            StackStatus::RollbackInProgress => StatusCategory::InProgress,
            StackStatus::UpdateCompleteCleanupInProgress => StatusCategory::InProgress,
            StackStatus::UpdateInProgress => StatusCategory::InProgress,
            StackStatus::UpdateRollbackCompleteCleanupInProgress => StatusCategory::InProgress,
            StackStatus::UpdateRollbackInProgress => StatusCategory::InProgress,
            StackStatus::ImportInProgress => StatusCategory::InProgress,
            StackStatus::ImportRollbackInProgress => StatusCategory::InProgress,
            StackStatus::CreateComplete => StatusCategory::Complete,
            StackStatus::DeleteComplete => StatusCategory::Complete,
            StackStatus::RollbackComplete => StatusCategory::Complete,
            StackStatus::UpdateComplete => StatusCategory::Complete,
            StackStatus::UpdateRollbackComplete => StatusCategory::Complete,
            StackStatus::ImportComplete => StatusCategory::Complete,
            StackStatus::ImportRollbackComplete => StatusCategory::Complete,
            StackStatus::CreateFailed => StatusCategory::Failed,
            StackStatus::DeleteFailed => StatusCategory::Failed,
            StackStatus::RollbackFailed => StatusCategory::Failed,
            StackStatus::UpdateFailed => StatusCategory::Failed,
            StackStatus::UpdateRollbackFailed => StatusCategory::Failed,
            StackStatus::ImportRollbackFailed => StatusCategory::Failed,
        }
    }

    /// The presentation category: in-progress statuses, the terminal
    /// success statuses, and the terminal failure statuses.
    pub fn category(&self) -> (c: StatusCategory)
        ensures
            c == self.spec_category(),
            (c is Complete) == self.spec_is_complete(),
    {
        match self {
            StackStatus::CreateInProgress => StatusCategory::InProgress,
            StackStatus::DeleteInProgress => StatusCategory::InProgress,
            StackStatus::DeleteSkipped => StatusCategory::InProgress,
            StackStatus::ReviewInProgress => StatusCategory::InProgress,
            StackStatus::RollbackInProgress => StatusCategory::InProgress,
            StackStatus::UpdateCompleteCleanupInProgress => StatusCategory::InProgress,
            StackStatus::UpdateInProgress => StatusCategory::InProgress,
            StackStatus::UpdateRollbackCompleteCleanupInProgress => StatusCategory::InProgress,
            StackStatus::UpdateRollbackInProgress => StatusCategory::InProgress,
            StackStatus::ImportInProgress => StatusCategory::InProgress,
            StackStatus::ImportRollbackInProgress => StatusCategory::InProgress,
            StackStatus::CreateComplete => StatusCategory::Complete,
            StackStatus::DeleteComplete => StatusCategory::Complete,
            StackStatus::RollbackComplete => StatusCategory::Complete,
            StackStatus::UpdateComplete => StatusCategory::Complete,
            StackStatus::UpdateRollbackComplete => StatusCategory::Complete,
            StackStatus::ImportComplete => StatusCategory::Complete,
            StackStatus::ImportRollbackComplete => StatusCategory::Complete,
            StackStatus::CreateFailed => StatusCategory::Failed,
            StackStatus::DeleteFailed => StatusCategory::Failed,
            StackStatus::RollbackFailed => StatusCategory::Failed,
            StackStatus::UpdateFailed => StatusCategory::Failed,
            StackStatus::UpdateRollbackFailed => StatusCategory::Failed,
            StackStatus::ImportRollbackFailed => StatusCategory::Failed,
        }
    }

    /// Terminal success: exactly the seven `*_COMPLETE` variants, never
    /// an in-progress, failed or skipped one.
    pub open spec fn spec_is_complete(&self) -> bool {
        match self {
            StackStatus::CreateComplete => true,
            StackStatus::DeleteComplete => true,
            StackStatus::RollbackComplete => true,
            StackStatus::UpdateComplete => true,
            StackStatus::UpdateRollbackComplete => true,
            StackStatus::ImportComplete => true,
            StackStatus::ImportRollbackComplete => true,
            _ => false,
        }
    }

    /// True exactly for the seven terminal success variants.
    pub fn is_complete(&self) -> (r: bool)
        ensures
            r == self.spec_is_complete(),
    {
        match self {
            StackStatus::CreateComplete => true,
            StackStatus::DeleteComplete => true,
            StackStatus::RollbackComplete => true,
            StackStatus::UpdateComplete => true,
            StackStatus::UpdateRollbackComplete => true,
            StackStatus::ImportComplete => true,
            StackStatus::ImportRollbackComplete => true,
            _ => false,
        }
    }
}

} // verus!
