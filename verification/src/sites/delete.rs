//! Confirmed metadata deletion followed by owned content removal.
use crate::error::{publishing_failure, AppError};
use vstd::prelude::*;

verus! {

/// The acknowledged result of deleting the current row at a confirmed slug.
#[derive(Clone, Copy, Debug, PartialEq, Eq, Structural)]
pub enum DeleteOutcome {
    /// No row was removed; any filesystem-only orphan was left untouched.
    NotFound,
    /// Metadata is gone and its content directory was removed or absent.
    Deleted,
    /// Metadata is gone but unsafe or failed content cleanup retained data.
    DeletedContentRetained,
}

/// What is to be done next for one deletion.
#[derive(Clone, Copy, Debug, PartialEq, Eq, Structural)]
pub enum DeleteStep {
    /// Wait until no other mutation runs.
    Lock,
    /// Look for the row of the slug.
    FindRow,
    /// Delete the row, and see whether exactly one row went.
    DeleteRow,
    /// Check that the storage directories are directories.
    CheckStorage,
    /// See whether the site directory is there and is a directory.
    StatDirectory,
    /// Remove the site directory with what it holds.
    RemoveDirectory,
    /// Nothing more is to be done.
    Finished,
}

/// How a step came out.
#[derive(Clone, Copy, Debug, PartialEq, Eq, Structural)]
pub enum DeleteEvent {
    /// It was done, or what was looked for is there.
    Done,
    /// There is no such row or directory.
    Absent,
    /// It failed.
    Failed,
}

/// One deletion on its way.
pub struct Deleting {
    /// What is to be done next.
    pub step: DeleteStep,
    /// How the deletion came out, once that is decided.
    pub outcome: Option<Result<DeleteOutcome, AppError>>,
}

/// The deletion has ended.
pub open spec fn deleted(outcome: Result<DeleteOutcome, AppError>) -> Deleting {
    Deleting { step: DeleteStep::Finished, outcome: Some(outcome) }
}

/// The deletion goes on.
pub open spec fn deleting(step: DeleteStep) -> Deleting {
    Deleting { step, outcome: None }
}

/// What follows from how a step came out.
pub open spec fn deleting_next(p: Deleting, event: DeleteEvent) -> Deleting {
    match (p.step, event) {
        (DeleteStep::Lock, _) => deleting(DeleteStep::FindRow),
        (DeleteStep::FindRow, DeleteEvent::Done) => deleting(DeleteStep::DeleteRow),
        (DeleteStep::FindRow, DeleteEvent::Absent) => deleted(Ok(DeleteOutcome::NotFound)),
        (DeleteStep::FindRow, DeleteEvent::Failed) => deleted(Err(publishing_failure())),
        (DeleteStep::DeleteRow, DeleteEvent::Done) => deleting(DeleteStep::CheckStorage),
        (DeleteStep::DeleteRow, DeleteEvent::Absent) => deleted(Ok(DeleteOutcome::NotFound)),
        (DeleteStep::DeleteRow, DeleteEvent::Failed) => deleted(Err(publishing_failure())),
        (DeleteStep::CheckStorage, DeleteEvent::Done) => deleting(DeleteStep::StatDirectory),
        (DeleteStep::StatDirectory, DeleteEvent::Done) => deleting(DeleteStep::RemoveDirectory),
        (DeleteStep::StatDirectory, DeleteEvent::Absent) => deleted(Ok(DeleteOutcome::Deleted)),
        (DeleteStep::RemoveDirectory, DeleteEvent::Done) => deleted(Ok(DeleteOutcome::Deleted)),
        (DeleteStep::Finished, _) => p,
        _ => deleted(Ok(DeleteOutcome::DeletedContentRetained)),
    }
}

impl Deleting {
    /// Starts a deletion.
    pub fn new() -> (r: Self)
        ensures
            r == deleting(DeleteStep::Lock),
    {
        Deleting { step: DeleteStep::Lock, outcome: None }
    }

    fn go(step: DeleteStep) -> (r: Self)
        ensures
            r == deleting(step),
    {
        Deleting { step, outcome: None }
    }

    fn end(outcome: Result<DeleteOutcome, AppError>) -> (r: Self)
        ensures
            r == deleted(outcome),
    {
        Deleting { step: DeleteStep::Finished, outcome: Some(outcome) }
    }

    /// Decides on the next step by how the last one came out.
    pub fn next(self, event: DeleteEvent) -> (r: Self)
        ensures
            r == deleting_next(self, event),
    {
        match (self.step, event) {
            (DeleteStep::Lock, _) => Self::go(DeleteStep::FindRow),
            (DeleteStep::FindRow, DeleteEvent::Done) => Self::go(DeleteStep::DeleteRow),
            (DeleteStep::FindRow, DeleteEvent::Absent) => Self::end(Ok(DeleteOutcome::NotFound)),
            (DeleteStep::FindRow, DeleteEvent::Failed) => Self::end(Err(AppError::publishing())),
            (DeleteStep::DeleteRow, DeleteEvent::Done) => Self::go(DeleteStep::CheckStorage),
            (DeleteStep::DeleteRow, DeleteEvent::Absent) => Self::end(Ok(DeleteOutcome::NotFound)),
            (DeleteStep::DeleteRow, DeleteEvent::Failed) => Self::end(Err(AppError::publishing())),
            (DeleteStep::CheckStorage, DeleteEvent::Done) => Self::go(DeleteStep::StatDirectory),
            (DeleteStep::StatDirectory, DeleteEvent::Done) => Self::go(
                DeleteStep::RemoveDirectory,
            ),
            (DeleteStep::StatDirectory, DeleteEvent::Absent) => Self::end(
                Ok(DeleteOutcome::Deleted),
            ),
            (DeleteStep::RemoveDirectory, DeleteEvent::Done) => Self::end(
                Ok(DeleteOutcome::Deleted),
            ),
            (DeleteStep::Finished, _) => self,
            _ => Self::end(Ok(DeleteOutcome::DeletedContentRetained)),
        }
    }
}

/// Whether the row is gone and whether the content may have been touched.
pub open spec fn deletion_run(events: Seq<DeleteEvent>) -> (Deleting, bool, bool)
    decreases events.len(),
{
    if events.len() == 0 {
        (deleting(DeleteStep::Lock), false, false)
    } else {
        let (p, gone, touched) = deletion_run(events.drop_last());
        let event = events.last();
        (
            deleting_next(p, event),
            gone || (p.step == DeleteStep::DeleteRow && event == DeleteEvent::Done),
            touched || p.step == DeleteStep::RemoveDirectory,
        )
    }
}

/// Content is touched only after the row is acknowledged deleted: neither an
/// absent row nor a failed or uncertain deletion removes any bytes, and a
/// deletion is claimed only where the row is gone.
pub proof fn content_is_removed_after_its_row(events: Seq<DeleteEvent>)
    ensures
        ({
            let (p, gone, touched) = deletion_run(events);
            &&& touched ==> gone
            &&& p.outcome matches Some(Err(_)) ==> !touched && !gone
            &&& p.outcome == Some(Ok::<DeleteOutcome, AppError>(DeleteOutcome::NotFound))
                ==> !touched && !gone
            &&& p.outcome == Some(Ok::<DeleteOutcome, AppError>(DeleteOutcome::Deleted)) ==> gone
            &&& p.outcome == Some(
                Ok::<DeleteOutcome, AppError>(DeleteOutcome::DeletedContentRetained),
            ) ==> gone
            &&& p.step == DeleteStep::Finished <==> p.outcome is Some
            &&& gone <==> (p.step == DeleteStep::CheckStorage || p.step
                == DeleteStep::StatDirectory || p.step == DeleteStep::RemoveDirectory || p.outcome
                == Some(Ok::<DeleteOutcome, AppError>(DeleteOutcome::Deleted)) || p.outcome == Some(
                Ok::<DeleteOutcome, AppError>(DeleteOutcome::DeletedContentRetained),
            ))
        }),
    decreases events.len(),
{
    if events.len() > 0 {
        content_is_removed_after_its_row(events.drop_last());
    }
}

}
