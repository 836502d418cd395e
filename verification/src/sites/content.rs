//! Exclusively owned staging and content paths with narrow explicit cleanup.
use crate::error::{publishing_failure, AppError};
use vstd::prelude::*;

verus! {

/// How often a staging name is tried.
pub const MAX_STAGING_ATTEMPTS: usize = 8;

/// What a path is, without following its last component.
#[derive(Clone, Copy, Debug, PartialEq, Eq, Structural)]
pub enum PathKind {
    Directory,
    File,
    Symlink,
    Other,
}

/// Whether a path is what storage needs it to be.
pub open spec fn directory_checked(kind: PathKind) -> Result<(), AppError> {
    match kind {
        PathKind::Directory => Ok(()),
        _ => Err(publishing_failure()),
    }
}

/// Requires a directory; symbolic links and all other types are unsafe.
pub fn check_directory(kind: PathKind) -> (r: Result<(), AppError>)
    ensures
        r == directory_checked(kind),
{
    match kind {
        PathKind::Directory => Ok(()),
        _ => Err(AppError::publishing()),
    }
}

/// Tracks only paths exclusively created by one publication job.
#[derive(Clone, Copy, Debug, PartialEq, Eq, Structural)]
pub struct Content {
    /// The staging directory is there.
    pub staged: bool,
    /// A destination was created by this job.
    pub reserved: bool,
    /// What is installed must stay, whatever comes after.
    pub preserved: bool,
}

/// What cleanup removes: an unused reservation, and leftover staging.
pub open spec fn removals(content: Content) -> (bool, bool) {
    (content.reserved && !content.preserved && content.staged, content.staged)
}

impl Content {
    /// Nothing is owned yet.
    pub fn nothing() -> (r: Self)
        ensures
            r == (Content { staged: false, reserved: false, preserved: false }),
    {
        Content { staged: false, reserved: false, preserved: false }
    }

    /// A fresh staging directory is owned.
    pub fn stage(self) -> (r: Self)
        ensures
            r == (Content { staged: true, ..self }),
    {
        Content { staged: true, ..self }
    }

    /// A new, empty destination is owned.
    pub fn reserve_destination(self) -> (r: Self)
        ensures
            r == (Content { reserved: true, ..self }),
    {
        Content { reserved: true, ..self }
    }

    /// The staging directory became the destination.
    pub fn install(self) -> (r: Self)
        ensures
            r == (Content { staged: false, ..self }),
    {
        Content { staged: false, ..self }
    }

    /// Preserves installed bytes before attempting a possibly uncertain commit.
    pub fn preserve_installed(self) -> (r: Self)
        ensures
            r == (Content { preserved: true, ..self }),
    {
        Content { preserved: true, ..self }
    }

    /// Whether cleanup removes the reservation, and whether it removes staging.
    pub fn cleanup(&self) -> (r: (bool, bool))
        ensures
            r == removals(*self),
    {
        (self.reserved && !self.preserved && self.staged, self.staged)
    }
}

/// Cleanup never removes installed content: neither once it is to be
/// preserved, nor once staging became the destination.
pub proof fn installed_content_is_never_removed(content: Content)
    ensures
        content.preserved || !content.staged ==> !removals(content).0,
{
}

}
