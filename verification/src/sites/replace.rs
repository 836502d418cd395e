//! In-place content replacement that keeps the row's identity and access.
use crate::error::{publishing_failure, AppError};
use crate::sites::content::{removals, Content, MAX_STAGING_ATTEMPTS};
use crate::sites::new_site::NewSite;
use crate::sites::SiteView;
use vstd::prelude::*;

verus! {

/// What is to be done next for one replacement.
#[derive(Clone, Copy, Debug, PartialEq, Eq, Structural)]
pub enum ReplaceStep {
    /// Check that the storage directories are directories.
    CheckStorage,
    /// Create a staging directory under a generated name.
    MakeStaging,
    /// Check storage and the staging directory.
    CheckStaging,
    /// Create one new file in staging, with its parents, and write its bytes.
    WriteFile(usize),
    /// Wait until no other mutation runs.
    Lock,
    /// Look for the row of the slug.
    FindRow,
    /// Read the clock.
    ReadClock,
    /// Check storage, the staging directory, and the site directory.
    CheckSwap,
    /// Rename the site directory to its parking place.
    Park,
    /// Rename staging to the site directory.
    MoveIn,
    /// Rename the parked directory back after the new one could not move in.
    Unpark,
    /// Record the new content in the row.
    Record,
    /// Remove the parked directory.
    RemoveParked,
    /// Rename the site directory back to staging; whether the row was gone.
    TakeOut(bool),
    /// Rename the parked directory back to the site directory.
    PutBack(bool),
    /// Check storage before anything is removed.
    CheckCleanup,
    /// Remove the staging directory with what it holds.
    RemoveStaging,
    /// Nothing more is to be done.
    Finished,
}

/// How a step came out.
#[derive(Clone, Copy, Debug, PartialEq, Eq, Structural)]
pub enum ReplaceEvent {
    /// It was done.
    Done,
    /// There is no such row, or the name is taken.
    Absent,
    /// It failed.
    Failed,
}

/// One replacement on its way.
pub struct Replacing {
    /// What is to be done next.
    pub step: ReplaceStep,
    /// How many files are written.
    pub files: usize,
    /// Staging names that were taken.
    pub staging_attempts: usize,
    /// The paths that this replacement owns.
    pub content: Content,
    /// Whether the content was replaced, once that is decided.
    pub outcome: Option<Result<bool, AppError>>,
}

/// The replacement is decided and cleanup follows.
pub open spec fn decided(p: Replacing, outcome: Result<bool, AppError>) -> Replacing {
    Replacing { step: ReplaceStep::CheckCleanup, outcome: Some(outcome), ..p }
}

/// The replacement is recorded, and nothing is left to be cleaned up: staging
/// has become the site directory.
pub open spec fn replaced(p: Replacing) -> Replacing {
    Replacing { step: ReplaceStep::Finished, outcome: Some(Ok(true)), ..p }
}

/// The replacement ends here with a failure.
pub open spec fn stopped(p: Replacing) -> Replacing {
    Replacing { step: ReplaceStep::Finished, outcome: Some(Err(publishing_failure())), ..p }
}

/// What follows from how a step came out.
pub open spec fn replacing_next(p: Replacing, event: ReplaceEvent) -> Replacing {
    match (p.step, event) {
        (ReplaceStep::CheckStorage, ReplaceEvent::Done) => Replacing {
            step: ReplaceStep::MakeStaging,
            ..p
        },
        (ReplaceStep::CheckStorage, _) => stopped(p),
        (ReplaceStep::MakeStaging, ReplaceEvent::Done) => Replacing {
            step: ReplaceStep::CheckStaging,
            content: Content { staged: true, ..p.content },
            ..p
        },
        (ReplaceStep::MakeStaging, ReplaceEvent::Absent) => if p.staging_attempts + 1
            >= MAX_STAGING_ATTEMPTS {
            stopped(p)
        } else {
            Replacing { staging_attempts: (p.staging_attempts + 1) as usize, ..p }
        },
        (ReplaceStep::MakeStaging, ReplaceEvent::Failed) => stopped(p),
        (ReplaceStep::CheckStaging, ReplaceEvent::Done) => Replacing {
            step: if p.files == 0 {
                ReplaceStep::Lock
            } else {
                ReplaceStep::WriteFile(0)
            },
            ..p
        },
        (ReplaceStep::WriteFile(i), ReplaceEvent::Done) => Replacing {
            step: if i + 1 < p.files {
                ReplaceStep::WriteFile((i + 1) as usize)
            } else {
                ReplaceStep::Lock
            },
            ..p
        },
        (ReplaceStep::Lock, _) => Replacing { step: ReplaceStep::FindRow, ..p },
        (ReplaceStep::FindRow, ReplaceEvent::Done) => Replacing {
            step: ReplaceStep::ReadClock,
            ..p
        },
        (ReplaceStep::FindRow, ReplaceEvent::Absent) => decided(p, Ok(false)),
        (ReplaceStep::ReadClock, ReplaceEvent::Done) => Replacing {
            step: ReplaceStep::CheckSwap,
            ..p
        },
        (ReplaceStep::CheckSwap, ReplaceEvent::Done) => Replacing { step: ReplaceStep::Park, ..p },
        (ReplaceStep::Park, ReplaceEvent::Done) => Replacing { step: ReplaceStep::MoveIn, ..p },
        (ReplaceStep::MoveIn, ReplaceEvent::Done) => Replacing {
            step: ReplaceStep::Record,
            content: Content { staged: false, ..p.content },
            ..p
        },
        (ReplaceStep::MoveIn, _) => Replacing { step: ReplaceStep::Unpark, ..p },
        (ReplaceStep::Record, ReplaceEvent::Done) => Replacing {
            step: ReplaceStep::RemoveParked,
            ..p
        },
        (ReplaceStep::Record, ReplaceEvent::Absent) => Replacing {
            step: ReplaceStep::TakeOut(true),
            ..p
        },
        (ReplaceStep::Record, ReplaceEvent::Failed) => Replacing {
            step: ReplaceStep::TakeOut(false),
            ..p
        },
        (ReplaceStep::RemoveParked, _) => replaced(p),
        (ReplaceStep::TakeOut(gone), ReplaceEvent::Done) => Replacing {
            step: ReplaceStep::PutBack(gone),
            ..p
        },
        (ReplaceStep::PutBack(gone), ReplaceEvent::Done) => decided(
            Replacing { content: Content { staged: true, ..p.content }, ..p },
            if gone {
                Ok(false)
            } else {
                Err(publishing_failure())
            },
        ),
        (ReplaceStep::CheckCleanup, ReplaceEvent::Done) => Replacing {
            step: if removals(p.content).1 {
                ReplaceStep::RemoveStaging
            } else {
                ReplaceStep::Finished
            },
            ..p
        },
        (ReplaceStep::CheckCleanup, _) => stopped(p),
        (ReplaceStep::RemoveStaging, ReplaceEvent::Done) => Replacing {
            step: ReplaceStep::Finished,
            ..p
        },
        (ReplaceStep::RemoveStaging, _) => stopped(p),
        (ReplaceStep::Finished, _) => p,
        _ => decided(p, Err(publishing_failure())),
    }
}

/// The start of a replacement.
pub open spec fn replacing_start(files: usize) -> Replacing {
    Replacing {
        step: ReplaceStep::CheckStorage,
        files,
        staging_attempts: 0,
        content: Content { staged: false, reserved: false, preserved: false },
        outcome: None,
    }
}

impl Replacing {
    /// Starts the replacement by validated input.
    pub fn new(input: &NewSite) -> (r: Self)
        ensures
            r == replacing_start(input.files@.len() as usize),
    {
        Replacing {
            step: ReplaceStep::CheckStorage,
            files: input.files.len(),
            staging_attempts: 0,
            content: Content::nothing(),
            outcome: None,
        }
    }

    fn decide(self, outcome: Result<bool, AppError>) -> (r: Self)
        ensures
            r == decided(self, outcome),
    {
        Replacing { step: ReplaceStep::CheckCleanup, outcome: Some(outcome), ..self }
    }

    fn stop(self) -> (r: Self)
        ensures
            r == stopped(self),
    {
        Replacing {
            step: ReplaceStep::Finished,
            outcome: Some(Err(AppError::publishing())),
            ..self
        }
    }

    fn go(self, step: ReplaceStep) -> (r: Self)
        ensures
            r == (Replacing { step, ..self }),
    {
        Replacing { step, ..self }
    }

    /// Decides on the next step by how the last one came out.
    pub fn next(self, event: ReplaceEvent) -> (r: Self)
        ensures
            r == replacing_next(self, event),
    {
        match (self.step, event) {
            (ReplaceStep::CheckStorage, ReplaceEvent::Done) => self.go(ReplaceStep::MakeStaging),
            (ReplaceStep::CheckStorage, _) => self.stop(),
            (ReplaceStep::MakeStaging, ReplaceEvent::Done) => Replacing {
                step: ReplaceStep::CheckStaging,
                content: self.content.stage(),
                ..self
            },
            (ReplaceStep::MakeStaging, ReplaceEvent::Absent) => {
                if self.staging_attempts >= MAX_STAGING_ATTEMPTS - 1 {
                    self.stop()
                } else {
                    Replacing { staging_attempts: self.staging_attempts + 1, ..self }
                }
            },
            (ReplaceStep::MakeStaging, ReplaceEvent::Failed) => self.stop(),
            (ReplaceStep::CheckStaging, ReplaceEvent::Done) => {
                if self.files == 0 {
                    self.go(ReplaceStep::Lock)
                } else {
                    self.go(ReplaceStep::WriteFile(0))
                }
            },
            (ReplaceStep::WriteFile(i), ReplaceEvent::Done) => {
                if i < self.files && i + 1 < self.files {
                    self.go(ReplaceStep::WriteFile(i + 1))
                } else {
                    self.go(ReplaceStep::Lock)
                }
            },
            (ReplaceStep::Lock, _) => self.go(ReplaceStep::FindRow),
            (ReplaceStep::FindRow, ReplaceEvent::Done) => self.go(ReplaceStep::ReadClock),
            (ReplaceStep::FindRow, ReplaceEvent::Absent) => self.decide(Ok(false)),
            (ReplaceStep::ReadClock, ReplaceEvent::Done) => self.go(ReplaceStep::CheckSwap),
            (ReplaceStep::CheckSwap, ReplaceEvent::Done) => self.go(ReplaceStep::Park),
            (ReplaceStep::Park, ReplaceEvent::Done) => self.go(ReplaceStep::MoveIn),
            (ReplaceStep::MoveIn, ReplaceEvent::Done) => Replacing {
                step: ReplaceStep::Record,
                content: self.content.install(),
                ..self
            },
            (ReplaceStep::MoveIn, _) => self.go(ReplaceStep::Unpark),
            (ReplaceStep::Record, ReplaceEvent::Done) => self.go(ReplaceStep::RemoveParked),
            (ReplaceStep::Record, ReplaceEvent::Absent) => self.go(ReplaceStep::TakeOut(true)),
            (ReplaceStep::Record, ReplaceEvent::Failed) => self.go(ReplaceStep::TakeOut(false)),
            (ReplaceStep::RemoveParked, _) => Replacing {
                step: ReplaceStep::Finished,
                outcome: Some(Ok(true)),
                ..self
            },
            (ReplaceStep::TakeOut(gone), ReplaceEvent::Done) => self.go(ReplaceStep::PutBack(gone)),
            (ReplaceStep::PutBack(gone), ReplaceEvent::Done) => {
                let restored = Replacing { content: self.content.stage(), ..self };
                if gone {
                    restored.decide(Ok(false))
                } else {
                    restored.decide(Err(AppError::publishing()))
                }
            },
            (ReplaceStep::CheckCleanup, ReplaceEvent::Done) => {
                if self.content.cleanup().1 {
                    self.go(ReplaceStep::RemoveStaging)
                } else {
                    self.go(ReplaceStep::Finished)
                }
            },
            (ReplaceStep::CheckCleanup, _) => self.stop(),
            (ReplaceStep::RemoveStaging, ReplaceEvent::Done) => self.go(ReplaceStep::Finished),
            (ReplaceStep::RemoveStaging, _) => self.stop(),
            (ReplaceStep::Finished, _) => self,
            _ => self.decide(Err(AppError::publishing())),
        }
    }
}

/// What a directory holds.
pub enum Held {
    Nothing,
    Old,
    New,
}

/// What the steps of one replacement have done to storage and database.
pub struct Swapped {
    /// What stands in the site directory.
    pub site: Held,
    /// What stands in the parking place.
    pub parked: Held,
    /// What stands in the staging directory.
    pub staging: Held,
    /// How many files of the new content are written.
    pub written: int,
    /// The row records the new content.
    pub recorded: bool,
    /// A rename that was to restore the old content failed.
    pub stuck: bool,
    /// The removal of what is left in staging failed.
    pub leftover: bool,
}

/// Before a replacement the site directory holds the old content.
pub open spec fn unswapped() -> Swapped {
    Swapped {
        site: Held::Old,
        parked: Held::Nothing,
        staging: Held::Nothing,
        written: 0,
        recorded: false,
        stuck: false,
        leftover: false,
    }
}

/// What a step does to storage and database, by how it came out.
pub open spec fn swapped_after(w: Swapped, step: ReplaceStep, event: ReplaceEvent) -> Swapped {
    match (step, event) {
        (ReplaceStep::MakeStaging, ReplaceEvent::Done) => Swapped { staging: Held::New, ..w },
        (ReplaceStep::WriteFile(i), ReplaceEvent::Done) => Swapped { written: i + 1, ..w },
        (ReplaceStep::Park, ReplaceEvent::Done) => Swapped {
            site: Held::Nothing,
            parked: w.site,
            ..w
        },
        (ReplaceStep::MoveIn, ReplaceEvent::Done) => Swapped {
            site: w.staging,
            staging: Held::Nothing,
            ..w
        },
        (ReplaceStep::Unpark, ReplaceEvent::Done) => Swapped {
            site: w.parked,
            parked: Held::Nothing,
            ..w
        },
        (ReplaceStep::Unpark, _) => Swapped { stuck: true, ..w },
        (ReplaceStep::Record, ReplaceEvent::Done) => Swapped { recorded: true, ..w },
        (ReplaceStep::RemoveParked, ReplaceEvent::Done) => Swapped { parked: Held::Nothing, ..w },
        (ReplaceStep::TakeOut(_), ReplaceEvent::Done) => Swapped {
            site: Held::Nothing,
            staging: w.site,
            ..w
        },
        (ReplaceStep::TakeOut(_), _) => Swapped { stuck: true, ..w },
        (ReplaceStep::PutBack(_), ReplaceEvent::Done) => Swapped {
            site: w.parked,
            parked: Held::Nothing,
            ..w
        },
        (ReplaceStep::PutBack(_), _) => Swapped { stuck: true, ..w },
        (ReplaceStep::RemoveStaging, ReplaceEvent::Done) => Swapped {
            staging: Held::Nothing,
            ..w
        },
        (ReplaceStep::RemoveStaging, _) => Swapped { leftover: true, ..w },
        (ReplaceStep::CheckCleanup, ReplaceEvent::Absent) => Swapped { leftover: true, ..w },
        (ReplaceStep::CheckCleanup, ReplaceEvent::Failed) => Swapped { leftover: true, ..w },
        _ => w,
    }
}

/// The replacement and its effects after a row of events.
pub open spec fn replacing_run(p: Replacing, events: Seq<ReplaceEvent>) -> (Replacing, Swapped)
    decreases events.len(),
{
    if events.len() == 0 {
        (p, unswapped())
    } else {
        let (before, w) = replacing_run(p, events.drop_last());
        (
            replacing_next(before, events.last()),
            swapped_after(w, before.step, events.last()),
        )
    }
}

spec fn swap_tracks(p: Replacing, w: Swapped) -> bool {
    &&& w.recorded ==> w.site == Held::New
    &&& p.outcome == Some(Ok::<bool, AppError>(true)) ==> w.recorded
    &&& p.content.staged ==> w.site != Held::New
    &&& w.site == Held::New ==> w.written == p.files
    &&& w.staging != Held::Nothing && !w.stuck && p.outcome is Some ==> p.content.staged
    &&& match p.step {
        ReplaceStep::CheckStorage | ReplaceStep::MakeStaging => w == unswapped() && p.outcome
            is None && !p.content.staged,
        ReplaceStep::CheckStaging => w == (Swapped { staging: Held::New, ..unswapped() })
            && p.outcome is None && p.content.staged,
        ReplaceStep::WriteFile(i) => w == (Swapped {
            staging: Held::New,
            written: i as int,
            ..unswapped()
        }) && i < p.files && p.outcome is None && p.content.staged,
        ReplaceStep::Lock
        | ReplaceStep::FindRow
        | ReplaceStep::ReadClock
        | ReplaceStep::CheckSwap
        | ReplaceStep::Park => w == (Swapped {
            staging: Held::New,
            written: p.files as int,
            ..unswapped()
        }) && p.outcome is None && p.content.staged,
        ReplaceStep::MoveIn | ReplaceStep::Unpark => w == (Swapped {
            site: Held::Nothing,
            parked: Held::Old,
            staging: Held::New,
            written: p.files as int,
            ..unswapped()
        }) && p.outcome is None && p.content.staged,
        ReplaceStep::Record | ReplaceStep::TakeOut(_) => w == (Swapped {
            site: Held::New,
            parked: Held::Old,
            written: p.files as int,
            ..unswapped()
        }) && p.outcome is None && !p.content.staged,
        ReplaceStep::RemoveParked => w.recorded && w.site == Held::New && w.staging == Held::Nothing
            && !w.stuck && p.outcome is None && !p.content.staged,
        ReplaceStep::PutBack(_) => w == (Swapped {
            site: Held::Nothing,
            parked: Held::Old,
            staging: Held::New,
            written: p.files as int,
            ..unswapped()
        }) && p.outcome is None && !p.content.staged,
        ReplaceStep::CheckCleanup | ReplaceStep::RemoveStaging | ReplaceStep::Finished =>
            p.outcome is Some && (w.recorded ==> p.step == ReplaceStep::Finished && p.outcome
                == Some(Ok::<bool, AppError>(true))) && (!w.stuck ==> w.site == if w.recorded {
            Held::New
        } else {
            Held::Old
        }) && (w.stuck ==> !w.recorded && w.parked == Held::Old) && (p.step
            == ReplaceStep::Finished && !w.stuck && !w.leftover ==> w.staging == Held::Nothing),
    }
}

proof fn swap_step(p: Replacing, w: Swapped, event: ReplaceEvent)
    requires
        swap_tracks(p, w),
    ensures
        swap_tracks(replacing_next(p, event), swapped_after(w, p.step, event)),
{
}

proof fn swap_run(files: usize, events: Seq<ReplaceEvent>)
    ensures
        ({
            let (p, w) = replacing_run(replacing_start(files), events);
            swap_tracks(p, w) && p.files == files
        }),
    decreases events.len(),
{
    if events.len() > 0 {
        swap_run(files, events.drop_last());
        let (p, w) = replacing_run(replacing_start(files), events.drop_last());
        swap_step(p, w, events.last());
    }
}

/// What a replacement leaves behind, however its steps come out. Once it has
/// ended, the site directory holds the new content exactly where the row
/// records it, and the old content otherwise, unless a rename that was to
/// restore the old content failed; even then the old content is not lost. New
/// content is whole wherever it stands in the site directory, and staging is
/// cleared unless its removal failed. A success is claimed exactly where the row
/// records the new content: on every failure the row and, renames permitting,
/// the site directory are as they were.
pub proof fn replacement_restores_previous_content(files: usize, events: Seq<ReplaceEvent>)
    ensures
        ({
            let (p, w) = replacing_run(replacing_start(files), events);
            &&& p.step == ReplaceStep::Finished ==> p.outcome is Some
            &&& p.outcome == Some(Ok::<bool, AppError>(true)) ==> w.recorded && w.site == Held::New
            &&& p.step == ReplaceStep::Finished && w.recorded ==> p.outcome == Some(
                Ok::<bool, AppError>(true),
            )
            &&& p.outcome == Some(Ok::<bool, AppError>(false)) ==> !w.recorded
            &&& p.step == ReplaceStep::Finished && !w.stuck ==> w.site == if w.recorded {
                Held::New
            } else {
                Held::Old
            }
            &&& p.step == ReplaceStep::Finished && w.stuck ==> w.parked == Held::Old
            &&& w.site == Held::New ==> w.written == files
            &&& p.step == ReplaceStep::Finished && !w.stuck && !w.leftover ==> w.staging
                == Held::Nothing
        }),
{
    swap_run(files, events);
}

/// What a replacement records of the new content.
pub struct Replacement {
    pub entry: String,
    pub file_count: i64,
    pub size_bytes: i64,
    pub updated_at: i64,
}

/// The row after a replacement is recorded.
pub open spec fn replaced_row(row: SiteView, recorded: Replacement) -> SiteView {
    SiteView {
        entry: recorded.entry@,
        file_count: recorded.file_count,
        size_bytes: recorded.size_bytes,
        updated_at: recorded.updated_at,
        ..row
    }
}

/// What is recorded of validated input at a given second.
pub open spec fn recorded_as(input: NewSite, now: i64, r: Result<Replacement, AppError>) -> bool {
    match r {
        Ok(recorded) => {
            &&& recorded.entry@ == input.entry@
            &&& recorded.file_count == input.files@.len()
            &&& recorded.size_bytes == input.size_bytes
            &&& recorded.updated_at == now
        },
        Err(error) => input.files@.len() > i64::MAX && error == publishing_failure(),
    }
}

/// What is recorded of validated input at a given second; it fails where the
/// number of files cannot be stored.
pub fn replacement(input: &NewSite, now: i64) -> (r: Result<Replacement, AppError>)
    ensures
        recorded_as(*input, now, r),
{
    match crate::sites::representable(input.files.len() as u64) {
        Ok(file_count) => Ok(
            Replacement {
                entry: input.entry.as_str().to_owned(),
                file_count,
                size_bytes: input.size_bytes,
                updated_at: now,
            },
        ),
        Err(error) => Err(error),
    }
}

/// A replacement keeps the slug, title, access, creation time and expiry.
pub proof fn replacement_keeps_identity(row: SiteView, recorded: Replacement)
    ensures
        replaced_row(row, recorded).slug == row.slug,
        replaced_row(row, recorded).title == row.title,
        replaced_row(row, recorded).protected == row.protected,
        replaced_row(row, recorded).created_at == row.created_at,
        replaced_row(row, recorded).expires_at == row.expires_at,
{
}

}
