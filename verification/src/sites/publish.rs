//! Unique row reservation, exclusive installation, and conservative commit.
use crate::error::{publishing_failure, rejected, AppError};
use crate::sites::content::{removals, Content, MAX_STAGING_ATTEMPTS};
use crate::sites::generate::from_system;
use crate::sites::new_site::NewSite;
use crate::sites::validate::Slug;
use crate::sites::{Site, SiteView};
use crate::status;
use crate::text::split;
use vstd::prelude::*;

verus! {

/// How often a generated slug is tried.
pub const MAX_SLUG_ATTEMPTS: usize = 8;

/// The slug of a site: the requested one, or a generated one.
pub open spec fn slug_chosen(asked: Option<Slug>, r: Result<Slug, AppError>) -> bool {
    match asked {
        Some(slug) => r matches Ok(chosen) && chosen@ == slug@,
        None => from_system(r) && (r matches Ok(chosen) ==> split(chosen@, '-').len() == 4) && (
        r matches Err(error) ==> error == publishing_failure()),
    }
}

/// Takes the requested slug; generates one only where none was requested.
pub fn chosen_slug(input: &NewSite) -> (r: Result<Slug, AppError>)
    ensures
        slug_chosen(input.slug, r),
{
    match &input.slug {
        Some(slug) => Ok(slug.copy()),
        None => Slug::generate(),
    }
}

/// What is to be done next for one publication.
#[derive(Clone, Copy, Debug, PartialEq, Eq, Structural)]
pub enum Step {
    /// Check that the storage directories are directories.
    CheckStorage,
    /// Create a staging directory under a generated name.
    MakeStaging,
    /// Check storage and the staging directory.
    CheckStaging,
    /// Create one new file in staging, with its parents, and write its bytes.
    WriteFile(usize),
    /// Wait until no other mutation runs.
    Lock,
    /// Read the clock.
    ReadClock,
    /// Take the custom slug, or generate one.
    ChooseSlug,
    /// Begin a transaction.
    Begin,
    /// Insert the row of the candidate.
    Insert,
    /// Roll back because the slug or its directory is taken.
    RollbackTaken,
    /// Roll back because something failed.
    RollbackFailed,
    /// Check storage and create the destination directory.
    Reserve,
    /// Check all three directories and rename staging onto the destination.
    Install,
    /// Commit the row.
    Commit,
    /// Check storage before anything is removed.
    CheckCleanup,
    /// Remove the empty destination.
    RemoveReservation,
    /// Remove the staging directory with what it holds.
    RemoveStaging,
    /// Nothing more is to be done.
    Finished,
}

/// How a step came out.
#[derive(Clone, Copy, Debug, PartialEq, Eq, Structural)]
pub enum Event {
    /// It was done.
    Done,
    /// The name is taken by something else, which was left as it is.
    Taken,
    /// It failed.
    Failed,
}

/// One publication on its way.
pub struct Publication {
    /// What is to be done next.
    pub step: Step,
    /// How many files are written.
    pub files: usize,
    /// The slug was chosen by the administrator.
    pub custom: bool,
    /// Staging names that were taken.
    pub staging_attempts: usize,
    /// Slugs that were taken.
    pub slug_attempts: usize,
    /// The paths that this publication owns.
    pub content: Content,
    /// How the publication came out, once that is decided.
    pub outcome: Option<Result<(), AppError>>,
}

/// The rejection of a custom slug that is taken.
pub open spec fn slug_conflict() -> AppError {
    rejected(status::CONFLICT, "That site slug is already in use.")
}

/// The publication failed before cleanup.
pub open spec fn failing(p: Publication, error: AppError) -> Publication {
    Publication { step: Step::CheckCleanup, outcome: Some(Err(error)), ..p }
}

/// The publication ends here with a failure.
pub open spec fn ended(p: Publication) -> Publication {
    Publication { step: Step::Finished, outcome: Some(Err(publishing_failure())), ..p }
}

/// What follows from how a step came out.
pub open spec fn publication_next(p: Publication, event: Event) -> Publication {
    match (p.step, event) {
        (Step::CheckStorage, Event::Done) => Publication { step: Step::MakeStaging, ..p },
        (Step::CheckStorage, _) => ended(p),
        (Step::MakeStaging, Event::Done) => Publication {
            step: Step::CheckStaging,
            content: Content { staged: true, ..p.content },
            ..p
        },
        (Step::MakeStaging, Event::Taken) => if p.staging_attempts + 1 >= MAX_STAGING_ATTEMPTS {
            ended(p)
        } else {
            Publication { staging_attempts: (p.staging_attempts + 1) as usize, ..p }
        },
        (Step::MakeStaging, Event::Failed) => ended(p),
        (Step::CheckStaging, Event::Done) => Publication {
            step: if p.files == 0 {
                Step::Lock
            } else {
                Step::WriteFile(0)
            },
            ..p
        },
        (Step::WriteFile(i), Event::Done) => Publication {
            step: if i + 1 < p.files {
                Step::WriteFile((i + 1) as usize)
            } else {
                Step::Lock
            },
            ..p
        },
        (Step::Lock, _) => Publication { step: Step::ReadClock, ..p },
        (Step::ReadClock, Event::Done) => Publication { step: Step::ChooseSlug, ..p },
        (Step::ChooseSlug, Event::Done) => Publication { step: Step::Begin, ..p },
        (Step::Begin, Event::Done) => Publication { step: Step::Insert, ..p },
        (Step::Insert, Event::Done) => Publication { step: Step::Reserve, ..p },
        (Step::Insert, Event::Taken) => Publication { step: Step::RollbackTaken, ..p },
        (Step::Insert, Event::Failed) => Publication { step: Step::RollbackFailed, ..p },
        (Step::Reserve, Event::Done) => Publication {
            step: Step::Install,
            content: Content { reserved: true, ..p.content },
            ..p
        },
        (Step::Reserve, Event::Taken) => Publication { step: Step::RollbackTaken, ..p },
        (Step::Reserve, Event::Failed) => Publication { step: Step::RollbackFailed, ..p },
        (Step::RollbackTaken, Event::Done) => if p.custom {
            failing(p, slug_conflict())
        } else if p.slug_attempts + 1 >= MAX_SLUG_ATTEMPTS {
            failing(p, publishing_failure())
        } else {
            Publication {
                step: Step::ChooseSlug,
                slug_attempts: (p.slug_attempts + 1) as usize,
                ..p
            }
        },
        (Step::Install, Event::Done) => Publication {
            step: Step::Commit,
            content: Content { staged: false, preserved: true, ..p.content },
            ..p
        },
        (Step::Install, _) => Publication { step: Step::RollbackFailed, ..p },
        (Step::Commit, Event::Done) => Publication {
            step: Step::CheckCleanup,
            outcome: Some(Ok(())),
            ..p
        },
        (Step::CheckCleanup, Event::Done) => Publication {
            step: if removals(p.content).0 {
                Step::RemoveReservation
            } else if removals(p.content).1 {
                Step::RemoveStaging
            } else {
                Step::Finished
            },
            ..p
        },
        (Step::CheckCleanup, _) => ended(p),
        (Step::RemoveReservation, Event::Done) => Publication { step: Step::RemoveStaging, ..p },
        (Step::RemoveReservation, _) => Publication {
            step: Step::RemoveStaging,
            outcome: Some(Err(publishing_failure())),
            ..p
        },
        (Step::RemoveStaging, Event::Done) => Publication { step: Step::Finished, ..p },
        (Step::RemoveStaging, _) => ended(p),
        (Step::Finished, _) => p,
        _ => failing(p, publishing_failure()),
    }
}

/// The start of a publication.
pub open spec fn publication_start(files: usize, custom: bool) -> Publication {
    Publication {
        step: Step::CheckStorage,
        files,
        custom,
        staging_attempts: 0,
        slug_attempts: 0,
        content: Content { staged: false, reserved: false, preserved: false },
        outcome: None,
    }
}

impl Publication {
    /// Starts the publication of validated input.
    pub fn new(input: &NewSite) -> (r: Self)
        ensures
            r == publication_start(input.files@.len() as usize, input.slug is Some),
    {
        Publication {
            step: Step::CheckStorage,
            files: input.files.len(),
            custom: input.slug.is_some(),
            staging_attempts: 0,
            slug_attempts: 0,
            content: Content::nothing(),
            outcome: None,
        }
    }

    fn fail(self, error: AppError) -> (r: Self)
        ensures
            r == failing(self, error),
    {
        Publication { step: Step::CheckCleanup, outcome: Some(Err(error)), ..self }
    }

    fn end(self) -> (r: Self)
        ensures
            r == ended(self),
    {
        Publication { step: Step::Finished, outcome: Some(Err(AppError::publishing())), ..self }
    }

    /// Decides on the next step by how the last one came out.
    pub fn next(self, event: Event) -> (r: Self)
        ensures
            r == publication_next(self, event),
    {
        match (self.step, event) {
            (Step::CheckStorage, Event::Done) => Publication { step: Step::MakeStaging, ..self },
            (Step::CheckStorage, _) => self.end(),
            (Step::MakeStaging, Event::Done) => Publication {
                step: Step::CheckStaging,
                content: self.content.stage(),
                ..self
            },
            (Step::MakeStaging, Event::Taken) => {
                if self.staging_attempts >= MAX_STAGING_ATTEMPTS - 1 {
                    self.end()
                } else {
                    Publication { staging_attempts: self.staging_attempts + 1, ..self }
                }
            },
            (Step::MakeStaging, Event::Failed) => self.end(),
            (Step::CheckStaging, Event::Done) => {
                let step: Step = if self.files == 0 {
                    Step::Lock
                } else {
                    Step::WriteFile(0)
                };
                Publication { step, ..self }
            },
            (Step::WriteFile(i), Event::Done) => {
                let step: Step = if i < self.files && i + 1 < self.files {
                    Step::WriteFile(i + 1)
                } else {
                    Step::Lock
                };
                Publication { step, ..self }
            },
            (Step::Lock, _) => Publication { step: Step::ReadClock, ..self },
            (Step::ReadClock, Event::Done) => Publication { step: Step::ChooseSlug, ..self },
            (Step::ChooseSlug, Event::Done) => Publication { step: Step::Begin, ..self },
            (Step::Begin, Event::Done) => Publication { step: Step::Insert, ..self },
            (Step::Insert, Event::Done) => Publication { step: Step::Reserve, ..self },
            (Step::Insert, Event::Taken) => Publication { step: Step::RollbackTaken, ..self },
            (Step::Insert, Event::Failed) => Publication { step: Step::RollbackFailed, ..self },
            (Step::Reserve, Event::Done) => Publication {
                step: Step::Install,
                content: self.content.reserve_destination(),
                ..self
            },
            (Step::Reserve, Event::Taken) => Publication { step: Step::RollbackTaken, ..self },
            (Step::Reserve, Event::Failed) => Publication { step: Step::RollbackFailed, ..self },
            (Step::RollbackTaken, Event::Done) => {
                if self.custom {
                    self.fail(
                        AppError::request(status::CONFLICT, "That site slug is already in use."),
                    )
                } else if self.slug_attempts >= MAX_SLUG_ATTEMPTS - 1 {
                    self.fail(AppError::publishing())
                } else {
                    Publication {
                        step: Step::ChooseSlug,
                        slug_attempts: self.slug_attempts + 1,
                        ..self
                    }
                }
            },
            (Step::Install, Event::Done) => Publication {
                step: Step::Commit,
                content: self.content.install().preserve_installed(),
                ..self
            },
            (Step::Install, _) => Publication { step: Step::RollbackFailed, ..self },
            (Step::Commit, Event::Done) => Publication {
                step: Step::CheckCleanup,
                outcome: Some(Ok(())),
                ..self
            },
            (Step::CheckCleanup, Event::Done) => {
                let (reservation, staging) = self.content.cleanup();
                let step: Step = if reservation {
                    Step::RemoveReservation
                } else if staging {
                    Step::RemoveStaging
                } else {
                    Step::Finished
                };
                Publication { step, ..self }
            },
            (Step::CheckCleanup, _) => self.end(),
            (Step::RemoveReservation, Event::Done) => Publication {
                step: Step::RemoveStaging,
                ..self
            },
            (Step::RemoveReservation, _) => Publication {
                step: Step::RemoveStaging,
                outcome: Some(Err(AppError::publishing())),
                ..self
            },
            (Step::RemoveStaging, Event::Done) => Publication { step: Step::Finished, ..self },
            (Step::RemoveStaging, _) => self.end(),
            (Step::Finished, _) => self,
            _ => self.fail(AppError::publishing()),
        }
    }
}

/// What the steps of one publication have done to storage and database.
pub struct Effects {
    /// The staging directory exists.
    pub staging: bool,
    /// How many of the files it holds in full.
    pub written: int,
    /// A row is inserted in the open transaction.
    pub pending: bool,
    /// The destination exists and was created by this publication.
    pub destination: bool,
    /// The destination holds the files.
    pub filled: bool,
    /// The row is committed.
    pub committed: bool,
    /// The commit was attempted, so that the row may be there.
    pub attempted: bool,
    /// A cleanup step or a rollback failed.
    pub leftover: bool,
}

/// Nothing has been done.
pub open spec fn no_effects() -> Effects {
    Effects {
        staging: false,
        written: 0,
        pending: false,
        destination: false,
        filled: false,
        committed: false,
        attempted: false,
        leftover: false,
    }
}

/// What a step does to storage and database, by how it came out.
pub open spec fn effects_after(w: Effects, step: Step, event: Event) -> Effects {
    match (step, event) {
        (Step::MakeStaging, Event::Done) => Effects { staging: true, ..w },
        (Step::WriteFile(i), Event::Done) => Effects { written: i + 1, ..w },
        (Step::Insert, Event::Done) => Effects { pending: true, ..w },
        (Step::RollbackTaken, Event::Done) => Effects { pending: false, ..w },
        (Step::RollbackFailed, Event::Done) => Effects { pending: false, ..w },
        (Step::RollbackTaken, _) => Effects { leftover: true, ..w },
        (Step::RollbackFailed, _) => Effects { leftover: true, ..w },
        (Step::Reserve, Event::Done) => Effects { destination: true, ..w },
        (Step::Install, Event::Done) => Effects { filled: true, staging: false, ..w },
        (Step::Commit, Event::Done) => Effects {
            pending: false,
            committed: true,
            attempted: true,
            ..w
        },
        (Step::Commit, _) => Effects { pending: false, attempted: true, ..w },
        (Step::RemoveReservation, Event::Done) => Effects { destination: false, filled: false, ..w },
        (Step::RemoveStaging, Event::Done) => Effects { staging: false, ..w },
        (Step::CheckCleanup, Event::Taken) => Effects { leftover: true, ..w },
        (Step::CheckCleanup, Event::Failed) => Effects { leftover: true, ..w },
        (Step::RemoveReservation, _) => Effects { leftover: true, ..w },
        (Step::RemoveStaging, _) => Effects { leftover: true, ..w },
        _ => w,
    }
}

/// The publication and its effects after a row of events.
pub open spec fn publication_run(p: Publication, events: Seq<Event>) -> (Publication, Effects)
    decreases events.len(),
{
    if events.len() == 0 {
        (p, no_effects())
    } else {
        let (before, w) = publication_run(p, events.drop_last());
        (
            publication_next(before, events.last()),
            effects_after(w, before.step, events.last()),
        )
    }
}

/// How far a publication has come when a step is due.
spec fn tracks(p: Publication, w: Effects) -> bool {
    &&& p.content.staged ==> w.staging || w.leftover || p.step == Step::Finished
    &&& w.committed ==> w.attempted && w.filled
    &&& w.filled ==> w.destination && p.content.preserved && p.content.reserved && !w.staging
        && w.written == p.files
    &&& p.content.preserved ==> w.filled && !p.content.staged
    &&& w.destination ==> p.content.reserved
    &&& w.staging ==> p.content.staged
    &&& w.attempted ==> w.filled
    &&& p.outcome == Some(Ok::<(), AppError>(())) ==> w.committed
    &&& match p.step {
        Step::CheckStorage | Step::MakeStaging => w == no_effects() && p.content
            == (Content { staged: false, reserved: false, preserved: false }) && p.outcome is None,
        Step::CheckStaging => w == (Effects { staging: true, ..no_effects() })
            && !p.content.reserved && p.content.staged && p.outcome is None,
        Step::WriteFile(i) => w == (Effects { staging: true, written: i as int, ..no_effects() })
            && i < p.files && !p.content.reserved && p.content.staged && p.outcome is None,
        Step::Lock | Step::ReadClock | Step::ChooseSlug | Step::Begin | Step::Insert => w == (
        Effects { staging: true, written: p.files as int, ..no_effects() }) && !p.content.reserved
            && p.content.staged && p.outcome is None,
        Step::Reserve => w == (Effects {
            staging: true,
            written: p.files as int,
            pending: true,
            ..no_effects()
        }) && !p.content.reserved && p.content.staged && p.outcome is None,
        Step::Install => w == (Effects {
            staging: true,
            written: p.files as int,
            pending: true,
            destination: true,
            ..no_effects()
        }) && p.content.reserved && p.content.staged && p.outcome is None,
        Step::RollbackTaken => w.staging && w.written == p.files && !w.destination && !w.filled
            && !w.attempted && !w.leftover && p.content.staged && !p.content.reserved && p.outcome
            is None,
        Step::RollbackFailed => w.staging && !w.filled && !w.attempted && !w.leftover
            && p.content.staged && p.content.reserved == w.destination && p.outcome is None,
        Step::Commit => w.filled && w.pending && !w.attempted && !w.leftover && p.outcome is None,
        Step::CheckCleanup => p.outcome is Some && (!w.leftover ==> !w.pending) && (w.filled
            ==> w.attempted) && (!w.filled ==> (
        p.content.staged && w.staging && p.content.reserved == w.destination)),
        Step::RemoveReservation => p.outcome is Some && !w.filled && w.destination
            && p.content.staged && w.staging && (!w.leftover ==> !w.pending),
        Step::RemoveStaging => p.outcome is Some && !w.filled && w.staging && (!w.leftover
            ==> !w.pending && !w.destination),
        Step::Finished => p.outcome is Some && (!w.leftover && !w.attempted ==> !w.pending
            && !w.destination && !w.staging) && (w.filled ==> w.destination),
    }
}

proof fn step_tracks(p: Publication, w: Effects, event: Event)
    requires
        tracks(p, w),
    ensures
        tracks(publication_next(p, event), effects_after(w, p.step, event)),
{
}

proof fn run_tracks(files: usize, custom: bool, events: Seq<Event>)
    ensures
        ({
            let (p, w) = publication_run(publication_start(files, custom), events);
            tracks(p, w) && p.files == files
        }),
    decreases events.len(),
{
    if events.len() > 0 {
        run_tracks(files, custom, events.drop_last());
        let (p, w) = publication_run(publication_start(files, custom), events.drop_last());
        step_tracks(p, w, events.last());
    }
}

/// What a publication leaves behind, however its steps come out. A success
/// means that all files stand at the destination and the row is committed. A
/// failure before the commit leaves neither row nor files, unless a rollback or
/// a removal itself failed. And once files stand at the destination they stay.
pub proof fn publication_is_all_or_nothing(files: usize, custom: bool, events: Seq<Event>)
    ensures
        ({
            let (p, w) = publication_run(publication_start(files, custom), events);
            &&& p.outcome == Some(Ok::<(), AppError>(())) ==> w.committed && w.filled
                && w.destination && w.written == files
            &&& p.step == Step::Finished ==> p.outcome is Some
            &&& p.step == Step::Finished && !w.attempted && !w.leftover ==> !w.pending
                && !w.destination && !w.staging
            &&& w.attempted ==> w.filled && w.destination
        }),
{
    run_tracks(files, custom, events);
}

/// The row of a new site.
pub open spec fn new_row(input: NewSite, slug: Seq<char>, now: i64) -> SiteView {
    SiteView {
        slug,
        title: input.title@,
        protected: input.password is Some,
        entry: input.entry@,
        file_count: input.files@.len() as i64,
        size_bytes: input.size_bytes,
        created_at: now,
        updated_at: now,
        expires_at: match input.expires_in {
            Some(seconds) => Some(crate::sites::after(now, seconds)),
            None => None,
        },
    }
}

/// The row of a new site, made at a given second; it fails where the number of
/// files cannot be stored.
pub fn site_row(input: &NewSite, slug: &Slug, now: i64) -> (r: Result<Site, AppError>)
    ensures
        match r {
            Ok(row) => {
                &&& input.files@.len() <= i64::MAX
                &&& row.shows(new_row(*input, slug@, now))
                &&& row.slug@ == slug@
                &&& row.title@ == input.title@
                &&& row.entry@ == input.entry@
                &&& row.file_count == input.files@.len()
                &&& row.size_bytes == input.size_bytes
                &&& row.created_at == now
                &&& row.updated_at == now
            },
            Err(error) => input.files@.len() > i64::MAX && error == publishing_failure(),
        },
{
    let file_count: i64 = match crate::sites::representable(input.files.len() as u64) {
        Ok(count) => count,
        Err(error) => return Err(error),
    };
    let visibility: String = if input.password.is_some() {
        "password".to_owned()
    } else {
        "open".to_owned()
    };
    Ok(
        Site {
            slug: slug.as_str().to_owned(),
            title: input.title.as_str().to_owned(),
            visibility,
            entry: input.entry.as_str().to_owned(),
            file_count,
            size_bytes: input.size_bytes,
            created_at: now,
            updated_at: now,
            expires_at: match input.expires_in {
                Some(seconds) => Some(crate::sites::seconds_after(now, seconds)),
                None => None,
            },
        },
    )
}

}
