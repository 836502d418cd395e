//! Bounded password work with shared accounting and delay.
use crate::auth::limiter::{completion, Failures, Limiter, LoginOutcome};
use crate::auth::password::{verified, Password};
use crate::auth::sessions::{session_created, SessionView, Sessions, SESSION_NANOS};
use crate::error::{authentication_failure, rejected, AppError};
use crate::ip::IpAddr;
use crate::status;
use vstd::prelude::*;

verus! {

/// How many password requests may be under way, delayed ones among them.
pub const MAX_ADMITTED_LOGINS: usize = 16;

/// How many passwords may be hashed at a time.
pub const MAX_PASSWORD_WORKERS: usize = 2;

/// The rejection of work beyond the bounds.
pub open spec fn busy_error() -> AppError {
    rejected(status::TOO_MANY_REQUESTS, "login is busy; try again shortly")
}

/// Rejects work beyond the bounds.
pub fn busy() -> (r: AppError)
    ensures
        r == busy_error(),
{
    AppError::request(status::TOO_MANY_REQUESTS, "login is busy; try again shortly")
}

/// What is to be done next for one password job.
#[derive(Clone, Copy, Debug, PartialEq, Eq, Structural)]
pub enum JobStep {
    /// Take one of the admissions, without waiting.
    Enter,
    /// Take one of the workers, without waiting.
    TakeWorker,
    /// Do the work on that worker, and give the worker back.
    Work,
    /// Wait for so many nanoseconds before answering.
    Delay(u64),
    /// Give the admission back.
    Finished,
}

/// How a step came out.
#[derive(Clone, Copy, Debug)]
pub enum JobEvent {
    /// It was done.
    Done,
    /// There was none left to take.
    Exhausted,
    /// The work was done, and its answer is delayed by so many nanoseconds.
    Worked(u64),
    /// The work failed.
    Failed(AppError),
}

/// One password job on its way.
#[derive(Clone, Copy, Debug)]
pub struct Job {
    pub step: JobStep,
    /// Whether the work was done, once that is decided.
    pub outcome: Option<Result<(), AppError>>,
}

pub open spec fn job_goes(step: JobStep) -> Job {
    Job { step, outcome: None }
}

pub open spec fn job_ends(outcome: Result<(), AppError>) -> Job {
    Job { step: JobStep::Finished, outcome: Some(outcome) }
}

/// What follows from how a step came out.
pub open spec fn job_next(job: Job, event: JobEvent) -> Job {
    match (job.step, event) {
        (JobStep::Finished, _) => job,
        (JobStep::Enter, JobEvent::Done) => job_goes(JobStep::TakeWorker),
        (JobStep::Enter, JobEvent::Exhausted) => job_ends(Err(busy_error())),
        (JobStep::TakeWorker, JobEvent::Done) => job_goes(JobStep::Work),
        (JobStep::TakeWorker, JobEvent::Exhausted) => job_ends(Err(busy_error())),
        (JobStep::Work, JobEvent::Worked(delay)) => if delay == 0 {
            job_ends(Ok(()))
        } else {
            job_goes(JobStep::Delay(delay))
        },
        (JobStep::Work, JobEvent::Failed(error)) => job_ends(Err(error)),
        (JobStep::Delay(_), JobEvent::Done) => job_ends(Ok(())),
        _ => job_ends(Err(authentication_failure())),
    }
}

impl Job {
    /// Starts a job.
    pub fn new() -> (r: Self)
        ensures
            r == job_goes(JobStep::Enter),
    {
        Job { step: JobStep::Enter, outcome: None }
    }

    fn go(step: JobStep) -> (r: Self)
        ensures
            r == job_goes(step),
    {
        Job { step, outcome: None }
    }

    fn end(outcome: Result<(), AppError>) -> (r: Self)
        ensures
            r == job_ends(outcome),
    {
        Job { step: JobStep::Finished, outcome: Some(outcome) }
    }

    /// Decides on the next step by how the last one came out.
    pub fn next(self, event: JobEvent) -> (r: Self)
        ensures
            r == job_next(self, event),
    {
        match (self.step, event) {
            (JobStep::Finished, _) => self,
            (JobStep::Enter, JobEvent::Done) => Self::go(JobStep::TakeWorker),
            (JobStep::Enter, JobEvent::Exhausted) => Self::end(Err(busy())),
            (JobStep::TakeWorker, JobEvent::Done) => Self::go(JobStep::Work),
            (JobStep::TakeWorker, JobEvent::Exhausted) => Self::end(Err(busy())),
            (JobStep::Work, JobEvent::Worked(delay)) => {
                if delay == 0 {
                    Self::end(Ok(()))
                } else {
                    Self::go(JobStep::Delay(delay))
                }
            },
            (JobStep::Work, JobEvent::Failed(error)) => Self::end(Err(error)),
            (JobStep::Delay(_), JobEvent::Done) => Self::end(Ok(())),
            _ => Self::end(Err(AppError::authentication())),
        }
    }
}

/// A job after a row of events, with whether it holds an admission and a
/// worker, how often it worked, and the delay that it was given.
pub struct JobTrace {
    pub job: Job,
    pub admission: bool,
    pub worker: bool,
    pub works: nat,
    pub delay: u64,
    pub waited: bool,
}

pub open spec fn job_run(events: Seq<JobEvent>) -> JobTrace
    decreases events.len(),
{
    if events.len() == 0 {
        JobTrace {
            job: job_goes(JobStep::Enter),
            admission: false,
            worker: false,
            works: 0,
            delay: 0,
            waited: false,
        }
    } else {
        let t = job_run(events.drop_last());
        let event = events.last();
        let job = job_next(t.job, event);
        JobTrace {
            job,
            admission: job.step != JobStep::Finished && (t.admission || (t.job.step
                == JobStep::Enter && event == JobEvent::Done)),
            worker: t.job.step == JobStep::TakeWorker && event == JobEvent::Done,
            works: if t.job.step == JobStep::Work {
                t.works + 1
            } else {
                t.works
            },
            delay: if t.job.step == JobStep::Work && event is Worked {
                event->Worked_0
            } else {
                t.delay
            },
            waited: t.waited || (t.job.step is Delay && event == JobEvent::Done),
        }
    }
}

/// A job works at most once, and only with an admission and a worker. A delayed
/// answer keeps its admission but never a worker, and is given only after the
/// delay.
pub proof fn work_is_bounded(events: Seq<JobEvent>)
    ensures
        ({
            let t = job_run(events);
            &&& t.works <= 1
            &&& t.worker <==> t.job.step == JobStep::Work
            &&& t.admission <==> t.job.step == JobStep::TakeWorker || t.job.step == JobStep::Work
                || t.job.step is Delay
            &&& t.job.step is Delay ==> !t.worker && t.admission && t.works == 1 && t.delay > 0
                && t.job.step == JobStep::Delay(t.delay)
            &&& t.job.outcome == Some(Ok::<(), AppError>(())) ==> t.works == 1 && (t.delay > 0
                ==> t.waited)
            &&& t.job.step == JobStep::Enter || t.job.step == JobStep::TakeWorker || t.job.step
                == JobStep::Work ==> t.works == 0
            &&& t.job.step == JobStep::Finished <==> t.job.outcome is Some
        }),
    decreases events.len(),
{
    if events.len() > 0 {
        work_is_bounded(events.drop_last());
    }
}

/// What is counted of a checked password, and the delay of the answer.
pub open spec fn accounted(failures: Failures, ip: Seq<u16>, accepted: bool, now: u64) -> (
    Failures,
    Result<u64, AppError>,
) {
    completion(
        failures,
        ip,
        if accepted {
            LoginOutcome::Accepted
        } else {
            LoginOutcome::Rejected
        },
        now,
    )
}

/// A session is made where the password was accepted, and none otherwise.
pub open spec fn session_started(
    accepted: bool,
    before: Map<Seq<char>, SessionView>,
    after: Map<Seq<char>, SessionView>,
    now: u64,
    r: Result<Option<Seq<char>>, AppError>,
) -> bool {
    if accepted {
        match r {
            Ok(Some(session_id)) => session_created(before, after, now, Ok(session_id)),
            Ok(None) => false,
            Err(error) => session_created(before, after, now, Err(error)),
        }
    } else {
        r == Ok::<Option<Seq<char>>, AppError>(None) && after == before
    }
}

/// Counts an accepted or rejected password for a client address, and gives the
/// delay of the answer. An accepted one never clears the history.
pub fn account(limiter: &mut Limiter, ip: &IpAddr, accepted: bool, now: u64) -> (r: Result<
    u64,
    AppError,
>)
    ensures
        (final(limiter)@, r) == accounted(old(limiter)@, ip@, accepted, now),
{
    let outcome: LoginOutcome = if accepted {
        LoginOutcome::Accepted
    } else {
        LoginOutcome::Rejected
    };
    limiter.complete(ip, outcome, now)
}

/// Verifies either credential type. It fails exactly where the hashing does.
pub fn check(password: &Password, submitted: &str) -> (r: Result<bool, AppError>)
    ensures
        verified(password@, submitted@, r),
{
    password.verify(submitted)
}

/// Creates a fresh server-side session for accepted credentials. Its
/// identifier and token are drawn from the entropy source.
pub fn login(accepted: bool, sessions: &mut Sessions, now: u64) -> (r: Result<
    Option<String>,
    AppError,
>)
    requires
        now + SESSION_NANOS <= u64::MAX,
    ensures
        session_started(
            accepted,
            old(sessions)@,
            final(sessions)@,
            now,
            match r {
                Ok(Some(session_id)) => Ok(Some(session_id@)),
                Ok(None) => Ok(None),
                Err(error) => Err(error),
            },
        ),
{
    if accepted {
        match sessions.create_at(now) {
            Ok(session_id) => Ok(Some(session_id)),
            Err(error) => Err(error),
        }
    } else {
        Ok(None)
    }
}

}
