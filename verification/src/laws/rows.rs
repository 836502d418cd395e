//! What the rows of sites hold after they are published, replaced and changed,
//! and how these operations come out.
use crate::auth::password::{stored_salt, Password};
use crate::error::{AppError, ErrorKind};
use crate::sites::content::{removals, Content};
use crate::sites::delete::{deletion_run, DeleteEvent, DeleteOutcome, DeleteStep};
use crate::sites::new_site::{has_file, site_views, NewSite};
use crate::sites::publish::{
    new_row, publication_next, publication_run, publication_start, Event, Publication, Step,
};
use crate::sites::replace::{
    replaced_row, replacing_next, replacing_run, replacing_start, ReplaceEvent, ReplaceStep,
    Replacement, Replacing,
};
use crate::sites::settings::{
    kept_password, updated_row, updating_next, updating_run, updating_start, AccessUpdate, Settings,
    UpdateEvent, UpdateStep,
};
use crate::sites::sweep::expired_at;
use crate::sites::validate::Expiry;
use crate::sites::{after, page_offset, stored_access, stored_second, Site, SiteView};
use vstd::prelude::*;

verus! {

/// A new row says what was published: the slug it got, the title, the selected
/// entry, how many files there are and their size, protected exactly where
/// there is a password, and made and changed at the same second. It expires so
/// many seconds after that as were asked for, or never.
pub proof fn new_rows_say_what_was_published(
    input: NewSite,
    slug: Seq<char>,
    now: i64,
    row: Site,
)
    requires
        row.shows(new_row(input, slug, now)),
        input.files@.len() <= i64::MAX,
    ensures
        row.slug@ == slug,
        row.title@ == input.title@,
        row.entry@ == input.entry@,
        has_file(site_views(input.files@), input.entry@) ==> has_file(
            site_views(input.files@),
            row.entry@,
        ),
        row.visibility@ == if input.password is Some {
            seq!['p', 'a', 's', 's', 'w', 'o', 'r', 'd']
        } else {
            seq!['o', 'p', 'e', 'n']
        },
        row.file_count == input.files@.len(),
        row.size_bytes == input.size_bytes,
        row.created_at == now,
        row.updated_at == now,
        input.expires_in is None ==> row.expires_at is None,
        input.expires_in matches Some(seconds) ==> row.expires_at is Some && (i64::MIN <= now
            + seconds <= i64::MAX ==> row.expires_at->0 == now + seconds),
{
    reveal_strlit("open");
    reveal_strlit("password");
    assert("open"@ =~= seq!['o', 'p', 'e', 'n']);
    assert("password"@ =~= seq!['p', 'a', 's', 's', 'w', 'o', 'r', 'd']);
}

/// A replaced row has the new entry, file count, size and time of change, and
/// everything else as before.
pub proof fn replaced_rows_change_their_content_alone(row: SiteView, recorded: Replacement)
    ensures
        ({
            let after = replaced_row(row, recorded);
            &&& after.entry == recorded.entry@
            &&& after.file_count == recorded.file_count
            &&& after.size_bytes == recorded.size_bytes
            &&& after.updated_at == recorded.updated_at
            &&& after.slug == row.slug
            &&& after.title == row.title
            &&& after.protected == row.protected
            &&& after.created_at == row.created_at
            &&& after.expires_at == row.expires_at
        }),
{
}

/// A change of settings gives the row the title and entry of the settings and
/// the time of the change, leaves its content and creation alone, and moves its
/// expiry as was chosen.
pub proof fn settings_change_what_they_name(
    row: SiteView,
    settings: Settings,
    protected: bool,
    now: i64,
)
    ensures
        ({
            let after = updated_row(row, settings, protected, now);
            &&& after.title == settings.title@
            &&& after.entry == settings.entry@
            &&& after.protected == protected
            &&& after.updated_at == now
            &&& after.slug == row.slug
            &&& after.file_count == row.file_count
            &&& after.size_bytes == row.size_bytes
            &&& after.created_at == row.created_at
            &&& settings.expiry == Expiry::Keep ==> after.expires_at == row.expires_at
            &&& settings.expiry == Expiry::Never ==> after.expires_at is None
            &&& settings.expiry matches Expiry::After(seconds) ==> after.expires_at is Some && (
            i64::MIN <= now + seconds <= i64::MAX ==> after.expires_at->0 == now + seconds)
        }),
{
}

/// Opening a site leaves it without a password, keeping leaves the one it has
/// and needs one, and a new password replaces whatever was there.
pub proof fn passwords_follow_the_choice(current: Option<Password>, fresh: Password)
    ensures
        kept_password(AccessUpdate::Open, current) == Some(None::<Password>),
        current is Some ==> kept_password(AccessUpdate::Keep, current) == Some(current),
        current is None ==> kept_password(AccessUpdate::Keep, current) is None,
        kept_password(AccessUpdate::Replace(fresh), current) == Some(Some(fresh)),
{
}

/// Time that passes is added exactly, and stops at the last second that can be
/// stored.
pub proof fn seconds_add_up(now: i64, seconds: i64)
    ensures
        i64::MIN <= now + seconds <= i64::MAX ==> after(now, seconds) == now + seconds,
        now + seconds > i64::MAX ==> after(now, seconds) == 0x7fff_ffff_ffff_ffff,
        seconds >= 0 ==> after(now, seconds) >= now,
{
}

/// A site has expired from the second on that it was to expire at, and not
/// before; without such a second it never does.
pub proof fn sites_expire_at_their_second(second: i64, now: i64)
    ensures
        expired_at(Some(second), now) <==> now >= second,
        !expired_at(None, now),
{
}

/// A stored row is open, or protected by its stored password; anything else is
/// refused.
pub proof fn stored_rows_fail_closed(visibility: Seq<char>, encoded: Option<Seq<char>>)
    ensures
        visibility == seq!['o', 'p', 'e', 'n'] ==> stored_access(visibility, encoded) == Some(
            None::<Seq<char>>,
        ),
        visibility == seq!['p', 'a', 's', 's', 'w', 'o', 'r', 'd'] ==> stored_access(
            visibility,
            encoded,
        ) == if encoded is Some && stored_salt(encoded->0) is Some {
            Some(encoded)
        } else {
            None
        },
        visibility != seq!['o', 'p', 'e', 'n'] && visibility != seq![
            'p',
            'a',
            's',
            's',
            'w',
            'o',
            'r',
            'd',
        ] ==> stored_access(visibility, encoded) is None,
{
    reveal_strlit("open");
    reveal_strlit("password");
    assert("open"@ =~= seq!['o', 'p', 'e', 'n']);
    assert("password"@ =~= seq!['p', 'a', 's', 's', 'w', 'o', 'r', 'd']);
    assert("open"@.len() != "password"@.len());
}

/// The pages of the site list follow one another: the first begins at the first
/// row, and each further one twenty rows later.
pub proof fn pages_follow_one_another(page: usize)
    ensures
        page_offset(0) is None,
        page_offset(1) == Some(0i64),
        page >= 1 && page * 20 <= usize::MAX && page * 20 <= i64::MAX ==> page_offset(page) is Some && page_offset(
            (page + 1) as usize,
        ) is Some && page_offset((page + 1) as usize)->0 == page_offset(page)->0 + 20,
{
}

/// A reading of the clock is stored as the second it is, where it can be.
pub proof fn clock_readings_are_stored(now: u64)
    ensures
        now <= 0x7fff_ffff_ffff_ffff ==> stored_second(Some(now)) == Ok::<i64, AppError>(
            now as i64,
        ),
        now > 0x7fff_ffff_ffff_ffff ==> stored_second(Some(now)) is Err,
        stored_second(None) is Err,
{
}

/// What cleanup removes: staging wherever it is still there, and a destination
/// only where it was reserved, nothing was moved to it and it need not stay.
pub proof fn cleanup_removes_what_is_left(content: Content)
    ensures
        removals(content).1 == content.staged,
        removals(content).0 ==> content.reserved && content.staged && !content.preserved,
        content.reserved && content.staged && !content.preserved ==> removals(content).0,
{
}

/// So many steps that were done.
pub open spec fn all_done(n: nat) -> Seq<Event> {
    Seq::new(n, |i: int| Event::Done)
}

/// A publication whose every step is done ends with success after all its
/// files were written, whether the slug was asked for or generated.
pub proof fn undisturbed_publications_succeed(files: usize, custom: bool)
    requires
        files < usize::MAX,
    ensures
        ({
            let (p, w) = publication_run(
                publication_start(files, custom),
                all_done(files as nat + 12),
            );
            &&& p.step == Step::Finished
            &&& p.outcome == Some(Ok::<(), AppError>(()))
            &&& w.committed && w.filled && w.written == files
        }),
{
    publishing_goes_on(files, custom, files as nat + 12);
    crate::sites::publish::publication_is_all_or_nothing(
        files,
        custom,
        all_done(files as nat + 12),
    );
}

/// The step that is due after so many steps were done.
spec fn publishing_step(files: int, n: int) -> Step {
    if n == 0 {
        Step::CheckStorage
    } else if n == 1 {
        Step::MakeStaging
    } else if n == 2 {
        Step::CheckStaging
    } else if n < 3 + files {
        Step::WriteFile((n - 3) as usize)
    } else if n == 3 + files {
        Step::Lock
    } else if n == 4 + files {
        Step::ReadClock
    } else if n == 5 + files {
        Step::ChooseSlug
    } else if n == 6 + files {
        Step::Begin
    } else if n == 7 + files {
        Step::Insert
    } else if n == 8 + files {
        Step::Reserve
    } else if n == 9 + files {
        Step::Install
    } else if n == 10 + files {
        Step::Commit
    } else if n == 11 + files {
        Step::CheckCleanup
    } else {
        Step::Finished
    }
}

proof fn publishing_goes_on(files: usize, custom: bool, n: nat)
    requires
        files < usize::MAX,
        n <= files + 12,
    ensures
        ({
            let p = publication_run(publication_start(files, custom), all_done(n)).0;
            &&& p.step == publishing_step(files as int, n as int)
            &&& p.files == files
            &&& p.custom == custom
            &&& p.content.staged <==> 2 <= n < 10 + files
            &&& p.content.preserved <==> n >= 10 + files
            &&& p.outcome == if n >= 11 + files {
                Some(Ok::<(), AppError>(()))
            } else {
                None
            }
        }),
    decreases n,
{
    if n > 0 {
        publishing_goes_on(files, custom, (n - 1) as nat);
        assert(all_done(n).drop_last() =~= all_done((n - 1) as nat));
    }
}

/// A slug that is taken, as a row or as a directory, is rolled back. One that
/// was asked for is then answered as a conflict and never tried again; a
/// generated one is tried anew, eight times in all.
pub proof fn taken_slugs_are_conflicts(p: Publication)
    requires
        p.step == Step::Insert || p.step == Step::Reserve,
        p.outcome is None,
        p.slug_attempts < usize::MAX,
    ensures
        ({
            let rolled = publication_next(publication_next(p, Event::Taken), Event::Done);
            &&& p.custom ==> rolled.outcome == Some(
                Err::<(), AppError>(
                    AppError {
                        kind: ErrorKind::Request(409, "That site slug is already in use."),
                    },
                ),
            ) && rolled.step == Step::CheckCleanup
            &&& !p.custom && p.slug_attempts < 7 ==> rolled.outcome is None && rolled.step
                == Step::ChooseSlug && rolled.slug_attempts == p.slug_attempts + 1
            &&& !p.custom && p.slug_attempts >= 7 ==> rolled.outcome == Some(
                Err::<(), AppError>(AppError { kind: ErrorKind::Publishing }),
            ) && rolled.step == Step::CheckCleanup
        }),
{
}

/// A publication is answered by success, by an internal failure, or by the
/// conflict of a slug that was asked for, and by nothing else.
pub proof fn publications_fail_in_known_ways(files: usize, custom: bool, events: Seq<Event>)
    ensures
        ({
            let p = publication_run(publication_start(files, custom), events).0;
            &&& p.outcome matches Some(Err(error)) ==> error == (AppError {
                kind: ErrorKind::Publishing,
            }) || custom && error == (AppError {
                kind: ErrorKind::Request(409, "That site slug is already in use."),
            })
            &&& p.custom == custom
        }),
    decreases events.len(),
{
    if events.len() > 0 {
        publications_fail_in_known_ways(files, custom, events.drop_last());
    }
}

/// A step of a publication that is not done makes it fail: at once, after
/// cleanup, or after what was begun in the database is rolled back.
pub proof fn failed_steps_are_not_forgotten(p: Publication, event: Event, second: Event)
    requires
        p.outcome is None,
        event != Event::Done,
        p.step == Step::CheckStorage || p.step == Step::CheckStaging || (
        p.step matches Step::WriteFile(_)) || p.step == Step::ReadClock || p.step
            == Step::ChooseSlug || p.step == Step::Begin || p.step == Step::Install || p.step
            == Step::Commit || p.step == Step::RollbackTaken || p.step == Step::RollbackFailed || (
        event == Event::Failed && (p.step == Step::MakeStaging || p.step == Step::Insert || p.step
            == Step::Reserve)),
    ensures
        ({
            let next = publication_next(p, event);
            let begun = p.step == Step::Insert || p.step == Step::Reserve || p.step
                == Step::Install;
            &&& begun ==> next.outcome is None && next.step == Step::RollbackFailed
                && publication_next(next, second).outcome == Some(
                Err::<(), AppError>(AppError { kind: ErrorKind::Publishing }),
            )
            &&& !begun ==> next.outcome == Some(
                Err::<(), AppError>(AppError { kind: ErrorKind::Publishing }),
            )
            &&& next.step == if begun {
                Step::RollbackFailed
            } else if p.step == Step::CheckStorage || p.step == Step::MakeStaging {
                Step::Finished
            } else {
                Step::CheckCleanup
            }
        }),
{
}

/// Cleanup removes a reserved destination and staging where they are left, and
/// does not change how a publication came out, unless it fails itself.
pub proof fn cleanup_decides_nothing_but_its_own_failure(p: Publication, event: Event)
    requires
        p.outcome is Some,
        event != Event::Done,
    ensures
        p.step == Step::CheckCleanup ==> {
            let next = publication_next(p, Event::Done);
            &&& next.outcome == p.outcome
            &&& next.step == if p.content.staged && p.content.reserved && !p.content.preserved {
                Step::RemoveReservation
            } else if p.content.staged {
                Step::RemoveStaging
            } else {
                Step::Finished
            }
        },
        p.step == Step::RemoveReservation ==> publication_next(p, Event::Done) == (Publication {
            step: Step::RemoveStaging,
            ..p
        }) && publication_next(p, event).step == Step::RemoveStaging,
        p.step == Step::RemoveStaging ==> publication_next(p, Event::Done) == (Publication {
            step: Step::Finished,
            ..p
        }) && publication_next(p, event).step == Step::Finished,
        p.step == Step::CheckCleanup ==> publication_next(p, event).step == Step::Finished,
        p.step == Step::CheckCleanup || p.step == Step::RemoveReservation || p.step
            == Step::RemoveStaging ==> publication_next(p, event).outcome == Some(
            Err::<(), AppError>(AppError { kind: ErrorKind::Publishing }),
        ),
        p.step == Step::Finished ==> publication_next(p, event) == p && publication_next(
            p,
            Event::Done,
        ) == p,
{
}

/// The cleanup of a replacement does the same; content that was parked and could
/// not be removed or put back is no reason to call a replacement done.
pub proof fn replacements_clean_up_alike(p: Replacing, event: ReplaceEvent)
    requires
        event != ReplaceEvent::Done,
    ensures
        p.step == ReplaceStep::CheckCleanup ==> {
            let next = replacing_next(p, ReplaceEvent::Done);
            &&& next.outcome == p.outcome
            &&& next.step == if p.content.staged {
                ReplaceStep::RemoveStaging
            } else {
                ReplaceStep::Finished
            }
        },
        p.step == ReplaceStep::RemoveStaging ==> replacing_next(p, ReplaceEvent::Done) == (
        Replacing { step: ReplaceStep::Finished, ..p }),
        p.step == ReplaceStep::CheckCleanup || p.step == ReplaceStep::RemoveStaging
            ==> replacing_next(p, event).step == ReplaceStep::Finished && replacing_next(
            p,
            event,
        ).outcome == Some(Err::<bool, AppError>(AppError { kind: ErrorKind::Publishing })),
        p.step == ReplaceStep::RemoveParked ==> replacing_next(p, event).outcome == Some(
            Ok::<bool, AppError>(true),
        ),
        p.step == ReplaceStep::Unpark || p.step is TakeOut || p.step is PutBack ==> replacing_next(
            p,
            event,
        ).outcome == Some(Err::<bool, AppError>(AppError { kind: ErrorKind::Publishing }))
            && replacing_next(p, event).step == ReplaceStep::CheckCleanup,
        p.step is PutBack ==> replacing_next(p, ReplaceEvent::Done).content.staged,
        p.step == ReplaceStep::Finished ==> replacing_next(p, event) == p,
{
}

/// A step of a change of settings that fails makes it fail, and nothing more is
/// done.
pub proof fn failed_changes_are_failures(p: crate::sites::settings::Updating)
    requires
        p.step != UpdateStep::Lock,
        p.step != UpdateStep::Finished,
    ensures
        updating_next(p, UpdateEvent::Failed).step == UpdateStep::Finished,
        updating_next(p, UpdateEvent::Failed).outcome == Some(
            Err::<bool, AppError>(AppError { kind: ErrorKind::Publishing }),
        ),
        p.step == UpdateStep::Save ==> updating_next(p, UpdateEvent::Absent).outcome == Some(
            Err::<bool, AppError>(AppError { kind: ErrorKind::Publishing }),
        ),
        p.step == UpdateStep::CheckStorage || p.step == UpdateStep::CheckDirectory || p.step
            == UpdateStep::ReadClock || p.step == UpdateStep::ReadDetails ==> updating_next(
            p,
            UpdateEvent::Absent,
        ).outcome == Some(Err::<bool, AppError>(AppError { kind: ErrorKind::Publishing })),
{
}

/// A staging name that is taken is tried again, eight times in all, and none was
/// tried at the start.
pub proof fn staging_names_are_tried_again(
    p: Publication,
    q: Replacing,
    files: usize,
    custom: bool,
)
    requires
        p.step == Step::MakeStaging,
        q.step == ReplaceStep::MakeStaging,
        p.staging_attempts < usize::MAX,
        q.staging_attempts < usize::MAX,
    ensures
        publication_start(files, custom).staging_attempts == 0,
        publication_start(files, custom).slug_attempts == 0,
        replacing_start(files).staging_attempts == 0,
        p.staging_attempts < 7 ==> publication_next(p, Event::Taken) == (Publication {
            staging_attempts: (p.staging_attempts + 1) as usize,
            ..p
        }),
        p.staging_attempts >= 7 ==> publication_next(p, Event::Taken).step == Step::Finished
            && publication_next(p, Event::Taken).outcome matches Some(Err(_)),
        q.staging_attempts < 7 ==> replacing_next(q, ReplaceEvent::Absent) == (Replacing {
            staging_attempts: (q.staging_attempts + 1) as usize,
            ..q
        }),
        q.staging_attempts >= 7 ==> replacing_next(q, ReplaceEvent::Absent).step
            == ReplaceStep::Finished && replacing_next(q, ReplaceEvent::Absent).outcome matches Some(
            Err(_),
        ),
{
}

/// So many steps of a replacement that were done.
pub open spec fn all_replaced(n: nat) -> Seq<ReplaceEvent> {
    Seq::new(n, |i: int| ReplaceEvent::Done)
}

/// A replacement whose every step is done ends with success after all its
/// files were written.
pub proof fn undisturbed_replacements_succeed(files: usize)
    requires
        files < usize::MAX,
    ensures
        ({
            let (p, w) = replacing_run(replacing_start(files), all_replaced(files as nat + 11));
            &&& p.step == ReplaceStep::Finished
            &&& p.outcome == Some(Ok::<bool, AppError>(true))
            &&& w.recorded && w.written == files
        }),
{
    replacing_goes_on(files, files as nat + 11);
    crate::sites::replace::replacement_restores_previous_content(
        files,
        all_replaced(files as nat + 11),
    );
}

spec fn replacing_step(files: int, n: int) -> ReplaceStep {
    if n == 0 {
        ReplaceStep::CheckStorage
    } else if n == 1 {
        ReplaceStep::MakeStaging
    } else if n == 2 {
        ReplaceStep::CheckStaging
    } else if n < 3 + files {
        ReplaceStep::WriteFile((n - 3) as usize)
    } else if n == 3 + files {
        ReplaceStep::Lock
    } else if n == 4 + files {
        ReplaceStep::FindRow
    } else if n == 5 + files {
        ReplaceStep::ReadClock
    } else if n == 6 + files {
        ReplaceStep::CheckSwap
    } else if n == 7 + files {
        ReplaceStep::Park
    } else if n == 8 + files {
        ReplaceStep::MoveIn
    } else if n == 9 + files {
        ReplaceStep::Record
    } else if n == 10 + files {
        ReplaceStep::RemoveParked
    } else {
        ReplaceStep::Finished
    }
}

proof fn replacing_goes_on(files: usize, n: nat)
    requires
        files < usize::MAX,
        n <= files + 11,
    ensures
        ({
            let p = replacing_run(replacing_start(files), all_replaced(n)).0;
            &&& p.step == replacing_step(files as int, n as int)
            &&& p.files == files
            &&& p.outcome == if n >= 11 + files {
                Some(Ok::<bool, AppError>(true))
            } else {
                None
            }
        }),
    decreases n,
{
    if n > 0 {
        replacing_goes_on(files, (n - 1) as nat);
        assert(all_replaced(n).drop_last() =~= all_replaced((n - 1) as nat));
    }
}

/// How a replacement that could not be done comes out: a site without a row is
/// not replaced and that is no failure, whether the row is missed before the
/// swap or after it; every other step that fails makes it fail.
pub proof fn replacements_of_nothing_are_no_failures(p: Replacing, event: ReplaceEvent)
    requires
        p.outcome is None,
    ensures
        p.step == ReplaceStep::FindRow ==> replacing_next(p, ReplaceEvent::Absent).outcome == Some(
            Ok::<bool, AppError>(false),
        ),
        p.step == ReplaceStep::Record ==> replacing_next(
            replacing_next(replacing_next(p, ReplaceEvent::Absent), ReplaceEvent::Done),
            ReplaceEvent::Done,
        ).outcome == Some(Ok::<bool, AppError>(false)),
        p.step == ReplaceStep::Record ==> replacing_next(
            replacing_next(replacing_next(p, ReplaceEvent::Failed), ReplaceEvent::Done),
            ReplaceEvent::Done,
        ).outcome == Some(Err::<bool, AppError>(AppError { kind: ErrorKind::Publishing })),
        p.step == ReplaceStep::CheckStorage || p.step == ReplaceStep::CheckStaging || (
        p.step matches ReplaceStep::WriteFile(_)) || p.step == ReplaceStep::FindRow || p.step
            == ReplaceStep::ReadClock || p.step == ReplaceStep::CheckSwap || p.step
            == ReplaceStep::Park ==> replacing_next(p, ReplaceEvent::Failed).outcome == Some(
            Err::<bool, AppError>(AppError { kind: ErrorKind::Publishing }),
        ),
        p.step == ReplaceStep::MoveIn && event != ReplaceEvent::Done ==> replacing_next(
            p,
            event,
        ).step == ReplaceStep::Unpark && replacing_next(
            replacing_next(p, event),
            ReplaceEvent::Done,
        ).outcome == Some(Err::<bool, AppError>(AppError { kind: ErrorKind::Publishing })),
{
}

/// A change of settings whose every step is done ends with success, on an open
/// site and, where the password is kept, on a protected one. An absent site is
/// no failure, keeping a password that there is not is rejected, and so is an
/// entry that is not there.
pub proof fn undisturbed_settings_are_saved(keeps: bool, lock: UpdateEvent)
    ensures
        ({
            let read = if keeps {
                UpdateEvent::Protected
            } else {
                UpdateEvent::Done
            };
            let done = UpdateEvent::Done;
            let all = seq![lock, read, done, done, done, done, done, done];
            let p = updating_run(updating_start(keeps), all).0;
            p.step == UpdateStep::Finished && p.outcome == Some(Ok::<bool, AppError>(true))
        }),
        updating_run(updating_start(keeps), seq![lock, UpdateEvent::Absent]).0.outcome == Some(
            Ok::<bool, AppError>(false),
        ),
        keeps ==> updating_run(updating_start(keeps), seq![lock, UpdateEvent::Done]).0.outcome
            == Some(
            Err::<bool, AppError>(
                AppError {
                    kind: ErrorKind::Request(400, "Enter a new password to enable protection."),
                },
            ),
        ),
{
    let read = if keeps {
        UpdateEvent::Protected
    } else {
        UpdateEvent::Done
    };
    let done = UpdateEvent::Done;
    let start = updating_start(keeps);
    let e0: Seq<UpdateEvent> = Seq::empty();
    let e1 = e0.push(lock);
    let e2 = e1.push(read);
    let e3 = e2.push(done);
    let e4 = e3.push(done);
    let e5 = e4.push(done);
    let e6 = e5.push(done);
    let e7 = e6.push(done);
    let e8 = e7.push(done);
    assert(e1.drop_last() =~= e0);
    assert(e2.drop_last() =~= e1);
    assert(e3.drop_last() =~= e2);
    assert(e4.drop_last() =~= e3);
    assert(e5.drop_last() =~= e4);
    assert(e6.drop_last() =~= e5);
    assert(e7.drop_last() =~= e6);
    assert(e8.drop_last() =~= e7);
    assert(updating_run(start, e0).0 == start);
    assert(updating_run(start, e1).0.step == UpdateStep::ReadAccess);
    assert(updating_run(start, e2).0.step == UpdateStep::CheckStorage);
    assert(updating_run(start, e3).0.step == UpdateStep::CheckDirectory);
    assert(updating_run(start, e4).0.step == UpdateStep::StatEntry);
    assert(updating_run(start, e5).0.step == UpdateStep::ReadClock);
    assert(updating_run(start, e6).0.step == UpdateStep::Save);
    assert(updating_run(start, e7).0.step == UpdateStep::ReadDetails);
    assert(e8 =~= seq![lock, read, done, done, done, done, done, done]);
    let absent = e1.push(UpdateEvent::Absent);
    assert(absent.drop_last() =~= e1);
    assert(absent =~= seq![lock, UpdateEvent::Absent]);
    let unprotected = e1.push(done);
    assert(unprotected.drop_last() =~= e1);
    assert(unprotected =~= seq![lock, UpdateEvent::Done]);
}

/// An entry that is no file of the site is rejected before anything is saved.
pub proof fn settings_need_an_entry_that_is_there(p: crate::sites::settings::Updating)
    requires
        p.step == UpdateStep::StatEntry,
    ensures
        updating_next(p, UpdateEvent::Absent).outcome == Some(
            Err::<bool, AppError>(
                AppError {
                    kind: ErrorKind::Request(
                        400,
                        "Enter the exact filename of an existing site file.",
                    ),
                },
            ),
        ),
        updating_next(p, UpdateEvent::Absent).step == UpdateStep::Finished,
{
}

/// How a deletion comes out. It is done where the row went and its directory
/// went or was not there; content that could not be removed is reported as
/// retained; and without a row there is nothing to delete.
pub proof fn deletions_come_out_as_they_went(lock: DeleteEvent, broken: DeleteEvent)
    requires
        broken != DeleteEvent::Done,
    ensures
        ({
            let done = DeleteEvent::Done;
            let absent = DeleteEvent::Absent;
            let failed = DeleteEvent::Failed;
            let deleted = Some(Ok::<DeleteOutcome, AppError>(DeleteOutcome::Deleted));
            let retained = Some(
                Ok::<DeleteOutcome, AppError>(DeleteOutcome::DeletedContentRetained),
            );
            let missing = Some(Ok::<DeleteOutcome, AppError>(DeleteOutcome::NotFound));
            let failure = Some(
                Err::<DeleteOutcome, AppError>(AppError { kind: ErrorKind::Publishing }),
            );
            &&& deletion_run(seq![lock, done, done, done, done, done]).0.outcome == deleted
            &&& deletion_run(seq![lock, done, done, done, absent]).0.outcome == deleted
            &&& deletion_run(seq![lock, done, done, done, done, broken]).0.outcome == retained
            &&& deletion_run(seq![lock, done, done, done, failed]).0.outcome == retained
            &&& deletion_run(seq![lock, done, done, broken]).0.outcome == retained
            &&& deletion_run(seq![lock, absent]).0.outcome == missing
            &&& deletion_run(seq![lock, done, absent]).0.outcome == missing
            &&& deletion_run(seq![lock, failed]).0.outcome == failure
            &&& deletion_run(seq![lock, done, failed]).0.outcome == failure
        }),
{
    let done = DeleteEvent::Done;
    let absent = DeleteEvent::Absent;
    let failed = DeleteEvent::Failed;
    let e0: Seq<DeleteEvent> = Seq::empty();
    let e1 = e0.push(lock);
    let e2 = e1.push(done);
    let e3 = e2.push(done);
    let e4 = e3.push(done);
    let e5 = e4.push(done);
    let e6 = e5.push(done);
    assert(e1.drop_last() =~= e0);
    assert(e2.drop_last() =~= e1);
    assert(e3.drop_last() =~= e2);
    assert(e4.drop_last() =~= e3);
    assert(e5.drop_last() =~= e4);
    assert(e6.drop_last() =~= e5);
    assert(deletion_run(e0).0.step == DeleteStep::Lock);
    assert(deletion_run(e1).0.step == DeleteStep::FindRow);
    assert(deletion_run(e2).0.step == DeleteStep::DeleteRow);
    assert(deletion_run(e3).0.step == DeleteStep::CheckStorage);
    assert(deletion_run(e4).0.step == DeleteStep::StatDirectory);
    assert(deletion_run(e5).0.step == DeleteStep::RemoveDirectory);
    assert(e6 =~= seq![lock, done, done, done, done, done]);
    assert(e4.push(absent).drop_last() =~= e4);
    assert(e4.push(absent) =~= seq![lock, done, done, done, absent]);
    assert(e5.push(broken).drop_last() =~= e5);
    assert(e5.push(broken) =~= seq![lock, done, done, done, done, broken]);
    assert(e4.push(failed).drop_last() =~= e4);
    assert(e4.push(failed) =~= seq![lock, done, done, done, failed]);
    assert(e3.push(broken).drop_last() =~= e3);
    assert(e3.push(broken) =~= seq![lock, done, done, broken]);
    assert(e1.push(absent).drop_last() =~= e1);
    assert(e1.push(absent) =~= seq![lock, absent]);
    assert(e2.push(absent).drop_last() =~= e2);
    assert(e2.push(absent) =~= seq![lock, done, absent]);
    assert(e1.push(failed).drop_last() =~= e1);
    assert(e1.push(failed) =~= seq![lock, failed]);
    assert(e2.push(failed).drop_last() =~= e2);
    assert(e2.push(failed) =~= seq![lock, done, failed]);
}

}
