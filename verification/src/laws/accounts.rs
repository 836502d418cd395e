//! Sessions, passwords, tokens and the key that signs them.
use crate::auth::jobs::{
    accounted, job_next, job_run, session_started, Job, JobEvent, JobStep, MAX_ADMITTED_LOGINS,
    MAX_PASSWORD_WORKERS,
};
use crate::auth::key::{
    key_file, key_next, private_file, same_file, FileMeta, KeyEvent, KeyLoading, KeyStep,
};
use crate::auth::limiter::{pruned, recent, Failures};
use crate::auth::password::{accepts, argon2_text, profile_salt_of, stored_salt, PhcParts};
use crate::auth::sessions::{form_accepted, live_at, session_added, session_created, SessionView};
use crate::auth::tokens::{challenge_accepted, hex_text, hex_token, timed};
use crate::auth::viewer_tokens::{grant_accepted, unlock_accepted};
use crate::error::{AppError, ErrorKind};
use crate::text::decimal;
use vstd::prelude::*;

verus! {

/// Nanoseconds of so many seconds.
pub open spec fn nanos(seconds: int) -> int {
    seconds * 1_000_000_000
}

/// A session lasts for thirty days from its creation, with its own token, and
/// not a nanosecond longer; creating it leaves every other live session as it
/// is, and forgets those that are not.
pub proof fn sessions_last_thirty_days(
    store: Map<Seq<char>, SessionView>,
    id: Seq<char>,
    token: Seq<char>,
    now: u64,
    later: u64,
    other: Seq<char>,
)
    requires
        now + nanos(30 * 86_400int) <= u64::MAX,
        now <= later,
        !(store.contains_key(id) && store[id].1 > now),
        live_at(store, now).dom().len() < 1024,
    ensures
        ({
            let (after, refused) = session_added(store, id, token, now);
            &&& refused is None
            &&& live_at(after, later).contains_key(id) <==> later < now + nanos(30 * 86_400int)
            &&& after[id].0 == token
            &&& other != id ==> (after.contains_key(other) <==> store.contains_key(other)
                && store[other].1 > now) && (after.contains_key(other) ==> after[other]
                == store[other])
        }),
{
}

/// A store of 1024 live sessions takes no other, and an identifier that is in
/// use is not given again; neither changes what lives.
pub proof fn full_stores_refuse_sessions(
    store: Map<Seq<char>, SessionView>,
    id: Seq<char>,
    token: Seq<char>,
    now: u64,
)
    ensures
        live_at(store, now).dom().len() >= 1024 ==> session_added(store, id, token, now) == (
            live_at(store, now),
            Some(
                AppError {
                    kind: ErrorKind::Request(
                        503,
                        "too many active sessions; sign out another session",
                    ),
                },
            ),
        ),
        live_at(store, now).dom().len() < 1024 && store.contains_key(id) && store[id].1 > now
            ==> session_added(store, id, token, now) == (
            live_at(store, now),
            Some(AppError { kind: ErrorKind::Authentication }),
        ),
{
}

/// A form is accepted exactly in a session that lives, with that session's own
/// token in its canonical writing of 64 small hexadecimal digits.
pub proof fn forms_need_the_token_of_their_session(
    store: Map<Seq<char>, SessionView>,
    id: Seq<char>,
    token: Seq<char>,
    now: u64,
)
    ensures
        form_accepted(store, id, token, now) <==> {
            &&& store.contains_key(id) && store[id].1 > now && store[id].0 == token
            &&& token.len() == 64
            &&& forall|i: int| 0 <= i < token.len() ==> small_hex(#[trigger] token[i])
        },
{
    if forall|i: int| 0 <= i < token.len() ==> small_hex(#[trigger] token[i]) {
        assert forall|i: int| 0 <= i < token.len() implies crate::text::is_hex(
            #[trigger] token[i],
        ) by {
            assert(small_hex(token[i]));
        }
    }
    if form_accepted(store, id, token, now) {
        assert forall|i: int| 0 <= i < token.len() implies small_hex(#[trigger] token[i]) by {
            assert(crate::text::is_hex(token[i]));
        }
    }
}

/// A small hexadecimal digit.
pub open spec fn small_hex(c: char) -> bool {
    ||| '0' <= c && c <= '9'
    ||| 'a' <= c && c <= 'f'
}

/// No session starts for a password that was not accepted, and nothing changes
/// of those that there are; an accepted one starts a session or fails.
pub proof fn sessions_start_with_an_accepted_password(
    before: Map<Seq<char>, SessionView>,
    after: Map<Seq<char>, SessionView>,
    now: u64,
    r: Result<Option<Seq<char>>, AppError>,
)
    ensures
        session_started(false, before, after, now, r) ==> after == before && r == Ok::<
            Option<Seq<char>>,
            AppError,
        >(None),
        session_started(true, before, after, now, r) ==> r != Ok::<Option<Seq<char>>, AppError>(
            None,
        ),
        session_started(true, before, after, now, r) && r is Ok ==> session_created(
            before,
            after,
            now,
            Ok(r->Ok_0->0),
        ),
{
}

/// Failures are counted for ten minutes: a failure that is younger counts, and
/// one that is ten minutes old does not.
pub proof fn failures_count_for_ten_minutes(failed: u64, now: u64)
    requires
        failed <= now,
    ensures
        recent(seq![failed], now).len() == 1 <==> now - failed < nanos(600),
        recent(seq![failed], now).len() == 0 <==> now - failed >= nanos(600),
{
    assert(seq![failed].drop_last() =~= Seq::empty());
    assert(recent(Seq::empty(), now) =~= Seq::empty());
    reveal_with_fuel(recent, 2);
}

/// Failures that count are kept in order, and no others are.
pub proof fn recent_failures_are_those_that_count(history: Seq<u64>, now: u64, i: int)
    ensures
        0 <= i < recent(history, now).len() ==> now < recent(history, now)[i] + nanos(600)
            && history.contains(recent(history, now)[i]),
        0 <= i < history.len() && now < history[i] + nanos(600) ==> recent(history, now).contains(
            history[i],
        ),
        recent(history, now).len() <= history.len(),
    decreases history.len(),
{
    if history.len() > 0 {
        let front = history.drop_last();
        recent_failures_are_those_that_count(front, now, i);
        assert forall|x: u64| front.contains(x) implies history.contains(x) by {
            let k = choose|k: int| 0 <= k < front.len() && front[k] == x;
            assert(history[k] == x);
        }
        assert(history.contains(history[history.len() - 1]));
        let kept = recent(front, now);
        assert forall|x: u64| kept.contains(x) implies recent(history, now).contains(x) by {
            let k = choose|k: int| 0 <= k < kept.len() && kept[k] == x;
            assert(recent(history, now)[k] == x);
        }
        if i == history.len() - 1 && now < history[i] + nanos(600) {
            assert(recent(history, now).last() == history[i]);
        }
    }
}

/// A check is answered a second later where the address failed five times within
/// the ten minutes before it, and at once where it failed less often, whether it
/// is accepted or not.
pub proof fn the_sixth_check_waits(failures: Failures, ip: Seq<u16>, accepted: bool, now: u64)
    requires
        pruned(failures, now).contains_key(ip),
    ensures
        recent(failures[ip], now).len() >= 5 ==> accounted(failures, ip, accepted, now).1 == Ok::<
            u64,
            AppError,
        >(1_000_000_000),
        recent(failures[ip], now).len() < 5 ==> accounted(failures, ip, accepted, now).1 == Ok::<
            u64,
            AppError,
        >(0),
{
}

/// A rejected check is remembered with its moment, as the latest of at most five
/// of its address; an accepted one is not, and takes nothing away.
pub proof fn rejected_checks_are_remembered(failures: Failures, ip: Seq<u16>, now: u64)
    requires
        pruned(failures, now).dom().len() < 4096 || pruned(failures, now).contains_key(ip),
        recent(failures[ip], now).len() <= 5,
    ensures
        accounted(failures, ip, true, now).0 == pruned(failures, now),
        accounted(failures, ip, false, now).1 is Ok,
        accounted(failures, ip, false, now).0.contains_key(ip),
        accounted(failures, ip, false, now).0[ip].last() == now,
        accounted(failures, ip, false, now).0[ip].len() == if !pruned(failures, now).contains_key(
            ip,
        ) {
            1nat
        } else if recent(failures[ip], now).len() < 5 {
            recent(failures[ip], now).len() + 1
        } else {
            5
        },
{
}

/// With 4096 addresses that failed lately, a rejected check of another one is
/// turned away and nothing is forgotten for it; an accepted one is answered.
pub proof fn crowded_tables_turn_new_failures_away(failures: Failures, ip: Seq<u16>, now: u64)
    requires
        pruned(failures, now).dom().len() >= 4096,
        !pruned(failures, now).contains_key(ip),
    ensures
        accounted(failures, ip, false, now) == (
            pruned(failures, now),
            Err::<u64, AppError>(
                AppError {
                    kind: ErrorKind::Request(429, "too many login attempts; try again later"),
                },
            ),
        ),
        accounted(failures, ip, true, now) == (pruned(failures, now), Ok::<u64, AppError>(0)),
{
}

/// Password work that finds an admission and a worker is done and answered after
/// its delay; where either is taken it is refused as busy, and where it fails it
/// fails with that. Sixteen may be under way and two at work.
pub proof fn password_work_is_done_or_refused(delay: u64, error: AppError)
    ensures
        job_run(seq![JobEvent::Done, JobEvent::Done, JobEvent::Worked(0)]).job.outcome == Some(
            Ok::<(), AppError>(()),
        ),
        delay > 0 ==> job_run(seq![JobEvent::Done, JobEvent::Done, JobEvent::Worked(delay)]).job
            == (Job { step: JobStep::Delay(delay), outcome: None }),
        delay > 0 ==> job_run(
            seq![JobEvent::Done, JobEvent::Done, JobEvent::Worked(delay), JobEvent::Done],
        ).job.outcome == Some(Ok::<(), AppError>(())),
        job_run(seq![JobEvent::Exhausted]).job.outcome == Some(Err::<(), AppError>(busy())),
        job_run(seq![JobEvent::Done, JobEvent::Exhausted]).job.outcome == Some(
            Err::<(), AppError>(busy()),
        ),
        job_run(seq![JobEvent::Done, JobEvent::Done, JobEvent::Failed(error)]).job.outcome == Some(
            Err::<(), AppError>(error),
        ),
        job_run(Seq::empty()).job.step == JobStep::Enter,
        MAX_ADMITTED_LOGINS == 16,
        MAX_PASSWORD_WORKERS == 2,
{
    let none = Seq::<JobEvent>::empty();
    let one = seq![JobEvent::Done];
    let two = seq![JobEvent::Done, JobEvent::Done];
    let three = seq![JobEvent::Done, JobEvent::Done, JobEvent::Worked(delay)];
    assert(one.drop_last() =~= none);
    assert(two.drop_last() =~= one);
    assert(three.drop_last() =~= two);
    assert(seq![JobEvent::Done, JobEvent::Done, JobEvent::Worked(0)].drop_last() =~= two);
    assert(seq![
        JobEvent::Done,
        JobEvent::Done,
        JobEvent::Worked(delay),
        JobEvent::Done,
    ].drop_last() =~= three);
    assert(seq![JobEvent::Exhausted].drop_last() =~= none);
    assert(seq![JobEvent::Done, JobEvent::Exhausted].drop_last() =~= one);
    assert(seq![JobEvent::Done, JobEvent::Done, JobEvent::Failed(error)].drop_last() =~= two);
    assert(job_run(none).job.step == JobStep::Enter);
    assert(job_run(one).job.step == JobStep::TakeWorker);
    assert(job_run(two).job.step == JobStep::Work);
}

/// Password work that is told what cannot have happened fails, and work that is
/// over stays as it came out.
pub proof fn strange_events_end_password_work(job: Job, event: JobEvent)
    ensures
        job.step == JobStep::Finished ==> job_next(job, event) == job,
        job.step == JobStep::Enter && (event is Worked || event is Failed) ==> fails(
            job_next(job, event),
        ),
        job.step == JobStep::TakeWorker && (event is Worked || event is Failed) ==> fails(
            job_next(job, event),
        ),
        job.step == JobStep::Work && (event is Done || event is Exhausted) ==> fails(
            job_next(job, event),
        ),
        job.step is Delay && !(event is Done) ==> fails(job_next(job, event)),
{
}

/// A job that failed inside the server.
pub open spec fn fails(job: Job) -> bool {
    job == (Job {
        step: JobStep::Finished,
        outcome: Some(Err::<(), AppError>(AppError { kind: ErrorKind::Authentication })),
    })
}

/// The rejection of password work beyond the bounds.
pub open spec fn busy() -> AppError {
    AppError { kind: ErrorKind::Request(429, "login is busy; try again shortly") }
}

/// A key file is a regular file that its owner alone may read or read and write,
/// of 32 bytes; it stays the same file while it is worked on.
pub proof fn keys_are_private_files(meta: FileMeta, opened: FileMeta, current: FileMeta)
    ensures
        private_file(meta) <==> meta.regular && (meta.mode & 0o7777 == 0o400 || meta.mode & 0o7777
            == 0o600),
        key_file(meta) <==> private_file(meta) && meta.length == 32,
        same_file(opened, current, meta) <==> private_file(opened) && private_file(current) && (
        opened.device, opened.inode) == (meta.device, meta.inode) && (current.device, current.inode)
            == (meta.device, meta.inode),
{
    let mode = meta.mode;
    assert((mode & 0o7777) & !0o600u32 == 0 && (mode & 0o7777) & 0o400u32 != 0 <==> mode & 0o7777
        == 0o400 || mode & 0o7777 == 0o600) by (bit_vector);
}

/// A stored password is a hash of the one profile: Argon2id in version 19 with
/// 19456 KiB, two iterations and one lane, a salt of 16 bytes and a hash of 32,
/// in at most 128 bytes that say exactly that.
pub proof fn stored_passwords_keep_to_the_profile(
    encoded: Seq<char>,
    salt: Seq<u8>,
    parts: PhcParts,
)
    ensures
        stored_salt(encoded) == Some(salt) ==> {
            let found = crate::auth::password::phc_parts(encoded)->0;
            &&& crate::auth::password::phc_parts(encoded) is Some
            &&& found.0 == "argon2id"@ && found.1 == Some(19u32)
            &&& found.2 == "m="@ + decimal(19_456) + ",t="@ + decimal(2) + ",p="@ + decimal(1)
            &&& found.3 == Some(salt) && salt.len() == 16
            &&& found.4 == Some(32usize) && found.5 == encoded
            &&& vstd::utf8::encode_utf8(encoded).len() <= 128
        },
        salt.len() == 16 && parts == (
            "argon2id"@,
            Some(19u32),
            "m="@ + decimal(19_456) + ",t="@ + decimal(2) + ",p="@ + decimal(1),
            Some(salt),
            Some(32usize),
            encoded,
        ) ==> profile_salt_of(parts, encoded) == Some(salt),
        salt.len() != 16 ==> stored_salt(encoded) != Some(salt),
{
}

/// The challenge of a login is worth its own token for a quarter of an hour from
/// the second that it was made in, and no other token.
pub proof fn challenges_last_a_quarter_of_an_hour(
    token: Seq<char>,
    other: Seq<char>,
    made: u64,
    now: u64,
)
    requires
        hex_token(token, 64),
        made + 900 <= u64::MAX,
    ensures
        ({
            let payload = Some("login:"@ + token + seq![':'] + decimal((made + 900) as nat));
            &&& challenge_accepted(payload, token, now as int) <==> made <= now < made + 900
            &&& other != token ==> !challenge_accepted(payload, other, now as int)
            &&& !challenge_accepted(None, token, now as int)
        }),
{
    crate::auth::tokens::challenge_round_trip(token, other, made, now);
}

/// A grant opens its site for a week from the second that it was made in, as
/// long as the salt stays the same, and opens no other site.
pub proof fn grants_last_a_week(
    slug: Seq<char>,
    salt: Seq<u8>,
    other: Seq<char>,
    changed: Seq<u8>,
    made: u64,
    now: u64,
)
    requires
        crate::sites::validate::valid_slug(slug),
        crate::sites::validate::valid_slug(other),
        salt.len() == 16,
        changed.len() == 16,
        made + 604_800 <= u64::MAX,
    ensures
        ({
            let payload = "unlock:v1:"@ + slug + seq![':'] + hex_text(salt) + seq![':'] + decimal(
                (made + 604_800) as nat,
            );
            &&& grant_accepted(Some(payload), slug, salt, now as int) <==> made <= now < made
                + 604_800
            &&& other != slug || changed != salt ==> !grant_accepted(
                Some(payload),
                other,
                changed,
                now as int,
            )
            &&& !grant_accepted(None, slug, salt, now as int)
        }),
{
    crate::auth::viewer_tokens::grants_are_bound(slug, salt, made, slug, salt, now);
    crate::auth::viewer_tokens::grants_are_bound(slug, salt, made, other, changed, now);
}

/// The challenge of an unlock form holds its token, its site and its expiry, and
/// is accepted in the quarter of an hour before that.
pub proof fn unlock_challenges_last_a_quarter_of_an_hour(
    slug: Seq<char>,
    token: Seq<char>,
    expiry: u64,
    now: u64,
)
    requires
        hex_token(token, 64),
        expiry > 0,
    ensures
        unlock_accepted(
            Some("unlock-form:v1:"@ + slug + seq![':'] + token + seq![':'] + decimal(expiry as nat)),
            slug,
            token,
            now as int,
        ) <==> now < expiry <= now + 900,
{
    let domain = crate::auth::viewer_tokens::unlock_domain(slug);
    let text = timed(domain, token, expiry as nat);
    if unlock_accepted(Some(text), slug, token, now as int) {
        let e = choose|e: u64|
            e > 0 && crate::auth::tokens::live(e as int, now as int, 900) && text
                == #[trigger] timed(domain, token, e as nat);
        crate::auth::tokens::timed_payload_round_trip(domain, token, expiry, token, e);
    }
    if now < expiry <= now + 900 {
        assert(crate::auth::tokens::live(expiry as int, now as int, 900));
        assert(text == timed(domain, token, expiry as nat));
    }
}

/// A key is refused where its file was exchanged between two looks, where it has
/// not 32 bytes, where it can be read by others, and with whatever failed.
pub proof fn disturbed_keys_are_refused(
    k: KeyLoading,
    meta: FileMeta,
    opened: FileMeta,
    current: FileMeta,
    bytes: Vec<u8>,
    error: AppError,
)
    requires
        k.step != KeyStep::Finished,
        k.outcome is None,
    ensures
        refuses(key_next(k, KeyEvent::Failed(error)), error),
        ({
            let checks = k.step == KeyStep::CheckOpened || k.step == KeyStep::CheckRead || k.step
                == KeyStep::CheckCreated || k.step == KeyStep::CheckWritten;
            let both = KeyEvent::Both(opened, current);
            &&& !checks || k.expected is None || !same_file(opened, current, k.expected->0)
                ==> refuses(key_next(k, both), spoiled())
            &&& checks && k.expected is Some && same_file(opened, current, k.expected->0)
                ==> key_next(k, both).outcome != Some(Err::<(), AppError>(spoiled()))
        }),
        bytes@.len() != 32 || !(k.step == KeyStep::Generate || k.step == KeyStep::Read) ==> refuses(
            key_next(k, KeyEvent::Bytes(bytes)),
            spoiled(),
        ),
        bytes@.len() == 32 && (k.step == KeyStep::Generate || k.step == KeyStep::Read)
            ==> key_next(k, KeyEvent::Bytes(bytes)).master == Some(bytes) && key_next(k, KeyEvent::Bytes(bytes)).outcome is None,
        k.step == KeyStep::Stat || k.step == KeyStep::Restat ==> {
            let next = key_next(k, KeyEvent::Found(meta));
            &&& private_file(meta) && meta.length == 32 ==> next.step == KeyStep::Open
                && next.expected == Some(meta)
            &&& !private_file(meta) || meta.length != 32 ==> refuses(next, spoiled())
        },
        k.step == KeyStep::Describe ==> {
            let next = key_next(k, KeyEvent::Found(meta));
            &&& private_file(meta) ==> next.step == KeyStep::CheckCreated && next.expected == Some(
                meta,
            )
            &&& !private_file(meta) ==> refuses(next, spoiled())
        },
{
}

/// Where the file appears while it is made, what appeared is looked at; a file
/// that was there and is gone is not made again.
pub proof fn keys_are_made_once(k: KeyLoading)
    ensures
        k.step == KeyStep::Create ==> key_next(k, KeyEvent::Exists) == (KeyLoading {
            step: KeyStep::Restat,
            ..k
        }),
        k.step == KeyStep::Stat ==> key_next(k, KeyEvent::Missing) == (KeyLoading {
            step: KeyStep::Generate,
            ..k
        }),
        k.step != KeyStep::Stat && k.step != KeyStep::Finished ==> refuses(
            key_next(k, KeyEvent::Missing),
            spoiled(),
        ),
        k.step != KeyStep::Create && k.step != KeyStep::Finished ==> refuses(
            key_next(k, KeyEvent::Exists),
            spoiled(),
        ),
        k.step == KeyStep::Finished ==> key_next(k, KeyEvent::Missing) == k,
{
}

/// A key is safe to use only after its file was looked at once more behind the
/// reading, or was written, made durable, looked at and made durable in its
/// directory, in this order.
pub proof fn keys_are_safe_when_all_is_done(k: KeyLoading, meta: FileMeta, event: KeyEvent)
    requires
        k.outcome is None,
        k.expected == Some(meta),
        private_file(meta),
    ensures
        key_next(k, event).outcome == Some(Ok::<(), AppError>(())) ==> (k.step == KeyStep::CheckRead
            && event is Both) || (k.step == KeyStep::SyncDirectory && event == KeyEvent::Done),
        ({
            let same = KeyEvent::Both(meta, meta);
            &&& k.step == KeyStep::Open ==> key_next(k, KeyEvent::Done).step == KeyStep::CheckOpened
            &&& k.step == KeyStep::CheckOpened ==> key_next(k, same).step == KeyStep::Read
            &&& k.step == KeyStep::CheckRead ==> key_next(k, same).outcome == Some(
                Ok::<(), AppError>(()),
            )
            &&& k.step == KeyStep::CheckCreated ==> key_next(k, same).step == KeyStep::Write
            &&& k.step == KeyStep::Write ==> key_next(k, KeyEvent::Done).step == KeyStep::Sync
            &&& k.step == KeyStep::Sync ==> key_next(k, KeyEvent::Done).step
                == KeyStep::CheckWritten
            &&& k.step == KeyStep::CheckWritten ==> key_next(k, same).step
                == KeyStep::SyncDirectory
            &&& k.step == KeyStep::SyncDirectory ==> key_next(k, KeyEvent::Done).outcome == Some(
                Ok::<(), AppError>(()),
            )
        }),
{
}

/// A loading that ended without a key.
pub open spec fn refuses(k: KeyLoading, error: AppError) -> bool {
    k.step == KeyStep::Finished && k.outcome == Some(Err::<(), AppError>(error))
}

/// The failure of a key file that is not as it should be.
pub open spec fn spoiled() -> AppError {
    AppError { kind: ErrorKind::Storage }
}

/// An address without recent failures is forgotten, and one with some is kept
/// with those.
pub proof fn addresses_are_forgotten_with_their_failures(
    failures: Failures,
    ip: Seq<u16>,
    now: u64,
)
    ensures
        pruned(failures, now).contains_key(ip) <==> failures.contains_key(ip) && exists|i: int|
            0 <= i < failures[ip].len() && now < #[trigger] failures[ip][i] + nanos(600),
        pruned(failures, now).contains_key(ip) ==> pruned(failures, now)[ip] == recent(
            failures[ip],
            now,
        ),
{
    let history = failures[ip];
    if recent(history, now).len() > 0 {
        recent_failures_are_those_that_count(history, now, 0);
        let i = choose|i: int| 0 <= i < history.len() && history[i] == recent(history, now)[0];
        assert(now < history[i] + nanos(600));
    }
    if exists|i: int| 0 <= i < history.len() && now < #[trigger] history[i] + nanos(600) {
        let i = choose|i: int| 0 <= i < history.len() && now < #[trigger] history[i] + nanos(600);
        recent_failures_are_those_that_count(history, now, i);
        assert(recent(history, now).contains(history[i]));
    }
}

/// A password is accepted exactly where hashing it with the stored salt gives the
/// stored text, at the cost of the one profile; a text that keeps to no profile
/// accepts none.
pub proof fn passwords_are_accepted_by_their_hash(encoded: Seq<char>, password: Seq<char>)
    ensures
        stored_salt(encoded) is None ==> !accepts(encoded, password),
        stored_salt(encoded) is Some ==> (accepts(encoded, password) <==> argon2_text(
            vstd::utf8::encode_utf8(password),
            stored_salt(encoded)->0,
            19_456,
            2,
            1,
            32,
        ) == encoded),
{
}

}
