//! Credentials, tokens, sessions, failure history, jobs and the signing key.
use pagebin::auth::jobs::{account, check, login, Job, JobEvent, JobStep};
use pagebin::auth::key::{
    generate, validate_metadata, validate_opened, FileMeta, KeyEvent, KeyLoading, KeyStep,
};
use pagebin::auth::limiter::{Limiter, LoginOutcome, FAILURE_DELAY, FAILURE_WINDOW, MAX_FAILURE_IPS};
use pagebin::auth::password::{validate_site_password, Password, MAX_ENCODED_HASH_CHARS};
use pagebin::auth::sessions::{Sessions, MAX_SESSIONS, SESSION_NANOS};
use pagebin::auth::tokens::{
    self, challenge, challenge_token, hex_encode, random_token, valid_token, verify_challenge,
    verify_challenge_at, TOKEN_CHARS,
};
use pagebin::auth::viewer_tokens::{
    verify_viewer_challenge, verify_viewer_challenge_at, verify_viewer_grant,
    verify_viewer_grant_at, viewer_challenge, viewer_challenge_token, viewer_grant,
};
use pagebin::auth::{CHALLENGE_LIFETIME, MASTER_KEY_BYTES, VIEWER_GRANT_LIFETIME};
use pagebin::error::{AppError, ErrorKind};
use pagebin::ip::IpAddr;
use pagebin::sites::validate::Slug;

const CANONICAL_HASH: &str =
    "$argon2id$v=19$m=19456,t=2,p=1$AAECAwQFBgcICQoLDA0ODw$AAAAAAAAAAAAAAAAAAAAAAAAAAAAAAAAAAAAAAAAAAA";

fn status(error: AppError) -> u16 {
    error.into_response().0
}

#[test]
fn auth_password_hash_verifies_only_the_original_password() {
    let password = Password::new("synthetic-password".into()).unwrap();
    assert!(password.verify("synthetic-password").unwrap());
    assert!(!password.verify("incorrect").unwrap());
    let restored = Password::from_encoded(password.encoded().to_owned()).unwrap();
    assert!(password.same_generation(&restored));
}

#[test]
fn auth_password_rejects_malformed_or_unsupported_stored_hashes() {
    assert!(Password::from_encoded(CANONICAL_HASH.to_owned()).is_ok());
    for invalid in [
        String::new(),
        "malformed-hash".to_owned(),
        "a".repeat(MAX_ENCODED_HASH_CHARS + 1),
        CANONICAL_HASH.replace("argon2id", "argon2i"),
        CANONICAL_HASH.replace("m=19456", "m=8"),
        CANONICAL_HASH.replace("AAECAwQFBgcICQoLDA0ODw", "AAECAwQFBgc"),
        format!("{CANONICAL_HASH}\n"),
    ] {
        assert!(Password::from_encoded(invalid).is_err());
    }
}

#[test]
fn a_fresh_salt_makes_a_new_generation_of_the_same_password() {
    let first = Password::new("synthetic-password".into()).unwrap();
    let second = Password::new("synthetic-password".into()).unwrap();
    assert!(!first.same_generation(&second));
    assert_ne!(first.encoded(), second.encoded());
    assert!(first.encoded().starts_with("$argon2id$v=19$m=19456,t=2,p=1$"));
    assert_eq!(first.encoded().len(), 97);
    assert!(check(&second, "synthetic-password").unwrap());
    assert!(!check(&second, "synthetic-passwor").unwrap());
}

#[test]
fn a_salt_is_named_by_its_sixteen_bytes_in_hexadecimal() {
    let password = Password::from_encoded(CANONICAL_HASH.to_owned()).unwrap();
    assert_eq!(password.salt_id(), "000102030405060708090a0b0c0d0e0f");
    assert_eq!(password.copy().encoded(), CANONICAL_HASH);
}

#[test]
fn site_passwords_stay_on_one_line_and_within_their_bound() {
    assert!(validate_site_password("x").is_ok());
    assert!(validate_site_password(&"x".repeat(131_072)).is_ok());
    for invalid in ["", "a\nb", "a\rb", "a\0b", &"x".repeat(131_073)] {
        let error = validate_site_password(invalid).err().unwrap();
        assert_eq!(error.into_response(), (400, "Invalid site password."));
    }
}

#[test]
fn auth_tokens_are_fresh_fixed_length_and_strictly_encoded() {
    let first = random_token().unwrap();
    let second = random_token().unwrap();
    assert!(valid_token(&first));
    assert!(first != second);
    assert!(tokens::matches(&first, &first));
    assert!(!tokens::matches(&first, &second));
    for invalid in ["", &"A".repeat(TOKEN_CHARS), &"g".repeat(TOKEN_CHARS)] {
        assert!(!valid_token(invalid));
        assert!(!tokens::matches(&first, invalid));
    }
}

#[test]
fn hexadecimal_has_two_small_digits_for_every_byte() {
    assert_eq!(hex_encode(&[0x00, 0x0f, 0xa9, 0xff]), "000fa9ff");
    assert_eq!(hex_encode(&[]), "");
}

#[test]
fn auth_challenge_round_trip_and_missing_or_tampered_token() {
    let payload = challenge().unwrap();
    let token = challenge_token(&payload).unwrap();
    assert!(verify_challenge(Some(&payload), token));
    assert!(!verify_challenge(None, token));
    assert!(!verify_challenge(Some(&payload), &random_token().unwrap()));
}

#[test]
fn auth_challenge_rejects_noncanonical_or_out_of_bounds_expiry() {
    const NOW: u64 = 1_000_000;
    let token = random_token().unwrap();
    let expiry = NOW + CHALLENGE_LIFETIME;
    let payload = format!("login:{token}:{expiry}");
    assert!(challenge_token(&format!("{token}:{expiry}")).is_none());
    assert!(challenge_token(&format!("viewer:{token}:{expiry}")).is_none());
    assert!(verify_challenge_at(Some(&payload), &token, NOW));
    assert!(verify_challenge_at(Some(&payload), &token, expiry - 1));
    assert!(!verify_challenge_at(Some(&payload), &token, expiry));
    assert!(!verify_challenge_at(Some(&payload), &token, expiry + 1));
    assert!(!verify_challenge_at(Some(&payload), &token, NOW - 1));
    for timestamp in [
        "",
        "0",
        "01",
        "+1000001",
        "1000001:1",
        "18446744073709551616",
    ] {
        let invalid = format!("login:{token}:{timestamp}");
        assert!(challenge_token(&invalid).is_none());
        assert!(!verify_challenge_at(Some(&invalid), &token, NOW));
    }
    assert!(challenge_token(&format!("login:{}:1000001", "a".repeat(TOKEN_CHARS - 1))).is_none());
}

#[test]
fn auth_viewer_grant_round_trips_and_rejects_tampering() {
    let slug = Slug::parse("private-site").ok().unwrap();
    let other = Slug::parse("other-site").ok().unwrap();
    let password = Password::from_encoded(CANONICAL_HASH.to_owned()).unwrap();
    let reset = Password::from_encoded(CANONICAL_HASH.replace("DA0ODw", "DA0ODA")).unwrap();
    let grant = viewer_grant(&slug, &password).unwrap();
    let forged = format!("{grant}0");
    assert!(verify_viewer_grant(Some(&grant), &slug, &password));
    assert!(!verify_viewer_grant(Some(&grant), &other, &password));
    assert!(!verify_viewer_grant(Some(&grant), &slug, &reset));
    assert!(!verify_viewer_grant(Some(&forged), &slug, &password));
    assert!(!verify_viewer_grant(None, &slug, &password));
}

#[test]
fn auth_viewer_grant_rejects_expired_or_overlong_payloads() {
    const NOW: u64 = 1_000_000;
    let slug = Slug::parse("private-site").ok().unwrap();
    let password = Password::from_encoded(CANONICAL_HASH.to_owned()).unwrap();
    let expiry = NOW + VIEWER_GRANT_LIFETIME;
    let payload = format!("unlock:v1:private-site:{}:{expiry}", password.salt_id());
    let valid = |now| verify_viewer_grant_at(Some(&payload), &slug, &password, now);
    assert!(valid(NOW) && valid(expiry - 1));
    assert!(!valid(expiry) && !valid(NOW - 1));
}

#[test]
fn viewer_grants_reject_forged_domains_salts_and_expiries() {
    const NOW: u64 = 1_000_000;
    let slug = Slug::parse("private-site").ok().unwrap();
    let password = Password::from_encoded(CANONICAL_HASH.to_owned()).unwrap();
    let salt = password.salt_id();
    for invalid in [
        format!("login:v1:private-site:{salt}:1000001"),
        format!("unlock:v2:private-site:{salt}:1000001"),
        format!("unlock:v1:other-private-site:{salt}:1000001"),
        format!("unlock:v1:private-site:{}:1000001", "a".repeat(31)),
        format!("unlock:v1:private-site:{}:1000001", "A".repeat(32)),
        format!("unlock:v1:private-site:{salt}:0"),
        format!("unlock:v1:private-site:{salt}:+1000001"),
        format!("unlock:v1:private-site:{salt}:999999999999999999999999999999"),
        format!("unlock:v1:private-site:{salt}:1000001:extra"),
    ] {
        assert!(!verify_viewer_grant_at(Some(&invalid), &slug, &password, NOW), "{invalid}");
    }
}

#[test]
fn unlock_challenges_are_bound_to_their_site() {
    let slug = Slug::parse("private-site").ok().unwrap();
    let other = Slug::parse("other-site").ok().unwrap();
    let payload = viewer_challenge(&slug).unwrap();
    let token = viewer_challenge_token(&payload, &slug).unwrap();
    assert!(verify_viewer_challenge(Some(&payload), &slug, token));
    assert!(!verify_viewer_challenge(Some(&payload), &other, token));
    assert!(!verify_viewer_challenge(None, &slug, token));
    assert!(viewer_challenge_token(&payload, &other).is_none());
    let written = format!("unlock-form:v1:private-site:{token}:1000900");
    assert!(verify_viewer_challenge_at(Some(&written), &slug, token, 1_000_000));
    assert!(!verify_viewer_challenge_at(Some(&written), &slug, token, 1_000_900));
    assert!(!verify_viewer_challenge_at(Some(&written), &slug, token, 999_999));
}

#[test]
fn sessions_live_until_their_deadline_and_logout_revokes_them() {
    let mut sessions = Sessions::new();
    let id = sessions.create_at(1_000).unwrap();
    assert_eq!(sessions.len(), 1);
    let token = sessions.csrf_at(&id, 1_000 + SESSION_NANOS - 1).unwrap();
    assert!(valid_token(&token) && token != id);
    assert!(sessions.verify_at(&id, &token, 2_000));
    assert!(!sessions.verify_at(&id, &id, 2_000));
    assert!(!sessions.logout_at(&id, "wrong", 2_000));
    assert!(sessions.logout_at(&id, &token, 2_000));
    assert!(!sessions.verify_at(&id, &token, 2_000));
    assert!(sessions.csrf_at(&id, 2_000).is_none());
    let second = sessions.create_at(1_000).unwrap();
    assert!(sessions.csrf_at(&second, 1_000 + SESSION_NANOS).is_none());
    assert_eq!(sessions.len(), 0);
}

#[test]
fn a_full_session_store_displaces_nothing() {
    let mut sessions = Sessions::new();
    for index in 0..MAX_SESSIONS {
        let id = format!("{index:064}");
        assert!(sessions.create_with(id, "t".repeat(64), 5).is_ok());
    }
    let refused = sessions.create_with("f".repeat(64), "t".repeat(64), 6).err().unwrap();
    assert_eq!(status(refused), 503);
    assert_eq!(sessions.len(), MAX_SESSIONS);
    assert!(sessions.csrf_at(&format!("{:064}", 0), 6).is_some());
    let later = 5 + SESSION_NANOS;
    assert!(sessions.create_with("f".repeat(64), "t".repeat(64), later).is_ok());
    assert_eq!(sessions.len(), 1);
}

#[test]
fn five_recent_failures_delay_and_success_keeps_history() {
    let ip = IpAddr::v4(192, 0, 2, 10);
    let mut limiter = Limiter::new();
    for _ in 0..5 {
        assert_eq!(limiter.complete(&ip, LoginOutcome::Rejected, 1_000).unwrap(), 0);
    }
    assert_eq!(account(&mut limiter, &ip, true, 1_001).unwrap(), FAILURE_DELAY);
    assert_eq!(account(&mut limiter, &ip, false, 1_002).unwrap(), FAILURE_DELAY);
    let other = IpAddr::v4(192, 0, 2, 11);
    assert_eq!(account(&mut limiter, &other, false, 1_002).unwrap(), 0);
    let late = 1_002 + FAILURE_WINDOW;
    assert_eq!(account(&mut limiter, &ip, true, late).unwrap(), 0);
    assert_eq!(limiter.len(), 0);
}

#[test]
fn live_failure_windows_are_never_evicted() {
    let mut limiter = Limiter::new();
    for index in 0..MAX_FAILURE_IPS {
        let ip = IpAddr::v4(10, 0, (index / 256) as u8, (index % 256) as u8);
        assert_eq!(limiter.complete(&ip, LoginOutcome::Rejected, 7).unwrap(), 0);
    }
    let newcomer = IpAddr::v4(203, 0, 113, 1);
    let refused = limiter.complete(&newcomer, LoginOutcome::Rejected, 8).err().unwrap();
    assert_eq!(refused.into_response(), (429, "too many login attempts; try again later"));
    let known = IpAddr::v4(10, 0, 0, 0);
    assert!(limiter.complete(&known, LoginOutcome::Rejected, 8).is_ok());
    assert!(limiter.complete(&newcomer, LoginOutcome::Accepted, 8).is_ok());
}

#[test]
fn delays_follow_the_failures_of_the_last_ten_minutes() {
    let ip = IpAddr::v4(192, 0, 2, 10);
    let other = IpAddr::v4(192, 0, 2, 11);
    let minute = 60_000_000_000;
    let mut limiter = Limiter::new();
    let mut answers = Vec::new();
    for at in 0..8 {
        limiter.complete(&other, LoginOutcome::Rejected, at * minute).unwrap();
        answers.push(limiter.complete(&ip, LoginOutcome::Rejected, at * minute).unwrap());
        limiter.complete(&ip, LoginOutcome::Accepted, at * minute).unwrap();
    }
    assert_eq!(answers[..5], [0; 5]);
    assert_eq!(answers[5..], [FAILURE_DELAY; 3]);
    let fourth = 3 * minute + FAILURE_WINDOW;
    assert_eq!(limiter.complete(&ip, LoginOutcome::Accepted, fourth - 1).unwrap(), FAILURE_DELAY);
    assert_eq!(limiter.complete(&ip, LoginOutcome::Accepted, fourth).unwrap(), 0);
}

#[test]
fn refused_jobs_never_work_and_delays_hold_no_worker() {
    let busy = Job::new().next(JobEvent::Exhausted);
    assert_eq!(busy.step, JobStep::Finished);
    let error = busy.outcome.unwrap().err().unwrap();
    assert_eq!(error.into_response(), (429, "login is busy; try again shortly"));
    let job = Job::new().next(JobEvent::Done);
    assert_eq!(job.step, JobStep::TakeWorker);
    assert_eq!(status(job.next(JobEvent::Exhausted).outcome.unwrap().err().unwrap()), 429);
    let working = job.next(JobEvent::Done);
    assert_eq!(working.step, JobStep::Work);
    assert!(working.next(JobEvent::Worked(0)).outcome.unwrap().is_ok());
    let delayed = working.next(JobEvent::Worked(9));
    assert_eq!(delayed.step, JobStep::Delay(9));
    assert!(delayed.outcome.is_none());
    assert!(delayed.next(JobEvent::Done).outcome.unwrap().is_ok());
    let failed = working.next(JobEvent::Failed(AppError::authentication()));
    assert_eq!(status(failed.outcome.unwrap().err().unwrap()), 500);
}

#[test]
fn only_accepted_credentials_start_a_session() {
    let mut sessions = Sessions::new();
    assert!(login(false, &mut sessions, 3).unwrap().is_none());
    assert_eq!(sessions.len(), 0);
    let id = login(true, &mut sessions, 3).unwrap().unwrap();
    assert!(sessions.csrf_at(&id, 3).is_some());
}

fn meta(mode: u32, length: u64) -> FileMeta {
    FileMeta { regular: true, mode, length, device: 1, inode: 2 }
}

#[test]
fn key_files_must_be_private_regular_files() {
    assert!(validate_metadata(meta(0o100600, 32)).is_ok());
    assert!(validate_metadata(meta(0o100400, 32)).is_ok());
    for mode in [0o644, 0o000, 0o700, 0o640, 0o4600, 0o200] {
        assert!(validate_metadata(meta(mode, 32)).is_err(), "{mode:o}");
    }
    assert!(validate_metadata(FileMeta { regular: false, ..meta(0o600, 32) }).is_err());
    let expected = meta(0o600, 32);
    assert!(validate_opened(expected, expected, expected).is_ok());
    let moved = FileMeta { inode: 3, ..expected };
    assert!(validate_opened(moved, moved, expected).is_err());
    assert!(validate_opened(expected, moved, expected).is_err());
    assert!(validate_opened(expected, meta(0o644, 32), expected).is_err());
}

#[test]
fn existing_keys_are_read_or_refused_but_never_repaired() {
    let found = meta(0o600, 32);
    let loading = KeyLoading::new().next(KeyEvent::Found(found));
    assert_eq!(loading.step, KeyStep::Open);
    let loading = loading.next(KeyEvent::Done).next(KeyEvent::Both(found, found));
    assert_eq!(loading.step, KeyStep::Read);
    let loading = loading.next(KeyEvent::Bytes(vec![42; 32])).next(KeyEvent::Both(found, found));
    assert!(loading.outcome.unwrap().is_ok());
    assert_eq!(loading.master.unwrap(), vec![42; 32]);
    for (length, mode) in [(31, 0o600), (33, 0o600), (32, 0o644), (32, 0o000)] {
        let refused = KeyLoading::new().next(KeyEvent::Found(meta(mode, length)));
        assert_eq!(refused.step, KeyStep::Finished);
        let error = refused.outcome.unwrap().err().unwrap();
        assert!(matches!(error.kind, ErrorKind::Storage));
    }
    let swapped = FileMeta { inode: 9, ..found };
    let refused = KeyLoading::new()
        .next(KeyEvent::Found(found))
        .next(KeyEvent::Done)
        .next(KeyEvent::Both(swapped, swapped));
    assert!(refused.outcome.unwrap().is_err());
}

#[test]
fn a_second_loading_returns_the_key_that_the_first_one_made() {
    let created = meta(0o600, 0);
    let mut first = KeyLoading::new();
    for event in [
        KeyEvent::Missing,
        KeyEvent::Bytes(generate().unwrap()),
        KeyEvent::Done,
        KeyEvent::Found(created),
        KeyEvent::Both(created, created),
    ] {
        first = first.next(event);
    }
    assert_eq!(first.step, KeyStep::Write);
    let stored = first.master.clone().unwrap();
    for event in [
        KeyEvent::Done,
        KeyEvent::Done,
        KeyEvent::Both(created, created),
        KeyEvent::Done,
    ] {
        first = first.next(event);
    }
    assert!(first.outcome.unwrap().is_ok());
    let found = meta(0o600, stored.len() as u64);
    let mut second = KeyLoading::new();
    for event in [
        KeyEvent::Found(found),
        KeyEvent::Done,
        KeyEvent::Both(found, found),
        KeyEvent::Bytes(stored),
        KeyEvent::Both(found, found),
    ] {
        assert_ne!(second.step, KeyStep::Write);
        second = second.next(event);
    }
    assert!(second.outcome.unwrap().is_ok());
    assert_eq!(second.master.unwrap(), first.master.unwrap());
}

#[test]
fn a_missing_key_is_created_written_and_made_durable() {
    let created = meta(0o600, 0);
    let master = generate().unwrap();
    assert_eq!(master.len(), MASTER_KEY_BYTES);
    assert_ne!(master, generate().unwrap());
    let loading = KeyLoading::new().next(KeyEvent::Missing);
    assert_eq!(loading.step, KeyStep::Generate);
    let loading = loading.next(KeyEvent::Bytes(master.clone()));
    assert_eq!(loading.step, KeyStep::Create);
    let loading = loading
        .next(KeyEvent::Done)
        .next(KeyEvent::Found(created))
        .next(KeyEvent::Both(created, created));
    assert_eq!(loading.step, KeyStep::Write);
    let loading = loading
        .next(KeyEvent::Done)
        .next(KeyEvent::Done)
        .next(KeyEvent::Both(created, created));
    assert_eq!(loading.step, KeyStep::SyncDirectory);
    let loading = loading.next(KeyEvent::Done);
    assert!(loading.outcome.unwrap().is_ok());
    assert_eq!(loading.master.unwrap(), master);
    let raced = KeyLoading::new()
        .next(KeyEvent::Missing)
        .next(KeyEvent::Bytes(vec![1; 32]))
        .next(KeyEvent::Exists);
    assert_eq!(raced.step, KeyStep::Restat);
}
