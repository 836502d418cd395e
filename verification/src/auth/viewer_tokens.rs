//! Slug-bound viewer grants and independent unlock-form CSRF challenges.
use crate::auth::password::{Password, SALT_BYTES};
use crate::auth::tokens::{
    challenge_made, challenge_prefix, clock_gives, hex_text, hex_text_is_hex,
    hex_text_is_injective, hex_token, holds, issued, live, made_text, matches_hex, new_challenge,
    parse_timed_payload, payload_made, text_view, timed, timed_payload, timed_payload_round_trip,
    unix_time, valid_expiry, verify_held, TOKEN_CHARS,
};
use crate::auth::{VIEWER_CHALLENGE_LIFETIME, VIEWER_GRANT_LIFETIME};
use crate::error::{authentication_failure, AppError};
use crate::sites::validate::{slug_char, valid_slug, Slug};
use crate::text::{first_index_unique, push_text};
use vstd::prelude::*;

verus! {

/// What the grants of a site begin with.
pub open spec fn grant_domain(slug: Seq<char>) -> Seq<char> {
    "unlock:v1:"@ + slug + seq![':']
}

/// What the unlock-form challenges of a site begin with.
pub open spec fn unlock_domain(slug: Seq<char>) -> Seq<char> {
    "unlock-form:v1:"@ + slug + seq![':']
}

/// A payload that grants access to a site at a second, for one password generation.
pub open spec fn grant_accepted(
    payload: Option<Seq<char>>,
    slug: Seq<char>,
    salt: Seq<u8>,
    now: int,
) -> bool {
    payload matches Some(text) && exists|expiry: u64|
        expiry > 0 && live(expiry as int, now, VIEWER_GRANT_LIFETIME as int) && text
            == #[trigger] timed(grant_domain(slug), hex_text(salt), expiry as nat)
}

/// An unlock challenge of a site that holds this token and is live at a second.
pub open spec fn unlock_accepted(
    payload: Option<Seq<char>>,
    slug: Seq<char>,
    submitted: Seq<char>,
    now: int,
) -> bool {
    holds(payload, unlock_domain(slug), VIEWER_CHALLENGE_LIFETIME, submitted, now)
}

fn grant_prefix(slug: &Slug) -> (r: String)
    ensures
        r@ == grant_domain(slug@),
{
    let mut prefix = String::new();
    push_text(&mut prefix, "unlock:v1:");
    push_text(&mut prefix, slug.as_str());
    prefix.push(':');
    assert(prefix@ =~= grant_domain(slug@));
    prefix
}

/// Writes what the unlock-form challenges of a site begin with.
pub(crate) fn unlock_prefix(slug: &Slug) -> (r: String)
    ensures
        r@ == unlock_domain(slug@),
{
    let mut prefix = String::new();
    push_text(&mut prefix, "unlock-form:v1:");
    push_text(&mut prefix, slug.as_str());
    prefix.push(':');
    assert(prefix@ =~= unlock_domain(slug@));
    prefix
}

/// Creates a seven-day viewer payload bound to the verified generation, from
/// the second that the clock gives.
pub fn viewer_grant(slug: &Slug, password: &Password) -> (r: Result<String, AppError>)
    ensures
        payload_made(
            grant_domain(slug@),
            hex_text(password.salt()),
            VIEWER_GRANT_LIFETIME,
            made_text(r),
        ),
{
    let prefix: String = grant_prefix(slug);
    timed_payload(prefix.as_str(), password.salt_id(), VIEWER_GRANT_LIFETIME)
}

/// Validates the slug, current salt generation, and fixed grant expiry at the
/// second that the clock gives; without one, no grant passes.
pub fn verify_viewer_grant(payload: Option<&str>, slug: &Slug, password: &Password) -> (r: bool)
    ensures
        exists|read: Option<u64>| #[trigger]
            clock_gives(read) && r == (read matches Some(now) && grant_accepted(
                text_view(payload),
                slug@,
                password.salt(),
                now as int,
            )),
{
    match unix_time() {
        Ok(now) => verify_viewer_grant_at(payload, slug, password, now),
        Err(_) => false,
    }
}

/// Validates the slug, salt generation and expiry of a grant at a given second.
pub fn verify_viewer_grant_at(
    payload: Option<&str>,
    slug: &Slug,
    password: &Password,
    now: u64,
) -> (r: bool)
    ensures
        r == grant_accepted(text_view(payload), slug@, password.salt(), now as int),
{
    let ghost salt_text = hex_text(password.salt());
    let salt_id: &str = password.salt_id();
    let prefix: String = grant_prefix(slug);
    match payload {
        None => false,
        Some(text) => match parse_timed_payload(text, prefix.as_str(), 2 * SALT_BYTES) {
            None => false,
            Some((found, expiry)) => {
                proof {
                    if grant_accepted(text_view(payload), slug@, password.salt(), now as int) {
                        let e = choose|e: u64|
                            e > 0 && live(e as int, now as int, VIEWER_GRANT_LIFETIME as int)
                                && text@ == #[trigger] timed(
                                grant_domain(slug@),
                                salt_text,
                                e as nat,
                            );
                        timed_payload_round_trip(prefix@, found@, expiry, salt_text, e);
                    }
                }
                valid_expiry(expiry, now, VIEWER_GRANT_LIFETIME) && matches_hex(salt_id, found)
            },
        },
    }
}

/// Creates an independent 256-bit, 15-minute unlock-form CSRF challenge: a fresh
/// credential, issued at the second that the clock gives.
pub fn viewer_challenge(slug: &Slug) -> (r: Result<String, AppError>)
    ensures
        challenge_made(unlock_domain(slug@), VIEWER_CHALLENGE_LIFETIME, made_text(r)),
        r matches Err(error) ==> error == authentication_failure(),
{
    let prefix: String = unlock_prefix(slug);
    match new_challenge(prefix.as_str(), VIEWER_CHALLENGE_LIFETIME) {
        Ok((_token, payload)) => Ok(payload),
        Err(error) => Err(error),
    }
}

/// Extracts a nonce only from a canonical challenge for the requested slug.
pub fn viewer_challenge_token<'a>(payload: &'a str, slug: &Slug) -> (r: Option<&'a str>)
    ensures
        match r {
            Some(token) => hex_token(token@, TOKEN_CHARS as int) && exists|expiry: u64|
                expiry > 0 && payload@ == #[trigger] timed(
                    unlock_domain(slug@),
                    token@,
                    expiry as nat,
                ),
            None => forall|token: Seq<char>, expiry: u64|
                hex_token(token, TOKEN_CHARS as int) && expiry > 0 ==> payload@ != #[trigger] timed(
                    unlock_domain(slug@),
                    token,
                    expiry as nat,
                ),
        },
{
    let prefix: String = unlock_prefix(slug);
    match parse_timed_payload(payload, prefix.as_str(), TOKEN_CHARS) {
        Some((token, expiry)) => {
            assert(payload@ == timed(unlock_domain(slug@), token@, expiry as nat));
            Some(token)
        },
        None => None,
    }
}

/// Validates a signature-verified unlock challenge and its submitted nonce at
/// the second that the clock gives; without one, no challenge passes.
pub fn verify_viewer_challenge(payload: Option<&str>, slug: &Slug, submitted: &str) -> (r: bool)
    ensures
        exists|read: Option<u64>| #[trigger]
            clock_gives(read) && r == (read matches Some(now) && unlock_accepted(
                text_view(payload),
                slug@,
                submitted@,
                now as int,
            )),
{
    match unix_time() {
        Ok(now) => verify_viewer_challenge_at(payload, slug, submitted, now),
        Err(_) => false,
    }
}

/// Validates an unlock challenge and its submitted nonce at a given second.
pub fn verify_viewer_challenge_at(
    payload: Option<&str>,
    slug: &Slug,
    submitted: &str,
    now: u64,
) -> (r: bool)
    ensures
        r == unlock_accepted(text_view(payload), slug@, submitted@, now as int),
{
    let prefix: String = unlock_prefix(slug);
    verify_held(payload, prefix.as_str(), VIEWER_CHALLENGE_LIFETIME, submitted, now)
}

/// Payloads of two sites in one domain differ, whatever else they hold.
proof fn slug_decides(
    domain: Seq<char>,
    a: Seq<char>,
    b: Seq<char>,
    rest: Seq<char>,
    other: Seq<char>,
)
    requires
        valid_slug(a),
        valid_slug(b),
        domain + a + seq![':'] + rest == domain + b + seq![':'] + other,
    ensures
        a == b,
{
    let left = domain + a + seq![':'] + rest;
    let right = domain + b + seq![':'] + other;
    let tail = left.skip(domain.len() as int);
    assert(tail =~= a + seq![':'] + rest);
    assert(right.skip(domain.len() as int) =~= b + seq![':'] + other);
    assert forall|j: int| 0 <= j < a.len() implies tail[j] != ':' by {
        assert(slug_char(a[j]));
    }
    assert forall|j: int| 0 <= j < b.len() implies tail[j] != ':' by {
        assert(slug_char(b[j]));
        assert(tail[j] == b[j]);
    }
    first_index_unique(tail, ':', a.len() as int);
    first_index_unique(tail, ':', b.len() as int);
    assert(a =~= tail.take(a.len() as int));
    assert(b =~= tail.take(b.len() as int));
}

/// A grant opens exactly the site and the password generation that it was
/// issued for, from the second of its issue until its expiry.
pub proof fn grants_are_bound(
    slug: Seq<char>,
    salt: Seq<u8>,
    issued_at: u64,
    other_slug: Seq<char>,
    other_salt: Seq<u8>,
    now: u64,
)
    requires
        valid_slug(slug),
        valid_slug(other_slug),
        salt.len() == SALT_BYTES,
        other_salt.len() == SALT_BYTES,
        issued_at + VIEWER_GRANT_LIFETIME <= u64::MAX,
    ensures
        grant_accepted(
            Some(issued(grant_domain(slug), hex_text(salt), VIEWER_GRANT_LIFETIME, issued_at)),
            other_slug,
            other_salt,
            now as int,
        ) <==> slug == other_slug && salt == other_salt && issued_at <= now < issued_at
            + VIEWER_GRANT_LIFETIME,
{
    let expiry = (issued_at + VIEWER_GRANT_LIFETIME) as u64;
    let text = timed(grant_domain(slug), hex_text(salt), expiry as nat);
    hex_text_is_hex(salt);
    hex_text_is_hex(other_salt);
    if grant_accepted(Some(text), other_slug, other_salt, now as int) {
        let e = choose|e: u64|
            e > 0 && live(e as int, now as int, VIEWER_GRANT_LIFETIME as int) && text
                == #[trigger] timed(grant_domain(other_slug), hex_text(other_salt), e as nat);
        let rest = hex_text(salt) + seq![':'] + crate::text::decimal(expiry as nat);
        let other = hex_text(other_salt) + seq![':'] + crate::text::decimal(e as nat);
        assert(text =~= "unlock:v1:"@ + slug + seq![':'] + rest);
        assert(text =~= "unlock:v1:"@ + other_slug + seq![':'] + other);
        slug_decides("unlock:v1:"@, slug, other_slug, rest, other);
        timed_payload_round_trip(
            grant_domain(slug),
            hex_text(salt),
            expiry,
            hex_text(other_salt),
            e,
        );
        hex_text_is_injective(salt, other_salt);
    }
}

/// An unlock challenge of one site is worth nothing at another.
pub proof fn challenges_are_bound(
    slug: Seq<char>,
    other_slug: Seq<char>,
    token: Seq<char>,
    expiry: u64,
    submitted: Seq<char>,
    now: int,
)
    requires
        valid_slug(slug),
        valid_slug(other_slug),
        slug != other_slug,
    ensures
        !unlock_accepted(
            Some(timed(unlock_domain(slug), token, expiry as nat)),
            other_slug,
            submitted,
            now,
        ),
{
    let text = timed(unlock_domain(slug), token, expiry as nat);
    if unlock_accepted(Some(text), other_slug, submitted, now) {
        let e = choose|e: u64|
            e > 0 && live(e as int, now, VIEWER_CHALLENGE_LIFETIME as int) && text
                == #[trigger] timed(unlock_domain(other_slug), submitted, e as nat);
        let rest = token + seq![':'] + crate::text::decimal(expiry as nat);
        let other = submitted + seq![':'] + crate::text::decimal(e as nat);
        assert(text =~= "unlock-form:v1:"@ + slug + seq![':'] + rest);
        assert(text =~= "unlock-form:v1:"@ + other_slug + seq![':'] + other);
        slug_decides("unlock-form:v1:"@, slug, other_slug, rest, other);
    }
}

/// The three kinds of payload never stand in for each other: no text begins
/// with two of their domains.
pub proof fn domains_are_separate(text: Seq<char>, slug: Seq<char>, other: Seq<char>)
    ensures
        !(crate::text::has_prefix(text, challenge_prefix()) && crate::text::has_prefix(
            text,
            grant_domain(slug),
        )),
        !(crate::text::has_prefix(text, challenge_prefix()) && crate::text::has_prefix(
            text,
            unlock_domain(slug),
        )),
        !(crate::text::has_prefix(text, grant_domain(slug)) && crate::text::has_prefix(
            text,
            unlock_domain(other),
        )),
{
    reveal_strlit("login:");
    reveal_strlit("unlock:v1:");
    reveal_strlit("unlock-form:v1:");
    let login = challenge_prefix();
    let grant = grant_domain(slug);
    let form = unlock_domain(slug);
    let form_other = unlock_domain(other);
    assert(login[0] == 'l' && grant[0] == 'u' && form[0] == 'u');
    assert(grant[6] == ':' && form_other[6] == '-');
    if crate::text::has_prefix(text, login) {
        assert(text.take(login.len() as int)[0] == text[0]);
    }
    if crate::text::has_prefix(text, grant) {
        assert(text.take(grant.len() as int)[0] == text[0]);
        assert(text.take(grant.len() as int)[6] == text[6]);
    }
    if crate::text::has_prefix(text, form) {
        assert(text.take(form.len() as int)[0] == text[0]);
    }
    if crate::text::has_prefix(text, form_other) {
        assert(text.take(form_other.len() as int)[6] == text[6]);
    }
}

}
