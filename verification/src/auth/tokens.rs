//! Random credentials and shared canonical, expiring cookie payloads.
use crate::auth::CHALLENGE_LIFETIME;
use crate::error::{authentication_failure, AppError};
use crate::sites::new_site::optional_text;
use crate::text::{
    canonical, chars_of, decimal, decimal_value, digit, digits_number, find,
    first_index, first_index_found, first_index_unique, has_prefix, is_hex, number_of,
    push_decimal, push_text, starts_with, value, value_decimal,
};
use rand::rngs::SysRng;
use rand::TryRng;
use std::time::UNIX_EPOCH;
use subtle::ConstantTimeEq;
use vstd::prelude::*;

verus! {

/// The bytes of one credential.
pub const TOKEN_BYTES: usize = 32;

/// Canonical hexadecimal width of session and form credentials.
pub const TOKEN_CHARS: usize = 64;

/// `SysRng::try_fill_bytes` fills a buffer from the operating system, or fails.
#[verifier::external_body]
pub(crate) fn random_bytes<const N: usize>() -> (r: Result<[u8; N], AppError>)
    ensures
        r matches Err(error) ==> error == authentication_failure(),
{
    let mut bytes = [0; N];
    match SysRng.try_fill_bytes(&mut bytes) {
        Ok(()) => Ok(bytes),
        Err(_) => Err(AppError::authentication()),
    }
}

/// `SystemTime::elapsed` on the Unix epoch gives the time since then, in whole
/// seconds here, or fails where the clock stands before it.
#[verifier::external_body]
pub(crate) fn seconds_since_epoch() -> (r: Option<u64>) {
    UNIX_EPOCH.elapsed().ok().map(|elapsed| elapsed.as_secs())
}

/// `ConstantTimeEq::ct_eq` on byte slices is true exactly for equal slices.
#[verifier::external_body]
pub(crate) fn constant_time_eq(a: &[u8], b: &[u8]) -> (r: bool)
    ensures
        r == (a@ == b@),
{
    bool::from(a.ct_eq(b))
}

/// The hexadecimal digit of a number below sixteen.
pub open spec fn hex_char(d: int) -> char {
    if d < 10 {
        (48 + d) as char
    } else {
        (87 + d) as char
    }
}

/// Bytes in lowercase hexadecimal, two digits each.
pub open spec fn hex_text(bytes: Seq<u8>) -> Seq<char>
    decreases bytes.len(),
{
    if bytes.len() == 0 {
        Seq::empty()
    } else {
        hex_text(bytes.drop_last()).push(hex_char(bytes.last() as int / 16)).push(
            hex_char(bytes.last() as int % 16),
        )
    }
}

/// A row of lowercase hexadecimal digits.
pub open spec fn hex_row(s: Seq<char>) -> bool {
    forall|i: int| 0 <= i < s.len() ==> is_hex(#[trigger] s[i])
}

/// A row of exactly so many lowercase hexadecimal digits.
pub open spec fn hex_token(s: Seq<char>, chars: int) -> bool {
    s.len() == chars && hex_row(s)
}

/// Hexadecimal text has two digits for every byte.
pub proof fn hex_text_is_hex(bytes: Seq<u8>)
    ensures
        hex_token(hex_text(bytes), 2 * bytes.len() as int),
    decreases bytes.len(),
{
    if bytes.len() > 0 {
        hex_text_is_hex(bytes.drop_last());
    }
}

/// Different byte strings have different hexadecimal texts.
pub proof fn hex_text_is_injective(a: Seq<u8>, b: Seq<u8>)
    requires
        hex_text(a) == hex_text(b),
    ensures
        a == b,
    decreases a.len(),
{
    hex_text_is_hex(a);
    hex_text_is_hex(b);
    if a.len() > 0 {
        let text = hex_text(a);
        let n = text.len() as int;
        let front_a = hex_text(a.drop_last());
        let front_b = hex_text(b.drop_last());
        hex_text_is_hex(a.drop_last());
        hex_text_is_hex(b.drop_last());
        assert(front_a =~= text.take(n - 2));
        assert(front_b =~= text.take(n - 2));
        hex_text_is_injective(a.drop_last(), b.drop_last());
        assert(text[n - 2] == hex_char(a.last() as int / 16));
        assert(text[n - 2] == hex_char(b.last() as int / 16));
        assert(text[n - 1] == hex_char(a.last() as int % 16));
        assert(text[n - 1] == hex_char(b.last() as int % 16));
        assert(a.last() == b.last());
        assert(a =~= a.drop_last().push(a.last()));
        assert(b =~= b.drop_last().push(b.last()));
    }
}

fn hex_digit(d: u8) -> (r: char)
    requires
        d < 16,
    ensures
        r == hex_char(d as int),
{
    if d < 10 {
        (48 + d) as char
    } else {
        (87 + d) as char
    }
}

/// Encodes bytes as canonical lowercase hexadecimal without truncation.
pub fn hex_encode(bytes: &[u8]) -> (r: String)
    ensures
        r@ == hex_text(bytes@),
{
    let mut token = String::new();
    let mut i: usize = 0;
    while i < bytes.len()
        invariant
            i <= bytes@.len(),
            token@ == hex_text(bytes@.take(i as int)),
        decreases bytes@.len() - i,
    {
        let byte: u8 = bytes[i];
        token.push(hex_digit(byte / 16));
        token.push(hex_digit(byte % 16));
        assert(bytes@.take(i + 1).drop_last() =~= bytes@.take(i as int));
        i = i + 1;
    }
    assert(bytes@.take(i as int) =~= bytes@);
    token
}

/// Bytes of the entropy source: what a call of `random_bytes` returns.
pub closed spec fn entropy_gives<const N: usize>(read: Result<[u8; N], AppError>) -> bool {
    call_ensures(random_bytes::<N>, (), read)
}

/// Draws bytes from the entropy source.
pub(crate) fn draw_bytes<const N: usize>() -> (read: Result<[u8; N], AppError>)
    ensures
        entropy_gives(read),
        read matches Err(error) ==> error == authentication_failure(),
{
    random_bytes::<N>()
}

/// The credential that drawn bytes stand for.
pub open spec fn drawn_token(read: Result<[u8; TOKEN_BYTES], AppError>) -> Result<
    Seq<char>,
    AppError,
> {
    match read {
        Ok(bytes) => Ok(hex_text(bytes@)),
        Err(error) => Err(error),
    }
}

/// The text inside a result.
pub open spec fn made_text(r: Result<String, AppError>) -> Result<Seq<char>, AppError> {
    match r {
        Ok(text) => Ok(text@),
        Err(error) => Err(error),
    }
}

/// A credential of bytes that the entropy source gave.
pub open spec fn fresh_token(token: Seq<char>) -> bool {
    exists|bytes: [u8; TOKEN_BYTES]| #[trigger]
        entropy_gives(Ok::<[u8; TOKEN_BYTES], AppError>(bytes)) && token == hex_text(bytes@)
}

/// Creates a 256-bit credential of bytes of the entropy source, encoded as
/// canonical lowercase hexadecimal.
pub fn random_token() -> (r: Result<String, AppError>)
    ensures
        exists|read: Result<[u8; TOKEN_BYTES], AppError>| #[trigger]
            entropy_gives(read) && made_text(r) == drawn_token(read),
        r matches Ok(token) ==> hex_token(token@, TOKEN_CHARS as int),
        r matches Err(error) ==> error == authentication_failure(),
{
    match draw_bytes::<TOKEN_BYTES>() {
        Ok(bytes) => {
            proof {
                hex_text_is_hex(bytes@);
            }
            Ok(hex_encode(bytes.as_slice()))
        },
        Err(error) => Err(error),
    }
}

/// Checks exact length and lowercase hexadecimal credential encoding.
pub fn valid_token(token: &str) -> (r: bool)
    ensures
        r == hex_token(token@, TOKEN_CHARS as int),
{
    valid_hex(token, TOKEN_CHARS)
}

/// Checks an exact-width hexadecimal value before constant-time comparison.
pub fn valid_hex(token: &str, chars: usize) -> (r: bool)
    ensures
        r == hex_token(token@, chars as int),
{
    let row: Vec<char> = chars_of(token);
    row.len() == chars && all_hex(row.as_slice())
}

fn all_hex(s: &[char]) -> (r: bool)
    ensures
        r == hex_row(s@),
{
    let mut i: usize = 0;
    while i < s.len()
        invariant
            i <= s@.len(),
            forall|j: int| 0 <= j < i ==> is_hex(#[trigger] s@[j]),
        decreases s@.len() - i,
    {
        if !(digit(s[i]) || (s[i] >= 'a' && s[i] <= 'f')) {
            assert(!is_hex(s@[i as int]));
            return false;
        }
        i = i + 1;
    }
    true
}

/// Compares a valid submitted token in constant time against its stored token.
pub fn matches(expected: &str, submitted: &str) -> (r: bool)
    ensures
        r == (hex_token(submitted@, TOKEN_CHARS as int) && expected@ == submitted@),
{
    valid_token(submitted) && matches_hex(expected, submitted)
}

/// Compares a canonical hexadecimal value in constant time.
pub fn matches_hex(expected: &str, submitted: &str) -> (r: bool)
    ensures
        r == (hex_row(submitted@) && expected@ == submitted@),
{
    proof {
        vstd::utf8::encode_utf8_decode_utf8(expected@);
        vstd::utf8::encode_utf8_decode_utf8(submitted@);
    }
    let row: Vec<char> = chars_of(submitted);
    all_hex(row.as_slice()) && constant_time_eq(expected.as_bytes(), submitted.as_bytes())
}

/// A payload: its domain, a credential, a colon and the second it expires at.
pub open spec fn timed(prefix: Seq<char>, token: Seq<char>, expiry: nat) -> Seq<char> {
    prefix + token + seq![':'] + decimal(expiry)
}

/// A payload issued at one second that expires one lifetime later.
pub open spec fn issued(prefix: Seq<char>, token: Seq<char>, lifetime: u64, now: u64) -> Seq<char> {
    timed(prefix, token, (now + lifetime) as nat)
}

/// The payload that is issued at a reading of the clock; it fails without one,
/// and where its expiry is out of range.
pub open spec fn payload_at(
    prefix: Seq<char>,
    token: Seq<char>,
    lifetime: u64,
    read: Option<u64>,
) -> Result<Seq<char>, AppError> {
    match read {
        Some(now) if now + lifetime <= u64::MAX => Ok(issued(prefix, token, lifetime, now)),
        _ => Err(authentication_failure()),
    }
}

/// What issuing a payload at the second that the clock gives comes to.
pub open spec fn payload_made(
    prefix: Seq<char>,
    token: Seq<char>,
    lifetime: u64,
    r: Result<Seq<char>, AppError>,
) -> bool {
    exists|read: Option<u64>| #[trigger]
        clock_gives(read) && r == payload_at(prefix, token, lifetime, read)
}

/// A payload that was issued at a second that the clock gave.
pub open spec fn just_issued(
    prefix: Seq<char>,
    token: Seq<char>,
    lifetime: u64,
    payload: Seq<char>,
) -> bool {
    exists|now: u64|
        clock_gives(Some(now)) && now + lifetime <= u64::MAX && payload == #[trigger] issued(
            prefix,
            token,
            lifetime,
            now,
        )
}

/// A payload that was made was issued at a second that the clock gave.
pub proof fn made_payloads_are_current(
    prefix: Seq<char>,
    token: Seq<char>,
    lifetime: u64,
    payload: Seq<char>,
)
    requires
        payload_made(prefix, token, lifetime, Ok(payload)),
    ensures
        just_issued(prefix, token, lifetime, payload),
{
    let read = choose|read: Option<u64>| #[trigger]
        clock_gives(read) && Ok::<Seq<char>, AppError>(payload) == payload_at(
            prefix,
            token,
            lifetime,
            read,
        );
    assert(payload == issued(prefix, token, lifetime, read->0));
}

/// What issuing a challenge with a fresh credential comes to: the credential is
/// drawn first, and the clock is read after it.
pub open spec fn challenge_made(
    prefix: Seq<char>,
    lifetime: u64,
    r: Result<Seq<char>, AppError>,
) -> bool {
    exists|drawn: Result<[u8; TOKEN_BYTES], AppError>| #[trigger]
        entropy_gives(drawn) && match drawn_token(drawn) {
            Ok(token) => payload_made(prefix, token, lifetime, r),
            Err(error) => r == Err::<Seq<char>, AppError>(error),
        }
}

/// A challenge that was made holds a fresh credential and was issued at a second
/// that the clock gave.
pub proof fn made_challenges_are_fresh(prefix: Seq<char>, lifetime: u64, payload: Seq<char>)
    requires
        challenge_made(prefix, lifetime, Ok(payload)),
    ensures
        exists|token: Seq<char>| #[trigger] issued_afresh(prefix, lifetime, token, payload),
{
    let drawn = choose|drawn: Result<[u8; TOKEN_BYTES], AppError>| #[trigger]
        entropy_gives(drawn) && match drawn_token(drawn) {
            Ok(token) => payload_made(prefix, token, lifetime, Ok(payload)),
            Err(error) => Ok::<Seq<char>, AppError>(payload) == Err::<Seq<char>, AppError>(error),
        };
    let token = hex_text(drawn->Ok_0@);
    hex_text_is_hex(drawn->Ok_0@);
    made_payloads_are_current(prefix, token, lifetime, payload);
    assert(issued_afresh(prefix, lifetime, token, payload));
}

/// Creates a fixed-lifetime payload for signing at the HTTP boundary, from the
/// second that the clock gives.
pub fn timed_payload(prefix: &str, token: &str, lifetime: u64) -> (r: Result<String, AppError>)
    ensures
        payload_made(prefix@, token@, lifetime, made_text(r)),
{
    match unix_time() {
        Ok(now) => timed_payload_at(prefix, token, lifetime, now),
        Err(error) => Err(error),
    }
}

/// Creates a payload that expires one lifetime after the given second.
pub fn timed_payload_at(prefix: &str, token: &str, lifetime: u64, now: u64) -> (r: Result<
    String,
    AppError,
>)
    ensures
        match r {
            Ok(payload) => now + lifetime <= u64::MAX && payload@ == issued(prefix@, token@, lifetime, now),
            Err(error) => now + lifetime > u64::MAX && error == authentication_failure(),
        },
{
    match now.checked_add(lifetime) {
        None => Err(AppError::authentication()),
        Some(expiry) => {
            let mut payload = String::new();
            push_text(&mut payload, prefix);
            push_text(&mut payload, token);
            payload.push(':');
            push_decimal(&mut payload, expiry);
            assert(payload@ =~= timed(prefix@, token@, expiry as nat));
            Ok(payload)
        },
    }
}

/// A reading of the system clock: what a call of `seconds_since_epoch` returns.
pub closed spec fn clock_gives(read: Option<u64>) -> bool {
    call_ensures(seconds_since_epoch, (), read)
}

/// Reads the system clock.
pub(crate) fn read_clock() -> (read: Option<u64>)
    ensures
        clock_gives(read),
{
    seconds_since_epoch()
}

/// The second that a reading of the clock stands for; a clock before the epoch fails.
pub open spec fn clock_second(read: Option<u64>) -> Result<u64, AppError> {
    match read {
        Some(now) => Ok(now),
        None => Err(authentication_failure()),
    }
}

/// Returns the Unix seconds that the clock gives, without substituting an
/// invalid clock value.
pub fn unix_time() -> (r: Result<u64, AppError>)
    ensures
        exists|read: Option<u64>| #[trigger] clock_gives(read) && r == clock_second(read),
{
    match read_clock() {
        Some(now) => Ok(now),
        None => Err(AppError::authentication()),
    }
}

/// The expiry of a payload of this domain and credential width, read piece by piece.
spec fn read_expiry(payload: Seq<char>, prefix: Seq<char>, chars: int) -> Option<nat> {
    let rest = payload.skip(prefix.len() as int);
    let colon = first_index(rest, ':');
    let timestamp = rest.skip(colon + 1);
    if has_prefix(payload, prefix) && colon < rest.len() && hex_token(rest.take(colon), chars)
        && canonical(timestamp) {
        digits_number(timestamp, u64::MAX as nat)
    } else {
        None
    }
}

/// Reading gives back what a payload was made of.
proof fn read_timed(prefix: Seq<char>, token: Seq<char>, expiry: u64)
    requires
        hex_row(token),
        expiry > 0,
    ensures
        has_prefix(timed(prefix, token, expiry as nat), prefix),
        read_expiry(timed(prefix, token, expiry as nat), prefix, token.len() as int) == Some(
            expiry as nat,
        ),
        first_index(timed(prefix, token, expiry as nat).skip(prefix.len() as int), ':')
            == token.len(),
        timed(prefix, token, expiry as nat).skip(prefix.len() as int).take(token.len() as int)
            == token,
{
    let payload = timed(prefix, token, expiry as nat);
    let rest = payload.skip(prefix.len() as int);
    decimal_value(expiry as nat);
    assert(payload.take(prefix.len() as int) =~= prefix);
    assert(rest =~= token + seq![':'] + decimal(expiry as nat));
    assert forall|j: int| 0 <= j < token.len() implies rest[j] != ':' by {
        assert(is_hex(token[j]));
    }
    first_index_unique(rest, ':', token.len() as int);
    assert(rest.take(token.len() as int) =~= token);
    assert(rest.skip(token.len() as int + 1) =~= decimal(expiry as nat));
}

/// A payload that can be read was made of what was read from it.
proof fn timed_read(payload: Seq<char>, prefix: Seq<char>, chars: int)
    requires
        read_expiry(payload, prefix, chars) is Some,
    ensures
        ({
            let rest = payload.skip(prefix.len() as int);
            let token = rest.take(first_index(rest, ':'));
            let expiry = read_expiry(payload, prefix, chars)->0;
            hex_token(token, chars) && expiry > 0 && payload == timed(prefix, token, expiry)
        }),
{
    let rest = payload.skip(prefix.len() as int);
    let colon = first_index(rest, ':');
    first_index_found(rest, ':');
    value_decimal(rest.skip(colon + 1));
    assert(rest =~= rest.take(colon) + seq![':'] + rest.skip(colon + 1));
    assert(payload =~= payload.take(prefix.len() as int) + rest);
    assert(payload =~= timed(prefix, rest.take(colon), value(rest.skip(colon + 1))));
}

/// Parses an exact-domain, fixed-width hexadecimal token and canonical expiry.
pub fn parse_timed_payload<'a>(payload: &'a str, prefix: &str, token_chars: usize) -> (r: Option<
    (&'a str, u64),
>)
    ensures
        match r {
            Some((token, expiry)) => {
                &&& hex_token(token@, token_chars as int)
                &&& expiry > 0
                &&& payload@ == timed(prefix@, token@, expiry as nat)
            },
            None => forall|token: Seq<char>, expiry: u64|
                hex_token(token, token_chars as int) && expiry > 0 ==> payload@ != #[trigger] timed(
                    prefix@,
                    token,
                    expiry as nat,
                ),
        },
{
    let chars: Vec<char> = chars_of(payload);
    let head: Vec<char> = chars_of(prefix);
    let length: usize = chars.len();
    let start: usize = head.len();
    let ghost expected = read_expiry(payload@, prefix@, token_chars as int);
    let mut found: Option<(usize, u64)> = None;
    if starts_with(chars.as_slice(), head.as_slice()) {
        let rest: &[char] = vstd::slice::slice_subrange(chars.as_slice(), start, length);
        assert(rest@ =~= payload@.skip(start as int));
        let colon: usize = find(rest, ':');
        if colon < rest.len() {
            let token: &[char] = vstd::slice::slice_subrange(rest, 0, colon);
            let timestamp: &[char] = vstd::slice::slice_subrange(rest, colon + 1, rest.len());
            assert(token@ =~= rest@.take(colon as int));
            assert(timestamp@ =~= rest@.skip(colon + 1));
            if token.len() == token_chars && all_hex(token) && timestamp.len() > 0 && timestamp[0]
                != '0' {
                match number_of(timestamp, u64::MAX) {
                    Some(expiry) => {
                        found = Some((colon, expiry));
                    },
                    None => {},
                }
            }
        }
    }
    assert(found is Some <==> expected is Some);
    match found {
        Some((colon, expiry)) => {
            proof {
                timed_read(payload@, prefix@, token_chars as int);
                assert(payload@.subrange(start as int, start + colon) =~= payload@.skip(
                    start as int,
                ).take(colon as int));
            }
            Some((payload.substring_char(start, start + colon), expiry))
        },
        None => {
            proof {
                assert forall|token: Seq<char>, expiry: u64|
                    hex_token(token, token_chars as int) && expiry > 0 implies payload@
                    != #[trigger] timed(prefix@, token, expiry as nat) by {
                    read_timed(prefix@, token, expiry);
                }
            }
            None
        },
    }
}

/// A payload says exactly one thing: its credential and expiry can be read
/// back from it, and nothing else can.
pub proof fn timed_payload_round_trip(
    prefix: Seq<char>,
    token: Seq<char>,
    expiry: u64,
    other: Seq<char>,
    other_expiry: u64,
)
    requires
        hex_row(token),
        hex_row(other),
        expiry > 0,
        other_expiry > 0,
        timed(prefix, token, expiry as nat) == timed(prefix, other, other_expiry as nat),
    ensures
        token == other,
        expiry == other_expiry,
{
    read_timed(prefix, token, expiry);
    read_timed(prefix, other, other_expiry);
}

/// An expiry that lies ahead, and no further than one lifetime.
pub open spec fn live(expiry: int, now: int, lifetime: int) -> bool {
    1 <= expiry - now <= lifetime
}

/// Rejects expired payloads and expiries beyond the original lifetime.
pub fn valid_expiry(expiry: u64, now: u64, lifetime: u64) -> (r: bool)
    ensures
        r == live(expiry as int, now as int, lifetime as int),
{
    match expiry.checked_sub(now) {
        Some(remaining) => 1 <= remaining && remaining <= lifetime,
        None => false,
    }
}

/// What a login challenge begins with.
pub open spec fn challenge_prefix() -> Seq<char> {
    "login:"@
}

/// A payload of a domain that holds this token and is live at this second.
pub open spec fn holds(
    payload: Option<Seq<char>>,
    prefix: Seq<char>,
    lifetime: u64,
    submitted: Seq<char>,
    now: int,
) -> bool {
    payload matches Some(text) && hex_token(submitted, TOKEN_CHARS as int) && exists|expiry: u64|
        expiry > 0 && live(expiry as int, now, lifetime as int) && text == #[trigger] timed(
            prefix,
            submitted,
            expiry as nat,
        )
}

/// A challenge payload that holds this token and is live at this second.
pub open spec fn challenge_accepted(payload: Option<Seq<char>>, submitted: Seq<char>, now: int) -> bool {
    holds(payload, challenge_prefix(), CHALLENGE_LIFETIME, submitted, now)
}

/// The characters of an optional text.
pub open spec fn text_view(text: Option<&str>) -> Option<Seq<char>> {
    match text {
        Some(s) => Some(s@),
        None => None,
    }
}

/// Creates a domain-separated challenge for the signed pre-login cookie: a
/// fresh credential, expiring one lifetime after the second that the clock gives.
pub fn challenge() -> (r: Result<String, AppError>)
    ensures
        challenge_made(challenge_prefix(), CHALLENGE_LIFETIME, made_text(r)),
        r matches Err(error) ==> error == authentication_failure(),
{
    match new_challenge("login:", CHALLENGE_LIFETIME) {
        Ok((_token, payload)) => Ok(payload),
        Err(error) => Err(error),
    }
}

/// A challenge of a domain that was issued with a fresh token at a second that
/// the clock gave.
pub open spec fn issued_afresh(
    prefix: Seq<char>,
    lifetime: u64,
    token: Seq<char>,
    payload: Seq<char>,
) -> bool {
    &&& hex_token(token, TOKEN_CHARS as int)
    &&& fresh_token(token)
    &&& just_issued(prefix, token, lifetime, payload)
}

/// Issues a challenge of a domain, and gives its token with it.
pub fn new_challenge(prefix: &str, lifetime: u64) -> (r: Result<(String, String), AppError>)
    ensures
        match r {
            Ok((token, payload)) => {
                &&& issued_afresh(prefix@, lifetime, token@, payload@)
                &&& challenge_made(prefix@, lifetime, Ok(payload@))
            },
            Err(error) => error == authentication_failure() && challenge_made(
                prefix@,
                lifetime,
                Err(error),
            ),
        },
{
    match random_token() {
        Ok(token) => match timed_payload(prefix, token.as_str(), lifetime) {
            Ok(payload) => {
                proof {
                    made_payloads_are_current(prefix@, token@, lifetime, payload@);
                }
                Ok((token, payload))
            },
            Err(error) => Err(error),
        },
        Err(error) => Err(error),
    }
}

/// The token of a challenge of a domain, where it is live at a reading of the
/// clock, so that the challenge can be shown again.
pub fn kept_token(
    existing: &Option<String>,
    prefix: &str,
    lifetime: u64,
    now: Option<u64>,
) -> (r: Option<String>)
    ensures
        match r {
            Some(token) => now matches Some(second) && holds(
                optional_text(*existing),
                prefix@,
                lifetime,
                token@,
                second as int,
            ),
            None => now matches Some(second) ==> forall|token: Seq<char>| !#[trigger]
                holds(optional_text(*existing), prefix@, lifetime, token, second as int),
        },
{
    match (existing, now) {
        (Some(payload), Some(second)) => match parse_timed_payload(
            payload.as_str(),
            prefix,
            TOKEN_CHARS,
        ) {
            Some((token, expiry)) => {
                if valid_expiry(expiry, second, lifetime) {
                    Some(token.to_owned())
                } else {
                    proof {
                        assert forall|other: Seq<char>| !#[trigger]
                            holds(optional_text(*existing), prefix@, lifetime, other, second as int) by {
                            if holds(
                                optional_text(*existing),
                                prefix@,
                                lifetime,
                                other,
                                second as int,
                            ) {
                                held_token(
                                    payload@,
                                    prefix@,
                                    lifetime,
                                    token@,
                                    expiry,
                                    other,
                                    second as int,
                                );
                            }
                        }
                    }
                    None
                }
            },
            None => None,
        },
        _ => None,
    }
}

/// Checks that a challenge of a domain holds the submitted token and is live at
/// the given second.
pub fn verify_held(
    payload: Option<&str>,
    prefix: &str,
    lifetime: u64,
    submitted: &str,
    now: u64,
) -> (r: bool)
    ensures
        r == holds(text_view(payload), prefix@, lifetime, submitted@, now as int),
{
    match payload {
        None => false,
        Some(text) => match parse_timed_payload(text, prefix, TOKEN_CHARS) {
            None => false,
            Some((token, expiry)) => {
                proof {
                    if holds(text_view(payload), prefix@, lifetime, submitted@, now as int) {
                        held_token(
                            text@,
                            prefix@,
                            lifetime,
                            token@,
                            expiry,
                            submitted@,
                            now as int,
                        );
                    }
                }
                valid_expiry(expiry, now, lifetime) && matches(token, submitted)
            },
        },
    }
}

/// A challenge holds one token and one expiry alone.
proof fn held_token(
    payload: Seq<char>,
    prefix: Seq<char>,
    lifetime: u64,
    token: Seq<char>,
    expiry: u64,
    other: Seq<char>,
    now: int,
)
    requires
        hex_token(token, TOKEN_CHARS as int),
        expiry > 0,
        payload == timed(prefix, token, expiry as nat),
        holds(Some(payload), prefix, lifetime, other, now),
    ensures
        other == token,
        live(expiry as int, now, lifetime as int),
{
    let e = choose|e: u64|
        e > 0 && live(e as int, now, lifetime as int) && payload == #[trigger] timed(
            prefix,
            other,
            e as nat,
        );
    timed_payload_round_trip(prefix, token, expiry, other, e);
}

/// Extracts the nonce only from a correctly encoded login challenge payload.
pub fn challenge_token(payload: &str) -> (r: Option<&str>)
    ensures
        match r {
            Some(token) => hex_token(token@, TOKEN_CHARS as int) && exists|expiry: u64|
                expiry > 0 && payload@ == #[trigger] timed(
                    challenge_prefix(),
                    token@,
                    expiry as nat,
                ),
            None => forall|token: Seq<char>, expiry: u64|
                hex_token(token, TOKEN_CHARS as int) && expiry > 0 ==> payload@ != #[trigger] timed(
                    challenge_prefix(),
                    token,
                    expiry as nat,
                ),
        },
{
    match parse_timed_payload(payload, "login:", TOKEN_CHARS) {
        Some((token, _expiry)) => Some(token),
        None => None,
    }
}

/// Checks the lifespan and nonce of an already signature-verified challenge at
/// the second that the clock gives; without one, no challenge passes.
pub fn verify_challenge(payload: Option<&str>, submitted: &str) -> (r: bool)
    ensures
        exists|read: Option<u64>| #[trigger]
            clock_gives(read) && r == (read matches Some(now) && challenge_accepted(
                text_view(payload),
                submitted@,
                now as int,
            )),
{
    match unix_time() {
        Ok(now) => verify_challenge_at(payload, submitted, now),
        Err(_) => false,
    }
}

/// Checks the lifespan and nonce of a challenge at the given second.
pub fn verify_challenge_at(payload: Option<&str>, submitted: &str, now: u64) -> (r: bool)
    ensures
        r == challenge_accepted(text_view(payload), submitted@, now as int),
{
    verify_held(payload, "login:", CHALLENGE_LIFETIME, submitted, now)
}

/// A fresh challenge is accepted with its own token from the second it was
/// made until the second it expires, and with no other token.
pub proof fn challenge_round_trip(token: Seq<char>, other: Seq<char>, made: u64, now: u64)
    requires
        hex_token(token, TOKEN_CHARS as int),
        made + CHALLENGE_LIFETIME <= u64::MAX,
    ensures
        ({
            let payload = Some(issued(challenge_prefix(), token, CHALLENGE_LIFETIME, made));
            &&& challenge_accepted(payload, token, now as int) <==> made <= now < made
                + CHALLENGE_LIFETIME
            &&& other != token ==> !challenge_accepted(payload, other, now as int)
        }),
{
    let expiry = (made + CHALLENGE_LIFETIME) as u64;
    let text = timed(challenge_prefix(), token, expiry as nat);
    if challenge_accepted(Some(text), other, now as int) {
        held_token(text, challenge_prefix(), CHALLENGE_LIFETIME, token, expiry, other, now as int);
    }
    if challenge_accepted(Some(text), token, now as int) {
        held_token(text, challenge_prefix(), CHALLENGE_LIFETIME, token, expiry, token, now as int);
    }
}

}
