//! Administrator authentication behind the shared host boundary.
use crate::auth::sessions::{live_at, SessionView, Sessions};
use crate::auth::tokens::{
    challenge_accepted, challenge_made, challenge_prefix, issued_afresh, kept_token,
    new_challenge, verify_challenge_at,
};
use crate::auth::{CHALLENGE_LIFETIME, SESSION_LIFETIME};
use crate::config::{password_allowed, valid_password};
use crate::error::{authentication_failure, AppError};
use crate::ip::IpAddr;
use crate::routes::cookies::{
    cookies_allowed, name_views, plain, plain_value, signed, signed_value, CookieKey,
};
use crate::routes::forms::{
    allowed_views, form_values, password_fields, read_fields, value_views, Allowed, PasswordForm,
    RawForm,
};
use crate::routes::{
    check_origin, client_address, forbidden, header_chars, header_text, header_views, invalid,
    invalid_form, origin_allowed, unverified, ClientIpSource,
};
use crate::sites::new_site::optional_text;
use crate::status;
use crate::text::{chars_of, has_prefix, same, starts_with};
use crate::web::{read_uri, uri_parts};
use vstd::prelude::*;

verus! {

/// Browser lifetime of the theme choice, in seconds: one year.
pub const THEME_LIFETIME: u64 = 31_536_000;

/// Bound of the theme field.
pub const THEME_FIELD_BYTES: usize = 16;

/// What the handlers read of a request besides its body.
pub struct Head {
    /// The values of the host headers.
    pub hosts: Vec<Vec<u8>>,
    /// The values of the origin headers.
    pub origins: Vec<Vec<u8>>,
    /// The values of the cookie headers.
    pub cookies: Vec<Vec<u8>>,
    /// The values of the forwarding headers.
    pub forwarded: Vec<Vec<u8>>,
    /// The query of the target.
    pub query: Option<String>,
}

/// A cookie to be sent to the browser.
pub struct CookieWrite {
    pub name: String,
    pub value: String,
    /// The path below which the browser sends it back.
    pub path: String,
    /// Its lifetime in seconds; none removes the cookie.
    pub lifetime: Option<u64>,
    /// The value is signed.
    pub signed: bool,
    /// It is sent over secure connections alone, hidden from scripts, and kept
    /// from cross-site requests other than navigation.
    pub guarded: bool,
}

/// Whether a cookie is this one.
pub open spec fn cookie_is(
    cookie: CookieWrite,
    name: Seq<char>,
    value: Seq<char>,
    path: Seq<char>,
    lifetime: Option<u64>,
    signed: bool,
) -> bool {
    &&& cookie.name@ == name
    &&& cookie.value@ == value
    &&& cookie.path@ == path
    &&& cookie.lifetime == lifetime
    &&& cookie.signed == signed
    &&& cookie.guarded
}

/// Builds one host-only guarded cookie.
pub fn guarded_cookie(
    name: String,
    value: String,
    path: String,
    lifetime: Option<u64>,
    signed: bool,
) -> (r: CookieWrite)
    ensures
        cookie_is(r, name@, value@, path@, lifetime, signed),
{
    CookieWrite { name, value, path, lifetime, signed, guarded: true }
}

/// Builds one administrator cookie.
pub fn cookie(name: &str, value: String, lifetime: Option<u64>, signed: bool) -> (r: CookieWrite)
    ensures
        cookie_is(r, name@, value@, "/"@, lifetime, signed),
{
    guarded_cookie(name.to_owned(), value, "/".to_owned(), lifetime, signed)
}

/// The name of the session cookie.
pub open spec fn admin_cookie() -> Seq<char> {
    "pb_admin"@
}

/// The name of the login challenge cookie.
pub open spec fn login_cookie() -> Seq<char> {
    "__Host-pb_login"@
}

/// The administrator cookies that must be unambiguous.
pub open spec fn admin_names() -> Seq<Seq<char>> {
    seq![admin_cookie(), login_cookie()]
}

/// The signature-verified value of an administrator cookie.
pub open spec fn admin_value(cookies: Seq<Seq<u8>>, key: Seq<u8>, name: Seq<char>) -> Result<
    Option<Seq<char>>,
    AppError,
> {
    if cookies_allowed(cookies, admin_names()) {
        Ok(signed_value(cookies, key, name))
    } else {
        Err(invalid_form())
    }
}

/// An optional text in a result, as mathematical values.
pub open spec fn result_text(result: Result<Option<String>, AppError>) -> Result<
    Option<Seq<char>>,
    AppError,
> {
    match result {
        Ok(text) => Ok(optional_text(text)),
        Err(error) => Err(error),
    }
}

fn admin_signed(cookies: &Vec<Vec<u8>>, key: &CookieKey, name: &str) -> (r: Result<
    Option<String>,
    AppError,
>)
    ensures
        result_text(r) == admin_value(header_views(cookies@), key@, name@),
{
    let names: [&str; 2] = ["pb_admin", "__Host-pb_login"];
    assert(name_views(names@) =~= admin_names());
    signed(cookies, key, names.as_slice(), name)
}

/// The live session of a cookie value and its form token.
pub open spec fn session_of(
    cookie: Option<Seq<char>>,
    store: Map<Seq<char>, SessionView>,
    now: u64,
) -> Option<(Seq<char>, Seq<char>)> {
    match cookie {
        Some(id) if live_at(store, now).contains_key(id) => Some((id, live_at(store, now)[id].0)),
        _ => None,
    }
}

/// A session and its form token, as mathematical values.
pub open spec fn pair_view(pair: Option<(String, String)>) -> Option<(Seq<char>, Seq<char>)> {
    match pair {
        Some((id, token)) => Some((id@, token@)),
        None => None,
    }
}

/// Resolves a live session and its independent form token from the value of
/// the session cookie. A session that has expired is forgotten.
pub fn find_session(cookie: Option<String>, sessions: &mut Sessions, now: u64) -> (r: Option<
    (String, String),
>)
    ensures
        pair_view(r) == session_of(optional_text(cookie), old(sessions)@, now),
        final(sessions)@ == if cookie is Some {
            live_at(old(sessions)@, now)
        } else {
            old(sessions)@
        },
{
    match cookie {
        None => None,
        Some(id) => match sessions.csrf_at(id.as_str(), now) {
            Some(token) => Some((id, token)),
            None => None,
        },
    }
}

/// The sessions after a request was looked at: where it brought a session
/// cookie, expired ones are forgotten.
pub open spec fn sessions_seen(
    cookies: Seq<Seq<u8>>,
    key: Seq<u8>,
    store: Map<Seq<char>, SessionView>,
    now: u64,
) -> Map<Seq<char>, SessionView> {
    if admin_value(cookies, key, admin_cookie()) matches Ok(Some(_)) {
        live_at(store, now)
    } else {
        store
    }
}

/// The live session of a request.
pub open spec fn request_session(
    cookies: Seq<Seq<u8>>,
    key: Seq<u8>,
    store: Map<Seq<char>, SessionView>,
    now: u64,
) -> Result<Option<(Seq<char>, Seq<char>)>, AppError> {
    match admin_value(cookies, key, admin_cookie()) {
        Err(error) => Err(error),
        Ok(cookie) => Ok(session_of(cookie, store, now)),
    }
}

/// Resolves a signature-verified live session and its independent form token.
pub fn session(cookies: &Vec<Vec<u8>>, key: &CookieKey, sessions: &mut Sessions, now: u64) -> (r:
    Result<Option<(String, String)>, AppError>)
    ensures
        (match r {
            Ok(found) => Ok(pair_view(found)),
            Err(error) => Err(error),
        }) == request_session(header_views(cookies@), key@, old(sessions)@, now),
        final(sessions)@ == sessions_seen(header_views(cookies@), key@, old(sessions)@, now),
{
    match admin_signed(cookies, key, "pb_admin") {
        Err(error) => Err(error),
        Ok(cookie) => Ok(find_session(cookie, sessions, now)),
    }
}

/// The session that a changing request is made in: the request comes from the
/// own origin and in a live session.
pub open spec fn gate(
    head: Head,
    key: Seq<u8>,
    store: Map<Seq<char>, SessionView>,
    now: u64,
) -> Result<(Seq<char>, Seq<char>), AppError> {
    if !origin_allowed(header_views(head.origins@), header_views(head.hosts@)) {
        Err(unverified())
    } else {
        match request_session(header_views(head.cookies@), key, store, now) {
            Err(error) => Err(error),
            Ok(None) => Err(unverified()),
            Ok(Some(found)) => Ok(found),
        }
    }
}

/// Checks origin and session before a changing request is looked at further.
pub fn enter(head: &Head, key: &CookieKey, sessions: &mut Sessions, now: u64) -> (r: Result<
    (String, String),
    AppError,
>)
    ensures
        (match r {
            Ok((id, token)) => Ok((id@, token@)),
            Err(error) => Err(error),
        }) == gate(*head, key@, old(sessions)@, now),
        final(sessions)@ == if origin_allowed(
            header_views(head.origins@),
            header_views(head.hosts@),
        ) {
            sessions_seen(header_views(head.cookies@), key@, old(sessions)@, now)
        } else {
            old(sessions)@
        },
{
    match check_origin(&head.origins, &head.hosts) {
        Err(error) => Err(error),
        Ok(_) => match session(&head.cookies, key, sessions, now) {
            Err(error) => Err(error),
            Ok(None) => Err(forbidden()),
            Ok(Some(found)) => Ok(found),
        },
    }
}

/// The name of the cookie that keeps the chosen theme.
pub open spec fn theme_cookie() -> Seq<char> {
    "pb_theme"@
}

/// A cookie that keeps a chosen theme for a year.
pub open spec fn keeps_theme(cookie: CookieWrite, choice: Seq<char>) -> bool {
    cookie_is(cookie, theme_cookie(), choice, "/"@, Some(THEME_LIFETIME), false)
}

/// The theme that a cookie value chooses.
pub open spec fn chosen_theme(cookie: Option<Seq<char>>) -> &'static str {
    if cookie == Some("ledger-light"@) {
        "ledger-light"
    } else {
        "ledger"
    }
}

/// Picks the theme of a cookie value, defaulting to dark.
pub fn pick_theme(cookie: Option<String>) -> (r: &'static str)
    ensures
        r == chosen_theme(optional_text(cookie)),
{
    match cookie {
        Some(choice) => {
            if same(choice.as_str(), "ledger-light") {
                "ledger-light"
            } else {
                "ledger"
            }
        },
        None => "ledger",
    }
}

/// Reads the stored theme choice, defaulting to dark.
pub fn theme(cookies: &Vec<Vec<u8>>) -> (r: &'static str)
    ensures
        r == chosen_theme(plain_value(header_views(cookies@), theme_cookie())),
{
    pick_theme(plain(cookies, "pb_theme"))
}

/// A challenge that can be shown again: it is live, and holds this token.
pub open spec fn reusable(payload: Option<Seq<char>>, token: Seq<char>, now: Option<u64>) -> bool {
    now matches Some(second) && challenge_accepted(payload, token, second as int)
}

/// The challenge that a login form is bound to.
pub struct LoginChallenge {
    /// The token that the form must send back.
    pub csrf_token: String,
    /// The cookie to send, where the challenge is new.
    pub cookie: Option<CookieWrite>,
}

/// The challenge that a sign-in page shows: one that the browser still holds, or
/// a new one where it holds none.
pub open spec fn login_challenged(
    existing: Option<Seq<char>>,
    now: Option<u64>,
    r: Result<LoginChallenge, AppError>,
) -> bool {
    match r {
        Ok(shown) => if shown.cookie is None {
            reusable(existing, shown.csrf_token@, now)
        } else {
            &&& forall|token: Seq<char>| !#[trigger] reusable(existing, token, now)
            &&& newly_issued(shown)
        },
        Err(error) => {
            &&& error == authentication_failure()
            &&& challenge_made(challenge_prefix(), CHALLENGE_LIFETIME, Err(error))
            &&& forall|token: Seq<char>| !#[trigger] reusable(existing, token, now)
        },
    }
}

/// Keeps a live challenge, or issues a new one with a fresh token at the second
/// that the clock gives.
pub fn login_challenge(existing: Option<String>, now: Option<u64>) -> (r: Result<
    LoginChallenge,
    AppError,
>)
    ensures
        login_challenged(optional_text(existing), now, r),
{
    match kept_token(&existing, "login:", CHALLENGE_LIFETIME, now) {
        Some(csrf_token) => Ok(LoginChallenge { csrf_token, cookie: None }),
        None => match new_challenge("login:", CHALLENGE_LIFETIME) {
            Err(error) => Err(error),
            Ok((csrf_token, payload)) => {
                let sent: CookieWrite = cookie(
                    "__Host-pb_login",
                    payload,
                    Some(CHALLENGE_LIFETIME),
                    true,
                );
                Ok(LoginChallenge { csrf_token, cookie: Some(sent) })
            },
        },
    }
}

/// A new challenge, its token and its cookie.
pub open spec fn newly_issued(shown: LoginChallenge) -> bool {
    &&& shown.cookie matches Some(cookie)
    &&& issued_afresh(challenge_prefix(), CHALLENGE_LIFETIME, shown.csrf_token@, cookie.value@)
    &&& cookie_is(
        cookie,
        login_cookie(),
        cookie.value@,
        "/"@,
        Some(CHALLENGE_LIFETIME),
        true,
    )
}

/// What a sign-in page is for: nothing where there is a live session, else the
/// challenge that the browser holds.
pub open spec fn signin_page(
    session: Result<Option<(Seq<char>, Seq<char>)>, AppError>,
    challenge: Option<Seq<char>>,
    r: Result<Option<Option<String>>, AppError>,
) -> bool {
    match session {
        Err(error) => r == Err::<Option<Option<String>>, AppError>(error),
        Ok(Some(_)) => r == Ok::<Option<Option<String>>, AppError>(None),
        Ok(None) => r matches Ok(Some(existing)) && optional_text(existing) == challenge,
    }
}

/// What the login page does for a request: a live session goes on to the site
/// list, anyone else sees the form.
pub fn login_page(cookies: &Vec<Vec<u8>>, key: &CookieKey, sessions: &mut Sessions, now: u64) -> (r:
    Result<Option<Option<String>>, AppError>)
    ensures
        signin_page(
            request_session(header_views(cookies@), key@, old(sessions)@, now),
            signed_value(header_views(cookies@), key@, login_cookie()),
            r,
        ),
        final(sessions)@ == sessions_seen(header_views(cookies@), key@, old(sessions)@, now),
{
    match session(cookies, key, sessions, now) {
        Err(error) => Err(error),
        Ok(Some(_)) => Ok(None),
        Ok(None) => match admin_signed(cookies, key, "__Host-pb_login") {
            Err(error) => Err(error),
            Ok(existing) => Ok(Some(existing)),
        },
    }
}

/// A login request whose head was accepted.
pub struct LoginRequest {
    /// The value of the challenge cookie.
    pub challenge: Option<String>,
    /// The client address that failures are counted for.
    pub ip: IpAddr,
}

/// What a login request comes to before its body is read.
pub open spec fn login_head(head: Head, key: Seq<u8>, source: ClientIpSource, peer: Seq<u16>) -> Result<
    (Option<Seq<char>>, Seq<u16>),
    AppError,
> {
    if !origin_allowed(header_views(head.origins@), header_views(head.hosts@)) {
        Err(unverified())
    } else {
        match admin_value(header_views(head.cookies@), key, login_cookie()) {
            Err(error) => Err(error),
            Ok(challenge) => match client_address(source, header_views(head.forwarded@), peer) {
                None => Err(
                    crate::error::rejected(
                        status::BAD_REQUEST,
                        "invalid forwarded client address",
                    ),
                ),
                Some(ip) => Ok((challenge, ip)),
            },
        }
    }
}

/// What is to be done for a login request whose form was read.
pub enum LoginStep {
    /// The request fails.
    Failed(AppError),
    /// The form is shown again with this status and message.
    Show(u16, &'static str),
    /// The password is checked on a bounded worker.
    Verify(String),
}

/// What a login form comes to: it is complete, its token matches the challenge,
/// and its password is one.
pub open spec fn login_step(
    form: Result<RawForm, AppError>,
    challenge: Option<Seq<char>>,
    now: Option<u64>,
    step: LoginStep,
) -> bool {
    match form {
        Err(error) => step == LoginStep::Failed(error),
        Ok(raw) => match form_values(raw, password_fields()) {
            Err(error) => step == LoginStep::Failed(error),
            Ok(values) => match values[1] {
                None => step == LoginStep::Failed(unverified()),
                Some(token) => if !reusable(challenge, token, now) {
                    step == LoginStep::Failed(unverified())
                } else {
                    match values[0] {
                        Some(password) if password_allowed(password) => step matches
                            LoginStep::Verify(checked) && checked@ == password,
                        _ => step == LoginStep::Show(
                            status::BAD_REQUEST,
                            "Enter a valid admin password.",
                        ),
                    }
                },
            },
        },
    }
}

impl LoginRequest {
    /// Checks origin, cookies and client address before the body is read.
    pub fn open(head: &Head, key: &CookieKey, source: ClientIpSource, peer: &IpAddr) -> (r: Result<
        Self,
        AppError,
    >)
        ensures
            (match r {
                Ok(request) => Ok((optional_text(request.challenge), request.ip@)),
                Err(error) => Err(error),
            }) == login_head(*head, key@, source, peer@),
    {
        match check_origin(&head.origins, &head.hosts) {
            Err(error) => Err(error),
            Ok(_) => match admin_signed(&head.cookies, key, "__Host-pb_login") {
                Err(error) => Err(error),
                Ok(challenge) => match source.resolve(&head.forwarded, peer) {
                    Err(error) => Err(error),
                    Ok(ip) => Ok(LoginRequest { challenge, ip }),
                },
            },
        }
    }

    /// Checks the complete form and verification token before authenticating.
    pub fn submit(&self, form: Result<RawForm, AppError>, now: Option<u64>) -> (r: LoginStep)
        ensures
            login_step(form, optional_text(self.challenge), now, r),
    {
        let fields: PasswordForm = match form {
            Err(error) => {
                return LoginStep::Failed(error);
            },
            Ok(raw) => match PasswordForm::read(raw) {
                Err(error) => {
                    return LoginStep::Failed(error);
                },
                Ok(fields) => fields,
            },
        };
        let token: String = match fields.csrf_token {
            None => {
                return LoginStep::Failed(forbidden());
            },
            Some(token) => token,
        };
        if !challenge_matches(&self.challenge, token.as_str(), now) {
            return LoginStep::Failed(forbidden());
        }
        match fields.password {
            Some(password) => {
                if valid_password(password.as_str()) {
                    LoginStep::Verify(password)
                } else {
                    LoginStep::Show(status::BAD_REQUEST, "Enter a valid admin password.")
                }
            },
            None => LoginStep::Show(status::BAD_REQUEST, "Enter a valid admin password."),
        }
    }
}

fn challenge_matches(challenge: &Option<String>, token: &str, now: Option<u64>) -> (r: bool)
    ensures
        r == reusable(optional_text(*challenge), token@, now),
{
    match now {
        None => false,
        Some(second) => match challenge {
            None => verify_challenge_at(None, token, second),
            Some(payload) => verify_challenge_at(Some(payload.as_str()), token, second),
        },
    }
}

/// How a checked login is answered.
pub enum LoginReply {
    /// The request fails.
    Failed(AppError),
    /// The form is shown again with this status and message.
    Show(u16, &'static str),
    /// The session starts: these cookies are sent and the browser goes on.
    Started(Vec<CookieWrite>),
}

/// The answer to a login by how its password check and session came out.
pub open spec fn login_reply(
    session: Result<Option<String>, AppError>,
    reply: LoginReply,
) -> bool {
    match session {
        Err(error) => reply == LoginReply::Failed(error),
        Ok(None) => reply == LoginReply::Show(
            status::UNAUTHORIZED,
            "Incorrect password. Try again.",
        ),
        Ok(Some(id)) => reply matches LoginReply::Started(cookies) && cookies@.len() == 2
            && cookie_is(cookies@[0], login_cookie(), Seq::empty(), "/"@, None, true) && cookie_is(
            cookies@[1],
            admin_cookie(),
            id@,
            "/"@,
            Some(SESSION_LIFETIME),
            true,
        ),
    }
}

/// Answers a login by how its password check and session came out.
pub fn login_finished(session: Result<Option<String>, AppError>) -> (r: LoginReply)
    ensures
        login_reply(session, r),
{
    match session {
        Err(error) => LoginReply::Failed(error),
        Ok(None) => LoginReply::Show(status::UNAUTHORIZED, "Incorrect password. Try again."),
        Ok(Some(id)) => {
            let mut cookies: Vec<CookieWrite> = Vec::new();
            cookies.push(cookie("__Host-pb_login", String::new(), None, true));
            cookies.push(cookie("pb_admin", id, Some(SESSION_LIFETIME), true));
            LoginReply::Started(cookies)
        },
    }
}

/// What a logout comes to before the session is looked at: its form holds the
/// token and nothing else, and there is a session cookie.
pub open spec fn logout_request(form: Result<RawForm, AppError>, cookie: Option<Seq<char>>) -> Result<
    (Seq<char>, Seq<char>),
    AppError,
> {
    match form {
        Err(error) => Err(error),
        Ok(raw) => match form_values(raw, password_fields()) {
            Err(error) => Err(error),
            Ok(values) => match values[1] {
                None => Err(unverified()),
                Some(token) => if values[0] is Some {
                    Err(invalid_form())
                } else {
                    match cookie {
                        None => Err(unverified()),
                        Some(id) => Ok((id, token)),
                    }
                },
            },
        },
    }
}

/// Checks origin and cookies of a logout before its body is read; gives the
/// value of the session cookie.
pub fn logout_head(head: &Head, key: &CookieKey) -> (r: Result<Option<String>, AppError>)
    ensures
        result_text(r) == if origin_allowed(
            header_views(head.origins@),
            header_views(head.hosts@),
        ) {
            admin_value(header_views(head.cookies@), key@, admin_cookie())
        } else {
            Err(unverified())
        },
{
    match check_origin(&head.origins, &head.hosts) {
        Err(error) => Err(error),
        Ok(_) => admin_signed(&head.cookies, key, "pb_admin"),
    }
}

/// How a sign-out comes out, and the sessions after it.
pub open spec fn signed_out(
    request: Result<(Seq<char>, Seq<char>), AppError>,
    before: Map<Seq<char>, SessionView>,
    after: Map<Seq<char>, SessionView>,
    now: u64,
    r: Result<CookieWrite, AppError>,
) -> bool {
    match request {
        Err(error) => r == Err::<CookieWrite, AppError>(error) && after == before,
        Ok((id, token)) => if crate::auth::sessions::form_accepted(before, id, token, now) {
            &&& r matches Ok(removal) && cookie_is(
                removal,
                admin_cookie(),
                Seq::empty(),
                "/"@,
                None,
                true,
            )
            &&& after == live_at(before, now).remove(id)
        } else {
            &&& r == Err::<CookieWrite, AppError>(unverified())
            &&& after == live_at(before, now)
        },
    }
}

/// Revokes a session only after checking its complete form and token; gives the
/// cookie that removes it from the browser.
pub fn logout(
    form: Result<RawForm, AppError>,
    session: Option<String>,
    sessions: &mut Sessions,
    now: u64,
) -> (r: Result<CookieWrite, AppError>)
    ensures
        signed_out(
            logout_request(form, optional_text(session)),
            old(sessions)@,
            final(sessions)@,
            now,
            r,
        ),
{
    let fields: PasswordForm = match form {
        Err(error) => {
            return Err(error);
        },
        Ok(raw) => match PasswordForm::read(raw) {
            Err(error) => {
                return Err(error);
            },
            Ok(fields) => fields,
        },
    };
    let token: String = match fields.csrf_token {
        None => {
            return Err(forbidden());
        },
        Some(token) => token,
    };
    if fields.password.is_some() {
        return Err(invalid());
    }
    match session {
        None => Err(forbidden()),
        Some(id) => {
            if sessions.logout_at(id.as_str(), token.as_str(), now) {
                Ok(cookie("pb_admin", String::new(), None, true))
            } else {
                Err(forbidden())
            }
        },
    }
}

/// The fields of the theme form.
pub open spec fn theme_fields() -> Allowed {
    seq![("theme"@, THEME_FIELD_BYTES)]
}

/// The theme that a form asks for.
pub open spec fn theme_choice(form: Result<RawForm, AppError>) -> Result<Seq<char>, AppError> {
    match form {
        Err(error) => Err(error),
        Ok(raw) => match form_values(raw, theme_fields()) {
            Err(error) => Err(error),
            Ok(values) => match values[0] {
                Some(choice) => if choice == "ledger"@ || choice == "ledger-light"@ {
                    Ok(choice)
                } else {
                    Err(invalid_form())
                },
                None => Err(invalid_form()),
            },
        },
    }
}

/// Reads the theme choice of a form into the plain cookie that stores it.
pub fn set_theme(form: Result<RawForm, AppError>) -> (r: Result<CookieWrite, AppError>)
    ensures
        match theme_choice(form) {
            Err(error) => r == Err::<CookieWrite, AppError>(error),
            Ok(choice) => r matches Ok(stored) && keeps_theme(stored, choice),
        },
{
    let raw: RawForm = match form {
        Err(error) => {
            return Err(error);
        },
        Ok(raw) => raw,
    };
    let allowed: [(&'static str, usize); 1] = [("theme", THEME_FIELD_BYTES)];
    assert(allowed_views(allowed@) =~= theme_fields());
    match read_fields(raw, allowed.as_slice()) {
        Err(error) => Err(error),
        Ok(mut values) => {
            assert(value_views(values@)[0] == optional_text(values@[0]));
            match values.swap_remove(0) {
                None => Err(invalid()),
                Some(choice) => {
                    if same(choice.as_str(), "ledger") || same(choice.as_str(), "ledger-light") {
                        Ok(cookie("pb_theme", choice, Some(THEME_LIFETIME), false))
                    } else {
                        Err(invalid())
                    }
                },
            }
        },
    }
}

/// A local path: it cannot name another host.
pub open spec fn local_path(path: Seq<char>) -> bool {
    has_prefix(path, "/"@) && !has_prefix(path, "//"@)
}

/// Where the browser goes back to: the path and query of the sending page,
/// where these are a local path.
pub open spec fn back_to(target: Option<Seq<char>>) -> Seq<char> {
    match target {
        Some(path) if local_path(path) => path,
        _ => "/"@,
    }
}

/// The path and query of the page that a referrer header names.
pub open spec fn referring_target(referer: Option<Seq<u8>>) -> Option<Seq<char>> {
    match referer {
        None => None,
        Some(bytes) => match header_chars(bytes) {
            None => None,
            Some(text) => match uri_parts(text) {
                None => None,
                Some(parts) => parts.4,
            },
        },
    }
}

/// Picks where the browser goes back to.
pub fn back(target: Option<String>) -> (r: String)
    ensures
        r@ == back_to(optional_text(target)),
{
    match target {
        None => "/".to_owned(),
        Some(path) => {
            let chars: Vec<char> = chars_of(path.as_str());
            let one: Vec<char> = chars_of("/");
            let two: Vec<char> = chars_of("//");
            if starts_with(chars.as_slice(), one.as_slice()) && !starts_with(
                chars.as_slice(),
                two.as_slice(),
            ) {
                path
            } else {
                "/".to_owned()
            }
        },
    }
}

/// Returns to the sending page, or to the site list.
pub fn referring_page(referer: Option<&Vec<u8>>) -> (r: String)
    ensures
        r@ == back_to(
            referring_target(
                match referer {
                    Some(bytes) => Some(bytes@),
                    None => None,
                },
            ),
        ),
{
    match referer {
        None => back(None),
        Some(bytes) => match header_text(bytes.as_slice()) {
            None => back(None),
            Some(text) => match read_uri(text.as_str()) {
                None => back(None),
                Some(parts) => back(parts.target),
            },
        },
    }
}

/// A change of the theme whose head was accepted.
pub struct ThemeRequest {
    /// Where the browser goes back to.
    pub back: String,
}

impl ThemeRequest {
    /// Checks the origin before the form is read.
    pub fn open(head: &Head, referer: Option<&Vec<u8>>) -> (r: Result<Self, AppError>)
        ensures
            match r {
                Ok(opened) => {
                    &&& origin_allowed(header_views(head.origins@), header_views(head.hosts@))
                    &&& opened.back@ == back_to(
                        referring_target(
                            match referer {
                                Some(bytes) => Some(bytes@),
                                None => None,
                            },
                        ),
                    )
                },
                Err(error) => {
                    &&& !origin_allowed(header_views(head.origins@), header_views(head.hosts@))
                    &&& error == unverified()
                },
            },
    {
        match check_origin(&head.origins, &head.hosts) {
            Err(error) => Err(error),
            Ok(_) => Ok(ThemeRequest { back: referring_page(referer) }),
        }
    }

    /// Stores the theme that the form asks for, and returns to the sending page.
    pub fn submit(self, form: Result<RawForm, AppError>) -> (r: Result<
        (CookieWrite, String),
        AppError,
    >)
        ensures
            match theme_choice(form) {
                Err(error) => r == Err::<(CookieWrite, String), AppError>(error),
                Ok(choice) => r matches Ok((stored, back)) && back == self.back && keeps_theme(
                    stored,
                    choice,
                ),
            },
    {
        match set_theme(form) {
            Err(error) => Err(error),
            Ok(stored) => Ok((stored, self.back)),
        }
    }
}

/// The browser is never sent to another host from the theme form.
pub proof fn theme_returns_stay_local(referer: Option<Seq<u8>>)
    ensures
        local_path(back_to(referring_target(referer))),
{
    reveal_strlit("/");
    reveal_strlit("//");
    assert("/"@.take(1) =~= "/"@);
}

/// The content policy of administrator pages.
pub open spec fn admin_policy(status: u16, scripted: bool) -> &'static str {
    if scripted && 200 <= status && status < 300 {
        "default-src 'none'; style-src 'self'; font-src 'self'; form-action 'self'; frame-ancestors 'none'; base-uri 'none'; script-src 'self'"
    } else {
        "default-src 'none'; style-src 'self'; font-src 'self'; form-action 'self'; frame-ancestors 'none'; base-uri 'none'"
    }
}

/// The headers that every administrator response gets: the own script runs on
/// the successful pages that were marked for it alone, and only a response that
/// chose its caching keeps it.
pub open spec fn admin_headers(status: u16, scripted: bool, cached: bool) -> Seq<
    (&'static str, &'static str),
> {
    let fixed = seq![
        ("x-content-type-options", "nosniff"),
        ("referrer-policy", "same-origin"),
        ("content-security-policy", admin_policy(status, scripted)),
    ];
    if cached {
        fixed
    } else {
        fixed.push(("cache-control", "private, no-store"))
    }
}

/// Gives the headers that every administrator response gets.
pub fn finish_headers(status: u16, scripted: bool, cached: bool) -> (r: Vec<
    (&'static str, &'static str),
>)
    ensures
        r@ == admin_headers(status, scripted, cached),
{
    let policy: &'static str = if scripted && status >= 200 && status < 300 {
        "default-src 'none'; style-src 'self'; font-src 'self'; form-action 'self'; frame-ancestors 'none'; base-uri 'none'; script-src 'self'"
    } else {
        "default-src 'none'; style-src 'self'; font-src 'self'; form-action 'self'; frame-ancestors 'none'; base-uri 'none'"
    };
    let mut headers: Vec<(&'static str, &'static str)> = Vec::new();
    headers.push(("x-content-type-options", "nosniff"));
    headers.push(("referrer-policy", "same-origin"));
    headers.push(("content-security-policy", policy));
    if !cached {
        headers.push(("cache-control", "private, no-store"));
    }
    assert(headers@ =~= admin_headers(status, scripted, cached));
    headers
}

/// A name among the embedded font files.
pub open spec fn known_font(name: Seq<char>) -> bool {
    ||| name == "AtkinsonHyperlegibleNext-Regular.woff2"@
    ||| name == "AtkinsonHyperlegibleNext-SemiBold.woff2"@
    ||| name == "AtkinsonHyperlegibleNext-Bold.woff2"@
    ||| name == "AtkinsonHyperlegibleMono-Regular.woff2"@
    ||| name == "AtkinsonHyperlegibleMono-Medium.woff2"@
}

/// Decides whether a name is that of an embedded font; any other is not found.
pub fn is_font(name: &str) -> (r: bool)
    ensures
        r == known_font(name@),
{
    same(name, "AtkinsonHyperlegibleNext-Regular.woff2") || same(
        name,
        "AtkinsonHyperlegibleNext-SemiBold.woff2",
    ) || same(name, "AtkinsonHyperlegibleNext-Bold.woff2") || same(
        name,
        "AtkinsonHyperlegibleMono-Regular.woff2",
    ) || same(name, "AtkinsonHyperlegibleMono-Medium.woff2")
}

}
