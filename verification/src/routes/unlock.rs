//! Native viewer unlock with independent CSRF and generation-bound grants.
use crate::auth::password::Password;
use crate::auth::tokens::{
    challenge_made, clock_gives, hex_text, issued, issued_afresh, just_issued, kept_token,
    made_payloads_are_current, new_challenge, payload_made,
};
use crate::auth::viewer_tokens::{
    grant_accepted, grant_domain, unlock_accepted, unlock_domain, unlock_prefix,
    verify_viewer_challenge_at, verify_viewer_grant_at, viewer_grant,
};
use crate::auth::{VIEWER_CHALLENGE_LIFETIME, VIEWER_GRANT_LIFETIME};
use crate::config::{password_allowed, valid_password};
use crate::error::{authentication_failure, publishing_failure, rejected, AppError};
use crate::ip::IpAddr;
use crate::routes::admin::{cookie_is, CookieWrite, Head};
use crate::routes::cookies::CookieKey;
use crate::routes::forms::{form_values, password_fields, text_or, PasswordForm, RawForm};
use crate::routes::reply::{
    error_status, feedback, feedback_text, is_server_error, page, server_error, shows, Reply,
};
use crate::routes::view::{
    self, available, challenge_cookie, challenge_name, checked_now, grant_cookie, grant_name,
    site_available, site_root, viewer_value,
};
use crate::routes::{
    check_origin, client_address, header_views, origin_allowed, ClientIpSource,
};
use crate::sites::new_site::optional_text;
use crate::sites::validate::Slug;
use crate::sites::AccessSite;
use crate::status;
use crate::text::push_text;
use vstd::prelude::*;

verus! {

/// The local address of the unlock form of a site.
pub open spec fn unlock_url(slug: Seq<char>) -> Seq<char> {
    site_root(slug) + "__unlock"@
}

/// Returns a local unlock location without a client-controlled target.
pub fn redirect(slug: &Slug) -> (r: String)
    ensures
        r@ == unlock_url(slug@),
{
    let mut url: String = view::site_link(slug);
    push_text(&mut url, "__unlock");
    url
}

/// The credential that a site can be unlocked with: that of a known, unexpired,
/// protected site.
pub open spec fn unlockable(row: Option<AccessSite>, now: Option<u64>) -> Result<
    Option<Password>,
    AppError,
> {
    match row {
        None => Ok(None),
        Some(found) => match now {
            Some(second) if second <= i64::MAX => if site_available(
                found.site.visibility@,
                found.site.expires_at,
                second as int,
            ) {
                Ok(found.password)
            } else {
                Ok(None)
            },
            _ => Err(publishing_failure()),
        },
    }
}

/// Finds the credential that a site can be unlocked with; anything else is not
/// found. The unlock form and its assets are there for such sites alone.
pub fn find_password(row: Option<AccessSite>, now: Option<u64>) -> (r: Result<
    Option<Password>,
    AppError,
>)
    ensures
        r == unlockable(row, now),
{
    match row {
        None => Ok(None),
        Some(found) => match checked_now(now) {
            Err(error) => Err(error),
            Ok(second) => {
                if available(&found.site, second as i64) {
                    Ok(found.password)
                } else {
                    Ok(None)
                }
            },
        },
    }
}

/// A challenge of a site that can be shown again: it is live, and holds this
/// token.
pub open spec fn kept_challenge(
    payload: Option<Seq<char>>,
    slug: Seq<char>,
    token: Seq<char>,
    now: Option<u64>,
) -> bool {
    now matches Some(second) && unlock_accepted(payload, slug, token, second as int)
}

/// The challenge that an unlock form is bound to.
pub struct UnlockChallenge {
    /// The token that the form must send back.
    pub csrf_token: String,
    /// The cookie to send, where the challenge is new.
    pub cookie: Option<CookieWrite>,
}

/// A new challenge of a site, its token and its cookie.
pub open spec fn newly_issued(shown: UnlockChallenge, slug: Seq<char>) -> bool {
    &&& shown.cookie matches Some(cookie)
    &&& issued_afresh(
        unlock_domain(slug),
        VIEWER_CHALLENGE_LIFETIME,
        shown.csrf_token@,
        cookie.value@,
    )
    &&& cookie_is(
        cookie,
        challenge_cookie(slug),
        cookie.value@,
        site_root(slug),
        Some(VIEWER_CHALLENGE_LIFETIME),
        true,
    )
}

/// The challenge that an unlock form shows: one that the browser still holds, or
/// a new one where it holds none.
pub open spec fn unlock_challenged(
    existing: Option<Seq<char>>,
    slug: Seq<char>,
    now: Option<u64>,
    r: Result<UnlockChallenge, AppError>,
) -> bool {
    match r {
        Ok(shown) => if shown.cookie is None {
            kept_challenge(existing, slug, shown.csrf_token@, now)
        } else {
            &&& forall|token: Seq<char>| !#[trigger] kept_challenge(existing, slug, token, now)
            &&& newly_issued(shown, slug)
        },
        Err(error) => {
            &&& error == authentication_failure()
            &&& challenge_made(unlock_domain(slug), VIEWER_CHALLENGE_LIFETIME, Err(error))
            &&& forall|token: Seq<char>| !#[trigger] kept_challenge(existing, slug, token, now)
        },
    }
}

/// Keeps a live slug-bound challenge, or issues a new one with a fresh token at
/// the second that the clock gives.
pub fn show(existing: Option<String>, slug: &Slug, now: Option<u64>) -> (r: Result<
    UnlockChallenge,
    AppError,
>)
    ensures
        unlock_challenged(optional_text(existing), slug@, now, r),
{
    let prefix: String = unlock_prefix(slug);
    match kept_token(&existing, prefix.as_str(), VIEWER_CHALLENGE_LIFETIME, now) {
        Some(csrf_token) => Ok(UnlockChallenge { csrf_token, cookie: None }),
        None => match new_challenge(prefix.as_str(), VIEWER_CHALLENGE_LIFETIME) {
            Err(error) => Err(error),
            Ok((csrf_token, payload)) => {
                let sent: CookieWrite = view::cookie(
                    challenge_name(slug),
                    payload,
                    slug,
                    Some(VIEWER_CHALLENGE_LIFETIME),
                );
                Ok(UnlockChallenge { csrf_token, cookie: Some(sent) })
            },
        },
    }
}

/// What an unlock page is for, by the values of the grant and challenge cookies:
/// nothing where the grant opens the site, else the challenge that is held.
pub open spec fn unlock_page(
    grant: Result<Option<Seq<char>>, AppError>,
    challenge: Result<Option<Seq<char>>, AppError>,
    slug: Seq<char>,
    salt: Seq<u8>,
    now: Option<u64>,
    r: Result<Option<Option<String>>, AppError>,
) -> bool {
    match (grant, challenge) {
        (Ok(granted), Ok(held)) => if now matches Some(second) && grant_accepted(
            granted,
            slug,
            salt,
            second as int,
        ) {
            r == Ok::<Option<Option<String>>, AppError>(None)
        } else {
            r matches Ok(Some(existing)) && optional_text(existing) == held
        },
        (Err(error), _) => r == Err::<Option<Option<String>>, AppError>(error),
        (_, Err(error)) => r == Err::<Option<Option<String>>, AppError>(error),
    }
}

/// What the unlock page does for a viewer: one with a grant goes on to the
/// site, anyone else sees the form with the challenge that was sent. Without a
/// reading of the clock no grant passes.
pub fn page_for(
    cookies: &Vec<Vec<u8>>,
    key: &CookieKey,
    slug: &Slug,
    password: &Password,
    now: Option<u64>,
) -> (r: Result<Option<Option<String>>, AppError>)
    ensures
        unlock_page(
            viewer_value(header_views(cookies@), key@, slug@, grant_cookie(slug@)),
            viewer_value(header_views(cookies@), key@, slug@, challenge_cookie(slug@)),
            slug@,
            password.salt(),
            now,
            r,
        ),
{
    let name: String = grant_name(slug);
    let grant: Option<String> = match view::read(cookies, key, slug, name.as_str()) {
        Err(error) => {
            return Err(error);
        },
        Ok(grant) => grant,
    };
    let name: String = challenge_name(slug);
    let challenge: Option<String> = match view::read(cookies, key, slug, name.as_str()) {
        Err(error) => {
            return Err(error);
        },
        Ok(challenge) => challenge,
    };
    let granted: bool = match (&grant, now) {
        (Some(payload), Some(second)) => verify_viewer_grant_at(
            Some(payload.as_str()),
            slug,
            password,
            second,
        ),
        _ => false,
    };
    if granted {
        Ok(None)
    } else {
        Ok(Some(challenge))
    }
}

/// An unlock request whose head was accepted.
pub struct UnlockRequest {
    /// The value of the challenge cookie.
    pub challenge: Option<String>,
    /// The client address that failures are counted for.
    pub ip: IpAddr,
}

/// What an unlock request comes to before its body is read: nothing where it
/// comes from another origin, which shows a new form.
pub open spec fn unlock_head(
    head: Head,
    key: Seq<u8>,
    slug: Seq<char>,
    source: ClientIpSource,
    peer: Seq<u16>,
) -> Result<Option<(Option<Seq<char>>, Seq<u16>)>, AppError> {
    if !origin_allowed(header_views(head.origins@), header_views(head.hosts@)) {
        Ok(None)
    } else {
        match viewer_value(header_views(head.cookies@), key, slug, challenge_cookie(slug)) {
            Err(error) => Err(error),
            Ok(challenge) => match client_address(source, header_views(head.forwarded@), peer) {
                None => Err(rejected(status::BAD_REQUEST, "invalid forwarded client address")),
                Some(ip) => Ok(Some((challenge, ip))),
            },
        }
    }
}

/// What is to be done for an unlock request whose form was read.
pub enum UnlockStep {
    /// The form is shown again.
    Show(Reply),
    /// The password is checked on a bounded worker.
    Verify(String),
}

/// How a failed unlock is presented, without retaining a submitted password.
pub open spec fn unlock_failure(error: AppError, reply: Reply) -> bool {
    shows(
        reply,
        error_status(error),
        if server_error(error_status(error)) {
            "Unlock could not be completed. Reopen the form and try again."@
        } else if error_status(error) == status::PAYLOAD_TOO_LARGE {
            "The unlock request or password is too large. Reopen the form and use a shorter password."@
        } else {
            feedback_text(error)
        },
        None,
    )
}

/// Presents safe request recovery without retaining a submitted password.
pub fn failure(error: AppError) -> (r: Reply)
    ensures
        unlock_failure(error, r),
{
    let (status, message): (u16, String) = feedback(error);
    if is_server_error(status) {
        page(status, "Unlock could not be completed. Reopen the form and try again.", None)
    } else if status == status::PAYLOAD_TOO_LARGE {
        page(
            status,
            "The unlock request or password is too large. Reopen the form and use a shorter password.",
            None,
        )
    } else {
        page(status, message.as_str(), None)
    }
}

/// What an unverified unlock request is told.
pub open spec fn shows_unverified(reply: Reply) -> bool {
    shows(
        reply,
        status::FORBIDDEN,
        "Request could not be verified. Reopen the unlock form."@,
        None,
    )
}

/// Presents an unverified unlock request.
pub fn unverified_form() -> (r: Reply)
    ensures
        shows_unverified(r),
{
    page(
        status::FORBIDDEN,
        "Request could not be verified. Reopen the unlock form.",
        None,
    )
}

/// What an unlock form comes to: it is complete, its token matches the
/// challenge, and its password is one.
pub open spec fn unlock_step(
    form: Result<RawForm, AppError>,
    challenge: Option<Seq<char>>,
    slug: Seq<char>,
    now: Option<u64>,
    step: UnlockStep,
) -> bool {
    match unlock_fields(form) {
        Err(error) => step matches UnlockStep::Show(reply) && unlock_failure(error, reply),
        Ok((password, token)) => if !kept_challenge(challenge, slug, token, now) {
            step matches UnlockStep::Show(reply) && shows_unverified(reply)
        } else if password_allowed(password) {
            step matches UnlockStep::Verify(checked) && checked@ == password
        } else {
            step matches UnlockStep::Show(reply) && shows(
                reply,
                status::BAD_REQUEST,
                "Enter a valid site password."@,
                Some("password"@),
            )
        },
    }
}

/// Password and token of an unlock form; what is missing is empty.
pub open spec fn unlock_fields(form: Result<RawForm, AppError>) -> Result<
    (Seq<char>, Seq<char>),
    AppError,
> {
    match form {
        Err(error) => Err(error),
        Ok(raw) => match form_values(raw, password_fields()) {
            Err(error) => Err(error),
            Ok(values) => Ok((text_or(values[0], ""@), text_or(values[1], ""@))),
        },
    }
}

impl UnlockRequest {
    /// Checks origin, cookies and client address before the body is read.
    pub fn open(
        head: &Head,
        key: &CookieKey,
        slug: &Slug,
        source: ClientIpSource,
        peer: &IpAddr,
    ) -> (r: Result<Option<Self>, AppError>)
        ensures
            (match r {
                Ok(Some(request)) => Ok(Some((optional_text(request.challenge), request.ip@))),
                Ok(None) => Ok(None),
                Err(error) => Err(error),
            }) == unlock_head(*head, key@, slug@, source, peer@),
    {
        if check_origin(&head.origins, &head.hosts).is_err() {
            return Ok(None);
        }
        let name: String = challenge_name(slug);
        match view::read(&head.cookies, key, slug, name.as_str()) {
            Err(error) => Err(error),
            Ok(challenge) => match source.resolve(&head.forwarded, peer) {
                Err(error) => Err(error),
                Ok(ip) => Ok(Some(UnlockRequest { challenge, ip })),
            },
        }
    }

    /// Verifies the complete native form before checking a bounded password job.
    pub fn submit(&self, form: Result<RawForm, AppError>, slug: &Slug, now: Option<u64>) -> (r:
        UnlockStep)
        ensures
            unlock_step(form, optional_text(self.challenge), slug@, now, r),
    {
        let fields: PasswordForm = match form {
            Err(error) => {
                return UnlockStep::Show(failure(error));
            },
            Ok(raw) => match PasswordForm::read(raw) {
                Err(error) => {
                    return UnlockStep::Show(failure(error));
                },
                Ok(fields) => fields,
            },
        };
        let token: String = match fields.csrf_token {
            Some(token) => token,
            None => "".to_owned(),
        };
        let verified: bool = match now {
            None => false,
            Some(second) => match &self.challenge {
                None => verify_viewer_challenge_at(None, slug, token.as_str(), second),
                Some(payload) => verify_viewer_challenge_at(
                    Some(payload.as_str()),
                    slug,
                    token.as_str(),
                    second,
                ),
            },
        };
        if !verified {
            return UnlockStep::Show(unverified_form());
        }
        let password: String = match fields.password {
            Some(password) => password,
            None => "".to_owned(),
        };
        if valid_password(password.as_str()) {
            UnlockStep::Verify(password)
        } else {
            UnlockStep::Show(
                page(status::BAD_REQUEST, "Enter a valid site password.", Some("password")),
            )
        }
    }
}

/// What is shown after the password check came out.
pub open spec fn check_reply(accepted: Result<bool, AppError>, shown: Option<Reply>) -> bool {
    match accepted {
        Err(error) => shown matches Some(reply) && unlock_failure(error, reply),
        Ok(false) => shown matches Some(reply) && shows(
            reply,
            status::UNAUTHORIZED,
            "Incorrect password. Try again."@,
            Some("password"@),
        ),
        Ok(true) => shown is None,
    }
}

/// Decides by how the password check came out: nothing is shown where the
/// password was accepted, and the access is checked once more.
pub fn checked(accepted: Result<bool, AppError>) -> (r: Option<Reply>)
    ensures
        check_reply(accepted, r),
{
    match accepted {
        Err(error) => Some(failure(error)),
        Ok(false) => Some(
            page(status::UNAUTHORIZED, "Incorrect password. Try again.", Some("password")),
        ),
        Ok(true) => None,
    }
}

/// How an accepted password is answered.
pub enum Unlocked {
    /// The site is gone meanwhile.
    NotFound,
    /// Its access changed meanwhile: the form is shown again.
    Show(Reply),
    /// The grant is issued: these cookies are sent, and the browser goes on.
    Granted(Vec<CookieWrite>, String),
}

/// Whether a grant was issued for the site and the password generation that was
/// verified, at a second that the clock gave, and the challenge is used up.
pub open spec fn grant_issued(
    cookies: Seq<CookieWrite>,
    location: Seq<char>,
    slug: Seq<char>,
    salt: Seq<u8>,
) -> bool {
    &&& location == site_root(slug)
    &&& cookies.len() == 2
    &&& cookie_is(cookies[0], challenge_cookie(slug), Seq::empty(), site_root(slug), None, true)
    &&& cookie_is(
        cookies[1],
        grant_cookie(slug),
        cookies[1].value@,
        site_root(slug),
        Some(VIEWER_GRANT_LIFETIME),
        true,
    )
    &&& just_issued(grant_domain(slug), hex_text(salt), VIEWER_GRANT_LIFETIME, cookies[1].value@)
}

/// How an unlock whose password was accepted comes out for the latest row.
pub open spec fn unlock_completed(
    row: Option<AccessSite>,
    slug: Seq<char>,
    salt: Seq<u8>,
    now: Option<u64>,
    r: Result<Unlocked, AppError>,
) -> bool {
    match row {
        None => r == Ok::<Unlocked, AppError>(Unlocked::NotFound),
        Some(found) => if now is None || now->0 > i64::MAX {
            r == Err::<Unlocked, AppError>(publishing_failure())
        } else if !site_available(
            found.site.visibility@,
            found.site.expires_at,
            now->0 as int,
        ) {
            r == Ok::<Unlocked, AppError>(Unlocked::NotFound)
        } else if found.password is None || found.password->0.salt() != salt {
            r matches Ok(Unlocked::Show(reply)) && shows(
                reply,
                status::CONFLICT,
                "Site access changed. Reopen the unlock form before retrying."@,
                None,
            )
        } else {
            match r {
                Ok(Unlocked::Granted(cookies, location)) => grant_issued(
                    cookies@,
                    location@,
                    slug,
                    salt,
                ),
                Err(error) => error == authentication_failure() && payload_made(
                    grant_domain(slug),
                    hex_text(salt),
                    VIEWER_GRANT_LIFETIME,
                    Err(error),
                ),
                _ => false,
            }
        },
    }
}

/// Rechecks current access after verification before issuing its exact grant:
/// the grant can refer only to the generation that was actually verified. It
/// expires seven days after the second that the clock gives.
pub fn complete(
    row: Option<AccessSite>,
    slug: &Slug,
    verified: &Password,
    now: Option<u64>,
) -> (r: Result<Unlocked, AppError>)
    ensures
        unlock_completed(row, slug@, verified.salt(), now, r),
{
    let found: AccessSite = match row {
        None => {
            return Ok(Unlocked::NotFound);
        },
        Some(found) => found,
    };
    let second: u64 = match checked_now(now) {
        Err(error) => {
            return Err(error);
        },
        Ok(second) => second,
    };
    if !available(&found.site, second as i64) {
        return Ok(Unlocked::NotFound);
    }
    let same: bool = match &found.password {
        None => false,
        Some(current) => verified.same_generation(current),
    };
    if !same {
        return Ok(
            Unlocked::Show(
                page(
                    status::CONFLICT,
                    "Site access changed. Reopen the unlock form before retrying.",
                    None,
                ),
            ),
        );
    }
    match viewer_grant(slug, verified) {
        Err(error) => Err(error),
        Ok(payload) => {
            proof {
                made_payloads_are_current(
                    grant_domain(slug@),
                    hex_text(verified.salt()),
                    VIEWER_GRANT_LIFETIME,
                    payload@,
                );
            }
            let mut cookies: Vec<CookieWrite> = Vec::new();
            cookies.push(view::cookie(challenge_name(slug), String::new(), slug, None));
            cookies.push(
                view::cookie(grant_name(slug), payload, slug, Some(VIEWER_GRANT_LIFETIME)),
            );
            let location: String = view::site_link(slug);
            Ok(Unlocked::Granted(cookies, location))
        },
    }
}

/// What an accepted unlock hands out, the viewer routes accept: for seven days
/// from the second that the clock gave on, and as long as the password stays the
/// same.
pub proof fn unlocking_opens_the_site(
    cookies: Seq<CookieWrite>,
    location: Seq<char>,
    slug: Seq<char>,
    salt: Seq<u8>,
)
    requires
        crate::sites::validate::valid_slug(slug),
        salt.len() == crate::auth::password::SALT_BYTES,
        grant_issued(cookies, location, slug, salt),
    ensures
        exists|made: u64|
            clock_gives(Some(made)) && #[trigger] opens_during_a_week(
                cookies[1].value@,
                slug,
                salt,
                made,
            ),
{
    let made = choose|made: u64|
        clock_gives(Some(made)) && made + VIEWER_GRANT_LIFETIME <= u64::MAX && cookies[1].value@
            == #[trigger] issued(
            grant_domain(slug),
            hex_text(salt),
            VIEWER_GRANT_LIFETIME,
            made,
        );
    assert forall|now: u64| #[trigger]
        grant_accepted(Some(cookies[1].value@), slug, salt, now as int) <==> made <= now < made
            + VIEWER_GRANT_LIFETIME by {
        crate::auth::viewer_tokens::grants_are_bound(slug, salt, made, slug, salt, now);
    }
    assert(opens_during_a_week(cookies[1].value@, slug, salt, made));
}

/// A grant that is accepted exactly in the seven days from a second on.
pub open spec fn opens_during_a_week(
    payload: Seq<char>,
    slug: Seq<char>,
    salt: Seq<u8>,
    made: u64,
) -> bool {
    forall|now: u64| #[trigger]
        grant_accepted(Some(payload), slug, salt, now as int) <==> made <= now < made
            + VIEWER_GRANT_LIFETIME
}

}
