//! Bearer-token JSON API on the admin host, sharing the native form readers.
use crate::auth::password::Password;
use crate::auth::tokens::{constant_time_eq, text_view};
use crate::error::{publishing_failure, rejected, AppError};
use crate::routes::forms::text_or;
use crate::routes::management::{share_link, share_url};
use crate::routes::publishing::{asked_slug, form_rejected, site_of, slug_text, Body};
use crate::routes::settings::{access_intent, intend, Intent};
use crate::routes::upload::{form_read, FormView, PublishingForm};
use crate::routes::{header_chars, header_text};
use crate::sites::delete::DeleteOutcome;
use crate::sites::new_site::{optional_text, reject_message, InputError, NewSite};
use crate::sites::settings::{settings_of, texts_error, AccessUpdate, Settings, SettingsBuilder};
use crate::sites::validate::{valid_slug, Slug};
use crate::sites::Site;
use crate::status;
use crate::text::{chars_of, has_prefix, starts_with, string_of};
use vstd::prelude::*;

verus! {

/// What the token check of a request comes to.
#[derive(Clone, Copy, Debug, PartialEq, Eq, Structural)]
pub enum TokenCheck {
    /// No token is configured: the API is not there.
    NotFound,
    /// The token is missing or wrong.
    Unauthorized,
    /// The request may pass.
    Passed,
}

/// The bearer token that an authorization header presents.
pub open spec fn presented_token(authorization: Option<Seq<u8>>) -> Option<Seq<char>> {
    match authorization {
        None => None,
        Some(bytes) => match header_chars(bytes) {
            Some(text) if has_prefix(text, "Bearer "@) => Some(
                text.skip("Bearer "@.len() as int),
            ),
            _ => None,
        },
    }
}

/// What a request with this authorization header comes to.
pub open spec fn token_check(token: Option<Seq<char>>, authorization: Option<Seq<u8>>) -> TokenCheck {
    match token {
        None => TokenCheck::NotFound,
        Some(configured) => if presented_token(authorization) == Some(configured) {
            TokenCheck::Passed
        } else {
            TokenCheck::Unauthorized
        },
    }
}

/// Rejects every request without the exact configured bearer token.
pub fn require_token(token: Option<&str>, authorization: Option<&Vec<u8>>) -> (r: TokenCheck)
    ensures
        r == token_check(
            text_view(token),
            match authorization {
                Some(bytes) => Some(bytes@),
                None => None,
            },
        ),
{
    let configured: &str = match token {
        None => {
            return TokenCheck::NotFound;
        },
        Some(configured) => configured,
    };
    let text: String = match authorization {
        None => {
            return TokenCheck::Unauthorized;
        },
        Some(bytes) => match header_text(bytes.as_slice()) {
            None => {
                return TokenCheck::Unauthorized;
            },
            Some(text) => text,
        },
    };
    let chars: Vec<char> = chars_of(text.as_str());
    let prefix: Vec<char> = chars_of("Bearer ");
    if !starts_with(chars.as_slice(), prefix.as_slice()) {
        return TokenCheck::Unauthorized;
    }
    let rest: &[char] = vstd::slice::slice_subrange(chars.as_slice(), prefix.len(), chars.len());
    assert(rest@ =~= text@.skip("Bearer "@.len() as int));
    let presented: String = string_of(rest);
    proof {
        vstd::utf8::encode_utf8_decode_utf8(presented@);
        vstd::utf8::encode_utf8_decode_utf8(configured@);
    }
    if constant_time_eq(presented.as_str().as_bytes(), configured.as_bytes()) {
        TokenCheck::Passed
    } else {
        TokenCheck::Unauthorized
    }
}

/// Without a configured token the API is not there, and with one it answers to
/// that token alone.
pub proof fn only_the_configured_token_passes(
    token: Option<Seq<char>>,
    authorization: Option<Seq<u8>>,
)
    ensures
        token_check(token, authorization) == TokenCheck::Passed <==> token is Some
            && presented_token(authorization) == token,
        token is None ==> token_check(token, authorization) == TokenCheck::NotFound,
{
}

/// The share address of a site that the API reports.
pub fn present(site: &Site, public_url: &str) -> (r: Result<String, AppError>)
    ensures
        match r {
            Ok(url) => valid_slug(site.slug@) && url@ == share_url(public_url@, site.slug@),
            Err(error) => !valid_slug(site.slug@) && error == publishing_failure(),
        },
{
    match Slug::parse(site.slug.as_str()) {
        Ok(slug) => Ok(share_link(public_url, slug.as_str())),
        Err(_) => Err(AppError::publishing()),
    }
}

/// What is to be done for a request to publish.
pub enum CreateStep {
    /// A password is hashed for the site.
    Hash(NewSite, String),
    /// The site is published.
    Publish(NewSite),
}

/// The content that a form holds, or why it holds none.
pub open spec fn api_content(
    form: FormView,
    slug: Option<Slug>,
    max_upload_bytes: usize,
    content: Result<NewSite, AppError>,
) -> bool {
    match content {
        Ok(site) => site_of(form, slug, max_upload_bytes, site),
        Err(error) => exists|cause: InputError| #[trigger]
            form_rejected(form, slug, max_upload_bytes, cause) && error == rejected(
                status::BAD_REQUEST,
                reject_message(cause),
            ),
    }
}

/// What a valid form with its content comes to: keeping a password is
/// impossible for a new site.
pub open spec fn api_access(form: FormView, site: NewSite, r: Result<CreateStep, AppError>) -> bool {
    match access_intent(text_or(form.visibility, "open"@), form.password) {
        Err(error) => r == Err::<CreateStep, AppError>(error),
        Ok(Intent::Open) => r == Ok::<CreateStep, AppError>(
            CreateStep::Publish((NewSite { password: None, ..site })),
        ),
        Ok(Intent::Keep) => r == Err::<CreateStep, AppError>(
            rejected(status::BAD_REQUEST, reject_message(InputError::Password)),
        ),
        Ok(Intent::Hash) => r matches Ok(CreateStep::Hash(kept, password)) && kept == site
            && password@ == form.password,
    }
}

/// What a request to publish comes to.
pub open spec fn api_create(body: Body, max_upload_bytes: usize, r: Result<CreateStep, AppError>) -> bool {
    match body {
        Err(error) => r == Err::<CreateStep, AppError>(error),
        Ok((raw, length)) => match form_read(raw, length) {
            Err(error) => r == Err::<CreateStep, AppError>(error),
            Ok(form) => match asked_slug(form) {
                Some(text) if !valid_slug(text) => r == Err::<CreateStep, AppError>(
                    rejected(status::BAD_REQUEST, "Invalid site slug."),
                ),
                _ => exists|slug: Option<Slug>, content: Result<NewSite, AppError>|
                    slug_text(slug) == asked_slug(form) && #[trigger] api_content(
                        form,
                        slug,
                        max_upload_bytes,
                        content,
                    ) && match content {
                        Err(error) => r == Err::<CreateStep, AppError>(error),
                        Ok(site) => api_access(form, site, r),
                    },
            },
        },
    }
}

/// Decides on a request to publish: form, slug, content and access must be
/// valid before anything is hashed or published.
pub fn create(body: Body, max_upload_bytes: usize) -> (r: Result<CreateStep, AppError>)
    ensures
        api_create(body, max_upload_bytes, r),
{
    let mut form: PublishingForm = match body {
        Err(error) => {
            return Err(error);
        },
        Ok((raw, length)) => match PublishingForm::read(raw, length) {
            Err(error) => {
                return Err(error);
            },
            Ok(form) => form,
        },
    };
    let ghost read = form@;
    let wanted: Vec<char> = chars_of(form.slug.as_str());
    let slug: Option<Slug> = if wanted.len() == 0 {
        None
    } else {
        match Slug::parse(form.slug.as_str()) {
            Ok(slug) => Some(slug),
            Err(error) => {
                return Err(error);
            },
        }
    };
    assert(slug_text(slug) == asked_slug(read));
    let site: NewSite = match form.input(slug, max_upload_bytes) {
        Err(cause) => {
            let error: AppError = cause.reject();
            assert(form_rejected(read, slug, max_upload_bytes, cause));
            assert(api_content(read, slug, max_upload_bytes, Err(error)));
            return Err(error);
        },
        Ok(site) => site,
    };
    assert(site_of(read, slug, max_upload_bytes, site));
    assert(api_content(read, slug, max_upload_bytes, Ok(site)));
    let mut password: String = String::new();
    std::mem::swap(&mut password, &mut form.password);
    match intend(form.visibility(), password.as_str()) {
        Err(error) => Err(error),
        Ok(Intent::Open) => Ok(CreateStep::Publish(site.with_password(None))),
        Ok(Intent::Keep) => Err(InputError::Password.reject()),
        Ok(Intent::Hash) => Ok(CreateStep::Hash(site, password)),
    }
}

/// What a replacement comes to.
pub open spec fn api_replace(body: Body, max_upload_bytes: usize, r: Result<NewSite, AppError>) -> bool {
    match body {
        Err(error) => r == Err::<NewSite, AppError>(error),
        Ok((raw, length)) => match form_read(raw, length) {
            Err(error) => r == Err::<NewSite, AppError>(error),
            Ok(form) => api_content(form, None, max_upload_bytes, r),
        },
    }
}

/// Reads the content of a replacement.
pub fn replace(body: Body, max_upload_bytes: usize) -> (r: Result<NewSite, AppError>)
    ensures
        api_replace(body, max_upload_bytes, r),
{
    let mut form: PublishingForm = match body {
        Err(error) => {
            return Err(error);
        },
        Ok((raw, length)) => match PublishingForm::read(raw, length) {
            Err(error) => {
                return Err(error);
            },
            Ok(form) => form,
        },
    };
    let ghost read = form@;
    match form.input(None, max_upload_bytes) {
        Ok(site) => {
            assert(site_of(read, None, max_upload_bytes, site));
            Ok(site)
        },
        Err(cause) => {
            assert(form_rejected(read, None, max_upload_bytes, cause));
            Err(cause.reject())
        },
    }
}

/// Partial settings; absent keys keep the current values.
pub struct Patch {
    pub title: Option<String>,
    pub entry: Option<String>,
    pub visibility: Option<String>,
    pub password: Option<String>,
    pub expires_in: Option<String>,
}

/// The settings that a patch leads to, but for the access.
pub struct Patched {
    pub title: String,
    pub entry: String,
    pub expires_in: String,
}

/// What is to be done for a patch.
pub enum PatchStep {
    /// A password is hashed for these settings.
    Hash(Patched, String),
    /// The settings are saved.
    Save(Settings),
}

/// Whether texts are those of a patch, with the current ones where it has none.
pub open spec fn patched_texts(patch: Patch, current: Site, patched: Patched) -> bool {
    &&& patched.title@ == text_or(optional_text(patch.title), current.title@)
    &&& patched.entry@ == text_or(optional_text(patch.entry), current.entry@)
    &&& patched.expires_in@ == text_or(optional_text(patch.expires_in), "keep"@)
}

/// What settings with a known access come to.
pub open spec fn patched_settings(
    patched: Patched,
    access: AccessUpdate,
    r: Result<Settings, AppError>,
) -> bool {
    match texts_error(patched.title@, patched.entry@, patched.expires_in@) {
        Some(error) => r == Err::<Settings, AppError>(
            rejected(status::BAD_REQUEST, reject_message(error)),
        ),
        None => r matches Ok(settings) && settings_of(
            settings,
            patched.title@,
            patched.entry@,
            patched.expires_in@,
            access,
        ),
    }
}

impl Patched {
    /// Validates the settings with a known access.
    pub fn with_access(self, access: AccessUpdate) -> (r: Result<Settings, AppError>)
        ensures
            patched_settings(self, access, r),
    {
        match SettingsBuilder::new().title(self.title).entry(self.entry).access(access).expires_in(
            self.expires_in,
        ).build() {
            Ok(settings) => Ok(settings),
            Err(error) => Err(error.reject()),
        }
    }
}

/// What a patch comes to on a site.
pub open spec fn patch_outcome(patch: Patch, current: Site, r: Result<PatchStep, AppError>) -> bool {
    let visibility = text_or(optional_text(patch.visibility), current.visibility@);
    let password = text_or(optional_text(patch.password), ""@);
    match access_intent(visibility, password) {
        Err(error) => r == Err::<PatchStep, AppError>(error),
        Ok(Intent::Hash) => r matches Ok(PatchStep::Hash(patched, hashed)) && hashed@ == password
            && patched_texts(patch, current, patched),
        Ok(Intent::Open) => exists|patched: Patched| #[trigger]
            patched_texts(patch, current, patched) && patched_settings(
                patched,
                AccessUpdate::Open,
                saved_settings(r),
            ) && !(r matches Ok(PatchStep::Hash(_, _))),
        Ok(Intent::Keep) => exists|patched: Patched| #[trigger]
            patched_texts(patch, current, patched) && patched_settings(
                patched,
                AccessUpdate::Keep,
                saved_settings(r),
            ) && !(r matches Ok(PatchStep::Hash(_, _))),
    }
}

/// The settings that are saved.
pub open spec fn saved_settings(r: Result<PatchStep, AppError>) -> Result<Settings, AppError> {
    match r {
        Ok(PatchStep::Save(settings)) => Ok(settings),
        Ok(PatchStep::Hash(_, _)) => arbitrary(),
        Err(error) => Err(error),
    }
}

fn or_current(value: Option<String>, current: String) -> (r: String)
    ensures
        r@ == text_or(optional_text(value), current@),
{
    match value {
        Some(text) => text,
        None => current,
    }
}

/// Applies a patch to the current settings of a site; absent keys keep the
/// current values, and the expiry is kept where none is chosen.
pub fn update(patch: Patch, current: Site) -> (r: Result<PatchStep, AppError>)
    ensures
        patch_outcome(patch, current, r),
{
    let visibility: String = or_current(patch.visibility, current.visibility);
    let password: String = or_current(patch.password, "".to_owned());
    let patched = Patched {
        title: or_current(patch.title, current.title),
        entry: or_current(patch.entry, current.entry),
        expires_in: or_current(patch.expires_in, "keep".to_owned()),
    };
    assert(patched_texts(patch, current, patched));
    match intend(visibility.as_str(), password.as_str()) {
        Err(error) => Err(error),
        Ok(Intent::Hash) => Ok(PatchStep::Hash(patched, password)),
        Ok(Intent::Open) => match patched.with_access(AccessUpdate::Open) {
            Ok(settings) => Ok(PatchStep::Save(settings)),
            Err(error) => Err(error),
        },
        Ok(Intent::Keep) => match patched.with_access(AccessUpdate::Keep) {
            Ok(settings) => Ok(PatchStep::Save(settings)),
            Err(error) => Err(error),
        },
    }
}

/// The status of a deletion by how it came out.
pub open spec fn deletion_status(outcome: DeleteOutcome) -> u16 {
    if outcome == DeleteOutcome::NotFound {
        status::NOT_FOUND
    } else {
        status::NO_CONTENT
    }
}

/// The status that a deletion is answered with.
pub fn delete_status(outcome: DeleteOutcome) -> (r: u16)
    ensures
        r == deletion_status(outcome),
{
    match outcome {
        DeleteOutcome::NotFound => status::NOT_FOUND,
        DeleteOutcome::Deleted | DeleteOutcome::DeletedContentRetained => status::NO_CONTENT,
    }
}

/// A status of a request or a server that failed.
pub open spec fn failing_status(status: u16) -> bool {
    400 <= status < 600
}

/// Decides whether a response is rendered as a JSON error.
pub fn renders_error(status: u16) -> (r: bool)
    ensures
        r == failing_status(status),
{
    400 <= status && status < 600
}

}
