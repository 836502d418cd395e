//! Authenticated native creation with final access chosen before publication.
use crate::auth::password::Password;
use crate::auth::sessions::{
    expiring_twice, form_accepted, live_at, SessionView, Sessions,
};
use crate::auth::tokens::text_view;
use crate::error::{diagnostic, rejected, AppError};
use crate::routes::admin::{enter, gate, sessions_seen, Head};
use crate::routes::cookies::CookieKey;
use crate::routes::forms::RawForm;
use crate::routes::reply::{
    error_status, feedback, feedback_text, is_server_error, page, redirects, server_error, shows,
    Reply,
};
use crate::routes::settings::{
    access_intent, field, intend, prepare_failure, Intent,
};
use crate::routes::upload::{
    access_choice, blank_form, builder_matches, form_read, query_input, FormView, Input, PublishingForm,
};
use crate::routes::{forbidden, header_views, invalid_form, origin_allowed, unverified};
use crate::sites::new_site::{
    build_error, built, error_field, form_message, optional_text, reject_message, InputError,
    NewSite, NewSiteBuilder,
};
use crate::sites::validate::{valid_slug, Slug};
use crate::sites::MAX_SITE_FILES;
use crate::status;
use crate::text::{chars_of, decimal, push_decimal, push_text, same};
use vstd::prelude::*;

verus! {

pub const BYTES_PER_MIB: usize = 1_048_576;

/// A body as it was read: its form and its encoded length.
pub type Body = Result<(RawForm, usize), AppError>;

/// What an oversized upload is told.
pub open spec fn limit_text(max_upload_bytes: usize, input: Input) -> Seq<char> {
    "The request limit is "@ + decimal((max_upload_bytes / BYTES_PER_MIB) as nat) + if input
        == Input::Html {
        " MiB, including multipart overhead. Reduce the HTML and paste it again. The oversized form was not kept."@
    } else {
        " MiB, including multipart overhead. Choose fewer or smaller files and select them again. The oversized form was not kept."@
    }
}

fn limit_message(max_upload_bytes: usize, input: Input) -> (r: String)
    ensures
        r@ == limit_text(max_upload_bytes, input),
{
    let rest: &'static str = match input {
        Input::Html =>
            " MiB, including multipart overhead. Reduce the HTML and paste it again. The oversized form was not kept.",
        _ =>
            " MiB, including multipart overhead. Choose fewer or smaller files and select them again. The oversized form was not kept.",
    };
    let mut text = String::new();
    push_text(&mut text, "The request limit is ");
    push_decimal(&mut text, (max_upload_bytes / BYTES_PER_MIB) as u64);
    push_text(&mut text, rest);
    assert(text@ =~= limit_text(max_upload_bytes, input));
    text
}

/// How a correctable failure of a publication is presented, without exposing
/// operational details.
pub open spec fn rejected_with(error: AppError, field: Option<Seq<char>>, reply: Reply) -> bool {
    if error_status(error) == status::FORBIDDEN {
        reply == Reply::Failed(error)
    } else if server_error(error_status(error)) {
        shows(
            reply,
            error_status(error),
            "Publication could not be confirmed. Your existing sites were not changed."@,
            None,
        )
    } else {
        shows(reply, error_status(error), diagnostic(error.kind), field)
    }
}

/// Presents correctable failures without exposing operational details.
pub fn reject(error: AppError, field: Option<&str>) -> (r: Reply)
    ensures
        rejected_with(error, text_view(field), r),
{
    let status: u16 = error.into_response().0;
    if status == status::FORBIDDEN {
        return Reply::Failed(error);
    }
    if is_server_error(status) {
        return page(
            status,
            "Publication could not be confirmed. Your existing sites were not changed.",
            None,
        );
    }
    let message: String = error.to_text();
    page(status, message.as_str(), field)
}

/// A request to publish a new site in a live session.
pub struct CreateRequest {
    pub session_id: String,
    pub csrf_token: String,
    /// The form that a page shows: blank until the submitted one was read.
    pub form: PublishingForm,
    /// The validated content, once the submitted form held it.
    pub input: Option<NewSite>,
}

/// What is to be done next for a request to publish.
pub enum CreateStep {
    /// The request is answered without a publication.
    Reply(Reply),
    /// A password is hashed on a bounded worker.
    Hash(String),
    /// The site is published.
    Publish(NewSite),
}

/// The slug that a form asks for.
pub open spec fn asked_slug(form: FormView) -> Option<Seq<char>> {
    if form.slug.len() == 0 {
        None
    } else {
        Some(form.slug)
    }
}

/// The characters of an optional slug.
pub open spec fn slug_text(slug: Option<Slug>) -> Option<Seq<char>> {
    match slug {
        Some(slug) => Some(slug@),
        None => None,
    }
}

/// Whether a site is what a form stands for.
pub open spec fn site_of(
    form: FormView,
    slug: Option<Slug>,
    max_upload_bytes: usize,
    site: NewSite,
) -> bool {
    exists|builder: NewSiteBuilder| #[trigger]
        builder_matches(builder, form, slug, max_upload_bytes) && build_error(builder) is None
            && built(builder, site)
}

/// Whether a form is rejected with this error.
pub open spec fn form_rejected(
    form: FormView,
    slug: Option<Slug>,
    max_upload_bytes: usize,
    error: InputError,
) -> bool {
    exists|builder: NewSiteBuilder| #[trigger]
        builder_matches(builder, form, slug, max_upload_bytes) && build_error(builder) == Some(
            error,
        )
}

/// What follows once the access of a new site is known: keeping a password is
/// impossible, and the session must still be live.
pub open spec fn create_access(
    access: Option<Password>,
    token: Seq<char>,
    session_id: Seq<char>,
    store: Map<Seq<char>, SessionView>,
    now: u64,
    input: NewSite,
    step: CreateStep,
) -> bool {
    if form_accepted(store, session_id, token, now) {
        step == CreateStep::Publish((NewSite { password: access, ..input }))
    } else {
        step == CreateStep::Reply(Reply::Failed(unverified()))
    }
}

/// What a form that was read and verified comes to, with the content that it
/// stands for where it is accepted.
pub open spec fn create_verified(
    form: FormView,
    max_upload_bytes: usize,
    session_id: Seq<char>,
    store: Map<Seq<char>, SessionView>,
    now: u64,
    input: Option<NewSite>,
    step: CreateStep,
) -> bool {
    match asked_slug(form) {
        Some(text) if !valid_slug(text) => input is None && (step matches CreateStep::Reply(reply)
            && rejected_with(
            rejected(status::BAD_REQUEST, "Invalid site slug."),
            Some("slug"@),
            reply,
        )),
        _ => exists|slug: Option<Slug>|
            slug_text(slug) == asked_slug(form) && #[trigger] create_content(
                form,
                slug,
                max_upload_bytes,
                session_id,
                store,
                now,
                input,
                step,
            ),
    }
}

/// What a form with a valid slug or none comes to.
pub open spec fn create_content(
    form: FormView,
    slug: Option<Slug>,
    max_upload_bytes: usize,
    session_id: Seq<char>,
    store: Map<Seq<char>, SessionView>,
    now: u64,
    input: Option<NewSite>,
    step: CreateStep,
) -> bool {
    let choice = access_choice(form);
    ||| exists|error: InputError| #[trigger]
        form_rejected(form, slug, max_upload_bytes, error) && input is None && (step matches
            CreateStep::Reply(reply) && shows(
            reply,
            status::BAD_REQUEST,
            form_message(error)@,
            Some(error_field(error)@),
        ))
    ||| exists|site: NewSite| #[trigger]
        site_of(form, slug, max_upload_bytes, site) && match access_intent(choice, form.password) {
            Err(error) => step matches CreateStep::Reply(reply) && prepare_failure(
                error,
                choice,
                reply,
            ),
            Ok(Intent::Open) => create_access(
                None,
                form.csrf_token,
                session_id,
                store,
                now,
                site,
                step,
            ),
            Ok(Intent::Keep) => step matches CreateStep::Reply(reply) && rejected_with(
                rejected(status::BAD_REQUEST, reject_message(InputError::Password)),
                Some("password"@),
                reply,
            ),
            Ok(Intent::Hash) => input == Some(site) && (step matches CreateStep::Hash(password)
                && password@ == form.password),
        }
}

/// What a body comes to.
pub open spec fn create_submitted(
    body: Body,
    blank: Input,
    max_upload_bytes: usize,
    session_id: Seq<char>,
    store: Map<Seq<char>, SessionView>,
    now: u64,
    input: Option<NewSite>,
    step: CreateStep,
) -> bool {
    match body {
        Err(error) => step matches CreateStep::Reply(reply) && shows(
            reply,
            error_status(error),
            if error_status(error) == status::PAYLOAD_TOO_LARGE {
                limit_text(max_upload_bytes, blank)
            } else {
                diagnostic(error.kind)
            },
            None,
        ),
        Ok((raw, length)) => match form_read(raw, length) {
            Err(error) => step matches CreateStep::Reply(reply) && rejected_with(
                error,
                None,
                reply,
            ),
            Ok(form) => if !form_accepted(store, session_id, form.csrf_token, now) {
                step == CreateStep::Reply(Reply::Failed(unverified()))
            } else {
                create_verified(form, max_upload_bytes, session_id, store, now, input, step)
            },
        },
    }
}

/// A body that holds a readable form.
pub open spec fn body_read(body: Body) -> bool {
    body matches Ok((raw, length)) && form_read(raw, length) is Ok
}

/// The form that a page shows after a body was read: the submitted one without
/// its password and its files, or the blank one.
pub open spec fn kept_form(body: Body, blank: FormView) -> FormView {
    match body {
        Err(_) => blank,
        Ok((raw, length)) => match form_read(raw, length) {
            Err(_) => blank,
            Ok(form) => form,
        },
    }
}

/// Two forms that agree in all that a page shows.
pub open spec fn same_shown(a: FormView, b: FormView) -> bool {
    &&& a.csrf_token == b.csrf_token
    &&& a.html == b.html
    &&& a.title == b.title
    &&& a.slug == b.slug
    &&& a.entry == b.entry
    &&& a.input == b.input
    &&& a.visibility == b.visibility
    &&& a.expires_in == b.expires_in
}

/// How the creation of a site is opened: with the session that it came in, and
/// a blank form for the input that its query selects.
pub open spec fn creation_opened(
    session: Result<(Seq<char>, Seq<char>), AppError>,
    input: Option<Input>,
    r: Result<CreateRequest, AppError>,
) -> bool {
    match session {
        Err(error) => r == Err::<CreateRequest, AppError>(error),
        Ok((id, token)) => match input {
            None => r == Err::<CreateRequest, AppError>(invalid_form()),
            Some(input) => r matches Ok(request) && request.session_id@ == id
                && request.csrf_token@ == token && request.form@ == blank_form(input)
                && request.input is None,
        },
    }
}

/// How a creation goes on after its password was hashed.
pub open spec fn creation_hashed(
    hashed: Result<Password, AppError>,
    form: FormView,
    session_id: Seq<char>,
    store: Map<Seq<char>, SessionView>,
    now: u64,
    input: NewSite,
    step: CreateStep,
) -> bool {
    match hashed {
        Err(error) => step matches CreateStep::Reply(reply) && prepare_failure(
            error,
            access_choice(form),
            reply,
        ),
        Ok(password) => create_access(
            Some(password),
            form.csrf_token,
            session_id,
            store,
            now,
            input,
            step,
        ),
    }
}

impl CreateRequest {
    /// Checks origin, session and query before the body is read.
    pub fn open(head: &Head, key: &CookieKey, sessions: &mut Sessions, now: u64) -> (r: Result<
        Self,
        AppError,
    >)
        ensures
            creation_opened(
                gate(*head, key@, old(sessions)@, now),
                query_input(optional_text(head.query)),
                r,
            ),
            final(sessions)@ == if origin_allowed(
                header_views(head.origins@),
                header_views(head.hosts@),
            ) {
                sessions_seen(header_views(head.cookies@), key@, old(sessions)@, now)
            } else {
                old(sessions)@
            },
    {
        match enter(head, key, sessions, now) {
            Err(error) => Err(error),
            Ok((session_id, csrf_token)) => {
                let query: Option<&str> = match &head.query {
                    Some(text) => Some(text.as_str()),
                    None => None,
                };
                match PublishingForm::for_query(query) {
                    Err(error) => Err(error),
                    Ok(form) => Ok(CreateRequest { session_id, csrf_token, form, input: None }),
                }
            },
        }
    }

    /// Decides on a submitted body: it must be read, verified and validated
    /// before anything is hashed or published.
    pub fn submit(
        &mut self,
        body: Body,
        max_upload_bytes: usize,
        sessions: &mut Sessions,
        now: u64,
    ) -> (r: CreateStep)
        requires
            old(self).input is None,
        ensures
            create_submitted(
                body,
                old(self).form.input,
                max_upload_bytes,
                old(self).session_id@,
                old(sessions)@,
                now,
                final(self).input,
                r,
            ),
            final(self).session_id == old(self).session_id,
            final(self).csrf_token == old(self).csrf_token,
            same_shown(final(self).form@, kept_form(body, old(self).form@)),
            final(sessions)@ == if body_read(body) {
                live_at(old(sessions)@, now)
            } else {
                old(sessions)@
            },
    {
        let (raw, length): (RawForm, usize) = match body {
            Err(error) => {
                let status: u16 = error.into_response().0;
                let message: String = if status == status::PAYLOAD_TOO_LARGE {
                    limit_message(max_upload_bytes, self.form.input)
                } else {
                    error.to_text()
                };
                return CreateStep::Reply(Reply::Page(status, message, None));
            },
            Ok((raw, length)) => (raw, length),
        };
        let mut submitted: PublishingForm = match PublishingForm::read(raw, length) {
            Err(error) => {
                return CreateStep::Reply(reject(error, None));
            },
            Ok(submitted) => submitted,
        };
        let ghost form = submitted@;
        let ghost store = old(sessions)@;
        let ghost id = self.session_id@;
        proof {
            expiring_twice(store, now);
        }
        let accepted: bool = sessions.verify_at(
            self.session_id.as_str(),
            submitted.csrf_token.as_str(),
            now,
        );
        if !accepted {
            self.form = submitted;
            return CreateStep::Reply(Reply::Failed(forbidden()));
        }
        let wanted: Vec<char> = chars_of(submitted.slug.as_str());
        let slug: Option<Slug> = if wanted.len() == 0 {
            None
        } else {
            match Slug::parse(submitted.slug.as_str()) {
                Ok(slug) => Some(slug),
                Err(error) => {
                    self.form = submitted;
                    return CreateStep::Reply(reject(error, Some("slug")));
                },
            }
        };
        assert(slug_text(slug) == asked_slug(form));
        let input: NewSite = match submitted.input(slug, max_upload_bytes) {
            Err(error) => {
                self.form = submitted;
                let step = CreateStep::Reply(
                    page(status::BAD_REQUEST, error.message(), Some(error.field())),
                );
                proof {
                    assert(form_rejected(form, slug, max_upload_bytes, error));
                    assert(create_content(
                        form,
                        slug,
                        max_upload_bytes,
                        id,
                        store,
                        now,
                        self.input,
                        step,
                    ));
                }
                return step;
            },
            Ok(input) => input,
        };
        assert(site_of(form, slug, max_upload_bytes, input));
        let mut password: String = String::new();
        std::mem::swap(&mut password, &mut submitted.password);
        let intent: Result<Intent, AppError> = intend(submitted.visibility(), password.as_str());
        let step = match intent {
            Err(error) => CreateStep::Reply(
                crate::routes::settings::preparation_failed(error, submitted.visibility()),
            ),
            Ok(Intent::Keep) => CreateStep::Reply(
                reject(InputError::Password.reject(), Some("password")),
            ),
            Ok(Intent::Hash) => {
                self.input = Some(input);
                CreateStep::Hash(password)
            },
            Ok(Intent::Open) => {
                if sessions.verify_at(
                    self.session_id.as_str(),
                    submitted.csrf_token.as_str(),
                    now,
                ) {
                    CreateStep::Publish(input.with_password(None))
                } else {
                    CreateStep::Reply(Reply::Failed(forbidden()))
                }
            },
        };
        self.form = submitted;
        assert(create_content(form, slug, max_upload_bytes, id, store, now, self.input, step));
        step
    }

    /// Decides on the publication once the password was hashed. A queued
    /// password operation does not authorize a newly revoked session.
    pub fn hashed(
        &mut self,
        hashed: Result<Password, AppError>,
        sessions: &mut Sessions,
        now: u64,
    ) -> (r: CreateStep)
        requires
            old(self).input is Some,
        ensures
            creation_hashed(
                hashed,
                old(self).form@,
                old(self).session_id@,
                old(sessions)@,
                now,
                old(self).input->0,
                r,
            ),
            final(self).session_id == old(self).session_id,
            final(self).csrf_token == old(self).csrf_token,
            final(self).form == old(self).form,
            final(sessions)@ == if hashed is Ok {
                live_at(old(sessions)@, now)
            } else {
                old(sessions)@
            },
    {
        let password: Password = match hashed {
            Err(error) => {
                return CreateStep::Reply(
                    crate::routes::settings::preparation_failed(error, self.form.visibility()),
                );
            },
            Ok(password) => password,
        };
        if !sessions.verify_at(
            self.session_id.as_str(),
            self.form.csrf_token.as_str(),
            now,
        ) {
            return CreateStep::Reply(Reply::Failed(forbidden()));
        }
        let mut input: Option<NewSite> = None;
        std::mem::swap(&mut input, &mut self.input);
        match input {
            Some(site) => CreateStep::Publish(site.with_password(Some(password))),
            None => CreateStep::Reply(Reply::Failed(forbidden())),
        }
    }
}

/// The local address of a site's details.
pub open spec fn detail_url(slug: Seq<char>, query: Seq<char>) -> Seq<char> {
    "/sites/"@ + slug + query
}

/// Builds the local address of a site's details.
pub fn detail_link(slug: &str, query: &str) -> (r: String)
    ensures
        r@ == detail_url(slug@, query@),
{
    let mut url = String::new();
    push_text(&mut url, "/sites/");
    push_text(&mut url, slug);
    push_text(&mut url, query);
    assert(url@ =~= detail_url(slug@, query@));
    url
}

/// The answer to a publication by how it came out.
pub open spec fn publication_reply(outcome: Result<String, AppError>, reply: Reply) -> bool {
    match outcome {
        Ok(slug) => redirects(reply, detail_url(slug@, ""@)),
        Err(error) => rejected_with(error, Some("slug"@), reply),
    }
}

/// Answers a publication by how it came out, with the slug it was given.
pub fn published(outcome: Result<String, AppError>) -> (r: Reply)
    ensures
        publication_reply(outcome, r),
{
    match outcome {
        Ok(slug) => Reply::Redirect(detail_link(slug.as_str(), "")),
        Err(error) => reject(error, Some("slug")),
    }
}

/// A site is published only in a session that is live when the publication is
/// decided on, with that session's own form token, whatever was submitted.
pub proof fn creation_needs_a_live_session(
    body: Body,
    blank: Input,
    max_upload_bytes: usize,
    session_id: Seq<char>,
    store: Map<Seq<char>, SessionView>,
    now: u64,
    input: Option<NewSite>,
    step: CreateStep,
)
    requires
        create_submitted(body, blank, max_upload_bytes, session_id, store, now, input, step),
        step is Publish || step is Hash,
    ensures
        body matches Ok((raw, length)) && form_read(raw, length) matches Ok(form)
            && form_accepted(store, session_id, form.csrf_token, now),
{
}

/// Shows general feedback when its field is absent from the mode.
pub open spec fn general_feedback(field: Option<Seq<char>>, input: Input) -> bool {
    match field {
        None => true,
        Some(name) => if name == "title"@ || name == "slug"@ || name == "visibility"@ || name
            == "password"@ || name == "expires_in"@ {
            false
        } else if name == "html"@ {
            input != Input::Html
        } else if name == "files"@ {
            input != Input::Files
        } else if name == "zip"@ {
            input != Input::Zip
        } else if name == "entry"@ {
            input == Input::Html
        } else {
            true
        },
    }
}

/// Decides whether feedback is general: its field is absent from the mode.
pub fn general_error(field: Option<&str>, input: Input) -> (r: bool)
    ensures
        r == general_feedback(text_view(field), input),
{
    let name: &str = match field {
        None => {
            return true;
        },
        Some(name) => name,
    };
    if same(name, "title") || same(name, "slug") || same(name, "visibility") || same(
        name,
        "password",
    ) || same(name, "expires_in") {
        false
    } else if same(name, "html") {
        input != Input::Html
    } else if same(name, "files") {
        input != Input::Files
    } else if same(name, "zip") {
        input != Input::Zip
    } else if same(name, "entry") {
        input == Input::Html
    } else {
        true
    }
}

/// Shows the same file-count limit enforced by parsing and storage.
pub fn max_site_files() -> (r: usize)
    ensures
        r == MAX_SITE_FILES,
{
    MAX_SITE_FILES
}

/// A request to replace the content of a site in a live session.
pub struct ReplaceRequest {
    pub session_id: String,
    /// The site whose content is replaced.
    pub slug: String,
}

/// What is to be done next for a replacement.
pub enum ReplaceStep {
    /// The request is answered without a replacement.
    Reply(Reply),
    /// The content is replaced.
    Replace(NewSite),
}

/// How a failed replacement is presented on the detail page.
pub open spec fn replace_failure(error: AppError, field: Seq<char>, reply: Reply) -> bool {
    if error_status(error) == status::FORBIDDEN {
        reply == Reply::Failed(unverified())
    } else {
        shows(
            reply,
            error_status(error),
            if server_error(error_status(error)) {
                "Replacement could not be confirmed. The existing content was kept."@
            } else {
                feedback_text(error)
            },
            Some(field),
        )
    }
}

/// The answer to a replacement of a site's content by how it came out.
pub open spec fn replacement_reply(
    outcome: Result<bool, AppError>,
    slug: Seq<char>,
    reply: Reply,
) -> bool {
    match outcome {
        Ok(true) => redirects(reply, detail_url(slug, "?notice=replaced"@)),
        Ok(false) => reply == Reply::NotFound,
        Err(error) => replace_failure(error, "replace"@, reply),
    }
}

fn replace_failed(error: AppError, field: &str) -> (r: Reply)
    ensures
        replace_failure(error, field@, r),
{
    let (status, message): (u16, String) = feedback(error);
    if status == status::FORBIDDEN {
        Reply::Failed(forbidden())
    } else if is_server_error(status) {
        page(
            status,
            "Replacement could not be confirmed. The existing content was kept.",
            Some(field),
        )
    } else {
        page(status, message.as_str(), Some(field))
    }
}

/// What a submitted replacement comes to.
pub open spec fn replace_submitted(
    body: Body,
    max_upload_bytes: usize,
    session_id: Seq<char>,
    store: Map<Seq<char>, SessionView>,
    now: u64,
    step: ReplaceStep,
) -> bool {
    match body {
        Err(error) => step matches ReplaceStep::Reply(reply) && replace_failure(
            error,
            "replace"@,
            reply,
        ),
        Ok((raw, length)) => match form_read(raw, length) {
            Err(error) => step matches ReplaceStep::Reply(reply) && replace_failure(
                error,
                "replace"@,
                reply,
            ),
            Ok(form) => if !form_accepted(store, session_id, form.csrf_token, now) {
                step == ReplaceStep::Reply(Reply::Failed(unverified()))
            } else {
                ||| exists|error: InputError| #[trigger]
                    form_rejected(form, None, max_upload_bytes, error) && (step matches
                        ReplaceStep::Reply(reply) && replace_failure(
                        rejected(status::BAD_REQUEST, reject_message(error)),
                        "replace-"@ + error_field(error)@,
                        reply,
                    ))
                ||| step matches ReplaceStep::Replace(site) && site_of(
                    form,
                    None,
                    max_upload_bytes,
                    site,
                )
            },
        },
    }
}

impl ReplaceRequest {
    /// Decides on a submitted replacement: it must be read, verified and
    /// validated before any content changes.
    pub fn submit(
        &self,
        body: Body,
        max_upload_bytes: usize,
        sessions: &mut Sessions,
        now: u64,
    ) -> (r: ReplaceStep)
        ensures
            replace_submitted(
                body,
                max_upload_bytes,
                self.session_id@,
                old(sessions)@,
                now,
                r,
            ),
            final(sessions)@ == if body_read(body) {
                live_at(old(sessions)@, now)
            } else {
                old(sessions)@
            },
    {
        let (raw, length): (RawForm, usize) = match body {
            Err(error) => {
                return ReplaceStep::Reply(replace_failed(error, "replace"));
            },
            Ok((raw, length)) => (raw, length),
        };
        let mut submitted: PublishingForm = match PublishingForm::read(raw, length) {
            Err(error) => {
                return ReplaceStep::Reply(replace_failed(error, "replace"));
            },
            Ok(submitted) => submitted,
        };
        let ghost form = submitted@;
        if !sessions.verify_at(
            self.session_id.as_str(),
            submitted.csrf_token.as_str(),
            now,
        ) {
            return ReplaceStep::Reply(Reply::Failed(forbidden()));
        }
        match submitted.input(None, max_upload_bytes) {
            Ok(site) => {
                assert(site_of(form, None, max_upload_bytes, site));
                ReplaceStep::Replace(site)
            },
            Err(error) => {
                let mut field = String::new();
                push_text(&mut field, "replace-");
                push_text(&mut field, error.field());
                assert(field@ =~= "replace-"@ + error_field(error)@);
                assert(form_rejected(form, None, max_upload_bytes, error));
                ReplaceStep::Reply(replace_failed(error.reject(), field.as_str()))
            },
        }
    }

    /// Answers a replacement by how it came out.
    pub fn replaced(&self, outcome: Result<bool, AppError>) -> (r: Reply)
        ensures
            replacement_reply(outcome, self.slug@, r),
    {
        match outcome {
            Ok(true) => Reply::Redirect(detail_link(self.slug.as_str(), "?notice=replaced")),
            Ok(false) => Reply::NotFound,
            Err(error) => replace_failed(error, "replace"),
        }
    }
}

/// Content is replaced only in a session that is live when the replacement is
/// decided on, with that session's own form token.
pub proof fn replacement_needs_a_live_session(
    body: Body,
    max_upload_bytes: usize,
    session_id: Seq<char>,
    store: Map<Seq<char>, SessionView>,
    now: u64,
    step: ReplaceStep,
)
    requires
        replace_submitted(body, max_upload_bytes, session_id, store, now, step),
        step is Replace,
    ensures
        body matches Ok((raw, length)) && form_read(raw, length) matches Ok(form)
            && form_accepted(store, session_id, form.csrf_token, now),
{
}

}
