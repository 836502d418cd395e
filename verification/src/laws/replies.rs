//! How submitted forms are decided on and answered.
use crate::auth::sessions::{form_accepted, SessionView};
use crate::error::{AppError, ErrorKind};
use crate::routes::admin::{
    admin_value, gate, keeps_theme, login_head, login_reply, login_step, logout_request,
    request_session, reusable, CookieWrite, Head, LoginReply, LoginStep,
};
use crate::routes::cookies::{cookies_allowed, signed_value};
use crate::routes::entry::{entered, Entry};
use crate::routes::forms::{
    delete_fields, form_values, password_fields, RawForm, SettingsForm, Values,
};
use crate::routes::management::{
    delete_decision, deletion_reply, detail_query_of, list_query, notice_text, page_url, presented,
    share_url, AdminSite, DeleteStep,
};
use crate::routes::publishing::{
    create_access, create_content, create_submitted, create_verified, form_rejected,
    general_feedback, kept_form, limit_text, publication_reply, rejected_with, replace_failure,
    replace_submitted, replacement_reply, same_shown, site_of, Body, CreateStep, ReplaceStep,
};
use crate::routes::reply::{shows, Reply};
use crate::routes::settings::{
    general_settings, prepare_failure, replace_field, saving_reply, settings_access,
    settings_rejected, settings_submitted, settings_values, shows_current, shows_submitted,
    SettingsStep,
};
use crate::routes::unlock::{
    check_reply, grant_issued, kept_challenge, newly_issued, unlock_failure, unlock_head,
    unlock_step, unlock_url, unlockable, UnlockChallenge, UnlockStep,
};
use crate::routes::upload::{form_read, FormView, Input};
use crate::routes::{body_failure, client_address, header_views, origin_allowed, ClientIpSource};
use crate::sites::delete::DeleteOutcome;
use crate::sites::new_site::{optional_text, InputError, NewSite};
use crate::sites::settings::AccessUpdate;
use crate::sites::validate::Slug;
use crate::sites::{AccessSite, SiteDetails};
use crate::text::decimal;
use vstd::prelude::*;

verus! {

/// A rejection with a status and a message.
pub open spec fn rejection(status: u16, message: &'static str) -> AppError {
    AppError { kind: ErrorKind::Request(status, message) }
}

/// The rejection of a request that could not be verified.
pub open spec fn unproven() -> AppError {
    rejection(403, "request could not be verified; reopen the sign-in page")
}

/// The text that a page shows.
pub open spec fn said(reply: Reply) -> Seq<char> {
    reply->Page_1@
}

/// Where the server fails, the pages say that a change could not be confirmed,
/// each in its own words and whatever the failure was; they keep its status.
pub proof fn server_failures_are_not_detailed(
    error: AppError,
    other: AppError,
    reply: Reply,
    second: Reply,
    field: Option<Seq<char>>,
)
    requires
        !(error.kind is Request),
        !(other.kind is Request),
    ensures
        rejected_with(error, field, reply) ==> shows(
            reply,
            500,
            "Publication could not be confirmed. Your existing sites were not changed."@,
            None,
        ),
        settings_rejected(error, reply) ==> shows(
            reply,
            500,
            "Settings could not be confirmed. Reopen this site's details before retrying."@,
            None,
        ),
        replace_failure(error, "replace"@, reply) ==> shows(
            reply,
            500,
            "Replacement could not be confirmed. The existing content was kept."@,
            Some("replace"@),
        ),
        unlock_failure(error, reply) ==> shows(
            reply,
            500,
            "Unlock could not be completed. Reopen the form and try again."@,
            None,
        ),
        prepare_failure(error, "password"@, reply) ==> shows(
            reply,
            500,
            "Password protection could not be prepared. Try again."@,
            Some("password"@),
        ),
        deletion_reply(Err(error), reply) && deletion_reply(Err(other), second) ==> said(reply)
            == said(second),
{
}

/// A refused request is answered with its own status and message, at the field
/// that it is about; one that could not be verified is answered as such and
/// shows no page.
pub proof fn refusals_keep_their_message(
    status: u16,
    message: &'static str,
    field: Seq<char>,
    reply: Reply,
)
    requires
        400 <= status < 500,
        status != 403,
        status != 429,
        status != 413,
    ensures
        rejected_with(rejection(status, message), Some(field), reply) ==> shows(
            reply,
            status,
            message@,
            Some(field),
        ),
        settings_rejected(rejection(status, message), reply) ==> shows(
            reply,
            status,
            message@,
            None,
        ),
        replace_failure(rejection(status, message), field, reply) ==> shows(
            reply,
            status,
            message@,
            Some(field),
        ),
        unlock_failure(rejection(status, message), reply) ==> shows(reply, status, message@, None),
        prepare_failure(rejection(status, message), "open"@, reply) ==> shows(
            reply,
            status,
            message@,
            Some("password"@),
        ),
        prepare_failure(rejection(status, message), "other"@, reply) ==> shows(
            reply,
            status,
            message@,
            Some("visibility"@),
        ),
        rejected_with(unproven(), Some(field), reply) ==> reply == Reply::Failed(unproven()),
        settings_rejected(rejection(403, message), reply) ==> reply == Reply::Failed(unproven()),
        replace_failure(rejection(403, message), field, reply) ==> reply == Reply::Failed(
            unproven(),
        ),
{
    reveal_strlit("other");
    reveal_strlit("open");
    reveal_strlit("password");
    assert("other"@.len() == 5 && "open"@.len() == 4 && "password"@.len() == 8);
}

/// A body that is too large is said to be, and any other that could not be read
/// is invalid, each with its own status.
pub proof fn unreadable_bodies_are_refused(status: u16)
    ensures
        body_failure(413) == rejection(413, "the upload exceeds the configured size limit"),
        status != 413 ==> body_failure(status) == rejection(status, "invalid form submission"),
{
}

/// The limit that is named is the configured one, in MiB.
pub proof fn limits_are_named_in_mebibytes(mebibytes: usize, input: Input)
    requires
        mebibytes * 1_048_576 <= usize::MAX,
    ensures
        crate::text::has_prefix(
            limit_text((mebibytes * 1_048_576) as usize, input),
            "The request limit is "@ + decimal(mebibytes as nat) + " MiB, including"@,
        ),
        limit_text((mebibytes * 1_048_576) as usize, Input::Html) != limit_text(
            (mebibytes * 1_048_576) as usize,
            Input::Files,
        ),
{
    reveal_strlit("The request limit is ");
    reveal_strlit(" MiB, including");
    reveal_strlit(
        " MiB, including multipart overhead. Reduce the HTML and paste it again. The oversized form was not kept.",
    );
    reveal_strlit(
        " MiB, including multipart overhead. Choose fewer or smaller files and select them again. The oversized form was not kept.",
    );
    let limit = (mebibytes * 1_048_576) as usize;
    assert(limit / 1_048_576 == mebibytes);
    let opening = "The request limit is "@ + decimal(mebibytes as nat) + " MiB, including"@;
    let whole = limit_text(limit, input);
    let tail =
        " MiB, including multipart overhead. Reduce the HTML and paste it again. The oversized form was not kept."@;
    let files =
        " MiB, including multipart overhead. Choose fewer or smaller files and select them again. The oversized form was not kept."@;
    assert(tail.take(15) =~= " MiB, including"@);
    assert(files.take(15) =~= " MiB, including"@);
    assert(whole.take(opening.len() as int) =~= opening);
    assert(limit_text(limit, Input::Html).len() != limit_text(limit, Input::Files).len());
}

/// A cookie of a session opens it while it lives, and gives that session's own
/// token; without a live session nothing is changed, and without an acceptable
/// origin no session counts.
pub proof fn changes_need_origin_and_session(
    head: Head,
    key: Seq<u8>,
    store: Map<Seq<char>, SessionView>,
    now: u64,
    id: Seq<char>,
)
    requires
        cookies_allowed(header_views(head.cookies@), seq!["pb_admin"@, "__Host-pb_login"@]),
        signed_value(header_views(head.cookies@), key, "pb_admin"@) == Some(id),
    ensures
        ({
            let allowed = origin_allowed(header_views(head.origins@), header_views(head.hosts@));
            let alive = store.contains_key(id) && store[id].1 > now;
            &&& allowed && alive ==> gate(head, key, store, now) == Ok::<
                (Seq<char>, Seq<char>),
                AppError,
            >((id, store[id].0))
            &&& !allowed || !alive ==> gate(head, key, store, now) == Err::<
                (Seq<char>, Seq<char>),
                AppError,
            >(unproven())
        }),
{
    assert(crate::routes::admin::admin_names() =~= seq!["pb_admin"@, "__Host-pb_login"@]);
    assert(admin_value(header_views(head.cookies@), key, "pb_admin"@) == Ok::<
        Option<Seq<char>>,
        AppError,
    >(Some(id)));
    let live = crate::auth::sessions::live_at(store, now);
    assert(live.contains_key(id) <==> store.contains_key(id) && store[id].1 > now);
}

/// Without the cookie of a session there is none, and cookies that are not to be
/// told apart are refused before they are read.
pub proof fn no_cookie_no_session(
    cookies: Seq<Seq<u8>>,
    key: Seq<u8>,
    store: Map<Seq<char>, SessionView>,
    now: u64,
)
    ensures
        !cookies_allowed(cookies, seq!["pb_admin"@, "__Host-pb_login"@]) ==> request_session(
            cookies,
            key,
            store,
            now,
        ) == Err::<Option<(Seq<char>, Seq<char>)>, AppError>(crate::laws::forms::refused(400)),
        cookies_allowed(cookies, seq!["pb_admin"@, "__Host-pb_login"@]) && signed_value(
            cookies,
            key,
            "pb_admin"@,
        ) is None ==> request_session(cookies, key, store, now) == Ok::<
            Option<(Seq<char>, Seq<char>)>,
            AppError,
        >(None),
{
    assert(crate::routes::admin::admin_names() =~= seq!["pb_admin"@, "__Host-pb_login"@]);
}

/// A site page is reached by a valid slug alone, and keeps the session that it
/// was reached in.
pub proof fn site_pages_are_reached_by_slug(
    entry: Entry,
    raw: Seq<char>,
    id: Seq<char>,
    token: Seq<char>,
)
    requires
        entered(entry, raw, id, token),
    ensures
        crate::sites::validate::valid_slug(raw) <==> entry is Site,
        !crate::sites::validate::valid_slug(raw) <==> entry is NotFound,
        entry matches Entry::Site(found) ==> found.slug@ == raw && found.session_id@ == id
            && found.csrf_token@ == token,
{
}

/// A login goes on to the password check only with the token of the challenge
/// that the browser holds, and with the password that was sent; a form without
/// either is refused.
pub proof fn logins_need_their_challenge(
    raw: RawForm,
    values: Values,
    challenge: Option<Seq<char>>,
    now: Option<u64>,
    step: LoginStep,
)
    requires
        form_values(raw, password_fields()) == Ok::<Values, AppError>(values),
        login_step(Ok(raw), challenge, now, step),
    ensures
        values[1] is None || !reusable(challenge, values[1]->0, now) ==> step == LoginStep::Failed(
            unproven(),
        ),
        values[1] is Some && reusable(challenge, values[1]->0, now) ==> {
            &&& values[0] is Some && crate::config::password_allowed(values[0]->0)
                ==> step is Verify && step->Verify_0@ == values[0]->0
            &&& values[0] is None || !crate::config::password_allowed(values[0]->0) ==> step
                == LoginStep::Show(400, "Enter a valid admin password.")
        },
{
}

/// A login and an unlock are opened with an acceptable origin, the challenge
/// cookie and a known client address.
pub proof fn logins_open_with_origin_cookie_and_address(
    head: Head,
    key: Seq<u8>,
    slug: Seq<char>,
    source: ClientIpSource,
    peer: Seq<u16>,
)
    ensures
        login_head(head, key, source, peer) matches Ok((challenge, ip)) ==> {
            &&& origin_allowed(header_views(head.origins@), header_views(head.hosts@))
            &&& challenge == signed_value(header_views(head.cookies@), key, "__Host-pb_login"@)
            &&& client_address(source, header_views(head.forwarded@), peer) == Some(ip)
        },
        !origin_allowed(header_views(head.origins@), header_views(head.hosts@)) ==> login_head(
            head,
            key,
            source,
            peer,
        ) == Err::<(Option<Seq<char>>, Seq<u16>), AppError>(unproven()) && unlock_head(
            head,
            key,
            slug,
            source,
            peer,
        ) == Ok::<Option<(Option<Seq<char>>, Seq<u16>)>, AppError>(None),
        unlock_head(head, key, slug, source, peer) matches Ok(Some((challenge, ip))) ==> {
            &&& challenge == signed_value(
                header_views(head.cookies@),
                key,
                "__Secure-pb_unlock_form_"@ + slug,
            )
            &&& client_address(source, header_views(head.forwarded@), peer) == Some(ip)
        },
        origin_allowed(header_views(head.origins@), header_views(head.hosts@)) && client_address(
            source,
            header_views(head.forwarded@),
            peer,
        ) is None ==> login_head(head, key, source, peer) is Err && unlock_head(
            head,
            key,
            slug,
            source,
            peer,
        ) is Err,
{
}

/// A login that succeeds takes the challenge away and sets the session cookie
/// for thirty days; one whose password is wrong shows the form again, and one
/// that failed is a failure.
pub proof fn logins_set_the_session_cookie(
    session: Result<Option<String>, AppError>,
    reply: LoginReply,
)
    requires
        login_reply(session, reply),
    ensures
        session is Err ==> reply == LoginReply::Failed(session->Err_0),
        session == Ok::<Option<String>, AppError>(None) ==> reply == LoginReply::Show(
            401,
            "Incorrect password. Try again.",
        ),
        session is Ok && session->Ok_0 is Some ==> {
            let cookies = reply->Started_0@;
            &&& reply is Started
            &&& cookies.len() == 2
            &&& removes(cookies[0], "__Host-pb_login"@, "/"@)
            &&& cookies[1].name@ == "pb_admin"@ && cookies[1].value@ == session->Ok_0->0@
            &&& cookies[1].path@ == "/"@ && cookies[1].lifetime is Some && cookies[1].lifetime->0 == 30 * 86_400
            &&& cookies[1].signed && cookies[1].guarded
        },
{
}

/// A cookie that takes another away: it has its name and path, no value, and no
/// lifetime.
pub open spec fn removes(cookie: CookieWrite, name: Seq<char>, path: Seq<char>) -> bool {
    &&& cookie.name@ == name
    &&& cookie.path@ == path
    &&& cookie.value@.len() == 0
    &&& cookie.lifetime is None
    &&& cookie.guarded
}

/// A chosen theme is kept for a year, unsigned, for the whole server.
pub proof fn themes_are_kept_for_a_year(cookie: CookieWrite, choice: Seq<char>)
    requires
        keeps_theme(cookie, choice),
    ensures
        cookie.name@ == "pb_theme"@,
        cookie.value@ == choice,
        cookie.path@ == "/"@,
        cookie.lifetime is Some && cookie.lifetime->0 == 365 * 86_400,
        !cookie.signed,
        cookie.guarded,
{
}

/// A sign-out needs the token and the session, and takes no password.
pub proof fn sign_outs_need_token_and_session(
    raw: RawForm,
    values: Values,
    cookie: Option<Seq<char>>,
)
    requires
        form_values(raw, password_fields()) == Ok::<Values, AppError>(values),
    ensures
        ({
            let request = logout_request(Ok(raw), cookie);
            &&& values[1] is Some && values[0] is None && cookie is Some ==> request == Ok::<
                (Seq<char>, Seq<char>),
                AppError,
            >((cookie->0, values[1]->0))
            &&& values[1] is None || (values[0] is None && cookie is None) ==> request == Err::<
                (Seq<char>, Seq<char>),
                AppError,
            >(unproven())
            &&& values[1] is Some && values[0] is Some ==> request == Err::<
                (Seq<char>, Seq<char>),
                AppError,
            >(crate::laws::forms::refused(400))
        }),
{
}

/// An unlock goes on to the password check only with the token of that site's
/// challenge, and with the password that was sent.
pub proof fn unlocks_need_their_challenge(
    raw: RawForm,
    values: Values,
    challenge: Option<Seq<char>>,
    slug: Seq<char>,
    now: Option<u64>,
    step: UnlockStep,
)
    requires
        form_values(raw, password_fields()) == Ok::<Values, AppError>(values),
        unlock_step(Ok(raw), challenge, slug, now, step),
    ensures
        ({
            let password = if values[0] is Some {
                values[0]->0
            } else {
                Seq::empty()
            };
            let token = if values[1] is Some {
                values[1]->0
            } else {
                Seq::empty()
            };
            let kept = kept_challenge(challenge, slug, token, now);
            &&& !kept ==> step is Show && shows(
                step->Show_0,
                403,
                "Request could not be verified. Reopen the unlock form."@,
                None,
            )
            &&& kept && crate::config::password_allowed(password) ==> step is Verify
                && step->Verify_0@ == password
            &&& kept && !crate::config::password_allowed(password) ==> step is Show && shows(
                step->Show_0,
                400,
                "Enter a valid site password."@,
                Some("password"@),
            )
        }),
{
    reveal_strlit("");
    assert(""@ =~= Seq::<char>::empty());
}

/// A site asks for its password while it is there; a clock that cannot be read
/// is a failure, not an open door.
pub proof fn sites_ask_for_their_password(row: AccessSite, now: u64)
    ensures
        unlockable(None, Some(now)) == Ok::<Option<crate::auth::password::Password>, AppError>(
            None,
        ),
        unlockable(Some(row), None) is Err,
        now > i64::MAX ==> unlockable(Some(row), Some(now)) is Err,
        now <= i64::MAX ==> unlockable(Some(row), Some(now)) == Ok::<
            Option<crate::auth::password::Password>,
            AppError,
        >(
            if crate::routes::view::site_available(
                row.site.visibility@,
                row.site.expires_at,
                now as int,
            ) {
                row.password
            } else {
                None
            },
        ),
{
}

/// A wrong password is answered with 401 at its field and an accepted one goes
/// on; too large a form is answered in words of its own.
pub proof fn password_checks_are_answered(shown: Option<Reply>, reply: Reply)
    ensures
        check_reply(Ok(true), shown) <==> shown is None,
        check_reply(Ok(false), shown) <==> shown is Some && shows(
            shown->0,
            401,
            "Incorrect password. Try again."@,
            Some("password"@),
        ),
        unlock_failure(rejection(413, "form field is too large"), reply) <==> shows(
            reply,
            413,
            "The unlock request or password is too large. Reopen the form and use a shorter password."@,
            None,
        ),
{
}

/// An unlock form is asked for below its site, its challenge is kept there for a
/// quarter of an hour, and a grant for a week; the challenge goes with the grant.
pub proof fn unlocks_stay_below_their_site(
    shown: UnlockChallenge,
    cookies: Seq<CookieWrite>,
    location: Seq<char>,
    slug: Seq<char>,
    salt: Seq<u8>,
)
    ensures
        unlock_url(slug) == "/s/"@ + slug + "/"@ + "__unlock"@,
        newly_issued(shown, slug) ==> {
            let cookie = shown.cookie->0;
            &&& shown.cookie is Some
            &&& cookie.name@ == "__Secure-pb_unlock_form_"@ + slug
            &&& cookie.path@ == "/s/"@ + slug + "/"@
            &&& cookie.lifetime is Some && cookie.lifetime->0 == 15 * 60
            &&& cookie.signed && cookie.guarded
        },
        grant_issued(cookies, location, slug, salt) ==> {
            &&& location == "/s/"@ + slug + "/"@
            &&& cookies.len() == 2
            &&& removes(cookies[0], "__Secure-pb_unlock_form_"@ + slug, location)
            &&& cookies[1].name@ == "pb_unlock_"@ + slug
            &&& cookies[1].path@ == location
            &&& cookies[1].lifetime is Some && cookies[1].lifetime->0 == 7 * 86_400
            &&& cookies[1].signed && cookies[1].guarded
        },
{
}

/// What is published without a password was asked to be open and came with
/// none; what waits for a password to be hashed was asked to be protected by
/// exactly that one. The site is the one that the form asks for.
pub proof fn publications_are_what_the_form_asks_for(
    form: FormView,
    slug: Option<Slug>,
    limit: usize,
    session: Seq<char>,
    store: Map<Seq<char>, SessionView>,
    now: u64,
    input: Option<NewSite>,
    step: CreateStep,
)
    requires
        create_content(form, slug, limit, session, store, now, input, step),
    ensures
        step matches CreateStep::Publish(site) ==> {
            &&& site.password is None
            &&& form.visibility is None || form.visibility == Some("open"@)
            &&& form.password.len() == 0
            &&& form_accepted(store, session, form.csrf_token, now)
            &&& exists|asked: NewSite| #[trigger]
                site_of(form, slug, limit, asked) && site == (NewSite { password: None, ..asked })
        },
        step matches CreateStep::Hash(password) ==> {
            &&& form.visibility == Some("password"@)
            &&& form.password.len() > 0
            &&& password@ == form.password
            &&& input is Some && site_of(form, slug, limit, input->0)
        },
{
}

/// A protected site is published with the password that was hashed for it and
/// is otherwise what was asked for, provided that the session still lives.
pub proof fn hashed_passwords_protect_their_site(
    password: Option<crate::auth::password::Password>,
    token: Seq<char>,
    session: Seq<char>,
    store: Map<Seq<char>, SessionView>,
    now: u64,
    asked: NewSite,
    step: CreateStep,
)
    requires
        create_access(password, token, session, store, now, asked, step),
    ensures
        form_accepted(store, session, token, now) ==> step is Publish && step->Publish_0.password
            == password && step->Publish_0.slug == asked.slug && step->Publish_0.title
            == asked.title && step->Publish_0.entry == asked.entry && step->Publish_0.files
            == asked.files && step->Publish_0.size_bytes == asked.size_bytes
            && step->Publish_0.expires_in == asked.expires_in,
        !form_accepted(store, session, token, now) ==> step == CreateStep::Reply(
            Reply::Failed(unproven()),
        ),
{
}

/// An open site without a password is published where its content is sound, and
/// refused at the field at fault where it is not.
pub proof fn sound_forms_are_published(
    form: FormView,
    slug: Option<Slug>,
    limit: usize,
    session: Seq<char>,
    store: Map<Seq<char>, SessionView>,
    now: u64,
    input: Option<NewSite>,
    step: CreateStep,
)
    requires
        create_content(form, slug, limit, session, store, now, input, step),
        forall|error: InputError|
            !#[trigger] form_rejected(form, slug, limit, error),
    ensures
        (form.visibility is None || form.visibility == Some("open"@)) && form.password.len() == 0
            && form_accepted(store, session, form.csrf_token, now) ==> step is Publish,
        form.visibility == Some("password"@) && form.password.len() > 0
            && crate::config::password_allowed(form.password) ==> step is Hash,
        form.visibility == Some("password"@) && form.password.len() == 0 ==> step is Reply
            && step->Reply_0 is Page && step->Reply_0->Page_0 == 400 && optional_text(
            step->Reply_0->Page_2,
        ) == Some("password"@),
{
    reveal_strlit("open");
    reveal_strlit("password");
    assert("open"@.len() != "password"@.len());
    assert(form.password.len() == 0 ==> form.password =~= Seq::empty());
}

/// Content that is not sound is refused with what is wrong, at the field that is
/// at fault: of a new site at the field itself, and of a replacement in its own
/// section.
pub proof fn unsound_forms_are_refused_at_their_field(
    form: FormView,
    raw: RawForm,
    length: usize,
    limit: usize,
    session: Seq<char>,
    store: Map<Seq<char>, SessionView>,
    now: u64,
    input: Option<NewSite>,
    step: CreateStep,
    replaced: ReplaceStep,
)
    requires
        form_read(raw, length) == Ok::<FormView, AppError>(form),
        form_accepted(store, session, form.csrf_token, now),
        create_content(form, None, limit, session, store, now, input, step),
        replace_submitted(Ok((raw, length)), limit, session, store, now, replaced),
        forall|site: NewSite| !#[trigger] site_of(form, None, limit, site),
    ensures
        exists|error: InputError| #[trigger]
            form_rejected(form, None, limit, error) && step is Reply && shows(
                step->Reply_0,
                400,
                crate::sites::new_site::form_message(error)@,
                Some(crate::sites::new_site::error_field(error)@),
            ),
        exists|error: InputError| #[trigger]
            form_rejected(form, None, limit, error) && replaced is Reply && shows(
                replaced->Reply_0,
                400,
                crate::sites::new_site::reject_message(error)@,
                Some("replace-"@ + crate::sites::new_site::error_field(error)@),
            ),
{
}

/// An unacceptable slug is refused at its field before the content is looked at,
/// and a form without one asks for none.
pub proof fn asked_slugs_are_checked_first(
    form: FormView,
    limit: usize,
    session: Seq<char>,
    store: Map<Seq<char>, SessionView>,
    now: u64,
    input: Option<NewSite>,
    step: CreateStep,
)
    requires
        create_verified(form, limit, session, store, now, input, step),
    ensures
        form.slug.len() > 0 && !crate::sites::validate::valid_slug(form.slug) ==> step is Reply
            && shows(step->Reply_0, 400, "Invalid site slug."@, Some("slug"@)) && input is None,
        form.slug.len() == 0 ==> create_content(
            form,
            None,
            limit,
            session,
            store,
            now,
            input,
            step,
        ),
        form.slug.len() > 0 && crate::sites::validate::valid_slug(form.slug) ==> exists|
            slug: Slug,
        |
            slug@ == form.slug && #[trigger] create_content(
                form,
                Some(slug),
                limit,
                session,
                store,
                now,
                input,
                step,
            ),
{
    if form.slug.len() == 0 || crate::sites::validate::valid_slug(form.slug) {
        let slug = choose|slug: Option<Slug>|
            crate::routes::publishing::slug_text(slug) == crate::routes::publishing::asked_slug(
                form,
            ) && #[trigger] create_content(form, slug, limit, session, store, now, input, step);
        if form.slug.len() == 0 {
            assert(slug is None);
        } else {
            assert(create_content(form, Some(slug->0), limit, session, store, now, input, step));
        }
    }
}

/// A body that is too large names the limit, with its status; a form whose token
/// is not the session's is refused whatever else it holds.
pub proof fn submissions_are_verified_first(
    body: Body,
    blank: Input,
    limit: usize,
    session: Seq<char>,
    store: Map<Seq<char>, SessionView>,
    now: u64,
    input: Option<NewSite>,
    step: CreateStep,
    replaced: ReplaceStep,
)
    requires
        create_submitted(body, blank, limit, session, store, now, input, step),
        replace_submitted(body, limit, session, store, now, replaced),
    ensures
        body matches Err(error) ==> !(step is Publish) && !(step is Hash) && !(replaced is Replace),
        body is Err && body->Err_0.kind is Request && body->Err_0.kind->Request_0 == 413
            ==> step is Reply && shows(step->Reply_0, 413, limit_text(limit, blank), None),
        body is Ok && form_read(body->Ok_0.0, body->Ok_0.1) is Ok && !form_accepted(
            store,
            session,
            form_read(body->Ok_0.0, body->Ok_0.1)->Ok_0.csrf_token,
            now,
        ) ==> step == CreateStep::Reply(Reply::Failed(unproven())) && replaced
            == ReplaceStep::Reply(Reply::Failed(unproven())),
        replaced matches ReplaceStep::Replace(site) ==> body is Ok && form_read(
            body->Ok_0.0,
            body->Ok_0.1,
        ) is Ok && site_of(
            form_read(body->Ok_0.0, body->Ok_0.1)->Ok_0,
            None,
            limit,
            site,
        ),
{
}

/// A form that was read is shown again as it was sent, without its password and
/// files; one that was not is shown blank.
pub proof fn forms_are_shown_again(body: Body, blank: FormView, shown: FormView)
    requires
        same_shown(shown, kept_form(body, blank)),
    ensures
        ({
            let form = if body is Ok && form_read(body->Ok_0.0, body->Ok_0.1) is Ok {
                form_read(body->Ok_0.0, body->Ok_0.1)->Ok_0
            } else {
                blank
            };
            &&& shown.html == form.html && shown.title == form.title && shown.slug == form.slug
            &&& shown.entry == form.entry && shown.input == form.input
            &&& shown.visibility == form.visibility && shown.expires_in == form.expires_in
            &&& shown.csrf_token == form.csrf_token
        }),
{
}

/// What was done is answered by going on to the site's page, where a notice says
/// so; a site that is gone is not found.
pub proof fn changes_lead_to_the_site(
    slug: String,
    published: Reply,
    saved: Reply,
    replaced: Reply,
)
    ensures
        publication_reply(Ok(slug), published) <==> published is Redirect
            && published->Redirect_0@ == "/sites/"@ + slug@ + ""@,
        publication_reply(
            Err(rejection(409, "That site slug is already in use.")),
            published,
        ) <==> shows(published, 409, "That site slug is already in use."@, Some("slug"@)),
        saving_reply(Ok(true), slug@, saved) <==> saved is Redirect && saved->Redirect_0@
            == "/sites/"@ + slug@ + "?notice=saved"@,
        replacement_reply(Ok(true), slug@, replaced) <==> replaced is Redirect
            && replaced->Redirect_0@ == "/sites/"@ + slug@ + "?notice=replaced"@,
        saving_reply(Ok(false), slug@, saved) <==> saved == Reply::NotFound,
        replacement_reply(Ok(false), slug@, replaced) <==> replaced == Reply::NotFound,
        detail_query_of(Some("notice=saved"@)) == Some((Some("Settings saved."), "html")),
        detail_query_of(Some("notice=replaced"@)) == Some((Some("Content replaced."), "html")),
{
    detail_queries();
}

proof fn detail_queries()
    ensures
        ""@.len() == 0,
        "notice=saved"@.len() == 12,
        "notice=replaced"@.len() == 15,
        "input=files"@.len() == 11,
        "input=zip"@.len() == 9,
        "input=html"@.len() == 10,
{
    reveal_strlit("");
    reveal_strlit("notice=saved");
    reveal_strlit("notice=replaced");
    reveal_strlit("input=files");
    reveal_strlit("input=zip");
    reveal_strlit("input=html");
}

/// A site page shows no notice but those that it was asked for by name, and the
/// input of the same name; other queries are refused.
pub proof fn site_pages_know_their_queries(query: Seq<char>)
    ensures
        detail_query_of(None) == Some((None::<&'static str>, "html")),
        detail_query_of(Some(Seq::empty())) == Some((None::<&'static str>, "html")),
        detail_query_of(Some("input=files"@)) == Some((None::<&'static str>, "files")),
        detail_query_of(Some("input=zip"@)) == Some((None::<&'static str>, "zip")),
        query.len() > 0 && query != "notice=saved"@ && query != "notice=replaced"@ && query
            != "input=files"@ && query != "input=zip"@ ==> detail_query_of(Some(query)) is None,
{
    detail_queries();
    assert(""@ =~= Seq::<char>::empty());
}

/// A deletion is answered by going on to the list, where a notice says what
/// became of the content; a site that is gone is not found, and a deletion that
/// failed says that it could not be confirmed.
pub proof fn deletions_lead_to_the_list(reply: Reply, status: u16, message: &'static str)
    ensures
        deletion_reply(Ok(DeleteOutcome::Deleted), reply) <==> reply is Redirect
            && reply->Redirect_0@ == "/?notice=deleted"@,
        deletion_reply(Ok(DeleteOutcome::DeletedContentRetained), reply) <==> reply is Redirect
            && reply->Redirect_0@ == "/?notice=retained"@,
        deletion_reply(Ok(DeleteOutcome::NotFound), reply) <==> reply == Reply::NotFound,
        deletion_reply(Err(rejection(status, message)), reply) <==> shows(
            reply,
            status,
            "Deletion could not be confirmed. Check your site list before retrying."@,
            None,
        ),
        notice_text("deleted"@) is Some,
        notice_text("retained"@) is Some,
        notice_text("deleted"@) != notice_text("retained"@),
{
    reveal_strlit("deleted");
    reveal_strlit("retained");
    reveal_strlit(
        "Site deleted. New requests to its share link return not found. Previously cached responses may remain for up to 60 seconds.",
    );
    reveal_strlit(
        "Site removed from sharing, but some files could not be safely removed. Residual files remain in storage and may block reuse of this slug. Check server diagnostics before manual cleanup.",
    );
    assert("deleted"@.len() != "retained"@.len());
    assert("Site deleted. New requests to its share link return not found. Previously cached responses may remain for up to 60 seconds."@[5]
        == 'd');
    assert("Site removed from sharing, but some files could not be safely removed. Residual files remain in storage and may block reuse of this slug. Check server diagnostics before manual cleanup."@[5]
        == 'r');
}

/// A site is deleted only with the session's token and a confirmation by the
/// word; a form without the token is unverified, and one without the word is
/// asked for it.
pub proof fn deletions_are_confirmed(
    raw: RawForm,
    values: Values,
    store: Map<Seq<char>, SessionView>,
    session: Seq<char>,
    now: u64,
    step: DeleteStep,
)
    requires
        form_values(raw, delete_fields()) == Ok::<Values, AppError>(values),
        delete_decision(Ok(raw), store, session, now, step),
    ensures
        step == DeleteStep::Delete <==> values[0] is Some && values[1] == Some(
            seq!['d', 'e', 'l', 'e', 't', 'e'],
        ) && form_accepted(store, session, values[0]->0, now),
        values[0] is None ==> step == DeleteStep::Reply(Reply::Failed(unproven())),
        values[0] is Some && values[1] == Some(seq!['d', 'e', 'l', 'e', 't', 'e'])
            && !form_accepted(store, session, values[0]->0, now) ==> step == DeleteStep::Reply(
            Reply::Failed(unproven()),
        ),
        values[0] is Some && values[1] != Some(seq!['d', 'e', 'l', 'e', 't', 'e']) ==> step is Reply
            && shows(
            step->Reply_0,
            400,
            "Select the confirmation checkbox before deleting this site."@,
            None,
        ),
{
    reveal_strlit("delete");
    assert("delete"@ =~= seq!['d', 'e', 'l', 'e', 't', 'e']);
}

/// Settings are saved as the form has them, for a session that lives and a form
/// that is sound; what is not sound is refused at its field.
pub proof fn sound_settings_are_saved(
    access: AccessUpdate,
    form: SettingsForm,
    session: Seq<char>,
    store: Map<Seq<char>, SessionView>,
    now: u64,
    step: SettingsStep,
)
    requires
        settings_access(access, form, session, store, now, step),
    ensures
        ({
            let fault = crate::sites::settings::texts_error(
                form.title@,
                form.entry@,
                form.expires_in@,
            );
            &&& fault is Some ==> step is Reply && shows(
                step->Reply_0,
                400,
                crate::sites::new_site::form_message(fault->0)@,
                Some(crate::sites::new_site::error_field(fault->0)@),
            )
            &&& fault is None && form_accepted(store, session, form.csrf_token@, now) ==> step
                is Save && crate::sites::settings::settings_of(
                step->Save_0,
                form.title@,
                form.entry@,
                form.expires_in@,
                access,
            )
            &&& fault is None && !form_accepted(store, session, form.csrf_token@, now) ==> step
                == SettingsStep::Reply(Reply::Failed(unproven()))
        }),
{
}

/// What a settings form does to the access: open opens, a password that is left
/// empty is kept, and a new one is hashed as it was sent.
pub proof fn settings_follow_the_access_choice(
    raw: RawForm,
    values: Values,
    kept: SettingsForm,
    session: Seq<char>,
    store: Map<Seq<char>, SessionView>,
    now: u64,
    step: SettingsStep,
)
    requires
        settings_values(Ok(raw)) == Ok::<Values, AppError>(values),
        settings_submitted(Ok(raw), kept, session, store, now, step),
        form_accepted(store, session, values[0]->0, now),
    ensures
        values[3] == Some("open"@) && values[4] is None ==> settings_access(
            AccessUpdate::Open,
            kept,
            session,
            store,
            now,
            step,
        ),
        values[3] == Some("password"@) && values[4] is None ==> settings_access(
            AccessUpdate::Keep,
            kept,
            session,
            store,
            now,
            step,
        ),
        values[3] == Some("password"@) && values[4] == Some(Seq::<char>::empty())
            ==> settings_access(AccessUpdate::Keep, kept, session, store, now, step),
        values[3] == Some("password"@) && values[4] is Some && values[4]->0.len() > 0
            && crate::config::password_allowed(values[4]->0) ==> step is Hash && step->Hash_0@
            == values[4]->0,
        values[3] == Some("open"@) && values[4] is Some && values[4]->0.len() > 0 ==> step is Reply,
{
    reveal_strlit("");
    reveal_strlit("open");
    reveal_strlit("password");
    assert(""@ =~= Seq::<char>::empty());
    assert("open"@.len() != "password"@.len());
}

/// A settings form that was read is shown again as it was sent, but for the
/// password; one that is shown first says what is stored, and that an expiry
/// that is set is kept.
pub proof fn settings_are_shown_without_their_password(
    values: Values,
    again: SettingsForm,
    site: AdminSite,
    first: SettingsForm,
)
    requires
        shows_submitted(values, again),
        shows_current(site, first),
    ensures
        again.password@.len() == 0,
        first.password@.len() == 0,
        values[1] == Some(again.title@) && values[2] == Some(again.entry@) && values[3] == Some(
            again.visibility@,
        ),
        values[5] is Some ==> again.expires_in@ == values[5]->0,
        values[5] is None ==> again.expires_in@ == "keep"@,
        first.title@ == site.title@ && first.entry@ == site.entry@ && first.visibility@
            == site.visibility@ && first.csrf_token@.len() == 0,
        site.expires@ == "Never"@ <==> first.expires_in@ == "never"@,
        site.expires@ != "Never"@ <==> first.expires_in@ == "keep"@,
{
    reveal_strlit("never");
    reveal_strlit("keep");
    assert("never"@.len() != "keep"@.len());
}

/// A site is shown as it is stored, with the address that it is shared under.
pub proof fn sites_are_shown_as_stored(record: SiteDetails, base: Seq<char>, site: AdminSite)
    requires
        presented(record, base, site),
    ensures
        site.title@ == record.site.title@ && site.slug@ == record.site.slug@,
        site.url@ == base + "/s/"@ + record.site.slug@ + "/"@,
        site.visibility@ == record.site.visibility@ && site.entry@ == record.site.entry@,
        site.file_count == record.site.file_count && site.size_bytes == record.site.size_bytes,
        site.created@ == record.created_label@ && site.expires@ == record.expires_label@,
{
}

/// An address that is shared is served as the root of its site.
pub proof fn shared_addresses_are_site_roots(base: Seq<char>, slug: Seq<char>)
    ensures
        share_url(base, slug) == base + crate::routes::view::site_root(slug),
        crate::routes::site_path(crate::routes::view::site_root(slug)),
{
    assert(share_url(base, slug) =~= base + crate::routes::view::site_root(slug));
    reveal_strlit("/s/");
    assert(crate::routes::view::site_root(slug).take(3) =~= "/s/"@);
}

/// Feedback stands at its field where the page has that field, and above the
/// form where it has not.
pub proof fn feedback_is_always_seen(field: Seq<char>, input: Input)
    ensures
        general_feedback(None, input),
        general_feedback(Some("html"@), input) <==> input != Input::Html,
        general_feedback(Some("files"@), input) <==> input != Input::Files,
        general_feedback(Some("zip"@), input) <==> input != Input::Zip,
        general_feedback(Some("entry"@), input) <==> input == Input::Html,
        !general_feedback(Some("title"@), input) && !general_feedback(Some("slug"@), input)
            && !general_feedback(Some("visibility"@), input) && !general_feedback(
            Some("password"@),
            input,
        ) && !general_feedback(Some("expires_in"@), input),
        general_settings(None),
        !general_settings(Some("title"@)) && !general_settings(Some("entry"@)),
        !general_settings(Some("visibility"@)) && !general_settings(Some("password"@))
            && !general_settings(Some("expires_in"@)),
        !general_settings(Some("replace"@ + field)),
        replace_field(Some("replace-"@ + field)) == Some(field),
        replace_field(Some("replace"@)) is None,
{
    reveal_strlit("html");
    reveal_strlit("files");
    reveal_strlit("zip");
    reveal_strlit("entry");
    reveal_strlit("title");
    reveal_strlit("slug");
    reveal_strlit("visibility");
    reveal_strlit("password");
    reveal_strlit("expires_in");
    reveal_strlit("replace");
    reveal_strlit("replace-");
    assert("html"@[0] == 'h' && "files"@[0] == 'f' && "zip"@[0] == 'z' && "entry"@[1] == 'n'
        && "title"@[0] == 't' && "slug"@[0] == 's' && "visibility"@[0] == 'v' && "password"@[0]
        == 'p' && "expires_in"@[1] == 'x' && "expires_in"@[0] == 'e' && "entry"@[0] == 'e');
    assert(("replace"@ + field).take(7) =~= "replace"@);
    assert(("replace-"@ + field).take(8) =~= "replace-"@);
    assert(("replace-"@ + field).skip(8) =~= field);
}

/// Pages are numbered from one, and their addresses name them: the query of a
/// page's own address selects that page.
pub proof fn page_addresses_select_their_page(page: usize)
    requires
        page > 0,
    ensures
        page_url(page as int) == "/?"@ + ("page="@ + decimal(page as nat)),
        list_query(Some("page="@ + decimal(page as nat))) == Some((page, None::<&'static str>)),
        list_query(None) == Some((1usize, None::<&'static str>)),
        list_query(Some(Seq::empty())) == Some((1usize, None::<&'static str>)),
        list_query(Some("page=0"@)) is None,
        list_query(Some("notice=deleted"@)) == Some((1usize, notice_text("deleted"@))),
        list_query(Some("notice=retained"@)) == Some((1usize, notice_text("retained"@))),
{
    reveal_strlit("/?page=");
    reveal_strlit("/?");
    reveal_strlit("page=");
    reveal_strlit("page");
    reveal_strlit("0");
    reveal_strlit("page=0");
    reveal_strlit("notice");
    reveal_strlit("notice=deleted");
    reveal_strlit("notice=retained");
    reveal_strlit("deleted");
    reveal_strlit("retained");
    crate::text::decimal_value(page as nat);
    crate::text::decimal_value(0);
    assert("/?page="@ =~= "/?"@ + "page="@);
    assert(page_url(page as int) =~= "/?"@ + ("page="@ + decimal(page as nat)));
    let value = decimal(page as nat);
    query_of_one("page"@, value);
    assert("page"@ + seq!['='] + value =~= "page="@ + value);
    query_of_one("page"@, "0"@);
    assert("page"@ + seq!['='] + "0"@ =~= "page=0"@);
    query_of_one("notice"@, "deleted"@);
    assert("notice"@ + seq!['='] + "deleted"@ =~= "notice=deleted"@);
    query_of_one("notice"@, "retained"@);
    assert("notice"@ + seq!['='] + "retained"@ =~= "notice=retained"@);
    assert("page"@.len() != "notice"@.len());
    assert("0"@ =~= decimal(0));
}

/// A query of one field is that field alone.
proof fn query_of_one(name: Seq<char>, value: Seq<char>)
    requires
        !name.contains('='),
        !name.contains('&'),
        !value.contains('&'),
    ensures
        ({
            let text = name + seq!['='] + value;
            list_query(Some(text)) == match crate::routes::management::query_field(
                (None, None),
                text,
            ) {
                Some(state) => Some(
                    (
                        if state.0 is Some {
                            state.0->0
                        } else {
                            1usize
                        },
                        state.1,
                    ),
                ),
                None => None,
            }
        }),
        crate::text::first_index(name + seq!['='] + value, '=') == name.len(),
        (name + seq!['='] + value).take(name.len() as int) == name,
        (name + seq!['='] + value).skip(name.len() as int + 1) == value,
{
    let text = name + seq!['='] + value;
    assert forall|c: char| text.contains(c) implies name.contains(c) || c == '=' || value.contains(
        c,
    ) by {
        let i = choose|i: int| 0 <= i < text.len() && text[i] == c;
        if i < name.len() {
            assert(name[i] == c);
        } else if i > name.len() {
            assert(value[i - name.len() - 1] == c);
        }
    }
    crate::text::split_single(text, '&');
    let fields = crate::text::split(text, '&');
    assert(fields.drop_last() =~= Seq::empty());
    assert(fields.last() == text);
    assert(crate::routes::management::query_fields(fields.drop_last()) == Some(
        (None::<usize>, None::<&'static str>),
    ));
    assert forall|i: int| 0 <= i < name.len() implies text[i] != '=' by {
        assert(name.contains(name[i]));
    }
    crate::text::first_index_unique(text, '=', name.len() as int);
    assert(text.take(name.len() as int) =~= name);
    assert(text.skip(name.len() as int + 1) =~= value);
}

/// A site that a form asks for has the form's title and the slug, no password
/// yet, files from one to ten thousand with its entry among them, and expires
/// as the form says.
pub proof fn sites_are_made_of_their_form(
    form: FormView,
    slug: Option<Slug>,
    limit: usize,
    site: NewSite,
)
    requires
        site_of(form, slug, limit, site),
    ensures
        site.title@ == form.title,
        crate::sites::validate::valid_title(form.title),
        site.slug == slug,
        site.password is None,
        1 <= site.files@.len() <= 10_000,
        crate::sites::new_site::has_file(
            crate::sites::new_site::site_views(site.files@),
            site.entry@,
        ),
        form.entry.len() > 0 ==> site.entry@ == form.entry,
        crate::sites::validate::expiry_choice(form.expires_in) is Some,
        site.expires_in is Some ==> crate::sites::validate::expiry_choice(form.expires_in) == Some(
            crate::sites::validate::Expiry::After(site.expires_in->0),
        ),
        site.expires_in is None ==> crate::sites::validate::expiry_choice(form.expires_in) == Some(
            crate::sites::validate::Expiry::Never,
        ),
{
    let builder = choose|builder: crate::sites::new_site::NewSiteBuilder| #[trigger]
        crate::routes::upload::builder_matches(builder, form, slug, limit)
            && crate::sites::new_site::build_error(builder) is None
            && crate::sites::new_site::built(builder, site);
    let (files, nested) = crate::sites::new_site::content_of(builder)->Ok_0;
    let explicit = optional_text(builder.entry);
    assert(site.files@.len() == files.len());
    if explicit is None && !crate::sites::new_site::has_file(
        files,
        crate::sites::new_site::entry_filename(),
    ) {
        let i = choose|i: int| crate::sites::new_site::sole_candidate(files, i);
        assert(files[i].0 == site.entry@);
    }
}

}
