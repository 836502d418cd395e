//! Publishing, settings, deletion, the site list, unlocking, serving and the API.
use axum::response::IntoResponse;
use axum_extra::extract::cookie::{Cookie, Key, SignedCookieJar};
use pagebin::auth::password::Password;
use pagebin::auth::sessions::Sessions;
use pagebin::auth::viewer_tokens::verify_viewer_grant;
use pagebin::error::AppError;
use pagebin::ip::IpAddr;
use pagebin::routes::admin::Head;
use pagebin::routes::api::{self, require_token, Patch, PatchStep, TokenCheck};
use pagebin::routes::cookies::CookieKey;
use pagebin::routes::entry::{change_site, show_site, Entry};
use pagebin::routes::forms::{RawField, RawForm, SettingsForm};
use pagebin::routes::management::{
    confirm_delete, created_date, deleted, detail_query, list_page, present, AdminSite, DeleteStep,
    ListQuery,
};
use pagebin::routes::publishing::{
    general_error, max_site_files, published, CreateRequest, CreateStep, ReplaceRequest,
    ReplaceStep,
};
use pagebin::routes::reply::{feedback, Reply};
use pagebin::routes::settings::{
    field as access_field, general_replace_error, general_settings_error, intend,
    replace_error_message, replace_invalid_field, Intent, SettingsRequest, SettingsStep,
};
use pagebin::routes::unlock::{
    self, complete, find_password, page_for, UnlockRequest, UnlockStep, Unlocked,
};
use pagebin::routes::upload::Input;
use pagebin::routes::view::{
    available, cache_control, challenge_name, finish_headers, grant_name, serve, Access, Seen, ServeEvent,
    ServePhase, ServeReply, Serving, Target, Walk,
};
use pagebin::routes::ClientIpSource;
use pagebin::sites::delete::DeleteOutcome;
use pagebin::sites::settings::AccessUpdate;
use pagebin::sites::sweep::expired;
use pagebin::sites::validate::Slug;
use pagebin::sites::{AccessSite, Site, SiteDetails};

const MASTER: [u8; 32] = [0x11; 32];
const MIB: usize = 1024 * 1024;
const CANONICAL_HASH: &str =
    "$argon2id$v=19$m=19456,t=2,p=1$AAECAwQFBgcICQoLDA0ODw$AAAAAAAAAAAAAAAAAAAAAAAAAAAAAAAAAAAAAAAAAAA";

fn values(texts: &[&str]) -> Vec<Vec<u8>> {
    texts.iter().map(|text| text.as_bytes().to_vec()).collect()
}

fn sign(name: &str, value: &str) -> String {
    let jar = SignedCookieJar::new(Key::derive_from(&MASTER))
        .add(Cookie::new(name.to_owned(), value.to_owned()))
        .into_response();
    let header = jar.headers()["set-cookie"].to_str().unwrap().to_owned();
    header.split(';').next().unwrap().to_owned()
}

fn key() -> CookieKey {
    CookieKey::derive_from(&MASTER)
}

fn text_field(name: &str, bytes: &[u8]) -> RawField {
    RawField {
        name: Some(name.to_owned()),
        file_name: None,
        bytes: bytes.to_vec(),
        broken: None,
    }
}

fn form(fields: &[(&str, &[u8])]) -> RawForm {
    let fields = fields.iter().map(|(name, bytes)| text_field(name, bytes)).collect();
    RawForm { fields, broken: None }
}

fn head(host: &str, cookies: &[&str]) -> Head {
    Head {
        hosts: values(&[host]),
        origins: values(&[&format!("https://{host}")]),
        cookies: values(cookies),
        forwarded: Vec::new(),
        query: None,
    }
}

fn slug(text: &str) -> Slug {
    Slug::parse(text).ok().unwrap()
}

fn password() -> Password {
    Password::from_encoded(CANONICAL_HASH.to_owned()).unwrap()
}

fn site(slug: &str) -> Site {
    Site {
        slug: slug.to_owned(),
        title: "Title".to_owned(),
        visibility: "open".to_owned(),
        entry: "index.html".to_owned(),
        file_count: 1,
        size_bytes: 42,
        created_at: 1,
        updated_at: 2,
        expires_at: None,
    }
}

fn details(slug: &str) -> SiteDetails {
    SiteDetails {
        site: site(slug),
        created_label: "2026-03-09 12:00:00 UTC".to_owned(),
        expires_label: "Never".to_owned(),
    }
}

fn live() -> (Sessions, String, String) {
    let mut sessions = Sessions::new();
    let id = sessions.create_at(10).unwrap();
    let token = sessions.csrf_at(&id, 10).unwrap();
    (sessions, id, token)
}

fn open_create(sessions: &mut Sessions, id: &str, query: Option<&str>) -> CreateRequest {
    let mut request = head("pages.local", &[&sign("pb_admin", id)]);
    request.query = query.map(str::to_owned);
    CreateRequest::open(&request, &key(), sessions, 11).ok().unwrap()
}

fn shown(reply: Reply) -> (u16, String, Option<String>) {
    match reply {
        Reply::Page(status, message, field) => (status, message, field),
        _ => panic!("a page is shown"),
    }
}

fn failed(reply: Reply) -> u16 {
    match reply {
        Reply::Failed(error) => error.into_response().0,
        _ => panic!("the request fails"),
    }
}

#[test]
fn creation_publishes_in_a_live_session_with_its_own_token() {
    let (mut sessions, id, token) = live();
    let mut request = open_create(&mut sessions, &id, None);
    let fields = form(&[
        ("csrf_token", token.as_bytes()),
        ("html", b"<h1>x</h1>"),
        ("slug", b"my-site"),
    ]);
    let CreateStep::Publish(new) = request.submit(Ok((fields, 500)), MIB, &mut sessions, 12) else {
        panic!("the site is published");
    };
    assert_eq!(new.slug.unwrap().as_str(), "my-site");
    assert!(new.password.is_none());
    let Reply::Redirect(to) = published(Ok("my-site".to_owned())) else {
        panic!("the browser goes on");
    };
    assert_eq!(to, "/sites/my-site");
    let taken = published(Err(AppError::request(409, "That site slug is already in use.")));
    assert_eq!(
        shown(taken),
        (409, "That site slug is already in use.".to_owned(), Some("slug".to_owned()))
    );
    let unsure = published(Err(AppError::publishing()));
    assert_eq!(
        shown(unsure),
        (
            500,
            "Publication could not be confirmed. Your existing sites were not changed.".to_owned(),
            None
        )
    );
}

#[test]
fn creation_rejects_tokens_slugs_content_and_access_in_turn() {
    let (mut sessions, id, token) = live();
    let mut submit = |fields: &[(&str, &[u8])]| {
        let mut request = open_create(&mut sessions, &id, None);
        request.submit(Ok((form(fields), 500)), MIB, &mut sessions, 12)
    };
    let csrf = ("csrf_token", token.as_bytes());
    let html: (&str, &[u8]) = ("html", b"<h1>x</h1>");
    for wrong in [&b""[..], b"incorrect", &[b'a'; 64]] {
        let CreateStep::Reply(reply) = submit(&[("csrf_token", wrong), html]) else {
            panic!("the request is refused");
        };
        assert_eq!(failed(reply), 403);
    }
    for (fields, message, field) in [
        (vec![csrf, html, ("slug", b"UPPERCASE")], "Invalid site slug.", Some("slug")),
        (vec![csrf, ("html", b" \n\t")], "Enter HTML to publish.", Some("html")),
        (
            vec![csrf, html, ("expires_in", b"2h")],
            "Choose one of the listed expiry options.",
            Some("expires_in"),
        ),
        (
            vec![csrf, html, ("visibility", b"unknown")],
            "Choose open or password-protected access.",
            Some("visibility"),
        ),
        (
            vec![csrf, html, ("password", b"ignored")],
            "Choose Password access to set a password, or clear the password field.",
            Some("password"),
        ),
        (
            vec![csrf, html, ("visibility", b"password")],
            "Enter a new password to enable protection.",
            Some("password"),
        ),
        (
            vec![csrf, html, ("visibility", b"password"), ("password", b"in\nva\0lid")],
            "Invalid site password.",
            Some("password"),
        ),
        (vec![csrf, html, html], "invalid form submission", None),
    ] {
        let CreateStep::Reply(reply) = submit(&fields) else {
            panic!("the form is shown again");
        };
        assert_eq!(
            shown(reply),
            (400, message.to_owned(), field.map(str::to_owned)),
            "{message}"
        );
    }
}

#[test]
fn creation_hashes_before_it_publishes_and_checks_the_session_again() {
    let (mut sessions, id, token) = live();
    let fields = || {
        form(&[
            ("csrf_token", token.as_bytes()),
            ("html", b"<h1>x</h1>"),
            ("visibility", b"password"),
            ("password", b"synthetic-site-password"),
        ])
    };
    let mut request = open_create(&mut sessions, &id, None);
    let step = request.submit(Ok((fields(), 500)), MIB, &mut sessions, 12);
    assert!(matches!(step, CreateStep::Hash(text) if text == "synthetic-site-password"));
    assert!(request.form.password.is_empty());
    let CreateStep::Publish(new) = request.hashed(Ok(password()), &mut sessions, 13) else {
        panic!("the site is published");
    };
    assert!(new.password.unwrap().same_generation(&password()));
    let mut waiting = open_create(&mut sessions, &id, None);
    waiting.submit(Ok((fields(), 500)), MIB, &mut sessions, 14);
    let busy = AppError::request(429, "login is busy; try again shortly");
    let CreateStep::Reply(reply) = waiting.hashed(Err(busy), &mut sessions, 15) else {
        panic!("the form is shown again");
    };
    assert_eq!(
        shown(reply),
        (
            429,
            "Password processing is busy. Try again shortly.".to_owned(),
            Some("password".to_owned())
        )
    );
    assert!(sessions.logout_at(&id, &token, 15));
    let CreateStep::Reply(reply) = waiting.hashed(Ok(password()), &mut sessions, 16) else {
        panic!("a revoked session publishes nothing");
    };
    assert_eq!(failed(reply), 403);
}

#[test]
fn oversized_uploads_are_told_the_limit() {
    let (mut sessions, id, _) = live();
    let error = AppError::request(413, "the upload exceeds the configured size limit");
    for (query, advice) in [
        (None, "Reduce the HTML and paste it again."),
        (Some("input=files"), "Choose fewer or smaller files and select them again."),
    ] {
        let mut request = open_create(&mut sessions, &id, query);
        let CreateStep::Reply(reply) = request.submit(Err(error), 7 * MIB, &mut sessions, 12)
        else {
            panic!("the form is shown again");
        };
        let (status, message, _) = shown(reply);
        assert_eq!(status, 413);
        assert_eq!(
            message,
            format!(
                "The request limit is 7 MiB, including multipart overhead. {advice} The oversized form was not kept."
            )
        );
    }
    let mut unknown = head("pages.local", &[&sign("pb_admin", &id)]);
    unknown.query = Some("input=other".to_owned());
    assert!(CreateRequest::open(&unknown, &key(), &mut sessions, 12).is_err());
}

#[test]
fn feedback_is_general_where_its_field_is_not_shown() {
    assert!(!general_error(Some("title"), Input::Html));
    assert!(!general_error(Some("html"), Input::Html) && general_error(Some("html"), Input::Zip));
    assert!(!general_error(Some("files"), Input::Files) && general_error(Some("zip"), Input::Html));
    assert!(general_error(Some("entry"), Input::Html) && !general_error(Some("entry"), Input::Zip));
    assert!(general_error(None, Input::Html) && general_error(Some("other"), Input::Html));
    assert_eq!(max_site_files(), 10_000);
}

#[test]
fn replacement_keeps_to_its_section_and_its_session() {
    let (mut sessions, id, token) = live();
    let request = ReplaceRequest { session_id: id.clone(), slug: "my-site".to_owned() };
    let csrf = ("csrf_token", token.as_bytes());
    let good = form(&[csrf, ("html", b"<h1>new</h1>")]);
    let step = request.submit(Ok((good, 500)), MIB, &mut sessions, 12);
    assert!(matches!(step, ReplaceStep::Replace(new) if new.size_bytes == 12));
    let blank = form(&[csrf, ("html", b" ")]);
    let ReplaceStep::Reply(reply) = request.submit(Ok((blank, 500)), MIB, &mut sessions, 12) else {
        panic!("the detail page is shown");
    };
    assert_eq!(
        shown(reply),
        (400, "Enter HTML to publish.".to_owned(), Some("replace-html".to_owned()))
    );
    let missing = form(&[("html", b"x")]);
    let ReplaceStep::Reply(reply) = request.submit(Ok((missing, 500)), MIB, &mut sessions, 12)
    else {
        panic!("the request is refused");
    };
    assert_eq!(failed(reply), 403);
    let Reply::Redirect(to) = request.replaced(Ok(true)) else {
        panic!("the browser goes on");
    };
    assert_eq!(to, "/sites/my-site?notice=replaced");
    assert!(matches!(request.replaced(Ok(false)), Reply::NotFound));
    let (status, message, field) = shown(request.replaced(Err(AppError::publishing())));
    assert_eq!((status, field.as_deref()), (500, Some("replace")));
    assert_eq!(message, "Replacement could not be confirmed. The existing content was kept.");
    assert_eq!(replace_invalid_field(Some("replace-html")).as_deref(), Some("html"));
    assert!(replace_invalid_field(Some("html")).is_none());
    assert!(general_replace_error(Some("replace")) && !general_replace_error(Some("replace-x")));
    assert!(!general_settings_error(Some("replace-html")) && general_settings_error(None));
    assert!(!general_settings_error(Some("title")) && general_settings_error(Some("slug")));
    assert_eq!(replace_error_message(Some("m"), Some("replace")), Some("m"));
    assert!(replace_error_message(Some("m"), Some("title")).is_none());
}

#[test]
fn access_intents_follow_the_choice_and_the_password() {
    assert!(matches!(intend("open", ""), Ok(Intent::Open)));
    assert!(matches!(intend("password", ""), Ok(Intent::Keep)));
    assert!(matches!(intend("password", "x"), Ok(Intent::Hash)));
    assert!(intend("open", "x").is_err() && intend("password", "a\nb").is_err());
    assert!(intend("unknown", "").is_err());
    assert_eq!((access_field("open"), access_field("other")), ("password", "visibility"));
    assert_eq!(feedback(AppError::request(400, "no")), (400, "no".to_owned()));
}

fn settings_request(id: &str) -> SettingsRequest {
    let current = present(details("my-site"), "https://view.local").ok().unwrap();
    SettingsRequest {
        session_id: id.to_owned(),
        slug: "my-site".to_owned(),
        form: SettingsForm::from_site(&current),
    }
}

#[test]
fn settings_are_saved_after_verification_and_validation() {
    let (mut sessions, id, token) = live();
    let mut request = settings_request(&id);
    assert_eq!(request.form.expires_in, "never");
    let base = |visibility: &'static [u8], secret: &'static [u8]| {
        form(&[
            ("csrf_token", token.as_bytes()),
            ("title", b"Changed"),
            ("entry", b"index.html"),
            ("visibility", visibility),
            ("password", secret),
            ("expires_in", b"30d"),
        ])
    };
    let SettingsStep::Save(saved) = request.submit(Ok(base(b"password", b"")), &mut sessions, 12)
    else {
        panic!("the settings are saved");
    };
    assert!(matches!(saved.access, AccessUpdate::Keep));
    assert_eq!((saved.title.as_str(), saved.entry.as_str()), ("Changed", "index.html"));
    let step = request.submit(Ok(base(b"password", b"new secret")), &mut sessions, 12);
    assert!(matches!(step, SettingsStep::Hash(text) if text == "new secret"));
    assert!(request.form.password.is_empty() && request.form.title == "Changed");
    let step = request.hashed(Ok(password()), &mut sessions, 13);
    assert!(matches!(step, SettingsStep::Save(kept) if matches!(kept.access, AccessUpdate::Replace(_))));
    assert!(sessions.logout_at(&id, &token, 13));
    let SettingsStep::Reply(reply) = request.hashed(Ok(password()), &mut sessions, 14) else {
        panic!("a revoked session saves nothing");
    };
    assert_eq!(failed(reply), 403);
    let Reply::Redirect(to) = request.saved(Ok(true)) else {
        panic!("the browser goes on");
    };
    assert_eq!(to, "/sites/my-site?notice=saved");
    assert!(matches!(request.saved(Ok(false)), Reply::NotFound));
    let (status, message, _) = shown(request.saved(Err(AppError::publishing())));
    assert_eq!(status, 500);
    assert_eq!(
        message,
        "Settings could not be confirmed. Reopen this site's details before retrying."
    );
}

#[test]
fn settings_errors_name_their_field() {
    let (mut sessions, id, token) = live();
    let mut submit = |title: &[u8], entry: &[u8], visibility: &[u8]| {
        let mut request = settings_request(&id);
        let fields = form(&[
            ("csrf_token", token.as_bytes()),
            ("title", title),
            ("entry", entry),
            ("visibility", visibility),
        ]);
        match request.submit(Ok(fields), &mut sessions, 12) {
            SettingsStep::Reply(reply) => shown(reply),
            _ => panic!("the page is shown again"),
        }
    };
    let (status, _, field) = submit(b"a\nb", b"index.html", b"open");
    assert_eq!((status, field.as_deref()), (400, Some("title")));
    let (_, message, field) = submit(b"", b"../index.html", b"open");
    assert_eq!(field.as_deref(), Some("entry"));
    assert_eq!(message, "Enter the exact filename of an existing site file.");
    let (_, _, field) = submit(b"", b"index.html", b"unknown");
    assert_eq!(field.as_deref(), Some("visibility"));
    let mut request = settings_request(&id);
    let broken = AppError::request(413, "the upload exceeds the configured size limit");
    let SettingsStep::Reply(reply) = request.submit(Err(broken), &mut sessions, 12) else {
        panic!("the page is shown again");
    };
    assert_eq!(shown(reply).0, 413);
    let wrong = form(&[
        ("csrf_token", b"wrong"),
        ("title", b""),
        ("entry", b"index.html"),
        ("visibility", b"open"),
    ]);
    let SettingsStep::Reply(reply) = request.submit(Ok(wrong), &mut sessions, 12) else {
        panic!("the request is refused");
    };
    assert_eq!(failed(reply), 403);
}

#[test]
fn deletion_needs_confirmation_and_the_own_token() {
    let (mut sessions, id, token) = live();
    let csrf = ("csrf_token", token.as_bytes());
    let mut submit = |fields: &[(&str, &[u8])]| {
        confirm_delete(Ok(form(fields)), &id, &mut sessions, 12)
    };
    assert!(matches!(submit(&[csrf, ("confirm", b"delete")]), DeleteStep::Delete));
    let DeleteStep::Reply(reply) = submit(&[csrf]) else { panic!("shown again") };
    assert_eq!(
        shown(reply),
        (400, "Select the confirmation checkbox before deleting this site.".to_owned(), None)
    );
    for fields in [
        vec![("confirm", b"delete".as_slice())],
        vec![("csrf_token", b"wrong-token".as_slice()), ("confirm", b"delete")],
    ] {
        let DeleteStep::Reply(reply) = submit(&fields) else { panic!("refused") };
        assert_eq!(failed(reply), 403);
    }
    for (outcome, location) in [
        (DeleteOutcome::Deleted, "/?notice=deleted"),
        (DeleteOutcome::DeletedContentRetained, "/?notice=retained"),
    ] {
        let Reply::Redirect(to) = deleted(Ok(outcome)) else { panic!("goes on") };
        assert_eq!(to, location);
        assert!(ListQuery::parse(Some(&to[2..])).ok().unwrap().notice.is_some());
    }
    assert!(matches!(deleted(Ok(DeleteOutcome::NotFound)), Reply::NotFound));
    assert_eq!(shown(deleted(Err(AppError::publishing()))).0, 500);
}

#[test]
fn list_queries_are_unambiguous_and_bounded() {
    let rejected = "page=0 page=-1 page= page=abc page=1.5 page=%2B1 page=%201 page=1&page=2 notice=unknown unknown=1 page=1&unknown=1 notice=deleted&notice=retained page=9999999999999999999999999999999999999999";
    for query in rejected.split(' ') {
        assert!(ListQuery::parse(Some(query)).is_err(), "{query}");
    }
    let accepted =
        "page=1 notice=deleted notice=retained page=1&notice=deleted notice=retained&page=1";
    for query in accepted.split(' ') {
        assert_eq!(ListQuery::parse(Some(query)).ok().unwrap().page, 1, "{query}");
    }
    assert_eq!(ListQuery::parse(Some("page=7")).ok().unwrap().page, 7);
    assert!(ListQuery::parse(None).ok().unwrap().notice.is_none());
    assert_eq!(ListQuery::parse(Some("")).ok().unwrap().page, 1);
}

#[test]
fn list_pages_show_twenty_sites_and_their_neighbours() {
    let records = |count: usize| (0..count).map(|i| details(&format!("listed-{i:02}"))).collect();
    let query = |page| ListQuery { page, notice: None };
    let full = list_page(records(21), query(2), "https://view.local").ok().unwrap();
    assert_eq!(full.sites.len(), 20);
    assert_eq!(full.sites[0].url, "https://view.local/s/listed-00/");
    assert_eq!(full.next_url.as_deref(), Some("/?page=3"));
    assert_eq!(full.previous_url.as_deref(), Some("/?page=1"));
    let last = list_page(records(20), query(1), "https://view.local").ok().unwrap();
    assert!(last.next_url.is_none() && last.previous_url.is_none());
    assert!(list_page(records(21), query(usize::MAX), "https://view.local").is_err());
    assert!(list_page(vec![details("BAD")], query(1), "https://view.local").is_err());
}

#[test]
fn dates_and_detail_queries_are_presented() {
    assert_eq!(created_date("2026-03-09 12:00:00 UTC"), "9 Mar 2026");
    assert_eq!(created_date("1999-12-31"), "31 Dec 1999");
    for label in ["Unknown", "2026-13-01", "2026-00-01", "2026-01-32", "26-01-01", "a-b-c-d"] {
        assert_eq!(created_date(label), label);
    }
    let shown: AdminSite = present(details("my-site"), "https://view.local").ok().unwrap();
    assert_eq!(shown.created_date(), "9 Mar 2026");
    assert_eq!(detail_query(Some("notice=saved")).unwrap(), (Some("Settings saved."), "html"));
    assert_eq!(detail_query(Some("notice=replaced")).unwrap(), (Some("Content replaced."), "html"));
    assert_eq!(detail_query(Some("input=zip")).unwrap(), (None, "zip"));
    assert_eq!(detail_query(None).unwrap(), (None, "html"));
    assert!(detail_query(Some("input=html")).is_err());
}

fn row(protected: bool, expires_at: Option<i64>) -> Option<AccessSite> {
    let mut found = site("private-site");
    found.expires_at = expires_at;
    if protected {
        found.visibility = "password".to_owned();
    }
    Some(AccessSite { site: found, password: protected.then(password) })
}

#[test]
fn sites_are_served_open_granted_or_not_at_all() {
    let own = slug("private-site");
    let grant = format!("unlock:v1:private-site:{}:1000500", password().salt_id());
    let cookie = sign("pb_unlock_private-site", &grant);
    let now = Some(1_000_000);
    let access = |row: Option<AccessSite>, cookies: &[&str], now: Option<u64>| {
        serve(&row, &own, &values(cookies), &key(), now)
    };
    assert!(matches!(access(None, &[], now), Ok(Access::NotFound)));
    assert!(matches!(access(row(false, None), &[], now), Ok(Access::Granted(false))));
    assert!(matches!(access(row(false, Some(1)), &[], now), Ok(Access::NotFound)));
    assert!(matches!(access(row(true, None), &[], now), Ok(Access::Locked)));
    assert!(matches!(access(row(true, None), &[&cookie], now), Ok(Access::Granted(true))));
    assert!(matches!(access(row(true, Some(9)), &[&cookie], now), Ok(Access::NotFound)));
    let late = Some(1_000_500);
    assert!(matches!(access(row(true, None), &[&cookie], late), Ok(Access::Locked)));
    assert!(access(row(true, None), &[&cookie, &cookie], now).is_err());
    assert!(access(row(false, None), &[], None).is_err());
    assert_eq!(cache_control(false, 200), Some("public, max-age=60"));
    assert_eq!(cache_control(false, 404), Some("public, max-age=60"));
    assert!(cache_control(true, 200).is_none() && cache_control(false, 500).is_none());
    assert_eq!(grant_name(&own), "pb_unlock_private-site");
    assert_eq!(challenge_name(&own), "__Secure-pb_unlock_form_private-site");
}

#[test]
fn viewer_policy_is_for_the_own_pages_alone() {
    let trusted = finish_headers(true, false);
    assert!(trusted.contains(&("cache-control", Some("private, no-store"))));
    assert!(trusted.iter().any(|(name, value)| {
        *name == "content-security-policy" && value.is_some_and(|text| text.contains("'none'"))
    }));
    let uploaded = finish_headers(false, true);
    assert!(uploaded.contains(&("content-security-policy", None)));
    assert!(uploaded.contains(&("x-robots-tag", Some("noindex"))));
    assert_eq!(uploaded.len(), 4);
}

fn target(captured: Option<&str>, path: &str, query: Option<&str>) -> Target {
    Target {
        captured: captured.map(str::to_owned),
        path: path.to_owned(),
        query: query.map(str::to_owned),
        entry: "index.html".to_owned(),
    }
}

fn looked(seen: Seen) -> ServeEvent {
    ServeEvent::Looked(seen)
}

#[test]
fn unsafe_paths_are_never_looked_up() {
    for (captured, raw) in [
        ("../outside/index.html", "../outside/index.html"),
        ("nested/index.html", "nested%2findex.html"),
        ("nested\\index.html", "nested%5Cindex.html"),
        ("nested//index.html", "nested//index.html"),
        ("\0index.html", "%00index.html"),
        ("__unlock", "%5f%5funlock"),
    ] {
        let asked = target(Some(captured), &format!("/s/my-site/{raw}"), None);
        let serving = Serving::new(&asked);
        assert_eq!(serving.reply, Some(ServeReply::NotFound), "{raw}");
    }
    let mut entry = target(None, "/s/my-site/", None);
    entry.entry = "../outside/index.html".to_owned();
    let serving = Serving::new(&entry).next(&entry, looked(Seen::Directory));
    assert_eq!(serving.reply, Some(ServeReply::NotFound));
}

#[test]
fn files_indexes_and_error_pages_are_sent_after_a_look() {
    let style = target(Some("css/style.css"), "/s/my-site/css/style.css", Some("v=1"));
    let serving = Serving::new(&style);
    assert_eq!(serving.phase, ServePhase::StatPath);
    let sending = serving.next(&style, looked(Seen::File));
    assert_eq!(sending.phase, ServePhase::SendPath);
    assert_eq!(style.suffix(), "/css/style.css?v=1");
    assert_eq!(sending.next(&style, ServeEvent::Sent).reply, Some(ServeReply::File));
    let gone = sending.next(&style, ServeEvent::Absent);
    assert_eq!(gone.phase, ServePhase::StatMissing);
    let custom = gone.next(&style, looked(Seen::File));
    assert_eq!(custom.next(&style, ServeEvent::Sent).reply, Some(ServeReply::ErrorPage));
    let plain = gone.next(&style, looked(Seen::Unavailable));
    assert_eq!(plain.reply, Some(ServeReply::NotFound));
    let directory = target(Some("docs"), "/s/my-site/docs", Some("q"));
    let bare = Serving::new(&directory).next(&directory, looked(Seen::Directory));
    assert_eq!(bare.reply, Some(ServeReply::AddSlash));
    assert_eq!(directory.with_slash(), "/s/my-site/docs/?q");
    let slashed = target(Some("docs/"), "/s/my-site/docs/", None);
    let index = Serving::new(&slashed).next(&slashed, looked(Seen::Directory));
    assert_eq!(index.phase, ServePhase::StatIndex);
    assert_eq!(index.next(&slashed, looked(Seen::File)).phase, ServePhase::SendPath);
    let root = target(None, "/s/my-site", None);
    let bare = Serving::new(&root).next(&root, looked(Seen::Directory));
    assert_eq!(bare.reply, Some(ServeReply::AddSlash));
    let root = target(None, "/s/my-site/", None);
    let entry = Serving::new(&root).next(&root, looked(Seen::Directory));
    assert_eq!(entry.next(&root, looked(Seen::File)).phase, ServePhase::SendEntry);
    let failed = entry.next(&root, looked(Seen::Failed));
    assert_eq!(failed.reply, Some(ServeReply::Failed));
}

#[test]
fn paths_are_found_through_real_directories_alone() {
    let walk = |seen: &[Seen], relative| {
        seen.iter().fold(Walk::new(relative), |walk, seen| walk.next(*seen)).outcome
    };
    let dir = Seen::Directory;
    assert_eq!(walk(&[dir, dir, dir], None), Some(Seen::Directory));
    assert_eq!(walk(&[dir, dir, dir, dir, Seen::File], Some("a/b")), Some(Seen::File));
    assert_eq!(walk(&[dir, dir, dir, Seen::File], Some("a/b")), Some(Seen::Unavailable));
    assert_eq!(walk(&[dir, Seen::Unavailable], Some("a")), Some(Seen::Unavailable));
    assert_eq!(walk(&[dir, dir, Seen::File], Some("a")), Some(Seen::Unavailable));
    assert_eq!(walk(&[Seen::Failed], Some("a")), Some(Seen::Failed));
    assert_eq!(walk(&[dir, dir, dir], Some("a")), None);
}

#[test]
fn unlock_forms_are_for_live_protected_sites() {
    let now = Some(1_000_000);
    assert!(find_password(row(true, None), now).unwrap().is_some());
    assert!(find_password(row(false, None), now).unwrap().is_none());
    assert!(find_password(row(true, Some(5)), now).unwrap().is_none());
    assert!(find_password(None, now).unwrap().is_none());
    assert!(find_password(row(true, None), None).is_err());
    let own = slug("private-site");
    assert_eq!(unlock::redirect(&own), "/s/private-site/__unlock");
    let grant = format!("unlock:v1:private-site:{}:1000500", password().salt_id());
    let cookie = sign("pb_unlock_private-site", &grant);
    let granted = page_for(&values(&[&cookie]), &key(), &own, &password(), now);
    assert!(granted.unwrap().is_none());
    let fresh = page_for(&values(&[]), &key(), &own, &password(), now).unwrap();
    assert!(fresh.unwrap().is_none());
    let unclocked = page_for(&values(&[&cookie]), &key(), &own, &password(), None).unwrap();
    assert!(unclocked.unwrap().is_none());
    let token = "c".repeat(64);
    let payload = format!("unlock-form:v1:private-site:{token}:1000900");
    let kept = unlock::show(Some(payload), &own, now).ok().unwrap();
    assert!(kept.cookie.is_none() && kept.csrf_token == token);
    let issued = unlock::show(None, &own, now).ok().unwrap();
    let cookie = issued.cookie.unwrap();
    assert_eq!(cookie.name, "__Secure-pb_unlock_form_private-site");
    assert_eq!((cookie.path.as_str(), cookie.lifetime), ("/s/private-site/", Some(900)));
}

#[test]
fn unlock_requests_check_origin_challenge_and_password_in_turn() {
    let own = slug("private-site");
    let peer = IpAddr::v4(192, 0, 2, 10);
    let token = "d".repeat(64);
    let payload = format!("unlock-form:v1:private-site:{token}:1000900");
    let cookie = sign("__Secure-pb_unlock_form_private-site", &payload);
    let open = |head: &Head| {
        UnlockRequest::open(head, &key(), &own, ClientIpSource::Socket, &peer)
    };
    let request = open(&head("view.local", &[&cookie])).ok().unwrap().unwrap();
    let mut foreign = head("view.local", &[&cookie]);
    foreign.origins = values(&["https://pages.local"]);
    assert!(open(&foreign).ok().unwrap().is_none());
    assert!(open(&head("view.local", &[&cookie, &cookie])).is_err());
    let submit = |fields: &[(&str, &[u8])]| {
        request.submit(Ok(form(fields)), &own, Some(1_000_000))
    };
    let csrf = ("csrf_token", token.as_bytes());
    let good = submit(&[csrf, ("password", b"synthetic-site-password")]);
    assert!(matches!(good, UnlockStep::Verify(text) if text == "synthetic-site-password"));
    for fields in [vec![("password", b"x".as_slice())], vec![("csrf_token", b"invalid".as_slice())]]
    {
        let UnlockStep::Show(reply) = submit(&fields) else { panic!("shown") };
        assert_eq!(
            shown(reply),
            (403, "Request could not be verified. Reopen the unlock form.".to_owned(), None)
        );
    }
    let UnlockStep::Show(reply) = submit(&[csrf, ("password", b"")]) else { panic!("shown") };
    assert_eq!(
        shown(reply),
        (400, "Enter a valid site password.".to_owned(), Some("password".to_owned()))
    );
    let UnlockStep::Show(reply) = submit(&[csrf, csrf]) else { panic!("shown") };
    assert_eq!(shown(reply).0, 400);
    let big = AppError::request(413, "the upload exceeds the configured size limit");
    assert!(shown(unlock::failure(big)).1.starts_with("The unlock request or password is too"));
    assert_eq!(
        shown(unlock::failure(AppError::authentication())),
        (500, "Unlock could not be completed. Reopen the form and try again.".to_owned(), None)
    );
    assert!(unlock::checked(Ok(true)).is_none());
    assert_eq!(shown(unlock::checked(Ok(false)).unwrap()).0, 401);
}

#[test]
fn grants_refer_only_to_the_generation_that_was_verified() {
    let own = slug("private-site");
    let now = Some(1_000_000);
    let Ok(Unlocked::Granted(cookies, to)) = complete(row(true, None), &own, &password(), now)
    else {
        panic!("the grant is issued");
    };
    assert_eq!(to, "/s/private-site/");
    assert!(cookies[0].lifetime.is_none());
    assert_eq!(cookies[1].name, "pb_unlock_private-site");
    assert_eq!(cookies[1].lifetime, Some(604_800));
    assert!(verify_viewer_grant(Some(&cookies[1].value), &own, &password()));
    let reset = Password::from_encoded(CANONICAL_HASH.replace("DA0ODw", "DA0ODA")).unwrap();
    let Ok(Unlocked::Show(reply)) = complete(row(true, None), &own, &reset, now) else {
        panic!("the form is shown again");
    };
    assert_eq!(shown(reply).0, 409);
    let Ok(Unlocked::Show(reply)) = complete(row(false, None), &own, &password(), now) else {
        panic!("the form is shown again");
    };
    assert_eq!(shown(reply).0, 409);
    let expired = complete(row(true, Some(1)), &own, &password(), now);
    assert!(matches!(expired, Ok(Unlocked::NotFound)));
    assert!(matches!(complete(None, &own, &password(), now), Ok(Unlocked::NotFound)));
}

#[test]
fn api_tokens_must_be_configured_and_exact() {
    let check = |token: Option<&str>, header: Option<&str>| {
        let bytes = header.map(|text| text.as_bytes().to_vec());
        require_token(token, bytes.as_ref())
    };
    let token = Some("synthetic-api-token");
    assert_eq!(check(None, Some("Bearer synthetic-api-token")), TokenCheck::NotFound);
    assert_eq!(check(token, Some("Bearer synthetic-api-token")), TokenCheck::Passed);
    for header in [
        None,
        Some("Bearer wrong-token"),
        Some("Bearer ynthetic-api-token"),
        Some("bearer synthetic-api-token"),
        Some("synthetic-api-token"),
    ] {
        assert_eq!(check(token, header), TokenCheck::Unauthorized, "{header:?}");
    }
}

#[test]
fn api_creation_and_replacement_validate_before_they_act() {
    let body = |fields: &[(&str, &[u8])]| Ok((form(fields), 500));
    let html: (&str, &[u8]) = ("html", b"<h1>Api</h1>");
    let Ok(api::CreateStep::Publish(new)) = api::create(body(&[html, ("slug", b"notes")]), MIB)
    else {
        panic!("the site is published");
    };
    assert_eq!(new.slug.unwrap().as_str(), "notes");
    let secret = [html, ("visibility", b"password".as_slice()), ("password", b"secret")];
    let step = api::create(body(&secret), MIB);
    assert!(matches!(step, Ok(api::CreateStep::Hash(_, text)) if text == "secret"));
    for fields in [
        vec![("html", b"   ".as_slice())],
        vec![html, ("slug", b"x".as_slice())],
        vec![html, ("visibility", b"password".as_slice())],
        vec![html, ("visibility", b"other".as_slice())],
    ] {
        assert_eq!(api::create(body(&fields), MIB).err().unwrap().into_response().0, 400);
    }
    assert_eq!(api::replace(body(&[html]), MIB).ok().unwrap().size_bytes, 12);
    assert!(api::replace(body(&[("html", b" ")]), MIB).is_err());
    assert_eq!(api::present(&site("notes"), "https://view.local").unwrap(), "https://view.local/s/notes/");
    assert_eq!(api::delete_status(DeleteOutcome::NotFound), 404);
    assert_eq!(api::delete_status(DeleteOutcome::Deleted), 204);
    assert!(api::renders_error(404) && api::renders_error(500) && !api::renders_error(204));
}

#[test]
fn patches_keep_what_they_do_not_name() {
    let blank = || Patch {
        title: None,
        entry: None,
        visibility: None,
        password: None,
        expires_in: None,
    };
    let Ok(PatchStep::Save(kept)) = api::update(blank(), site("notes")) else {
        panic!("the settings are saved");
    };
    assert_eq!((kept.title.as_str(), kept.entry.as_str()), ("Title", "index.html"));
    assert!(matches!(kept.access, AccessUpdate::Open));
    let protect = Patch {
        title: Some("Private notes".to_owned()),
        visibility: Some("password".to_owned()),
        password: Some("synthetic-site-password".to_owned()),
        expires_in: Some("never".to_owned()),
        ..blank()
    };
    let Ok(PatchStep::Hash(patched, text)) = api::update(protect, site("notes")) else {
        panic!("the password is hashed");
    };
    assert_eq!((patched.title.as_str(), text.as_str()), ("Private notes", "synthetic-site-password"));
    let saved = patched.with_access(AccessUpdate::Replace(password()));
    assert!(matches!(saved.ok().unwrap().access, AccessUpdate::Replace(_)));
    let mut protected = site("notes");
    protected.visibility = "password".to_owned();
    let retitled = Patch { title: Some("Still private".to_owned()), ..blank() };
    let Ok(PatchStep::Save(kept)) = api::update(retitled, protected) else {
        panic!("the settings are saved");
    };
    assert!(matches!(kept.access, AccessUpdate::Keep));
    let wrong = Patch { entry: Some("../x".to_owned()), ..blank() };
    assert_eq!(api::update(wrong, site("notes")).err().unwrap().into_response().0, 400);
}

#[test]
fn sites_are_entered_in_a_live_session_only() {
    let (mut sessions, id, token) = live();
    let cookie = sign("pb_admin", &id);
    let nobody = values(&[]);
    let known = values(&[&cookie]);
    for raw in ["my-site", "../x"] {
        let entry = show_site(&nobody, &key(), raw, &mut sessions, 11);
        assert!(matches!(entry, Ok(Entry::Login)));
    }
    let entry = show_site(&known, &key(), "../x", &mut sessions, 11);
    assert!(matches!(entry, Ok(Entry::NotFound)));
    let Ok(Entry::Site(found)) = show_site(&known, &key(), "my-site", &mut sessions, 11) else {
        panic!("the site is looked up");
    };
    assert_eq!(found.slug.as_str(), "my-site");
    assert_eq!((found.session_id, found.csrf_token), (id.clone(), token.clone()));

    let own = head("pages.local", &[&cookie]);
    let Ok(Entry::Site(found)) = change_site(&own, &key(), "my-site", &mut sessions, 11) else {
        panic!("the site is looked up");
    };
    assert_eq!((found.session_id, found.csrf_token), (id, token));
    let entry = change_site(&own, &key(), "../x", &mut sessions, 11);
    assert!(matches!(entry, Ok(Entry::NotFound)));
    let mut foreign = head("pages.local", &[&cookie]);
    foreign.origins = values(&["https://elsewhere.example"]);
    let anonymous = head("pages.local", &[]);
    for refused in [foreign, anonymous] {
        for raw in ["my-site", "../x"] {
            let entry = change_site(&refused, &key(), raw, &mut sessions, 11);
            assert_eq!(entry.err().map(|error| error.into_response().0), Some(403));
        }
    }
}

#[test]
fn sites_are_served_until_they_are_swept() {
    let mut row = site("my-site");
    for (expires_at, now) in [(Some(5), 4), (Some(5), 5), (Some(5), 6), (None, i64::MAX)] {
        row.expires_at = expires_at;
        assert_eq!(available(&row, now), !expired(expires_at, now));
    }
    row.visibility = "secret".to_owned();
    assert!(!available(&row, 1));
}
