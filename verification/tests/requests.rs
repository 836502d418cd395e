//! Host dispatch, origins, cookies, client addresses and forms.
use axum::response::IntoResponse;
use axum_extra::extract::cookie::{Cookie, Key, SignedCookieJar};
use pagebin::auth::sessions::{Sessions, SESSION_NANOS};
use pagebin::auth::tokens::challenge;
use pagebin::auth::{CHALLENGE_LIFETIME, SESSION_LIFETIME};
use pagebin::error::AppError;
use pagebin::ip::IpAddr;
use pagebin::routes::admin::{
    enter, finish_headers, is_font, login_challenge, login_finished, login_page, logout,
    logout_head, referring_page, session, set_theme, theme, Head, LoginReply, LoginRequest,
    LoginStep, ThemeRequest, THEME_LIFETIME,
};
use pagebin::routes::cookies::{check_cookies, plain, signed, CookieKey};
use pagebin::routes::forms::{
    read_fields, DeleteForm, PasswordForm, RawField, RawForm, SettingsForm,
};
use pagebin::routes::upload::{Input, PublishingForm};
use pagebin::routes::{
    body_error, check_origin, header_text, is_site_path, require_host, ClientIpSource,
};
use pagebin::sites::validate::Slug;

const MASTER: [u8; 32] = [0x11; 32];
const ADMIN_HOST: &str = "pages.local";
const VIEW_HOST: &str = "view.local";

fn values(texts: &[&str]) -> Vec<Vec<u8>> {
    texts.iter().map(|text| text.as_bytes().to_vec()).collect()
}

fn sign(name: &str, value: &str) -> String {
    let jar = SignedCookieJar::new(Key::derive_from(&MASTER))
        .add(Cookie::new(name.to_owned(), value.to_owned()))
        .into_response();
    let header = jar.headers()["set-cookie"].to_str().unwrap().to_owned();
    header.split(';').next().unwrap().to_owned()
}

fn key() -> CookieKey {
    CookieKey::derive_from(&MASTER)
}

fn head(cookies: &[&str]) -> Head {
    Head {
        hosts: values(&[ADMIN_HOST]),
        origins: values(&["https://pages.local"]),
        cookies: values(cookies),
        forwarded: Vec::new(),
        query: None,
    }
}

fn field(name: &str, bytes: &[u8]) -> RawField {
    RawField {
        name: Some(name.to_owned()),
        file_name: None,
        bytes: bytes.to_vec(),
        broken: None,
    }
}

fn upload(name: &str, file_name: &str, bytes: &[u8]) -> RawField {
    RawField { file_name: Some(file_name.to_owned()), ..field(name, bytes) }
}

fn form(fields: Vec<RawField>) -> RawForm {
    RawForm { fields, broken: None }
}

fn status(error: AppError) -> u16 {
    error.into_response().0
}

#[test]
fn admin_hosts_accept_valid_authorities_and_reject_everything_else() {
    let health = |hosts: &[&str], target: Option<&str>| {
        require_host(&values(hosts), "/health", target, ADMIN_HOST, Some(VIEW_HOST))
    };
    for host in ["pages.local", "PAGES.LOCAL", "pages.local.", "pages.local:65535"] {
        assert!(health(&[host], None), "{host}");
    }
    assert!(health(&["pages.local:8080"], Some("pages.local:8080")));
    for host in [
        VIEW_HOST,
        "view.local:8080",
        "unknown.local",
        "pages.local.evil",
        "pages.local,view.local",
        "user@pages.local",
        " pages.local",
        "pages.local ",
        "pages.local:",
        "pages.local:abc",
        "pages.local:65536",
        "pages.local:+80",
        "pages.local/",
        "pages..local",
        "pages.local:80:90",
    ] {
        assert!(!health(&[host], None), "{host}");
    }
    assert!(!health(&[], None));
    assert!(!health(&[ADMIN_HOST, ADMIN_HOST], None));
    assert!(!health(&[ADMIN_HOST, VIEW_HOST], None));
    assert!(!health(&[ADMIN_HOST], Some("view.local")));
    assert!(!health(&[ADMIN_HOST], Some("pages.local:80")));
    assert!(!require_host(&vec![vec![0xff]], "/health", None, ADMIN_HOST, Some(VIEW_HOST)));
}

#[test]
fn single_host_mode_and_bracketed_addresses_are_normalized() {
    let serves = |host: &str, admin: &str| {
        require_host(&values(&[host]), "/health", None, admin, None)
    };
    assert!(serves(ADMIN_HOST, ADMIN_HOST) && !serves(VIEW_HOST, ADMIN_HOST));
    for host in ["[::1]", "[0:0:0:0:0:0:0:1]:8080"] {
        assert!(serves(host, "[::1]"), "{host}");
    }
    for host in ["[::2]", "[::1]:", "[::1]:65536", "::1", "[::1%eth0]"] {
        assert!(!serves(host, "[::1]"), "{host}");
    }
    assert!(require_host(&values(&[ADMIN_HOST]), "/s/example/", None, ADMIN_HOST, None));
}

#[test]
fn uploaded_sites_are_served_on_the_viewer_host_alone() {
    let serves = |host: &str, path: &str| {
        require_host(&values(&[host]), path, None, ADMIN_HOST, Some(VIEW_HOST))
    };
    assert!(serves(VIEW_HOST, "/s/example/") && serves(VIEW_HOST, "/s"));
    assert!(!serves(ADMIN_HOST, "/s/example/"));
    assert!(!serves(VIEW_HOST, "/new") && !serves(VIEW_HOST, "/sites/example"));
    assert!(serves(ADMIN_HOST, "/sites/example"));
    assert!(is_site_path("/s/") && !is_site_path("/sites"));
}

#[test]
fn origins_must_be_the_own_one_where_they_are_sent() {
    let allowed = |origins: &[&str], host: &str| {
        check_origin(&values(origins), &values(&[host])).is_ok()
    };
    assert!(allowed(&[], ADMIN_HOST));
    assert!(allowed(&["https://pages.local"], ADMIN_HOST));
    assert!(allowed(&["https://pages.local"], "pages.local:443"));
    assert!(allowed(&["http://localhost:5050"], "localhost:5050"));
    for origin in [
        "null",
        "https://external.example",
        "https://view.local",
        "http://pages.local",
        "https://pages.local:8443",
        "https://pages.local/",
        "https://user@pages.local",
    ] {
        let error = check_origin(&values(&[origin]), &values(&[ADMIN_HOST])).err().unwrap();
        assert_eq!(
            error.into_response(),
            (403, "request could not be verified; reopen the sign-in page"),
            "{origin}"
        );
    }
    assert!(!allowed(&["https://pages.local", "https://pages.local"], ADMIN_HOST));
    assert!(check_origin(&values(&["https://pages.local"]), &Vec::new()).is_err());
}

#[test]
fn client_addresses_come_from_the_socket_or_one_verified_header() {
    let peer = IpAddr::v4(192, 0, 2, 10);
    let socket = ClientIpSource::Socket.resolve(&values(&["203.0.113.9"]), &peer).unwrap();
    assert_eq!(socket.parts(), [192, 0, 2, 10]);
    let forwarded = |texts: &[&str]| ClientIpSource::Forwarded.resolve(&values(texts), &peer);
    let last = forwarded(&["192.0.2.1, 2001:db8::1"]).unwrap();
    assert_eq!(last.parts(), [0x2001, 0xdb8, 0, 0, 0, 0, 0, 1]);
    assert_eq!(forwarded(&["::ffff:192.0.2.7"]).unwrap().parts(), [192, 0, 2, 7]);
    for invalid in [&["unknown"][..], &["192.0.2.1,"], &["192.0.2.1:8080"], &[], &["::1", "::1"]] {
        let error = forwarded(invalid).err().unwrap();
        assert_eq!(error.into_response(), (400, "invalid forwarded client address"));
    }
}

#[test]
fn header_text_is_visible() {
    assert_eq!(header_text(b"a\tb ~").unwrap(), "a\tb ~");
    assert!(header_text(b"a\x7f").is_none() && header_text(&[0x80]).is_none());
    assert!(header_text(b"\n").is_none());
}

#[test]
fn signed_cookies_read_back_and_forgeries_do_not() {
    let names = ["pb_admin", "__Host-pb_login"];
    let read = |cookies: &[&str], wanted: &str| signed(&values(cookies), &key(), &names, wanted);
    let good = sign("pb_admin", "session-value");
    assert_eq!(read(&[&good], "pb_admin").unwrap().as_deref(), Some("session-value"));
    assert!(read(&[&good], "__Host-pb_login").unwrap().is_none());
    for forged in [format!("{good}x"), "pb_admin=session-value".to_owned()] {
        assert!(read(&[&forged], "pb_admin").unwrap().is_none());
    }
    let other = CookieKey::derive_from(&[0x22; 32]);
    assert!(signed(&values(&[&good]), &other, &names, "pb_admin").unwrap().is_none());
    assert_ne!(key().bytes(), other.bytes());
    assert_eq!(key().bytes(), Key::derive_from(&MASTER).master());
}

#[test]
fn ambiguous_cookie_names_are_rejected() {
    let names = ["pb_admin", "__Host-pb_login"];
    let check = |cookies: &[&str]| check_cookies(&values(cookies), &names);
    assert!(check(&["pb_admin=a; other=b; other=c"]).is_ok());
    for ambiguous in [
        &["pb_admin=a; pb_admin=b"][..],
        &["pb_admin=a", "pb_admin=b"],
        &["%5F%5FHost-pb_login=a"],
        &["pb_admin=a; %70b_admin=b"],
    ] {
        assert_eq!(status(check(ambiguous).err().unwrap()), 400, "{ambiguous:?}");
    }
    assert!(check_cookies(&vec![vec![0xff]], &names).is_err());
}

#[test]
fn themes_are_plain_cookies_with_a_dark_default() {
    assert_eq!(theme(&values(&["pb_theme=ledger-light"])), "ledger-light");
    for cookies in [&["pb_theme=bogus"][..], &["pb_theme=ledger"], &[]] {
        assert_eq!(theme(&values(cookies)), "ledger");
    }
    assert_eq!(plain(&values(&["a=b; c=d"]), "c").as_deref(), Some("d"));
}

#[test]
fn theme_choices_are_stored_and_lead_back() {
    let stored = set_theme(Ok(form(vec![field("theme", b"ledger-light")]))).unwrap();
    assert_eq!((stored.name.as_str(), stored.value.as_str()), ("pb_theme", "ledger-light"));
    assert_eq!((stored.path.as_str(), stored.lifetime), ("/", Some(THEME_LIFETIME)));
    assert!(stored.guarded && !stored.signed);
    for fields in [vec![field("theme", b"bogus")], vec![], vec![field("theme", &[b'x'; 17])]] {
        assert!(set_theme(Ok(form(fields))).is_err());
    }
    let back = |text: &str| referring_page(Some(&text.as_bytes().to_vec()));
    assert_eq!(back("https://pages.local/new?input=zip"), "/new?input=zip");
    assert_eq!(back("https://pages.local"), "/");
    assert_eq!(back("https://pages.local//evil.example"), "/");
    assert_eq!(back("not a uri"), "/");
    assert_eq!(referring_page(None), "/");
}

#[test]
fn theme_requests_come_from_the_own_origin() {
    let referer = b"https://pages.local/new".to_vec();
    let opened = ThemeRequest::open(&head(&[]), Some(&referer)).ok().unwrap();
    let chosen = opened.submit(Ok(form(vec![field("theme", b"ledger")])));
    let (stored, back) = chosen.ok().unwrap();
    assert_eq!((stored.value.as_str(), back.as_str()), ("ledger", "/new"));
    let foreign = Head { origins: values(&["https://external.example"]), ..head(&[]) };
    assert_eq!(status(ThemeRequest::open(&foreign, None).err().unwrap()), 403);
    let opened = ThemeRequest::open(&head(&[]), None).ok().unwrap();
    let refused = opened.submit(Ok(form(vec![field("theme", b"bogus")])));
    assert_eq!(status(refused.err().unwrap()), 400);
}

#[test]
fn form_fields_are_whitelisted_bounded_single_texts() {
    let allowed = [("title", 5), ("slug", 3)];
    let read = |fields: Vec<RawField>| read_fields(form(fields), &allowed);
    let both = read(vec![field("slug", b"abc"), field("title", "hé".as_bytes())]).unwrap();
    assert_eq!(both, [Some("hé".to_owned()), Some("abc".to_owned())]);
    assert_eq!(read(vec![]).unwrap(), [None, None]);
    for invalid in [
        vec![field("unknown", b"")],
        vec![field("title", b"a"), field("title", b"b")],
        vec![upload("title", "title.txt", b"a")],
        vec![field("title", &[0xff])],
        vec![RawField { name: None, ..field("title", b"a") }],
    ] {
        let error = read(invalid).err().unwrap();
        assert_eq!(error.into_response(), (400, "invalid form submission"));
    }
    let large = read(vec![field("slug", b"abcd")]).err().unwrap();
    assert_eq!(large.into_response(), (413, "form field is too large"));
    let cut = RawField { broken: Some(400), ..field("slug", b"ab") };
    assert_eq!(status(read(vec![cut]).err().unwrap()), 400);
    let tail = RawForm { fields: vec![], broken: Some(413) };
    assert_eq!(status(read_fields(tail, &allowed).err().unwrap()), 413);
    assert_eq!(
        body_error(413).into_response(),
        (413, "the upload exceeds the configured size limit")
    );
    assert_eq!(body_error(400).into_response(), (400, "invalid form submission"));
}

#[test]
fn settings_and_delete_forms_name_what_is_missing() {
    let full = || {
        vec![
            field("csrf_token", b"t"),
            field("title", b"Title"),
            field("entry", b"index.html"),
            field("visibility", b"open"),
        ]
    };
    let read = SettingsForm::read(form(full())).unwrap();
    assert_eq!((read.title.as_str(), read.password.as_str()), ("Title", ""));
    assert_eq!(read.expires_in, "keep");
    for index in 0..4 {
        let mut fields = full();
        fields.remove(index);
        let expected = if index == 0 { 403 } else { 400 };
        assert_eq!(status(SettingsForm::read(form(fields)).err().unwrap()), expected);
    }
    let delete = |fields| DeleteForm::read(form(fields));
    let confirmed = delete(vec![field("csrf_token", b"t"), field("confirm", b"delete")]);
    assert_eq!(confirmed.unwrap().csrf_token, "t");
    assert_eq!(status(delete(vec![field("confirm", b"delete")]).err().unwrap()), 403);
    for confirm in [&b""[..], b"yes", b"Delete", b"delete "] {
        let error = delete(vec![field("csrf_token", b"t"), field("confirm", confirm)]);
        assert_eq!(
            error.err().unwrap().into_response(),
            (400, "Select the confirmation checkbox before deleting this site.")
        );
    }
    let password = PasswordForm::read(form(vec![field("password", b"p")])).unwrap();
    assert!(password.csrf_token.is_none() && password.password.is_some());
}

#[test]
fn upload_forms_collect_one_kind_of_content() {
    let read = |fields: Vec<RawField>| PublishingForm::read(form(fields), 1_000);
    let html = read(vec![field("html", b"<h1>x</h1>"), field("title", b"T")]).unwrap();
    assert_eq!((html.html.as_str(), html.title.as_str()), ("<h1>x</h1>", "T"));
    assert!(html.html_present && html.input == Input::Html);
    assert_eq!(html.visibility(), "open");
    let files = read(vec![
        upload("files[]", "index.html", b"x"),
        upload("files[]", "", b""),
        upload("files[]", "empty.txt", b""),
    ])
    .unwrap();
    assert!(files.input == Input::Files && files.files.len() == 2);
    let zip = read(vec![upload("zip", "site.zip", b"PK")]).unwrap();
    assert!(zip.input == Input::Zip && zip.zip == Some(b"PK".to_vec()));
    let nothing = read(vec![field("title", b"T")]).err().unwrap();
    assert_eq!(
        nothing.into_response(),
        (400, "Paste HTML, select files, or choose a ZIP archive to publish.")
    );
    for invalid in [
        vec![field("files[]", b"x")],
        vec![field("zip", b"x")],
        vec![upload("zip", "a.zip", b"x"), upload("zip", "b.zip", b"y")],
        vec![upload("html", "index.html", b"x")],
        vec![field("html", b"x"), field("html", b"y")],
        vec![field("html", b"x"), field("unknown", b"y")],
        vec![field("html", &[0xff])],
        vec![upload("files[]", &"n".repeat(1_025), b"x")],
    ] {
        assert_eq!(status(read(invalid).err().unwrap()), 400);
    }
    let wide = read(vec![field("html", b"x"), field("slug", &[b'a'; 1_025])]).err().unwrap();
    assert_eq!(status(wide), 413);
    let mut crowd = Vec::new();
    for _ in 0..10_001 {
        crowd.push(upload("files[]", "", b""));
    }
    assert_eq!(
        read(crowd).err().unwrap().into_response(),
        (413, "Too many files in one upload. Select a smaller batch and try again.")
    );
}

#[test]
fn upload_forms_become_validated_sites() {
    let mut submitted = PublishingForm::read(
        form(vec![
            upload("files[]", "a.html", b"a"),
            upload("files[]", "b.html", b"b"),
            field("entry", b"b.html"),
            field("expires_in", b"7d"),
        ]),
        1_000,
    )
    .unwrap();
    let slug = Slug::parse("my-site").ok();
    let site = submitted.input(slug, 1_000).unwrap();
    assert_eq!(site.entry.as_str(), "b.html");
    assert_eq!(site.slug.unwrap().as_str(), "my-site");
    assert_eq!((site.size_bytes, site.expires_in), (2, Some(604_800)));
    assert!(submitted.files.is_empty() && submitted.entry == "b.html");
    for (query, input) in [
        (None, Input::Html),
        (Some(""), Input::Html),
        (Some("input=files"), Input::Files),
        (Some("input=zip"), Input::Zip),
    ] {
        let blank = PublishingForm::for_query(query).unwrap();
        assert!(blank.input == input && blank.html.is_empty());
    }
    assert!(PublishingForm::for_query(Some("input=other")).is_err());
    assert_eq!(Input::Zip.as_str(), "zip");
}

#[test]
fn sessions_are_found_by_their_signed_cookie() {
    let mut sessions = Sessions::new();
    let id = sessions.create_at(10).unwrap();
    let token = sessions.csrf_at(&id, 10).unwrap();
    let cookie = sign("pb_admin", &id);
    let found = session(&values(&[&cookie]), &key(), &mut sessions, 11).unwrap().unwrap();
    assert_eq!(found, (id.clone(), token.clone()));
    assert!(session(&values(&[]), &key(), &mut sessions, 11).unwrap().is_none());
    let unknown = sign("pb_admin", "unknown-session");
    assert!(session(&values(&[&unknown]), &key(), &mut sessions, 11).unwrap().is_none());
    let entered = enter(&head(&[&cookie]), &key(), &mut sessions, 11).unwrap();
    assert_eq!(entered, (id, token));
    assert_eq!(status(enter(&head(&[]), &key(), &mut sessions, 11).err().unwrap()), 403);
    let mut foreign = head(&[&cookie]);
    foreign.origins = values(&["null"]);
    assert_eq!(status(enter(&foreign, &key(), &mut sessions, 11).err().unwrap()), 403);
    let doubled = head(&[&cookie, "pb_admin=duplicate"]);
    assert_eq!(status(enter(&doubled, &key(), &mut sessions, 11).err().unwrap()), 400);
    let late = 10 + SESSION_NANOS;
    assert_eq!(status(enter(&head(&[&cookie]), &key(), &mut sessions, late).err().unwrap()), 403);
}

#[test]
fn login_pages_keep_a_live_challenge_and_skip_live_sessions() {
    let mut sessions = Sessions::new();
    let id = sessions.create_at(10).unwrap();
    let live = values(&[&sign("pb_admin", &id)]);
    assert!(login_page(&live, &key(), &mut sessions, 11).unwrap().is_none());
    let sent = values(&[&sign("__Host-pb_login", "payload")]);
    let existing = login_page(&sent, &key(), &mut sessions, 11).unwrap().unwrap();
    assert_eq!(existing.as_deref(), Some("payload"));
    let token = "a".repeat(64);
    let payload = format!("login:{token}:1000900");
    let kept = login_challenge(Some(payload.clone()), Some(1_000_000)).unwrap();
    assert!(kept.cookie.is_none() && kept.csrf_token == token);
    for (existing, now) in [
        (Some(payload.clone()), Some(1_000_900)),
        (Some(payload), None),
        (Some("garbage".to_owned()), Some(1_000_000)),
        (None, Some(1_000_000)),
    ] {
        let fresh = login_challenge(existing, now).unwrap();
        let cookie = fresh.cookie.unwrap();
        assert_eq!(cookie.name, "__Host-pb_login");
        assert_eq!((cookie.path.as_str(), cookie.lifetime), ("/", Some(CHALLENGE_LIFETIME)));
        assert!(cookie.signed && cookie.guarded && cookie.value.contains(&fresh.csrf_token));
    }
}

#[test]
fn logins_check_form_challenge_and_password_in_turn() {
    let peer = IpAddr::v4(192, 0, 2, 10);
    let token = "b".repeat(64);
    let payload = format!("login:{token}:1000900");
    let cookie = sign("__Host-pb_login", &payload);
    let request =
        LoginRequest::open(&head(&[&cookie]), &key(), ClientIpSource::Socket, &peer).unwrap();
    assert_eq!(request.ip.parts(), [192, 0, 2, 10]);
    let submit = |fields: Vec<RawField>| request.submit(Ok(form(fields)), Some(1_000_000));
    let csrf = || field("csrf_token", token.as_bytes());
    let good = submit(vec![csrf(), field("password", b"synthetic")]);
    assert!(matches!(good, LoginStep::Verify(password) if password == "synthetic"));
    for fields in [vec![csrf()], vec![csrf(), field("password", b"")]] {
        assert!(matches!(submit(fields), LoginStep::Show(400, "Enter a valid admin password.")));
    }
    for fields in [
        vec![field("password", b"synthetic")],
        vec![field("csrf_token", b"invalid"), field("password", b"synthetic")],
    ] {
        assert!(matches!(submit(fields), LoginStep::Failed(error) if status(error) == 403));
    }
    let late = request.submit(
        Ok(form(vec![csrf(), field("password", b"synthetic")])),
        Some(1_000_900),
    );
    assert!(matches!(late, LoginStep::Failed(error) if status(error) == 403));
    let proxied = LoginRequest::open(&head(&[&cookie]), &key(), ClientIpSource::Forwarded, &peer);
    assert_eq!(status(proxied.err().unwrap()), 400);
    assert!(challenge().unwrap().starts_with("login:"));
}

#[test]
fn finished_logins_start_a_session_or_show_the_form() {
    let LoginReply::Started(cookies) = login_finished(Ok(Some("id".to_owned()))) else {
        panic!("a session starts");
    };
    assert_eq!((cookies[0].name.as_str(), cookies[0].lifetime), ("__Host-pb_login", None));
    assert_eq!((cookies[1].name.as_str(), cookies[1].value.as_str()), ("pb_admin", "id"));
    assert_eq!(cookies[1].lifetime, Some(SESSION_LIFETIME));
    let wrong = login_finished(Ok(None));
    assert!(matches!(wrong, LoginReply::Show(401, "Incorrect password. Try again.")));
    let failed = login_finished(Err(AppError::authentication()));
    assert!(matches!(failed, LoginReply::Failed(error) if status(error) == 500));
}

#[test]
fn logouts_revoke_only_with_the_own_token() {
    let mut sessions = Sessions::new();
    let id = sessions.create_at(10).unwrap();
    let token = sessions.csrf_at(&id, 10).unwrap();
    let cookie = sign("pb_admin", &id);
    let sent = logout_head(&head(&[&cookie]), &key()).unwrap();
    assert_eq!(sent.as_deref(), Some(id.as_str()));
    let csrf = |text: &str| field("csrf_token", text.as_bytes());
    for (fields, expected) in [
        (vec![csrf("stale")], 403),
        (vec![], 403),
        (vec![csrf(&token), field("password", b"x")], 400),
    ] {
        let refused = logout(Ok(form(fields)), Some(id.clone()), &mut sessions, 11);
        assert_eq!(status(refused.err().unwrap()), expected);
    }
    assert!(logout(Ok(form(vec![csrf(&token)])), None, &mut sessions, 11).is_err());
    assert!(sessions.csrf_at(&id, 11).is_some());
    let removal = logout(Ok(form(vec![csrf(&token)])), Some(id.clone()), &mut sessions, 11);
    let removal = removal.ok().unwrap();
    assert!(removal.name == "pb_admin" && removal.lifetime.is_none() && removal.signed);
    assert!(sessions.csrf_at(&id, 11).is_none());
}

#[test]
fn admin_responses_allow_the_own_script_on_marked_pages_alone() {
    let policy = |status, scripted| {
        let headers = finish_headers(status, scripted, true);
        headers.iter().find(|(name, _)| *name == "content-security-policy").unwrap().1
    };
    assert!(policy(200, true).ends_with("; script-src 'self'"));
    assert!(!policy(200, false).contains("script-src") && !policy(400, true).contains("script-src"));
    let fresh = finish_headers(200, false, false);
    assert!(fresh.contains(&("cache-control", "private, no-store")));
    assert!(fresh.contains(&("referrer-policy", "same-origin")));
    assert!(!finish_headers(200, false, true).iter().any(|(name, _)| *name == "cache-control"));
    assert!(is_font("AtkinsonHyperlegibleMono-Medium.woff2") && !is_font("../app.css"));
}
