//! Metadata-gated static serving isolated from administrator cookies.
use crate::auth::tokens::text_view;
use crate::auth::viewer_tokens::{grant_accepted, verify_viewer_grant_at};
use crate::error::{publishing_failure, AppError};
use crate::routes::admin::{cookie_is, guarded_cookie, result_text, CookieWrite};
use crate::routes::cookies::{cookies_allowed, name_views, signed, signed_value, CookieKey};
use crate::routes::reply::is_server_error;
use crate::routes::{header_views, invalid_form};
use crate::sites::new_site::optional_text;
use crate::sites::validate::{valid_path, SitePath, Slug};
use crate::sites::{representable, AccessSite, Site};
use crate::text::{
    ascii_lower, chars_of, ends_with, find, first_index, has_prefix, has_suffix, lower_char,
    push_text, same, split, split_on, starts_with, string_of, };
use vstd::prelude::*;

verus! {

/// The storage directories above a site directory that are checked with it.
pub const SITE_PARENT_COUNT: usize = 2;

/// Whether a row may be served at a second: its access mode is known, and it
/// has not expired.
pub open spec fn site_available(visibility: Seq<char>, expires_at: Option<i64>, now: int) -> bool {
    (visibility == "open"@ || visibility == "password"@) && match expires_at {
        None => true,
        Some(expiry) => expiry > now,
    }
}

/// Checks access and expiry before any site response reads content.
pub fn available(site: &Site, now: i64) -> (r: bool)
    ensures
        r == site_available(site.visibility@, site.expires_at, now as int),
{
    (same(site.visibility.as_str(), "open") || same(site.visibility.as_str(), "password"))
        && match site.expires_at {
        None => true,
        Some(expiry) => expiry > now,
    }
}

/// The site-specific grant cookie name, never an administrator credential.
pub open spec fn grant_cookie(slug: Seq<char>) -> Seq<char> {
    "pb_unlock_"@ + slug
}

/// The site-specific Secure-prefixed anti-CSRF challenge cookie name.
pub open spec fn challenge_cookie(slug: Seq<char>) -> Seq<char> {
    "__Secure-pb_unlock_form_"@ + slug
}

/// Returns the site-specific grant name, never an administrator credential.
pub fn grant_name(slug: &Slug) -> (r: String)
    ensures
        r@ == grant_cookie(slug@),
{
    let mut name = String::new();
    push_text(&mut name, "pb_unlock_");
    push_text(&mut name, slug.as_str());
    assert(name@ =~= grant_cookie(slug@));
    name
}

/// Returns the site-specific Secure-prefixed anti-CSRF challenge name.
pub fn challenge_name(slug: &Slug) -> (r: String)
    ensures
        r@ == challenge_cookie(slug@),
{
    let mut name = String::new();
    push_text(&mut name, "__Secure-pb_unlock_form_");
    push_text(&mut name, slug.as_str());
    assert(name@ =~= challenge_cookie(slug@));
    name
}

/// The viewer cookies of a site that must be unambiguous.
pub open spec fn viewer_names(slug: Seq<char>) -> Seq<Seq<char>> {
    seq![grant_cookie(slug), challenge_cookie(slug)]
}

/// The signature-verified value of a viewer cookie.
pub open spec fn viewer_value(
    cookies: Seq<Seq<u8>>,
    key: Seq<u8>,
    slug: Seq<char>,
    name: Seq<char>,
) -> Result<Option<Seq<char>>, AppError> {
    if cookies_allowed(cookies, viewer_names(slug)) {
        Ok(signed_value(cookies, key, name))
    } else {
        Err(invalid_form())
    }
}

/// Extracts a signature-verified viewer cookie without accepting aliases.
pub fn read(cookies: &Vec<Vec<u8>>, key: &CookieKey, slug: &Slug, name: &str) -> (r: Result<
    Option<String>,
    AppError,
>)
    ensures
        result_text(r) == viewer_value(header_views(cookies@), key@, slug@, name@),
{
    let grant: String = grant_name(slug);
    let challenge: String = challenge_name(slug);
    let names: [&str; 2] = [grant.as_str(), challenge.as_str()];
    assert(name_views(names@) =~= viewer_names(slug@));
    signed(cookies, key, names.as_slice(), name)
}

/// The path of a site.
pub open spec fn site_root(slug: Seq<char>) -> Seq<char> {
    "/s/"@ + slug + "/"@
}

/// Builds the path of a site.
pub fn site_link(slug: &Slug) -> (r: String)
    ensures
        r@ == site_root(slug@),
{
    let mut path = String::new();
    push_text(&mut path, "/s/");
    push_text(&mut path, slug.as_str());
    push_text(&mut path, "/");
    assert(path@ =~= site_root(slug@));
    path
}

/// Builds one host-only viewer cookie at its fixed site path.
pub fn cookie(name: String, value: String, slug: &Slug, lifetime: Option<u64>) -> (r: CookieWrite)
    ensures
        cookie_is(r, name@, value@, site_root(slug@), lifetime, true),
{
    guarded_cookie(name, value, site_link(slug), lifetime, true)
}

/// What an access check of a site request comes to.
#[derive(Clone, Copy, Debug, PartialEq, Eq, Structural)]
pub enum Access {
    /// There is no such site.
    NotFound,
    /// The viewer must unlock the site first.
    Locked,
    /// The site is served; whether it is protected decides on caching.
    Granted(bool),
}

/// The access of a request to a site row that was read, with the grant cookie
/// that was sent, at a second.
pub open spec fn access_of(
    row: Option<AccessSite>,
    slug: Seq<char>,
    grant: Option<Seq<char>>,
    now: u64,
) -> Access {
    match row {
        None => Access::NotFound,
        Some(row) => if !site_available(row.site.visibility@, row.site.expires_at, now as int) {
            Access::NotFound
        } else {
            match row.password {
                None => Access::Granted(false),
                Some(password) => if grant_accepted(grant, slug, password.salt(), now as int) {
                    Access::Granted(true)
                } else {
                    Access::Locked
                },
            }
        },
    }
}

/// What a request to a site comes to before any content is read. An unreadable
/// clock and an ambiguous cookie header fail closed.
pub open spec fn serve_access(
    row: Option<AccessSite>,
    slug: Seq<char>,
    cookies: Seq<Seq<u8>>,
    key: Seq<u8>,
    now: Option<u64>,
) -> Result<Access, AppError> {
    match row {
        None => Ok(Access::NotFound),
        Some(found) => match now {
            Some(second) if second <= i64::MAX => if !site_available(
                found.site.visibility@,
                found.site.expires_at,
                second as int,
            ) {
                Ok(Access::NotFound)
            } else if found.password is None {
                Ok(Access::Granted(false))
            } else {
                match viewer_value(cookies, key, slug, grant_cookie(slug)) {
                    Err(error) => Err(error),
                    Ok(grant) => Ok(access_of(row, slug, grant, second)),
                }
            },
            _ => Err(publishing_failure()),
        },
    }
}

/// Decides on the access of a request with the grant cookie that was sent.
pub fn decide_access(row: &Option<AccessSite>, slug: &Slug, grant: Option<&str>, now: u64) -> (r:
    Access)
    requires
        now <= i64::MAX,
    ensures
        r == access_of(*row, slug@, text_view(grant), now),
{
    match row {
        None => Access::NotFound,
        Some(row) => {
            if !available(&row.site, now as i64) {
                return Access::NotFound;
            }
            match &row.password {
                None => Access::Granted(false),
                Some(password) => {
                    if verify_viewer_grant_at(grant, slug, password, now) {
                        Access::Granted(true)
                    } else {
                        Access::Locked
                    }
                },
            }
        },
    }
}

/// A second that the database can represent.
pub fn checked_now(now: Option<u64>) -> (r: Result<u64, AppError>)
    ensures
        match now {
            Some(second) if second <= i64::MAX => r == Ok::<u64, AppError>(second),
            _ => r == Err::<u64, AppError>(publishing_failure()),
        },
{
    match now {
        None => Err(AppError::publishing()),
        Some(second) => match representable(second) {
            Ok(_) => Ok(second),
            Err(error) => Err(error),
        },
    }
}

/// Serves only committed, eligible site metadata: checks row, expiry and grant
/// of a request before any content is read.
pub fn serve(
    row: &Option<AccessSite>,
    slug: &Slug,
    cookies: &Vec<Vec<u8>>,
    key: &CookieKey,
    now: Option<u64>,
) -> (r: Result<Access, AppError>)
    ensures
        r == serve_access(*row, slug@, header_views(cookies@), key@, now),
{
    let found: &AccessSite = match row {
        None => {
            return Ok(Access::NotFound);
        },
        Some(found) => found,
    };
    let second: u64 = match checked_now(now) {
        Err(error) => {
            return Err(error);
        },
        Ok(second) => second,
    };
    if !available(&found.site, second as i64) {
        return Ok(Access::NotFound);
    }
    if found.password.is_none() {
        return Ok(Access::Granted(false));
    }
    let name: String = grant_name(slug);
    match read(cookies, key, slug, name.as_str()) {
        Err(error) => Err(error),
        Ok(None) => Ok(decide_access(row, slug, None, second)),
        Ok(Some(grant)) => Ok(decide_access(row, slug, Some(grant.as_str()), second)),
    }
}

/// A protected site is served only to a grant of its current password
/// generation that has not expired, and an expired site to nobody.
pub proof fn content_needs_access(
    row: AccessSite,
    slug: Seq<char>,
    cookies: Seq<Seq<u8>>,
    key: Seq<u8>,
    now: Option<u64>,
)
    ensures
        serve_access(Some(row), slug, cookies, key, now) matches Ok(Access::Granted(protected))
            ==> {
            &&& now matches Some(second)
            &&& site_available(row.site.visibility@, row.site.expires_at, second as int)
            &&& protected <==> row.password is Some
            &&& row.password matches Some(password) ==> grant_accepted(
                signed_value(cookies, key, grant_cookie(slug)),
                slug,
                password.salt(),
                second as int,
            )
        },
{
}

/// The caching of a served response.
pub open spec fn caching(protected: bool, status: u16) -> Option<&'static str> {
    if !protected && !crate::routes::reply::server_error(status) {
        Some("public, max-age=60")
    } else {
        None
    }
}

/// The caching of a served response: only what is open to everyone is cached.
pub fn cache_control(protected: bool, status: u16) -> (r: Option<&'static str>)
    ensures
        r == caching(protected, status),
{
    if !protected && !is_server_error(status) {
        Some("public, max-age=60")
    } else {
        None
    }
}

/// The headers that every response in the viewer namespace gets, or loses: the
/// content policy of the application is for its own pages, never for uploaded
/// ones.
pub open spec fn viewer_headers(trusted: bool, cached: bool) -> Seq<
    (&'static str, Option<&'static str>),
> {
    let fixed = seq![
        ("x-content-type-options", Some("nosniff")),
        ("referrer-policy", Some("strict-origin-when-cross-origin")),
        ("x-robots-tag", Some("noindex")),
        (
            "content-security-policy",
            if trusted {
                Some(
                    "default-src 'none'; style-src 'self'; font-src 'self'; form-action 'self'; frame-ancestors 'none'; base-uri 'none'",
                )
            } else {
                None
            },
        ),
    ];
    if cached {
        fixed
    } else {
        fixed.push(("cache-control", Some("private, no-store")))
    }
}

/// Gives the headers that every response in the viewer namespace gets or loses.
pub fn finish_headers(trusted: bool, cached: bool) -> (r: Vec<
    (&'static str, Option<&'static str>),
>)
    ensures
        r@ == viewer_headers(trusted, cached),
{
    let policy: Option<&'static str> = if trusted {
        Some(
            "default-src 'none'; style-src 'self'; font-src 'self'; form-action 'self'; frame-ancestors 'none'; base-uri 'none'",
        )
    } else {
        None
    };
    let mut headers: Vec<(&'static str, Option<&'static str>)> = Vec::new();
    headers.push(("x-content-type-options", Some("nosniff")));
    headers.push(("referrer-policy", Some("strict-origin-when-cross-origin")));
    headers.push(("x-robots-tag", Some("noindex")));
    headers.push(("content-security-policy", policy));
    if !cached {
        headers.push(("cache-control", Some("private, no-store")));
    }
    assert(headers@ =~= viewer_headers(trusted, cached));
    headers
}

/// What a path is, without following its last component.
#[derive(Clone, Copy, Debug, PartialEq, Eq, Structural)]
pub enum Seen {
    Directory,
    File,
    /// It is missing, hidden, a link, or of another kind.
    Unavailable,
    /// It could not be looked at.
    Failed,
}

/// A look at a site path, one component after the other: two storage
/// directories, the site directory, and the components below it.
#[derive(Clone, Copy, Debug, PartialEq, Eq, Structural)]
pub struct Walk {
    /// The storage directory that is looked at next, or the site directory
    /// behind these, or what is below it.
    pub at: usize,
    /// The component below the site directory that is looked at next.
    pub below: usize,
    /// The number of components below the site directory.
    pub components: usize,
    /// What the path is, once that is known.
    pub outcome: Option<Seen>,
}

/// The position is one that the path has.
pub open spec fn walk_ok(walk: Walk) -> bool {
    (walk.at <= SITE_PARENT_COUNT && walk.below == 0) || (walk.at == SITE_PARENT_COUNT + 1
        && walk.below < walk.components)
}

/// The position is that of the path itself.
pub open spec fn walk_last(walk: Walk) -> bool {
    if walk.at <= SITE_PARENT_COUNT {
        walk.at == SITE_PARENT_COUNT && walk.components == 0
    } else {
        walk.below + 1 == walk.components
    }
}

/// The next position.
pub open spec fn walk_on(walk: Walk) -> Walk {
    if walk.at <= SITE_PARENT_COUNT {
        Walk { at: (walk.at + 1) as usize, ..walk }
    } else {
        Walk { below: (walk.below + 1) as usize, ..walk }
    }
}

/// What a look at one position leads to: everything but the last component must
/// be a directory.
pub open spec fn walk_next(walk: Walk, seen: Seen) -> Walk {
    if walk.outcome is Some {
        walk
    } else if walk_last(walk) && walk.at > SITE_PARENT_COUNT {
        Walk { outcome: Some(seen), ..walk }
    } else {
        match seen {
            Seen::Failed => Walk { outcome: Some(Seen::Failed), ..walk },
            Seen::Directory => if walk_last(walk) {
                Walk { outcome: Some(Seen::Directory), ..walk }
            } else {
                walk_on(walk)
            },
            _ => Walk { outcome: Some(Seen::Unavailable), ..walk },
        }
    }
}

/// The start of a look at a path of so many components.
pub open spec fn walk_start(components: nat) -> Walk {
    Walk { at: 0, below: 0, components: components as usize, outcome: None }
}

/// The number of components of a path, where there is one.
pub open spec fn path_components(relative: Option<Seq<char>>) -> nat {
    match relative {
        None => 0,
        Some(path) => split(path, '/').len(),
    }
}

impl Walk {
    /// Starts a look at a path below a site directory, or at the directory
    /// itself.
    pub fn new(relative: Option<&str>) -> (r: Self)
        ensures
            r == walk_start(path_components(text_view(relative))),
            r.components == path_components(text_view(relative)),
            walk_ok(r),
    {
        match relative {
            None => Walk { at: 0, below: 0, components: 0, outcome: None },
            Some(path) => {
                let chars: Vec<char> = chars_of(path);
                let parts: Vec<Vec<char>> = split_on(chars.as_slice(), '/');
                Walk { at: 0, below: 0, components: parts.len(), outcome: None }
            },
        }
    }

    fn end(self, seen: Seen) -> (r: Self)
        ensures
            r == (Walk { outcome: Some(seen), ..self }),
    {
        Walk { outcome: Some(seen), ..self }
    }

    /// Decides by what was seen at the position.
    pub fn next(self, seen: Seen) -> (r: Self)
        requires
            walk_ok(self),
        ensures
            r == walk_next(self, seen),
            walk_ok(r),
    {
        let last: bool = if self.at <= SITE_PARENT_COUNT {
            self.at == SITE_PARENT_COUNT && self.components == 0
        } else {
            self.below + 1 == self.components
        };
        if self.outcome.is_some() {
            self
        } else if last && self.at > SITE_PARENT_COUNT {
            self.end(seen)
        } else {
            match seen {
                Seen::Failed => self.end(Seen::Failed),
                Seen::Directory => {
                    if last {
                        self.end(Seen::Directory)
                    } else if self.at <= SITE_PARENT_COUNT {
                        Walk { at: self.at + 1, ..self }
                    } else {
                        Walk { below: self.below + 1, ..self }
                    }
                },
                _ => self.end(Seen::Unavailable),
            }
        }
    }
}

/// A look at a path after a row of observations.
pub open spec fn walk_run(components: usize, seen: Seq<Seen>) -> Walk
    decreases seen.len(),
{
    if seen.len() == 0 {
        walk_start(components as nat)
    } else {
        walk_next(walk_run(components, seen.drop_last()), seen.last())
    }
}

/// A path counts as found only through real directories: both storage
/// directories, the site directory and every component but the last were seen
/// to be directories, none of them a link.
pub proof fn found_only_through_directories(components: usize, seen: Seq<Seen>, i: int)
    requires
        0 <= i < SITE_PARENT_COUNT + components,
        walk_run(components, seen).outcome == Some(Seen::File) || walk_run(
            components,
            seen,
        ).outcome == Some(Seen::Directory),
    ensures
        i < seen.len(),
        seen[i] == Seen::Directory,
{
    walk_holds(components, seen);
}

proof fn walk_holds(components: usize, seen: Seq<Seen>)
    ensures
        ({
            let walk = walk_run(components, seen);
            let passed = walk.at + walk.below;
            &&& walk_ok(walk)
            &&& walk.components == components
            &&& passed <= seen.len()
            &&& forall|i: int| 0 <= i < passed ==> #[trigger] seen[i] == Seen::Directory
            &&& walk.outcome is None ==> passed == seen.len()
            &&& walk.outcome == Some(Seen::File) || walk.outcome == Some(Seen::Directory)
                ==> passed == SITE_PARENT_COUNT + components
        }),
    decreases seen.len(),
{
    if seen.len() > 0 {
        let before = seen.drop_last();
        walk_holds(components, before);
        let earlier = walk_run(components, before);
        let walk = walk_run(components, seen);
        assert forall|i: int| 0 <= i < walk.at + walk.below implies #[trigger] seen[i]
            == Seen::Directory by {
            if i < earlier.at + earlier.below {
                assert(before[i] == seen[i]);
            }
        }
    }
}

/// What a request asks of a site.
pub struct Target {
    /// What stands behind the site path, decoded once, where anything does.
    pub captured: Option<String>,
    /// The whole path as it was sent.
    pub path: String,
    /// The query as it was sent.
    pub query: Option<String>,
    /// The entry of the site.
    pub entry: String,
}

/// What stands behind the site path, as it was sent.
pub open spec fn raw_part(path: Seq<char>) -> Seq<char> {
    if has_prefix(path, "/s/"@) {
        let rest = path.skip("/s/"@.len() as int);
        let slash = first_index(rest, '/');
        if slash < rest.len() {
            rest.skip(slash + 1)
        } else {
            Seq::empty()
        }
    } else {
        Seq::empty()
    }
}

fn raw_chars(path: &str) -> (r: Vec<char>)
    ensures
        r@ == raw_part(path@),
{
    let chars: Vec<char> = chars_of(path);
    let prefix: Vec<char> = chars_of("/s/");
    if !starts_with(chars.as_slice(), prefix.as_slice()) {
        return Vec::new();
    }
    let rest: &[char] = vstd::slice::slice_subrange(chars.as_slice(), prefix.len(), chars.len());
    assert(rest@ =~= path@.skip("/s/"@.len() as int));
    let slash: usize = find(rest, '/');
    if slash >= rest.len() {
        return Vec::new();
    }
    let raw: &[char] = vstd::slice::slice_subrange(rest, slash + 1, rest.len());
    assert(raw@ =~= rest@.skip(slash + 1));
    let text: String = string_of(raw);
    chars_of(text.as_str())
}

/// A percent-encoded slash or backslash at a position.
pub open spec fn encoded_separator(raw: Seq<char>, i: int) -> bool {
    &&& 0 <= i
    &&& i + 2 < raw.len()
    &&& raw[i] == '%'
    &&& (raw[i + 1] == '2' && ascii_lower(raw[i + 2]) == 'f') || (raw[i + 1] == '5' && ascii_lower(
        raw[i + 2],
    ) == 'c')
}

/// A percent-encoded slash or backslash anywhere.
pub open spec fn hides_separator(raw: Seq<char>) -> bool {
    exists|i: int| encoded_separator(raw, i)
}

fn finds_separator(raw: &[char]) -> (r: bool)
    ensures
        r == hides_separator(raw@),
{
    let mut i: usize = 0;
    while i < raw.len()
        invariant
            i <= raw@.len(),
            forall|j: int| 0 <= j < i ==> !encoded_separator(raw@, j),
        decreases raw@.len() - i,
    {
        if raw.len() - i > 2 && raw[i] == '%' && ((raw[i + 1] == '2' && lower_char(raw[i + 2])
            == 'f') || (raw[i + 1] == '5' && lower_char(raw[i + 2]) == 'c')) {
            assert(encoded_separator(raw@, i as int));
            return true;
        }
        assert(!encoded_separator(raw@, i as int));
        i = i + 1;
    }
    false
}

/// The relative path that a decoded capture stands for.
pub open spec fn relative_path(captured: Seq<char>) -> Seq<char> {
    if has_suffix(captured, "/"@) {
        captured.take(captured.len() - 1)
    } else {
        captured
    }
}

/// Builds the relative path that a decoded capture stands for.
pub fn relative_of(captured: &str) -> (r: String)
    ensures
        r@ == relative_path(captured@),
{
    proof {
        reveal_strlit("/");
    }
    let chars: Vec<char> = chars_of(captured);
    let slash: Vec<char> = chars_of("/");
    if ends_with(chars.as_slice(), slash.as_slice()) {
        let front: &[char] = vstd::slice::slice_subrange(chars.as_slice(), 0, chars.len() - 1);
        assert(front@ =~= captured@.take(captured@.len() - 1));
        string_of(front)
    } else {
        captured.to_owned()
    }
}

/// The index of a directory.
pub open spec fn index_path(relative: Seq<char>) -> Seq<char> {
    relative + "/index.html"@
}

/// Builds the path of the index of a directory.
pub fn index_of(relative: &str) -> (r: String)
    ensures
        r@ == index_path(relative@),
{
    let mut path = String::new();
    push_text(&mut path, relative);
    push_text(&mut path, "/index.html");
    assert(path@ =~= index_path(relative@));
    path
}

/// What is to be done next for a request whose access was granted.
#[derive(Clone, Copy, Debug, PartialEq, Eq, Structural)]
pub enum ServePhase {
    /// Look at the site directory.
    StatRoot,
    /// Look at the entry of the site.
    StatEntry,
    /// Send the entry of the site.
    SendEntry,
    /// Look at the path.
    StatPath,
    /// Look at the index of the path.
    StatIndex,
    /// Send what the path names.
    SendPath,
    /// Look at the site's own error page.
    StatMissing,
    /// Send the site's own error page, whole, as not found.
    SendMissing,
    /// Nothing more is to be done.
    Finished,
}

/// How a step of serving came out.
#[derive(Clone, Copy, Debug, PartialEq, Eq, Structural)]
pub enum ServeEvent {
    /// A look at a path.
    Looked(Seen),
    /// The file was sent.
    Sent,
    /// The file was not there to be sent.
    Absent,
    /// Sending failed.
    Failed,
}

/// How a request is answered.
#[derive(Clone, Copy, Debug, PartialEq, Eq, Structural)]
pub enum ServeReply {
    /// There is nothing there.
    NotFound,
    /// The browser asks again with a slash at the end.
    AddSlash,
    /// The file is the answer.
    File,
    /// The site's own error page is the answer, as not found.
    ErrorPage,
    /// The request fails.
    Failed,
}

/// One request for content on its way.
#[derive(Clone, Copy, Debug, PartialEq, Eq, Structural)]
pub struct Serving {
    pub phase: ServePhase,
    pub reply: Option<ServeReply>,
}

pub open spec fn goes(phase: ServePhase) -> Serving {
    Serving { phase, reply: None }
}

pub open spec fn ends(reply: ServeReply) -> Serving {
    Serving { phase: ServePhase::Finished, reply: Some(reply) }
}

/// Where serving starts: nothing is looked up for an unsafe path.
pub open spec fn serving_start(target: Target) -> Serving {
    match target.captured {
        None => goes(ServePhase::StatRoot),
        Some(captured) => if hides_separator(raw_part(target.path@)) || !valid_path(
            relative_path(captured@),
        ) {
            ends(ServeReply::NotFound)
        } else {
            goes(ServePhase::StatPath)
        },
    }
}

/// What follows from how a step came out.
pub open spec fn serving_next(serving: Serving, target: Target, event: ServeEvent) -> Serving {
    match (serving.phase, event) {
        (ServePhase::Finished, _) => serving,
        (_, ServeEvent::Looked(Seen::Failed)) => ends(ServeReply::Failed),
        (_, ServeEvent::Failed) => ends(ServeReply::Failed),
        (ServePhase::StatRoot, ServeEvent::Looked(Seen::Unavailable)) => ends(
            ServeReply::NotFound,
        ),
        (ServePhase::StatRoot, ServeEvent::Looked(_)) => if !has_suffix(target.path@, "/"@) {
            ends(ServeReply::AddSlash)
        } else if !valid_path(target.entry@) {
            ends(ServeReply::NotFound)
        } else {
            goes(ServePhase::StatEntry)
        },
        (ServePhase::StatEntry, ServeEvent::Looked(Seen::File)) => goes(ServePhase::SendEntry),
        (ServePhase::StatEntry, ServeEvent::Looked(_)) => goes(ServePhase::StatMissing),
        (ServePhase::StatPath, ServeEvent::Looked(Seen::Unavailable)) => goes(
            ServePhase::StatMissing,
        ),
        (ServePhase::StatPath, ServeEvent::Looked(Seen::File)) => goes(ServePhase::SendPath),
        (ServePhase::StatPath, ServeEvent::Looked(_)) => if !has_suffix(target.path@, "/"@) {
            ends(ServeReply::AddSlash)
        } else if !valid_path(
            index_path(
                relative_path(
                    match target.captured {
                        Some(captured) => captured@,
                        None => Seq::empty(),
                    },
                ),
            ),
        ) {
            ends(ServeReply::NotFound)
        } else {
            goes(ServePhase::StatIndex)
        },
        (ServePhase::StatIndex, ServeEvent::Looked(Seen::File)) => goes(ServePhase::SendPath),
        (ServePhase::StatIndex, ServeEvent::Looked(_)) => goes(ServePhase::StatMissing),
        (ServePhase::StatMissing, ServeEvent::Looked(Seen::File)) => goes(ServePhase::SendMissing),
        (ServePhase::StatMissing, ServeEvent::Looked(_)) => ends(ServeReply::NotFound),
        (ServePhase::SendEntry, ServeEvent::Sent) => ends(ServeReply::File),
        (ServePhase::SendEntry, ServeEvent::Absent) => goes(ServePhase::StatMissing),
        (ServePhase::SendPath, ServeEvent::Sent) => ends(ServeReply::File),
        (ServePhase::SendPath, ServeEvent::Absent) => goes(ServePhase::StatMissing),
        (ServePhase::SendMissing, ServeEvent::Sent) => ends(ServeReply::ErrorPage),
        (ServePhase::SendMissing, ServeEvent::Absent) => ends(ServeReply::NotFound),
        _ => ends(ServeReply::Failed),
    }
}

fn slash_ended(path: &str) -> (r: bool)
    ensures
        r == has_suffix(path@, "/"@),
{
    let chars: Vec<char> = chars_of(path);
    let slash: Vec<char> = chars_of("/");
    ends_with(chars.as_slice(), slash.as_slice())
}

impl Serving {
    fn go(phase: ServePhase) -> (r: Self)
        ensures
            r == goes(phase),
    {
        Serving { phase, reply: None }
    }

    fn end(reply: ServeReply) -> (r: Self)
        ensures
            r == ends(reply),
    {
        Serving { phase: ServePhase::Finished, reply: Some(reply) }
    }

    /// Validates a site-relative path before anything is looked up.
    pub fn new(target: &Target) -> (r: Self)
        ensures
            r == serving_start(*target),
    {
        match &target.captured {
            None => Self::go(ServePhase::StatRoot),
            Some(captured) => {
                let raw: Vec<char> = raw_chars(target.path.as_str());
                let relative: String = relative_of(captured.as_str());
                if finds_separator(raw.as_slice()) || SitePath::parse(
                    relative.as_str(),
                ).is_none() {
                    Self::end(ServeReply::NotFound)
                } else {
                    Self::go(ServePhase::StatPath)
                }
            },
        }
    }

    /// Decides on the next step by how the last one came out.
    pub fn next(self, target: &Target, event: ServeEvent) -> (r: Self)
        ensures
            r == serving_next(self, *target, event),
    {
        match (self.phase, event) {
            (ServePhase::Finished, _) => self,
            (_, ServeEvent::Looked(Seen::Failed)) => Self::end(ServeReply::Failed),
            (_, ServeEvent::Failed) => Self::end(ServeReply::Failed),
            (ServePhase::StatRoot, ServeEvent::Looked(Seen::Unavailable)) => Self::end(
                ServeReply::NotFound,
            ),
            (ServePhase::StatRoot, ServeEvent::Looked(_)) => {
                if !slash_ended(target.path.as_str()) {
                    Self::end(ServeReply::AddSlash)
                } else if SitePath::parse(target.entry.as_str()).is_none() {
                    Self::end(ServeReply::NotFound)
                } else {
                    Self::go(ServePhase::StatEntry)
                }
            },
            (ServePhase::StatEntry, ServeEvent::Looked(Seen::File)) => Self::go(
                ServePhase::SendEntry,
            ),
            (ServePhase::StatEntry, ServeEvent::Looked(_)) => Self::go(ServePhase::StatMissing),
            (ServePhase::StatPath, ServeEvent::Looked(Seen::Unavailable)) => Self::go(
                ServePhase::StatMissing,
            ),
            (ServePhase::StatPath, ServeEvent::Looked(Seen::File)) => Self::go(
                ServePhase::SendPath,
            ),
            (ServePhase::StatPath, ServeEvent::Looked(_)) => {
                if !slash_ended(target.path.as_str()) {
                    return Self::end(ServeReply::AddSlash);
                }
                let relative: String = match &target.captured {
                    Some(captured) => relative_of(captured.as_str()),
                    None => relative_of(""),
                };
                let index: String = index_of(relative.as_str());
                proof {
                    reveal_strlit("");
                    assert(""@ =~= Seq::<char>::empty());
                }
                if SitePath::parse(index.as_str()).is_none() {
                    Self::end(ServeReply::NotFound)
                } else {
                    Self::go(ServePhase::StatIndex)
                }
            },
            (ServePhase::StatIndex, ServeEvent::Looked(Seen::File)) => Self::go(
                ServePhase::SendPath,
            ),
            (ServePhase::StatIndex, ServeEvent::Looked(_)) => Self::go(ServePhase::StatMissing),
            (ServePhase::StatMissing, ServeEvent::Looked(Seen::File)) => Self::go(
                ServePhase::SendMissing,
            ),
            (ServePhase::StatMissing, ServeEvent::Looked(_)) => Self::end(ServeReply::NotFound),
            (ServePhase::SendEntry, ServeEvent::Sent) => Self::end(ServeReply::File),
            (ServePhase::SendEntry, ServeEvent::Absent) => Self::go(ServePhase::StatMissing),
            (ServePhase::SendPath, ServeEvent::Sent) => Self::end(ServeReply::File),
            (ServePhase::SendPath, ServeEvent::Absent) => Self::go(ServePhase::StatMissing),
            (ServePhase::SendMissing, ServeEvent::Sent) => Self::end(ServeReply::ErrorPage),
            (ServePhase::SendMissing, ServeEvent::Absent) => Self::end(ServeReply::NotFound),
            _ => Self::end(ServeReply::Failed),
        }
    }
}

/// Serving after a row of events.
pub open spec fn serving_run(target: Target, events: Seq<ServeEvent>) -> Serving
    decreases events.len(),
{
    if events.len() == 0 {
        serving_start(target)
    } else {
        serving_next(serving_run(target, events.drop_last()), target, events.last())
    }
}

/// A file is sent only right after it was seen to be a regular file, and a
/// path with a hidden separator or an unsafe component is answered without a
/// single look at storage.
pub proof fn only_safe_files_are_sent(target: Target, events: Seq<ServeEvent>)
    ensures
        ({
            let serving = serving_run(target, events);
            &&& serving.phase == ServePhase::SendEntry || serving.phase == ServePhase::SendPath
                || serving.phase == ServePhase::SendMissing ==> events.len() > 0 && events.last()
                == ServeEvent::Looked(Seen::File)
            &&& serving.phase == ServePhase::SendEntry || serving.phase == ServePhase::StatEntry
                ==> valid_path(target.entry@)
            &&& serving.phase == ServePhase::SendPath || serving.phase == ServePhase::StatPath
                || serving.phase == ServePhase::StatIndex ==> target.captured is Some && valid_path(
                relative_path(target.captured->0@),
            ) && !hides_separator(raw_part(target.path@))
            &&& serving.phase == ServePhase::Finished <==> serving.reply is Some
        }),
    decreases events.len(),
{
    if events.len() > 0 {
        only_safe_files_are_sent(target, events.drop_last());
    }
}

/// What follows a path in an address.
pub open spec fn with_query(path: Seq<char>, query: Option<Seq<char>>) -> Seq<char> {
    match query {
        Some(text) => path + "?"@ + text,
        None => path,
    }
}

fn push_query(out: &mut String, query: &Option<String>)
    ensures
        final(out)@ == with_query(old(out)@, optional_text(*query)),
{
    match query {
        Some(text) => {
            push_text(out, "?");
            push_text(out, text.as_str());
        },
        None => {},
    }
}

impl Target {
    /// The address with a slash at the end of its path and the query kept.
    pub fn with_slash(&self) -> (r: String)
        ensures
            r@ == with_query(self.path@ + "/"@, optional_text(self.query)),
    {
        let mut location = String::new();
        push_text(&mut location, self.path.as_str());
        push_text(&mut location, "/");
        assert(location@ =~= self.path@ + "/"@);
        push_query(&mut location, &self.query);
        location
    }

    /// The address below the site, still encoded as it was sent: the file
    /// service decodes it once more.
    pub fn suffix(&self) -> (r: String)
        ensures
            r@ == with_query("/"@ + raw_part(self.path@), optional_text(self.query)),
    {
        let raw: Vec<char> = raw_chars(self.path.as_str());
        let raw: String = string_of(raw.as_slice());
        let mut address = String::new();
        push_text(&mut address, "/");
        push_text(&mut address, raw.as_str());
        assert(address@ =~= "/"@ + raw_part(self.path@));
        push_query(&mut address, &self.query);
        address
    }
}

}
