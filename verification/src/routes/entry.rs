//! Who may look at or change one site: the steps before its row is read.
use crate::auth::sessions::{SessionView, Sessions};
use crate::error::AppError;
use crate::routes::admin::{enter, gate, request_session, session, sessions_seen, Head};
use crate::routes::cookies::CookieKey;
use crate::routes::{header_views, origin_allowed};
use crate::sites::validate::{valid_slug, Slug};
use vstd::prelude::*;

verus! {

/// How far a request for one site comes before the site is looked up.
pub enum Entry {
    /// The browser is sent to the sign-in page.
    Login,
    /// No site can have the requested slug.
    NotFound,
    /// The site of the slug is looked up.
    Site(SiteEntry),
}

/// A request for one site in a live session.
pub struct SiteEntry {
    pub slug: Slug,
    pub session_id: String,
    pub csrf_token: String,
}

/// What a request in a live session comes to: only a valid slug is looked up,
/// and together with the session and its form token.
pub open spec fn entered(entry: Entry, raw_slug: Seq<char>, id: Seq<char>, token: Seq<char>) -> bool {
    if valid_slug(raw_slug) {
        entry matches Entry::Site(found) && found.slug@ == raw_slug && found.session_id@ == id
            && found.csrf_token@ == token
    } else {
        entry == Entry::NotFound
    }
}

fn find(raw_slug: &str, session_id: String, csrf_token: String) -> (r: Entry)
    ensures
        entered(r, raw_slug@, session_id@, csrf_token@),
{
    match Slug::parse(raw_slug) {
        Ok(slug) => Entry::Site(SiteEntry { slug, session_id, csrf_token }),
        Err(_) => Entry::NotFound,
    }
}

/// How the page of a site is entered: without a session at the sign-in page.
pub open spec fn page_entered(
    session: Result<Option<(Seq<char>, Seq<char>)>, AppError>,
    raw_slug: Seq<char>,
    r: Result<Entry, AppError>,
) -> bool {
    match session {
        Err(error) => r == Err::<Entry, AppError>(error),
        Ok(None) => r == Ok::<Entry, AppError>(Entry::Login),
        Ok(Some((id, token))) => r matches Ok(entry) && entered(entry, raw_slug, id, token),
    }
}

/// How a change of a site is entered: without a session not at all.
pub open spec fn change_entered(
    session: Result<(Seq<char>, Seq<char>), AppError>,
    raw_slug: Seq<char>,
    r: Result<Entry, AppError>,
) -> bool {
    match session {
        Err(error) => r == Err::<Entry, AppError>(error),
        Ok((id, token)) => r matches Ok(entry) && entered(entry, raw_slug, id, token),
    }
}

/// Admits a request that shows a site: without a live session the browser is
/// sent to the sign-in page, whatever slug it asks for.
pub fn show_site(
    cookies: &Vec<Vec<u8>>,
    key: &CookieKey,
    raw_slug: &str,
    sessions: &mut Sessions,
    now: u64,
) -> (r: Result<Entry, AppError>)
    ensures
        page_entered(
            request_session(header_views(cookies@), key@, old(sessions)@, now),
            raw_slug@,
            r,
        ),
        final(sessions)@ == sessions_seen(header_views(cookies@), key@, old(sessions)@, now),
{
    match session(cookies, key, sessions, now) {
        Err(error) => Err(error),
        Ok(None) => Ok(Entry::Login),
        Ok(Some((session_id, csrf_token))) => Ok(find(raw_slug, session_id, csrf_token)),
    }
}

/// Admits a request that changes a site: it comes from the own origin and in a
/// live session, and is refused before its slug is considered otherwise.
pub fn change_site(
    head: &Head,
    key: &CookieKey,
    raw_slug: &str,
    sessions: &mut Sessions,
    now: u64,
) -> (r: Result<Entry, AppError>)
    ensures
        change_entered(gate(*head, key@, old(sessions)@, now), raw_slug@, r),
        final(sessions)@ == if origin_allowed(
            header_views(head.origins@),
            header_views(head.hosts@),
        ) {
            sessions_seen(header_views(head.cookies@), key@, old(sessions)@, now)
        } else {
            old(sessions)@
        },
{
    match enter(head, key, sessions, now) {
        Err(error) => Err(error),
        Ok((session_id, csrf_token)) => Ok(find(raw_slug, session_id, csrf_token)),
    }
}

/// Whoever may change a site may look at it in the same session: a change is
/// admitted only where the same request could have shown the site.
pub proof fn changes_are_admitted_less_often(
    head: Head,
    key: Seq<u8>,
    store: Map<Seq<char>, SessionView>,
    now: u64,
    id: Seq<char>,
    token: Seq<char>,
)
    requires
        gate(head, key, store, now) == Ok::<(Seq<char>, Seq<char>), AppError>((id, token)),
    ensures
        request_session(header_views(head.cookies@), key, store, now) == Ok::<
            Option<(Seq<char>, Seq<char>)>,
            AppError,
        >(Some((id, token))),
{
}

}
