//! What pages show, and what is kept for them.
use crate::auth::password::Password;
use crate::auth::sessions::{live_at, SessionView};
use crate::error::{AppError, ErrorKind};
use crate::routes::admin::{
    admin_value, login_challenged, referring_target, reusable, sessions_seen, signed_out, signin_page,
    CookieWrite, LoginChallenge,
};
use crate::routes::entry::{change_entered, page_entered, Entry};
use crate::routes::forms::SettingsForm;
use crate::routes::management::{listed, month_name, short_date, ListPage, ListQuery};
use crate::routes::publishing::{creation_hashed, creation_opened, CreateRequest, CreateStep};
use crate::routes::reply::shows;
use crate::routes::settings::{replacement_message, settings_hashed, SettingsStep};
use crate::routes::unlock::{
    kept_challenge, unlock_challenged, unlock_completed, unlock_page, UnlockChallenge, Unlocked,
};
use crate::routes::upload::{FormView, Input};
use crate::routes::view::caching;
use crate::sites::content::{directory_checked, PathKind};
use crate::sites::new_site::{optional_text, InputError, NewSite};
use crate::sites::publish::slug_chosen;
use crate::sites::replace::{recorded_as, Replacement};
use crate::sites::settings::{
    settings_built, settings_resolved, AccessUpdate, SavedSettings, Settings, SettingsBuilder,
};
use crate::sites::sweep::{reconciled, swept, SweepTarget, SWEEP_INTERVAL};
use crate::sites::validate::{expiry_choice, valid_filename, valid_slug, valid_title, Expiry, Slug};
use crate::sites::{AccessSite, SiteDetails};
use crate::text::{decimal, plus_number, split};
use vstd::prelude::*;

verus! {

/// A page shows up to twenty sites in the order in which they were read, leads
/// to the next page where there is one more, and to the previous one behind the
/// first page.
pub proof fn pages_show_twenty_sites(
    records: Seq<SiteDetails>,
    query: ListQuery,
    base: Seq<char>,
    shown: ListPage,
    i: int,
)
    requires
        listed(records, query, base, Ok(shown)),
    ensures
        records.len() <= 20 ==> shown.sites@.len() == records.len() && shown.next_url is None,
        records.len() > 20 ==> shown.sites@.len() == 20 && shown.next_url is Some
            && shown.next_url->0@ == "/?page="@ + decimal((query.page + 1) as nat),
        query.page <= 1 ==> shown.previous_url is None,
        query.page > 1 ==> shown.previous_url is Some && shown.previous_url->0@ == "/?page="@
            + decimal((query.page - 1) as nat),
        shown.notice == query.notice,
        0 <= i < shown.sites@.len() ==> shown.sites@[i].slug@ == records[i].site.slug@
            && shown.sites@[i].title@ == records[i].site.title@ && valid_slug(
            records[i].site.slug@,
        ),
{
    if 0 <= i < shown.sites@.len() {
        assert(crate::routes::management::presented(records[i], base, shown.sites@[i]));
        assert(valid_slug(records[i].site.slug@));
    }
}

/// A page whose rows are sound is shown; a row without a valid slug is a failure
/// of the server.
pub proof fn sound_pages_are_shown(
    records: Seq<SiteDetails>,
    query: ListQuery,
    base: Seq<char>,
    r: Result<ListPage, AppError>,
)
    requires
        listed(records, query, base, r),
        query.page < usize::MAX,
    ensures
        (forall|i: int|
            0 <= i < records.len() && i < 20 ==> valid_slug((#[trigger] records[i]).site.slug@))
            <==> r is Ok,
        r is Err ==> r->Err_0.kind == ErrorKind::Publishing,
{
    if forall|i: int|
        0 <= i < records.len() && i < 20 ==> valid_slug((#[trigger] records[i]).site.slug@) {
        assert(crate::routes::management::rows_valid(records));
    }
    if r is Ok {
        assert(crate::routes::management::rows_valid(records));
        assert forall|i: int| 0 <= i < records.len() && i < 20 implies valid_slug(
            (#[trigger] records[i]).site.slug@,
        ) by {
            assert(i < crate::routes::management::shown_rows(records));
        }
    }
}

/// The months by their short names.
pub open spec fn months() -> Seq<Seq<char>> {
    seq![
        "Jan"@,
        "Feb"@,
        "Mar"@,
        "Apr"@,
        "May"@,
        "Jun"@,
        "Jul"@,
        "Aug"@,
        "Sep"@,
        "Oct"@,
        "Nov"@,
        "Dec"@,
    ]
}

/// A date is shown as its day, the short name of its month and its year, and a
/// text that is not a date as it is.
pub proof fn dates_are_shown_short(
    year: Seq<char>,
    month: Seq<char>,
    day: Seq<char>,
    rest: Seq<char>,
    m: nat,
    d: nat,
)
    requires
        year.len() == 4,
        crate::text::all_digits(year),
        plus_number(month, u64::MAX as nat) == Some(m),
        plus_number(day, 255) == Some(d),
        !month.contains('-') && !month.contains(' ') && !day.contains('-') && !day.contains(' '),
    ensures
        ({
            let label = year + seq!['-'] + (month + seq!['-'] + day) + seq![' '] + rest;
            &&& 1 <= m <= 12 && 1 <= d <= 31 ==> short_date(label) == decimal(d) + seq![' ']
                + months()[m - 1] + seq![' '] + year
            &&& m == 0 || m > 12 || d == 0 || d > 31 ==> short_date(label) == label
        }),
{
    let date = year + seq!['-'] + (month + seq!['-'] + day);
    let label = date + seq![' '] + rest;
    assert forall|c: char| year.contains(c) implies c != '-' && c != ' ' by {
        let i = choose|i: int| 0 <= i < year.len() && year[i] == c;
        assert(crate::text::is_digit(year[i]));
    }
    assert(!date.contains(' ')) by {
        if date.contains(' ') {
            let i = choose|i: int| 0 <= i < date.len() && date[i] == ' ';
            if i < 4 {
                assert(year[i] == ' ');
                assert(year.contains(' '));
            } else if 4 < i && i < 5 + month.len() {
                assert(month[i - 5] == ' ');
            } else if i > 5 + month.len() {
                assert(day[i - 6 - month.len()] == ' ');
            }
        }
    }
    crate::text::split_cons(date, rest, ' ');
    assert(split(label, ' ')[0] == date);
    crate::text::split_cons(year, month + seq!['-'] + day, '-');
    crate::text::split_cons(month, day, '-');
    crate::text::split_single(day, '-');
    assert(split(date, '-') =~= seq![year, month, day]);
    assert(month_name(m) == if 1 <= m <= 12 {
        Some(months()[m - 1])
    } else {
        None
    });
}

/// A sign-out that is verified removes that session and no other, and its
/// cookie; one that is not changes no live session.
pub proof fn sign_outs_remove_their_session(
    id: Seq<char>,
    token: Seq<char>,
    before: Map<Seq<char>, SessionView>,
    after: Map<Seq<char>, SessionView>,
    now: u64,
    r: Result<CookieWrite, AppError>,
    other: Seq<char>,
)
    requires
        signed_out(Ok((id, token)), before, after, now, r),
    ensures
        ({
            let accepted = crate::auth::sessions::form_accepted(before, id, token, now);
            &&& accepted ==> r is Ok && crate::laws::replies::removes(
                r->Ok_0,
                "pb_admin"@,
                "/"@,
            ) && !after.contains_key(id)
            &&& !accepted ==> r == Err::<CookieWrite, AppError>(crate::laws::replies::unproven())
            &&& !accepted || other != id ==> live_at(after, now).contains_key(other) == live_at(
                before,
                now,
            ).contains_key(other)
        }),
{
}

/// Looking at the sessions of a request forgets none that lives; with a verified
/// session cookie it forgets those that do not, and without one it changes none.
pub proof fn looking_forgets_no_session(
    cookies: Seq<Seq<u8>>,
    key: Seq<u8>,
    store: Map<Seq<char>, SessionView>,
    now: u64,
    id: Seq<char>,
)
    ensures
        ({
            let seen = sessions_seen(cookies, key, store, now);
            &&& store.contains_key(id) && store[id].1 > now ==> seen.contains_key(id) && seen[id]
                == store[id]
            &&& seen.contains_key(id) ==> store.contains_key(id) && seen[id] == store[id]
            &&& admin_value(cookies, key, "pb_admin"@) matches Ok(Some(_)) ==> (
            seen.contains_key(id) ==> store[id].1 > now)
            &&& !(admin_value(cookies, key, "pb_admin"@) matches Ok(Some(_))) ==> seen == store
        }),
{
}

/// A sign-in page keeps a challenge that the browser still holds, and issues
/// one with its cookie exactly where it holds none.
pub proof fn held_challenges_are_kept(
    existing: Option<Seq<char>>,
    now: Option<u64>,
    shown: LoginChallenge,
    token: Seq<char>,
)
    requires
        login_challenged(existing, now, Ok(shown)),
    ensures
        reusable(existing, token, now) ==> shown.cookie is None,
        shown.cookie is None ==> reusable(existing, shown.csrf_token@, now),
        shown.cookie is Some ==> {
            &&& shown.cookie->0.name@ == "__Host-pb_login"@
            &&& shown.cookie->0.path@ == "/"@
            &&& shown.cookie->0.lifetime == Some(900u64)
            &&& shown.cookie->0.signed && shown.cookie->0.guarded
        },
{
}

/// An unlock form does the same for the challenge of its site.
pub proof fn held_unlock_challenges_are_kept(
    existing: Option<Seq<char>>,
    slug: Seq<char>,
    now: Option<u64>,
    shown: UnlockChallenge,
    token: Seq<char>,
)
    requires
        unlock_challenged(existing, slug, now, Ok(shown)),
    ensures
        kept_challenge(existing, slug, token, now) ==> shown.cookie is None,
        shown.cookie is None ==> kept_challenge(existing, slug, shown.csrf_token@, now),
        shown.cookie is Some ==> shown.cookie->0.name@ == "__Secure-pb_unlock_form_"@ + slug,
{
}

/// A browser whose grant opens the site needs no form; another is shown one
/// with the challenge that it holds. A grant without a readable clock opens
/// nothing.
pub proof fn granted_browsers_need_no_form(
    grant: Option<Seq<char>>,
    challenge: Option<Seq<char>>,
    slug: Seq<char>,
    salt: Seq<u8>,
    now: u64,
    r: Result<Option<Option<String>>, AppError>,
    blind: Result<Option<Option<String>>, AppError>,
)
    requires
        unlock_page(Ok(grant), Ok(challenge), slug, salt, Some(now), r),
        unlock_page(Ok(grant), Ok(challenge), slug, salt, None, blind),
    ensures
        r is Ok,
        r->Ok_0 is None <==> crate::auth::viewer_tokens::grant_accepted(
            grant,
            slug,
            salt,
            now as int,
        ),
        r->Ok_0 is Some ==> optional_text(r->Ok_0->0) == challenge,
        blind is Ok && blind->Ok_0 is Some,
{
}

/// An unlock gives a grant for the password that was checked, and none where the
/// site is gone, expired or has another password by now.
pub proof fn unlocks_check_the_latest_row(
    found: AccessSite,
    slug: Seq<char>,
    salt: Seq<u8>,
    now: u64,
    r: Result<Unlocked, AppError>,
    gone: Result<Unlocked, AppError>,
)
    requires
        unlock_completed(Some(found), slug, salt, Some(now), r),
        unlock_completed(None, slug, salt, Some(now), gone),
        now <= i64::MAX,
    ensures
        gone == Ok::<Unlocked, AppError>(Unlocked::NotFound),
        ({
            let there = crate::routes::view::site_available(
                found.site.visibility@,
                found.site.expires_at,
                now as int,
            );
            let same = found.password is Some && found.password->0.salt() == salt;
            &&& !there ==> r == Ok::<Unlocked, AppError>(Unlocked::NotFound)
            &&& there && !same ==> r is Ok && r->Ok_0 is Show && shows(
                r->Ok_0->Show_0,
                409,
                "Site access changed. Reopen the unlock form before retrying."@,
                None,
            )
            &&& r is Ok && r->Ok_0 is Granted ==> there && same
                && crate::routes::unlock::grant_issued(
                r->Ok_0->Granted_0@,
                r->Ok_0->Granted_1@,
                slug,
                salt,
            )
            &&& there && same ==> r is Err || r->Ok_0 is Granted
        }),
{
}

/// What is open to everyone may be cached for a minute, failures of the server
/// and what is protected not at all.
pub proof fn open_content_is_cached_for_a_minute(status: u16)
    ensures
        caching(true, status) is None,
        status < 500 ==> caching(false, status) == Some("public, max-age=60"),
        500 <= status < 600 ==> caching(false, status) is None,
{
}

/// Feedback of a replacement is shown with it, and no other feedback is.
pub proof fn replacement_feedback_stays_there(message: Option<Seq<char>>, field: Seq<char>)
    ensures
        replacement_message(message, Some("replace"@ + field)) == message,
        replacement_message(message, None) is None,
        replacement_message(message, Some("title"@)) is None,
        field.len() > 0 && field[0] != 'r' ==> replacement_message(message, Some(field)) is None,
{
    reveal_strlit("replace");
    reveal_strlit("title");
    assert(("replace"@ + field).take(7) =~= "replace"@);
    if crate::text::has_prefix(field, "replace"@) {
        assert(field.take(7)[0] == field[0]);
    }
}

/// After a restart a directory stays that has its row, and a row that has its
/// directory; whatever is alone goes.
pub proof fn what_is_alone_goes(
    rows: Seq<Seq<char>>,
    names: Seq<Seq<char>>,
    kept_names: Seq<bool>,
    kept_rows: Seq<bool>,
    i: int,
    j: int,
)
    requires
        reconciled(rows, names, kept_names, kept_rows),
        0 <= i < rows.len(),
        0 <= j < names.len(),
    ensures
        rows[i] == names[j] ==> kept_rows[i] && kept_names[j],
        !names.contains(rows[i]) ==> !kept_rows[i],
        !rows.contains(names[j]) ==> !kept_names[j],
{
}

/// An expired site goes with its content; a row whose slug is none goes alone.
/// Expired sites are looked for every ten minutes.
pub proof fn expired_sites_go_with_their_content(slug: Seq<char>, target: SweepTarget)
    requires
        swept(slug, target),
    ensures
        target is Row <==> !valid_slug(slug),
        target matches SweepTarget::Site(found) ==> found@ == slug,
        SWEEP_INTERVAL == 10 * 60,
{
}

/// Storage needs directories: links, files and other things are failures.
pub proof fn storage_needs_directories(kind: PathKind)
    ensures
        directory_checked(kind) is Ok <==> kind is Directory,
        directory_checked(kind) is Err ==> directory_checked(kind)->Err_0.kind
            == ErrorKind::Publishing,
{
}

/// What is recorded of new content is its entry, the number and the size of its
/// files, and the second of the change.
pub proof fn replacements_record_their_content(input: NewSite, now: i64, recorded: Replacement)
    requires
        recorded_as(input, now, Ok(recorded)),
    ensures
        recorded.entry@ == input.entry@,
        recorded.file_count == input.files@.len(),
        recorded.size_bytes == input.size_bytes,
        recorded.updated_at == now,
{
}

/// A slug that was asked for is taken as it is, and one is made up only where
/// none was.
pub proof fn asked_slugs_are_taken(slug: Slug, r: Result<Slug, AppError>, made: Result<Slug, AppError>)
    requires
        slug_chosen(Some(slug), r),
        slug_chosen(None, made),
    ensures
        r is Ok && r->Ok_0@ == slug@,
        made is Ok ==> split(made->Ok_0@, '-').len() == 4,
        made is Err ==> made->Err_0.kind == ErrorKind::Publishing,
{
}

/// Saved settings say what was asked for: the title and the entry, whether the
/// site is open, the password that was kept or set, and the expiry.
pub proof fn saved_settings_say_what_was_asked_for(
    settings: Settings,
    current: AccessSite,
    now: i64,
    saved: SavedSettings,
    refused: AppError,
)
    requires
        settings_resolved(settings, current, now, Ok(saved)),
    ensures
        saved.title@ == settings.title@,
        saved.entry@ == settings.entry@,
        saved.updated_at == now,
        settings.access is Open ==> saved.password is None && saved.visibility@ == "open"@,
        settings.access is Keep ==> saved.password is Some && saved.password == current.password
            && saved.visibility@ == "password"@,
        settings.access is Replace ==> saved.password == Some(settings.access->Replace_0)
            && saved.visibility@ == "password"@,
        settings.expiry is Keep ==> saved.expires_at == current.site.expires_at,
        settings.expiry is Never ==> saved.expires_at is None,
        settings.expiry is After && 0 <= now && now + settings.expiry->After_0 <= i64::MAX && 0
            <= settings.expiry->After_0 ==> saved.expires_at is Some && saved.expires_at->0 == now
            + settings.expiry->After_0,
        !settings_resolved(settings, current, now, Err(refused)),
{
    let row = crate::sites::SiteView {
        expires_at: current.site.expires_at,
        ..arbitrary::<crate::sites::SiteView>()
    };
    assert(crate::sites::settings::saved_row(row, saved)
        == crate::sites::settings::updated_row(row, settings, saved.password is Some, now));
}

/// A password is kept only where there is one; otherwise a new one is asked for.
pub proof fn passwords_are_kept_where_there_are_some(
    settings: Settings,
    current: AccessSite,
    now: i64,
    r: Result<SavedSettings, AppError>,
)
    requires
        settings_resolved(settings, current, now, r),
    ensures
        r is Err <==> settings.access is Keep && current.password is None,
        r is Err ==> r->Err_0.kind is Request && r->Err_0.kind->Request_0 == 400,
{
}

/// Settings are made of a sound form and say what it says; an unsound one is
/// refused by the first field that is at fault.
pub proof fn settings_are_made_of_sound_forms(
    builder: SettingsBuilder,
    r: Result<Settings, InputError>,
)
    requires
        settings_built(builder, r),
    ensures
        r is Ok <==> valid_title(builder.title@) && valid_filename(builder.entry@)
            && builder.access is Some && expiry_choice(builder.expires_in@) is Some,
        !valid_title(builder.title@) ==> r == Err::<Settings, InputError>(InputError::Title),
        valid_title(builder.title@) && !valid_filename(builder.entry@) ==> r == Err::<
            Settings,
            InputError,
        >(InputError::SettingsEntry),
        valid_title(builder.title@) && valid_filename(builder.entry@) && builder.access is None
            ==> r == Err::<Settings, InputError>(InputError::Access),
        valid_title(builder.title@) && valid_filename(builder.entry@) && builder.access is Some
            && expiry_choice(builder.expires_in@) is None ==> r == Err::<Settings, InputError>(
            InputError::Expiry,
        ),
        r is Ok ==> r->Ok_0.title@ == builder.title@ && r->Ok_0.entry@ == builder.entry@
            && builder.access == Some(r->Ok_0.access) && expiry_choice(builder.expires_in@) == Some(
            r->Ok_0.expiry,
        ),
{
}

/// A browser with a live session needs no sign-in page; another is shown one
/// with the challenge that it holds.
pub proof fn live_sessions_need_no_sign_in(
    session: Option<(Seq<char>, Seq<char>)>,
    challenge: Option<Seq<char>>,
    error: AppError,
    r: Result<Option<Option<String>>, AppError>,
    failed: Result<Option<Option<String>>, AppError>,
)
    requires
        signin_page(Ok(session), challenge, r),
        signin_page(Err(error), challenge, failed),
    ensures
        r is Ok,
        r->Ok_0 is None <==> session is Some,
        r->Ok_0 is Some ==> optional_text(r->Ok_0->0) == challenge,
        failed is Err && failed->Err_0 == error,
{
}

/// Without a session a page leads to the sign-in, and a change is refused; with
/// one both come to the site of a valid slug, and to nothing else.
pub proof fn pages_and_changes_need_a_session(
    id: Seq<char>,
    token: Seq<char>,
    slug: Seq<char>,
    page: Result<Entry, AppError>,
    change: Result<Entry, AppError>,
    away: Result<Entry, AppError>,
    refused: Result<Entry, AppError>,
    error: AppError,
)
    requires
        page_entered(Ok(Some((id, token))), slug, page),
        change_entered(Ok((id, token)), slug, change),
        page_entered(Ok(None), slug, away),
        change_entered(Err(error), slug, refused),
    ensures
        away == Ok::<Entry, AppError>(Entry::Login),
        refused == Err::<Entry, AppError>(error),
        page is Ok && change is Ok,
        valid_slug(slug) ==> page->Ok_0 is Site && page->Ok_0->Site_0.slug@ == slug
            && page->Ok_0->Site_0.session_id@ == id && page->Ok_0->Site_0.csrf_token@ == token
            && change->Ok_0 is Site && change->Ok_0->Site_0.slug@ == slug
            && change->Ok_0->Site_0.session_id@ == id,
        !valid_slug(slug) ==> page->Ok_0 == Entry::NotFound && change->Ok_0 == Entry::NotFound,
{
}

/// A creation is opened in its session, with a blank form for the selected
/// input; an unknown selection is refused.
pub proof fn creations_open_blank(
    id: Seq<char>,
    token: Seq<char>,
    input: Input,
    r: Result<CreateRequest, AppError>,
    unknown: Result<CreateRequest, AppError>,
    refused: Result<CreateRequest, AppError>,
    error: AppError,
)
    requires
        creation_opened(Ok((id, token)), Some(input), r),
        creation_opened(Ok((id, token)), None, unknown),
        creation_opened(Err(error), Some(input), refused),
    ensures
        r is Ok,
        r->Ok_0.session_id@ == id && r->Ok_0.csrf_token@ == token && r->Ok_0.input is None,
        r->Ok_0.form@.input == input && r->Ok_0.form@.html.len() == 0 && r->Ok_0.form@.files.len()
            == 0 && r->Ok_0.form@.title.len() == 0,
        unknown == Err::<CreateRequest, AppError>(crate::laws::forms::refused(400)),
        refused == Err::<CreateRequest, AppError>(error),
{
}

/// A hashed password becomes that of the new site, or of the changed one, in a
/// session that still lives; where hashing failed nothing is published or saved.
pub proof fn hashed_passwords_go_on_to_their_site(
    password: Password,
    form: FormView,
    settings: SettingsForm,
    session: Seq<char>,
    store: Map<Seq<char>, SessionView>,
    now: u64,
    input: NewSite,
    created: CreateStep,
    changed: SettingsStep,
    failed: CreateStep,
    unchanged: SettingsStep,
    error: AppError,
)
    requires
        creation_hashed(Ok(password), form, session, store, now, input, created),
        settings_hashed(Ok(password), settings, session, store, now, changed),
        creation_hashed(Err(error), form, session, store, now, input, failed),
        settings_hashed(Err(error), settings, session, store, now, unchanged),
    ensures
        crate::auth::sessions::form_accepted(store, session, form.csrf_token, now) <==> created is
            Publish,
        created is Publish ==> created->Publish_0.password == Some(password)
            && created->Publish_0.files == input.files && created->Publish_0.title == input.title,
        changed is Save ==> changed->Save_0.access == AccessUpdate::Replace(password)
            && crate::auth::sessions::form_accepted(store, session, settings.csrf_token@, now),
        failed is Reply && failed->Reply_0 is Page,
        unchanged is Reply && unchanged->Reply_0 is Page,
{
}

/// A browser goes back to the path and query that it came from.
pub proof fn browsers_go_back_to_where_they_came_from(
    referer: Seq<u8>,
    text: Seq<char>,
    scheme: Option<Seq<char>>,
    authority: Option<Seq<char>>,
    path: Seq<char>,
    query: Option<Seq<char>>,
    target: Seq<char>,
)
    requires
        crate::routes::header_chars(referer) == Some(text),
        crate::web::uri_parts(text) == Some((scheme, authority, path, query, Some(target))),
    ensures
        referring_target(Some(referer)) == Some(target),
        referring_target(None) is None,
{
}

}
