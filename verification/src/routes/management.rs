//! Authenticated discovery, detail, and deliberate metadata-first deletion.
use crate::auth::sessions::{form_accepted, live_at, Sessions};
use crate::auth::tokens::text_view;
use crate::error::{publishing_failure, AppError};
use crate::routes::forms::{delete_fields, form_values, DeleteForm, RawForm};
use crate::routes::reply::{error_status, page, redirects, shows, Reply};
use crate::routes::{forbidden, invalid, invalid_form, unverified};
use crate::sites::delete::DeleteOutcome;
use crate::sites::validate::{valid_slug, Slug};
use crate::sites::{SiteDetails, SITES_PER_PAGE};
use crate::status;
use crate::text::{
    all_digits, chars_of, decimal, digit, digits_number, find, first_index, is_digit, number_of,
    parse_plus_number, plus_number, push_decimal, push_text, same, split, split_nonempty, split_on,
    string_of, views,
};
use vstd::prelude::*;

verus! {

/// Presents persisted site metadata without exposing uploaded content.
pub struct AdminSite {
    /// The stored optional title, empty when absent.
    pub title: String,
    /// The validated persisted slug used for local management links.
    pub slug: String,
    /// The viewer URL built from validated configuration and the stored slug.
    pub url: String,
    /// The human-readable stored access mode.
    pub visibility: String,
    /// The stored entry filename.
    pub entry: String,
    /// The creation time formatted as a UTC display label.
    pub created: String,
    /// The expiry formatted as a UTC display label, or the no-expiry label.
    pub expires: String,
    /// The stored number of published files.
    pub file_count: i64,
    /// The stored total size of published files in bytes.
    pub size_bytes: i64,
}

/// The address that a site is shared at.
pub open spec fn share_url(public_url: Seq<char>, slug: Seq<char>) -> Seq<char> {
    public_url + "/s/"@ + slug + "/"@
}

/// Builds the address that a site is shared at.
pub fn share_link(public_url: &str, slug: &str) -> (r: String)
    ensures
        r@ == share_url(public_url@, slug@),
{
    let mut url = String::new();
    push_text(&mut url, public_url);
    push_text(&mut url, "/s/");
    push_text(&mut url, slug);
    push_text(&mut url, "/");
    assert(url@ =~= share_url(public_url@, slug@));
    url
}

/// Whether a site is presented with its stored values and its share address.
pub open spec fn presented(record: SiteDetails, public_url: Seq<char>, site: AdminSite) -> bool {
    &&& site.title == record.site.title
    &&& site.slug == record.site.slug
    &&& site.url@ == share_url(public_url, record.site.slug@)
    &&& site.visibility == record.site.visibility
    &&& site.entry == record.site.entry
    &&& site.created == record.created_label
    &&& site.expires == record.expires_label
    &&& site.file_count == record.site.file_count
    &&& site.size_bytes == record.site.size_bytes
}

/// Projects persisted values without inventing statistics or external URLs;
/// invalid persisted slugs are rejected before any URL is built.
pub fn present(record: SiteDetails, public_url: &str) -> (r: Result<AdminSite, AppError>)
    ensures
        match r {
            Ok(site) => valid_slug(record.site.slug@) && presented(record, public_url@, site),
            Err(error) => !valid_slug(record.site.slug@) && error == publishing_failure(),
        },
{
    let site = record.site;
    match Slug::parse(site.slug.as_str()) {
        Err(_) => Err(AppError::publishing()),
        Ok(slug) => {
            let url: String = share_link(public_url, slug.as_str());
            Ok(
                AdminSite {
                    title: site.title,
                    slug: site.slug,
                    url,
                    visibility: site.visibility,
                    entry: site.entry,
                    created: record.created_label,
                    expires: record.expires_label,
                    file_count: site.file_count,
                    size_bytes: site.size_bytes,
                },
            )
        },
    }
}

/// The short name of a month.
pub open spec fn month_name(month: nat) -> Option<Seq<char>> {
    if month == 1 {
        Some("Jan"@)
    } else if month == 2 {
        Some("Feb"@)
    } else if month == 3 {
        Some("Mar"@)
    } else if month == 4 {
        Some("Apr"@)
    } else if month == 5 {
        Some("May"@)
    } else if month == 6 {
        Some("Jun"@)
    } else if month == 7 {
        Some("Jul"@)
    } else if month == 8 {
        Some("Aug"@)
    } else if month == 9 {
        Some("Sep"@)
    } else if month == 10 {
        Some("Oct"@)
    } else if month == 11 {
        Some("Nov"@)
    } else if month == 12 {
        Some("Dec"@)
    } else {
        None
    }
}

fn find_month(month: u64) -> (r: Option<&'static str>)
    ensures
        text_view(r) == month_name(month as nat),
{
    if month == 1 {
        Some("Jan")
    } else if month == 2 {
        Some("Feb")
    } else if month == 3 {
        Some("Mar")
    } else if month == 4 {
        Some("Apr")
    } else if month == 5 {
        Some("May")
    } else if month == 6 {
        Some("Jun")
    } else if month == 7 {
        Some("Jul")
    } else if month == 8 {
        Some("Aug")
    } else if month == 9 {
        Some("Sep")
    } else if month == 10 {
        Some("Oct")
    } else if month == 11 {
        Some("Nov")
    } else if month == 12 {
        Some("Dec")
    } else {
        None
    }
}

/// The date at the start of a UTC label, as day, month name and year; the label
/// itself where it does not begin with a date.
pub open spec fn short_date(label: Seq<char>) -> Seq<char> {
    let parts = split(split(label, ' ')[0], '-');
    if parts.len() != 3 {
        label
    } else {
        match (plus_number(parts[1], u64::MAX as nat), plus_number(parts[2], 255)) {
            (Some(month), Some(day)) => if month_name(month) is Some && parts[0].len() == 4
                && all_digits(parts[0]) && 1 <= day <= 31 {
                decimal(day) + seq![' '] + month_name(month)->0 + seq![' '] + parts[0]
            } else {
                label
            },
            _ => label,
        }
    }
}

fn digits_only(s: &[char]) -> (r: bool)
    ensures
        r == all_digits(s@),
{
    let mut i: usize = 0;
    while i < s.len()
        invariant
            i <= s@.len(),
            forall|k: int| 0 <= k < i ==> is_digit(#[trigger] s@[k]),
        decreases s@.len() - i,
    {
        if !digit(s[i]) {
            assert(!is_digit(s@[i as int]));
            return false;
        }
        i = i + 1;
    }
    true
}

/// Formats the date in a SQL-generated UTC label without losing its source.
pub fn created_date(label: &str) -> (r: String)
    ensures
        r@ == short_date(label@),
{
    let chars: Vec<char> = chars_of(label);
    let words: Vec<Vec<char>> = split_on(chars.as_slice(), ' ');
    proof {
        split_nonempty(label@, ' ');
        assert(views(words@)[0] == words@[0]@);
    }
    let parts: Vec<Vec<char>> = split_on(words[0].as_slice(), '-');
    if parts.len() != 3 {
        return label.to_owned();
    }
    let ghost texts = views(parts@);
    assert(texts[0] == parts@[0]@ && texts[1] == parts@[1]@ && texts[2] == parts@[2]@);
    match (
        parse_plus_number(parts[1].as_slice(), u64::MAX),
        parse_plus_number(parts[2].as_slice(), 255),
    ) {
        (Some(month), Some(day)) => match find_month(month) {
            Some(name) => {
                if parts[0].len() == 4 && digits_only(parts[0].as_slice()) && day >= 1 && day
                    <= 31 {
                    let year: String = string_of(parts[0].as_slice());
                    let mut date = String::new();
                    push_decimal(&mut date, day);
                    date.push(' ');
                    push_text(&mut date, name);
                    date.push(' ');
                    push_text(&mut date, year.as_str());
                    assert(date@ =~= short_date(label@));
                    date
                } else {
                    label.to_owned()
                }
            },
            None => label.to_owned(),
        },
        _ => label.to_owned(),
    }
}

impl AdminSite {
    /// Formats the date in a SQL-generated UTC label without losing its source.
    pub fn created_date(&self) -> (r: String)
        ensures
            r@ == short_date(self.created@),
    {
        created_date(self.created.as_str())
    }
}

/// Validated pagination with optional application-owned status copy.
pub struct ListQuery {
    /// The one-based page; the storage layer checks offset representability.
    pub page: usize,
    /// Fixed status text, never reflected query input.
    pub notice: Option<&'static str>,
}

/// What the site list says of a notice name.
pub open spec fn notice_text(name: Seq<char>) -> Option<&'static str> {
    if name == "deleted"@ {
        Some(
            "Site deleted. New requests to its share link return not found. Previously cached responses may remain for up to 60 seconds.",
        )
    } else if name == "retained"@ {
        Some(
            "Site removed from sharing, but some files could not be safely removed. Residual files remain in storage and may block reuse of this slug. Check server diagnostics before manual cleanup.",
        )
    } else {
        None
    }
}

fn find_notice(name: &str) -> (r: Option<&'static str>)
    ensures
        r == notice_text(name@),
{
    if same(name, "deleted") {
        Some(
            "Site deleted. New requests to its share link return not found. Previously cached responses may remain for up to 60 seconds.",
        )
    } else if same(name, "retained") {
        Some(
            "Site removed from sharing, but some files could not be safely removed. Residual files remain in storage and may block reuse of this slug. Check server diagnostics before manual cleanup.",
        )
    } else {
        None
    }
}

/// The page and the notice that were read so far.
pub type QueryState = (Option<usize>, Option<&'static str>);

/// What one more field makes of a list query; nothing where it is not allowed.
pub open spec fn query_field(state: QueryState, field: Seq<char>) -> Option<QueryState> {
    let at = first_index(field, '=');
    let name = field.take(at);
    let value = field.skip(at + 1);
    if at >= field.len() {
        None
    } else if name == "page"@ && state.0 is None {
        match digits_number(value, usize::MAX as nat) {
            Some(number) => if number == 0 {
                None
            } else {
                Some((Some(number as usize), state.1))
            },
            None => None,
        }
    } else if name == "notice"@ && state.1 is None {
        match notice_text(value) {
            Some(text) => Some((state.0, Some(text))),
            None => None,
        }
    } else {
        None
    }
}

/// What the first fields make of a list query.
pub open spec fn query_fields(fields: Seq<Seq<char>>) -> Option<QueryState>
    decreases fields.len(),
{
    if fields.len() == 0 {
        Some((None, None))
    } else {
        match query_fields(fields.drop_last()) {
            Some(state) => query_field(state, fields.last()),
            None => None,
        }
    }
}

proof fn query_failure_stays(fields: Seq<Seq<char>>, n: int)
    requires
        0 <= n <= fields.len(),
        query_fields(fields.take(n)) is None,
    ensures
        query_fields(fields) is None,
    decreases fields.len() - n,
{
    if n == fields.len() {
        assert(fields.take(n) =~= fields);
    } else {
        assert(fields.take(n + 1).drop_last() =~= fields.take(n));
        query_failure_stays(fields, n + 1);
    }
}

/// The page and notice of a list query: fields are separated by `&`, each may
/// occur once, and the first page is the default.
pub open spec fn list_query(query: Option<Seq<char>>) -> Option<(usize, Option<&'static str>)> {
    match query {
        None => Some((1, None)),
        Some(text) => if text.len() == 0 {
            Some((1, None))
        } else {
            match query_fields(split(text, '&')) {
                Some(state) => Some(
                    (
                        match state.0 {
                            Some(page) => page,
                            None => 1,
                        },
                        state.1,
                    ),
                ),
                None => None,
            }
        },
    }
}

fn read_query_field(state: QueryState, field: &[char]) -> (r: Option<QueryState>)
    ensures
        r == query_field(state, field@),
{
    let at: usize = find(field, '=');
    if at >= field.len() {
        return None;
    }
    let name: &[char] = vstd::slice::slice_subrange(field, 0, at);
    let value: &[char] = vstd::slice::slice_subrange(field, at + 1, field.len());
    assert(name@ =~= field@.take(at as int));
    assert(value@ =~= field@.skip(at + 1));
    let name: String = string_of(name);
    if same(name.as_str(), "page") && state.0.is_none() {
        match number_of(value, usize::MAX as u64) {
            Some(number) => {
                if number == 0 {
                    None
                } else {
                    Some((Some(number as usize), state.1))
                }
            },
            None => None,
        }
    } else if same(name.as_str(), "notice") && state.1.is_none() {
        let value: String = string_of(value);
        match find_notice(value.as_str()) {
            Some(text) => Some((state.0, Some(text))),
            None => None,
        }
    } else {
        None
    }
}

impl ListQuery {
    /// Parses only a single page and a single recognized deletion notice:
    /// unknown and repeated fields, empty or invalid numbers, and zero are
    /// rejected.
    pub fn parse(query: Option<&str>) -> (r: Result<Self, AppError>)
        ensures
            match r {
                Ok(parsed) => list_query(text_view(query)) == Some((parsed.page, parsed.notice)),
                Err(error) => list_query(text_view(query)) is None && error == invalid_form(),
            },
    {
        let text: &str = match query {
            None => {
                return Ok(ListQuery { page: 1, notice: None });
            },
            Some(text) => text,
        };
        let chars: Vec<char> = chars_of(text);
        if chars.len() == 0 {
            return Ok(ListQuery { page: 1, notice: None });
        }
        let fields: Vec<Vec<char>> = split_on(chars.as_slice(), '&');
        let ghost texts = views(fields@);
        let mut state: QueryState = (None, None);
        let mut i: usize = 0;
        while i < fields.len()
            invariant
                i <= fields@.len(),
                texts == views(fields@),
                texts == split(text@, '&'),
                text@.len() > 0,
                text_view(query) == Some(text@),
                query_fields(texts.take(i as int)) == Some(state),
            decreases fields@.len() - i,
        {
            assert(texts.take(i + 1).drop_last() =~= texts.take(i as int));
            assert(texts[i as int] == fields@[i as int]@);
            match read_query_field(state, fields[i].as_slice()) {
                Some(next) => {
                    state = next;
                },
                None => {
                    proof {
                        query_failure_stays(texts, i + 1);
                    }
                    return Err(invalid());
                },
            }
            i = i + 1;
        }
        assert(texts.take(i as int) =~= texts);
        let page: usize = match state.0 {
            Some(page) => page,
            None => 1,
        };
        Ok(ListQuery { page, notice: state.1 })
    }
}

/// A page of the site list.
pub struct ListPage {
    /// The bounded page of persisted site metadata.
    pub sites: Vec<AdminSite>,
    /// A local URL for the previous page, when available.
    pub previous_url: Option<String>,
    /// A local URL for the next page, when available.
    pub next_url: Option<String>,
    /// A fixed application notice, rather than reflected query text.
    pub notice: Option<&'static str>,
}

/// The local address of a page of the site list.
pub open spec fn page_url(page: int) -> Seq<char> {
    "/?page="@ + decimal(page as nat)
}

fn page_link(page: usize) -> (r: String)
    ensures
        r@ == page_url(page as int),
{
    let mut url = String::new();
    push_text(&mut url, "/?page=");
    push_decimal(&mut url, page as u64);
    url
}

/// The number of rows that a page shows of those that were read.
pub open spec fn shown_rows(records: Seq<SiteDetails>) -> nat {
    if records.len() > SITES_PER_PAGE {
        SITES_PER_PAGE as nat
    } else {
        records.len()
    }
}

/// The rows that a page shows can all be presented.
pub open spec fn rows_valid(records: Seq<SiteDetails>) -> bool {
    forall|i: int|
        0 <= i < shown_rows(records) ==> valid_slug((#[trigger] records[i]).site.slug@)
}

/// The first rows are presented one by one.
pub open spec fn all_presented(
    rows: Seq<SiteDetails>,
    public_url: Seq<char>,
    sites: Seq<AdminSite>,
) -> bool {
    forall|i: int|
        0 <= i < sites.len() ==> row_presented(rows[i], public_url, #[trigger] sites[i])
}

/// A row has a valid slug and is presented as it stands.
pub open spec fn row_presented(row: SiteDetails, public_url: Seq<char>, site: AdminSite) -> bool {
    valid_slug(row.site.slug@) && presented(row, public_url, site)
}

/// One page of the sites that were read for it, one more than it shows where
/// there is another page.
pub open spec fn listed(
    records: Seq<SiteDetails>,
    query: ListQuery,
    public_url: Seq<char>,
    r: Result<ListPage, AppError>,
) -> bool {
    match r {
        Err(error) => if records.len() > SITES_PER_PAGE && query.page == usize::MAX {
            error == invalid_form()
        } else {
            !rows_valid(records) && error == publishing_failure()
        },
        Ok(shown) => {
            &&& records.len() > SITES_PER_PAGE ==> query.page < usize::MAX
            &&& rows_valid(records)
            &&& shown.sites@.len() == shown_rows(records)
            &&& forall|i: int|
                0 <= i < shown.sites@.len() ==> presented(
                    records[i],
                    public_url,
                    #[trigger] shown.sites@[i],
                )
            &&& crate::sites::new_site::optional_text(shown.next_url) == if records.len()
                > SITES_PER_PAGE {
                Some(page_url(query.page + 1))
            } else {
                None
            }
            &&& crate::sites::new_site::optional_text(shown.previous_url) == if query.page > 1 {
                Some(page_url(query.page - 1))
            } else {
                None
            }
            &&& shown.notice == query.notice
        },
    }
}

/// Presents one page of the site list from the rows that were read for it: one
/// row more than a page shows stands for a next page.
pub fn list_page(records: Vec<SiteDetails>, query: ListQuery, public_url: &str) -> (r: Result<
    ListPage,
    AppError,
>)
    ensures
        listed(records@, query, public_url@, r),
{
    let next_url: Option<String> = if records.len() > SITES_PER_PAGE {
        if query.page == usize::MAX {
            return Err(invalid());
        }
        Some(page_link(query.page + 1))
    } else {
        None
    };
    let ghost all = records@;
    let mut rows: Vec<SiteDetails> = records;
    rows.truncate(SITES_PER_PAGE);
    let ghost shown = rows@;
    assert(shown =~= all.take(shown_rows(all) as int));
    let mut sites: Vec<AdminSite> = Vec::new();
    for record in it: rows.into_iter()
        invariant
            it.seq() == shown,
            shown == all.take(shown_rows(all) as int),
            sites@.len() == it.index(),
            all == records@,
            all.len() > SITES_PER_PAGE ==> query.page < usize::MAX,
            all_presented(shown, public_url@, sites@),
    {
        match present(record, public_url) {
            Ok(site) => {
                let ghost before = sites@;
                sites.push(site);
                assert(all_presented(shown, public_url@, sites@)) by {
                    assert forall|i: int| 0 <= i < sites@.len() implies row_presented(
                        shown[i],
                        public_url@,
                        #[trigger] sites@[i],
                    ) by {
                        if i < before.len() {
                            assert(sites@[i] == before[i]);
                        }
                    }
                }
            },
            Err(error) => {
                assert(!rows_valid(all)) by {
                    assert(!valid_slug(all[it.index() as int].site.slug@));
                }
                return Err(error);
            },
        }
    }
    assert(rows_valid(all)) by {
        assert forall|i: int| 0 <= i < shown_rows(all) implies valid_slug(
            (#[trigger] all[i]).site.slug@,
        ) by {
            assert(row_presented(shown[i], public_url@, sites@[i]));
        }
    }
    let previous_url: Option<String> = if query.page > 1 {
        Some(page_link(query.page - 1))
    } else {
        None
    };
    Ok(ListPage { sites, previous_url, next_url, notice: query.notice })
}

/// The notice and the replacement tab that a detail query selects.
pub open spec fn detail_query_of(query: Option<Seq<char>>) -> Option<
    (Option<&'static str>, &'static str),
> {
    match query {
        None => Some((None, "html")),
        Some(text) => if text == ""@ {
            Some((None, "html"))
        } else if text == "notice=saved"@ {
            Some((Some("Settings saved."), "html"))
        } else if text == "notice=replaced"@ {
            Some((Some("Content replaced."), "html"))
        } else if text == "input=files"@ {
            Some((None, "files"))
        } else if text == "input=zip"@ {
            Some((None, "zip"))
        } else {
            None
        },
    }
}

/// Selects the notice and the replacement tab of the detail page.
pub fn detail_query(query: Option<&str>) -> (r: Result<
    (Option<&'static str>, &'static str),
    AppError,
>)
    ensures
        match r {
            Ok(selected) => detail_query_of(text_view(query)) == Some(selected),
            Err(error) => detail_query_of(text_view(query)) is None && error == invalid_form(),
        },
{
    match query {
        None => Ok((None, "html")),
        Some(text) => {
            if same(text, "") {
                Ok((None, "html"))
            } else if same(text, "notice=saved") {
                Ok((Some("Settings saved."), "html"))
            } else if same(text, "notice=replaced") {
                Ok((Some("Content replaced."), "html"))
            } else if same(text, "input=files") {
                Ok((None, "files"))
            } else if same(text, "input=zip") {
                Ok((None, "zip"))
            } else {
                Err(invalid())
            }
        },
    }
}

/// What is to be done for a deletion request whose form was read.
pub enum DeleteStep {
    /// The request is answered without a deletion.
    Reply(Reply),
    /// The site is deleted.
    Delete,
}

/// What a deletion request comes to: its form is complete and confirmed, and
/// its token is that of the live session. A rejected form shows the
/// confirmation again.
pub open spec fn delete_decision(
    form: Result<RawForm, AppError>,
    store: Map<Seq<char>, crate::auth::sessions::SessionView>,
    session_id: Seq<char>,
    now: u64,
    step: DeleteStep,
) -> bool {
    match delete_token(form) {
        Err(error) => if error_status(error) == status::FORBIDDEN {
            step == DeleteStep::Reply(Reply::Failed(error))
        } else {
            step matches DeleteStep::Reply(reply) && shows(
                reply,
                error_status(error),
                crate::error::diagnostic(error.kind),
                None,
            )
        },
        Ok(token) => if form_accepted(store, session_id, token, now) {
            step == DeleteStep::Delete
        } else {
            step == DeleteStep::Reply(Reply::Failed(unverified()))
        },
    }
}

/// The token of a complete and confirmed deletion form.
pub open spec fn delete_token(form: Result<RawForm, AppError>) -> Result<Seq<char>, AppError> {
    match form {
        Err(error) => Err(error),
        Ok(raw) => match form_values(raw, delete_fields()) {
            Err(error) => Err(error),
            Ok(values) => match values[0] {
                None => Err(unverified()),
                Some(token) => if values[1] == Some("delete"@) {
                    Ok(token)
                } else {
                    Err(
                        crate::error::rejected(
                            status::BAD_REQUEST,
                            "Select the confirmation checkbox before deleting this site.",
                        ),
                    )
                },
            },
        },
    }
}

/// Decides on a deletion after the complete body was read, in a live session,
/// and with an explicit confirmation. Rejected requests delete nothing.
pub fn confirm_delete(
    form: Result<RawForm, AppError>,
    session_id: &str,
    sessions: &mut Sessions,
    now: u64,
) -> (r: DeleteStep)
    ensures
        delete_decision(form, old(sessions)@, session_id@, now, r),
        final(sessions)@ == if delete_token(form) is Ok {
            live_at(old(sessions)@, now)
        } else {
            old(sessions)@
        },
        r is Delete ==> exists|token: Seq<char>| #[trigger]
            form_accepted(old(sessions)@, session_id@, token, now),
{
    let read: Result<DeleteForm, AppError> = match form {
        Err(error) => Err(error),
        Ok(raw) => DeleteForm::read(raw),
    };
    match read {
        Err(error) => {
            let status: u16 = error.into_response().0;
            if status == status::FORBIDDEN {
                DeleteStep::Reply(Reply::Failed(error))
            } else {
                DeleteStep::Reply(Reply::Page(status, error.to_text(), None))
            }
        },
        Ok(submitted) => {
            if sessions.verify_at(session_id, submitted.csrf_token.as_str(), now) {
                DeleteStep::Delete
            } else {
                DeleteStep::Reply(Reply::Failed(forbidden()))
            }
        },
    }
}

/// The answer to a deletion by how it came out.
pub open spec fn deletion_reply(outcome: Result<DeleteOutcome, AppError>, reply: Reply) -> bool {
    match outcome {
        Ok(DeleteOutcome::Deleted) => redirects(reply, "/?notice=deleted"@),
        Ok(DeleteOutcome::DeletedContentRetained) => redirects(reply, "/?notice=retained"@),
        Ok(DeleteOutcome::NotFound) => reply == Reply::NotFound,
        Err(error) => shows(
            reply,
            error_status(error),
            "Deletion could not be confirmed. Check your site list before retrying."@,
            None,
        ),
    }
}

/// Answers a deletion by how it came out.
pub fn deleted(outcome: Result<DeleteOutcome, AppError>) -> (r: Reply)
    ensures
        deletion_reply(outcome, r),
{
    match outcome {
        Ok(DeleteOutcome::Deleted) => Reply::Redirect("/?notice=deleted".to_owned()),
        Ok(DeleteOutcome::DeletedContentRetained) => Reply::Redirect(
            "/?notice=retained".to_owned(),
        ),
        Ok(DeleteOutcome::NotFound) => Reply::NotFound,
        Err(error) => page(
            error.into_response().0,
            "Deletion could not be confirmed. Check your site list before retrying.",
            None,
        ),
    }
}

/// Where a deletion sends the browser, the site list has a notice for it.
pub proof fn deletion_notices_are_known(text: Seq<char>)
    requires
        text == "notice=deleted"@ || text == "notice=retained"@,
    ensures
        list_query(Some(text)) matches Some((page, notice)) && page == 1 && notice is Some,
{
    reveal_strlit("notice=deleted");
    reveal_strlit("notice=retained");
    reveal_strlit("notice");
    reveal_strlit("page");
    reveal_strlit("deleted");
    reveal_strlit("retained");
    crate::text::split_single(text, '&');
    crate::text::first_index_unique(text, '=', 6);
    assert(text.take(6) =~= "notice"@);
    assert(text.skip(7) =~= "deleted"@ || text.skip(7) =~= "retained"@);
    let fields = split(text, '&');
    assert(fields.drop_last() =~= Seq::<Seq<char>>::empty());
    assert(query_fields(fields.drop_last()) == Some((None::<usize>, None::<&'static str>)));
    assert(fields.last() == text);
}

}
