//! Publication, settings, replacement and deletion of sites.
pub mod archive;
pub mod content;
pub mod delete;
pub mod generate;
pub mod new_site;
pub mod publish;
pub mod replace;
pub mod settings;
pub mod sweep;
pub mod validate;
use crate::auth::password::{stored_salt, Password};
use crate::auth::tokens::{clock_gives, read_clock};
use crate::error::{publishing_failure, rejected, AppError};
use crate::status;
use crate::text::same;
use vstd::prelude::*;

verus! {

/// Maximum number of uploaded files accepted in one site.
pub const MAX_SITE_FILES: usize = 10_000;

/// Number of displayed administration rows per page, excluding its sentinel.
pub const SITES_PER_PAGE: usize = 20;

/// The second that a reading of the clock stands for in the database; a clock
/// before the epoch or beyond what can be stored fails.
pub open spec fn stored_second(read: Option<u64>) -> Result<i64, AppError> {
    match read {
        Some(now) if now <= i64::MAX => Ok(now as i64),
        _ => Err(publishing_failure()),
    }
}

/// Returns the Unix seconds that the clock gives as a SQLite-representable
/// integer.
pub fn unix_now() -> (r: Result<i64, AppError>)
    ensures
        exists|read: Option<u64>| #[trigger] clock_gives(read) && r == stored_second(read),
{
    match read_clock() {
        Some(now) => representable(now),
        None => Err(AppError::publishing()),
    }
}

/// A number of seconds or files as a SQLite-representable integer.
pub fn representable(number: u64) -> (r: Result<i64, AppError>)
    ensures
        match r {
            Ok(stored) => stored == number,
            Err(error) => number > i64::MAX && error == publishing_failure(),
        },
{
    if number > i64::MAX as u64 {
        Err(AppError::publishing())
    } else {
        Ok(number as i64)
    }
}

/// So many seconds later, or the last representable second.
pub open spec fn after(now: i64, seconds: i64) -> i64 {
    if now + seconds > i64::MAX {
        i64::MAX
    } else if now + seconds < i64::MIN {
        i64::MIN
    } else {
        (now + seconds) as i64
    }
}

/// So many seconds later, or the last representable second.
pub fn seconds_after(now: i64, seconds: i64) -> (r: i64)
    ensures
        r == after(now, seconds),
{
    if seconds >= 0 {
        if now > i64::MAX - seconds {
            i64::MAX
        } else {
            now + seconds
        }
    } else {
        if now < i64::MIN - seconds {
            i64::MIN
        } else {
            now + seconds
        }
    }
}

/// A site row whose path and access fields require serving validation.
pub struct Site {
    /// The persisted URL key, not yet trusted as a filesystem component.
    pub slug: String,
    /// The submitted optional display title.
    pub title: String,
    /// The stored access mode, `open` or `password`.
    pub visibility: String,
    /// The stored entry path, requiring validation before serving.
    pub entry: String,
    /// The number of published files.
    pub file_count: i64,
    /// The exact total content byte size.
    pub size_bytes: i64,
    /// The creation time in Unix seconds.
    pub created_at: i64,
    /// The last update time in Unix seconds.
    pub updated_at: i64,
    /// The optional access-expiration time in Unix seconds.
    pub expires_at: Option<i64>,
}

/// A site row as mathematical values.
pub struct SiteView {
    pub slug: Seq<char>,
    pub title: Seq<char>,
    pub protected: bool,
    pub entry: Seq<char>,
    pub file_count: i64,
    pub size_bytes: i64,
    pub created_at: i64,
    pub updated_at: i64,
    pub expires_at: Option<i64>,
}

impl Site {
    /// Whether the row shows these values.
    pub open spec fn shows(&self, v: SiteView) -> bool {
        &&& self.slug@ == v.slug
        &&& self.title@ == v.title
        &&& self.visibility@ == if v.protected {
            "password"@
        } else {
            "open"@
        }
        &&& self.entry@ == v.entry
        &&& self.file_count == v.file_count
        &&& self.size_bytes == v.size_bytes
        &&& self.created_at == v.created_at
        &&& self.updated_at == v.updated_at
        &&& self.expires_at == v.expires_at
    }
}

/// A site row with the labels that the database made of its times.
pub struct SiteDetails {
    /// Original metadata, including unmodified integer creation and expiry times.
    pub site: Site,
    /// Creation date and time in UTC, or `Unknown` for unrepresentable timestamps.
    pub created_label: String,
    /// UTC expiry, `Never` when absent, or `Unknown` for invalid timestamps.
    pub expires_label: String,
}

/// Metadata and its matching credential from the same database row snapshot.
pub struct AccessSite {
    /// Untrusted persisted metadata, requiring path and expiry checks.
    pub site: Site,
    /// The credential of a protected site.
    pub password: Option<Password>,
}

/// The credential of a stored row, or nothing where the row fails closed.
pub open spec fn stored_access(visibility: Seq<char>, encoded: Option<Seq<char>>) -> Option<
    Option<Seq<char>>,
> {
    if visibility == "open"@ {
        Some(None)
    } else if visibility == "password"@ {
        match encoded {
            Some(hash) if stored_salt(hash) is Some => Some(Some(hash)),
            _ => None,
        }
    } else {
        None
    }
}

/// Reads the credential of a stored row. Open rows ignore unused hashes; an
/// unknown access mode, and a missing or invalid credential of a protected row,
/// fail closed.
pub fn access_password(visibility: &str, encoded: Option<String>) -> (r: Result<
    Option<Password>,
    AppError,
>)
    ensures
        match r {
            Ok(None) => stored_access(visibility@, new_site::optional_text(encoded)) == Some(
                None::<Seq<char>>,
            ),
            Ok(Some(password)) => stored_access(visibility@, new_site::optional_text(encoded))
                == Some(Some(password@)),
            Err(error) => stored_access(visibility@, new_site::optional_text(encoded)) is None
                && error == publishing_failure(),
        },
{
    proof {
        reveal_strlit("open");
        reveal_strlit("password");
        assert("open"@.len() != "password"@.len());
    }
    if same(visibility, "open") {
        return Ok(None);
    }
    if !same(visibility, "password") {
        return Err(AppError::publishing());
    }
    match encoded {
        None => Err(AppError::publishing()),
        Some(hash) => match Password::from_encoded(hash) {
            Ok(password) => Ok(Some(password)),
            Err(_) => Err(AppError::publishing()),
        },
    }
}

/// The row offset of a one-based page.
pub open spec fn page_offset(page: usize) -> Option<i64> {
    if page >= 1 && (page - 1) * SITES_PER_PAGE <= usize::MAX && (page - 1) * SITES_PER_PAGE
        <= i64::MAX {
        Some(((page - 1) * SITES_PER_PAGE) as i64)
    } else {
        None
    }
}

/// The row offset of a one-based page; zero and overflowing pages are rejected.
pub fn list_offset(page: usize) -> (r: Result<i64, AppError>)
    ensures
        match r {
            Ok(offset) => page_offset(page) == Some(offset),
            Err(error) => page_offset(page) is None && error == rejected(
                status::BAD_REQUEST,
                "Invalid site-list page.",
            ),
        },
{
    if page == 0 {
        return Err(AppError::request(status::BAD_REQUEST, "Invalid site-list page."));
    }
    let before: u64 = (page - 1) as u64;
    if before > i64::MAX as u64 / SITES_PER_PAGE as u64 || before > usize::MAX as u64
        / SITES_PER_PAGE as u64 {
        return Err(AppError::request(status::BAD_REQUEST, "Invalid site-list page."));
    }
    Ok((before * SITES_PER_PAGE as u64) as i64)
}

}
