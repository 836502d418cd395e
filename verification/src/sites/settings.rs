//! Validated metadata and explicit access intent without password hashing.
use crate::auth::password::Password;
use crate::error::{publishing_failure, rejected, AppError};
use crate::sites::new_site::{reject_message, InputError};
use crate::sites::{after, seconds_after, AccessSite, SiteView};
use crate::status;
use crate::sites::validate::{
    expiry_choice, valid_filename, valid_title, Expiry, Filename, Title,
};
use vstd::prelude::*;

verus! {

/// The access change to apply to the current row, not an earlier form snapshot.
pub enum AccessUpdate {
    /// Remove protection and clear any retained credential.
    Open,
    /// Retain the current credential of an already protected site.
    Keep,
    /// Install a freshly salted credential prepared by bounded authentication.
    Replace(Password),
}

/// Validated settings requiring an entry check against current storage.
pub struct Settings {
    /// The checked optional title, preserved without trimming.
    pub title: Title,
    /// The checked flat filename, requiring current filesystem validation.
    pub entry: Filename,
    /// Explicit access intent applied to the latest committed credential.
    pub access: AccessUpdate,
    /// Explicit expiry intent applied to the current row.
    pub expiry: Expiry,
}

/// Collects metadata and requires an explicit credential-preservation decision.
pub struct SettingsBuilder {
    pub title: String,
    pub entry: String,
    pub access: Option<AccessUpdate>,
    pub expires_in: String,
}

/// The rejection of settings, where there is one: the first of an invalid
/// title, an unsafe entry, a missing access decision, and an unknown expiry.
pub open spec fn settings_error(builder: SettingsBuilder) -> Option<InputError> {
    if !valid_title(builder.title@) {
        Some(InputError::Title)
    } else if !valid_filename(builder.entry@) {
        Some(InputError::SettingsEntry)
    } else if builder.access is None {
        Some(InputError::Access)
    } else if expiry_choice(builder.expires_in@) is None {
        Some(InputError::Expiry)
    } else {
        None
    }
}

/// The rejection of settings with an access decision, by their texts.
pub open spec fn texts_error(title: Seq<char>, entry: Seq<char>, expires_in: Seq<char>) -> Option<
    InputError,
> {
    if !valid_title(title) {
        Some(InputError::Title)
    } else if !valid_filename(entry) {
        Some(InputError::SettingsEntry)
    } else if expiry_choice(expires_in) is None {
        Some(InputError::Expiry)
    } else {
        None
    }
}

/// Whether settings are what these texts and this access decision stand for.
pub open spec fn settings_of(
    settings: Settings,
    title: Seq<char>,
    entry: Seq<char>,
    expires_in: Seq<char>,
    access: AccessUpdate,
) -> bool {
    &&& settings.title@ == title
    &&& settings.entry@ == entry
    &&& settings.access == access
    &&& Some(settings.expiry) == expiry_choice(expires_in)
}

/// What is made of a settings form: its settings, or its first error.
pub open spec fn settings_built(
    builder: SettingsBuilder,
    r: Result<Settings, InputError>,
) -> bool {
    match r {
        Ok(settings) => {
            &&& settings_error(builder) is None
            &&& settings.title@ == builder.title@
            &&& settings.entry@ == builder.entry@
            &&& Some(settings.access) == builder.access
            &&& Some(settings.expiry) == expiry_choice(builder.expires_in@)
        },
        Err(error) => settings_error(builder) == Some(error),
    }
}

impl SettingsBuilder {
    /// Starts without metadata or a decision.
    pub fn new() -> (r: Self)
        ensures
            r.title@ == Seq::<char>::empty(),
            r.entry@ == Seq::<char>::empty(),
            r.access is None,
            r.expires_in@ == Seq::<char>::empty(),
    {
        SettingsBuilder {
            title: String::new(),
            entry: String::new(),
            access: None,
            expires_in: String::new(),
        }
    }

    /// Sets the optional title without trimming its content.
    pub fn title(self, title: String) -> (r: Self)
        ensures
            r == (SettingsBuilder { title, ..self }),
    {
        SettingsBuilder { title, ..self }
    }

    /// Selects an exact existing flat filename, without automatic fallback.
    pub fn entry(self, entry: String) -> (r: Self)
        ensures
            r == (SettingsBuilder { entry, ..self }),
    {
        SettingsBuilder { entry, ..self }
    }

    /// Selects opening, retaining the current password, or setting a fresh one.
    pub fn access(self, access: AccessUpdate) -> (r: Self)
        ensures
            r == (SettingsBuilder { access: Some(access), ..self }),
    {
        SettingsBuilder { access: Some(access), ..self }
    }

    /// Selects keeping, clearing, or resetting the expiry.
    pub fn expires_in(self, expires_in: String) -> (r: Self)
        ensures
            r == (SettingsBuilder { expires_in, ..self }),
    {
        SettingsBuilder { expires_in, ..self }
    }

    /// Validates text and entry shape before any mutation is admitted.
    pub fn build(self) -> (r: Result<Settings, InputError>)
        ensures
            settings_built(self, r),
    {
        let title: Title = match Title::parse(self.title) {
            Ok(title) => title,
            Err(error) => {
                return Err(error);
            },
        };
        let entry: Filename = match Filename::parse(self.entry) {
            Ok(entry) => entry,
            Err(_) => {
                return Err(InputError::SettingsEntry);
            },
        };
        let access: AccessUpdate = match self.access {
            Some(access) => access,
            None => {
                return Err(InputError::Access);
            },
        };
        let expiry: Expiry = match Expiry::parse(self.expires_in.as_str()) {
            Ok(expiry) => expiry,
            Err(error) => {
                return Err(error);
            },
        };
        Ok(Settings { title, entry, access, expiry })
    }
}

/// The credential that settings leave a site with: `None` where keeping one was
/// asked of a site without one.
pub open spec fn kept_password(access: AccessUpdate, current: Option<Password>) -> Option<
    Option<Password>,
> {
    match access {
        AccessUpdate::Open => Some(None),
        AccessUpdate::Keep => match current {
            Some(password) => Some(Some(password)),
            None => None,
        },
        AccessUpdate::Replace(password) => Some(Some(password)),
    }
}

/// Resolves the access intent against the latest committed credential.
pub fn resolve_password(access: AccessUpdate, current: Option<Password>) -> (r: Result<
    Option<Password>,
    AppError,
>)
    ensures
        match r {
            Ok(password) => kept_password(access, current) == Some(password),
            Err(error) => kept_password(access, current) is None && error == rejected(
                status::BAD_REQUEST,
                reject_message(InputError::Password),
            ),
        },
{
    match access {
        AccessUpdate::Open => Ok(None),
        AccessUpdate::Keep => match current {
            Some(password) => Ok(Some(password)),
            None => Err(InputError::Password.reject()),
        },
        AccessUpdate::Replace(password) => Ok(Some(password)),
    }
}

/// The expiry that a choice leads to at a given second.
pub open spec fn next_expiry(expiry: Expiry, current: Option<i64>, now: i64) -> Option<i64> {
    match expiry {
        Expiry::Keep => current,
        Expiry::Never => None,
        Expiry::After(seconds) => Some(after(now, seconds)),
    }
}

/// Resolves the expiry choice against the current row.
pub fn resolve_expiry(expiry: Expiry, current: Option<i64>, now: i64) -> (r: Option<i64>)
    ensures
        r == next_expiry(expiry, current, now),
{
    match expiry {
        Expiry::Keep => current,
        Expiry::Never => None,
        Expiry::After(seconds) => Some(seconds_after(now, seconds)),
    }
}

/// The row after a change of settings at a given second, by whether it leaves
/// the site with a password.
pub open spec fn updated_row(
    row: SiteView,
    settings: Settings,
    protected: bool,
    now: i64,
) -> SiteView {
    SiteView {
        title: settings.title@,
        entry: settings.entry@,
        protected,
        updated_at: now,
        expires_at: next_expiry(settings.expiry, row.expires_at, now),
        ..row
    }
}

/// The values that a change of settings saves in the row of its site.
pub struct SavedSettings {
    pub title: String,
    pub entry: String,
    /// The access mode, `open` or `password`.
    pub visibility: String,
    /// The credential of a site that is left protected.
    pub password: Option<Password>,
    pub updated_at: i64,
    pub expires_at: Option<i64>,
}

/// The row after these values are saved; it is protected where a credential is.
pub open spec fn saved_row(row: SiteView, saved: SavedSettings) -> SiteView {
    SiteView {
        title: saved.title@,
        entry: saved.entry@,
        protected: saved.password is Some,
        updated_at: saved.updated_at,
        expires_at: saved.expires_at,
        ..row
    }
}

/// The values to save for settings of a site at a given second.
pub open spec fn settings_resolved(
    settings: Settings,
    current: AccessSite,
    now: i64,
    r: Result<SavedSettings, AppError>,
) -> bool {
    match r {
        Ok(saved) => {
            &&& kept_password(settings.access, current.password) == Some(saved.password)
            &&& saved.visibility@ == if saved.password is Some {
                "password"@
            } else {
                "open"@
            }
            &&& forall|row: SiteView|
                row.expires_at == current.site.expires_at ==> #[trigger] saved_row(row, saved)
                    == updated_row(row, settings, saved.password is Some, now)
        },
        Err(error) => kept_password(settings.access, current.password) is None && error
            == rejected(status::BAD_REQUEST, reject_message(InputError::Password)),
    }
}

/// Resolves settings against the latest committed row and its credential into
/// the values to save at a given second. Keeping a password that a site does
/// not have is rejected.
pub fn saved_settings(settings: Settings, current: AccessSite, now: i64) -> (r: Result<
    SavedSettings,
    AppError,
>)
    ensures
        settings_resolved(settings, current, now, r),
{
    let expires_at: Option<i64> = resolve_expiry(settings.expiry, current.site.expires_at, now);
    let title: String = settings.title.as_str().to_owned();
    let entry: String = settings.entry.as_str().to_owned();
    match resolve_password(settings.access, current.password) {
        Err(error) => Err(error),
        Ok(password) => {
            let visibility: String = if password.is_some() {
                "password".to_owned()
            } else {
                "open".to_owned()
            };
            Ok(SavedSettings { title, entry, visibility, password, updated_at: now, expires_at })
        },
    }
}

/// A change of settings keeps the slug, the files with their number and size,
/// and the creation time; the site has a password afterwards exactly where one
/// was kept or set.
pub proof fn settings_keep_identity(
    row: SiteView,
    settings: Settings,
    current: Option<Password>,
    now: i64,
)
    requires
        kept_password(settings.access, current) is Some,
    ensures
        ({
            let protected = kept_password(settings.access, current)->0 is Some;
            let saved = updated_row(row, settings, protected, now);
            &&& saved.slug == row.slug
            &&& saved.file_count == row.file_count
            &&& saved.size_bytes == row.size_bytes
            &&& saved.created_at == row.created_at
            &&& saved.protected <==> !(settings.access is Open)
            &&& settings.access is Keep ==> kept_password(settings.access, current) == Some(current)
            &&& settings.expiry is Keep ==> saved.expires_at == row.expires_at
        }),
{
}

/// What is to be done next for one change of settings.
#[derive(Clone, Copy, Debug, PartialEq, Eq, Structural)]
pub enum UpdateStep {
    /// Wait until no other mutation runs.
    Lock,
    /// Read the row and its credential.
    ReadAccess,
    /// Check that the storage directories are directories.
    CheckStorage,
    /// Check that the site directory is a directory.
    CheckDirectory,
    /// See whether the entry is a regular file, without following a link.
    StatEntry,
    /// Read the clock.
    ReadClock,
    /// Save the row, and see whether exactly one row changed.
    Save,
    /// Read the saved row back.
    ReadDetails,
    /// Nothing more is to be done.
    Finished,
}

/// How a step came out.
#[derive(Clone, Copy, Debug, PartialEq, Eq, Structural)]
pub enum UpdateEvent {
    /// It was done; an open site was read.
    Done,
    /// A protected site was read.
    Protected,
    /// There is no such row, file, or change.
    Absent,
    /// It failed.
    Failed,
}

/// One change of settings on its way.
pub struct Updating {
    /// What is to be done next.
    pub step: UpdateStep,
    /// The change keeps the current password.
    pub keeps_password: bool,
    /// Whether the site was there to change, once that is decided.
    pub outcome: Option<Result<bool, AppError>>,
}

pub open spec fn update_goes(p: Updating, step: UpdateStep) -> Updating {
    Updating { step, ..p }
}

pub open spec fn update_ends(p: Updating, outcome: Result<bool, AppError>) -> Updating {
    Updating { step: UpdateStep::Finished, outcome: Some(outcome), ..p }
}

/// What follows from how a step came out.
pub open spec fn updating_next(p: Updating, event: UpdateEvent) -> Updating {
    match (p.step, event) {
        (UpdateStep::Lock, _) => update_goes(p, UpdateStep::ReadAccess),
        (UpdateStep::ReadAccess, UpdateEvent::Absent) => update_ends(p, Ok(false)),
        (UpdateStep::ReadAccess, UpdateEvent::Protected) => update_goes(
            p,
            UpdateStep::CheckStorage,
        ),
        (UpdateStep::ReadAccess, UpdateEvent::Done) => if p.keeps_password {
            update_ends(
                p,
                Err(rejected(status::BAD_REQUEST, reject_message(InputError::Password))),
            )
        } else {
            update_goes(p, UpdateStep::CheckStorage)
        },
        (UpdateStep::CheckStorage, UpdateEvent::Done) => update_goes(
            p,
            UpdateStep::CheckDirectory,
        ),
        (UpdateStep::CheckDirectory, UpdateEvent::Done) => update_goes(p, UpdateStep::StatEntry),
        (UpdateStep::StatEntry, UpdateEvent::Done) => update_goes(p, UpdateStep::ReadClock),
        (UpdateStep::StatEntry, UpdateEvent::Absent) => update_ends(
            p,
            Err(rejected(status::BAD_REQUEST, reject_message(InputError::SettingsEntry))),
        ),
        (UpdateStep::ReadClock, UpdateEvent::Done) => update_goes(p, UpdateStep::Save),
        (UpdateStep::Save, UpdateEvent::Done) => update_goes(p, UpdateStep::ReadDetails),
        (UpdateStep::ReadDetails, UpdateEvent::Done) => update_ends(p, Ok(true)),
        (UpdateStep::Finished, _) => p,
        _ => update_ends(p, Err(publishing_failure())),
    }
}

/// The start of a change of settings.
pub open spec fn updating_start(keeps_password: bool) -> Updating {
    Updating { step: UpdateStep::Lock, keeps_password, outcome: None }
}

impl Updating {
    /// Starts a change to validated settings.
    pub fn new(settings: &Settings) -> (r: Self)
        ensures
            r == updating_start(settings.access is Keep),
    {
        let keeps_password: bool = match settings.access {
            AccessUpdate::Keep => true,
            _ => false,
        };
        Updating { step: UpdateStep::Lock, keeps_password, outcome: None }
    }

    fn go(self, step: UpdateStep) -> (r: Self)
        ensures
            r == update_goes(self, step),
    {
        Updating { step, ..self }
    }

    fn end(self, outcome: Result<bool, AppError>) -> (r: Self)
        ensures
            r == update_ends(self, outcome),
    {
        Updating { step: UpdateStep::Finished, outcome: Some(outcome), ..self }
    }

    /// Decides on the next step by how the last one came out.
    pub fn next(self, event: UpdateEvent) -> (r: Self)
        ensures
            r == updating_next(self, event),
    {
        match (self.step, event) {
            (UpdateStep::Lock, _) => self.go(UpdateStep::ReadAccess),
            (UpdateStep::ReadAccess, UpdateEvent::Absent) => self.end(Ok(false)),
            (UpdateStep::ReadAccess, UpdateEvent::Protected) => self.go(UpdateStep::CheckStorage),
            (UpdateStep::ReadAccess, UpdateEvent::Done) => {
                if self.keeps_password {
                    self.end(Err(InputError::Password.reject()))
                } else {
                    self.go(UpdateStep::CheckStorage)
                }
            },
            (UpdateStep::CheckStorage, UpdateEvent::Done) => self.go(UpdateStep::CheckDirectory),
            (UpdateStep::CheckDirectory, UpdateEvent::Done) => self.go(UpdateStep::StatEntry),
            (UpdateStep::StatEntry, UpdateEvent::Done) => self.go(UpdateStep::ReadClock),
            (UpdateStep::StatEntry, UpdateEvent::Absent) => self.end(
                Err(InputError::SettingsEntry.reject()),
            ),
            (UpdateStep::ReadClock, UpdateEvent::Done) => self.go(UpdateStep::Save),
            (UpdateStep::Save, UpdateEvent::Done) => self.go(UpdateStep::ReadDetails),
            (UpdateStep::ReadDetails, UpdateEvent::Done) => self.end(Ok(true)),
            (UpdateStep::Finished, _) => self,
            _ => self.end(Err(AppError::publishing())),
        }
    }
}

/// The change of settings after a row of events, with whether the save was
/// acknowledged and whether the site was seen to be protected.
pub open spec fn updating_run(p: Updating, events: Seq<UpdateEvent>) -> (Updating, bool, bool)
    decreases events.len(),
{
    if events.len() == 0 {
        (p, false, false)
    } else {
        let (before, saved, protected) = updating_run(p, events.drop_last());
        let event = events.last();
        (
            updating_next(before, event),
            saved || (before.step == UpdateStep::Save && event == UpdateEvent::Done),
            protected || (before.step == UpdateStep::ReadAccess && event == UpdateEvent::Protected),
        )
    }
}

/// A change of settings is claimed only where the save was acknowledged and
/// read back, an absent site is not touched, and a password is kept only on a
/// site that has one.
pub proof fn settings_are_saved_before_success(keeps_password: bool, events: Seq<UpdateEvent>)
    ensures
        ({
            let (p, saved, protected) = updating_run(updating_start(keeps_password), events);
            &&& p.outcome == Some(Ok::<bool, AppError>(true)) ==> saved
            &&& p.outcome == Some(Ok::<bool, AppError>(false)) ==> !saved
            &&& saved && keeps_password ==> protected
            &&& p.step == UpdateStep::Finished <==> p.outcome is Some
            &&& p.step == UpdateStep::Lock || p.step == UpdateStep::ReadAccess ==> !saved
                && !protected
            &&& p.step == UpdateStep::ReadDetails ==> saved
            &&& keeps_password && (p.step == UpdateStep::CheckStorage || p.step
                == UpdateStep::CheckDirectory || p.step == UpdateStep::StatEntry || p.step
                == UpdateStep::ReadClock || p.step == UpdateStep::Save) ==> protected
            &&& p.keeps_password == keeps_password
        }),
    decreases events.len(),
{
    if events.len() > 0 {
        settings_are_saved_before_success(keeps_password, events.drop_last());
    }
}

}
