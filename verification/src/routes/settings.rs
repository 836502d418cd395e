//! Verified metadata updates and truthful native detail recovery.
use crate::auth::password::Password;
use crate::auth::sessions::{
    expiring_twice, form_accepted, live_at, SessionView, Sessions,
};
use crate::auth::tokens::text_view;
use crate::config::{password_allowed, valid_password};
use crate::error::{rejected, AppError};
use crate::routes::forms::{
    form_values, settings_fields, settings_read, text_or, RawForm, SettingsForm, Values,
};
use crate::routes::management::AdminSite;
use crate::routes::publishing::{detail_link, detail_url};
use crate::routes::reply::{
    error_status, feedback, feedback_text, is_server_error, page, redirects, server_error, shows,
    Reply,
};
use crate::routes::{forbidden, invalid_form, unverified};
use crate::sites::new_site::{error_field, form_message, reject_message, InputError};
use crate::sites::settings::{settings_of, texts_error, AccessUpdate, Settings, SettingsBuilder};
use crate::status;
use crate::text::{chars_of, has_prefix, same, starts_with};
use vstd::prelude::*;

verus! {

/// What an access choice and a password ask for.
#[derive(Clone, Copy, Debug, PartialEq, Eq, Structural)]
pub enum Intent {
    /// No protection.
    Open,
    /// The current password.
    Keep,
    /// A new password, to be hashed.
    Hash,
}

/// What an access choice and a password ask for, or why they cannot.
pub open spec fn access_intent(visibility: Seq<char>, password: Seq<char>) -> Result<
    Intent,
    AppError,
> {
    if visibility == "open"@ {
        if password.len() == 0 {
            Ok(Intent::Open)
        } else {
            Err(
                rejected(
                    status::BAD_REQUEST,
                    "Choose Password access to set a password, or clear the password field.",
                ),
            )
        }
    } else if visibility == "password"@ {
        if password.len() == 0 {
            Ok(Intent::Keep)
        } else if password_allowed(password) {
            Ok(Intent::Hash)
        } else {
            Err(rejected(status::BAD_REQUEST, "Invalid site password."))
        }
    } else {
        Err(rejected(status::BAD_REQUEST, reject_message(InputError::Access)))
    }
}

/// Prepares explicit access intent without deciding against a stale site row.
///
/// Creation must reject keeping; settings resolve it under the mutation lock.
/// The caller must authenticate and verify the complete form before hashing.
pub fn intend(visibility: &str, password: &str) -> (r: Result<Intent, AppError>)
    ensures
        r == access_intent(visibility@, password@),
{
    let chars: Vec<char> = chars_of(password);
    if same(visibility, "open") {
        if chars.len() == 0 {
            Ok(Intent::Open)
        } else {
            Err(
                AppError::request(
                    status::BAD_REQUEST,
                    "Choose Password access to set a password, or clear the password field.",
                ),
            )
        }
    } else if same(visibility, "password") {
        if chars.len() == 0 {
            Ok(Intent::Keep)
        } else if valid_password(password) {
            Ok(Intent::Hash)
        } else {
            Err(AppError::request(status::BAD_REQUEST, "Invalid site password."))
        }
    } else {
        Err(InputError::Access.reject())
    }
}

/// The only access field that can explain credential preparation.
pub open spec fn access_field(visibility: Seq<char>) -> &'static str {
    if visibility == "open"@ || visibility == "password"@ {
        "password"
    } else {
        "visibility"
    }
}

/// Identifies the only access field that can explain credential preparation.
pub fn field(visibility: &str) -> (r: &'static str)
    ensures
        r == access_field(visibility@),
{
    if same(visibility, "open") || same(visibility, "password") {
        "password"
    } else {
        "visibility"
    }
}

/// How a failed preparation of an access change is presented.
pub open spec fn prepare_failure(error: AppError, visibility: Seq<char>, reply: Reply) -> bool {
    shows(
        reply,
        error_status(error),
        if server_error(error_status(error)) {
            "Password protection could not be prepared. Try again."@
        } else {
            feedback_text(error)
        },
        Some(access_field(visibility)@),
    )
}

/// Presents a failed preparation of an access change.
pub fn preparation_failed(error: AppError, visibility: &str) -> (r: Reply)
    ensures
        prepare_failure(error, visibility@, r),
{
    let (status, message): (u16, String) = feedback(error);
    if is_server_error(status) {
        page(
            status,
            "Password protection could not be prepared. Try again.",
            Some(field(visibility)),
        )
    } else {
        page(status, message.as_str(), Some(field(visibility)))
    }
}

/// How a rejected change of settings is presented, acknowledging uncertain
/// outcomes.
pub open spec fn settings_rejected(error: AppError, reply: Reply) -> bool {
    if error_status(error) == status::FORBIDDEN {
        reply == Reply::Failed(unverified())
    } else {
        shows(
            reply,
            error_status(error),
            if server_error(error_status(error)) {
                "Settings could not be confirmed. Reopen this site's details before retrying."@
            } else {
                feedback_text(error)
            },
            None,
        )
    }
}

/// Keeps HTTP status and nonsecret text while acknowledging uncertain outcomes.
pub fn reject(error: AppError) -> (r: Reply)
    ensures
        settings_rejected(error, r),
{
    let (status, message): (u16, String) = feedback(error);
    if status == status::FORBIDDEN {
        Reply::Failed(forbidden())
    } else if is_server_error(status) {
        page(
            status,
            "Settings could not be confirmed. Reopen this site's details before retrying.",
            None,
        )
    } else {
        page(status, message.as_str(), None)
    }
}

/// A form shows the current settings of a site, without its password.
pub open spec fn shows_current(site: AdminSite, form: SettingsForm) -> bool {
    &&& form.csrf_token@ == Seq::<char>::empty()
    &&& form.title@ == site.title@
    &&& form.entry@ == site.entry@
    &&& form.visibility@ == site.visibility@
    &&& form.password@ == Seq::<char>::empty()
    &&& form.expires_in@ == if site.expires@ == "Never"@ {
        "never"@
    } else {
        "keep"@
    }
}

impl SettingsForm {
    /// Initializes editable fields from current metadata without a password.
    pub fn from_site(site: &AdminSite) -> (r: Self)
        ensures
            shows_current(*site, r),
    {
        let expires_in: &'static str = if same(site.expires.as_str(), "Never") {
            "never"
        } else {
            "keep"
        };
        SettingsForm {
            csrf_token: String::new(),
            title: site.title.as_str().to_owned(),
            entry: site.entry.as_str().to_owned(),
            visibility: site.visibility.as_str().to_owned(),
            password: String::new(),
            expires_in: expires_in.to_owned(),
        }
    }
}

/// A request to change the settings of a site in a live session.
pub struct SettingsRequest {
    pub session_id: String,
    /// The site whose settings change.
    pub slug: String,
    /// The form that the page shows: that of the current settings until the
    /// submitted one was read.
    pub form: SettingsForm,
}

/// What is to be done next for a change of settings.
pub enum SettingsStep {
    /// The request is answered without a change.
    Reply(Reply),
    /// A password is hashed on a bounded worker.
    Hash(String),
    /// The settings are saved.
    Save(Settings),
}

/// The values of a settings form that is complete.
pub open spec fn settings_values(form: Result<RawForm, AppError>) -> Result<Values, AppError> {
    match form {
        Err(error) => Err(error),
        Ok(raw) => match form_values(raw, settings_fields()) {
            Err(error) => Err(error),
            Ok(values) => if values[0] is None {
                Err(unverified())
            } else if values[1] is None || values[2] is None || values[3] is None {
                Err(invalid_form())
            } else {
                Ok(values)
            },
        },
    }
}

/// What follows once the access decision is known: the texts must be valid, and
/// the session must still be live.
pub open spec fn settings_access(
    access: AccessUpdate,
    form: SettingsForm,
    session_id: Seq<char>,
    store: Map<Seq<char>, SessionView>,
    now: u64,
    step: SettingsStep,
) -> bool {
    match texts_error(form.title@, form.entry@, form.expires_in@) {
        Some(error) => step matches SettingsStep::Reply(reply) && shows(
            reply,
            status::BAD_REQUEST,
            form_message(error)@,
            Some(error_field(error)@),
        ),
        None => if form_accepted(store, session_id, form.csrf_token@, now) {
            step matches SettingsStep::Save(settings) && settings_of(
                settings,
                form.title@,
                form.entry@,
                form.expires_in@,
                access,
            )
        } else {
            step == SettingsStep::Reply(Reply::Failed(unverified()))
        },
    }
}

/// What a submitted settings form comes to.
pub open spec fn settings_submitted(
    form: Result<RawForm, AppError>,
    kept: SettingsForm,
    session_id: Seq<char>,
    store: Map<Seq<char>, SessionView>,
    now: u64,
    step: SettingsStep,
) -> bool {
    match settings_values(form) {
        Err(error) => step matches SettingsStep::Reply(reply) && settings_rejected(error, reply),
        Ok(values) => if !form_accepted(store, session_id, values[0]->0, now) {
            step == SettingsStep::Reply(Reply::Failed(unverified()))
        } else {
            match access_intent(values[3]->0, text_or(values[4], ""@)) {
                Err(error) => step matches SettingsStep::Reply(reply) && prepare_failure(
                    error,
                    values[3]->0,
                    reply,
                ),
                Ok(Intent::Open) => settings_access(
                    AccessUpdate::Open,
                    kept,
                    session_id,
                    store,
                    now,
                    step,
                ),
                Ok(Intent::Keep) => settings_access(
                    AccessUpdate::Keep,
                    kept,
                    session_id,
                    store,
                    now,
                    step,
                ),
                Ok(Intent::Hash) => step matches SettingsStep::Hash(password) && password@
                    == text_or(values[4], ""@),
            }
        },
    }
}

/// Whether a form shows what was submitted, without the password.
pub open spec fn shows_submitted(values: Values, form: SettingsForm) -> bool {
    &&& values[0] == Some(form.csrf_token@)
    &&& values[1] == Some(form.title@)
    &&& values[2] == Some(form.entry@)
    &&& values[3] == Some(form.visibility@)
    &&& form.password@.len() == 0
    &&& form.expires_in@ == text_or(values[5], "keep"@)
}

/// The answer to a change of a site's settings by how it came out.
pub open spec fn saving_reply(
    outcome: Result<bool, AppError>,
    slug: Seq<char>,
    reply: Reply,
) -> bool {
    match outcome {
        Ok(true) => redirects(reply, detail_url(slug, "?notice=saved"@)),
        Ok(false) => reply == Reply::NotFound,
        Err(error) => settings_rejected(error, reply),
    }
}

/// How a change of settings goes on after its password was hashed.
pub open spec fn settings_hashed(
    hashed: Result<Password, AppError>,
    form: SettingsForm,
    session_id: Seq<char>,
    store: Map<Seq<char>, SessionView>,
    now: u64,
    step: SettingsStep,
) -> bool {
    match hashed {
        Err(error) => step matches SettingsStep::Reply(reply) && prepare_failure(
            error,
            form.visibility@,
            reply,
        ),
        Ok(password) => settings_access(
            AccessUpdate::Replace(password),
            form,
            session_id,
            store,
            now,
            step,
        ),
    }
}

impl SettingsRequest {
    fn decide(&self, access: AccessUpdate, sessions: &mut Sessions, now: u64) -> (r: SettingsStep)
        ensures
            settings_access(access, self.form, self.session_id@, old(sessions)@, now, r),
            final(sessions)@ == if texts_error(
                self.form.title@,
                self.form.entry@,
                self.form.expires_in@,
            ) is None {
                live_at(old(sessions)@, now)
            } else {
                old(sessions)@
            },
    {
        let built: Result<Settings, InputError> = SettingsBuilder::new().title(
            self.form.title.as_str().to_owned(),
        ).entry(self.form.entry.as_str().to_owned()).expires_in(
            self.form.expires_in.as_str().to_owned(),
        ).access(access).build();
        match built {
            Err(error) => SettingsStep::Reply(
                page(status::BAD_REQUEST, error.message(), Some(error.field())),
            ),
            Ok(settings) => {
                if sessions.verify_at(
                    self.session_id.as_str(),
                    self.form.csrf_token.as_str(),
                    now,
                ) {
                    SettingsStep::Save(settings)
                } else {
                    SettingsStep::Reply(Reply::Failed(forbidden()))
                }
            },
        }
    }

    /// Decides on a submitted settings form: it must be complete and verified
    /// before anything is hashed or saved.
    pub fn submit(&mut self, form: Result<RawForm, AppError>, sessions: &mut Sessions, now: u64) -> (r:
        SettingsStep)
        ensures
            settings_submitted(
                form,
                final(self).form,
                old(self).session_id@,
                old(sessions)@,
                now,
                r,
            ),
            match settings_values(form) {
                Err(_) => final(self).form == old(self).form,
                Ok(values) => shows_submitted(values, final(self).form),
            },
            final(self).session_id == old(self).session_id,
            final(self).slug == old(self).slug,
            final(sessions)@ == if settings_values(form) is Ok {
                live_at(old(sessions)@, now)
            } else {
                old(sessions)@
            },
    {
        let read: Result<SettingsForm, AppError> = match form {
            Err(error) => Err(error),
            Ok(raw) => SettingsForm::read(raw),
        };
        let mut submitted: SettingsForm = match read {
            Err(error) => {
                return SettingsStep::Reply(reject(error));
            },
            Ok(submitted) => submitted,
        };
        let ghost values = settings_values(form)->Ok_0;
        proof {
            expiring_twice(sessions@, now);
        }
        assert(settings_read(values, submitted));
        let mut password: String = String::new();
        std::mem::swap(&mut password, &mut submitted.password);
        self.form = submitted;
        if !sessions.verify_at(
            self.session_id.as_str(),
            self.form.csrf_token.as_str(),
            now,
        ) {
            return SettingsStep::Reply(Reply::Failed(forbidden()));
        }
        match intend(self.form.visibility.as_str(), password.as_str()) {
            Err(error) => SettingsStep::Reply(
                preparation_failed(error, self.form.visibility.as_str()),
            ),
            Ok(Intent::Open) => self.decide(AccessUpdate::Open, sessions, now),
            Ok(Intent::Keep) => self.decide(AccessUpdate::Keep, sessions, now),
            Ok(Intent::Hash) => SettingsStep::Hash(password),
        }
    }

    /// Decides on the change once the password was hashed, in a session that
    /// must still be live.
    pub fn hashed(&self, hashed: Result<Password, AppError>, sessions: &mut Sessions, now: u64) -> (r:
        SettingsStep)
        ensures
            settings_hashed(hashed, self.form, self.session_id@, old(sessions)@, now, r),
            final(sessions)@ == if hashed is Ok && texts_error(
                self.form.title@,
                self.form.entry@,
                self.form.expires_in@,
            ) is None {
                live_at(old(sessions)@, now)
            } else {
                old(sessions)@
            },
    {
        match hashed {
            Err(error) => SettingsStep::Reply(
                preparation_failed(error, self.form.visibility.as_str()),
            ),
            Ok(password) => self.decide(AccessUpdate::Replace(password), sessions, now),
        }
    }

    /// Answers a change of settings by how it came out.
    pub fn saved(&self, outcome: Result<bool, AppError>) -> (r: Reply)
        ensures
            saving_reply(outcome, self.slug@, r),
    {
        match outcome {
            Ok(true) => Reply::Redirect(detail_link(self.slug.as_str(), "?notice=saved")),
            Ok(false) => Reply::NotFound,
            Err(error) => reject(error),
        }
    }
}

/// Settings are saved only in a session that is live when the change is decided
/// on, with that session's own form token.
pub proof fn changes_need_a_live_session(
    form: Result<RawForm, AppError>,
    kept: SettingsForm,
    session_id: Seq<char>,
    store: Map<Seq<char>, SessionView>,
    now: u64,
    step: SettingsStep,
)
    requires
        settings_submitted(form, kept, session_id, store, now, step),
        step is Save || step is Hash,
    ensures
        settings_values(form) matches Ok(values) && form_accepted(
            store,
            session_id,
            values[0]->0,
            now,
        ),
{
}

/// A password that was waiting to be hashed does not outlive its session:
/// where the session was revoked meanwhile, nothing is saved.
pub proof fn revoked_sessions_save_nothing(
    access: AccessUpdate,
    form: SettingsForm,
    session_id: Seq<char>,
    store: Map<Seq<char>, SessionView>,
    now: u64,
    step: SettingsStep,
)
    requires
        settings_access(access, form, session_id, store, now, step),
        !form_accepted(store, session_id, form.csrf_token@, now),
    ensures
        !(step is Save),
{
}

/// Keeps unrecognized settings errors visible above the settings fields.
pub open spec fn general_settings(field: Option<Seq<char>>) -> bool {
    match field {
        None => true,
        Some(name) => !(name == "title"@ || name == "entry"@ || name == "visibility"@ || name
            == "password"@ || name == "expires_in"@ || has_prefix(name, "replace"@)),
    }
}

/// Keeps unrecognized settings errors visible above the settings fields.
pub fn general_settings_error(field: Option<&str>) -> (r: bool)
    ensures
        r == general_settings(text_view(field)),
{
    match field {
        None => true,
        Some(name) => !(same(name, "title") || same(name, "entry") || same(name, "visibility")
            || same(name, "password") || same(name, "expires_in") || belongs_to_replacement(name)),
    }
}

fn belongs_to_replacement(name: &str) -> (r: bool)
    ensures
        r == has_prefix(name@, "replace"@),
{
    let chars: Vec<char> = chars_of(name);
    let prefix: Vec<char> = chars_of("replace");
    starts_with(chars.as_slice(), prefix.as_slice())
}

/// Shows a replacement error above its inputs when no input owns it.
pub fn general_replace_error(field: Option<&str>) -> (r: bool)
    ensures
        r == (text_view(field) == Some("replace"@)),
{
    match field {
        None => false,
        Some(name) => same(name, "replace"),
    }
}

/// The input of the replace section that an error belongs to.
pub open spec fn replace_field(field: Option<Seq<char>>) -> Option<Seq<char>> {
    match field {
        Some(name) if has_prefix(name, "replace-"@) => Some(name.skip("replace-"@.len() as int)),
        _ => None,
    }
}

/// Routes a replacement error to the input inside the replace section.
pub fn replace_invalid_field(field: Option<&str>) -> (r: Option<String>)
    ensures
        crate::sites::new_site::optional_text(r) == replace_field(text_view(field)),
{
    match field {
        None => None,
        Some(name) => {
            let chars: Vec<char> = chars_of(name);
            let prefix: Vec<char> = chars_of("replace-");
            if starts_with(chars.as_slice(), prefix.as_slice()) {
                let rest: &[char] = vstd::slice::slice_subrange(
                    chars.as_slice(),
                    prefix.len(),
                    chars.len(),
                );
                assert(rest@ =~= name@.skip("replace-"@.len() as int));
                Some(crate::text::string_of(rest))
            } else {
                None
            }
        },
    }
}

/// The feedback that belongs to the replace inputs.
pub open spec fn replacement_message(message: Option<Seq<char>>, field: Option<Seq<char>>) -> Option<
    Seq<char>,
> {
    match field {
        Some(name) if has_prefix(name, "replace"@) => message,
        _ => None,
    }
}

/// Passes feedback to the replace inputs only when it belongs to them.
pub fn replace_error_message<'a>(message: Option<&'a str>, field: Option<&str>) -> (r: Option<
    &'a str,
>)
    ensures
        text_view(r) == replacement_message(text_view(message), text_view(field)),
{
    match field {
        None => None,
        Some(name) => {
            if belongs_to_replacement(name) {
                message
            } else {
                None
            }
        },
    }
}

/// An error of a replacement input comes out at that input of the replace
/// section, and never among the settings.
pub proof fn replacement_errors_stay_in_their_section(error: InputError)
    ensures
        replace_field(Some("replace-"@ + error_field(error)@)) == Some(error_field(error)@),
        !general_settings(Some("replace-"@ + error_field(error)@)),
{
    reveal_strlit("replace-");
    reveal_strlit("replace");
    let name = "replace-"@ + error_field(error)@;
    assert(name.take(8) =~= "replace-"@);
    assert(name.skip(8) =~= error_field(error)@);
    assert(name.take(7) =~= "replace"@);
}

}
