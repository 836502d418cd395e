//! Bounded multipart forms read from a complete, capped body.
use crate::config::MAX_PASSWORD_BYTES;
use crate::error::{rejected, AppError};
use crate::routes::{
    forbidden, invalid, invalid_form, multipart_error, unverified, CSRF_FIELD_BYTES,
    METADATA_FIELD_BYTES,
};
use crate::sites::new_site::optional_text;
use crate::status;
use crate::text::{from_utf8, same, utf8_text};
use vstd::prelude::*;

verus! {

/// One multipart field as it arrived.
pub struct RawField {
    /// The field name, where there is one.
    pub name: Option<String>,
    /// The file name, where there is one.
    pub file_name: Option<String>,
    /// The bytes that arrived.
    pub bytes: Vec<u8>,
    /// The status of a transport failure that cut the bytes off.
    pub broken: Option<u16>,
}

/// Name, file name, bytes and transport failure of a field.
pub type FieldView = (Option<Seq<char>>, Option<Seq<char>>, Seq<u8>, Option<u16>);

impl RawField {
    /// The field as mathematical values.
    pub open spec fn view(&self) -> FieldView {
        (optional_text(self.name), optional_text(self.file_name), self.bytes@, self.broken)
    }
}

/// A multipart form as it arrived: its fields, and the status of a transport
/// failure in place of a further field.
pub struct RawForm {
    pub fields: Vec<RawField>,
    pub broken: Option<u16>,
}

/// The fields as mathematical values.
pub open spec fn field_views(fields: Seq<RawField>) -> Seq<FieldView> {
    Seq::new(fields.len(), |i: int| fields[i]@)
}

/// The rejection of a field beyond its bound.
pub open spec fn oversized_field() -> AppError {
    rejected(status::PAYLOAD_TOO_LARGE, "form field is too large")
}

/// The text of a scalar field: within its bound, complete, and UTF-8.
pub open spec fn scalar_text(field: FieldView, limit: nat) -> Result<Seq<char>, AppError> {
    if field.2.len() > limit {
        Err(oversized_field())
    } else {
        match field.3 {
            Some(status) => Err(rejected(status, "invalid form submission")),
            None => match utf8_text(field.2) {
                Some(text) => Ok(text),
                None => Err(invalid_form()),
            },
        }
    }
}

/// Reads the text of a scalar field.
pub fn scalar(bytes: Vec<u8>, broken: Option<u16>, limit: usize) -> (r: Result<String, AppError>)
    ensures
        (match r {
            Ok(text) => Ok(text@),
            Err(error) => Err(error),
        }) == scalar_text((None, None, bytes@, broken), limit as nat),
{
    if bytes.len() > limit {
        return Err(
            AppError::request(status::PAYLOAD_TOO_LARGE, "form field is too large"),
        );
    }
    match broken {
        Some(status) => Err(multipart_error(status)),
        None => match from_utf8(bytes) {
            Some(text) => Ok(text),
            None => Err(invalid()),
        },
    }
}

/// Field names and their bounds.
pub type Allowed = Seq<(Seq<char>, usize)>;

/// The allowed fields as mathematical values.
pub open spec fn allowed_views(allowed: Seq<(&'static str, usize)>) -> Allowed {
    Seq::new(allowed.len(), |i: int| (allowed[i].0@, allowed[i].1))
}

/// The first allowed field of this name, or the number of allowed fields.
pub open spec fn slot(allowed: Allowed, name: Seq<char>) -> int
    decreases allowed.len(),
{
    if allowed.len() == 0 || allowed[0].0 == name {
        0
    } else {
        1 + slot(allowed.skip(1), name)
    }
}

proof fn slot_unique(allowed: Allowed, name: Seq<char>, at: int)
    requires
        0 <= at <= allowed.len(),
        at < allowed.len() ==> allowed[at].0 == name,
        forall|j: int| 0 <= j < at ==> (#[trigger] allowed[j]).0 != name,
    ensures
        slot(allowed, name) == at,
    decreases allowed.len(),
{
    if allowed.len() > 0 && allowed[0].0 != name {
        let rest = allowed.skip(1);
        assert forall|j: int| 0 <= j < at - 1 implies (#[trigger] rest[j]).0 != name by {
            assert(rest[j] == allowed[j + 1]);
        }
        slot_unique(rest, name, at - 1);
    }
}

/// The values of the allowed fields.
pub type Values = Seq<Option<Seq<char>>>;

/// What one more field makes of the values: it must be allowed, come once,
/// carry no file name, and be text within its bound.
pub open spec fn field_added(values: Values, field: FieldView, allowed: Allowed) -> Result<
    Values,
    AppError,
> {
    match field.0 {
        None => Err(invalid_form()),
        Some(name) => {
            let at = slot(allowed, name);
            if at >= allowed.len() || field.1 is Some || values[at] is Some {
                Err(invalid_form())
            } else {
                match scalar_text(field, allowed[at].1 as nat) {
                    Ok(text) => Ok(values.update(at, Some(text))),
                    Err(error) => Err(error),
                }
            }
        },
    }
}

/// The values after the first fields, or the first rejection.
pub open spec fn fields_after(fields: Seq<FieldView>, allowed: Allowed) -> Result<Values, AppError>
    decreases fields.len(),
{
    if fields.len() == 0 {
        Ok(Seq::new(allowed.len(), |i: int| None::<Seq<char>>))
    } else {
        match fields_after(fields.drop_last(), allowed) {
            Err(error) => Err(error),
            Ok(values) => field_added(values, fields.last(), allowed),
        }
    }
}

proof fn fields_error_stays(fields: Seq<FieldView>, allowed: Allowed, n: int)
    requires
        0 <= n <= fields.len(),
        fields_after(fields.take(n), allowed) is Err,
    ensures
        fields_after(fields, allowed) == fields_after(fields.take(n), allowed),
    decreases fields.len() - n,
{
    if n == fields.len() {
        assert(fields.take(n) =~= fields);
    } else {
        assert(fields.take(n + 1).drop_last() =~= fields.take(n));
        fields_error_stays(fields, allowed, n + 1);
    }
}

/// The values of a form, or its rejection.
pub open spec fn form_values(form: RawForm, allowed: Allowed) -> Result<Values, AppError> {
    match fields_after(field_views(form.fields@), allowed) {
        Err(error) => Err(error),
        Ok(values) => match form.broken {
            Some(status) => Err(rejected(status, "invalid form submission")),
            None => Ok(values),
        },
    }
}

/// The texts of optional strings.
pub open spec fn value_views(values: Seq<Option<String>>) -> Values {
    Seq::new(values.len(), |i: int| optional_text(values[i]))
}

fn find_slot(allowed: &[(&'static str, usize)], name: &str) -> (r: usize)
    ensures
        r == slot(allowed_views(allowed@), name@),
        r <= allowed@.len(),
{
    let ghost texts = allowed_views(allowed@);
    let mut i: usize = 0;
    while i < allowed.len()
        invariant
            i <= allowed@.len(),
            texts == allowed_views(allowed@),
            forall|j: int| 0 <= j < i ==> (#[trigger] texts[j]).0 != name@,
        decreases allowed@.len() - i,
    {
        if same(allowed[i].0, name) {
            proof {
                slot_unique(texts, name@, i as int);
            }
            return i;
        }
        i = i + 1;
    }
    proof {
        slot_unique(texts, name@, i as int);
    }
    i
}

/// Reads an explicit scalar field whitelist from the complete capped body; the
/// values stand in the order of the whitelist.
pub fn read_fields(form: RawForm, allowed: &[(&'static str, usize)]) -> (r: Result<
    Vec<Option<String>>,
    AppError,
>)
    ensures
        (match r {
            Ok(values) => Ok(value_views(values@)),
            Err(error) => Err(error),
        }) == form_values(form, allowed_views(allowed@)),
        r matches Ok(values) ==> values@.len() == allowed@.len(),
{
    let ghost all = field_views(form.fields@);
    let ghost names = allowed_views(allowed@);
    let broken: Option<u16> = form.broken;
    let mut values: Vec<Option<String>> = Vec::new();
    let mut k: usize = 0;
    while k < allowed.len()
        invariant
            k <= allowed@.len(),
            values@.len() == k,
            forall|j: int| 0 <= j < k ==> (#[trigger] values@[j]) is None,
        decreases allowed@.len() - k,
    {
        values.push(None);
        k = k + 1;
    }
    assert(value_views(values@) =~= Seq::new(names.len(), |i: int| None::<Seq<char>>));
    for field in it: form.fields.into_iter()
        invariant
            it.seq() == form.fields@,
            all == field_views(form.fields@),
            names == allowed_views(allowed@),
            values@.len() == allowed@.len(),
            fields_after(all.take(it.index() as int), names) == Ok::<Values, AppError>(
                value_views(values@),
            ),
    {
        let ghost i = it.index() as int;
        let ghost before = value_views(values@);
        let ghost seen = field@;
        proof {
            assert(all[i] == field@);
            assert(all.take(i + 1).drop_last() =~= all.take(i));
            assert(fields_after(all.take(i + 1), names) == field_added(before, field@, names));
            if fields_after(all.take(i + 1), names) is Err {
                fields_error_stays(all, names, i + 1);
            }
        }
        let at: usize = match &field.name {
            Some(name) => find_slot(allowed, name.as_str()),
            None => {
                return Err(invalid());
            },
        };
        if at >= allowed.len() || field.file_name.is_some() {
            return Err(invalid());
        }
        assert(before[at as int] == optional_text(values@[at as int]));
        if values[at].is_some() {
            return Err(invalid());
        }
        match scalar(field.bytes, field.broken, allowed[at].1) {
            Err(error) => {
                return Err(error);
            },
            Ok(text) => {
                let ghost added = text@;
                values.set(at, Some(text));
                assert(value_views(values@) =~= before.update(at as int, Some(added)));
            },
        }
    }
    assert(all.take(all.len() as int) =~= all);
    match broken {
        Some(status) => Err(multipart_error(status)),
        None => Ok(values),
    }
}

/// The fields of the login, logout and unlock forms.
pub open spec fn password_fields() -> Allowed {
    seq![("password"@, MAX_PASSWORD_BYTES), ("csrf_token"@, CSRF_FIELD_BYTES)]
}

/// The password and token of a login, logout or unlock form.
pub struct PasswordForm {
    pub password: Option<String>,
    pub csrf_token: Option<String>,
}

impl PasswordForm {
    /// Reads bounded scalar password and token fields without ambiguous duplicates.
    pub fn read(form: RawForm) -> (r: Result<Self, AppError>)
        ensures
            match (r, form_values(form, password_fields())) {
                (Ok(fields), Ok(values)) => optional_text(fields.password) == values[0]
                    && optional_text(fields.csrf_token) == values[1],
                (Err(error), Err(expected)) => error == expected,
                _ => false,
            },
    {
        let allowed: [(&'static str, usize); 2] = [
            ("password", MAX_PASSWORD_BYTES),
            ("csrf_token", CSRF_FIELD_BYTES),
        ];
        assert(allowed_views(allowed@) =~= password_fields());
        match read_fields(form, allowed.as_slice()) {
            Err(error) => Err(error),
            Ok(mut values) => {
                let ghost all = value_views(values@);
                assert(all[0] == optional_text(values@[0]));
                assert(all[1] == optional_text(values@[1]));
                let csrf_token: Option<String> = values.swap_remove(1);
                let password: Option<String> = values.swap_remove(0);
                Ok(PasswordForm { password, csrf_token })
            },
        }
    }
}

/// The fields of the settings form.
pub open spec fn settings_fields() -> Allowed {
    seq![
        ("csrf_token"@, CSRF_FIELD_BYTES),
        ("title"@, METADATA_FIELD_BYTES),
        ("entry"@, METADATA_FIELD_BYTES),
        ("visibility"@, METADATA_FIELD_BYTES),
        ("password"@, MAX_PASSWORD_BYTES),
        ("expires_in"@, METADATA_FIELD_BYTES),
    ]
}

/// Untrusted metadata and transient password input awaiting validation.
pub struct SettingsForm {
    /// The untrusted session-bound verification token.
    pub csrf_token: String,
    /// The proposed display title, never the persisted detail heading.
    pub title: String,
    /// The proposed existing flat entry filename.
    pub entry: String,
    /// The explicit untrusted access choice.
    pub visibility: String,
    /// Transient plaintext, never passed into presentation data.
    pub password: String,
    /// The untrusted expiry choice; `keep` retains the current expiry.
    pub expires_in: String,
}

/// A text, or its default.
pub open spec fn text_or(value: Option<Seq<char>>, default: Seq<char>) -> Seq<char> {
    match value {
        Some(text) => text,
        None => default,
    }
}

fn string_or(value: Option<String>, default: &str) -> (r: String)
    ensures
        r@ == text_or(optional_text(value), default@),
{
    match value {
        Some(text) => text,
        None => default.to_owned(),
    }
}

/// What settings values stand for: token and metadata must be there, the
/// password may be left out, and a missing expiry choice keeps the expiry.
pub open spec fn settings_read(values: Values, form: SettingsForm) -> bool {
    &&& values[0] == Some(form.csrf_token@)
    &&& values[1] == Some(form.title@)
    &&& values[2] == Some(form.entry@)
    &&& values[3] == Some(form.visibility@)
    &&& form.password@ == text_or(values[4], ""@)
    &&& form.expires_in@ == text_or(values[5], "keep"@)
}

impl SettingsForm {
    /// Reads exactly the settings fields through the complete-body boundary.
    pub fn read(form: RawForm) -> (r: Result<Self, AppError>)
        ensures
            match form_values(form, settings_fields()) {
                Err(error) => r == Err::<SettingsForm, AppError>(error),
                Ok(values) => if values[0] is None {
                    r == Err::<SettingsForm, AppError>(unverified())
                } else if values[1] is None || values[2] is None || values[3] is None {
                    r == Err::<SettingsForm, AppError>(invalid_form())
                } else {
                    r matches Ok(read) && settings_read(values, read)
                },
            },
    {
        let allowed: [(&'static str, usize); 6] = [
            ("csrf_token", CSRF_FIELD_BYTES),
            ("title", METADATA_FIELD_BYTES),
            ("entry", METADATA_FIELD_BYTES),
            ("visibility", METADATA_FIELD_BYTES),
            ("password", MAX_PASSWORD_BYTES),
            ("expires_in", METADATA_FIELD_BYTES),
        ];
        assert(allowed_views(allowed@) =~= settings_fields());
        match read_fields(form, allowed.as_slice()) {
            Err(error) => Err(error),
            Ok(mut values) => {
                let ghost all = value_views(values@);
                assert forall|i: int| 0 <= i < 6 implies #[trigger] all[i] == optional_text(
                    values@[i],
                ) by {}
                let expires_in: Option<String> = values.swap_remove(5);
                let password: Option<String> = values.swap_remove(4);
                let visibility: Option<String> = values.swap_remove(3);
                let entry: Option<String> = values.swap_remove(2);
                let title: Option<String> = values.swap_remove(1);
                let csrf_token: Option<String> = values.swap_remove(0);
                assert(all[0] == optional_text(csrf_token));
                assert(all[1] == optional_text(title));
                assert(all[2] == optional_text(entry));
                assert(all[3] == optional_text(visibility));
                assert(all[4] == optional_text(password));
                assert(all[5] == optional_text(expires_in));
                match csrf_token {
                    None => Err(forbidden()),
                    Some(csrf_token) => match (title, entry, visibility) {
                        (Some(title), Some(entry), Some(visibility)) => Ok(
                            SettingsForm {
                                csrf_token,
                                title,
                                entry,
                                visibility,
                                password: string_or(password, ""),
                                expires_in: string_or(expires_in, "keep"),
                            },
                        ),
                        _ => Err(invalid()),
                    },
                }
            },
        }
    }
}

/// The fields of the deletion form.
pub open spec fn delete_fields() -> Allowed {
    seq![("csrf_token"@, CSRF_FIELD_BYTES), ("confirm"@, CSRF_FIELD_BYTES)]
}

/// A syntactically confirmed form awaiting live-session token verification.
pub struct DeleteForm {
    /// The bounded, untrusted session-bound verification token.
    pub csrf_token: String,
}

impl DeleteForm {
    /// Requires exactly one token and one explicit deletion confirmation.
    pub fn read(form: RawForm) -> (r: Result<Self, AppError>)
        ensures
            match form_values(form, delete_fields()) {
                Err(error) => r == Err::<DeleteForm, AppError>(error),
                Ok(values) => if values[0] is None {
                    r == Err::<DeleteForm, AppError>(unverified())
                } else if values[1] != Some("delete"@) {
                    r == Err::<DeleteForm, AppError>(
                        rejected(
                            status::BAD_REQUEST,
                            "Select the confirmation checkbox before deleting this site.",
                        ),
                    )
                } else {
                    r matches Ok(read) && values[0] == Some(read.csrf_token@)
                },
            },
    {
        let allowed: [(&'static str, usize); 2] = [
            ("csrf_token", CSRF_FIELD_BYTES),
            ("confirm", CSRF_FIELD_BYTES),
        ];
        assert(allowed_views(allowed@) =~= delete_fields());
        match read_fields(form, allowed.as_slice()) {
            Err(error) => Err(error),
            Ok(mut values) => {
                let ghost all = value_views(values@);
                assert(all[0] == optional_text(values@[0]));
                assert(all[1] == optional_text(values@[1]));
                let confirm: Option<String> = values.swap_remove(1);
                let csrf_token: Option<String> = values.swap_remove(0);
                match csrf_token {
                    None => Err(forbidden()),
                    Some(csrf_token) => {
                        let confirmed: bool = match confirm {
                            Some(text) => same(text.as_str(), "delete"),
                            None => false,
                        };
                        if confirmed {
                            Ok(DeleteForm { csrf_token })
                        } else {
                            Err(
                                AppError::request(
                                    status::BAD_REQUEST,
                                    "Select the confirmation checkbox before deleting this site.",
                                ),
                            )
                        }
                    },
                }
            },
        }
    }
}

}
