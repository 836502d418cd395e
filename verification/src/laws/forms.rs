//! What is read from submitted forms.
use crate::error::{AppError, ErrorKind};
use crate::routes::forms::{
    delete_fields, fields_after, form_values, password_fields, scalar_text, settings_fields,
    settings_read, slot, Allowed, FieldView, RawForm, SettingsForm, Values,
};
use crate::routes::header_chars;
use crate::routes::settings::{access_intent, settings_values, Intent};
use crate::routes::upload::{
    blank_form, builder_matches, field_read, form_read, input_name, query_input, reading_after,
    FormView, Input, Reading,
};
use crate::sites::new_site::NewSiteBuilder;
use crate::sites::validate::Slug;
use crate::text::utf8_text;
use vstd::prelude::*;
use vstd::utf8::encode_utf8;

verus! {

/// A rejection of a form with its status.
pub open spec fn refused(status: u16) -> AppError {
    AppError { kind: ErrorKind::Request(status, "invalid form submission") }
}

/// A field is read as the text that it holds in UTF-8, within its bound: what is
/// longer is too large, what was cut off has the status of what cut it off, and
/// what is no text is invalid.
pub proof fn fields_hold_text(
    name: Option<Seq<char>>,
    file: Option<Seq<char>>,
    text: Seq<char>,
    bytes: Seq<u8>,
    status: u16,
    limit: nat,
)
    ensures
        encode_utf8(text).len() <= limit ==> scalar_text(
            (name, file, encode_utf8(text), None),
            limit,
        ) == Ok::<Seq<char>, AppError>(text),
        bytes.len() > limit ==> scalar_text((name, file, bytes, None), limit) == Err::<
            Seq<char>,
            AppError,
        >(AppError { kind: ErrorKind::Request(413, "form field is too large") }),
        bytes.len() <= limit ==> scalar_text((name, file, bytes, Some(status)), limit) == Err::<
            Seq<char>,
            AppError,
        >(refused(status)),
        bytes.len() <= limit && utf8_text(bytes) is None ==> scalar_text(
            (name, file, bytes, None),
            limit,
        ) == Err::<Seq<char>, AppError>(refused(400)),
{
    vstd::utf8::encode_utf8_valid_utf8(text);
    vstd::utf8::encode_utf8_decode_utf8(text);
}

/// The names of allowed fields differ.
pub open spec fn distinct(allowed: Allowed) -> bool {
    forall|a: int, b: int|
        0 <= a < b < allowed.len() ==> (#[trigger] allowed[a]).0 != (#[trigger] allowed[b]).0
}

/// Whether a field is the one of this place: it has the name, no file name, and
/// its bytes are this text within the bound.
pub open spec fn fills(field: FieldView, place: (Seq<char>, usize), text: Seq<char>) -> bool {
    &&& field.0 == Some(place.0)
    &&& field.1 is None
    &&& field.2.len() <= place.1
    &&& field.3 is None
    &&& utf8_text(field.2) == Some(text)
}

/// The values of a form are those of its fields, whatever their order: the value
/// of a place is the text of the one field that has its name, and there is no
/// value where there is no such field. Every field has a place.
pub proof fn values_are_those_of_the_fields(fields: Seq<FieldView>, allowed: Allowed, k: int)
    requires
        distinct(allowed),
        0 <= k < allowed.len(),
        fields_after(fields, allowed) is Ok,
    ensures
        ({
            let values = fields_after(fields, allowed)->Ok_0;
            &&& values.len() == allowed.len()
            &&& values[k] matches Some(text) ==> exists|i: int|
                0 <= i < fields.len() && #[trigger] fills(fields[i], allowed[k], text)
            &&& values[k] is None ==> forall|i: int|
                0 <= i < fields.len() ==> (#[trigger] fields[i]).0 != Some(allowed[k].0)
        }),
    decreases fields.len(),
{
    if fields.len() > 0 {
        let front = fields.drop_last();
        let last = fields.last();
        values_are_those_of_the_fields(front, allowed, k);
        let before = fields_after(front, allowed)->Ok_0;
        let values = fields_after(fields, allowed)->Ok_0;
        let at = slot(allowed, last.0->0);
        slot_found(allowed, last.0->0);
        if at == k {
            assert(fills(fields[fields.len() - 1], allowed[k], values[k]->0));
        } else {
            assert(values[k] == before[k]);
            if values[k] is Some {
                let i = choose|i: int|
                    0 <= i < front.len() && #[trigger] fills(front[i], allowed[k], values[k]->0);
                assert(fields[i] == front[i]);
                assert(fills(fields[i], allowed[k], values[k]->0));
            } else {
                assert forall|i: int| 0 <= i < fields.len() implies (#[trigger] fields[i]).0
                    != Some(allowed[k].0) by {
                    if i < front.len() {
                        assert(front[i] == fields[i]);
                    } else {
                        assert(last.0->0 != allowed[k].0);
                    }
                }
            }
        }
    }
}

proof fn slot_found(allowed: Allowed, name: Seq<char>)
    ensures
        0 <= slot(allowed, name) <= allowed.len(),
        slot(allowed, name) < allowed.len() ==> allowed[slot(allowed, name)].0 == name,
        forall|j: int| 0 <= j < slot(allowed, name) ==> (#[trigger] allowed[j]).0 != name,
    decreases allowed.len(),
{
    if allowed.len() > 0 && allowed[0].0 != name {
        slot_found(allowed.skip(1), name);
        assert forall|j: int| 0 <= j < slot(allowed, name) implies (#[trigger] allowed[j]).0
            != name by {
            if j > 0 {
                assert(allowed.skip(1)[j - 1] == allowed[j]);
            }
        }
    }
}

/// A form is refused for a field without a name, one that is not asked for, one
/// that carries a file, and one that comes twice.
pub proof fn strange_fields_are_refused(fields: Seq<FieldView>, field: FieldView, allowed: Allowed)
    requires
        distinct(allowed),
        fields_after(fields, allowed) is Ok,
    ensures
        field.0 is None ==> fields_after(fields.push(field), allowed) == Err::<Values, AppError>(
            refused(400),
        ),
        field.1 is Some ==> fields_after(fields.push(field), allowed) == Err::<Values, AppError>(
            refused(400),
        ),
        (forall|k: int| 0 <= k < allowed.len() ==> field.0 != Some((#[trigger] allowed[k]).0))
            ==> fields_after(fields.push(field), allowed) == Err::<Values, AppError>(refused(400)),
        (exists|i: int| 0 <= i < fields.len() && (#[trigger] fields[i]).0 == field.0)
            ==> fields_after(fields.push(field), allowed) == Err::<Values, AppError>(refused(400)),
{
    assert(fields.push(field).drop_last() =~= fields);
    if field.0 is Some {
        let at = slot(allowed, field.0->0);
        slot_found(allowed, field.0->0);
        if at < allowed.len() {
            values_are_those_of_the_fields(fields, allowed, at);
        }
    }
}

/// A field that is asked for, comes for the first time and holds text within
/// its bound gives its place the text and leaves the others.
pub proof fn asked_fields_are_read(
    fields: Seq<FieldView>,
    allowed: Allowed,
    k: int,
    text: Seq<char>,
)
    requires
        distinct(allowed),
        0 <= k < allowed.len(),
        fields_after(fields, allowed) is Ok,
        forall|i: int| 0 <= i < fields.len() ==> (#[trigger] fields[i]).0 != Some(allowed[k].0),
        encode_utf8(text).len() <= allowed[k].1,
    ensures
        fields_after(
            fields.push((Some(allowed[k].0), None, encode_utf8(text), None)),
            allowed,
        ) == Ok::<Values, AppError>(fields_after(fields, allowed)->Ok_0.update(k, Some(text))),
        fields_after(Seq::empty(), allowed) is Ok,
{
    let field: FieldView = (Some(allowed[k].0), None, encode_utf8(text), None);
    assert(fields.push(field).drop_last() =~= fields);
    slot_found(allowed, allowed[k].0);
    values_are_those_of_the_fields(fields, allowed, k);
    fields_hold_text(field.0, None, text, field.2, 0, allowed[k].1 as nat);
    let values = fields_after(fields, allowed)->Ok_0;
    if values[k] is Some {
        let i = choose|i: int|
            0 <= i < fields.len() && #[trigger] fills(fields[i], allowed[k], values[k]->0);
        assert(fields[i].0 == Some(allowed[k].0));
    }
}

/// A form whose transport broke off is refused with the status of that, and not
/// read in part.
pub proof fn broken_forms_are_refused(form: RawForm, allowed: Allowed)
    ensures
        form.broken is Some ==> form_values(form, allowed) is Err,
        form.broken is Some && fields_after(
            crate::routes::forms::field_views(form.fields@),
            allowed,
        ) is Ok ==> form_values(form, allowed) == Err::<Values, AppError>(refused(form.broken->0)),
        form.broken is None ==> form_values(form, allowed) == fields_after(
            crate::routes::forms::field_views(form.fields@),
            allowed,
        ),
{
}

/// What the forms of the server ask for, and how much of it.
pub proof fn forms_ask_for_these_fields()
    ensures
        password_fields() == seq![("password"@, 131_072usize), ("csrf_token"@, 128usize)],
        settings_fields() == seq![
            ("csrf_token"@, 128usize),
            ("title"@, 1024usize),
            ("entry"@, 1024usize),
            ("visibility"@, 1024usize),
            ("password"@, 131_072usize),
            ("expires_in"@, 1024usize),
        ],
        delete_fields() == seq![("csrf_token"@, 128usize), ("confirm"@, 128usize)],
        distinct(password_fields()),
        distinct(settings_fields()),
        distinct(delete_fields()),
{
    reveal_strlit("password");
    reveal_strlit("csrf_token");
    reveal_strlit("title");
    reveal_strlit("entry");
    reveal_strlit("visibility");
    reveal_strlit("expires_in");
    reveal_strlit("confirm");
    assert("title"@[0] != "entry"@[0]);
    assert("csrf_token"@[0] == 'c' && "visibility"@[0] == 'v' && "expires_in"@[0] == 'e'
        && "password"@[0] == 'p');
    assert("expires_in"@.len() != "entry"@.len());
    assert("csrf_token"@.len() != "confirm"@.len());
    assert(password_fields() =~= seq![("password"@, 131_072usize), ("csrf_token"@, 128usize)]);
    assert(delete_fields() =~= seq![("csrf_token"@, 128usize), ("confirm"@, 128usize)]);
    assert(settings_fields() =~= seq![
        ("csrf_token"@, 128usize),
        ("title"@, 1024usize),
        ("entry"@, 1024usize),
        ("visibility"@, 1024usize),
        ("password"@, 131_072usize),
        ("expires_in"@, 1024usize),
    ]);
}

/// A settings form says what its fields say, needs a token, a title, an entry
/// and an access choice, takes a password where there is one, and keeps the
/// expiry where none is chosen.
pub proof fn settings_forms_say_what_their_fields_say(values: Values, form: SettingsForm)
    requires
        settings_read(values, form),
    ensures
        values[0] == Some(form.csrf_token@),
        values[1] == Some(form.title@),
        values[2] == Some(form.entry@),
        values[3] == Some(form.visibility@),
        values[4] is None ==> form.password@.len() == 0,
        values[4] matches Some(password) ==> form.password@ == password,
        values[5] is None ==> form.expires_in@ == seq!['k', 'e', 'e', 'p'],
        values[5] matches Some(choice) ==> form.expires_in@ == choice,
{
    reveal_strlit("");
    reveal_strlit("keep");
    assert("keep"@ =~= seq!['k', 'e', 'e', 'p']);
}

/// A settings form without a token is unverified, and one without a title, an
/// entry or an access choice is invalid; one with all four is read.
pub proof fn settings_forms_need_token_title_entry_and_access(raw: RawForm)
    requires
        form_values(raw, settings_fields()) is Ok,
    ensures
        ({
            let values = form_values(raw, settings_fields())->Ok_0;
            &&& values[0] is None ==> settings_values(Ok(raw)) == Err::<Values, AppError>(
                AppError {
                    kind: ErrorKind::Request(
                        403,
                        "request could not be verified; reopen the sign-in page",
                    ),
                },
            )
            &&& values[0] is Some && (values[1] is None || values[2] is None || values[3] is None)
                ==> settings_values(Ok(raw)) == Err::<Values, AppError>(refused(400))
            &&& values[0] is Some && values[1] is Some && values[2] is Some && values[3] is Some
                ==> settings_values(Ok(raw)) == Ok::<Values, AppError>(values)
        }),
{
}

/// What an access choice asks for. Open without a password opens, protected
/// without one keeps, protected with an allowed one sets it; a password on an
/// open site, one out of bounds, and any other choice are refused.
pub proof fn access_choices_mean_what_they_say(password: Seq<char>, other: Seq<char>)
    ensures
        access_intent("open"@, Seq::empty()) == Ok::<Intent, AppError>(Intent::Open),
        access_intent("password"@, Seq::empty()) == Ok::<Intent, AppError>(Intent::Keep),
        password.len() > 0 ==> access_intent("open"@, password) == Err::<Intent, AppError>(
            AppError {
                kind: ErrorKind::Request(
                    400,
                    "Choose Password access to set a password, or clear the password field.",
                ),
            },
        ),
        password.len() > 0 && crate::config::password_allowed(password) ==> access_intent(
            "password"@,
            password,
        ) == Ok::<Intent, AppError>(Intent::Hash),
        password.len() > 0 && !crate::config::password_allowed(password) ==> access_intent(
            "password"@,
            password,
        ) == Err::<Intent, AppError>(
            AppError { kind: ErrorKind::Request(400, "Invalid site password.") },
        ),
        other != "open"@ && other != "password"@ ==> access_intent(other, password) == Err::<
            Intent,
            AppError,
        >(AppError { kind: ErrorKind::Request(400, "Choose open or password-protected access.") }),
{
    reveal_strlit("open");
    reveal_strlit("password");
    assert("open"@.len() != "password"@.len());
}

/// A text field of a publishing form is stored under its name and nowhere else:
/// each name has its own place, the others keep what they hold, and neither
/// files nor the archive change.
pub proof fn publishing_fields_are_stored_under_their_names(
    state: Reading,
    name: Seq<char>,
    text: Seq<char>,
    encoded_length: usize,
)
    requires
        !state.seen.contains(name),
        ({
            ||| name == "csrf_token"@ && encode_utf8(text).len() <= 128
            ||| name == "password"@ && encode_utf8(text).len() <= 131_072
            ||| name == "html"@ && encode_utf8(text).len() <= encoded_length
            ||| (name == "title"@ || name == "slug"@ || name == "entry"@ || name == "visibility"@
                || name == "expires_in"@) && encode_utf8(text).len() <= 1024
        }),
    ensures
        ({
            let read = field_read(
                state,
                (Some(name), None, encode_utf8(text), None),
                encoded_length,
            );
            let form = read->Ok_0.form;
            &&& read is Ok
            &&& read->Ok_0.seen == state.seen.insert(name)
            &&& read->Ok_0.file_fields == state.file_fields
            &&& form.html == if name == "html"@ { text } else { state.form.html }
            &&& form.html_present == (name == "html"@ || state.form.html_present)
            &&& form.title == if name == "title"@ { text } else { state.form.title }
            &&& form.slug == if name == "slug"@ { text } else { state.form.slug }
            &&& form.entry == if name == "entry"@ { text } else { state.form.entry }
            &&& form.visibility == if name == "visibility"@ {
                Some(text)
            } else {
                state.form.visibility
            }
            &&& form.password == if name == "password"@ { text } else { state.form.password }
            &&& form.expires_in == if name == "expires_in"@ { text } else { state.form.expires_in }
            &&& form.csrf_token == if name == "csrf_token"@ { text } else { state.form.csrf_token }
            &&& form.input == state.form.input
            &&& form.files == state.form.files
            &&& form.zip == state.form.zip
        }),
{
    publishing_names();
    fields_hold_text(Some(name), None, text, encode_utf8(text), 0, 128);
    fields_hold_text(Some(name), None, text, encode_utf8(text), 0, 1024);
    fields_hold_text(Some(name), None, text, encode_utf8(text), 0, 131_072);
    fields_hold_text(Some(name), None, text, encode_utf8(text), 0, encoded_length as nat);
}

/// The bounds of the text fields: a token has at most 128 bytes, a password
/// 131072, HTML may fill the body, and the other texts have at most 1024.
pub proof fn publishing_fields_are_bounded(
    state: Reading,
    name: Seq<char>,
    bytes: Seq<u8>,
    encoded_length: usize,
)
    requires
        !state.seen.contains(name),
        ({
            ||| name == "csrf_token"@ && bytes.len() > 128
            ||| name == "password"@ && bytes.len() > 131_072
            ||| name == "html"@ && bytes.len() > encoded_length
            ||| (name == "title"@ || name == "slug"@ || name == "entry"@ || name == "visibility"@
                || name == "expires_in"@) && bytes.len() > 1024
        }),
    ensures
        field_read(state, (Some(name), None, bytes, None), encoded_length) == Err::<
            Reading,
            AppError,
        >(AppError { kind: ErrorKind::Request(413, "form field is too large") }),
{
    publishing_names();
}

proof fn publishing_names()
    ensures
        "html"@ == seq!['h', 't', 'm', 'l'],
        "title"@ == seq!['t', 'i', 't', 'l', 'e'],
        "slug"@ == seq!['s', 'l', 'u', 'g'],
        "entry"@ == seq!['e', 'n', 't', 'r', 'y'],
        "zip"@ == seq!['z', 'i', 'p'],
        "visibility"@[0] == 'v',
        "password"@[0] == 'p',
        "expires_in"@[0] == 'e',
        "csrf_token"@[0] == 'c',
        "files[]"@[0] == 'f',
        "expires_in"@.len() == 10,
{
    reveal_strlit("html");
    reveal_strlit("title");
    reveal_strlit("slug");
    reveal_strlit("entry");
    reveal_strlit("visibility");
    reveal_strlit("password");
    reveal_strlit("expires_in");
    reveal_strlit("csrf_token");
    reveal_strlit("files[]");
    reveal_strlit("zip");
    assert("html"@ =~= seq!['h', 't', 'm', 'l']);
    assert("title"@ =~= seq!['t', 'i', 't', 'l', 'e']);
    assert("slug"@ =~= seq!['s', 'l', 'u', 'g']);
    assert("entry"@ =~= seq!['e', 'n', 't', 'r', 'y']);
    assert("zip"@ =~= seq!['z', 'i', 'p']);
}

/// Files are collected in the order in which they come, each with its name and
/// all its bytes; the empty file that a browser sends for an empty control is
/// none. Ten thousand file fields are read and no more; a name of more than 1024
/// bytes and a file that was cut off are refused.
pub proof fn files_are_collected_in_order(
    state: Reading,
    name: Seq<char>,
    long: Seq<char>,
    status: u16,
    bytes: Seq<u8>,
    encoded_length: usize,
)
    requires
        encode_utf8(name).len() <= 1024,
    ensures
        ({
            let read = field_read(
                state,
                (Some("files[]"@), Some(name), bytes, None),
                encoded_length,
            );
            &&& state.file_fields < 10_000 ==> {
                &&& read is Ok
                &&& read->Ok_0.form.input == Input::Files
                &&& read->Ok_0.file_fields == state.file_fields + 1
                &&& name.len() > 0 || bytes.len() > 0 ==> read->Ok_0.form.files
                    == state.form.files.push((name, bytes))
                &&& name.len() == 0 && bytes.len() == 0 ==> read->Ok_0.form.files
                    == state.form.files
                &&& read->Ok_0.form.html == state.form.html
                &&& read->Ok_0.form.html_present == state.form.html_present
                &&& read->Ok_0.form.zip == state.form.zip
                &&& read->Ok_0.form.title == state.form.title
            }
            &&& state.file_fields >= 10_000 ==> read is Err && read->Err_0.kind is Request
                && read->Err_0.kind->Request_0 == 413
            &&& field_read(state, (Some("files[]"@), None, bytes, None), encoded_length) is Err
            &&& field_read(
                state,
                (Some("files[]"@), Some(name), bytes, Some(status)),
                encoded_length,
            ) is Err
            &&& encode_utf8(long).len() > 1024 && state.file_fields < 10_000 ==> field_read(
                state,
                (Some("files[]"@), Some(long), bytes, None),
                encoded_length,
            ) == Err::<Reading, AppError>(refused(400))
        }),
{
    publishing_names();
}

/// An archive is taken whole, once, and only as a file; an empty control is
/// none.
pub proof fn archives_are_taken_whole(
    state: Reading,
    name: Seq<char>,
    status: u16,
    bytes: Seq<u8>,
    encoded_length: usize,
)
    ensures
        ({
            let read = field_read(state, (Some("zip"@), Some(name), bytes, None), encoded_length);
            &&& !state.seen.contains("zip"@) ==> {
                &&& read is Ok
                &&& read->Ok_0.form.input == Input::Zip
                &&& bytes.len() > 0 ==> read->Ok_0.form.zip == Some(bytes)
                &&& bytes.len() == 0 ==> read->Ok_0.form.zip == state.form.zip
                &&& read->Ok_0.form.files == state.form.files
                &&& read->Ok_0.form.html_present == state.form.html_present
            }
            &&& state.seen.contains("zip"@) ==> read == Err::<Reading, AppError>(refused(400))
            &&& field_read(state, (Some("zip"@), None, bytes, None), encoded_length) is Err
            &&& field_read(
                state,
                (Some("zip"@), Some(name), bytes, Some(status)),
                encoded_length,
            ) is Err
        }),
{
    publishing_names();
}

/// A publishing form is refused for a field without a name or with an unknown
/// one, for a text field that comes twice or carries a file.
pub proof fn strange_publishing_fields_are_refused(
    state: Reading,
    field: FieldView,
    encoded_length: usize,
)
    ensures
        field.0 is None ==> field_read(state, field, encoded_length) == Err::<Reading, AppError>(
            refused(400),
        ),
        field.0 matches Some(name) && name != "html"@ && name != "title"@ && name != "slug"@ && name
            != "entry"@ && name != "visibility"@ && name != "password"@ && name != "expires_in"@
            && name != "csrf_token"@ && name != "files[]"@ && name != "zip"@ ==> field_read(
            state,
            field,
            encoded_length,
        ) == Err::<Reading, AppError>(refused(400)),
        field.0 matches Some(name) && name != "files[]"@ && name != "zip"@ && (field.1 is Some
            || state.seen.contains(name)) ==> field_read(state, field, encoded_length) == Err::<
            Reading,
            AppError,
        >(refused(400)),
{
}

/// Reading starts with nothing, goes on field by field, and ends with the first
/// refusal. What was read whole is the form, and it needs some content.
pub proof fn publishing_forms_are_read_field_by_field(
    raw: RawForm,
    fields: Seq<FieldView>,
    field: FieldView,
    encoded_length: usize,
)
    requires
        crate::routes::forms::field_views(raw.fields@) == fields.push(field),
    ensures
        reading_after(Seq::empty(), encoded_length) == Ok::<Reading, AppError>(
            Reading { form: blank_form(Input::Html), seen: Set::empty(), file_fields: 0 },
        ),
        reading_after(fields, encoded_length) matches Err(error) ==> form_read(raw, encoded_length)
            == Err::<FormView, AppError>(error),
        reading_after(fields, encoded_length) is Ok && raw.broken is None ==> {
            match field_read(reading_after(fields, encoded_length)->Ok_0, field, encoded_length) {
                Err(error) => form_read(raw, encoded_length) == Err::<FormView, AppError>(error),
                Ok(read) => if read.form.html_present || read.form.input != Input::Html {
                    form_read(raw, encoded_length) == Ok::<FormView, AppError>(read.form)
                } else {
                    form_read(raw, encoded_length) == Err::<FormView, AppError>(
                        AppError {
                            kind: ErrorKind::Request(
                                400,
                                "Paste HTML, select files, or choose a ZIP archive to publish.",
                            ),
                        },
                    )
                },
            }
        },
        raw.broken is Some ==> form_read(raw, encoded_length) is Err,
{
    assert(fields.push(field).drop_last() =~= fields);
}

/// A form that nothing was read into holds nothing.
pub proof fn blank_forms_hold_nothing(input: Input)
    ensures
        ({
            let form = blank_form(input);
            &&& form.csrf_token.len() == 0 && form.html.len() == 0 && form.title.len() == 0
            &&& form.slug.len() == 0 && form.entry.len() == 0 && form.password.len() == 0
            &&& form.expires_in.len() == 0 && form.visibility is None && !form.html_present
            &&& form.files.len() == 0 && form.zip is None && form.input == input
        }),
{
}

/// What a form asks to publish is what it holds: its texts, its files where
/// files were used, its archive with room for four times the upload limit, and
/// the chosen slug; an empty entry is no choice.
pub proof fn forms_ask_for_what_they_hold(
    builder: NewSiteBuilder,
    form: FormView,
    slug: Option<Slug>,
    limit: usize,
)
    requires
        builder_matches(builder, form, slug, limit),
    ensures
        builder.title@ == form.title,
        builder.expires_in@ == form.expires_in,
        builder.slug == slug,
        form.entry.len() == 0 ==> builder.entry is None,
        form.entry.len() > 0 ==> builder.entry is Some && builder.entry->0@ == form.entry,
        form.html_present ==> builder.html is Some && builder.html->0@ == form.html,
        !form.html_present ==> builder.html is None,
        form.input == Input::Files <==> builder.files is Some,
        builder.files matches Some(files) ==> files@.len() == form.files.len() && forall|i: int|
            0 <= i < files@.len() ==> (#[trigger] files@[i]).filename@ == form.files[i].0
                && files@[i].bytes@ == form.files[i].1,
        form.zip is Some <==> builder.archive is Some,
        builder.archive matches Some((bytes, cap)) ==> form.zip == Some(bytes@) && (4 * limit
            <= usize::MAX ==> cap == 4 * limit) && cap >= limit,
{
    if let Some(files) = builder.files {
        assert forall|i: int| 0 <= i < files@.len() implies (#[trigger] files@[i]).filename@
            == form.files[i].0 && files@[i].bytes@ == form.files[i].1 by {
            assert(crate::sites::archive::file_views(files@)[i] == files@[i]@);
        }
    }
}

/// A page query selects the input that it names: the name of each input selects
/// it, no query selects pasted HTML, and any other query is refused.
pub proof fn queries_select_inputs(input: Input, query: Seq<char>)
    ensures
        query_input(Some("input="@ + input_name(input)@)) == Some(input),
        query_input(None) == Some(Input::Html),
        query_input(Some(Seq::empty())) == Some(Input::Html),
        query_input(Some(query)) matches Some(selected) ==> query.len() == 0 || query == "input="@
            + input_name(selected)@,
{
    reveal_strlit("");
    reveal_strlit("input=");
    reveal_strlit("html");
    reveal_strlit("files");
    reveal_strlit("zip");
    reveal_strlit("input=html");
    reveal_strlit("input=files");
    reveal_strlit("input=zip");
    assert(""@ =~= Seq::<char>::empty());
    assert("input=html"@ =~= "input="@ + "html"@);
    assert("input=files"@ =~= "input="@ + "files"@);
    assert("input=zip"@ =~= "input="@ + "zip"@);
    assert("input=html"@.len() == 10 && "input=files"@.len() == 11 && "input=zip"@.len() == 9);
}

/// A header value is read as its visible characters, one for each byte, and not
/// at all where a byte is not visible.
pub proof fn headers_are_visible_text(bytes: Seq<u8>, i: int)
    requires
        0 <= i < bytes.len(),
    ensures
        header_chars(bytes) matches Some(text) ==> text.len() == bytes.len() && text[i] as int
            == bytes[i] && (bytes[i] == 9 || 32 <= bytes[i] <= 126),
        (forall|k: int|
            0 <= k < bytes.len() ==> #[trigger] bytes[k] == 9 || 32 <= bytes[k] <= 126)
            ==> header_chars(bytes) is Some,
        bytes[i] < 32 && bytes[i] != 9 || bytes[i] > 126 ==> header_chars(bytes) is None,
{
    if header_chars(bytes) is Some {
        assert(crate::routes::visible(bytes[i]));
    }
}

}
