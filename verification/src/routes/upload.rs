//! Multipart content reading shared by the native forms and the API.
use crate::config::MAX_PASSWORD_BYTES;
use crate::error::{rejected, AppError};
use crate::routes::forms::{field_views, scalar, scalar_text, FieldView, RawForm};
use crate::routes::{
    invalid, invalid_form, multipart_error, CSRF_FIELD_BYTES, METADATA_FIELD_BYTES,
};
use crate::sites::archive::{file_views, FileView};
use crate::sites::new_site::{
    build_error, built, optional_text, InputError, NewSite, NewSiteBuilder, UploadedFile,
};
use crate::sites::validate::Slug;
use crate::sites::MAX_SITE_FILES;
use crate::status;
use crate::text::{chars_of, same};
use vstd::hash_set::StringHashSet;
use vstd::prelude::*;
use vstd::utf8::encode_utf8;

verus! {

/// Declared archive contents may total this many times the upload limit.
pub const ARCHIVE_EXPANSION: usize = 4;

/// The content input a form used; it also selects which tab renders.
#[derive(Clone, Copy, Debug, PartialEq, Eq, Structural)]
pub enum Input {
    /// Pasted HTML published as `index.html`.
    Html,
    /// Flat files selected together.
    Files,
    /// One ZIP archive, folders allowed.
    Zip,
}

/// The query value and template name of an input.
pub open spec fn input_name(input: Input) -> &'static str {
    match input {
        Input::Html => "html",
        Input::Files => "files",
        Input::Zip => "zip",
    }
}

/// The input that a page query selects.
pub open spec fn query_input(query: Option<Seq<char>>) -> Option<Input> {
    match query {
        None => Some(Input::Html),
        Some(text) => if text == ""@ || text == "input=html"@ {
            Some(Input::Html)
        } else if text == "input=files"@ {
            Some(Input::Files)
        } else if text == "input=zip"@ {
            Some(Input::Zip)
        } else {
            None
        },
    }
}

impl Input {
    /// Returns the query value and template name of this input.
    pub fn as_str(self) -> (r: &'static str)
        ensures
            r == input_name(self),
    {
        match self {
            Input::Html => "html",
            Input::Files => "files",
            Input::Zip => "zip",
        }
    }

    /// Selects the input from a page query without inferring an upload's mode.
    pub fn parse(query: Option<&str>) -> (r: Result<Self, AppError>)
        ensures
            match r {
                Ok(input) => query_input(crate::auth::tokens::text_view(query)) == Some(input),
                Err(error) => query_input(crate::auth::tokens::text_view(query)) is None && error
                    == invalid_form(),
            },
    {
        match query {
            None => Ok(Input::Html),
            Some(text) => {
                if same(text, "") || same(text, "input=html") {
                    Ok(Input::Html)
                } else if same(text, "input=files") {
                    Ok(Input::Files)
                } else if same(text, "input=zip") {
                    Ok(Input::Zip)
                } else {
                    Err(invalid())
                }
            },
        }
    }
}

/// Holds untrusted input until shared publication validation succeeds.
pub struct PublishingForm {
    /// The submitted session-bound verification token.
    pub csrf_token: String,
    /// Submitted HTML, rendered only as escaped editable text on admin pages.
    pub html: String,
    /// The optional unvalidated display title.
    pub title: String,
    /// The optional unvalidated custom slug.
    pub slug: String,
    /// The optional entry filename, never a filesystem path before validation.
    pub entry: String,
    /// The content input used, which also selects the rendered tab.
    pub input: Input,
    /// An explicit access choice; absent legacy creation defaults to open.
    pub visibility: Option<String>,
    /// Transient submitted credential, never passed to presentation models.
    pub password: String,
    /// The unvalidated expiry choice, echoed back into the select.
    pub expires_in: String,
    /// An HTML field was submitted.
    pub html_present: bool,
    /// The submitted files.
    pub files: Vec<UploadedFile>,
    /// The submitted archive.
    pub zip: Option<Vec<u8>>,
}

/// A publishing form as mathematical values.
pub struct FormView {
    pub csrf_token: Seq<char>,
    pub html: Seq<char>,
    pub title: Seq<char>,
    pub slug: Seq<char>,
    pub entry: Seq<char>,
    pub input: Input,
    pub visibility: Option<Seq<char>>,
    pub password: Seq<char>,
    pub expires_in: Seq<char>,
    pub html_present: bool,
    pub files: Seq<FileView>,
    pub zip: Option<Seq<u8>>,
}

/// The access that a form asks for: open where it says nothing.
pub open spec fn access_choice(form: FormView) -> Seq<char> {
    match form.visibility {
        Some(choice) => choice,
        None => "open"@,
    }
}

/// A form without anything in it.
pub open spec fn blank_form(input: Input) -> FormView {
    FormView {
        csrf_token: Seq::empty(),
        html: Seq::empty(),
        title: Seq::empty(),
        slug: Seq::empty(),
        entry: Seq::empty(),
        input,
        visibility: None,
        password: Seq::empty(),
        expires_in: Seq::empty(),
        html_present: false,
        files: Seq::empty(),
        zip: None,
    }
}

/// How far a form has been read: its values, the names of the single fields
/// that came, and the number of file fields.
pub struct Reading {
    pub form: FormView,
    pub seen: Set<Seq<char>>,
    pub file_fields: nat,
}

/// The start of reading.
pub open spec fn nothing_read() -> Reading {
    Reading { form: blank_form(Input::Html), seen: Set::empty(), file_fields: 0 }
}

/// The single text fields.
#[derive(Clone, Copy, Debug, PartialEq, Eq, Structural)]
pub enum TextField {
    Html,
    Title,
    Slug,
    Entry,
    Visibility,
    Password,
    ExpiresIn,
    CsrfToken,
}

/// The text field of a name.
pub open spec fn text_field(name: Seq<char>) -> Option<TextField> {
    if name == "html"@ {
        Some(TextField::Html)
    } else if name == "title"@ {
        Some(TextField::Title)
    } else if name == "slug"@ {
        Some(TextField::Slug)
    } else if name == "entry"@ {
        Some(TextField::Entry)
    } else if name == "visibility"@ {
        Some(TextField::Visibility)
    } else if name == "password"@ {
        Some(TextField::Password)
    } else if name == "expires_in"@ {
        Some(TextField::ExpiresIn)
    } else if name == "csrf_token"@ {
        Some(TextField::CsrfToken)
    } else {
        None
    }
}

fn find_text_field(name: &str) -> (r: Option<TextField>)
    ensures
        r == text_field(name@),
{
    if same(name, "html") {
        Some(TextField::Html)
    } else if same(name, "title") {
        Some(TextField::Title)
    } else if same(name, "slug") {
        Some(TextField::Slug)
    } else if same(name, "entry") {
        Some(TextField::Entry)
    } else if same(name, "visibility") {
        Some(TextField::Visibility)
    } else if same(name, "password") {
        Some(TextField::Password)
    } else if same(name, "expires_in") {
        Some(TextField::ExpiresIn)
    } else if same(name, "csrf_token") {
        Some(TextField::CsrfToken)
    } else {
        None
    }
}

/// The bound of a text field: HTML may fill the whole body.
pub open spec fn text_limit(field: TextField, encoded_length: usize) -> usize {
    match field {
        TextField::Html => encoded_length,
        TextField::CsrfToken => CSRF_FIELD_BYTES,
        TextField::Password => MAX_PASSWORD_BYTES,
        _ => METADATA_FIELD_BYTES,
    }
}

/// A form with the text of one field.
pub open spec fn text_stored(form: FormView, field: TextField, text: Seq<char>) -> FormView {
    match field {
        TextField::Html => FormView { html: text, html_present: true, ..form },
        TextField::Title => FormView { title: text, ..form },
        TextField::Slug => FormView { slug: text, ..form },
        TextField::Entry => FormView { entry: text, ..form },
        TextField::Visibility => FormView { visibility: Some(text), ..form },
        TextField::Password => FormView { password: text, ..form },
        TextField::ExpiresIn => FormView { expires_in: text, ..form },
        TextField::CsrfToken => FormView { csrf_token: text, ..form },
    }
}

/// The rejection of an upload with too many files.
pub open spec fn too_many_files() -> AppError {
    rejected(
        status::PAYLOAD_TOO_LARGE,
        "Too many files in one upload. Select a smaller batch and try again.",
    )
}

/// What one file field makes of the reading. Empty native file controls create
/// no empty file.
pub open spec fn file_read(state: Reading, field: FieldView) -> Result<Reading, AppError> {
    if state.file_fields + 1 > MAX_SITE_FILES {
        Err(too_many_files())
    } else if field.1 is None || encode_utf8(field.1->0).len() > METADATA_FIELD_BYTES {
        Err(invalid_form())
    } else if field.3 is Some {
        Err(rejected(field.3->0, "invalid form submission"))
    } else {
        Ok(
            Reading {
                form: FormView {
                    input: Input::Files,
                    files: if field.1->0.len() == 0 && field.2.len() == 0 {
                        state.form.files
                    } else {
                        state.form.files.push((field.1->0, field.2))
                    },
                    ..state.form
                },
                file_fields: state.file_fields + 1,
                ..state
            },
        )
    }
}

/// What the archive field makes of the reading.
pub open spec fn zip_read(state: Reading, field: FieldView) -> Result<Reading, AppError> {
    if field.1 is None || state.seen.contains("zip"@) {
        Err(invalid_form())
    } else if field.3 is Some {
        Err(rejected(field.3->0, "invalid form submission"))
    } else {
        Ok(
            Reading {
                form: FormView {
                    input: Input::Zip,
                    zip: if field.2.len() == 0 {
                        state.form.zip
                    } else {
                        Some(field.2)
                    },
                    ..state.form
                },
                seen: state.seen.insert("zip"@),
                ..state
            },
        )
    }
}

/// What one more field makes of the reading.
pub open spec fn field_read(state: Reading, field: FieldView, encoded_length: usize) -> Result<
    Reading,
    AppError,
> {
    match field.0 {
        None => Err(invalid_form()),
        Some(name) => if name == "files[]"@ {
            file_read(state, field)
        } else if name == "zip"@ {
            zip_read(state, field)
        } else {
            match text_field(name) {
                None => Err(invalid_form()),
                Some(kind) => if field.1 is Some || state.seen.contains(name) {
                    Err(invalid_form())
                } else {
                    match scalar_text(field, text_limit(kind, encoded_length) as nat) {
                        Err(error) => Err(error),
                        Ok(text) => Ok(
                            Reading {
                                form: text_stored(state.form, kind, text),
                                seen: state.seen.insert(name),
                                ..state
                            },
                        ),
                    }
                },
            }
        },
    }
}

/// The reading after the first fields, or the first rejection.
pub open spec fn reading_after(fields: Seq<FieldView>, encoded_length: usize) -> Result<
    Reading,
    AppError,
>
    decreases fields.len(),
{
    if fields.len() == 0 {
        Ok(nothing_read())
    } else {
        match reading_after(fields.drop_last(), encoded_length) {
            Err(error) => Err(error),
            Ok(state) => field_read(state, fields.last(), encoded_length),
        }
    }
}

proof fn reading_error_stays(fields: Seq<FieldView>, encoded_length: usize, n: int)
    requires
        0 <= n <= fields.len(),
        reading_after(fields.take(n), encoded_length) is Err,
    ensures
        reading_after(fields, encoded_length) == reading_after(fields.take(n), encoded_length),
    decreases fields.len() - n,
{
    if n == fields.len() {
        assert(fields.take(n) =~= fields);
    } else {
        assert(fields.take(n + 1).drop_last() =~= fields.take(n));
        reading_error_stays(fields, encoded_length, n + 1);
    }
}

/// The form that a body holds, or its rejection: all its fields are read, and
/// there is some content input among them.
pub open spec fn form_read(form: RawForm, encoded_length: usize) -> Result<FormView, AppError> {
    match reading_after(field_views(form.fields@), encoded_length) {
        Err(error) => Err(error),
        Ok(state) => if form.broken is Some {
            Err(rejected(form.broken->0, "invalid form submission"))
        } else if !state.form.html_present && state.form.input == Input::Html {
            Err(
                rejected(
                    status::BAD_REQUEST,
                    "Paste HTML, select files, or choose a ZIP archive to publish.",
                ),
            )
        } else {
            Ok(state.form)
        },
    }
}

/// The request to publish that a form stands for.
pub open spec fn builder_matches(
    builder: NewSiteBuilder,
    form: FormView,
    slug: Option<Slug>,
    max_upload_bytes: usize,
) -> bool {
    &&& builder.title@ == form.title
    &&& builder.slug == slug
    &&& builder.expires_in@ == form.expires_in
    &&& optional_text(builder.entry) == if form.entry.len() > 0 {
        Some(form.entry)
    } else {
        None
    }
    &&& optional_text(builder.html) == if form.html_present {
        Some(form.html)
    } else {
        None
    }
    &&& match builder.files {
        Some(files) => form.input == Input::Files && file_views(files@) == form.files,
        None => form.input != Input::Files,
    }
    &&& match builder.archive {
        Some((bytes, cap)) => form.zip == Some(bytes@) && cap == if max_upload_bytes
            * ARCHIVE_EXPANSION > usize::MAX {
            usize::MAX
        } else {
            (max_upload_bytes * ARCHIVE_EXPANSION) as usize
        },
        None => form.zip is None,
    }
}

impl PublishingForm {
    /// The form as mathematical values.
    pub open spec fn view(&self) -> FormView {
        FormView {
            csrf_token: self.csrf_token@,
            html: self.html@,
            title: self.title@,
            slug: self.slug@,
            entry: self.entry@,
            input: self.input,
            visibility: optional_text(self.visibility),
            password: self.password@,
            expires_in: self.expires_in@,
            html_present: self.html_present,
            files: file_views(self.files@),
            zip: match self.zip {
                Some(bytes) => Some(bytes@),
                None => None,
            },
        }
    }

    /// An empty form that shows one input.
    pub fn blank(input: Input) -> (r: Self)
        ensures
            r@ == blank_form(input),
    {
        let form = PublishingForm {
            csrf_token: String::new(),
            html: String::new(),
            title: String::new(),
            slug: String::new(),
            entry: String::new(),
            input,
            visibility: None,
            password: String::new(),
            expires_in: String::new(),
            html_present: false,
            files: Vec::new(),
            zip: None,
        };
        assert(file_views(form.files@) =~= Seq::empty());
        form
    }

    /// Selects an empty native form without inferring an upload's actual mode.
    pub fn for_query(query: Option<&str>) -> (r: Result<Self, AppError>)
        ensures
            match r {
                Ok(form) => query_input(crate::auth::tokens::text_view(query)) matches Some(input)
                    && form@ == blank_form(input),
                Err(error) => query_input(crate::auth::tokens::text_view(query)) is None && error
                    == invalid_form(),
            },
    {
        match Input::parse(query) {
            Ok(input) => Ok(PublishingForm::blank(input)),
            Err(error) => Err(error),
        }
    }

    /// Returns the explicit access choice or the legacy open default.
    pub fn visibility(&self) -> (r: &str)
        ensures
            r@ == access_choice(self@),
    {
        match &self.visibility {
            Some(choice) => choice.as_str(),
            None => "open",
        }
    }

    fn store(self, field: TextField, text: String) -> (r: Self)
        ensures
            r@ == text_stored(self@, field, text@),
    {
        match field {
            TextField::Html => PublishingForm { html: text, html_present: true, ..self },
            TextField::Title => PublishingForm { title: text, ..self },
            TextField::Slug => PublishingForm { slug: text, ..self },
            TextField::Entry => PublishingForm { entry: text, ..self },
            TextField::Visibility => PublishingForm { visibility: Some(text), ..self },
            TextField::Password => PublishingForm { password: text, ..self },
            TextField::ExpiresIn => PublishingForm { expires_in: text, ..self },
            TextField::CsrfToken => PublishingForm { csrf_token: text, ..self },
        }
    }

    /// Reads scalar metadata and binary files from a capped complete body.
    ///
    /// Recognizes empty native file controls without creating an empty file.
    /// Rejects malformed/unknown/duplicate fields, oversized metadata or file
    /// counts, invalid text, and missing input.
    pub fn read(form: RawForm, encoded_length: usize) -> (r: Result<Self, AppError>)
        ensures
            (match r {
                Ok(submitted) => Ok(submitted@),
                Err(error) => Err(error),
            }) == form_read(form, encoded_length),
    {
        let ghost all = field_views(form.fields@);
        let broken: Option<u16> = form.broken;
        let mut submitted = PublishingForm::blank(Input::Html);
        let mut seen: StringHashSet = StringHashSet::new();
        let mut file_fields: usize = 0;
        for field in it: form.fields.into_iter()
            invariant
                it.seq() == form.fields@,
                all == field_views(form.fields@),
                file_fields <= MAX_SITE_FILES,
                reading_after(all.take(it.index() as int), encoded_length) == Ok::<
                    Reading,
                    AppError,
                >(
                    (Reading { form: submitted@, seen: seen@, file_fields: file_fields as nat }),
                ),
        {
            let ghost i = it.index() as int;
            let ghost before = Reading {
                form: submitted@,
                seen: seen@,
                file_fields: file_fields as nat,
            };
            proof {
                assert(all[i] == field@);
                assert(all.take(i + 1).drop_last() =~= all.take(i));
                assert(reading_after(all.take(i + 1), encoded_length) == field_read(
                    before,
                    field@,
                    encoded_length,
                ));
                if reading_after(all.take(i + 1), encoded_length) is Err {
                    reading_error_stays(all, encoded_length, i + 1);
                }
            }
            let name: String = match field.name {
                Some(name) => name,
                None => {
                    return Err(invalid());
                },
            };
            if same(name.as_str(), "files[]") {
                if file_fields + 1 > MAX_SITE_FILES {
                    return Err(
                        AppError::request(
                            status::PAYLOAD_TOO_LARGE,
                            "Too many files in one upload. Select a smaller batch and try again.",
                        ),
                    );
                }
                let filename: String = match field.file_name {
                    Some(filename) => filename,
                    None => {
                        return Err(invalid());
                    },
                };
                if filename.as_str().as_bytes().len() > METADATA_FIELD_BYTES {
                    return Err(invalid());
                }
                if let Some(status) = field.broken {
                    return Err(multipart_error(status));
                }
                let chars: Vec<char> = chars_of(filename.as_str());
                submitted.input = Input::Files;
                file_fields = file_fields + 1;
                if chars.len() > 0 || field.bytes.len() > 0 {
                    let ghost files = file_views(submitted.files@);
                    let ghost added = (filename@, field.bytes@);
                    submitted.files.push(UploadedFile { filename, bytes: field.bytes });
                    assert(file_views(submitted.files@) =~= files.push(added));
                }
            } else if same(name.as_str(), "zip") {
                if field.file_name.is_none() || !seen.insert("zip".to_owned()) {
                    return Err(invalid());
                }
                if let Some(status) = field.broken {
                    return Err(multipart_error(status));
                }
                submitted.input = Input::Zip;
                if field.bytes.len() > 0 {
                    submitted.zip = Some(field.bytes);
                }
            } else {
                let kind: TextField = match find_text_field(name.as_str()) {
                    Some(kind) => kind,
                    None => {
                        return Err(invalid());
                    },
                };
                if field.file_name.is_some() || !seen.insert(name) {
                    return Err(invalid());
                }
                let limit: usize = match kind {
                    TextField::Html => encoded_length,
                    TextField::CsrfToken => CSRF_FIELD_BYTES,
                    TextField::Password => MAX_PASSWORD_BYTES,
                    _ => METADATA_FIELD_BYTES,
                };
                match scalar(field.bytes, field.broken, limit) {
                    Err(error) => {
                        return Err(error);
                    },
                    Ok(text) => {
                        submitted = submitted.store(kind, text);
                    },
                }
            }
        }
        assert(all.take(all.len() as int) =~= all);
        if let Some(status) = broken {
            return Err(multipart_error(status));
        }
        let pasted: bool = match submitted.input {
            Input::Html => true,
            _ => false,
        };
        if !submitted.html_present && pasted {
            return Err(
                AppError::request(
                    status::BAD_REQUEST,
                    "Paste HTML, select files, or choose a ZIP archive to publish.",
                ),
            );
        }
        Ok(submitted)
    }

    /// Moves file buffers into validated input while retaining editable text.
    pub fn input(&mut self, slug: Option<Slug>, max_upload_bytes: usize) -> (r: Result<
        NewSite,
        InputError,
    >)
        ensures
            exists|builder: NewSiteBuilder| #[trigger]
                builder_matches(builder, old(self)@, slug, max_upload_bytes) && match r {
                    Ok(site) => build_error(builder) is None && built(builder, site),
                    Err(error) => build_error(builder) == Some(error),
                },
            final(self)@ == (FormView {
                files: if old(self)@.input == Input::Files {
                    Seq::empty()
                } else {
                    old(self)@.files
                },
                zip: None,
                ..old(self)@
            }),
    {
        let entry: Option<String> = Some(self.entry.as_str().to_owned());
        let mut builder = NewSiteBuilder::new().title(self.title.as_str().to_owned()).slug(
            slug,
        ).expires_in(self.expires_in.as_str().to_owned()).entry(entry);
        if self.html_present {
            builder = builder.html(self.html.as_str().to_owned());
        }
        let uploads: bool = match self.input {
            Input::Files => true,
            _ => false,
        };
        if uploads {
            let mut files: Vec<UploadedFile> = Vec::new();
            std::mem::swap(&mut files, &mut self.files);
            assert(file_views(self.files@) =~= Seq::empty());
            builder = builder.files(files);
        }
        let mut zip: Option<Vec<u8>> = None;
        std::mem::swap(&mut zip, &mut self.zip);
        if let Some(bytes) = zip {
            let cap: usize = if max_upload_bytes > usize::MAX / ARCHIVE_EXPANSION {
                usize::MAX
            } else {
                max_upload_bytes * ARCHIVE_EXPANSION
            };
            builder = builder.archive(bytes, cap);
        }
        assert(builder_matches(builder, old(self)@, slug, max_upload_bytes));
        builder.build()
    }
}

}
