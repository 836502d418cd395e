//! Validated, create-only pasted HTML or flat-file input.
use crate::auth::password::Password;
use crate::error::{rejected, AppError};
use crate::sites::archive::{extract, extraction, file_views, FileView};
use crate::sites::validate::{
    expiry_choice, html_name, valid_filename, valid_path, valid_title, Expiry, Filename, Slug, Title,
};
use crate::sites::MAX_SITE_FILES;
use crate::status;
use crate::text::{blank, chars_of, contains, is_blank, same};
use vstd::hash_set::StringHashSet;
use vstd::prelude::*;
use vstd::utf8::encode_utf8;

verus! {

/// Identifies a rejected input field without exposing submitted content.
#[derive(Clone, Copy, Debug, PartialEq, Eq, Structural)]
pub enum InputError {
    /// The HTML is empty or contains only whitespace.
    Html,
    /// The title exceeds its bounds or contains forbidden line separators.
    Title,
    /// No content mode or more than one content mode was supplied.
    Mode,
    /// The archive is unreadable, encrypted, or contains a symlink.
    Archive,
    /// The files mode contains no files or exceeds its bounded count.
    FileCount,
    /// An uploaded filename is not a normal, non-reserved flat component.
    Filename,
    /// Two uploaded parts use the same exact filename.
    DuplicateFilename,
    /// The actual total byte count cannot be represented safely.
    Size,
    /// The entry is unsafe, missing, or its automatic selection is ambiguous.
    Entry,
    /// Settings require an explicit safe file already in the published site.
    SettingsEntry,
    /// Settings were submitted without an explicit access decision.
    Access,
    /// Keeping a password requires an already protected current site.
    Password,
    /// The expiry is not one of the fixed options, or keeps on creation.
    Expiry,
}

/// The form field that an input error belongs to.
pub open spec fn error_field(error: InputError) -> &'static str {
    match error {
        InputError::Html => "html",
        InputError::Title => "title",
        InputError::Mode
        | InputError::FileCount
        | InputError::Filename
        | InputError::DuplicateFilename
        | InputError::Size => "files",
        InputError::Entry | InputError::SettingsEntry => "entry",
        InputError::Access => "visibility",
        InputError::Password => "password",
        InputError::Expiry => "expires_in",
        InputError::Archive => "zip",
    }
}

/// What a form says of an input error.
pub open spec fn form_message(error: InputError) -> &'static str {
    match error {
        InputError::Html => "Enter HTML to publish.",
        InputError::Title => "Use a single-line title of at most 200 characters.",
        InputError::Mode => "Choose pasted HTML, files, or a ZIP archive, not more than one.",
        InputError::Archive =>
            "The ZIP archive could not be read. Use a plain ZIP without symlinks or encryption.",
        InputError::FileCount => "Choose a file count within 1..=10000.",
        InputError::Filename =>
            "Use flat filenames without paths, backslashes, or the reserved name __unlock.",
        InputError::DuplicateFilename => "Each uploaded file must have a different filename.",
        InputError::Size => "The selected files are too large.",
        InputError::Entry =>
            "Set the entry to an existing filename, or include index.html or one HTML file.",
        InputError::SettingsEntry => "Enter the exact filename of an existing site file.",
        InputError::Access => "Choose open or password-protected access.",
        InputError::Password => "Enter a new password to enable protection.",
        InputError::Expiry => "Choose one of the listed expiry options.",
    }
}

/// What a rejected request is answered for an input error.
pub open spec fn reject_message(error: InputError) -> &'static str {
    match error {
        InputError::Archive => "The ZIP archive could not be read.",
        InputError::FileCount => "Choose a non-empty, bounded set of files.",
        InputError::Filename => "Use flat, non-reserved filenames without paths.",
        _ => form_message(error),
    }
}

impl InputError {
    /// Returns the fixed form-field name associated with this error.
    pub fn field(&self) -> (r: &'static str)
        ensures
            r == error_field(*self),
    {
        match self {
            InputError::Html => "html",
            InputError::Title => "title",
            InputError::Mode
            | InputError::FileCount
            | InputError::Filename
            | InputError::DuplicateFilename
            | InputError::Size => "files",
            InputError::Entry | InputError::SettingsEntry => "entry",
            InputError::Access => "visibility",
            InputError::Password => "password",
            InputError::Expiry => "expires_in",
            InputError::Archive => "zip",
        }
    }

    /// Returns what a form says of this error.
    pub fn message(&self) -> (r: &'static str)
        ensures
            r == form_message(*self),
    {
        match self {
            InputError::Html => "Enter HTML to publish.",
            InputError::Title => "Use a single-line title of at most 200 characters.",
            InputError::Mode => "Choose pasted HTML, files, or a ZIP archive, not more than one.",
            InputError::Archive =>
                "The ZIP archive could not be read. Use a plain ZIP without symlinks or encryption.",
            InputError::FileCount => "Choose a file count within 1..=10000.",
            InputError::Filename =>
                "Use flat filenames without paths, backslashes, or the reserved name __unlock.",
            InputError::DuplicateFilename => "Each uploaded file must have a different filename.",
            InputError::Size => "The selected files are too large.",
            InputError::Entry =>
                "Set the entry to an existing filename, or include index.html or one HTML file.",
            InputError::SettingsEntry => "Enter the exact filename of an existing site file.",
            InputError::Access => "Choose open or password-protected access.",
            InputError::Password => "Enter a new password to enable protection.",
            InputError::Expiry => "Choose one of the listed expiry options.",
        }
    }

    /// The rejection that this error is answered with.
    pub fn reject(self) -> (r: AppError)
        ensures
            r == rejected(status::BAD_REQUEST, reject_message(self)),
    {
        let message: &'static str = match self {
            InputError::Archive => "The ZIP archive could not be read.",
            InputError::FileCount => "Choose a non-empty, bounded set of files.",
            InputError::Filename => "Use flat, non-reserved filenames without paths.",
            _ => self.message(),
        };
        AppError::request(status::BAD_REQUEST, message)
    }
}

/// Unchecked multipart transport data requiring builder validation before use.
pub struct UploadedFile {
    /// The raw multipart filename, not safe for filesystem use.
    pub filename: String,
    /// Exact arbitrary bytes, including empty assets and non-UTF-8 content.
    pub bytes: Vec<u8>,
}

impl UploadedFile {
    /// The name and the bytes.
    pub open spec fn view(&self) -> FileView {
        (self.filename@, self.bytes@)
    }
}

/// Validated filename and exact content owned by one publication.
pub struct SiteFile {
    /// The validated relative path.
    pub filename: Filename,
    /// The owned content, retained through staging without copying.
    pub bytes: Vec<u8>,
}

impl SiteFile {
    /// The name and the bytes.
    pub open spec fn view(&self) -> FileView {
        (self.filename@, self.bytes@)
    }
}

/// The names and bytes of validated files.
pub open spec fn site_views(files: Seq<SiteFile>) -> Seq<FileView> {
    Seq::new(files.len(), |i: int| files[i]@)
}

/// Validated files and optional metadata ready for staging.
pub struct NewSite {
    /// Owned files, validated together before any write.
    pub files: Vec<SiteFile>,
    /// The existing file selected for the site's root response.
    pub entry: Filename,
    /// The checked sum of all actual file lengths, representable in SQLite.
    pub size_bytes: i64,
    /// The optional title, preserved without trimming.
    pub title: String,
    /// The requested canonical URL key, or generated-name selection.
    pub slug: Option<Slug>,
    /// The validated credential committed with the initial access mode.
    pub password: Option<Password>,
    /// Seconds after publication at which the site expires, if any.
    pub expires_in: Option<i64>,
}

impl NewSite {
    /// Attaches an already validated credential before any publication occurs.
    pub fn with_password(self, password: Option<Password>) -> (r: Self)
        ensures
            r == (NewSite { password, ..self }),
    {
        NewSite {
            files: self.files,
            entry: self.entry,
            size_bytes: self.size_bytes,
            title: self.title,
            slug: self.slug,
            password,
            expires_in: self.expires_in,
        }
    }
}

/// Collects exactly one content mode and optional metadata before validation.
pub struct NewSiteBuilder {
    pub html: Option<String>,
    pub files: Option<Vec<UploadedFile>>,
    pub entry: Option<String>,
    pub title: String,
    pub slug: Option<Slug>,
    pub expires_in: String,
    pub archive: Option<(Vec<u8>, usize)>,
}

/// The name of the file that a site opens with when it is there.
pub open spec fn entry_filename() -> Seq<char> {
    "index.html"@
}

/// The files of the chosen content mode and whether their names may be nested.
pub open spec fn content_of(builder: NewSiteBuilder) -> Result<(Seq<FileView>, bool), InputError> {
    match (builder.html, builder.files, builder.archive) {
        (Some(html), None, None) => if blank(html@) {
            Err(InputError::Html)
        } else {
            Ok((seq![(entry_filename(), encode_utf8(html@))], false))
        },
        (None, Some(files), None) => Ok((file_views(files@), false)),
        (None, None, Some((bytes, cap))) => match extraction(bytes@, cap as nat) {
            Ok(files) => Ok((files, true)),
            Err(error) => Err(error),
        },
        _ => Err(InputError::Mode),
    }
}

/// Whether a name may be published: flat, or below directories where these are allowed.
pub open spec fn publishable(name: Seq<char>, nested: bool) -> bool {
    if nested {
        valid_path(name)
    } else {
        valid_filename(name)
    }
}

/// The byte sum of the first files, or the first rejection among them: an
/// unsafe name, a name that occurred before, or a sum beyond what can be stored.
pub open spec fn scanned(files: Seq<FileView>, nested: bool, count: nat) -> Result<nat, InputError>
    decreases count,
{
    if count == 0 {
        Ok(0)
    } else {
        let last = count - 1;
        match scanned(files, nested, (count - 1) as nat) {
            Err(error) => Err(error),
            Ok(total) => if !publishable(files[last].0, nested) {
                Err(InputError::Filename)
            } else if exists|i: int| 0 <= i < last && (#[trigger] files[i]).0 == files[last].0 {
                Err(InputError::DuplicateFilename)
            } else if total + files[last].1.len() > i64::MAX {
                Err(InputError::Size)
            } else {
                Ok(total + files[last].1.len())
            },
        }
    }
}

proof fn scanned_error_stays(files: Seq<FileView>, nested: bool, count: nat, more: nat)
    requires
        scanned(files, nested, count) is Err,
        count <= more,
    ensures
        scanned(files, nested, more) == scanned(files, nested, count),
    decreases more,
{
    if count < more {
        scanned_error_stays(files, nested, count, (more - 1) as nat);
    }
}

/// A file name occurs among the files.
pub open spec fn has_file(files: Seq<FileView>, name: Seq<char>) -> bool {
    exists|i: int| 0 <= i < files.len() && (#[trigger] files[i]).0 == name
}

/// An HTML file at the top of the site.
pub open spec fn entry_candidate(file: FileView) -> bool {
    html_name(file.0) && !file.0.contains('/')
}

/// The only candidate among the files.
pub open spec fn sole_candidate(files: Seq<FileView>, i: int) -> bool {
    &&& 0 <= i < files.len()
    &&& entry_candidate(files[i])
    &&& forall|j: int| 0 <= j < files.len() && j != i ==> !entry_candidate(#[trigger] files[j])
}

/// The file that a site opens with: the explicit choice where there is one,
/// else `index.html`, else the only HTML file at the top.
pub open spec fn entry_of(files: Seq<FileView>, explicit: Option<Seq<char>>) -> Option<Seq<char>> {
    match explicit {
        Some(name) => if valid_filename(name) && has_file(files, name) {
            Some(name)
        } else {
            None
        },
        None => if has_file(files, entry_filename()) {
            Some(entry_filename())
        } else if exists|i: int| sole_candidate(files, i) {
            Some(files[choose|i: int| sole_candidate(files, i)].0)
        } else {
            None
        },
    }
}

/// The characters of an optional text.
pub open spec fn optional_text(text: Option<String>) -> Option<Seq<char>> {
    match text {
        Some(text) => Some(text@),
        None => None,
    }
}

/// What validation comes to before the files themselves are looked at.
pub open spec fn metadata_error(builder: NewSiteBuilder, files: Seq<FileView>) -> Option<InputError> {
    if !valid_title(builder.title@) {
        Some(InputError::Title)
    } else if expiry_choice(builder.expires_in@) is None || expiry_choice(builder.expires_in@)
        == Some(Expiry::Keep) {
        Some(InputError::Expiry)
    } else if !(1 <= files.len() <= MAX_SITE_FILES) {
        Some(InputError::FileCount)
    } else {
        None
    }
}

/// The rejection of a request to publish, where there is one.
pub open spec fn build_error(builder: NewSiteBuilder) -> Option<InputError> {
    match content_of(builder) {
        Err(error) => Some(error),
        Ok((files, nested)) => match metadata_error(builder, files) {
            Some(error) => Some(error),
            None => match scanned(files, nested, files.len()) {
                Err(error) => Some(error),
                Ok(_) => if entry_of(files, optional_text(builder.entry)) is None {
                    Some(InputError::Entry)
                } else {
                    None
                },
            },
        },
    }
}

/// The site that a request to publish stands for.
pub open spec fn built(builder: NewSiteBuilder, site: NewSite) -> bool {
    let (files, nested) = content_of(builder)->Ok_0;
    &&& site_views(site.files@) == files
    &&& Some(site.entry@) == entry_of(files, optional_text(builder.entry))
    &&& Ok::<nat, InputError>(site.size_bytes as nat) == scanned(files, nested, files.len())
    &&& site.size_bytes >= 0
    &&& site.title@ == builder.title@
    &&& site.slug == builder.slug
    &&& site.password is None
    &&& site.expires_in == match expiry_choice(builder.expires_in@) {
        Some(Expiry::After(seconds)) => Some(seconds),
        _ => None,
    }
}

impl NewSiteBuilder {
    /// Starts a request with no content or optional metadata.
    pub fn new() -> (r: Self)
        ensures
            r.html is None && r.files is None && r.entry is None && r.slug is None,
            r.archive is None,
            r.title@ == Seq::<char>::empty(),
            r.expires_in@ == Seq::<char>::empty(),
    {
        NewSiteBuilder {
            html: None,
            files: None,
            entry: None,
            title: String::new(),
            slug: None,
            expires_in: String::new(),
            archive: None,
        }
    }

    /// Selects pasted HTML, preserving the exact submitted text.
    pub fn html(self, html: String) -> (r: Self)
        ensures
            r == (NewSiteBuilder { html: Some(html), ..self }),
    {
        NewSiteBuilder { html: Some(html), ..self }
    }

    /// Selects flat-file upload mode with unchecked multipart transport data.
    pub fn files(self, files: Vec<UploadedFile>) -> (r: Self)
        ensures
            r == (NewSiteBuilder { files: Some(files), ..self }),
    {
        NewSiteBuilder { files: Some(files), ..self }
    }

    /// Selects an exact existing filename, or automatic selection when empty.
    pub fn entry(self, entry: Option<String>) -> (r: Self)
        ensures
            r == (NewSiteBuilder {
                entry: match entry {
                    Some(name) if name@.len() > 0 => Some(name),
                    _ => None,
                },
                ..self
            }),
    {
        let chosen: Option<String> = match entry {
            Some(name) => {
                let chars: Vec<char> = chars_of(name.as_str());
                if chars.len() > 0 {
                    Some(name)
                } else {
                    None
                }
            },
            None => None,
        };
        NewSiteBuilder { entry: chosen, ..self }
    }

    /// Sets an optional title without trimming it.
    pub fn title(self, title: String) -> (r: Self)
        ensures
            r == (NewSiteBuilder { title, ..self }),
    {
        NewSiteBuilder { title, ..self }
    }

    /// Selects a custom slug or a generated readable name.
    pub fn slug(self, slug: Option<Slug>) -> (r: Self)
        ensures
            r == (NewSiteBuilder { slug, ..self }),
    {
        NewSiteBuilder { slug, ..self }
    }

    /// Selects a ZIP archive whose declared contents may total `cap` bytes.
    pub fn archive(self, bytes: Vec<u8>, cap: usize) -> (r: Self)
        ensures
            r == (NewSiteBuilder { archive: Some((bytes, cap)), ..self }),
    {
        NewSiteBuilder { archive: Some((bytes, cap)), ..self }
    }

    /// Selects an expiry duration; empty or `never` means no expiry.
    pub fn expires_in(self, expires_in: String) -> (r: Self)
        ensures
            r == (NewSiteBuilder { expires_in, ..self }),
    {
        NewSiteBuilder { expires_in, ..self }
    }

    /// Validates all input before writes, without copying content bytes.
    pub fn build(self) -> (r: Result<NewSite, InputError>)
        ensures
            match r {
                Ok(site) => build_error(self) is None && built(self, site),
                Err(error) => build_error(self) == Some(error),
            },
    {
        let ghost builder = self;
        let (uploaded, nested): (Vec<UploadedFile>, bool) = match (
            self.html,
            self.files,
            self.archive,
        ) {
            (Some(html), None, None) => {
                let chars: Vec<char> = chars_of(html.as_str());
                if is_blank(chars.as_slice()) {
                    return Err(InputError::Html);
                }
                let mut files: Vec<UploadedFile> = Vec::new();
                let index = UploadedFile {
                    filename: "index.html".to_owned(),
                    bytes: html.as_str().as_bytes_vec(),
                };
                files.push(index);
                assert(file_views(files@) =~= seq![(entry_filename(), encode_utf8(html@))]);
                (files, false)
            },
            (None, Some(files), None) => (files, false),
            (None, None, Some((bytes, cap))) => match extract(bytes, cap) {
                Ok(files) => (files, true),
                Err(error) => {
                    return Err(error);
                },
            },
            _ => {
                return Err(InputError::Mode);
            },
        };
        let ghost views = file_views(uploaded@);
        assert(content_of(builder) == Ok::<(Seq<FileView>, bool), InputError>((views, nested)));
        let title: Title = match Title::parse(self.title) {
            Ok(title) => title,
            Err(error) => {
                return Err(error);
            },
        };
        let expires_in: Option<i64> = match Expiry::parse(self.expires_in.as_str()) {
            Err(error) => {
                return Err(error);
            },
            Ok(Expiry::Keep) => {
                return Err(InputError::Expiry);
            },
            Ok(Expiry::Never) => None,
            Ok(Expiry::After(seconds)) => Some(seconds),
        };
        if uploaded.len() < 1 || uploaded.len() > MAX_SITE_FILES {
            return Err(InputError::FileCount);
        }
        let (files, size_bytes): (Vec<SiteFile>, i64) = match validate_files(uploaded, nested) {
            Ok(validated) => validated,
            Err(error) => {
                return Err(error);
            },
        };
        let entry: Filename = match select_entry(&files, self.entry) {
            Ok(entry) => entry,
            Err(error) => {
                return Err(error);
            },
        };
        Ok(
            NewSite {
                files,
                entry,
                size_bytes,
                title: title.into_string(),
                slug: self.slug,
                password: None,
                expires_in,
            },
        )
    }
}

/// Validates names, their uniqueness, and the sum of the actual lengths.
pub fn validate_files(uploaded: Vec<UploadedFile>, nested: bool) -> (r: Result<
    (Vec<SiteFile>, i64),
    InputError,
>)
    ensures
        match r {
            Ok((files, total)) => {
                &&& site_views(files@) == file_views(uploaded@)
                &&& total >= 0
                &&& scanned(file_views(uploaded@), nested, uploaded@.len()) == Ok::<
                    nat,
                    InputError,
                >(total as nat)
            },
            Err(error) => scanned(file_views(uploaded@), nested, uploaded@.len()) == Err::<
                nat,
                InputError,
            >(error),
        },
{
    let ghost views = file_views(uploaded@);
    let ghost count = uploaded@.len();
    let mut names: StringHashSet = StringHashSet::new();
    let mut files: Vec<SiteFile> = Vec::new();
    let mut total: i64 = 0;
    assert(site_views(files@) =~= views.take(0));
    for file in it: uploaded.into_iter()
        invariant
            it.seq() == uploaded@,
            views == file_views(uploaded@),
            count == uploaded@.len(),
            0 <= total,
            site_views(files@) == views.take(it.index() as int),
            forall|name: Seq<char>|
                names@.contains(name) <==> exists|i: int|
                    0 <= i < it.index() && (#[trigger] views[i]).0 == name,
            scanned(views, nested, it.index() as nat) == Ok::<nat, InputError>(total as nat),
    {
        let ghost i = it.index() as int;
        assert(views[i] == file@);
        let ghost before = site_views(files@);
        let parsed: Result<Filename, InputError> = if nested {
            Filename::parse_nested(file.filename)
        } else {
            Filename::parse(file.filename)
        };
        let filename: Filename = match parsed {
            Ok(filename) => filename,
            Err(error) => {
                proof {
                    scanned_error_stays(views, nested, (i + 1) as nat, count);
                }
                return Err(error);
            },
        };
        if !names.insert(filename.as_str().to_owned()) {
            proof {
                scanned_error_stays(views, nested, (i + 1) as nat, count);
            }
            return Err(InputError::DuplicateFilename);
        }
        assert forall|name: Seq<char>| names@.contains(name) <==> exists|k: int|
            0 <= k < i + 1 && (#[trigger] views[k]).0 == name by {
            if name == filename@ {
                assert(views[i].0 == name);
            }
        }
        let length: usize = file.bytes.len();
        if length as u64 > (i64::MAX - total) as u64 {
            proof {
                scanned_error_stays(views, nested, (i + 1) as nat, count);
            }
            return Err(InputError::Size);
        }
        total = total + length as i64;
        let site_file = SiteFile { filename, bytes: file.bytes };
        assert(site_file@ == views[i]);
        files.push(site_file);
        assert(site_views(files@) =~= before.push(views[i]));
        assert(before.push(views[i]) =~= views.take(i + 1));
    }
    assert(views.take(count as int) =~= views);
    Ok((files, total))
}

/// Selects an explicit entry, index, or sole case-insensitive HTML file.
pub fn select_entry(files: &Vec<SiteFile>, explicit: Option<String>) -> (r: Result<
    Filename,
    InputError,
>)
    ensures
        match r {
            Ok(entry) => entry_of(site_views(files@), optional_text(explicit)) == Some(entry@),
            Err(error) => entry_of(site_views(files@), optional_text(explicit)) is None && error
                == InputError::Entry,
        },
{
    let ghost views = site_views(files@);
    match explicit {
        Some(name) => match Filename::parse(name) {
            Err(_) => Err(InputError::Entry),
            Ok(entry) => match position_of(files, entry.as_str()) {
                Some(_) => Ok(entry),
                None => Err(InputError::Entry),
            },
        },
        None => {
            if let Some(at) = position_of(files, "index.html") {
                return Ok(files[at].filename.copy());
            }
            let mut found: Option<usize> = None;
            let mut i: usize = 0;
            while i < files.len()
                invariant
                    i <= files@.len(),
                    views == site_views(files@),
                    match found {
                        None => forall|j: int|
                            0 <= j < i ==> !entry_candidate(#[trigger] views[j]),
                        Some(at) => at < i && entry_candidate(views[at as int]) && forall|j: int|
                            0 <= j < i && j != at ==> !entry_candidate(#[trigger] views[j]),
                    },
                    !has_file(views, entry_filename()),
                    explicit is None,
                decreases files@.len() - i,
            {
                assert(views[i as int] == files@[i as int]@);
                let name: Vec<char> = chars_of(files[i].filename.as_str());
                if files[i].filename.is_html() && !contains(name.as_slice(), '/') {
                    match found {
                        None => {
                            found = Some(i);
                        },
                        Some(at) => {
                            proof {
                                assert(entry_candidate(views[i as int]));
                                assert(forall|k: int| !sole_candidate(views, k)) by {
                                    assert forall|k: int| !sole_candidate(views, k) by {
                                        if sole_candidate(views, k) {
                                            if k != at as int {
                                                assert(!entry_candidate(views[at as int]));
                                            } else {
                                                assert(!entry_candidate(views[i as int]));
                                            }
                                        }
                                    }
                                }
                            }
                            return Err(InputError::Entry);
                        },
                    }
                }
                i = i + 1;
            }
            match found {
                Some(at) => {
                    proof {
                        assert(sole_candidate(views, at as int));
                        let k = choose|k: int| sole_candidate(views, k);
                        if k != at as int {
                            assert(!entry_candidate(views[at as int]));
                        }
                        assert(views[at as int] == files@[at as int]@);
                    }
                    Ok(files[at].filename.copy())
                },
                None => {
                    assert(forall|k: int| !sole_candidate(views, k));
                    Err(InputError::Entry)
                },
            }
        },
    }
}

/// The position of the file with this name.
fn position_of(files: &Vec<SiteFile>, name: &str) -> (r: Option<usize>)
    ensures
        match r {
            Some(i) => i < files@.len() && site_views(files@)[i as int].0 == name@ && has_file(
                site_views(files@),
                name@,
            ),
            None => !has_file(site_views(files@), name@),
        },
{
    let mut i: usize = 0;
    while i < files.len()
        invariant
            i <= files@.len(),
            forall|j: int| 0 <= j < i ==> (#[trigger] site_views(files@)[j]).0 != name@,
        decreases files@.len() - i,
    {
        if same(files[i].filename.as_str(), name) {
            assert(site_views(files@)[i as int].0 == name@);
            return Some(i);
        }
        i = i + 1;
    }
    None
}

/// What the first files are when none of them is rejected.
proof fn scanned_sound(files: Seq<FileView>, nested: bool, count: nat)
    requires
        scanned(files, nested, count) is Ok,
        count <= files.len(),
    ensures
        scanned(files, nested, count) == Ok::<nat, InputError>(
            crate::sites::archive::total_bytes(files.take(count as int)),
        ),
        forall|i: int| 0 <= i < count ==> publishable((#[trigger] files[i]).0, nested),
        forall|i: int, j: int|
            0 <= i < j < count ==> (#[trigger] files[i]).0 != (#[trigger] files[j]).0,
    decreases count,
{
    if count > 0 {
        scanned_sound(files, nested, (count - 1) as nat);
        assert(files.take(count as int).drop_last() =~= files.take(count - 1));
    }
}

/// What is published is sound: every name is a safe relative path, no name
/// occurs twice, the recorded size is the sum of the bytes, and the entry is a
/// top-level file of the site.
pub proof fn published_sites_are_sound(builder: NewSiteBuilder, site: NewSite)
    requires
        build_error(builder) is None,
        built(builder, site),
    ensures
        1 <= site.files@.len() <= MAX_SITE_FILES,
        forall|i: int| 0 <= i < site.files@.len() ==> valid_path((#[trigger] site.files@[i])@.0),
        forall|i: int, j: int|
            0 <= i < j < site.files@.len() ==> (#[trigger] site.files@[i])@.0 != (
            #[trigger] site.files@[j])@.0,
        site.size_bytes == crate::sites::archive::total_bytes(site_views(site.files@)),
        valid_filename(site.entry@),
        has_file(site_views(site.files@), site.entry@),
        valid_title(site.title@),
{
    let (files, nested) = content_of(builder)->Ok_0;
    scanned_sound(files, nested, files.len());
    assert(files.take(files.len() as int) =~= files);
    let views = site_views(site.files@);
    assert(forall|i: int| 0 <= i < views.len() ==> views[i] == (#[trigger] site.files@[i])@);
    if builder.entry is None {
        if has_file(files, entry_filename()) {
            let i = choose|i: int| 0 <= i < files.len() && (#[trigger] files[i]).0 == entry_filename();
            assert(publishable(files[i].0, nested));
            reveal_strlit("index.html");
            assert(!entry_filename().contains('/'));
        } else {
            let i = choose|i: int| sole_candidate(files, i);
            assert(publishable(files[i].0, nested));
        }
    }
}

}
