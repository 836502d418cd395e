//! Titles, slugs, filenames, site paths and expiry choices.
use crate::error::{rejected, AppError};
use crate::sites::new_site::InputError;
use crate::status;
use crate::text::{
    chars_of, contains, digit, is_digit, is_lower, last_index, lower, lower_chars,
    rfind, same, same_chars, split, split_on, views,
};
use vstd::prelude::*;
use vstd::utf8::encode_utf8;

verus! {

/// Maximum number of Unicode scalar values in a display title.
pub const MAX_TITLE_CHARACTERS: usize = 200;

/// Maximum UTF-8 byte length of a display title.
pub const MAX_TITLE_BYTES: usize = 800;

/// A title within its bounds that stays on one line.
pub open spec fn valid_title(s: Seq<char>) -> bool {
    &&& encode_utf8(s).len() <= MAX_TITLE_BYTES
    &&& s.len() <= MAX_TITLE_CHARACTERS
    &&& !s.contains('\0')
    &&& !s.contains('\r')
    &&& !s.contains('\n')
}

/// A validated optional title preserved without trimming.
pub struct Title {
    text: String,
}

impl Title {
    #[verifier::type_invariant]
    spec fn well_formed(self) -> bool {
        valid_title(self.text@)
    }

    /// The title's characters.
    pub closed spec fn view(&self) -> Seq<char> {
        self.text@
    }

    /// Validates the character, UTF-8 byte, and line-break limits.
    pub fn parse(value: String) -> (r: Result<Self, InputError>)
        ensures
            match r {
                Ok(title) => valid_title(value@) && title@ == value@,
                Err(error) => !valid_title(value@) && error == InputError::Title,
            },
    {
        let chars: Vec<char> = chars_of(value.as_str());
        if value.as_str().as_bytes().len() > MAX_TITLE_BYTES || chars.len() > MAX_TITLE_CHARACTERS
            || contains(chars.as_slice(), '\0') || contains(chars.as_slice(), '\r') || contains(
            chars.as_slice(),
            '\n',
        ) {
            return Err(InputError::Title);
        }
        Ok(Title { text: value })
    }

    /// Returns the exact validated title text.
    pub fn as_str(&self) -> (r: &str)
        ensures
            r@ == self@,
            valid_title(r@),
    {
        proof {
            use_type_invariant(self);
        }
        self.text.as_str()
    }

    /// Consumes the validated title without copying its contents.
    pub fn into_string(self) -> (r: String)
        ensures
            r@ == self@,
            valid_title(r@),
    {
        proof {
            use_type_invariant(&self);
        }
        self.text
    }
}

/// The shortest slug.
pub const MIN_SLUG_LENGTH: usize = 3;

/// The longest slug.
pub const MAX_SLUG_LENGTH: usize = 64;

pub open spec fn slug_char(c: char) -> bool {
    is_lower(c) || is_digit(c) || c == '-'
}

/// Names that the server keeps for its own paths.
pub open spec fn reserved(s: Seq<char>) -> bool {
    ||| s == "api"@
    ||| s == "static"@
    ||| s == "login"@
    ||| s == "logout"@
    ||| s == "new"@
    ||| s == "s"@
    ||| s == "health"@
}

/// A canonical, non-reserved site URL component.
pub open spec fn valid_slug(s: Seq<char>) -> bool {
    &&& MIN_SLUG_LENGTH <= s.len() <= MAX_SLUG_LENGTH
    &&& forall|i: int| 0 <= i < s.len() ==> slug_char(#[trigger] s[i])
    &&& s[0] != '-'
    &&& s.last() != '-'
    &&& !reserved(s)
}

/// A canonical, non-reserved site URL component.
pub struct Slug {
    text: String,
}

impl Slug {
    #[verifier::type_invariant]
    spec fn well_formed(self) -> bool {
        valid_slug(self.text@)
    }

    /// The slug's characters.
    pub closed spec fn view(&self) -> Seq<char> {
        self.text@
    }

    /// Validates a custom or persisted slug without normalizing it.
    pub fn parse(value: &str) -> (r: Result<Self, AppError>)
        ensures
            match r {
                Ok(slug) => valid_slug(value@) && slug@ == value@,
                Err(error) => !valid_slug(value@) && error == rejected(
                    status::BAD_REQUEST,
                    "Invalid site slug.",
                ),
            },
    {
        let chars: Vec<char> = chars_of(value);
        if chars.len() < MIN_SLUG_LENGTH || chars.len() > MAX_SLUG_LENGTH || chars[0] == '-'
            || chars[chars.len() - 1] == '-' || is_reserved(value) || !all_slug_chars(
            chars.as_slice(),
        ) {
            return Err(AppError::request(status::BAD_REQUEST, "Invalid site slug."));
        }
        Ok(Slug { text: value.to_owned() })
    }

    /// Returns the validated URL component.
    pub fn as_str(&self) -> (r: &str)
        ensures
            r@ == self@,
            valid_slug(r@),
    {
        proof {
            use_type_invariant(self);
        }
        self.text.as_str()
    }

    /// An equal slug.
    pub fn copy(&self) -> (r: Self)
        ensures
            r@ == self@,
    {
        proof {
            use_type_invariant(self);
        }
        Slug { text: self.text.as_str().to_owned() }
    }

    /// Whether two slugs are the same URL component.
    pub fn same(&self, other: &Slug) -> (r: bool)
        ensures
            r == (self@ == other@),
    {
        same(self.text.as_str(), other.text.as_str())
    }
}

fn is_reserved(value: &str) -> (r: bool)
    ensures
        r == reserved(value@),
{
    same(value, "api") || same(value, "static") || same(value, "login") || same(value, "logout")
        || same(value, "new") || same(value, "s") || same(value, "health")
}

fn all_slug_chars(s: &[char]) -> (r: bool)
    ensures
        r == (forall|i: int| 0 <= i < s@.len() ==> slug_char(#[trigger] s@[i])),
{
    let mut i: usize = 0;
    while i < s.len()
        invariant
            i <= s@.len(),
            forall|j: int| 0 <= j < i ==> slug_char(#[trigger] s@[j]),
        decreases s@.len() - i,
    {
        let c: char = s[i];
        if !((c >= 'a' && c <= 'z') || digit(c) || c == '-') {
            assert(!slug_char(s@[i as int]));
            return false;
        }
        i = i + 1;
    }
    true
}

/// A path segment that a site path may hold.
pub open spec fn valid_segment(s: Seq<char>) -> bool {
    s.len() > 0 && s != "."@ && s != ".."@ && s != "__unlock"@
}

/// A nonempty relative path without traversal or reserved path segments.
pub open spec fn valid_path(s: Seq<char>) -> bool {
    &&& s.len() > 0
    &&& !s.contains('\\')
    &&& !s.contains('\0')
    &&& forall|i: int| 0 <= i < split(s, '/').len() ==> valid_segment(#[trigger] split(s, '/')[i])
}

/// One path segment of its own.
pub open spec fn valid_filename(s: Seq<char>) -> bool {
    valid_path(s) && !s.contains('/')
}

/// Checks a relative path; on Unix no other component than a normal one is left.
fn path_is_valid(path: &str) -> (r: bool)
    ensures
        r == valid_path(path@),
{
    let chars: Vec<char> = chars_of(path);
    if chars.len() == 0 || contains(chars.as_slice(), '\\') || contains(chars.as_slice(), '\0') {
        return false;
    }
    let parts: Vec<Vec<char>> = split_on(chars.as_slice(), '/');
    let dot: Vec<char> = chars_of(".");
    let dots: Vec<char> = chars_of("..");
    let unlock: Vec<char> = chars_of("__unlock");
    let mut i: usize = 0;
    while i < parts.len()
        invariant
            i <= parts@.len(),
            views(parts@) == split(path@, '/'),
            dot@ == "."@,
            dots@ == ".."@,
            unlock@ == "__unlock"@,
            forall|j: int| 0 <= j < i ==> valid_segment(#[trigger] split(path@, '/')[j]),
        decreases parts@.len() - i,
    {
        let part: &[char] = parts[i].as_slice();
        assert(split(path@, '/')[i as int] == part@);
        if part.len() == 0 || same_chars(part, dot.as_slice()) || same_chars(part, dots.as_slice())
            || same_chars(part, unlock.as_slice()) {
            return false;
        }
        i = i + 1;
    }
    true
}

/// A normal, non-reserved relative filename, one component unless nested.
pub struct Filename {
    text: String,
}

impl Filename {
    #[verifier::type_invariant]
    spec fn well_formed(self) -> bool {
        valid_path(self.text@)
    }

    /// The filename's characters.
    pub closed spec fn view(&self) -> Seq<char> {
        self.text@
    }

    /// Validates a flat filename before it can take part in any write.
    pub fn parse(value: String) -> (r: Result<Self, InputError>)
        ensures
            match r {
                Ok(name) => valid_filename(value@) && name@ == value@,
                Err(error) => !valid_filename(value@) && error == InputError::Filename,
            },
    {
        let chars: Vec<char> = chars_of(value.as_str());
        if contains(chars.as_slice(), '/') || !path_is_valid(value.as_str()) {
            return Err(InputError::Filename);
        }
        Ok(Filename { text: value })
    }

    /// Validates a nested relative path taken from an archive entry.
    pub fn parse_nested(value: String) -> (r: Result<Self, InputError>)
        ensures
            match r {
                Ok(name) => valid_path(value@) && name@ == value@,
                Err(error) => !valid_path(value@) && error == InputError::Filename,
            },
    {
        if !path_is_valid(value.as_str()) {
            return Err(InputError::Filename);
        }
        Ok(Filename { text: value })
    }

    /// Returns the exact validated filename.
    pub fn as_str(&self) -> (r: &str)
        ensures
            r@ == self@,
            valid_path(r@),
    {
        proof {
            use_type_invariant(self);
        }
        self.text.as_str()
    }

    /// An equal filename.
    pub fn copy(&self) -> (r: Self)
        ensures
            r@ == self@,
    {
        proof {
            use_type_invariant(self);
        }
        Filename { text: self.text.as_str().to_owned() }
    }

    /// Identifies HTML extensions without changing the filename's case.
    pub fn is_html(&self) -> (r: bool)
        ensures
            r == html_name(self@),
    {
        let chars: Vec<char> = chars_of(self.text.as_str());
        let length: usize = chars.len();
        match rfind(chars.as_slice(), '.') {
            None => false,
            Some(at) => {
                let tail: &[char] = vstd::slice::slice_subrange(
                    chars.as_slice(),
                    at + 1,
                    length,
                );
                assert(tail@ =~= self@.skip(at + 1));
                let extension: Vec<char> = lower_chars(tail);
                let html: Vec<char> = chars_of("html");
                let htm: Vec<char> = chars_of("htm");
                same_chars(extension.as_slice(), html.as_slice()) || same_chars(
                    extension.as_slice(),
                    htm.as_slice(),
                )
            },
        }
    }
}

/// A name whose last extension is `html` or `htm` in any ASCII case.
pub open spec fn html_name(s: Seq<char>) -> bool {
    let dot = last_index(s, '.');
    dot >= 0 && (lower(s.skip(dot + 1)) == "html"@ || lower(s.skip(dot + 1)) == "htm"@)
}

/// A nonempty relative path without traversal or reserved path segments.
pub struct SitePath<'a> {
    text: &'a str,
}

impl<'a> SitePath<'a> {
    #[verifier::type_invariant]
    spec fn well_formed(self) -> bool {
        valid_path(self.text@)
    }

    /// The path's characters.
    pub closed spec fn view(&self) -> Seq<char> {
        self.text@
    }

    /// Validates an already decoded relative path without normalizing segments.
    pub fn parse(path: &'a str) -> (r: Option<Self>)
        ensures
            match r {
                Some(valid) => valid_path(path@) && valid@ == path@,
                None => !valid_path(path@),
            },
    {
        if path_is_valid(path) {
            Some(SitePath { text: path })
        } else {
            None
        }
    }

    /// Returns the validated relative path without URL re-decoding.
    pub fn as_str(&self) -> (r: &'a str)
        ensures
            r@ == self@,
            valid_path(r@),
    {
        proof {
            use_type_invariant(self);
        }
        self.text
    }
}

/// A validated expiry choice from the fixed form options.
#[derive(Clone, Copy, Debug, PartialEq, Eq, Structural)]
pub enum Expiry {
    /// Retain the current expiry; settings only.
    Keep,
    /// Never expire, clearing any current expiry.
    Never,
    /// Expire this many seconds after the save.
    After(i64),
}

/// What an expiry choice stands for.
pub open spec fn expiry_choice(s: Seq<char>) -> Option<Expiry> {
    if s == "keep"@ {
        Some(Expiry::Keep)
    } else if s == ""@ || s == "never"@ {
        Some(Expiry::Never)
    } else if s == "1h"@ {
        Some(Expiry::After(3_600))
    } else if s == "1d"@ {
        Some(Expiry::After(86_400))
    } else if s == "7d"@ {
        Some(Expiry::After(604_800))
    } else if s == "30d"@ {
        Some(Expiry::After(2_592_000))
    } else {
        None
    }
}

impl Expiry {
    /// Parses `keep`, `never`, an empty choice, or one of the fixed durations.
    pub fn parse(value: &str) -> (r: Result<Self, InputError>)
        ensures
            match r {
                Ok(expiry) => expiry_choice(value@) == Some(expiry),
                Err(error) => expiry_choice(value@) is None && error == InputError::Expiry,
            },
    {
        if same(value, "keep") {
            Ok(Expiry::Keep)
        } else if same(value, "") || same(value, "never") {
            Ok(Expiry::Never)
        } else if same(value, "1h") {
            Ok(Expiry::After(3_600))
        } else if same(value, "1d") {
            Ok(Expiry::After(86_400))
        } else if same(value, "7d") {
            Ok(Expiry::After(604_800))
        } else if same(value, "30d") {
            Ok(Expiry::After(2_592_000))
        } else {
            Err(InputError::Expiry)
        }
    }
}

}
