//! What becomes of pasted HTML, uploaded files and archives.
use crate::sites::archive::{extraction, file_views, total_bytes, FileView};
use crate::sites::new_site::{
    build_error, built, content_of, entry_candidate, entry_of, error_field, form_message, has_file,
    metadata_error, optional_text, publishable, reject_message, scanned, site_views, sole_candidate,
    InputError, NewSite, NewSiteBuilder,
};
use crate::sites::validate::{expiry_choice, valid_filename, valid_path, valid_title, Expiry};
use crate::text::{blank, lower};
use vstd::prelude::*;
use vstd::utf8::encode_utf8;

verus! {

/// The name `index.html`, letter by letter.
pub open spec fn index_html() -> Seq<char> {
    seq!['i', 'n', 'd', 'e', 'x', '.', 'h', 't', 'm', 'l']
}

proof fn index_text()
    ensures
        "index.html"@ == index_html(),
        !index_html().contains('/'),
        valid_filename(index_html()),
{
    reveal_strlit("index.html");
    assert("index.html"@ =~= index_html());
    crate::laws::texts::names_are_safe_paths(index_html());
}

/// Pasted HTML that is not blank becomes a site of one file, `index.html`,
/// which holds the text in UTF-8 and is the entry.
pub proof fn pasted_html_becomes_the_index(builder: NewSiteBuilder, site: NewSite)
    requires
        builder.html is Some,
        builder.files is None,
        builder.archive is None,
        builder.entry is None,
        !blank(builder.html->0@),
        valid_title(builder.title@),
        expiry_choice(builder.expires_in@) is Some,
        expiry_choice(builder.expires_in@) != Some(Expiry::Keep),
        encode_utf8(builder.html->0@).len() <= i64::MAX,
    ensures
        build_error(builder) is None,
        built(builder, site) ==> {
            &&& site.files@.len() == 1
            &&& site.files@[0].filename@ == index_html()
            &&& site.files@[0].bytes@ == encode_utf8(builder.html->0@)
            &&& site.entry@ == index_html()
            &&& site.size_bytes == encode_utf8(builder.html->0@).len()
        },
{
    index_text();
    let files: Seq<FileView> = seq![(index_html(), encode_utf8(builder.html->0@))];
    assert(content_of(builder) == Ok::<(Seq<FileView>, bool), InputError>((files, false)));
    assert(files[0].0 == index_html());
    assert(has_file(files, index_html()));
    reveal_with_fuel(scanned, 2);
    if built(builder, site) {
        assert(site_views(site.files@)[0] == site.files@[0]@);
    }
}

/// There is exactly one kind of content: none and more than one are refused,
/// and so is blank HTML.
pub proof fn content_comes_in_one_way(builder: NewSiteBuilder)
    ensures
        ({
            let kinds = (if builder.html is Some { 1int } else { 0 }) + (if builder.files is Some {
                1int
            } else {
                0
            }) + (if builder.archive is Some { 1int } else { 0 });
            &&& kinds != 1 ==> build_error(builder) == Some(InputError::Mode)
            &&& kinds == 1 && builder.html is Some && blank(builder.html->0@) ==> build_error(
                builder,
            ) == Some(InputError::Html)
            &&& kinds == 1 && builder.html is Some && !blank(builder.html->0@) ==> content_of(
                builder,
            ) is Ok
            &&& kinds == 1 && builder.files is Some ==> content_of(builder) == Ok::<
                (Seq<FileView>, bool),
                InputError,
            >((file_views(builder.files->0@), false))
        }),
{
}

/// Uploaded files are published as they are: the same names with the same
/// bytes, in the same order, and the metadata as it was given.
pub proof fn uploads_are_published_unchanged(builder: NewSiteBuilder, site: NewSite)
    requires
        built(builder, site),
        build_error(builder) is None,
        builder.html is None,
        builder.archive is None,
        builder.files is Some,
    ensures
        site.files@.len() == builder.files->0@.len(),
        forall|i: int|
            0 <= i < site.files@.len() ==> (#[trigger] site.files@[i]).filename@
                == builder.files->0@[i].filename@ && site.files@[i].bytes@
                == builder.files->0@[i].bytes@,
        site.title@ == builder.title@,
        site.slug == builder.slug,
        site.password is None,
        site.expires_in is Some <==> expiry_choice(builder.expires_in@) is Some && expiry_choice(
            builder.expires_in@,
        )->0 is After,
        expiry_choice(builder.expires_in@) matches Some(Expiry::After(seconds))
            ==> site.expires_in == Some(seconds),
{
    let files = builder.files->0@;
    assert forall|i: int| 0 <= i < site.files@.len() implies (
    #[trigger] site.files@[i]).filename@ == files[i].filename@ && site.files@[i].bytes@
        == files[i].bytes@ by {
        assert(site_views(site.files@)[i] == site.files@[i]@);
        assert(file_views(files)[i] == files[i]@);
    }
}

/// An archive is published as it unpacks.
pub proof fn archives_are_published_as_they_unpack(builder: NewSiteBuilder, site: NewSite)
    requires
        built(builder, site),
        build_error(builder) is None,
        builder.html is None,
        builder.files is None,
        builder.archive is Some,
    ensures
        ({
            let (bytes, cap) = builder.archive->0;
            extraction(bytes@, cap as nat) == Ok::<Seq<FileView>, InputError>(
                site_views(site.files@),
            )
        }),
{
}

/// Files with safe, different names are accepted: flat ones, or nested ones of
/// an archive, from one to ten thousand of them, with a valid title and expiry
/// and an entry among them.
pub proof fn sound_uploads_are_accepted(builder: NewSiteBuilder, files: Seq<FileView>)
    requires
        content_of(builder) is Ok,
        ({
            let (content, _) = content_of(builder)->Ok_0;
            content == files
        }),
        1 <= files.len() <= 10_000,
        valid_title(builder.title@),
        expiry_choice(builder.expires_in@) is Some,
        expiry_choice(builder.expires_in@) != Some(Expiry::Keep),
        forall|i: int| 0 <= i < files.len() ==> valid_path((#[trigger] files[i]).0),
        builder.archive is None ==> forall|i: int|
            0 <= i < files.len() ==> !(#[trigger] files[i]).0.contains('/'),
        forall|i: int, j: int|
            0 <= i < j < files.len() ==> (#[trigger] files[i]).0 != (#[trigger] files[j]).0,
        total_bytes(files) <= i64::MAX,
        entry_of(files, optional_text(builder.entry)) is Some,
    ensures
        build_error(builder) is None,
{
    sound_files_scan(files, builder.archive is Some, files.len());
    assert(files.take(files.len() as int) =~= files);
}

proof fn sound_files_scan(files: Seq<FileView>, nested: bool, n: nat)
    requires
        n <= files.len(),
        forall|i: int| 0 <= i < files.len() ==> valid_path((#[trigger] files[i]).0),
        !nested ==> forall|i: int| 0 <= i < files.len() ==> !(#[trigger] files[i]).0.contains('/'),
        forall|i: int, j: int|
            0 <= i < j < files.len() ==> (#[trigger] files[i]).0 != (#[trigger] files[j]).0,
        total_bytes(files) <= i64::MAX,
    ensures
        scanned(files, nested, n) == Ok::<nat, InputError>(total_bytes(files.take(n as int))),
        total_bytes(files.take(n as int)) <= total_bytes(files),
    decreases n,
{
    bytes_grow(files, n);
    if n > 0 {
        sound_files_scan(files, nested, (n - 1) as nat);
        assert(files.take(n as int).drop_last() =~= files.take(n - 1));
        assert(valid_path(files[n - 1].0));
    } else {
        assert(files.take(0) =~= Seq::empty());
    }
}

proof fn bytes_grow(files: Seq<FileView>, n: nat)
    requires
        n <= files.len(),
    ensures
        total_bytes(files.take(n as int)) <= total_bytes(files),
    decreases files.len() - n,
{
    if n == files.len() {
        assert(files.take(n as int) =~= files);
    } else {
        bytes_grow(files, n + 1);
        assert(files.take(n as int + 1).drop_last() =~= files.take(n as int));
    }
}

/// What is refused among files, and as what: an unsafe name, a nested one where
/// these are not allowed, a name that came before, and nothing for another
/// reason but the sum of the bytes.
pub proof fn refused_files_are_named(files: Seq<FileView>, nested: bool, n: nat)
    requires
        n <= files.len(),
    ensures
        scanned(files, nested, n) matches Ok(total) ==> total == total_bytes(files.take(n as int))
            && total <= i64::MAX,
        scanned(files, nested, n) == Err::<nat, InputError>(InputError::Filename)
            ==> exists|i: int|
            0 <= i < n && (!valid_path((#[trigger] files[i]).0) || !nested && files[i].0.contains(
                '/',
            )),
        scanned(files, nested, n) == Err::<nat, InputError>(InputError::DuplicateFilename)
            ==> exists|i: int, j: int|
            0 <= i < j < n && (#[trigger] files[i]).0 == (#[trigger] files[j]).0,
        scanned(files, nested, n) matches Err(error) ==> error == InputError::Filename || error
            == InputError::DuplicateFilename || error == InputError::Size,
        scanned(files, nested, n) is Ok ==> forall|i: int|
            0 <= i < n ==> valid_path((#[trigger] files[i]).0) && (nested || !files[i].0.contains(
                '/',
            )),
        scanned(files, nested, n) is Ok ==> forall|i: int, j: int|
            0 <= i < j < n ==> (#[trigger] files[i]).0 != (#[trigger] files[j]).0,
    decreases n,
{
    if n > 0 {
        refused_files_are_named(files, nested, (n - 1) as nat);
        assert(files.take(n as int).drop_last() =~= files.take(n - 1));
        if scanned(files, nested, (n - 1) as nat) is Ok {
            assert(!publishable(files[n - 1].0, nested) ==> !valid_path(files[n - 1].0) || !nested
                && files[n - 1].0.contains('/'));
        }
    } else {
        assert(files.take(0) =~= Seq::empty());
    }
}

/// The file that a site opens with. A file that was chosen is the entry where it
/// is there, and nothing else takes its place; without a choice `index.html` is
/// the entry where it is there.
pub proof fn chosen_entries_and_the_index_open_sites(files: Seq<FileView>, name: Seq<char>)
    ensures
        valid_filename(name) && has_file(files, name) ==> entry_of(files, Some(name)) == Some(name),
        !(valid_filename(name) && has_file(files, name)) ==> entry_of(files, Some(name)) is None,
        has_file(files, index_html()) ==> entry_of(files, None) == Some(index_html()),
{
    index_text();
}

/// Without a choice and without `index.html`, the one HTML file at the top opens
/// the site; where there is none, or more than one, there is no entry.
pub proof fn the_only_html_file_opens_the_site(files: Seq<FileView>, i: int)
    requires
        !has_file(files, index_html()),
    ensures
        0 <= i < files.len() && top_html(files[i].0) && (forall|j: int|
            0 <= j < files.len() && j != i ==> !top_html((#[trigger] files[j]).0)) ==> entry_of(
            files,
            None,
        ) == Some(files[i].0),
        (forall|j: int| 0 <= j < files.len() ==> !top_html((#[trigger] files[j]).0)) ==> entry_of(
            files,
            None,
        ) is None,
        (exists|a: int, b: int|
            0 <= a < b < files.len() && top_html((#[trigger] files[a]).0) && top_html(
                (#[trigger] files[b]).0,
            )) ==> entry_of(files, None) is None,
{
    index_text();
    assert forall|j: int| 0 <= j < files.len() implies entry_candidate(#[trigger] files[j])
        == top_html(files[j].0) by {
        same_candidates(files[j].0);
    }
    if 0 <= i < files.len() && top_html(files[i].0) && (forall|j: int|
        0 <= j < files.len() && j != i ==> !top_html((#[trigger] files[j]).0)) {
        assert(sole_candidate(files, i));
        let k = choose|k: int| sole_candidate(files, k);
        assert(entry_candidate(files[i]));
        assert(k == i);
    }
    if exists|a: int, b: int|
        0 <= a < b < files.len() && top_html((#[trigger] files[a]).0) && top_html(
            (#[trigger] files[b]).0,
        ) {
        let (a, b) = choose|a: int, b: int|
            0 <= a < b < files.len() && top_html((#[trigger] files[a]).0) && top_html(
                (#[trigger] files[b]).0,
            );
        assert(entry_candidate(files[a]) && entry_candidate(files[b]));
        if exists|k: int| sole_candidate(files, k) {
            let k = choose|k: int| sole_candidate(files, k);
            assert(false);
        }
    }
}

/// A name at the top of a site that ends in `.html` or `.htm`, in any case.
pub open spec fn top_html(name: Seq<char>) -> bool {
    &&& !name.contains('/')
    &&& exists|stem: Seq<char>, extension: Seq<char>| #[trigger]
        html_parts(name, stem, extension)
}

/// A name is a stem, a dot, and `html` or `htm` in any case.
pub open spec fn html_parts(name: Seq<char>, stem: Seq<char>, extension: Seq<char>) -> bool {
    &&& name == stem + seq!['.'] + extension
    &&& lower(extension) == seq!['h', 't', 'm', 'l'] || lower(extension) == seq!['h', 't', 'm']
}

proof fn same_candidates(name: Seq<char>)
    ensures
        (crate::sites::validate::html_name(name) && !name.contains('/')) == top_html(name),
{
    reveal_strlit("html");
    reveal_strlit("htm");
    if crate::sites::validate::html_name(name) {
        let dot = crate::text::last_index(name, '.');
        last_dot_is_one(name);
        let stem = name.take(dot);
        let extension = name.skip(dot + 1);
        assert(name =~= stem + seq!['.'] + extension);
        assert("html"@ =~= seq!['h', 't', 'm', 'l']);
        assert("htm"@ =~= seq!['h', 't', 'm']);
        assert(html_parts(name, stem, extension));
    }
    if exists|stem: Seq<char>, extension: Seq<char>| #[trigger] html_parts(name, stem, extension) {
        let (stem, extension) = choose|stem: Seq<char>, extension: Seq<char>| #[trigger]
            html_parts(name, stem, extension);
        assert(!extension.contains('.')) by {
            if extension.contains('.') {
                let i = choose|i: int| 0 <= i < extension.len() && extension[i] == '.';
                let small = lower(extension);
                assert(small[i] == '.');
                assert(small.len() == 3 || small.len() == 4);
                assert(small[0] == 'h' && small[1] == 't' && small[2] == 'm');
                assert(small.len() == 4 ==> small[3] == 'l');
                assert(i == 0 || i == 1 || i == 2 || i == 3);
            }
        }
        crate::laws::texts::html_is_known_by_its_extension(stem, extension);
    }
}

proof fn last_dot_is_one(s: Seq<char>)
    ensures
        -1 <= crate::text::last_index(s, '.') < s.len(),
        crate::text::last_index(s, '.') >= 0 ==> s[crate::text::last_index(s, '.')] == '.',
    decreases s.len(),
{
    if s.len() > 0 && s.last() != '.' {
        last_dot_is_one(s.drop_last());
    }
}

/// What is refused before the files are looked at: a title out of bounds, then
/// an unknown expiry or one that would keep what a new site does not have, then
/// no files or more than ten thousand.
pub proof fn metadata_is_refused_in_turn(builder: NewSiteBuilder, files: Seq<FileView>)
    ensures
        !valid_title(builder.title@) ==> metadata_error(builder, files) == Some(InputError::Title),
        valid_title(builder.title@) && (expiry_choice(builder.expires_in@) is None || expiry_choice(
            builder.expires_in@,
        ) == Some(Expiry::Keep)) ==> metadata_error(builder, files) == Some(InputError::Expiry),
        valid_title(builder.title@) && expiry_choice(builder.expires_in@) is Some && expiry_choice(
            builder.expires_in@,
        ) != Some(Expiry::Keep) ==> metadata_error(builder, files) == if 1 <= files.len()
            <= 10_000 {
            None
        } else {
            Some(InputError::FileCount)
        },
{
}

/// Every refusal belongs to the field of the form that caused it.
pub proof fn refusals_belong_to_their_field(error: InputError)
    ensures
        error == InputError::Html ==> error_field(error) == "html",
        error == InputError::Title ==> error_field(error) == "title",
        error == InputError::Archive ==> error_field(error) == "zip",
        error == InputError::Entry || error == InputError::SettingsEntry ==> error_field(error)
            == "entry",
        error == InputError::Access ==> error_field(error) == "visibility",
        error == InputError::Password ==> error_field(error) == "password",
        error == InputError::Expiry ==> error_field(error) == "expires_in",
        error == InputError::Mode || error == InputError::FileCount || error == InputError::Filename
            || error == InputError::DuplicateFilename || error == InputError::Size ==> error_field(
            error,
        ) == "files",
{
}

/// What a refusal says, on a form and to the API.
pub proof fn refusals_say_what_to_do(error: InputError)
    ensures
        error == InputError::Html ==> form_message(error) == "Enter HTML to publish.",
        error == InputError::Title ==> form_message(error)
            == "Use a single-line title of at most 200 characters.",
        error == InputError::Mode ==> form_message(error)
            == "Choose pasted HTML, files, or a ZIP archive, not more than one.",
        error == InputError::DuplicateFilename ==> form_message(error)
            == "Each uploaded file must have a different filename.",
        error == InputError::Size ==> form_message(error) == "The selected files are too large.",
        error == InputError::Entry ==> form_message(error)
            == "Set the entry to an existing filename, or include index.html or one HTML file.",
        error == InputError::SettingsEntry ==> form_message(error)
            == "Enter the exact filename of an existing site file.",
        error == InputError::Access ==> form_message(error)
            == "Choose open or password-protected access.",
        error == InputError::Password ==> form_message(error)
            == "Enter a new password to enable protection.",
        error == InputError::Expiry ==> form_message(error)
            == "Choose one of the listed expiry options.",
        error == InputError::Archive ==> form_message(error)
            == "The ZIP archive could not be read. Use a plain ZIP without symlinks or encryption."
            && reject_message(error) == "The ZIP archive could not be read.",
        error == InputError::FileCount ==> form_message(error)
            == "Choose a file count within 1..=10000." && reject_message(error)
            == "Choose a non-empty, bounded set of files.",
        error == InputError::Filename ==> form_message(error)
            == "Use flat filenames without paths, backslashes, or the reserved name __unlock."
            && reject_message(error) == "Use flat, non-reserved filenames without paths.",
        error != InputError::Archive && error != InputError::FileCount && error
            != InputError::Filename ==> reject_message(error) == form_message(error),
{
}

}
