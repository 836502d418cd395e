//! Validation, archives, generated slugs and the mutation state machines.
use pagebin::auth::password::Password;
use pagebin::error::AppError;
use pagebin::sites::archive::{complete_member, extract, strip_shared_directory, Member};
use pagebin::sites::content::{check_directory, Content, PathKind};
use pagebin::sites::delete::{DeleteEvent, DeleteOutcome, DeleteStep, Deleting};
use pagebin::sites::generate::{generate_from, generate_with, sample_index, Draws};
use pagebin::sites::new_site::{InputError, NewSite, NewSiteBuilder, UploadedFile};
use pagebin::sites::publish::{chosen_slug, site_row, Event, Publication, Step};
use pagebin::sites::replace::{replacement, ReplaceEvent, ReplaceStep, Replacing};
use pagebin::sites::settings::{
    resolve_expiry, resolve_password, saved_settings, AccessUpdate, SettingsBuilder, UpdateEvent,
    UpdateStep, Updating,
};
use pagebin::sites::sweep::{expired, reconcile, sweep_target, SweepTarget};
use pagebin::sites::validate::{Expiry, Filename, SitePath, Slug, Title};
use pagebin::sites::{
    access_password, list_offset, representable, seconds_after, AccessSite, Site,
};
use std::io::{Cursor, Write};
use zip::write::SimpleFileOptions;
use zip::{CompressionMethod, ZipWriter};

const MAX_TITLE_CHARACTERS: usize = 200;
const MAX_TITLE_BYTES: usize = 800;
const INDEX: &[u8] = b"<!doctype html><link rel=stylesheet href=css/style.css><h1>Zipped</h1>";
const CSS: &[u8] = b"h1 { color: rebeccapurple }";

#[test]
fn settings_title_preserves_empty_whitespace_and_unicode_limits() {
    for title in [
        "".to_owned(),
        " title ".to_owned(),
        "🦀".repeat(MAX_TITLE_CHARACTERS),
    ] {
        assert_eq!(Title::parse(title.clone()).unwrap().as_str(), title);
    }
    assert_eq!("🦀".repeat(MAX_TITLE_CHARACTERS).len(), MAX_TITLE_BYTES);
    for title in [
        "x\0y".to_owned(),
        "x\ny".to_owned(),
        "x\ry".to_owned(),
        "a".repeat(MAX_TITLE_CHARACTERS + 1),
        "🦀".repeat(MAX_TITLE_CHARACTERS + 1),
    ] {
        assert!(matches!(Title::parse(title), Err(InputError::Title)));
    }
}

#[test]
fn slug_parse_accepts_canonical_values_and_rejects_reserved_or_malformed() {
    assert_eq!(Slug::parse("a-0-z").unwrap().as_str(), "a-0-z");
    for invalid in ["login", "ABC", "-abc", "a_b", "ab", &"a".repeat(64 + 1)] {
        assert_eq!(Slug::parse(invalid).err().unwrap().into_response().0, 400);
    }
}

#[test]
fn slug_generate_produces_valid_readable_slugs() {
    let generated = Slug::generate().unwrap();
    assert_eq!(generated.as_str().split('-').count(), 4);
    assert!(Slug::parse(generated.as_str()).is_ok());
}

#[test]
fn generated_slugs_end_in_eight_characters_and_differ() {
    let first = Slug::generate().unwrap();
    let second = Slug::generate().unwrap();
    assert_eq!(first.as_str().rsplit('-').next().unwrap().len(), 8);
    assert_ne!(first.as_str(), second.as_str());
}

#[test]
fn sampling_discards_the_incomplete_cycle() {
    let mut draws = Draws::given(vec![Ok(0), Ok(7), Ok(8)]);
    assert_eq!(sample_index(3, &mut draws).unwrap(), 1);
    assert_eq!(draws.used(), 2);
    let mut exact = Draws::given(vec![Ok(9)]);
    assert_eq!(sample_index(4, &mut exact).unwrap(), 1);
    assert_eq!(exact.used(), 1);
    let mut low = Draws::given(vec![Ok(0); 65]);
    assert!(sample_index(3, &mut low).is_err());
    assert_eq!(low.used(), 64);
    let mut failing = Draws::given(vec![Ok(0), Err(AppError::publishing()), Ok(7)]);
    assert!(sample_index(3, &mut failing).is_err());
    assert_eq!(failing.used(), 2);
    assert_eq!(sample_index(3, &mut failing).unwrap(), 1);
    let mut unused = Draws::given(vec![Ok(9)]);
    assert!(sample_index(0, &mut unused).is_err());
    assert_eq!(unused.used(), 0);
    assert!(generate_with(&mut Draws::given(Vec::new())).is_err());
    let mut steady = Draws::given(vec![Ok(36_000_009); 12]);
    assert!(generate_with(&mut steady).unwrap().as_str().ends_with("-jjjjjjjj"));
    assert_eq!(steady.used(), 11);
}

#[test]
fn slugs_are_built_from_the_sampled_words_and_characters() {
    let lists = (vec!["boldly", "calmly"], vec!["red"], vec!["fox", "owl", "yak"]);
    let mut draws = vec![Ok(11), Ok(5), Ok(0), Ok(8)];
    for index in [0, 25, 26, 35, 1, 2, 3, 27] {
        draws.push(Ok(36 + index));
    }
    let mut source = Draws::given(draws);
    let slug = generate_from(&lists, &mut source).unwrap();
    assert_eq!(slug.as_str(), "calmly-red-yak-az09bcd1");
    assert_eq!(source.used(), 12);
    let unfit = (vec!["Boldly"], vec!["red"], vec!["fox"]);
    let refused = generate_from(&unfit, &mut Draws::given(vec![Ok(40); 11])).err().unwrap();
    assert_eq!(refused.into_response().0, 400);
    let empty = (vec!["boldly"], Vec::new(), vec!["fox"]);
    let mut source = Draws::given(vec![Ok(40); 11]);
    assert_eq!(generate_from(&empty, &mut source).err().unwrap().into_response().0, 500);
    assert_eq!(source.used(), 1);
}

#[test]
fn requested_slugs_are_taken_and_only_missing_ones_generated() {
    assert_eq!(chosen_slug(&page("test-site")).unwrap().as_str(), "test-site");
    let unnamed = NewSite { slug: None, ..page("test-site") };
    let generated = chosen_slug(&unnamed).unwrap();
    assert_eq!(generated.as_str().split('-').count(), 4);
    assert_ne!(generated.as_str(), chosen_slug(&unnamed).unwrap().as_str());
}

#[test]
fn files_filename_accepts_flat_names_and_rejects_unsafe_names() {
    for name in ["index.html", "REPORT.HTM", "空 白.css", ".hidden", "empty"] {
        assert_eq!(Filename::parse(name.to_owned()).unwrap().as_str(), name);
    }
    for name in [
        "",
        ".",
        "..",
        "/index.html",
        "a/b",
        "a//b",
        "a/",
        "../x",
        "a\\b",
        "a\0b",
        "__unlock",
    ] {
        assert!(Filename::parse(name.to_owned()).is_err(), "{name:?}");
    }
}

#[test]
fn files_filename_html_extensions_are_ascii_case_insensitive() {
    for name in ["a.html", "a.HTML", "a.HtM", ".html"] {
        assert!(Filename::parse(name.to_owned()).unwrap().is_html());
    }
    for name in ["a.html.css", "a.xhtml", "html", "a.hＴml", "a.htm "] {
        assert!(!Filename::parse(name.to_owned()).unwrap().is_html());
    }
}

#[test]
fn publish_paths_accept_normal_components_and_reject_boundary_escapes() {
    for path in [
        "index.html",
        "assets/style.css",
        "a b/日本語.html",
        ".well-known/info",
        "%2e.txt",
    ] {
        assert_eq!(SitePath::parse(path).unwrap().as_str(), path);
    }
    for path in [
        "",
        "/etc/passwd",
        "../outside",
        "a/../b",
        "./index.html",
        "a//b",
        "a/",
        "a\\b",
        "a\0b",
        "__unlock",
        "nested/__unlock/file",
    ] {
        assert!(SitePath::parse(path).is_none(), "accepted {path:?}");
    }
}

#[test]
fn expiry_choices_are_fixed() {
    assert!(matches!(Expiry::parse("keep"), Ok(Expiry::Keep)));
    assert!(matches!(Expiry::parse("never"), Ok(Expiry::Never)));
    assert!(matches!(Expiry::parse("1h"), Ok(Expiry::After(3_600))));
    assert!(matches!(Expiry::parse("7d"), Ok(Expiry::After(604_800))));
    for invalid in ["2h", "soon", "7D"] {
        assert!(matches!(Expiry::parse(invalid), Err(InputError::Expiry)));
    }
    assert_eq!(resolve_expiry(Expiry::Keep, Some(9), 100), Some(9));
    assert_eq!(resolve_expiry(Expiry::Never, Some(9), 100), None);
    assert_eq!(resolve_expiry(Expiry::After(5), Some(9), 100), Some(105));
    assert_eq!(seconds_after(i64::MAX - 1, 5), i64::MAX);
}

fn file(name: &str, bytes: &[u8]) -> UploadedFile {
    UploadedFile { filename: name.to_owned(), bytes: bytes.to_vec() }
}

fn files(parts: &[(&str, &[u8])], entry: Option<&str>) -> Result<NewSite, InputError> {
    let uploads = parts.iter().map(|(name, bytes)| file(name, bytes)).collect();
    NewSiteBuilder::new().files(uploads).entry(entry.map(str::to_owned)).build()
}

fn page(slug: &str) -> NewSite {
    NewSiteBuilder::new()
        .html("<h1>🦀 unchanged</h1>\n".to_owned())
        .title(" Test title ".to_owned())
        .slug(Slug::parse(slug).ok())
        .build()
        .unwrap()
}

#[test]
fn entry_selection_prefers_explicit_then_index_then_sole_html() {
    let both: [(&str, &[u8]); 2] = [("index.html", b"index"), ("other.htm", b"other")];
    let upper: [(&str, &[u8]); 2] = [("Report.HTML", b"upper html"), ("style.css", CSS)];
    let text: [(&str, &[u8]); 1] = [("readme.txt", b"explicit text")];
    for (parts, entry, expected) in [
        (both.as_slice(), Some("other.htm"), "other.htm"),
        (both.as_slice(), None, "index.html"),
        (upper.as_slice(), None, "Report.HTML"),
        (text.as_slice(), Some("readme.txt"), "readme.txt"),
    ] {
        assert_eq!(files(parts, entry).unwrap().entry.as_str(), expected);
    }
    let ambiguous: [(&str, &[u8]); 2] = [("one.html", INDEX), ("two.HTM", INDEX)];
    assert!(matches!(files(&ambiguous, None), Err(InputError::Entry)));
    assert!(matches!(files(&both, Some("absent.html")), Err(InputError::Entry)));
    assert!(matches!(files(&both, Some("../index.html")), Err(InputError::Entry)));
}

#[test]
fn publications_keep_bytes_and_count_them_exactly() {
    let binary: &[u8] = b"\x00\xff\xfe\x80\r\n\x01asset\x00";
    let site = files(&[("index.html", INDEX), ("asset.bin", binary)], None).unwrap();
    assert_eq!(site.size_bytes, (INDEX.len() + binary.len()) as i64);
    assert_eq!(site.files[1].bytes, binary);
    let html = page("test-site");
    assert_eq!(html.files[0].filename.as_str(), "index.html");
    assert_eq!(html.files[0].bytes, "<h1>🦀 unchanged</h1>\n".as_bytes());
    assert_eq!(html.title, " Test title ");
}

#[test]
fn publications_reject_each_kind_of_invalid_input() {
    let html = |text: &str| NewSiteBuilder::new().html(text.to_owned());
    let error = |builder: NewSiteBuilder| builder.build().err().unwrap();
    assert_eq!(error(html(" \n\t")), InputError::Html);
    assert_eq!(error(html("x").title("a\nb".to_owned())), InputError::Title);
    assert_eq!(error(NewSiteBuilder::new()), InputError::Mode);
    assert_eq!(error(html("x").files(Vec::new())), InputError::Mode);
    assert_eq!(error(html("x").archive(Vec::new(), 9)), InputError::Mode);
    assert_eq!(
        error(NewSiteBuilder::new().archive(b"not a zip".to_vec(), 100)),
        InputError::Archive
    );
    assert_eq!(error(NewSiteBuilder::new().files(Vec::new())), InputError::FileCount);
    assert_eq!(error(html("x").expires_in("keep".to_owned())), InputError::Expiry);
    assert_eq!(error(html("x").expires_in("2h".to_owned())), InputError::Expiry);
    for name in [".", "..", "../outside.html", "/absolute.html", "nested/index.html", "a\\b.html"] {
        let parts: [(&str, &[u8]); 2] = [("index.html", INDEX), (name, b"invalid")];
        assert_eq!(files(&parts, None).err().unwrap(), InputError::Filename, "{name}");
    }
    let twice: [(&str, &[u8]); 2] = [("index.html", INDEX), ("index.html", b"again")];
    assert_eq!(files(&twice, None).err().unwrap(), InputError::DuplicateFilename);
    let css: [(&str, &[u8]); 1] = [("style.css", CSS)];
    assert_eq!(files(&css, None).err().unwrap(), InputError::Entry);
}

#[test]
fn input_errors_have_fields_and_fixed_messages() {
    assert_eq!(InputError::Html.field(), "html");
    assert_eq!(InputError::DuplicateFilename.field(), "files");
    assert_eq!(InputError::SettingsEntry.field(), "entry");
    assert_eq!(InputError::Access.field(), "visibility");
    assert_eq!(InputError::Archive.field(), "zip");
    assert_eq!(InputError::Expiry.field(), "expires_in");
    assert_eq!(InputError::FileCount.message(), "Choose a file count within 1..=10000.");
    assert_eq!(
        InputError::FileCount.reject().into_response(),
        (400, "Choose a non-empty, bounded set of files.")
    );
    assert_eq!(
        InputError::Size.reject().into_response(),
        (400, "The selected files are too large.")
    );
}

fn archive(entries: &[(&str, &[u8])], symlink: Option<(&str, &str)>) -> Vec<u8> {
    let mut writer = ZipWriter::new(Cursor::new(Vec::new()));
    let options = SimpleFileOptions::default().compression_method(CompressionMethod::Stored);
    for (name, bytes) in entries {
        if name.ends_with('/') {
            writer.add_directory(*name, options).unwrap();
            continue;
        }
        writer.start_file(*name, options).unwrap();
        writer.write_all(bytes).unwrap();
    }
    if let Some((name, target)) = symlink {
        writer.add_symlink(name, target, options).unwrap();
    }
    writer.finish().unwrap().into_inner()
}

#[test]
fn archives_lose_one_shared_top_directory() {
    let zip = archive(
        &[
            ("site/", b""),
            ("site/index.html", INDEX),
            ("site/css/", b""),
            ("site/css/style.css", CSS),
        ],
        None,
    );
    let site = NewSiteBuilder::new().archive(zip, 1_000).build().unwrap();
    let names: Vec<&str> = site.files.iter().map(|file| file.filename.as_str()).collect();
    assert_eq!(names, ["index.html", "css/style.css"]);
    assert_eq!(site.entry.as_str(), "index.html");
    assert_eq!(site.files[1].bytes, CSS);
    let mut mixed = vec![file("index.html", INDEX), file("a/b.txt", b"deep")];
    strip_shared_directory(&mut mixed);
    assert_eq!(mixed[1].filename, "a/b.txt");
}

#[test]
fn archive_members_hold_as_many_bytes_as_they_declare() {
    let member = |size: u64| Member {
        directory: false,
        symlink: false,
        name: "a/b.txt".to_owned(),
        size,
    };
    let file = complete_member(member(4), b"deep".to_vec()).ok().unwrap();
    assert_eq!((file.filename.as_str(), file.bytes.as_slice()), ("a/b.txt", &b"deep"[..]));
    for size in [0, 3, 5] {
        let refused = complete_member(member(size), b"deep".to_vec()).err().unwrap();
        assert_eq!(refused, InputError::Archive);
    }
}

#[test]
fn archives_reject_links_unsafe_names_and_excess() {
    let linked = archive(&[("index.html", INDEX)], Some(("link.html", "/etc/passwd")));
    assert_eq!(extract(linked, 1_000).err().unwrap(), InputError::Archive);
    let reserved = archive(&[("__unlock/index.html", INDEX), ("x.html", INDEX)], None);
    let built = NewSiteBuilder::new().archive(reserved, 1_000).build();
    assert_eq!(built.err().unwrap(), InputError::Filename);
    let large = archive(&[("index.html", INDEX)], None);
    assert_eq!(extract(large.clone(), INDEX.len() - 1).err().unwrap(), InputError::Size);
    assert_eq!(extract(large, INDEX.len()).unwrap()[0].bytes, INDEX);
}

#[test]
fn stored_access_fails_closed() {
    let password = Password::new("synthetic-site-password".into()).unwrap();
    let encoded = password.encoded().to_owned();
    assert!(access_password("open", None).unwrap().is_none());
    assert!(access_password("open", Some("unused".into())).unwrap().is_none());
    let read = access_password("password", Some(encoded)).unwrap().unwrap();
    assert!(read.same_generation(&password));
    assert!(access_password("password", None).is_err());
    assert!(access_password("password", Some("marker".into())).is_err());
    assert!(access_password("unknown", None).is_err());
}

#[test]
fn list_pages_start_at_one_and_stay_representable() {
    assert_eq!(list_offset(1).unwrap(), 0);
    assert_eq!(list_offset(3).unwrap(), 40);
    assert_eq!(list_offset(0).err().unwrap().into_response(), (400, "Invalid site-list page."));
    assert!(list_offset(usize::MAX).is_err());
    assert_eq!(representable(5).unwrap(), 5);
    assert!(representable(u64::MAX).is_err());
}

#[test]
fn settings_need_a_decision_and_valid_texts() {
    let builder = || {
        SettingsBuilder::new()
            .title("Title".to_owned())
            .entry("index.html".to_owned())
            .expires_in("keep".to_owned())
    };
    assert_eq!(builder().build().err().unwrap(), InputError::Access);
    let settings = builder().access(AccessUpdate::Open).build().unwrap();
    assert_eq!((settings.title.as_str(), settings.entry.as_str()), ("Title", "index.html"));
    let bad = builder().entry("nested/x.html".to_owned()).access(AccessUpdate::Open);
    assert_eq!(bad.build().err().unwrap(), InputError::SettingsEntry);
    let bad = builder().expires_in("soon".to_owned()).access(AccessUpdate::Open);
    assert_eq!(bad.build().err().unwrap(), InputError::Expiry);
    let password = Password::new("synthetic".into()).unwrap();
    assert!(resolve_password(AccessUpdate::Keep, None).is_err());
    assert!(resolve_password(AccessUpdate::Open, Some(password.copy())).unwrap().is_none());
    let kept = resolve_password(AccessUpdate::Keep, Some(password.copy())).unwrap().unwrap();
    assert!(kept.same_generation(&password));
}

#[test]
fn publication_installs_before_it_commits() {
    let site = page("test-site");
    let mut publication = Publication::new(&site);
    let mut steps = Vec::new();
    while publication.step != Step::Finished {
        steps.push(publication.step);
        publication = publication.next(Event::Done);
    }
    assert!(publication.outcome.unwrap().is_ok());
    let at = |step: Step| steps.iter().position(|seen| *seen == step).unwrap();
    assert!(at(Step::WriteFile(0)) < at(Step::Insert));
    assert!(at(Step::Insert) < at(Step::Reserve));
    assert!(at(Step::Reserve) < at(Step::Install));
    assert!(at(Step::Install) < at(Step::Commit));
}

#[test]
fn a_taken_custom_slug_is_a_conflict_and_is_cleaned_up() {
    let site = page("test-site");
    let mut publication = Publication::new(&site);
    while publication.step != Step::Insert {
        publication = publication.next(Event::Done);
    }
    publication = publication.next(Event::Taken);
    let mut removed = false;
    while publication.step != Step::Finished {
        removed = removed || publication.step == Step::RemoveStaging;
        assert!(publication.step != Step::RemoveReservation);
        publication = publication.next(Event::Done);
    }
    assert!(removed);
    let error = publication.outcome.unwrap().err().unwrap();
    assert_eq!(error.into_response(), (409, "That site slug is already in use."));
}

#[test]
fn a_row_shows_what_was_published() {
    let site = page("test-site");
    let slug = Slug::parse("test-site").ok().unwrap();
    let row = site_row(&site, &slug, 1_000).unwrap();
    assert_eq!((row.slug.as_str(), row.visibility.as_str()), ("test-site", "open"));
    assert_eq!((row.file_count, row.created_at, row.updated_at), (1, 1_000, 1_000));
    assert_eq!(row.size_bytes, "<h1>🦀 unchanged</h1>\n".len() as i64);
    assert!(row.expires_at.is_none());
}

#[test]
fn a_failed_record_puts_the_previous_content_back() {
    let site = page("test-site");
    let mut replacing = Replacing::new(&site);
    while replacing.step != ReplaceStep::Record {
        replacing = replacing.next(ReplaceEvent::Done);
    }
    replacing = replacing.next(ReplaceEvent::Failed);
    let mut steps = Vec::new();
    while replacing.step != ReplaceStep::Finished {
        steps.push(replacing.step);
        replacing = replacing.next(ReplaceEvent::Done);
    }
    assert!(replacing.outcome.unwrap().is_err());
    assert!(matches!(steps[0], ReplaceStep::TakeOut(_)));
    assert!(matches!(steps[1], ReplaceStep::PutBack(_)));
    let changed = replacement(&site, 77).unwrap();
    assert_eq!((changed.entry.as_str(), changed.updated_at), ("index.html", 77));
}

#[test]
fn a_recorded_replacement_succeeds_whatever_cleanup_comes_to() {
    for event in [ReplaceEvent::Done, ReplaceEvent::Absent, ReplaceEvent::Failed] {
        let mut replacing = Replacing::new(&page("test-site"));
        while replacing.step != ReplaceStep::RemoveParked {
            replacing = replacing.next(ReplaceEvent::Done);
        }
        while replacing.step != ReplaceStep::Finished {
            replacing = replacing.next(event);
        }
        assert!(replacing.outcome.unwrap().unwrap());
    }
    let mut absent = Replacing::new(&page("test-site"));
    while absent.step != ReplaceStep::FindRow {
        absent = absent.next(ReplaceEvent::Done);
    }
    absent = absent.next(ReplaceEvent::Absent);
    assert_eq!(absent.step, ReplaceStep::CheckCleanup);
    let cleared = absent.next(ReplaceEvent::Done).next(ReplaceEvent::Done);
    assert!(!cleared.outcome.unwrap().unwrap());
}

#[test]
fn saved_settings_are_those_of_the_form_on_the_current_row() {
    let slug = Slug::parse("test-site").unwrap();
    let current = |password: Option<Password>| AccessSite {
        site: Site { expires_at: Some(900), ..site_row(&page("test-site"), &slug, 50).unwrap() },
        password,
    };
    let settings = |access: AccessUpdate, expires_in: &str| {
        SettingsBuilder::new()
            .title("New title".to_owned())
            .entry("other.html".to_owned())
            .expires_in(expires_in.to_owned())
            .access(access)
            .build()
            .unwrap()
    };
    let password = Password::new("synthetic".into()).unwrap();
    let opened = settings(AccessUpdate::Open, "never");
    let saved = saved_settings(opened, current(Some(password.copy())), 100).ok().unwrap();
    assert_eq!((saved.title.as_str(), saved.entry.as_str()), ("New title", "other.html"));
    assert_eq!((saved.visibility.as_str(), saved.updated_at), ("open", 100));
    assert!(saved.password.is_none() && saved.expires_at.is_none());
    let kept = settings(AccessUpdate::Keep, "keep");
    let saved = saved_settings(kept, current(Some(password.copy())), 100).ok().unwrap();
    assert_eq!((saved.visibility.as_str(), saved.expires_at), ("password", Some(900)));
    assert!(saved.password.unwrap().same_generation(&password));
    let fresh = settings(AccessUpdate::Replace(password.copy()), "keep");
    let saved = saved_settings(fresh, current(None), 100).ok().unwrap();
    assert_eq!(saved.password.unwrap().encoded(), password.encoded());
    assert_eq!(saved.visibility, "password");
    let unkept = saved_settings(settings(AccessUpdate::Keep, "keep"), current(None), 100);
    assert_eq!(unkept.err().unwrap().into_response().0, 400);
}

#[test]
fn deletion_touches_content_only_after_the_row_is_gone() {
    let mut deleting = Deleting::new();
    let mut steps = Vec::new();
    while deleting.step != DeleteStep::Finished {
        steps.push(deleting.step);
        deleting = deleting.next(DeleteEvent::Done);
    }
    assert!(matches!(deleting.outcome, Some(Ok(DeleteOutcome::Deleted))));
    let at = |step: DeleteStep| steps.iter().position(|seen| *seen == step).unwrap();
    assert!(at(DeleteStep::DeleteRow) < at(DeleteStep::RemoveDirectory));
    let start = || Deleting::new().next(DeleteEvent::Done);
    let absent = start().next(DeleteEvent::Absent);
    assert!(matches!(absent.outcome, Some(Ok(DeleteOutcome::NotFound))));
    let failed = start().next(DeleteEvent::Done).next(DeleteEvent::Failed);
    assert!(matches!(failed.outcome, Some(Err(_))));
    let unsafe_root = start()
        .next(DeleteEvent::Done)
        .next(DeleteEvent::Done)
        .next(DeleteEvent::Done)
        .next(DeleteEvent::Failed);
    assert!(matches!(unsafe_root.outcome, Some(Ok(DeleteOutcome::DeletedContentRetained))));
}

#[test]
fn updates_keep_passwords_only_where_there_is_one() {
    let keep = SettingsBuilder::new()
        .entry("index.html".to_owned())
        .expires_in("keep".to_owned())
        .access(AccessUpdate::Keep)
        .build()
        .unwrap();
    let reading = || Updating::new(&keep).next(UpdateEvent::Done);
    let open = reading().next(UpdateEvent::Done);
    let error = open.outcome.unwrap().err().unwrap();
    assert_eq!(error.into_response(), (400, "Enter a new password to enable protection."));
    let mut update = reading().next(UpdateEvent::Protected);
    while update.step != UpdateStep::Finished {
        update = update.next(UpdateEvent::Done);
    }
    assert!(matches!(update.outcome, Some(Ok(true))));
    assert!(matches!(reading().next(UpdateEvent::Absent).outcome, Some(Ok(false))));
}

#[test]
fn cleanup_removes_only_what_was_not_installed() {
    let staged = Content::nothing().stage();
    assert_eq!(staged.cleanup(), (false, true));
    assert_eq!(staged.reserve_destination().cleanup(), (true, true));
    assert_eq!(staged.reserve_destination().install().cleanup(), (false, false));
    assert_eq!(staged.reserve_destination().preserve_installed().cleanup(), (false, true));
    assert!(check_directory(PathKind::Directory).is_ok());
    for kind in [PathKind::File, PathKind::Symlink, PathKind::Other] {
        assert!(check_directory(kind).is_err());
    }
}

#[test]
fn sweeps_and_reconciliation_remove_only_what_has_no_partner() {
    assert!(expired(Some(1), 1) && !expired(Some(2), 1) && !expired(None, i64::MAX));
    assert!(matches!(sweep_target("expired"), SweepTarget::Site(_)));
    assert!(matches!(sweep_target("../x"), SweepTarget::Row));
    let text = |names: &[&str]| names.iter().map(|name| name.to_string()).collect::<Vec<_>>();
    let rows = text(&["kept", "rowless"]);
    let names = text(&["kept", "stray"]);
    let (names_stay, rows_stay) = reconcile(&rows, &names);
    assert_eq!(names_stay, [true, false]);
    assert_eq!(rows_stay, [true, false]);
}

#[test]
fn a_second_reconciliation_finds_nothing_to_remove() {
    let text = |names: &[&str]| names.iter().map(|name| name.to_string()).collect::<Vec<_>>();
    let keep = |names: Vec<String>, stay: Vec<bool>| -> Vec<String> {
        names.into_iter().zip(stay).filter(|(_, stay)| *stay).map(|(name, _)| name).collect()
    };
    let rows = text(&["b", "only-row", "a"]);
    let names = text(&["a", "stray", "b", ".tmp"]);
    let (names_stay, rows_stay) = reconcile(&rows, &names);
    let (rows, names) = (keep(rows, rows_stay), keep(names, names_stay));
    assert_eq!((rows.clone(), names.clone()), (text(&["b", "a"]), text(&["a", "b"])));
    assert_eq!(reconcile(&rows, &names), (vec![true; 2], vec![true; 2]));
}
