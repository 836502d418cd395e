//! Bounded ZIP extraction into memory; archives never touch storage directly.
use crate::sites::new_site::{InputError, UploadedFile};
use crate::sites::validate::{valid_path, valid_segment, SitePath};
use crate::sites::MAX_SITE_FILES;
use crate::text::{
    chars_of, find, first_index, first_index_found, has_prefix, split, split_cons,
    starts_with, string_of,
};
use std::io::{Cursor, Read};
use vstd::prelude::*;
use zip::ZipArchive;

verus! {

/// The reader of one archive.
#[verifier::external_type_specification]
#[verifier::external_body]
#[verifier::reject_recursive_types(R)]
pub struct ExZipArchive<R>(zip::ZipArchive<R>);

/// A byte string that is read from its front.
#[verifier::external_type_specification]
#[verifier::external_body]
#[verifier::reject_recursive_types(T)]
pub struct ExCursor<T>(std::io::Cursor<T>);

/// An archive held in memory.
pub type Archive = ZipArchive<Cursor<Vec<u8>>>;

/// What an archive says of one of its members.
pub struct Member {
    /// The member is a directory.
    pub directory: bool,
    /// The member is a symbolic link.
    pub symlink: bool,
    /// The name as it stands in the archive.
    pub name: String,
    /// The declared number of bytes.
    pub size: u64,
}

/// Whether a member is a directory, whether it is a symbolic link, its name,
/// and its declared size.
pub type MemberView = (bool, bool, Seq<char>, u64);

impl Member {
    /// The member's properties as mathematical values.
    pub open spec fn view(&self) -> MemberView {
        (self.directory, self.symlink, self.name@, self.size)
    }
}

/// The number of members that `ZipArchive::new` finds in a byte string, where it accepts it.
pub uninterp spec fn zip_members(bytes: Seq<u8>) -> Option<usize>;

/// What `ZipArchive::by_index` says of a member, where it can be opened.
pub uninterp spec fn zip_member(bytes: Seq<u8>, index: usize) -> Option<MemberView>;

/// What reading a member gives until its end or until so many bytes, where it can be read.
pub uninterp spec fn zip_content(bytes: Seq<u8>, index: usize, limit: u64) -> Option<Seq<u8>>;

/// The byte string that an archive was opened on.
pub uninterp spec fn zip_source(archive: ZipArchive<Cursor<Vec<u8>>>) -> Seq<u8>;

/// `ZipArchive::new` reads the directory of an archive, which depends on its bytes alone.
#[verifier::external_body]
fn open(bytes: Vec<u8>) -> (r: Option<Archive>)
    ensures
        r is Some <==> zip_members(bytes@) is Some,
        r matches Some(archive) ==> zip_source(archive) == bytes@,
{
    ZipArchive::new(Cursor::new(bytes)).ok()
}

/// `ZipArchive::len` is the number of members that were found on opening.
#[verifier::external_body]
fn member_count(archive: &Archive) -> (r: usize)
    ensures
        Some(r) == zip_members(zip_source(*archive)),
{
    archive.len()
}

/// `ZipArchive::by_index` opens a member, whose properties depend on the bytes
/// of the archive alone.
#[verifier::external_body]
fn member(archive: &mut Archive, index: usize) -> (r: Option<Member>)
    ensures
        (match r {
            Some(found) => Some(found@),
            None => None,
        }) == zip_member(zip_source(*old(archive)), index),
        zip_source(*final(archive)) == zip_source(*old(archive)),
{
    let entry = archive.by_index(index).ok()?;
    Some(Member {
        directory: entry.is_dir(),
        symlink: entry.is_symlink(),
        name: entry.name().to_owned(),
        size: entry.size(),
    })
}

/// `Read::read_to_end` on a member cut off by `Read::take` gives its bytes up to
/// the limit, which depend on the bytes of the archive alone.
#[verifier::external_body]
fn content(archive: &mut Archive, index: usize, limit: u64) -> (r: Option<Vec<u8>>)
    ensures
        (match r {
            Some(bytes) => Some(bytes@),
            None => None,
        }) == zip_content(zip_source(*old(archive)), index, limit),
        r matches Some(bytes) ==> bytes@.len() <= limit,
        zip_source(*final(archive)) == zip_source(*old(archive)),
{
    let mut bytes = Vec::new();
    archive.by_index(index).ok()?.by_ref().take(limit).read_to_end(&mut bytes).ok()?;
    Some(bytes)
}

/// A name and its bytes.
pub type FileView = (Seq<char>, Seq<u8>);

/// What is to be done with a member.
pub enum Admission {
    /// Directories are passed over.
    Skip,
    /// The member is read up to this many bytes, one more than it declares.
    Read(u64),
}

/// Whether a member may be read, with the bytes declared so far.
pub open spec fn admission(member: MemberView, total: nat, cap: nat) -> Result<
    Admission,
    InputError,
> {
    if member.0 {
        Ok(Admission::Skip)
    } else if member.1 {
        Err(InputError::Archive)
    } else if !valid_path(member.2) {
        Err(InputError::Filename)
    } else if member.3 > usize::MAX || total + member.3 > cap {
        Err(InputError::Size)
    } else {
        Ok(
            Admission::Read(
                if member.3 == u64::MAX {
                    u64::MAX
                } else {
                    (member.3 + 1) as u64
                },
            ),
        )
    }
}

/// Decides on a member by its kind, its name and its declared size.
pub fn consider(member: &Member, total: usize, cap: usize) -> (r: Result<Admission, InputError>)
    requires
        total <= cap,
    ensures
        r == admission(member@, total as nat, cap as nat),
{
    if member.directory {
        return Ok(Admission::Skip);
    }
    if member.symlink {
        return Err(InputError::Archive);
    }
    if SitePath::parse(member.name.as_str()).is_none() {
        return Err(InputError::Filename);
    }
    if member.size > usize::MAX as u64 || member.size as usize > cap - total {
        return Err(InputError::Size);
    }
    Ok(
        Admission::Read(
            if member.size == u64::MAX {
                u64::MAX
            } else {
                member.size + 1
            },
        ),
    )
}

/// The file that a member and the bytes read from it make: its name as it
/// stands in the archive, and the bytes, where these are as many as declared.
pub open spec fn member_file(member: MemberView, content: Seq<u8>) -> Result<
    FileView,
    InputError,
> {
    if content.len() == member.3 {
        Ok((member.2, content))
    } else {
        Err(InputError::Archive)
    }
}

/// What reading one member gives: nothing for a directory, its name and bytes
/// where these are what it declares, or its rejection.
pub open spec fn member_read(bytes: Seq<u8>, index: usize, total: nat, cap: nat) -> Result<
    Option<FileView>,
    InputError,
> {
    match zip_member(bytes, index) {
        None => Err(InputError::Archive),
        Some(found) => match admission(found, total, cap) {
            Err(error) => Err(error),
            Ok(Admission::Skip) => Ok(None),
            Ok(Admission::Read(limit)) => match zip_content(bytes, index, limit) {
                None => Err(InputError::Archive),
                Some(content) => match member_file(found, content) {
                    Ok(file) => Ok(Some(file)),
                    Err(error) => Err(error),
                },
            },
        },
    }
}

/// What the first members of an archive come to: the files so far and the
/// bytes that they declare, or the first rejection.
pub open spec fn extracted(bytes: Seq<u8>, cap: nat, count: nat) -> Result<
    (Seq<FileView>, nat),
    InputError,
>
    decreases count,
{
    if count == 0 {
        Ok((Seq::empty(), 0))
    } else {
        match extracted(bytes, cap, (count - 1) as nat) {
            Err(error) => Err(error),
            Ok((files, total)) => match member_read(bytes, (count - 1) as usize, total, cap) {
                Err(error) => Err(error),
                Ok(None) => Ok((files, total)),
                Ok(Some(file)) => Ok((files.push(file), total + file.1.len())),
            },
        }
    }
}

/// A rejection among the first members is the rejection of the whole.
proof fn extracted_error_stays(bytes: Seq<u8>, cap: nat, count: nat, more: nat)
    requires
        extracted(bytes, cap, count) is Err,
        count <= more,
    ensures
        extracted(bytes, cap, more) == extracted(bytes, cap, count),
    decreases more,
{
    if count < more {
        extracted_error_stays(bytes, cap, count, (more - 1) as nat);
    }
}

/// The bytes of all files together.
pub open spec fn total_bytes(files: Seq<FileView>) -> nat
    decreases files.len(),
{
    if files.len() == 0 {
        0
    } else {
        total_bytes(files.drop_last()) + files.last().1.len()
    }
}

/// What is unpacked never exceeds the cap, and every name in it is a valid
/// site path before a shared directory is taken off.
pub proof fn extraction_is_bounded(bytes: Seq<u8>, cap: nat, count: nat)
    ensures
        extracted(bytes, cap, count) matches Ok((files, total)) ==> {
            &&& total_bytes(files) == total
            &&& total <= cap
            &&& files.len() <= count
            &&& forall|i: int| 0 <= i < files.len() ==> valid_path((#[trigger] files[i]).0)
        },
    decreases count,
{
    if count > 0 {
        extraction_is_bounded(bytes, cap, (count - 1) as nat);
        if let Ok((files, _)) = extracted(bytes, cap, (count - 1) as nat) {
            assert(forall|file: FileView| #[trigger] files.push(file).drop_last() =~= files);
        }
    }
}

/// What an archive unpacks to, or why it is rejected.
pub open spec fn extraction(bytes: Seq<u8>, cap: nat) -> Result<Seq<FileView>, InputError> {
    match zip_members(bytes) {
        None => Err(InputError::Archive),
        Some(count) => if count > MAX_SITE_FILES {
            Err(InputError::FileCount)
        } else {
            match extracted(bytes, cap, count as nat) {
                Err(error) => Err(error),
                Ok((files, _)) => Ok(stripped(files)),
            }
        },
    }
}

/// The directory of a name's first segment with its slash, where there is one.
pub open spec fn first_directory(name: Seq<char>) -> Option<Seq<char>> {
    if name.contains('/') {
        Some(name.take(first_index(name, '/') + 1))
    } else {
        None
    }
}

/// Whether every name lies below the directory.
pub open spec fn shares(files: Seq<FileView>, directory: Seq<char>) -> bool {
    forall|i: int|
        0 <= i < files.len() ==> (#[trigger] files[i]).0.len() > directory.len() && has_prefix(
            files[i].0,
            directory,
        )
}

/// The files without the one directory that all of them share.
pub open spec fn stripped(files: Seq<FileView>) -> Seq<FileView> {
    if files.len() > 0 && first_directory(files[0].0) is Some && shares(
        files,
        first_directory(files[0].0)->0,
    ) {
        let directory = first_directory(files[0].0)->0;
        Seq::new(
            files.len(),
            |i: int| (files[i].0.skip(directory.len() as int), files[i].1),
        )
    } else {
        files
    }
}

/// The names and bytes of uploaded files.
pub open spec fn file_views(files: Seq<UploadedFile>) -> Seq<FileView> {
    Seq::new(files.len(), |i: int| files[i]@)
}

/// Unpacks regular files whose declared sizes fit within `cap` bytes in total.
pub fn extract(bytes: Vec<u8>, cap: usize) -> (r: Result<Vec<UploadedFile>, InputError>)
    ensures
        (match r {
            Ok(files) => Ok(file_views(files@)),
            Err(error) => Err(error),
        }) == extraction(bytes@, cap as nat),
{
    let ghost source = bytes@;
    let mut archive: Archive = match open(bytes) {
        Some(archive) => archive,
        None => {
            return Err(InputError::Archive);
        },
    };
    let count: usize = member_count(&archive);
    if count > MAX_SITE_FILES {
        return Err(InputError::FileCount);
    }
    let mut files: Vec<UploadedFile> = Vec::new();
    let mut total: usize = 0;
    let mut index: usize = 0;
    assert(file_views(files@) =~= Seq::empty());
    while index < count
        invariant
            index <= count,
            count <= MAX_SITE_FILES,
            source == bytes@,
            zip_members(source) == Some(count),
            zip_source(archive) == source,
            total <= cap,
            extracted(source, cap as nat, index as nat) == Ok::<(Seq<FileView>, nat), InputError>(
                (file_views(files@), total as nat),
            ),
        decreases count - index,
    {
        let ghost before = file_views(files@);
        let step = read_member(&mut archive, index, total, cap);
        proof {
            if step is Err {
                extracted_error_stays(source, cap as nat, (index + 1) as nat, count as nat);
            }
        }
        match step {
            Err(error) => {
                return Err(error);
            },
            Ok(None) => {},
            Ok(Some(file)) => {
                total = total + file.bytes.len();
                let ghost last = file@;
                files.push(file);
                assert(file_views(files@) =~= before.push(last));
            },
        }
        index = index + 1;
    }
    strip_shared_directory(&mut files);
    Ok(files)
}

/// Makes a file of a member and the bytes read from it, and rejects an archive
/// that declares a different number of them.
pub fn complete_member(member: Member, content: Vec<u8>) -> (r: Result<UploadedFile, InputError>)
    ensures
        (match r {
            Ok(file) => Ok(file@),
            Err(error) => Err(error),
        }) == member_file(member@, content@),
        r matches Ok(file) ==> file.bytes == content,
{
    if content.len() as u64 != member.size {
        return Err(InputError::Archive);
    }
    Ok(UploadedFile { filename: member.name, bytes: content })
}

/// Reads one member that may be read, and checks that it holds what it declares.
fn read_member(archive: &mut Archive, index: usize, total: usize, cap: usize) -> (r: Result<
    Option<UploadedFile>,
    InputError,
>)
    requires
        total <= cap,
    ensures
        zip_source(*final(archive)) == zip_source(*old(archive)),
        (match r {
            Ok(Some(file)) => Ok(Some(file@)),
            Ok(None) => Ok(None),
            Err(error) => Err(error),
        }) == member_read(zip_source(*old(archive)), index, total as nat, cap as nat),
        r matches Ok(Some(file)) ==> total + file.bytes@.len() <= cap,
{
    match member(archive, index) {
        None => Err(InputError::Archive),
        Some(found) => match consider(&found, total, cap) {
            Err(error) => Err(error),
            Ok(Admission::Skip) => Ok(None),
            Ok(Admission::Read(limit)) => match content(archive, index, limit) {
                None => Err(InputError::Archive),
                Some(bytes) => match complete_member(found, bytes) {
                    Ok(file) => Ok(Some(file)),
                    Err(error) => Err(error),
                },
            },
        },
    }
}

/// Strips one directory that every file shares, the shape `zip -r` produces.
pub fn strip_shared_directory(files: &mut Vec<UploadedFile>)
    ensures
        file_views(final(files)@) == stripped(file_views(old(files)@)),
{
    let ghost views = file_views(files@);
    if files.len() == 0 {
        return;
    }
    let first: Vec<char> = chars_of(files[0].filename.as_str());
    let slash: usize = find(first.as_slice(), '/');
    proof {
        first_index_found(first@, '/');
        assert(views[0] == files@[0]@);
    }
    if slash == first.len() {
        return;
    }
    let directory: &[char] = vstd::slice::slice_subrange(first.as_slice(), 0, slash + 1);
    assert(directory@ =~= first_directory(views[0].0)->0);
    let mut i: usize = 0;
    while i < files.len()
        invariant
            i <= files@.len(),
            files@ == old(files)@,
            views == file_views(files@),
            views.len() > 0,
            first_directory(views[0].0) == Some(directory@),
            forall|j: int|
                0 <= j < i ==> (#[trigger] views[j]).0.len() > directory@.len() && has_prefix(
                    views[j].0,
                    directory@,
                ),
        decreases files@.len() - i,
    {
        let name: Vec<char> = chars_of(files[i].filename.as_str());
        assert(views[i as int] == files@[i as int]@);
        if name.len() <= directory.len() || !starts_with(name.as_slice(), directory) {
            assert(!shares(views, directory@));
            return;
        }
        i = i + 1;
    }
    assert(shares(views, directory@));
    let mut k: usize = 0;
    while k < files.len()
        invariant
            k <= files@.len(),
            files@.len() == views.len(),
            shares(views, directory@),
            forall|j: int|
                k <= j < views.len() ==> (#[trigger] files@[j])@ == views[j],
            forall|j: int|
                0 <= j < k ==> (#[trigger] files@[j])@ == (
                    views[j].0.skip(directory@.len() as int),
                    views[j].1,
                ),
        decreases files@.len() - k,
    {
        let name: Vec<char> = chars_of(files[k].filename.as_str());
        assert(views[k as int].0.len() > directory@.len());
        let rest: &[char] = vstd::slice::slice_subrange(
            name.as_slice(),
            directory.len(),
            name.len(),
        );
        assert(rest@ =~= views[k as int].0.skip(directory@.len() as int));
        let mut bytes: Vec<u8> = Vec::new();
        std::mem::swap(&mut bytes, &mut files[k].bytes);
        files.set(k, UploadedFile { filename: string_of(rest), bytes });
        k = k + 1;
    }
    assert(file_views(files@) =~= stripped(views));
}

/// Taking off a shared directory leaves valid site paths valid.
pub proof fn stripping_keeps_paths_valid(files: Seq<FileView>, i: int)
    requires
        0 <= i < files.len(),
        forall|j: int| 0 <= j < files.len() ==> valid_path((#[trigger] files[j]).0),
    ensures
        stripped(files).len() == files.len(),
        valid_path(stripped(files)[i].0),
        stripped(files)[i].1 == files[i].1,
{
    assert(valid_path(files[i].0));
    if stripped(files) != files {
        let first = files[0].0;
        let directory = first_directory(first)->0;
        let name = files[i].0;
        let rest = name.skip(directory.len() as int);
        first_index_found(first, '/');
        let head = directory.drop_last();
        assert(name.take(directory.len() as int) == directory);
        assert(directory =~= head + seq!['/']);
        assert(!head.contains('/'));
        assert(name =~= head + seq!['/'] + rest);
        split_cons(head, rest, '/');
        assert forall|k: int| 0 <= k < split(rest, '/').len() implies valid_segment(
            #[trigger] split(rest, '/')[k],
        ) by {
            assert(split(name, '/')[k + 1] == split(rest, '/')[k]);
            assert(valid_segment(split(name, '/')[k + 1]));
        }
        assert forall|c: char| rest.contains(c) implies name.contains(c) by {
            let k = choose|k: int| 0 <= k < rest.len() && rest[k] == c;
            assert(name[k + directory.len()] == c);
        }
    }
}

}
