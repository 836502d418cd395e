//! What a ZIP archive unpacks to.
use crate::sites::archive::{
    admission, extracted, extraction, first_directory, member_file, stripped, zip_content,
    zip_member, zip_members, Admission, FileView, MemberView,
};
use crate::sites::new_site::InputError;
use crate::sites::validate::valid_path;
use crate::text::{first_index_found, first_index_unique, has_prefix};
use vstd::prelude::*;

verus! {

/// Files that all lie below one top directory lose it: each keeps the rest of
/// its name and its bytes, in the same order, however many there are.
pub proof fn one_shared_directory_is_taken_off(
    files: Seq<FileView>,
    directory: Seq<char>,
    rests: Seq<Seq<char>>,
)
    requires
        files.len() > 0,
        rests.len() == files.len(),
        !directory.contains('/'),
        forall|i: int|
            0 <= i < files.len() ==> (#[trigger] files[i]).0 == directory + seq!['/'] + rests[i]
                && rests[i].len() > 0,
    ensures
        stripped(files).len() == files.len(),
        forall|i: int|
            0 <= i < files.len() ==> (#[trigger] stripped(files)[i]).0 == rests[i]
                && stripped(files)[i].1 == files[i].1,
{
    let top = directory + seq!['/'];
    let first = files[0].0;
    assert(first == top + rests[0]);
    assert forall|j: int| 0 <= j < directory.len() implies first[j] != '/' by {
        assert(directory.contains(directory[j]));
    }
    assert(first[directory.len() as int] == '/');
    first_index_unique(first, '/', directory.len() as int);
    assert(first.contains('/'));
    assert(first.take(directory.len() as int + 1) =~= top);
    assert(first_directory(first) == Some(top));
    assert forall|i: int| 0 <= i < files.len() implies (#[trigger] files[i]).0.len() > top.len()
        && has_prefix(files[i].0, top) && files[i].0.skip(top.len() as int) == rests[i] by {
        assert(files[i].0 =~= top + rests[i]);
        assert(files[i].0.take(top.len() as int) =~= top);
        assert(files[i].0.skip(top.len() as int) =~= rests[i]);
    }
}

/// A name lies below a top directory.
pub open spec fn lies_below(name: Seq<char>, directory: Seq<char>) -> bool {
    &&& !directory.contains('/')
    &&& name.len() > directory.len() + 1
    &&& name.take(directory.len() as int + 1) == directory.push('/')
}

/// A top directory holds all the files.
pub open spec fn holds_all(files: Seq<FileView>, directory: Seq<char>) -> bool {
    forall|i: int| 0 <= i < files.len() ==> lies_below((#[trigger] files[i]).0, directory)
}

/// Where no top directory holds all the files, nothing is taken off.
pub proof fn other_names_are_left_as_they_are(files: Seq<FileView>)
    requires
        forall|directory: Seq<char>| !#[trigger] holds_all(files, directory),
    ensures
        stripped(files) == files,
{
    if stripped(files) != files {
        let first = files[0].0;
        let top = first_directory(first)->0;
        let directory = top.drop_last();
        first_index_found(first, '/');
        assert(top =~= directory.push('/'));
        assert(!directory.contains('/')) by {
            if directory.contains('/') {
                let j = choose|j: int| 0 <= j < directory.len() && directory[j] == '/';
                assert(first[j] == '/');
            }
        }
        assert forall|i: int| 0 <= i < files.len() implies lies_below(
            (#[trigger] files[i]).0,
            directory,
        ) by {
            assert(files[i].0.len() > top.len() && has_prefix(files[i].0, top));
        }
        assert(holds_all(files, directory));
    }
}

/// What is done with a member of an archive: directories are passed over, links
/// refused, unsafe names refused, what exceeds the cap refused, and every other
/// member read to one byte beyond its declared size.
pub proof fn members_are_admitted_by_kind_name_and_size(
    name: Seq<char>,
    size: u64,
    total: nat,
    cap: nat,
    link: bool,
)
    requires
        cap <= usize::MAX,
    ensures
        admission((true, link, name, size), total, cap) == Ok::<Admission, InputError>(
            Admission::Skip,
        ),
        admission((false, true, name, size), total, cap) == Err::<Admission, InputError>(
            InputError::Archive,
        ),
        !valid_path(name) ==> admission((false, false, name, size), total, cap) == Err::<
            Admission,
            InputError,
        >(InputError::Filename),
        valid_path(name) && total + size > cap ==> admission((false, false, name, size), total, cap)
            == Err::<Admission, InputError>(InputError::Size),
        valid_path(name) && total + size <= cap && size < u64::MAX ==> admission(
            (false, false, name, size),
            total,
            cap,
        ) == Ok::<Admission, InputError>(Admission::Read((size + 1) as u64)),
{
}

/// A member makes a file of its own name and bytes where there are as many as
/// it declares, and none otherwise.
pub proof fn members_hold_what_they_declare(member: MemberView, content: Seq<u8>)
    ensures
        content.len() == member.3 ==> member_file(member, content) == Ok::<FileView, InputError>(
            (member.2, content),
        ),
        content.len() != member.3 ==> member_file(member, content) == Err::<FileView, InputError>(
            InputError::Archive,
        ),
{
}

/// The regular files among members, with their contents, in their order.
pub open spec fn regular_files(members: Seq<MemberView>, contents: Seq<Seq<u8>>) -> Seq<FileView>
    decreases members.len(),
{
    if members.len() == 0 {
        Seq::empty()
    } else {
        let front = regular_files(members.drop_last(), contents);
        if members.last().0 {
            front
        } else {
            front.push((members.last().2, contents[members.len() - 1]))
        }
    }
}

/// The bytes that the regular files among members declare.
pub open spec fn declared(members: Seq<MemberView>) -> nat
    decreases members.len(),
{
    if members.len() == 0 {
        0
    } else if members.last().0 {
        declared(members.drop_last())
    } else {
        declared(members.drop_last()) + members.last().3 as nat
    }
}

/// Whether every member is a directory, or a regular file with a safe name
/// whose bytes are those that it declares.
pub open spec fn sound_members(
    bytes: Seq<u8>,
    members: Seq<MemberView>,
    contents: Seq<Seq<u8>>,
) -> bool {
    &&& contents.len() == members.len()
    &&& forall|i: int|
        0 <= i < members.len() ==> {
            let member = #[trigger] members[i];
            &&& zip_member(bytes, i as usize) == Some(member)
            &&& !member.0 ==> {
                &&& !member.1
                &&& valid_path(member.2)
                &&& member.3 < u64::MAX
                &&& contents[i].len() == member.3
                &&& zip_content(bytes, i as usize, (member.3 + 1) as u64) == Some(contents[i])
            }
        }
}

/// An archive of sound members within the cap unpacks: every regular file comes
/// out with its bytes, in the order of the archive, without the top directory
/// that all of them share.
pub proof fn sound_archives_unpack(
    bytes: Seq<u8>,
    cap: nat,
    members: Seq<MemberView>,
    contents: Seq<Seq<u8>>,
)
    requires
        cap <= usize::MAX,
        members.len() <= 10_000,
        zip_members(bytes) == Some(members.len() as usize),
        sound_members(bytes, members, contents),
        declared(members) <= cap,
    ensures
        extraction(bytes, cap) == Ok::<Seq<FileView>, InputError>(
            stripped(regular_files(members, contents)),
        ),
{
    assert(members.take(members.len() as int) =~= members);
    members_unpack(bytes, cap, members, contents, members.len());
}

/// An archive of one zipped directory unpacks to what the directory holds: the
/// rest of each name with its bytes, in order.
pub proof fn zipped_directories_unpack(
    bytes: Seq<u8>,
    cap: nat,
    members: Seq<MemberView>,
    contents: Seq<Seq<u8>>,
    directory: Seq<char>,
    rests: Seq<Seq<char>>,
)
    requires
        cap <= usize::MAX,
        members.len() <= 10_000,
        zip_members(bytes) == Some(members.len() as usize),
        sound_members(bytes, members, contents),
        declared(members) <= cap,
        !directory.contains('/'),
        regular_files(members, contents).len() == rests.len(),
        rests.len() > 0,
        forall|i: int|
            0 <= i < rests.len() ==> (#[trigger] regular_files(members, contents)[i]).0 == directory
                + seq!['/'] + rests[i] && rests[i].len() > 0,
    ensures
        ({
            let unpacked = extraction(bytes, cap);
            &&& unpacked is Ok
            &&& unpacked->Ok_0.len() == rests.len()
            &&& forall|i: int|
                0 <= i < rests.len() ==> #[trigger] unpacked->Ok_0[i] == (
                    rests[i],
                    regular_files(members, contents)[i].1,
                )
        }),
{
    sound_archives_unpack(bytes, cap, members, contents);
    one_shared_directory_is_taken_off(regular_files(members, contents), directory, rests);
}

proof fn members_unpack(
    bytes: Seq<u8>,
    cap: nat,
    members: Seq<MemberView>,
    contents: Seq<Seq<u8>>,
    n: nat,
)
    requires
        cap <= usize::MAX,
        n <= members.len() <= 10_000,
        sound_members(bytes, members, contents),
        declared(members.take(n as int)) <= cap,
    ensures
        extracted(bytes, cap, n) == Ok::<(Seq<FileView>, nat), InputError>(
            (regular_files(members.take(n as int), contents), declared(members.take(n as int))),
        ),
    decreases n,
{
    if n > 0 {
        let now = members.take(n as int);
        let before = members.take(n - 1);
        assert(now.drop_last() =~= before);
        assert(now.last() == members[n - 1]);
        members_unpack(bytes, cap, members, contents, (n - 1) as nat);
        let member = members[n - 1];
        if !member.0 {
            assert(declared(before) + member.3 <= cap);
        }
    } else {
        assert(members.take(0) =~= Seq::empty());
        assert(regular_files(members.take(0), contents) =~= Seq::empty());
    }
}

/// An archive that cannot be read is refused as one, and one of more than ten
/// thousand members by their number.
pub proof fn unreadable_and_crowded_archives_are_refused(bytes: Seq<u8>, cap: nat, count: usize)
    ensures
        zip_members(bytes) is None ==> extraction(bytes, cap) == Err::<Seq<FileView>, InputError>(
            InputError::Archive,
        ),
        zip_members(bytes) == Some(count) && count > 10_000 ==> extraction(bytes, cap) == Err::<
            Seq<FileView>,
            InputError,
        >(InputError::FileCount),
{
}

}
