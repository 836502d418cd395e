//! Exclusive, permission-checked persistence of the cookie master key.
use crate::auth::tokens::{draw_bytes, entropy_gives};
use crate::auth::MASTER_KEY_BYTES;
use crate::error::{authentication_failure, storage_failure, AppError};
use vstd::prelude::*;

verus! {

/// The permissions that a new key file gets, and the most that one may have.
pub const KEY_PERMISSIONS: u32 = 0o600;

/// The owner may read the file.
pub const OWNER_READ: u32 = 0o400;

/// The bits of a mode that are permissions.
pub const PERMISSION_BITS: u32 = 0o7777;

/// What the filesystem says of a file, without following a link.
#[derive(Clone, Copy, Debug, PartialEq, Eq, Structural)]
pub struct FileMeta {
    /// It is a regular file.
    pub regular: bool,
    /// Its mode.
    pub mode: u32,
    /// Its length in bytes.
    pub length: u64,
    /// The device that it is on.
    pub device: u64,
    /// Its number on the device.
    pub inode: u64,
}

/// A regular file that its owner alone may read, and nobody may run.
pub open spec fn private_file(meta: FileMeta) -> bool {
    let permissions = meta.mode & PERMISSION_BITS;
    &&& meta.regular
    &&& permissions & !KEY_PERMISSIONS == 0
    &&& permissions & OWNER_READ != 0
}

/// Requires a regular file that its owner alone may read.
pub fn validate_metadata(meta: FileMeta) -> (r: Result<(), AppError>)
    ensures
        match r {
            Ok(_) => private_file(meta),
            Err(error) => !private_file(meta) && error == storage_failure(),
        },
{
    let permissions: u32 = meta.mode & PERMISSION_BITS;
    if !meta.regular || permissions & !KEY_PERMISSIONS != 0 || permissions & OWNER_READ == 0 {
        return Err(AppError::storage());
    }
    Ok(())
}

/// A mode that grants nothing to the group, to others, or to execution.
pub proof fn private_modes_exclude_others(meta: FileMeta)
    requires
        private_file(meta),
    ensures
        meta.mode & 0o077 == 0,
        meta.mode & 0o7100 == 0,
        meta.mode & OWNER_READ == OWNER_READ,
{
    let mode = meta.mode;
    assert((mode & 0o7777) & !0o600u32 == 0 ==> mode & 0o077 == 0) by (bit_vector);
    assert((mode & 0o7777) & !0o600u32 == 0 ==> mode & 0o7100 == 0) by (bit_vector);
    assert((mode & 0o7777) & 0o400u32 != 0 ==> mode & 0o400 == 0o400) by (bit_vector);
}

/// The opened file is the one that was expected and still stands at its path.
pub open spec fn same_file(opened: FileMeta, current: FileMeta, expected: FileMeta) -> bool {
    &&& private_file(opened)
    &&& private_file(current)
    &&& opened.device == expected.device
    &&& opened.inode == expected.inode
    &&& opened.device == current.device
    &&& opened.inode == current.inode
}

/// Requires that the opened file is the expected one and still stands at its
/// path: a substituted file is never read.
pub fn validate_opened(opened: FileMeta, current: FileMeta, expected: FileMeta) -> (r: Result<
    (),
    AppError,
>)
    ensures
        match r {
            Ok(_) => same_file(opened, current, expected),
            Err(error) => !same_file(opened, current, expected) && error == storage_failure(),
        },
{
    if validate_metadata(opened).is_err() || validate_metadata(current).is_err() || opened.device
        != expected.device || opened.inode != expected.inode || opened.device != current.device
        || opened.inode != current.inode {
        return Err(AppError::storage());
    }
    Ok(())
}

/// Makes a new master key: the bytes that the entropy source gives.
pub fn generate() -> (r: Result<Vec<u8>, AppError>)
    ensures
        exists|read: Result<[u8; MASTER_KEY_BYTES], AppError>| #[trigger]
            entropy_gives(read) && match read {
                Ok(bytes) => r matches Ok(master) && master@ == bytes@,
                Err(error) => r == Err::<Vec<u8>, AppError>(error),
            },
        r matches Ok(master) ==> master@.len() == MASTER_KEY_BYTES,
        r matches Err(error) ==> error == authentication_failure(),
{
    match draw_bytes::<MASTER_KEY_BYTES>() {
        Err(error) => Err(error),
        Ok(bytes) => {
            let mut master: Vec<u8> = Vec::new();
            let mut i: usize = 0;
            while i < MASTER_KEY_BYTES
                invariant
                    i <= MASTER_KEY_BYTES,
                    master@ == bytes@.take(i as int),
                decreases MASTER_KEY_BYTES - i,
            {
                master.push(bytes[i]);
                i = i + 1;
                assert(master@ =~= bytes@.take(i as int));
            }
            assert(master@ =~= bytes@);
            Ok(master)
        },
    }
}

/// What is to be done next to load the key.
#[derive(Clone, Copy, Debug, PartialEq, Eq, Structural)]
pub enum KeyStep {
    /// Look at the key file, without following a link.
    Stat,
    /// Make a new key.
    Generate,
    /// Create the key file, where there is none.
    Create,
    /// Look at the key file that appeared meanwhile.
    Restat,
    /// Open the existing key file.
    Open,
    /// Look at the opened file and at its path.
    CheckOpened,
    /// Read the key and see that nothing is behind it.
    Read,
    /// Look at the file and at its path again after reading.
    CheckRead,
    /// Look at the created file.
    Describe,
    /// Look at the created file and at its path.
    CheckCreated,
    /// Write the key.
    Write,
    /// Make the key durable.
    Sync,
    /// Look at the file and at its path again after writing.
    CheckWritten,
    /// Make the directory durable.
    SyncDirectory,
    /// Nothing more is to be done.
    Finished,
}

/// How a step came out.
pub enum KeyEvent {
    /// It was done.
    Done,
    /// A look at one file.
    Found(FileMeta),
    /// A look at an opened file and at its path.
    Both(FileMeta, FileMeta),
    /// There is no such file.
    Missing,
    /// The file was already there.
    Exists,
    /// Bytes that were made or read.
    Bytes(Vec<u8>),
    /// It failed.
    Failed(AppError),
}

/// One loading of the key on its way.
pub struct KeyLoading {
    pub step: KeyStep,
    /// The file as it was first looked at.
    pub expected: Option<FileMeta>,
    /// The key, once it was made or read.
    pub master: Option<Vec<u8>>,
    /// Whether the key is safe to use, once that is decided.
    pub outcome: Option<Result<(), AppError>>,
}

pub open spec fn key_goes(k: KeyLoading, step: KeyStep) -> KeyLoading {
    KeyLoading { step, ..k }
}

pub open spec fn key_ends(k: KeyLoading, outcome: Result<(), AppError>) -> KeyLoading {
    KeyLoading { step: KeyStep::Finished, outcome: Some(outcome), ..k }
}

/// An existing file that may hold a key.
pub open spec fn key_file(meta: FileMeta) -> bool {
    private_file(meta) && meta.length == MASTER_KEY_BYTES
}

/// What follows from how a step came out.
pub open spec fn key_next(k: KeyLoading, event: KeyEvent) -> KeyLoading {
    match (k.step, event) {
        (KeyStep::Finished, _) => k,
        (_, KeyEvent::Failed(error)) => key_ends(k, Err(error)),
        (KeyStep::Stat, KeyEvent::Missing) => key_goes(k, KeyStep::Generate),
        (KeyStep::Stat, KeyEvent::Found(meta)) | (KeyStep::Restat, KeyEvent::Found(meta)) =>
            if key_file(meta) {
                KeyLoading { step: KeyStep::Open, expected: Some(meta), ..k }
            } else {
                key_ends(k, Err(storage_failure()))
            },
        (KeyStep::Generate, KeyEvent::Bytes(bytes)) => if bytes@.len() == MASTER_KEY_BYTES {
            KeyLoading { step: KeyStep::Create, master: Some(bytes), ..k }
        } else {
            key_ends(k, Err(storage_failure()))
        },
        (KeyStep::Create, KeyEvent::Exists) => key_goes(k, KeyStep::Restat),
        (KeyStep::Create, KeyEvent::Done) => key_goes(k, KeyStep::Describe),
        (KeyStep::Describe, KeyEvent::Found(meta)) => if private_file(meta) {
            KeyLoading { step: KeyStep::CheckCreated, expected: Some(meta), ..k }
        } else {
            key_ends(k, Err(storage_failure()))
        },
        (KeyStep::Open, KeyEvent::Done) => key_goes(k, KeyStep::CheckOpened),
        (KeyStep::Read, KeyEvent::Bytes(bytes)) => if bytes@.len() == MASTER_KEY_BYTES {
            KeyLoading { step: KeyStep::CheckRead, master: Some(bytes), ..k }
        } else {
            key_ends(k, Err(storage_failure()))
        },
        (KeyStep::Write, KeyEvent::Done) => key_goes(k, KeyStep::Sync),
        (KeyStep::Sync, KeyEvent::Done) => key_goes(k, KeyStep::CheckWritten),
        (KeyStep::SyncDirectory, KeyEvent::Done) => key_ends(k, Ok(())),
        (step, KeyEvent::Both(opened, current)) => match k.expected {
            Some(expected) if same_file(opened, current, expected) => match step {
                KeyStep::CheckOpened => key_goes(k, KeyStep::Read),
                KeyStep::CheckRead => key_ends(k, Ok(())),
                KeyStep::CheckCreated => key_goes(k, KeyStep::Write),
                KeyStep::CheckWritten => key_goes(k, KeyStep::SyncDirectory),
                _ => key_ends(k, Err(storage_failure())),
            },
            _ => key_ends(k, Err(storage_failure())),
        },
        _ => key_ends(k, Err(storage_failure())),
    }
}

/// The start of a loading.
pub open spec fn key_start() -> KeyLoading {
    KeyLoading { step: KeyStep::Stat, expected: None, master: None, outcome: None }
}

impl KeyLoading {
    /// Starts a loading.
    pub fn new() -> (r: Self)
        ensures
            r == key_start(),
    {
        KeyLoading { step: KeyStep::Stat, expected: None, master: None, outcome: None }
    }

    fn go(self, step: KeyStep) -> (r: Self)
        ensures
            r == key_goes(self, step),
    {
        KeyLoading { step, ..self }
    }

    fn end(self, outcome: Result<(), AppError>) -> (r: Self)
        ensures
            r == key_ends(self, outcome),
    {
        KeyLoading { step: KeyStep::Finished, outcome: Some(outcome), ..self }
    }

    /// Decides on the next step by how the last one came out.
    pub fn next(self, event: KeyEvent) -> (r: Self)
        ensures
            r == key_next(self, event),
    {
        match (self.step, event) {
            (KeyStep::Finished, _) => self,
            (_, KeyEvent::Failed(error)) => self.end(Err(error)),
            (KeyStep::Stat, KeyEvent::Missing) => self.go(KeyStep::Generate),
            (KeyStep::Stat, KeyEvent::Found(meta)) | (KeyStep::Restat, KeyEvent::Found(meta)) => {
                if validate_metadata(meta).is_ok() && meta.length == MASTER_KEY_BYTES as u64 {
                    KeyLoading { step: KeyStep::Open, expected: Some(meta), ..self }
                } else {
                    self.end(Err(AppError::storage()))
                }
            },
            (KeyStep::Generate, KeyEvent::Bytes(bytes)) => {
                if bytes.len() == MASTER_KEY_BYTES {
                    KeyLoading { step: KeyStep::Create, master: Some(bytes), ..self }
                } else {
                    self.end(Err(AppError::storage()))
                }
            },
            (KeyStep::Create, KeyEvent::Exists) => self.go(KeyStep::Restat),
            (KeyStep::Create, KeyEvent::Done) => self.go(KeyStep::Describe),
            (KeyStep::Describe, KeyEvent::Found(meta)) => {
                if validate_metadata(meta).is_ok() {
                    KeyLoading { step: KeyStep::CheckCreated, expected: Some(meta), ..self }
                } else {
                    self.end(Err(AppError::storage()))
                }
            },
            (KeyStep::Open, KeyEvent::Done) => self.go(KeyStep::CheckOpened),
            (KeyStep::Read, KeyEvent::Bytes(bytes)) => {
                if bytes.len() == MASTER_KEY_BYTES {
                    KeyLoading { step: KeyStep::CheckRead, master: Some(bytes), ..self }
                } else {
                    self.end(Err(AppError::storage()))
                }
            },
            (KeyStep::Write, KeyEvent::Done) => self.go(KeyStep::Sync),
            (KeyStep::Sync, KeyEvent::Done) => self.go(KeyStep::CheckWritten),
            (KeyStep::SyncDirectory, KeyEvent::Done) => self.end(Ok(())),
            (step, KeyEvent::Both(opened, current)) => match self.expected {
                None => self.end(Err(AppError::storage())),
                Some(expected) => {
                    if validate_opened(opened, current, expected).is_err() {
                        return self.end(Err(AppError::storage()));
                    }
                    match step {
                        KeyStep::CheckOpened => self.go(KeyStep::Read),
                        KeyStep::CheckRead => self.end(Ok(())),
                        KeyStep::CheckCreated => self.go(KeyStep::Write),
                        KeyStep::CheckWritten => self.go(KeyStep::SyncDirectory),
                        _ => self.end(Err(AppError::storage())),
                    }
                },
            },
            _ => self.end(Err(AppError::storage())),
        }
    }
}

/// A loading after a row of events, with whether it created the file and whether
/// it wrote to it.
pub struct KeyTrace {
    pub loading: KeyLoading,
    pub created: bool,
    pub written: bool,
}

pub open spec fn key_run(events: Seq<KeyEvent>) -> KeyTrace
    decreases events.len(),
{
    if events.len() == 0 {
        KeyTrace { loading: key_start(), created: false, written: false }
    } else {
        let t = key_run(events.drop_last());
        KeyTrace {
            loading: key_next(t.loading, events.last()),
            created: t.created || (t.loading.step == KeyStep::Create && events.last()
                == KeyEvent::Done),
            written: t.written || t.loading.step == KeyStep::Write,
        }
    }
}

/// A key is accepted only whole, and from a file that was seen to be private;
/// only a file that the loading created itself is ever written to, so that an
/// existing file is read or refused, never repaired.
pub proof fn existing_keys_are_never_repaired(events: Seq<KeyEvent>)
    ensures
        ({
            let t = key_run(events);
            let k = t.loading;
            &&& t.written ==> t.created
            &&& k.outcome == Some(Ok::<(), AppError>(())) ==> k.master is Some
                && k.master->0@.len() == MASTER_KEY_BYTES && k.expected is Some && private_file(
                k.expected->0,
            ) && (!t.created ==> k.expected->0.length == MASTER_KEY_BYTES && !t.written)
            &&& k.step == KeyStep::Finished <==> k.outcome is Some
        }),
    decreases events.len(),
{
    key_holds(events);
}

proof fn key_holds(events: Seq<KeyEvent>)
    ensures
        ({
            let t = key_run(events);
            let k = t.loading;
            let creating = k.step == KeyStep::Describe || k.step == KeyStep::CheckCreated || k.step
                == KeyStep::Write || k.step == KeyStep::Sync || k.step == KeyStep::CheckWritten
                || k.step == KeyStep::SyncDirectory;
            let reading = k.step == KeyStep::Open || k.step == KeyStep::CheckOpened || k.step
                == KeyStep::Read || k.step == KeyStep::CheckRead;
            &&& t.written ==> t.created
            &&& creating ==> t.created
            &&& k.step != KeyStep::Finished && !creating ==> !t.created && !t.written
            &&& k.master matches Some(master) ==> master@.len() == MASTER_KEY_BYTES
            &&& creating ==> k.master is Some
            &&& creating && k.step != KeyStep::Describe ==> k.expected is Some && private_file(
                k.expected->0,
            )
            &&& reading ==> k.expected is Some && key_file(k.expected->0)
            &&& k.step == KeyStep::CheckRead ==> k.master is Some
            &&& k.step == KeyStep::Create ==> k.master is Some
            &&& k.outcome == Some(Ok::<(), AppError>(())) ==> k.master is Some && k.expected is Some
                && private_file(k.expected->0) && (!t.created ==> key_file(k.expected->0)
                && !t.written)
            &&& k.step == KeyStep::Finished <==> k.outcome is Some
        }),
    decreases events.len(),
{
    if events.len() > 0 {
        key_holds(events.drop_last());
    }
}

/// What the key file holds as a loading last wrote or read it.
pub open spec fn key_left(events: Seq<KeyEvent>) -> Option<Seq<u8>>
    decreases events.len(),
{
    if events.len() == 0 {
        None
    } else {
        let k = key_run(events.drop_last()).loading;
        match (k.step, events.last()) {
            (KeyStep::Write, KeyEvent::Done) => match k.master {
                Some(master) => Some(master@),
                None => None,
            },
            (KeyStep::Read, KeyEvent::Bytes(bytes)) => Some(bytes@),
            _ => key_left(events.drop_last()),
        }
    }
}

/// The events are those of a file that is there and holds these bytes.
pub open spec fn key_found(events: Seq<KeyEvent>, held: Seq<u8>) -> bool
    decreases events.len(),
{
    events.len() > 0 ==> key_found(events.drop_last(), held) && match (
        key_run(events.drop_last()).loading.step,
        events.last(),
    ) {
        (KeyStep::Stat, KeyEvent::Missing) => false,
        (KeyStep::Read, KeyEvent::Bytes(bytes)) => bytes@ == held,
        _ => true,
    }
}

/// A loading that accepts a key leaves it in the file. Every later loading from
/// that file neither creates nor writes it, and accepts the same key or none.
pub proof fn a_second_loading_returns_the_first_key(first: Seq<KeyEvent>, second: Seq<KeyEvent>)
    requires
        key_run(first).loading.outcome == Some(Ok::<(), AppError>(())),
        key_found(second, key_run(first).loading.master->0@),
    ensures
        key_left(first) == Some(key_run(first).loading.master->0@),
        !key_run(second).created,
        !key_run(second).written,
        key_run(second).loading.outcome == Some(Ok::<(), AppError>(())) ==> key_run(
            second,
        ).loading.master->0@ == key_run(first).loading.master->0@,
{
    accepted_keys_are_left(first);
    found_keys_are_kept(second, key_run(first).loading.master->0@);
}

/// The key that is accepted is what was last written or read.
proof fn accepted_keys_are_left(events: Seq<KeyEvent>)
    ensures
        ({
            let k = key_run(events).loading;
            let written = k.step == KeyStep::Sync || k.step == KeyStep::CheckWritten || k.step
                == KeyStep::SyncDirectory;
            written || k.step == KeyStep::CheckRead || k.outcome == Some(Ok::<(), AppError>(()))
                ==> k.master is Some && key_left(events) == Some(k.master->0@)
        }),
    decreases events.len(),
{
    if events.len() > 0 {
        key_holds(events.drop_last());
        accepted_keys_are_left(events.drop_last());
    }
}

proof fn found_keys_are_kept(events: Seq<KeyEvent>, held: Seq<u8>)
    requires
        key_found(events, held),
    ensures
        ({
            let t = key_run(events);
            let k = t.loading;
            &&& !t.created
            &&& !t.written
            &&& k.step == KeyStep::Stat || k.step == KeyStep::Open || k.step
                == KeyStep::CheckOpened || k.step == KeyStep::Read || k.step == KeyStep::CheckRead
                || k.step == KeyStep::Finished
            &&& k.step == KeyStep::CheckRead || k.outcome == Some(Ok::<(), AppError>(()))
                ==> k.master is Some && k.master->0@ == held
        }),
    decreases events.len(),
{
    if events.len() > 0 {
        key_holds(events.drop_last());
        found_keys_are_kept(events.drop_last(), held);
    }
}

/// The events of a loading from a file that nothing disturbs.
pub open spec fn undisturbed(meta: FileMeta, bytes: Vec<u8>) -> Seq<KeyEvent> {
    seq![
        KeyEvent::Found(meta),
        KeyEvent::Done,
        KeyEvent::Both(meta, meta),
        KeyEvent::Bytes(bytes),
        KeyEvent::Both(meta, meta),
    ]
}

/// A private file of the right length whose bytes nothing disturbs is accepted,
/// and its bytes are the key.
pub proof fn undisturbed_files_are_accepted(meta: FileMeta, bytes: Vec<u8>)
    requires
        key_file(meta),
        bytes@.len() == MASTER_KEY_BYTES,
    ensures
        key_found(undisturbed(meta, bytes), bytes@),
        key_run(undisturbed(meta, bytes)).loading.outcome == Some(Ok::<(), AppError>(())),
        key_run(undisturbed(meta, bytes)).loading.master == Some(bytes),
{
    let events = undisturbed(meta, bytes);
    let four = events.drop_last();
    let three = four.drop_last();
    let two = three.drop_last();
    let one = two.drop_last();
    assert(one.drop_last() =~= Seq::empty());
    assert(one.last() == KeyEvent::Found(meta));
    assert(two.last() == KeyEvent::Done);
    assert(three.last() == KeyEvent::Both(meta, meta));
    assert(four.last() == KeyEvent::Bytes(bytes));
    assert(events.last() == KeyEvent::Both(meta, meta));
    reveal_with_fuel(key_run, 7);
    reveal_with_fuel(key_found, 7);
}

/// Any other file is refused at the first look, whatever comes after, and is
/// left as it is.
pub proof fn other_files_are_refused(meta: FileMeta, later: Seq<KeyEvent>)
    requires
        !key_file(meta),
    ensures
        key_run(seq![KeyEvent::Found(meta)] + later).loading.outcome == Some(
            Err::<(), AppError>(storage_failure()),
        ),
        !key_run(seq![KeyEvent::Found(meta)] + later).created,
        !key_run(seq![KeyEvent::Found(meta)] + later).written,
    decreases later.len(),
{
    let events = seq![KeyEvent::Found(meta)] + later;
    key_holds(events.drop_last());
    if later.len() == 0 {
        assert(events.drop_last() =~= Seq::empty());
        assert(events.last() == KeyEvent::Found(meta));
        reveal_with_fuel(key_run, 2);
    } else {
        assert(events.drop_last() =~= seq![KeyEvent::Found(meta)] + later.drop_last());
        other_files_are_refused(meta, later.drop_last());
    }
}

/// The events of a loading that makes the key and that nothing disturbs.
pub open spec fn undisturbed_creation(meta: FileMeta, bytes: Vec<u8>) -> Seq<KeyEvent> {
    seq![
        KeyEvent::Missing,
        KeyEvent::Bytes(bytes),
        KeyEvent::Done,
        KeyEvent::Found(meta),
        KeyEvent::Both(meta, meta),
        KeyEvent::Done,
        KeyEvent::Done,
        KeyEvent::Both(meta, meta),
        KeyEvent::Done,
    ]
}

/// Where there is no file, a new key is accepted once it stands in a private
/// file that the loading created for it.
pub proof fn missing_keys_are_created(meta: FileMeta, bytes: Vec<u8>)
    requires
        private_file(meta),
        bytes@.len() == MASTER_KEY_BYTES,
    ensures
        ({
            let t = key_run(undisturbed_creation(meta, bytes));
            &&& t.created
            &&& t.written
            &&& t.loading.outcome == Some(Ok::<(), AppError>(()))
            &&& t.loading.master == Some(bytes)
            &&& key_left(undisturbed_creation(meta, bytes)) == Some(bytes@)
        }),
{
    let events = undisturbed_creation(meta, bytes);
    let eight = events.drop_last();
    let seven = eight.drop_last();
    let six = seven.drop_last();
    let five = six.drop_last();
    let four = five.drop_last();
    let three = four.drop_last();
    let two = three.drop_last();
    let one = two.drop_last();
    assert(one.drop_last() =~= Seq::empty());
    assert(key_run(one.drop_last()).loading == key_start());
    assert(one.last() == KeyEvent::Missing);
    assert(key_run(one).loading.step == KeyStep::Generate);
    assert(two.last() == KeyEvent::Bytes(bytes));
    assert(key_run(two).loading.step == KeyStep::Create);
    assert(three.last() == KeyEvent::Done);
    assert(key_run(three).created && key_run(three).loading.step == KeyStep::Describe);
    assert(four.last() == KeyEvent::Found(meta));
    assert(key_run(four).loading.step == KeyStep::CheckCreated);
    assert(five.last() == KeyEvent::Both(meta, meta));
    assert(key_run(five).loading.step == KeyStep::Write);
    assert(six.last() == KeyEvent::Done);
    assert(key_run(six).loading.step == KeyStep::Sync);
    assert(seven.last() == KeyEvent::Done);
    assert(key_run(seven).loading.step == KeyStep::CheckWritten);
    assert(eight.last() == KeyEvent::Both(meta, meta));
    assert(key_run(eight).loading.step == KeyStep::SyncDirectory);
    assert(events.last() == KeyEvent::Done);
    accepted_keys_are_left(events);
}

}
