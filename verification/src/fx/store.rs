//! The blob store: its contract, a store in memory, and the rules of the store on disk.

use crate::digest::{is_hex_digest, DIGEST_LEN};
use crate::text::chars_of;
use vstd::prelude::*;
use vstd::slice::slice_to_vec;
use vstd::string::StringExecFns;

verus! {

/// What kind of failure the storage medium reported.
#[derive(Clone, Copy, Debug, PartialEq, Eq, Structural)]
pub enum IoErrorKind {
    /// The entry does not exist.
    NotFound,
    /// The entry exists already.
    AlreadyExists,
    /// Anything else.
    Other,
}

/// A failure of the storage medium or of a launched program.
#[derive(Debug)]
pub struct IoError {
    /// What kind of failure it was.
    pub kind: IoErrorKind,
    /// What the medium said about it.
    pub message: String,
}

/// Why a blob could not be handed out.
#[derive(Debug)]
pub enum StoreGetError {
    /// No blob is stored under the key.
    NotFound,
    /// The medium failed.
    IO(IoError),
}

/// Why a blob could not be stored.
#[derive(Debug)]
pub enum StorePutError {
    /// A blob is stored under the key already; it stays as it is.
    AlreadyExist,
    /// The medium failed; nothing was stored.
    IO(IoError),
}

/// What a store holds: the blobs, by key.
pub type Blobs = Map<Seq<char>, Seq<u8>>;

/// What a `get` may answer for the key, given what the store holds.
pub open spec fn allowed_get(
    contents: Blobs,
    key: Seq<char>,
    res: Result<Vec<u8>, StoreGetError>,
) -> bool {
    match res {
        Ok(blob) => contents.contains_key(key) && blob@ == contents[key],
        Err(StoreGetError::NotFound) => !contents.contains_key(key),
        Err(StoreGetError::IO(_)) => true,
    }
}

/// What a `put` may answer, and what the store may hold afterwards, given what it held before.
pub open spec fn allowed_put(
    before: Blobs,
    after: Blobs,
    key: Seq<char>,
    data: Seq<u8>,
    res: Result<(), StorePutError>,
) -> bool {
    match res {
        Ok(_) => !before.contains_key(key) && after == before.insert(key, data),
        Err(StorePutError::AlreadyExist) => before.contains_key(key) && after == before,
        Err(StorePutError::IO(_)) => after == before,
    }
}

/// A content-addressed blob store: a blob is written once under its key and never changed.
pub trait Store {
    /// The blobs that can be read, by key. A blob that is only partly written is not among them.
    spec fn contents(&self) -> Blobs;

    /// Whether the medium of the store can fail. A kind of store whose medium cannot says so
    /// here.
    open spec fn fallible(&self) -> bool {
        true
    }

    /// The blob stored under `key`.
    fn get(&self, key: &str) -> (res: Result<Vec<u8>, StoreGetError>)
        ensures
            allowed_get(self.contents(), key@, res),
            res matches Err(StoreGetError::IO(_)) ==> self.fallible(),
    ;

    /// Stores `data` under `key`, unless a blob is stored there already. After a failure the
    /// store holds what it held before.
    fn put(&mut self, key: &str, data: &[u8]) -> (res: Result<(), StorePutError>)
        ensures
            allowed_put(old(self).contents(), final(self).contents(), key@, data@, res),
            res matches Err(StorePutError::IO(_)) ==> old(self).fallible(),
    ;
}

/// Round trip: after a `put` that succeeded, a `get` for the same key that the medium does not
/// fail yields exactly the bytes that were put, be they none or many.
pub proof fn lemma_get_after_put(
    before: Blobs,
    after: Blobs,
    key: Seq<char>,
    data: Seq<u8>,
    put: Result<(), StorePutError>,
    got: Result<Vec<u8>, StoreGetError>,
)
    requires
        allowed_put(before, after, key, data, put),
        put is Ok,
        allowed_get(after, key, got),
        !(got matches Err(StoreGetError::IO(_))),
    ensures
        got matches Ok(blob) && blob@ == data,
{
}

/// Create-once: a `put` on a key that holds a blob fails, with `AlreadyExist` unless the medium
/// itself failed, and the store holds what it held before, the blob under the key included.
pub proof fn lemma_put_on_existing_key(
    before: Blobs,
    after: Blobs,
    key: Seq<char>,
    data: Seq<u8>,
    put: Result<(), StorePutError>,
)
    requires
        before.contains_key(key),
        allowed_put(before, after, key, data, put),
    ensures
        put is Err,
        after == before,
        after[key] == before[key],
{
}

/// Two writers, one key: of two `put`s on a key that held nothing, one after the other, the
/// first that succeeds decides what the key holds; the second fails and changes nothing.
pub proof fn lemma_second_put_loses(
    before: Blobs,
    between: Blobs,
    after: Blobs,
    key: Seq<char>,
    first: Seq<u8>,
    second: Seq<u8>,
    first_put: Result<(), StorePutError>,
    second_put: Result<(), StorePutError>,
)
    requires
        allowed_put(before, between, key, first, first_put),
        allowed_put(between, after, key, second, second_put),
        first_put is Ok,
    ensures
        second_put is Err,
        after.contains_key(key),
        after[key] == first,
{
}

/// What a list of entries holds by key; of two entries with one key the later one counts.
pub open spec fn contents_of(entries: Seq<(String, Vec<u8>)>) -> Blobs
    decreases entries.len(),
{
    if entries.len() == 0 {
        Map::empty()
    } else {
        contents_of(entries.drop_last()).insert(entries.last().0@, entries.last().1@)
    }
}

/// The last entry with a key is the one that counts.
proof fn lemma_last_match_counts(entries: Seq<(String, Vec<u8>)>, i: int, key: Seq<char>)
    requires
        0 <= i < entries.len(),
        entries[i].0@ == key,
        forall|j: int| i < j < entries.len() ==> (#[trigger] entries[j]).0@ != key,
    ensures
        contents_of(entries).contains_key(key),
        contents_of(entries)[key] == entries[i].1@,
    decreases entries.len(),
{
    if i < entries.len() - 1 {
        assert(entries.last().0@ != key);
        assert(entries.drop_last()[i] == entries[i]);
        assert forall|j: int| i < j < entries.drop_last().len() implies (#[trigger] entries.drop_last()[j]).0@ != key by {
            assert(entries[j].0@ != key);
        }
        lemma_last_match_counts(entries.drop_last(), i, key);
    }
}

/// A key that no entry has is not held.
proof fn lemma_no_match_no_key(entries: Seq<(String, Vec<u8>)>, key: Seq<char>)
    requires
        forall|j: int| 0 <= j < entries.len() ==> (#[trigger] entries[j]).0@ != key,
    ensures
        !contents_of(entries).contains_key(key),
    decreases entries.len(),
{
    if entries.len() > 0 {
        assert(entries.last().0@ != key);
        assert forall|j: int| 0 <= j < entries.drop_last().len() implies (#[trigger] entries.drop_last()[j]).0@ != key by {
            assert(entries[j].0@ != key);
        }
        lemma_no_match_no_key(entries.drop_last(), key);
    }
}

/// A blob store that keeps its blobs in memory. Its medium never fails.
pub struct MemoryStore {
    entries: Vec<(String, Vec<u8>)>,
}

impl MemoryStore {
    /// A store that holds nothing.
    pub fn new() -> (store: Self)
        ensures
            store.contents() == Map::<Seq<char>, Seq<u8>>::empty(),
    {
        MemoryStore { entries: Vec::new() }
    }

    /// Where the entry that counts for `key` stands, if there is one.
    fn find(&self, key: &str) -> (found: Option<usize>)
        ensures
            match found {
                Some(i) => i < self.entries@.len() && self.contents().contains_key(key@)
                    && self.contents()[key@] == self.entries@[i as int].1@,
                None => !self.contents().contains_key(key@),
            },
    {
        let wanted = String::from_str(key);
        let mut i = self.entries.len();
        while i > 0
            invariant
                i <= self.entries@.len(),
                wanted@ == key@,
                forall|j: int| i <= j < self.entries@.len() ==> (#[trigger] self.entries@[j]).0@ != key@,
            decreases i,
        {
            i -= 1;
            if self.entries[i].0 == wanted {
                proof {
                    lemma_last_match_counts(self.entries@, i as int, key@);
                }
                return Some(i);
            }
        }
        proof {
            lemma_no_match_no_key(self.entries@, key@);
        }
        None
    }
}

impl Store for MemoryStore {
    closed spec fn contents(&self) -> Blobs {
        contents_of(self.entries@)
    }

    /// Memory does not fail.
    open spec fn fallible(&self) -> bool {
        false
    }

    fn get(&self, key: &str) -> (res: Result<Vec<u8>, StoreGetError>) {
        match self.find(key) {
            Some(i) => Ok(slice_to_vec(self.entries[i].1.as_slice())),
            None => Err(StoreGetError::NotFound),
        }
    }

    fn put(&mut self, key: &str, data: &[u8]) -> (res: Result<(), StorePutError>) {
        match self.find(key) {
            Some(_) => Err(StorePutError::AlreadyExist),
            None => {
                self.entries.push((String::from_str(key), slice_to_vec(data)));
                assert(self.entries@.drop_last() =~= old(self).entries@);
                Ok(())
            },
        }
    }
}

/// The next thing to do to the directory while a blob is being stored.
#[derive(Debug)]
pub enum PutStep {
    /// Open the blob's file, to see whether it exists.
    Probe,
    /// Write all of the blob's bytes to the temporary file.
    Stage,
    /// Give the temporary file the blob's name, unless a file has that name.
    Publish,
    /// Remove the temporary file, then fail with the error.
    Discard(StorePutError),
}

/// What a step of a `put` does to the directory, with the names of the files it works on.
#[derive(Debug)]
pub enum PutAction {
    /// Open the file for reading, to see whether it exists.
    Open(String),
    /// Create the file and write all of the blob's bytes to it.
    Write(String),
    /// Give the first file the second name as well, unless a file has that name; then remove
    /// the first name.
    Link(String, String),
    /// Remove the file.
    Remove(String),
}

/// How a `put` goes on after a step.
#[derive(Debug)]
pub enum PutNext {
    /// Take this step next.
    Do(PutStep),
    /// The `put` is over, with this result.
    Done(Result<(), StorePutError>),
}

/// Where a `put` stands after the steps whose outcomes are `outcomes`, starting at `step`.
/// Outcomes that come after the `put` is over count for nothing.
pub open spec fn put_run(step: PutStep, outcomes: Seq<Result<(), IoError>>) -> PutNext
    decreases outcomes.len(),
{
    if outcomes.len() == 0 {
        PutNext::Do(step)
    } else {
        match spec_put_next(step, outcomes.first()) {
            PutNext::Do(next) => put_run(next, outcomes.drop_first()),
            PutNext::Done(result) => PutNext::Done(result),
        }
    }
}

/// How a `put` goes on after `step` had the outcome `outcome`.
pub open spec fn spec_put_next(step: PutStep, outcome: Result<(), IoError>) -> PutNext {
    match (step, outcome) {
        (PutStep::Probe, Ok(_)) => PutNext::Done(Err(StorePutError::AlreadyExist)),
        (PutStep::Probe, Err(err)) => if err.kind == IoErrorKind::NotFound {
            PutNext::Do(PutStep::Stage)
        } else {
            PutNext::Done(Err(StorePutError::IO(err)))
        },
        (PutStep::Stage, Ok(_)) => PutNext::Do(PutStep::Publish),
        (PutStep::Stage, Err(err)) => PutNext::Do(PutStep::Discard(StorePutError::IO(err))),
        (PutStep::Publish, Ok(_)) => PutNext::Done(Ok(())),
        (PutStep::Publish, Err(err)) => if err.kind == IoErrorKind::AlreadyExists {
            PutNext::Do(PutStep::Discard(StorePutError::AlreadyExist))
        } else {
            PutNext::Do(PutStep::Discard(StorePutError::IO(err)))
        },
        (PutStep::Discard(failure), _) => PutNext::Done(Err(failure)),
    }
}

/// The reference store: a directory with one file per blob, named by the blob's key, holding the
/// raw bytes. This type decides; whoever owns the directory carries the steps out.
#[derive(Debug)]
pub struct LocalStore {
    dir: String,
}

impl LocalStore {
    /// The directory of the store.
    pub closed spec fn spec_dir(&self) -> Seq<char> {
        self.dir@
    }

    /// A store in the directory `dir`.
    pub fn new(dir: &str) -> (store: Self)
        ensures
            store.spec_dir() == dir@,
    {
        LocalStore { dir: String::from_str(dir) }
    }

    /// The directory of the store.
    pub fn dir(&self) -> (dir: &str)
        ensures
            dir@ == self.spec_dir(),
    {
        self.dir.as_str()
    }

    /// Whether `key` is a key of this store: a digest in lower-case hexadecimal, as the cache
    /// keys of clips are.
    pub open spec fn spec_is_key(key: Seq<char>) -> bool {
        is_hex_digest(key)
    }

    /// The name of the file that holds the blob stored under `key`: the key itself.
    pub open spec fn spec_file_name(key: Seq<char>) -> Seq<char> {
        key
    }

    /// The name of the file in which a blob for `key` is written before it is published.
    pub open spec fn spec_staging_name(key: Seq<char>) -> Seq<char> {
        key + ".part"@
    }

    /// What `step` of a `put` for `key` does to the directory: the probe opens the blob's file,
    /// staging writes the staging file, publishing gives the staging file the blob's name, and
    /// discarding removes the staging file. The result is the action by the names in it.
    pub open spec fn spec_action(step: PutStep, key: Seq<char>) -> (Seq<char>, Option<Seq<char>>) {
        match step {
            PutStep::Probe => (Self::spec_file_name(key), None),
            PutStep::Stage => (Self::spec_staging_name(key), None),
            PutStep::Publish => (Self::spec_staging_name(key), Some(Self::spec_file_name(key))),
            PutStep::Discard(_) => (Self::spec_staging_name(key), None),
        }
    }

    /// Whether `key` is a key of this store.
    pub fn is_key(key: &str) -> (is: bool)
        ensures
            is == Self::spec_is_key(key@),
    {
        let chars = chars_of(key);
        if chars.len() != 2 * DIGEST_LEN {
            return false;
        }
        let mut i: usize = 0;
        while i < chars.len()
            invariant
                i <= chars@.len(),
                chars@ == key@,
                chars@.len() == 2 * DIGEST_LEN,
                forall|j: int| 0 <= j < i ==> crate::digest::is_hex_digit(#[trigger] chars@[j]),
            decreases chars@.len() - i,
        {
            let c = chars[i];
            if !(('0' <= c && c <= '9') || ('a' <= c && c <= 'f')) {
                return false;
            }
            i += 1;
        }
        true
    }

    /// Tells a key of this store from any other text. Under a text that is no key the store
    /// holds nothing and takes nothing: the failure says that there is no such file.
    pub fn check_key(key: &str) -> (res: Result<(), IoError>)
        ensures
            res is Ok <==> Self::spec_is_key(key@),
            res matches Err(err) ==> err.kind == IoErrorKind::NotFound,
    {
        if Self::is_key(key) {
            Ok(())
        } else {
            Err(IoError { kind: IoErrorKind::NotFound, message: String::from_str("not a key") })
        }
    }

    /// The name of the file that holds the blob stored under `key`: the key itself.
    pub fn file_name(key: &str) -> (name: String)
        requires
            Self::spec_is_key(key@),
        ensures
            name@ == Self::spec_file_name(key@),
    {
        String::from_str(key)
    }

    /// The name of the file in which a blob for `key` is written before it is published.
    pub fn staging_name(key: &str) -> (name: String)
        requires
            Self::spec_is_key(key@),
        ensures
            name@ == Self::spec_staging_name(key@),
    {
        String::from_str(key).concat(".part")
    }

    /// What `step` of a `put` for `key` does to the directory, with the names of the files.
    pub fn action(step: &PutStep, key: &str) -> (action: PutAction)
        requires
            Self::spec_is_key(key@),
        ensures
            match action {
                PutAction::Open(file) => *step is Probe && Self::spec_action(*step, key@) == (
                    file@,
                    None::<Seq<char>>,
                ),
                PutAction::Write(file) => *step is Stage && Self::spec_action(*step, key@) == (
                    file@,
                    None::<Seq<char>>,
                ),
                PutAction::Link(from, to) => *step is Publish && Self::spec_action(*step, key@) == (
                    from@,
                    Some(to@),
                ),
                PutAction::Remove(file) => *step is Discard && Self::spec_action(*step, key@) == (
                    file@,
                    None::<Seq<char>>,
                ),
            },
    {
        match step {
            PutStep::Probe => PutAction::Open(Self::file_name(key)),
            PutStep::Stage => PutAction::Write(Self::staging_name(key)),
            PutStep::Publish => PutAction::Link(Self::staging_name(key), Self::file_name(key)),
            PutStep::Discard(_) => PutAction::Remove(Self::staging_name(key)),
        }
    }

    /// Whether a file exists, told from the outcome of opening it.
    pub fn is_file_exists(opened: Result<(), IoError>) -> (res: Result<bool, IoError>)
        ensures
            match opened {
                Ok(_) => res == Ok::<bool, IoError>(true),
                Err(err) => if err.kind == IoErrorKind::NotFound {
                    res == Ok::<bool, IoError>(false)
                } else {
                    res == Err::<bool, IoError>(err)
                },
            },
    {
        match opened {
            Ok(_) => Ok(true),
            Err(err) => if err.kind == IoErrorKind::NotFound {
                Ok(false)
            } else {
                Err(err)
            },
        }
    }

    /// The answer of `get`, told from the outcome of reading the blob's file: the bytes read,
    /// `NotFound` where the file does not exist, and any other failure as it is.
    pub fn get(read: Result<Vec<u8>, IoError>) -> (res: Result<Vec<u8>, StoreGetError>)
        ensures
            match read {
                Ok(blob) => res == Ok::<Vec<u8>, StoreGetError>(blob),
                Err(err) => if err.kind == IoErrorKind::NotFound {
                    res == Err::<Vec<u8>, StoreGetError>(StoreGetError::NotFound)
                } else {
                    res == Err::<Vec<u8>, StoreGetError>(StoreGetError::IO(err))
                },
            },
    {
        match read {
            Ok(blob) => Ok(blob),
            Err(err) => if err.kind == IoErrorKind::NotFound {
                Err(StoreGetError::NotFound)
            } else {
                Err(StoreGetError::IO(err))
            },
        }
    }

    /// The first step of a `put`.
    pub fn put() -> (step: PutStep)
        ensures
            step == PutStep::Probe,
    {
        PutStep::Probe
    }

    /// How a `put` goes on after `step` had the outcome `outcome`.
    pub fn put_next(step: PutStep, outcome: Result<(), IoError>) -> (next: PutNext)
        ensures
            next == spec_put_next(step, outcome),
    {
        match step {
            PutStep::Probe => match outcome {
                Ok(_) => PutNext::Done(Err(StorePutError::AlreadyExist)),
                Err(err) => if err.kind == IoErrorKind::NotFound {
                    PutNext::Do(PutStep::Stage)
                } else {
                    PutNext::Done(Err(StorePutError::IO(err)))
                },
            },
            PutStep::Stage => match outcome {
                Ok(_) => PutNext::Do(PutStep::Publish),
                Err(err) => PutNext::Do(PutStep::Discard(StorePutError::IO(err))),
            },
            PutStep::Publish => match outcome {
                Ok(_) => PutNext::Done(Ok(())),
                Err(err) => if err.kind == IoErrorKind::AlreadyExists {
                    PutNext::Do(PutStep::Discard(StorePutError::AlreadyExist))
                } else {
                    PutNext::Do(PutStep::Discard(StorePutError::IO(err)))
                },
            },
            PutStep::Discard(failure) => PutNext::Done(Err(failure)),
        }
    }
}

/// A `put` succeeds in exactly one way: the probe finds no file, all bytes reach the temporary
/// file, and the temporary file gets the blob's name. So no reader ever finds a blob under its
/// name that was written in part.
pub proof fn lemma_put_succeeds_only_after_full_copy(outcomes: Seq<Result<(), IoError>>)
    ensures
        put_run(PutStep::Probe, outcomes) == PutNext::Done(Ok(())) <==> {
            &&& outcomes.len() >= 3
            &&& outcomes[0] matches Err(err) && err.kind == IoErrorKind::NotFound
            &&& outcomes[1] is Ok
            &&& outcomes[2] is Ok
        },
{
    reveal_with_fuel(put_run, 5);
    if outcomes.len() >= 1 {
        let after_probe = outcomes.drop_first();
        if after_probe.len() >= 1 {
            assert(after_probe[0] == outcomes[1]);
            let after_stage = after_probe.drop_first();
            if after_stage.len() >= 1 {
                assert(after_stage[0] == outcomes[2]);
                let after_third = after_stage.drop_first();
                if after_third.len() >= 1 {
                }
            }
        }
    }
}

/// A `put` on a key whose file the probe finds ends at once with `AlreadyExist`: nothing is
/// written.
pub proof fn lemma_put_on_existing_file(outcomes: Seq<Result<(), IoError>>)
    requires
        outcomes.len() >= 1,
        outcomes[0] is Ok,
    ensures
        put_run(PutStep::Probe, outcomes) == PutNext::Done(Err(StorePutError::AlreadyExist)),
{
}

/// The files of different keys are different files: no blob's file is the blob's file or the
/// staging file of another key, and no two keys share a staging file.
pub proof fn lemma_keys_have_their_own_files(key: Seq<char>, other: Seq<char>)
    requires
        LocalStore::spec_is_key(key),
        LocalStore::spec_is_key(other),
        key != other,
    ensures
        LocalStore::spec_file_name(other) != LocalStore::spec_file_name(key),
        LocalStore::spec_file_name(other) != LocalStore::spec_staging_name(key),
        LocalStore::spec_staging_name(other) != LocalStore::spec_file_name(key),
        LocalStore::spec_staging_name(other) != LocalStore::spec_staging_name(key),
        LocalStore::spec_file_name(key) != LocalStore::spec_staging_name(key),
{
    reveal_strlit(".part");
    let suffix = ".part"@;
    assert(suffix.len() == 5);
    assert((key + suffix).len() == key.len() + 5);
    assert((other + suffix).len() == other.len() + 5);
    if other + suffix == key + suffix {
        assert((other + suffix).take(other.len() as int) =~= other);
        assert((key + suffix).take(key.len() as int) =~= key);
    }
}

/// A `put` on one key leaves every other key as it was: whatever step the `put` is at, the
/// files that the step works on are the blob's file and the staging file of its own key, and
/// neither is the file of another key's blob. So what a `get` for another key reads is not
/// written, renamed or removed.
pub proof fn lemma_put_keeps_off_other_keys(step: PutStep, key: Seq<char>, other: Seq<char>)
    requires
        LocalStore::spec_is_key(key),
        LocalStore::spec_is_key(other),
        key != other,
    ensures
        LocalStore::spec_action(step, key).0 != LocalStore::spec_file_name(other),
        LocalStore::spec_action(step, key).1 != Some(LocalStore::spec_file_name(other)),
        LocalStore::spec_action(step, key).0 == LocalStore::spec_file_name(key)
            || LocalStore::spec_action(step, key).0 == LocalStore::spec_staging_name(key),
        LocalStore::spec_action(step, key).1 matches Some(to) ==> to == LocalStore::spec_file_name(
            key,
        ),
{
    lemma_keys_have_their_own_files(key, other);
}

} // verus!
