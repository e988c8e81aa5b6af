//! Key-value byte storage boundary with error-semantics classification.
//!
//! A backend stores byte objects under non-empty string keys. Failures are
//! split into two classes with different caching semantics: a definitive
//! "no such object" answer from the backend (`ObjectMissing`), which is a
//! stable, reusable fact, and every other failure (`Other`), which must
//! never be treated as permanent.

use vstd::prelude::*;
use vstd::slice::slice_to_vec;

verus! {

/// An opaque, cloneable diagnostic payload carried by a storage error:
/// a message plus the messages of the underlying causes, outermost first.
///
/// Backend-specific error values are type-erased into this form so that
/// error instances can be cloned and cached without re-invoking the backend.
#[derive(Clone, Debug)]
pub struct ErrorCause {
    /// Human-readable description of the failure.
    pub message: String,
    /// Messages of the source errors that led to this one, outermost first.
    pub chain: Vec<String>,
}

/// Error from a storage backend, classified by its semantics.
///
/// `ObjectMissing` is produced if and only if the backend reported a
/// definitive "no such object" condition; every other failure (network,
/// permission, throttling, corruption) classifies as `Other`.
#[derive(Clone, Debug)]
pub enum StorageError {
    /// The requested object definitively does not exist in the backend.
    ObjectMissing(ErrorCause),
    /// Any other backend failure; transient as far as callers know.
    Other(ErrorCause),
}

impl StorageError {
    /// The diagnostic payload, whatever the classification.
    pub fn cause(&self) -> (c: &ErrorCause)
        ensures
            c == match self {
                StorageError::ObjectMissing(c0) => c0,
                StorageError::Other(c0) => c0,
            },
    {
        match self {
            StorageError::ObjectMissing(c) => c,
            StorageError::Other(c) => c,
        }
    }

    /// True exactly on the `ObjectMissing` variant.
    pub fn is_object_missing(&self) -> (r: bool)
        ensures
            r == (self is ObjectMissing),
    {
        match self {
            StorageError::ObjectMissing(_) => true,
            StorageError::Other(_) => false,
        }
    }
}

/// Storage for byte objects under non-empty string keys.
///
/// A backend is modelled by the map [`Storage::objects`] from keys to the
/// byte values stored under them. Writes have overwrite semantics: a
/// successful `save_object` replaces whatever was at the key. Reads return
/// exactly the stored bytes; `ObjectMissing` is a definitive answer, so a
/// backend may report it only when the object really is absent, while any
/// other failure classifies as `Other`.
pub trait Storage: Sized {
    /// The objects the backend currently holds, keyed by their keys.
    spec fn objects(&self) -> Map<Seq<char>, Seq<u8>>;

    /// Write `data` under `key`, replacing any prior value (overwrite
    /// semantics). Any backend failure surfaces as `Other`, and even a
    /// failed write touches no key but `key`: every other object is
    /// exactly as it was.
    fn save_object(&mut self, key: &str, data: &[u8]) -> (r: Result<(), StorageError>)
        requires
            key@.len() > 0,
        ensures
            r is Ok ==> final(self).objects() == old(self).objects().insert(key@, data@),
            r matches Err(e) ==> e is Other,
            r is Err ==> final(self).objects().remove(key@) == old(self).objects().remove(
                key@,
            ),
    ;

    /// Read the object under `key`. A successful read returns exactly the
    /// stored bytes; an `ObjectMissing` failure may be reported only when
    /// the key holds no object.
    fn get_object(&self, key: &str) -> (r: Result<Vec<u8>, StorageError>)
        requires
            key@.len() > 0,
        ensures
            r matches Ok(v) ==> self.objects().contains_key(key@) && v@ == self.objects()[key@],
            r matches Err(e) && e is ObjectMissing ==> !self.objects().contains_key(key@),
    ;
}

/// Classify a failed backend read. `definitive_not_found` is true exactly
/// when the backend reported its definitive "no such object" condition
/// (for an S3-style backend, the no-such-key response); any other failure,
/// such as a timeout, must classify as `Other`, never as `ObjectMissing`.
pub fn classify_get_failure(definitive_not_found: bool, cause: ErrorCause) -> (e: StorageError)
    ensures
        e is ObjectMissing <==> definitive_not_found,
        e matches StorageError::ObjectMissing(c) ==> c == cause,
        e matches StorageError::Other(c) ==> c == cause,
{
    if definitive_not_found {
        StorageError::ObjectMissing(cause)
    } else {
        StorageError::Other(cause)
    }
}

/// The map denoted by a journal of writes, oldest first: a later write to a
/// key shadows an earlier one (overwrite semantics).
pub open spec fn journal_map(s: Seq<(String, Vec<u8>)>) -> Map<Seq<char>, Seq<u8>>
    decreases s.len(),
{
    if s.len() == 0 {
        Map::empty()
    } else {
        journal_map(s.drop_last()).insert(s.last().0@, s.last().1@)
    }
}

/// A key is in the journal's map exactly when some write mentions it.
proof fn lemma_journal_map_contains(s: Seq<(String, Vec<u8>)>, k: Seq<char>)
    ensures
        journal_map(s).contains_key(k) <==> exists|j: int| 0 <= j < s.len() && s[j].0@ == k,
    decreases s.len(),
{
    if s.len() > 0 {
        lemma_journal_map_contains(s.drop_last(), k);
        if journal_map(s).contains_key(k) && s.last().0@ != k {
            let j = choose|j: int| 0 <= j < s.drop_last().len() && s.drop_last()[j].0@ == k;
            assert(s[j].0@ == k);
        }
        if exists|j: int| 0 <= j < s.len() && s[j].0@ == k {
            let j = choose|j: int| 0 <= j < s.len() && s[j].0@ == k;
            if j < s.len() - 1 {
                assert(s.drop_last()[j].0@ == k);
            }
        }
    }
}

/// If no write at position `i` or later mentions `k`, the journal's map at
/// `k` agrees with the map of the first `i` writes.
proof fn lemma_journal_map_agree(s: Seq<(String, Vec<u8>)>, i: int, k: Seq<char>)
    requires
        0 <= i <= s.len(),
        forall|j: int| i <= j < s.len() ==> s[j].0@ != k,
    ensures
        journal_map(s).contains_key(k) <==> journal_map(s.take(i)).contains_key(k),
        journal_map(s).contains_key(k) ==> journal_map(s)[k] == journal_map(s.take(i))[k],
    decreases s.len() - i,
{
    if i < s.len() {
        assert(s.take(i + 1).drop_last() =~= s.take(i));
        assert(s.take(i + 1).last() == s[i]);
        lemma_journal_map_agree(s, i + 1, k);
        assert(s.take(s.len() as int) =~= s);
    } else {
        assert(s.take(i) =~= s);
    }
}

/// An in-memory storage backend: a journal of the writes performed, oldest
/// first. Reads scan the journal from the newest write back, so the value
/// returned for a key is the one written last, exactly as the overwrite
/// semantics demand. Suitable as a stand-in for a remote backend wherever
/// the two-operation contract is all that matters.
pub struct MemoryStore {
    journal: Vec<(String, Vec<u8>)>,
}

impl MemoryStore {
    /// An empty backend: no key holds an object.
    pub fn new() -> (s: MemoryStore)
        ensures
            s.objects() == Map::<Seq<char>, Seq<u8>>::empty(),
    {
        MemoryStore { journal: Vec::new() }
    }
}

impl Storage for MemoryStore {
    closed spec fn objects(&self) -> Map<Seq<char>, Seq<u8>> {
        journal_map(self.journal@)
    }

    fn save_object(&mut self, key: &str, data: &[u8]) -> (r: Result<(), StorageError>)
        ensures
            r is Ok,
    {
        let entry = (String::from_str(key), slice_to_vec(data));
        proof {
            assert(old(self).journal@.push(entry).drop_last() =~= old(self).journal@);
        }
        self.journal.push(entry);
        Ok(())
    }

    fn get_object(&self, key: &str) -> (r: Result<Vec<u8>, StorageError>)
        ensures
            r is Ok <==> self.objects().contains_key(key@),
            r matches Err(e) ==> e is ObjectMissing,
    {
        let k = String::from_str(key);
        let n = self.journal.len();
        let mut i: usize = n;
        while i > 0
            invariant
                0 <= i <= n,
                n == self.journal@.len(),
                k@ == key@,
                forall|j: int| i <= j < n ==> self.journal@[j].0@ != key@,
            decreases i,
        {
            i = i - 1;
            let entry = &self.journal[i];
            if entry.0 == k {
                proof {
                    lemma_journal_map_agree(self.journal@, i + 1, key@);
                    assert(self.journal@.take(i + 1).drop_last() =~= self.journal@.take(
                        i as int,
                    ));
                    assert(self.journal@.take(i + 1).last() == self.journal@[i as int]);
                    lemma_journal_map_contains(self.journal@, key@);
                }
                return Ok(slice_to_vec(entry.1.as_slice()));
            }
        }
        proof {
            lemma_journal_map_contains(self.journal@, key@);
        }
        Err(
            StorageError::ObjectMissing(
                ErrorCause { message: String::from_str("no object under this key"), chain: Vec::new() },
            ),
        )
    }
}

/// A write followed by a read of the same key is owed exactly the bytes
/// written: after a successful `save_object` of `v` under `k`, the backend
/// model holds `v` at `k`, so `get_object`'s contract forces any `Ok` to be
/// `v` and forbids `ObjectMissing`.
pub proof fn lemma_write_then_read(m: Map<Seq<char>, Seq<u8>>, k: Seq<char>, v: Seq<u8>)
    ensures
        m.insert(k, v).contains_key(k),
        m.insert(k, v)[k] == v,
{
}

/// Overwrite semantics: two successive writes to the same key leave the
/// second value and only the second value at the key, whatever was there
/// before — never a merge of the two.
pub proof fn lemma_overwrite(
    m: Map<Seq<char>, Seq<u8>>,
    k: Seq<char>,
    v1: Seq<u8>,
    v2: Seq<u8>,
)
    ensures
        m.insert(k, v1).insert(k, v2).contains_key(k),
        m.insert(k, v1).insert(k, v2)[k] == v2,
        m.insert(k, v1).insert(k, v2) == m.insert(k, v2),
{
    assert(m.insert(k, v1).insert(k, v2) =~= m.insert(k, v2));
}

} // verus!

