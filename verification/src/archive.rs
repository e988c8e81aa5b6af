//! Deterministic archive assembly.
//!
//! An ordered sequence of named byte buffers is serialized into a single
//! compressed container. Entries are written in the order supplied, each
//! under its own name, and the container bytes are a function of the entry
//! list alone: the writer is configured with constant options (a fixed
//! timestamp, a fixed system tag, sizes in 64-bit fields, default
//! compression), so two runs over the same entries give byte-for-byte
//! identical output, on any platform.

use vstd::prelude::*;

verus! {

/// Failure while writing or finalizing the container. Terminal for the
/// whole build: partial containers are never returned.
#[derive(Clone, Debug)]
pub struct ArchiveError {
    /// Human-readable description of the failure.
    pub message: String,
}

/// An in-progress container: a zip writer over an in-memory buffer. The
/// writer type itself cannot be declared to the verifier (its generic
/// parameter is bound by I/O traits), so it is held opaquely and described
/// only through [`zip_entries`].
#[verifier::external_body]
pub struct ArchiveWriter {
    inner: zip::write::ZipWriter<std::io::Cursor<Vec<u8>>>,
}

/// The named entries written to the container so far, in the order they
/// were started, each paired with the bytes written to it.
pub uninterp spec fn zip_entries(w: ArchiveWriter) -> Seq<(Seq<char>, Seq<u8>)>;

/// Whether the writer has an entry open for writing: set by a successful
/// `start_file`, kept by successful writes. Stands for the writer's own
/// writing flag, which its write path demands.
pub uninterp spec fn zip_open_for_writing(w: ArchiveWriter) -> bool;

/// The one format bound the archive stage cannot lift: the entry name, at
/// no more than four bytes per character, must fit the format's 16-bit
/// name-length field. Entry sizes are unbounded here: the writer is
/// configured to store sizes in 64-bit fields.
pub open spec fn entry_within_limits(e: (Seq<char>, Seq<u8>)) -> bool {
    e.0.len() <= 16383
}

/// The container encoding of an entry list: the bytes that finalizing a
/// writer over exactly those entries produces, with the fixed options this
/// module always uses (constant timestamp, fixed system tag, 64-bit size
/// fields, default compression). The encoding is involved (headers,
/// compression, central directory), but depends on the entries alone.
pub uninterp spec fn zip_bytes_of(entries: Seq<(Seq<char>, Seq<u8>)>) -> Seq<u8>;

/// Relies on zip's `ZipWriter::new`: a fresh writer holds no entries.
#[verifier::external_body]
fn zip_writer_new() -> (w: ArchiveWriter)
    ensures
        zip_entries(w) == Seq::<(Seq<char>, Seq<u8>)>::empty(),
{
    ArchiveWriter { inner: zip::write::ZipWriter::new(std::io::Cursor::new(Vec::new())) }
}

/// Relies on zip's `ZipWriter::start_file`: on success a new, empty entry
/// under `name` is appended and becomes the one being written. The options
/// are constant — `FileOptions::DEFAULT` (1980 timestamp, no encryption)
/// with the system tag pinned and the large-file flag set — so the
/// eventual container bytes stay a function of the entries alone, the same
/// on every platform. The name must be fresh: `start_file` refuses a
/// duplicate. Success is owed when the name fits the format's 16-bit
/// name-length field (at most four bytes per character, so 16383
/// characters always fit): the writer writes into an in-memory buffer,
/// which cannot raise an I/O error, and with the large-file flag the
/// finalization of the previous entry stores both its sizes in 64-bit
/// fields, so no size can make it fail.
#[verifier::external_body]
fn zip_start_file(
    w: &mut ArchiveWriter,
    name: &String,
) -> (r: Result<(), ArchiveError>)
    requires
        forall|k: int|
            0 <= k < zip_entries(*old(w)).len() ==> zip_entries(*old(w))[k].0 != name@,
    ensures
        r is Ok ==> zip_entries(*final(w)) == zip_entries(*old(w)).push(
            (name@, Seq::<u8>::empty()),
        ),
        r is Ok ==> zip_open_for_writing(*final(w)),
        name@.len() <= 16383 ==> r is Ok,
{
    let options = zip::write::FileOptions::DEFAULT.large_file(true).system(zip::System::Unix);
    w.inner.start_file(name.as_str(), options).map_err(
        |e| ArchiveError { message: e.to_string() },
    )
}

/// Relies on zip's `Write::write_all` for `ZipWriter`: the given bytes are
/// appended to the entry currently being written, the last one started.
/// Success is owed: the write path can fail only on an I/O error of the
/// underlying writer — an in-memory buffer, which raises none — or on an
/// entry outgrowing the format's plain 32-bit size field, which the
/// large-file flag set at `start_file` lifts into 64-bit fields.
#[verifier::external_body]
fn zip_write_all(
    w: &mut ArchiveWriter,
    data: &[u8],
) -> (r: Result<(), ArchiveError>)
    requires
        zip_entries(*old(w)).len() > 0,
        zip_open_for_writing(*old(w)),
    ensures
        r is Ok ==> zip_entries(*final(w)) == zip_entries(*old(w)).update(
            zip_entries(*old(w)).len() - 1,
            (
                zip_entries(*old(w)).last().0,
                zip_entries(*old(w)).last().1 + data@,
            ),
        ),
        r is Ok ==> zip_open_for_writing(*final(w)),
        r is Ok,
{
    std::io::Write::write_all(&mut w.inner, data).map_err(|e| ArchiveError { message: e.to_string() })
}

/// Relies on zip's `ZipWriter::finish`: the writer is finalized and the
/// underlying buffer holds the complete container over exactly the entries
/// written. Success is owed: finalizing closes any open entry and writes
/// the central directory into the in-memory buffer, which cannot raise an
/// I/O error; entry sizes sit in 64-bit fields (the large-file flag), many
/// entries and large offsets go into the format's 64-bit structures, and
/// every admitted name fits its field.
#[verifier::external_body]
fn zip_finish(w: ArchiveWriter) -> (r: Result<
    Vec<u8>,
    ArchiveError,
>)
    ensures
        r matches Ok(b) ==> b@ == zip_bytes_of(zip_entries(w)),
        r is Ok,
{
    match w.inner.finish() {
        Ok(cursor) => Ok(cursor.into_inner()),
        Err(e) => Err(ArchiveError { message: e.to_string() }),
    }
}

/// The entry list denoted by a vector of (name, bytes) pairs.
pub open spec fn entries_view(entries: Seq<(String, Vec<u8>)>) -> Seq<(Seq<char>, Seq<u8>)> {
    entries.map_values(|e: (String, Vec<u8>)| (e.0@, e.1@))
}

/// Serialize the supplied (name, bytes) pairs into one compressed container,
/// entries in the order supplied. Names must be pairwise distinct; the
/// container contents are undefined otherwise, so distinctness is a
/// precondition. On success the result is exactly the deterministic
/// encoding of the supplied entry list; on failure no partial container is
/// returned. Success is owed whenever every entry fits the container
/// format's fields ([`entry_within_limits`]): the build writes into memory,
/// so no I/O can fail.
pub fn build(entries: &Vec<(String, Vec<u8>)>) -> (r: Result<Vec<u8>, ArchiveError>)
    requires
        forall|i: int, j: int|
            0 <= i < j < entries@.len() ==> entries@[i].0@ != entries@[j].0@,
    ensures
        r matches Ok(b) ==> b@ == zip_bytes_of(entries_view(entries@)),
        (forall|i: int|
            0 <= i < entries@.len() ==> #[trigger] entry_within_limits(
                entries_view(entries@)[i],
            )) ==> r is Ok,
{
    let mut w = zip_writer_new();
    let n = entries.len();
    let mut i: usize = 0;
    while i < n
        invariant
            n == entries@.len(),
            0 <= i <= n,
            zip_entries(w) =~= entries_view(entries@).take(i as int),
            forall|p: int, q: int|
                0 <= p < q < entries@.len() ==> entries@[p].0@ != entries@[q].0@,
        decreases n - i,
    {
        let pair = &entries[i];
        match zip_start_file(&mut w, &pair.0) {
            Ok(()) => {},
            Err(e) => {
                proof {
                    assert(pair.0@.len() > 16383);
                    assert(!entry_within_limits(entries_view(entries@)[i as int]));
                }
                return Err(e);
            },
        }
        match zip_write_all(&mut w, pair.1.as_slice()) {
            Ok(()) => {},
            Err(e) => {
                return Err(e);
            },
        }
        proof {
            assert(zip_entries(w) =~= entries_view(entries@).take(i + 1));
        }
        i = i + 1;
    }
    proof {
        assert(entries_view(entries@).take(n as int) =~= entries_view(entries@));
    }
    zip_finish(w)
}

} // verus!
