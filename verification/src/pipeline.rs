//! Orchestration of the fetch → decode → encode → archive → store flow.
//!
//! The pipeline owns the ordering contract between the stages: buffers are
//! encoded independently and may complete out of order, each tagged with
//! its decode position; the fan-in restores decode order before the
//! archive is assembled, so the archive entries are `image_0.png` ..
//! `image_<n-1>.png` in decode order no matter when each encode finished.
//! Every stage failure is terminal: the destination object is written only
//! after every buffer has encoded and the archive has been finalized.
//!
//! Fetching, decoding, encoding and storing need outside capabilities
//! (network, a decoder, worker threads), so the flow is driven from
//! outside: a driver performs the [`PipelineAction`] it is handed, reports
//! the outcome as a [`PipelineEvent`], and [`pipeline_step`] decides the
//! next state and action. Archive assembly needs no outside capability and
//! happens inside the step from the encoding stage to the storing stage.

use crate::archive;
use crate::archive::ArchiveError;
use crate::names;
use crate::storage::{ErrorCause, Storage, StorageError};
use vstd::pervasive::VecAdditionalExecFns;
use vstd::prelude::*;
use vstd::slice::slice_to_vec;

verus! {

/// Failure of one pipeline invocation: the first error any stage met.
#[derive(Clone, Debug)]
pub enum PipelineError {
    /// Fetching the source or storing the archive failed.
    Storage(StorageError),
    /// The external decoder could not interpret the source bytes.
    Decode(ErrorCause),
    /// Some buffer could not be encoded, or the encode results do not
    /// carry exactly the decode positions 0..n-1.
    Encode(ErrorCause),
    /// The archive could not be finalized.
    Archive(ArchiveError),
}

/// The views of the byte buffers in a vector of buffers.
pub open spec fn buffers_view(bufs: Seq<Vec<u8>>) -> Seq<Seq<u8>> {
    bufs.map_values(|b: Vec<u8>| b@)
}

/// The archive entry list for buffers in decode order: the i-th entry is
/// named `image_<i>.png` and holds the i-th buffer.
pub open spec fn named_entries(bufs: Seq<Seq<u8>>) -> Seq<(Seq<char>, Seq<u8>)> {
    Seq::new(bufs.len(), |i: int| (names::entry_name_seq(i as nat), bufs[i]))
}

/// The archive over `n` buffers has exactly `n` entries, the i-th named
/// `image_<i>.png` and holding the i-th buffer, in that order, and the
/// names are pairwise distinct.
pub proof fn lemma_archive_entry_names(bufs: Seq<Seq<u8>>)
    ensures
        named_entries(bufs).len() == bufs.len(),
        forall|i: int|
            0 <= i < bufs.len() ==> #[trigger] named_entries(bufs)[i] == (
                names::entry_name_seq(i as nat),
                bufs[i],
            ),
        forall|i: int, j: int|
            0 <= i < j < bufs.len() ==> named_entries(bufs)[i].0 != named_entries(bufs)[j].0,
{
    assert forall|i: int, j: int| 0 <= i < j < bufs.len() implies named_entries(bufs)[i].0
        != named_entries(bufs)[j].0 by {
        names::lemma_entry_name_injective(i as nat, j as nat);
    }
}

/// Some tagged result carries the tag `i`.
pub open spec fn covers_index(rs: Seq<(usize, Vec<u8>)>, i: int) -> bool {
    exists|j: int| 0 <= j < rs.len() && (#[trigger] rs[j].0) == i
}

/// Some position of `perm` holds the value `j`.
pub open spec fn perm_covers(perm: Seq<int>, j: int) -> bool {
    exists|k: int| 0 <= k < perm.len() && (#[trigger] perm[k]) == j
}

/// Tagged encode results carry exactly the decode positions `0..n-1`, each
/// once: every tag is in range, no tag repeats, and every position occurs.
pub open spec fn is_index_permutation(rs: Seq<(usize, Vec<u8>)>) -> bool {
    &&& forall|j: int| 0 <= j < rs.len() ==> (#[trigger] rs[j].0) < rs.len()
    &&& forall|j1: int, j2: int|
        0 <= j1 < j2 < rs.len() ==> (#[trigger] rs[j1].0) != (#[trigger] rs[j2].0)
    &&& forall|i: int| 0 <= i < rs.len() ==> #[trigger] covers_index(rs, i)
}

/// The buffers of tagged encode results, restored to decode order: the
/// i-th element is the buffer tagged with position i. Meaningful when the
/// tags are a permutation of the positions, which makes the tag unique.
pub open spec fn ordered_buffers(rs: Seq<(usize, Vec<u8>)>) -> Seq<Seq<u8>> {
    Seq::new(
        rs.len(),
        |i: int| rs[choose|j: int| 0 <= j < rs.len() && (#[trigger] rs[j].0) == i].1@,
    )
}

/// Restoring decode order depends only on the tags, not on the order in
/// which the tagged results arrived: any rearrangement of the same tagged
/// results restores to the same buffer sequence.
pub proof fn lemma_completion_order_irrelevant(
    rs1: Seq<(usize, Vec<u8>)>,
    rs2: Seq<(usize, Vec<u8>)>,
    perm: Seq<int>,
)
    requires
        is_index_permutation(rs1),
        rs2.len() == rs1.len(),
        perm.len() == rs1.len(),
        forall|k: int| 0 <= k < perm.len() ==> 0 <= #[trigger] perm[k] < rs1.len(),
        forall|k1: int, k2: int|
            0 <= k1 < k2 < perm.len() ==> (#[trigger] perm[k1]) != (#[trigger] perm[k2]),
        forall|j: int| 0 <= j < perm.len() ==> #[trigger] perm_covers(perm, j),
        forall|k: int| 0 <= k < rs2.len() ==> #[trigger] rs2[k] == rs1[perm[k]],
    ensures
        is_index_permutation(rs2),
        ordered_buffers(rs2) == ordered_buffers(rs1),
{
    assert forall|i: int| 0 <= i < rs2.len() implies #[trigger] covers_index(rs2, i) by {
        assert(covers_index(rs1, i));
        let j1 = choose|j: int| 0 <= j < rs1.len() && (#[trigger] rs1[j].0) == i;
        assert(perm_covers(perm, j1));
        let k = choose|k: int| 0 <= k < perm.len() && (#[trigger] perm[k]) == j1;
        assert(rs2[k].0 == i);
    }
    assert forall|i: int| 0 <= i < rs2.len() implies ordered_buffers(rs2)[i]
        == ordered_buffers(rs1)[i] by {
        assert(covers_index(rs2, i));
        assert(covers_index(rs1, i));
        let j2 = choose|j: int| 0 <= j < rs2.len() && (#[trigger] rs2[j].0) == i;
        let j1 = choose|j: int| 0 <= j < rs1.len() && (#[trigger] rs1[j].0) == i;
        assert(rs2[j2] == rs1[perm[j2]]);
        assert(rs1[perm[j2]].0 == i && rs1[j1].0 == i);
        if perm[j2] != j1 {
            if perm[j2] < j1 {
                assert(rs1[perm[j2]].0 != rs1[j1].0);
            } else {
                assert(rs1[j1].0 != rs1[perm[j2]].0);
            }
        }
    }
    assert(ordered_buffers(rs2) =~= ordered_buffers(rs1));
}

/// Restore tagged encode results to decode order. Returns the buffers
/// indexed by their tags when the tags are exactly the positions `0..n-1`;
/// returns `None` exactly when they are not (a tag out of range, repeated,
/// or missing).
pub fn restore_order(results: &Vec<(usize, Vec<u8>)>) -> (r: Option<Vec<Vec<u8>>>)
    ensures
        r is Some <==> is_index_permutation(results@),
        r matches Some(v) ==> buffers_view(v@) == ordered_buffers(results@),
{
    let n = results.len();
    let mut slots: Vec<Option<Vec<u8>>> = Vec::new();
    let mut f: usize = 0;
    while f < n
        invariant
            slots@.len() == f <= n,
            forall|i: int| 0 <= i < f ==> slots@[i] is None,
        decreases n - f,
    {
        slots.push(None);
        f = f + 1;
    }
    let mut j: usize = 0;
    while j < n
        invariant
            n == results@.len(),
            0 <= j <= n,
            slots@.len() == n,
            forall|j1: int| 0 <= j1 < j ==> (#[trigger] results@[j1].0) < n,
            forall|j1: int, j2: int|
                0 <= j1 < j2 < j ==> (#[trigger] results@[j1].0) != (#[trigger] results@[j2].0),
            forall|i: int|
                0 <= i < n ==> ((slots@[i] is Some) <==> exists|j1: int|
                    0 <= j1 < j && (#[trigger] results@[j1].0) == i),
            forall|j1: int|
                0 <= j1 < j ==> (#[trigger] slots@[results@[j1].0 as int]).unwrap()@
                    == results@[j1].1@,
        decreases n - j,
    {
        let idx = results[j].0;
        if idx >= n {
            return None;
        }
        if slots[idx].is_some() {
            proof {
                let j1 = choose|j1: int| 0 <= j1 < j && (#[trigger] results@[j1].0) == idx;
                assert(results@[j1].0 == results@[j as int].0);
            }
            return None;
        }
        let bytes = slice_to_vec(results[j].1.as_slice());
        slots.set(idx, Some(bytes));
        j = j + 1;
    }
    let mut out: Vec<Vec<u8>> = Vec::new();
    let mut i: usize = 0;
    while i < n
        invariant
            n == results@.len(),
            0 <= i <= n,
            slots@.len() == n,
            out@.len() == i,
            forall|j1: int| 0 <= j1 < n ==> (#[trigger] results@[j1].0) < n,
            forall|j1: int, j2: int|
                0 <= j1 < j2 < n ==> (#[trigger] results@[j1].0) != (#[trigger] results@[j2].0),
            forall|i1: int|
                0 <= i1 < n ==> ((slots@[i1] is Some) <==> exists|j1: int|
                    0 <= j1 < n && (#[trigger] results@[j1].0) == i1),
            forall|j1: int|
                0 <= j1 < n ==> (#[trigger] slots@[results@[j1].0 as int]).unwrap()@
                    == results@[j1].1@,
            forall|i1: int| 0 <= i1 < i ==> (#[trigger] slots@[i1]) is Some,
            forall|i1: int| 0 <= i1 < i ==> out@[i1]@ == (#[trigger] slots@[i1]).unwrap()@,
        decreases n - i,
    {
        match &slots[i] {
            Some(b) => {
                out.push(slice_to_vec(b.as_slice()));
            },
            None => {
                proof {
                    assert(!covers_index(results@, i as int));
                }
                return None;
            },
        }
        i = i + 1;
    }
    proof {
        assert forall|k: int| 0 <= k < n implies #[trigger] covers_index(results@, k) by {
            assert(slots@[k] is Some);
        }
        assert forall|k: int| 0 <= k < n implies buffers_view(out@)[k]
            == ordered_buffers(results@)[k] by {
            assert(slots@[k] is Some);
            assert(covers_index(results@, k));
            let j1 = choose|j: int|
                0 <= j < results@.len() && (#[trigger] results@[j].0) == k;
            assert(out@[k]@ == slots@[k].unwrap()@);
            assert(slots@[results@[j1].0 as int].unwrap()@ == results@[j1].1@);
        }
        assert(buffers_view(out@) =~= ordered_buffers(results@));
    }
    Some(out)
}

/// Pack buffers, already in decode order, into the archive: the i-th
/// buffer becomes the entry `image_<i>.png`, entries in buffer order.
/// Success is owed, and the result is exactly the deterministic container
/// encoding of that entry list: the build is in memory, buffer sizes are
/// unbounded, and the generated names always fit the format.
pub fn assemble_archive(buffers: &Vec<Vec<u8>>) -> (r: Result<Vec<u8>, ArchiveError>)
    ensures
        r matches Ok(b) ==> b@ == archive::zip_bytes_of(named_entries(buffers_view(buffers@))),
        r is Ok,
{
    let n = buffers.len();
    let mut entries: Vec<(String, Vec<u8>)> = Vec::new();
    let mut i: usize = 0;
    while i < n
        invariant
            n == buffers@.len(),
            0 <= i <= n,
            entries@.len() == i,
            forall|p: int|
                0 <= p < i ==> #[trigger] entries@[p] == entries@[p] && entries@[p].0@
                    == names::entry_name_seq(p as nat) && entries@[p].1@ == buffers@[p]@,
        decreases n - i,
    {
        let name = names::entry_name(i);
        let bytes = slice_to_vec(buffers[i].as_slice());
        entries.push((name, bytes));
        i = i + 1;
    }
    proof {
        assert forall|p: int, q: int| 0 <= p < q < entries@.len() implies entries@[p].0@
            != entries@[q].0@ by {
            names::lemma_entry_name_injective(p as nat, q as nat);
        }
        assert(archive::entries_view(entries@) =~= named_entries(buffers_view(buffers@)));
        assert forall|p: int|
            0 <= p < entries@.len() implies #[trigger] archive::entry_within_limits(
            archive::entries_view(entries@)[p],
        ) by {
            names::lemma_entry_name_len(p as nat);
        }
    }
    archive::build(&entries)
}

/// Fan-in plus archive assembly: restore the tagged encode results to
/// decode order and pack them. Succeeds, with exactly the deterministic
/// container over `image_0.png` .. `image_<n-1>.png` in decode order, if
/// and only if the tags are the positions `0..n-1`; otherwise fails with
/// `Encode`.
pub fn prepare_archive(results: &Vec<(usize, Vec<u8>)>) -> (r: Result<Vec<u8>, PipelineError>)
    ensures
        r matches Ok(b) ==> is_index_permutation(results@) && b@ == archive::zip_bytes_of(
            named_entries(ordered_buffers(results@)),
        ),
        is_index_permutation(results@) ==> r is Ok,
        r matches Err(e) ==> (e is Encode && !is_index_permutation(results@)),
{
    match restore_order(results) {
        Some(ordered) => {
            match assemble_archive(&ordered) {
                Ok(b) => Ok(b),
                Err(e) => Err(PipelineError::Archive(e)),
            }
        },
        None => Err(
            PipelineError::Encode(
                ErrorCause {
                    message: String::from_str(
                        "encode results do not cover each decode position exactly once",
                    ),
                    chain: Vec::new(),
                },
            ),
        ),
    }
}

/// Where one pipeline invocation stands. Archiving happens inside the
/// transition out of `Encoding`, so it has no state of its own; every
/// failure moves straight to `Failed` and nothing is retried.
pub enum PipelineState {
    /// Waiting for the source object.
    Fetching,
    /// Waiting for the external decoder.
    Decoding,
    /// Waiting for the per-buffer encodes.
    Encoding,
    /// Waiting for the archive write.
    Storing,
    /// The archive was stored.
    Done,
    /// A stage failed; the invocation is over.
    Failed(PipelineError),
}

/// The outcome of the outside work the pipeline was waiting for.
pub enum PipelineEvent {
    /// The source object arrived, or fetching it failed.
    FetchOutcome(Result<Vec<u8>, StorageError>),
    /// The decoder produced this many buffers, or failed.
    DecodeOutcome(Result<usize, ErrorCause>),
    /// Every buffer encoded, each tagged with its decode position, or some
    /// buffer failed to encode.
    EncodeOutcome(Result<Vec<(usize, Vec<u8>)>, ErrorCause>),
    /// The archive write finished, or failed.
    StoreOutcome(Result<(), StorageError>),
}

/// What the driver must do next.
pub enum PipelineAction {
    /// Hand these source bytes to the external decoder.
    RunDecode(Vec<u8>),
    /// Encode each decoded buffer, tagging it with its decode position.
    RunEncode,
    /// Write these archive bytes under the destination key.
    StoreArchive(Vec<u8>),
    /// Nothing is left to do: the invocation is done or failed.
    Stop,
}

/// The event kind each state awaits. An event of another kind would be a
/// driver error, so the step function requires a matching one.
pub open spec fn event_matches(state: PipelineState, event: PipelineEvent) -> bool {
    match state {
        PipelineState::Fetching => event is FetchOutcome,
        PipelineState::Decoding => event is DecodeOutcome,
        PipelineState::Encoding => event is EncodeOutcome,
        PipelineState::Storing => event is StoreOutcome,
        PipelineState::Done => false,
        PipelineState::Failed(_) => false,
    }
}

/// One transition of the pipeline: from the current state and the outcome
/// of the outside work, decide the next state and the next action.
///
/// The first error any stage reports moves the pipeline to `Failed` with
/// that error, and the action is `Stop`: remaining work is abandoned, and
/// in particular no archive is ever handed out for storing once decoding
/// or encoding has failed, so a failed invocation leaves the destination
/// key untouched. The only transition that emits `StoreArchive` is a fully
/// successful encode round whose tags cover each decode position exactly
/// once, and the bytes it emits are exactly the deterministic container
/// over `image_0.png` .. `image_<n-1>.png` in decode order.
pub fn pipeline_step(state: PipelineState, event: PipelineEvent) -> (r: (
    PipelineState,
    PipelineAction,
))
    requires
        event_matches(state, event),
    ensures
        (match event {
            PipelineEvent::FetchOutcome(o) => match o {
                Ok(bytes) => r.0 is Decoding && r.1 == PipelineAction::RunDecode(bytes),
                Err(e) => r.0 == PipelineState::Failed(PipelineError::Storage(e)) && r.1
                    is Stop,
            },
            PipelineEvent::DecodeOutcome(o) => match o {
                Ok(_) => r.0 is Encoding && r.1 is RunEncode,
                Err(c) => r.0 == PipelineState::Failed(PipelineError::Decode(c)) && r.1
                    is Stop,
            },
            PipelineEvent::EncodeOutcome(o) => match o {
                Ok(results) => {
                    &&& is_index_permutation(results@) ==> (r.0 is Storing && (
                    r.1 matches PipelineAction::StoreArchive(b) && b@ == archive::zip_bytes_of(
                        named_entries(ordered_buffers(results@)),
                    )))
                    &&& !is_index_permutation(results@) ==> (
                    r.0 matches PipelineState::Failed(e) && e is Encode && r.1 is Stop)
                },
                Err(c) => r.0 == PipelineState::Failed(PipelineError::Encode(c)) && r.1
                    is Stop,
            },
            PipelineEvent::StoreOutcome(o) => match o {
                Ok(_) => r.0 is Done && r.1 is Stop,
                Err(e) => r.0 == PipelineState::Failed(PipelineError::Storage(e)) && r.1
                    is Stop,
            },
        }),
        r.1 is StoreArchive ==> state is Encoding && (
        event matches PipelineEvent::EncodeOutcome(o) && o matches Ok(results)
            && is_index_permutation(results@)),
        r.0 is Failed ==> r.1 is Stop,
{
    match event {
        PipelineEvent::FetchOutcome(o) => match o {
            Ok(bytes) => (PipelineState::Decoding, PipelineAction::RunDecode(bytes)),
            Err(e) => (
                PipelineState::Failed(PipelineError::Storage(e)),
                PipelineAction::Stop,
            ),
        },
        PipelineEvent::DecodeOutcome(o) => match o {
            Ok(_) => (PipelineState::Encoding, PipelineAction::RunEncode),
            Err(c) => (
                PipelineState::Failed(PipelineError::Decode(c)),
                PipelineAction::Stop,
            ),
        },
        PipelineEvent::EncodeOutcome(o) => match o {
            Ok(results) => match prepare_archive(&results) {
                Ok(bytes) => (PipelineState::Storing, PipelineAction::StoreArchive(bytes)),
                Err(e) => (PipelineState::Failed(e), PipelineAction::Stop),
            },
            Err(c) => (
                PipelineState::Failed(PipelineError::Encode(c)),
                PipelineAction::Stop,
            ),
        },
        PipelineEvent::StoreOutcome(o) => match o {
            Ok(_) => (PipelineState::Done, PipelineAction::Stop),
            Err(e) => (
                PipelineState::Failed(PipelineError::Storage(e)),
                PipelineAction::Stop,
            ),
        },
    }
}

/// The first stage of one invocation: fetch the source object and take the
/// first transition. Hands the decoder exactly the stored bytes when the
/// source exists and the read succeeded; otherwise the invocation fails
/// with the storage error unchanged, and `ObjectMissing` is reported only
/// when the source really is absent.
pub fn fetch_stage<S: Storage>(store: &S, source_key: &str) -> (r: (
    PipelineState,
    PipelineAction,
))
    requires
        source_key@.len() > 0,
    ensures
        r.0 is Decoding <==> r.1 is RunDecode,
        r.0 is Decoding || r.0 is Failed,
        r.1 matches PipelineAction::RunDecode(b) ==> store.objects().contains_key(source_key@)
            && b@ == store.objects()[source_key@],
        r.0 matches PipelineState::Failed(pe) ==> r.1 is Stop && (
        pe matches PipelineError::Storage(e) && (e is ObjectMissing
            ==> !store.objects().contains_key(source_key@))),
{
    pipeline_step(
        PipelineState::Fetching,
        PipelineEvent::FetchOutcome(store.get_object(source_key)),
    )
}

/// The last stage of one invocation: write the finished archive bytes
/// under the destination key and take the final transition. On `Done` the
/// destination holds exactly the archive bytes, the prior value replaced;
/// on failure the storage error is an `Other`, never a claim that the
/// destination is missing, and no key but the destination was touched —
/// the write here is the only backend mutation a whole invocation ever
/// performs, so a failed invocation modifies no other key.
pub fn store_stage<S: Storage>(store: &mut S, dest_key: &str, archive_bytes: &[u8]) -> (r: (
    PipelineState,
    PipelineAction,
))
    requires
        dest_key@.len() > 0,
    ensures
        r.1 is Stop,
        r.0 is Done || r.0 is Failed,
        r.0 is Done ==> final(store).objects() == old(store).objects().insert(
            dest_key@,
            archive_bytes@,
        ),
        r.0 matches PipelineState::Failed(pe) ==> (
        pe matches PipelineError::Storage(e) && e is Other),
        r.0 is Failed ==> final(store).objects().remove(dest_key@) == old(
            store,
        ).objects().remove(dest_key@),
{
    let outcome = store.save_object(dest_key, archive_bytes);
    pipeline_step(PipelineState::Storing, PipelineEvent::StoreOutcome(outcome))
}

} // verus!


