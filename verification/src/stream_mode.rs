//! Stream mode: input is cut into numbered chunks that a pool of workers
//! compresses in any order; the writer puts them back in sequence.
use crate::compressor::{control_step_for, ControlStep, ZipError};
use crate::pipeline::{ControllerSnapshot, ProgressEvent};
use std::collections::BTreeMap;
use vstd::prelude::*;

verus! {

broadcast use vstd::std_specs::btree::group_btree_axioms;

/// A chunk of input with its position in the stream.
pub struct Block {
    pub seq_num: u64,
    pub data: Vec<u8>,
}

/// A compressed chunk, or the error its worker hit.
pub struct CompressedBlock {
    pub worker_id: usize,
    pub seq_num: u64,
    pub data: Result<Vec<u8>, ZipError>,
}

/// What the reader does next.
#[derive(Clone, Copy, Debug, PartialEq, Eq, Structural)]
pub enum ReaderStep {
    /// The job was aborted: stop reading.
    Stop,
    /// The job is paused: sleep and look again.
    WaitWhilePaused,
    /// Fill a chunk of this many bytes.
    Read { chunk_size: usize },
}

pub open spec fn reader_step_for(controls: ControllerSnapshot) -> ReaderStep {
    if controls.is_aborted {
        ReaderStep::Stop
    } else if controls.is_paused {
        ReaderStep::WaitWhilePaused
    } else {
        ReaderStep::Read { chunk_size: controls.chunk_size }
    }
}

/// Decides the reader's next step from the current controls.
pub fn reader_step(controls: &ControllerSnapshot) -> (r: ReaderStep)
    ensures
        r == reader_step_for(*controls),
{
    if controls.is_aborted {
        ReaderStep::Stop
    } else if controls.is_paused {
        ReaderStep::WaitWhilePaused
    } else {
        ReaderStep::Read { chunk_size: controls.chunk_size }
    }
}

/// An abort stops the reader whether or not the job is paused; a pause
/// holds it; otherwise it reads a chunk of exactly the chunk size the
/// controls hold at that moment.
pub proof fn lemma_reader_obeys_controls(controls: ControllerSnapshot)
    ensures
        controls.is_aborted ==> reader_step_for(controls) == ReaderStep::Stop,
        !controls.is_aborted && controls.is_paused ==> reader_step_for(controls)
            == ReaderStep::WaitWhilePaused,
        !controls.is_aborted && !controls.is_paused ==> reader_step_for(controls)
            == (ReaderStep::Read { chunk_size: controls.chunk_size }),
{
}

/// The reader and the compressors obey the same controls: both stop on an
/// abort, both wait out a pause, and both go on otherwise.
pub proof fn lemma_reader_and_compressor_agree(controls: ControllerSnapshot)
    ensures
        (reader_step_for(controls) == ReaderStep::Stop) <==> (control_step_for(controls)
            == ControlStep::Abort),
        (reader_step_for(controls) == ReaderStep::WaitWhilePaused) <==> (control_step_for(
            controls,
        ) == ControlStep::WaitWhilePaused),
{
}

/// Whether the reader keeps filling the current chunk: while it is short of
/// the chunk size and the job is not aborted (a read of nothing also ends
/// the chunk).
pub fn keep_filling(filled: usize, chunk_size: usize, aborted: bool) -> (r: bool)
    ensures
        r == (filled < chunk_size && !aborted),
{
    filled < chunk_size && !aborted
}

/// Numbers the chunks of a stream: 0, 1, 2, ... in reading order.
pub struct BlockSequencer {
    next_seq_num: u64,
}

impl View for BlockSequencer {
    type V = u64;

    closed spec fn view(&self) -> u64 {
        self.next_seq_num
    }
}

impl BlockSequencer {
    pub fn new() -> (r: Self)
        ensures
            r@ == 0,
    {
        BlockSequencer { next_seq_num: 0 }
    }

    /// The number the next chunk gets.
    pub fn next_seq_num(&self) -> (r: u64)
        ensures
            r == self@,
    {
        self.next_seq_num
    }

    /// Turns the bytes read for one chunk into a numbered block; an empty
    /// read means the input is exhausted and gives no block.
    pub fn seal(&mut self, data: Vec<u8>) -> (r: Option<Block>)
        requires
            old(self)@ < u64::MAX,
        ensures
            data@.len() == 0 ==> r is None && final(self)@ == old(self)@,
            data@.len() > 0 ==> (r matches Some(b) && b.seq_num == old(self)@ && b.data@ == data@
                && final(self)@ == old(self)@ + 1),
    {
        if data.len() == 0 {
            return None;
        }
        let block = Block { seq_num: self.next_seq_num, data };
        self.next_seq_num = self.next_seq_num + 1;
        Some(block)
    }
}

/// What a worker does in one turn of its loop.
#[derive(Clone, Copy, Debug, PartialEq, Eq, Structural)]
pub enum WorkerAction {
    /// Leave the loop.
    Exit,
    /// The worker is switched off: sleep and look again.
    Sleep,
    /// Wait for the next chunk.
    Receive,
}

/// One turn of a worker: whether to announce a change of availability, and
/// what to do.
#[derive(Clone, Copy, Debug, PartialEq, Eq, Structural)]
pub struct WorkerTurn {
    pub announce: Option<bool>,
    pub action: WorkerAction,
}

/// A worker stops when the job is aborted. Otherwise it is enabled when its
/// index is below the number of active workers; it announces its
/// availability whenever that differs from what it last announced; a
/// disabled worker sleeps, or exits once the reader is done and no chunk is
/// queued; an enabled worker waits for a chunk.
pub open spec fn worker_turn_for(
    worker_id: usize,
    controls: ControllerSnapshot,
    last_announced: Option<bool>,
    reader_done: bool,
    queue_depth: usize,
) -> WorkerTurn {
    if controls.is_aborted {
        WorkerTurn { announce: None, action: WorkerAction::Exit }
    } else {
        let enabled = worker_id < controls.active_workers;
        let announce = if last_announced == Some(enabled) { None } else { Some(enabled) };
        let action = if enabled {
            WorkerAction::Receive
        } else if reader_done && queue_depth == 0 {
            WorkerAction::Exit
        } else {
            WorkerAction::Sleep
        };
        WorkerTurn { announce, action }
    }
}

pub fn worker_turn(
    worker_id: usize,
    controls: &ControllerSnapshot,
    last_announced: Option<bool>,
    reader_done: bool,
    queue_depth: usize,
) -> (r: WorkerTurn)
    ensures
        r == worker_turn_for(worker_id, *controls, last_announced, reader_done, queue_depth),
{
    if controls.is_aborted {
        return WorkerTurn { announce: None, action: WorkerAction::Exit };
    }
    let enabled = worker_id < controls.active_workers;
    let announce = match last_announced {
        Some(previous) => if previous == enabled {
            None
        } else {
            Some(enabled)
        },
        None => Some(enabled),
    };
    let action = if enabled {
        WorkerAction::Receive
    } else if reader_done && queue_depth == 0 {
        WorkerAction::Exit
    } else {
        WorkerAction::Sleep
    };
    WorkerTurn { announce, action }
}

/// Only the active workers take chunks: while the job runs, a worker
/// receives exactly when its index is below the number of active workers,
/// and any availability it announces says just that; a worker at or above
/// that number sleeps, or exits once the reader is done and the queue is
/// empty. It announces nothing when its availability is what it last
/// announced. An aborted job sends every worker away without announcement.
pub proof fn lemma_worker_turn_follows_active_count(
    worker_id: usize,
    controls: ControllerSnapshot,
    last_announced: Option<bool>,
    reader_done: bool,
    queue_depth: usize,
)
    ensures
        ({
            let turn = worker_turn_for(worker_id, controls, last_announced, reader_done, queue_depth);
            &&& !controls.is_aborted ==> (turn.action == WorkerAction::Receive <==> worker_id
                < controls.active_workers)
            &&& !controls.is_aborted ==> (turn.announce matches Some(b) ==> (b <==> worker_id
                < controls.active_workers))
            &&& !controls.is_aborted ==> (turn.announce is None <==> last_announced == Some(
                worker_id < controls.active_workers))
            &&& !controls.is_aborted && worker_id >= controls.active_workers ==> (turn.action
                == WorkerAction::Exit <==> reader_done && queue_depth == 0) && turn.action
                != WorkerAction::Receive
            &&& controls.is_aborted ==> turn.action == WorkerAction::Exit && turn.announce is None
        }),
{
}

/// After waiting for a chunk in vain, a worker keeps waiting unless the
/// reader is done and nothing is queued.
pub fn keep_waiting(reader_done: bool, queue_depth: usize) -> (r: bool)
    ensures
        r == !(reader_done && queue_depth == 0),
{
    !(reader_done && queue_depth == 0)
}

/// A worker compresses a chunk it received only while it is among the
/// active workers; otherwise the chunk goes back to the queue.
pub fn takes_chunk(worker_id: usize, active_workers: usize) -> (r: bool)
    ensures
        r == (worker_id < active_workers),
{
    worker_id < active_workers
}

/// The progress a worker reports while it compresses chunk `seq_num` of
/// `total_bytes` bytes: the input taken so far (never more than the chunk)
/// and the output produced so far.
pub fn chunk_progress(
    worker_id: usize,
    seq_num: u64,
    taken: usize,
    produced: usize,
    total_bytes: usize,
    finalized: bool,
) -> (r: ProgressEvent)
    ensures
        r == (ProgressEvent::WorkerChunkProgress {
            worker_id,
            seq_num,
            bytes_processed: if taken <= total_bytes { taken } else { total_bytes },
            bytes_written: produced,
            total_bytes,
            finalized,
        }),
{
    ProgressEvent::WorkerChunkProgress {
        worker_id,
        seq_num,
        bytes_processed: if taken <= total_bytes { taken } else { total_bytes },
        bytes_written: produced,
        total_bytes,
        finalized,
    }
}

/// Compressed chunks waiting for their turn, and the number of the chunk
/// that is written next.
pub struct ReorderBuffer {
    pending: BTreeMap<u64, Vec<u8>>,
    next_seq_num: u64,
}

/// The abstract state of a reorder buffer.
pub struct ReorderState {
    pub pending: Map<u64, Seq<u8>>,
    pub next: u64,
}

impl View for ReorderBuffer {
    type V = ReorderState;

    closed spec fn view(&self) -> ReorderState {
        ReorderState {
            pending: self.pending@.map_values(|data: Vec<u8>| data@),
            next: self.next_seq_num,
        }
    }
}

/// The state after chunk `seq_num` arrives (a later arrival with the same
/// number replaces the earlier one).
pub open spec fn reorder_insert(s: ReorderState, seq_num: u64, data: Seq<u8>) -> ReorderState {
    ReorderState { pending: s.pending.insert(seq_num, data), next: s.next }
}

/// The chunk written next, if it has arrived.
pub open spec fn reorder_ready(s: ReorderState) -> Option<Seq<u8>> {
    if s.pending.contains_key(s.next) {
        Some(s.pending[s.next])
    } else {
        None
    }
}

/// The state after the next chunk is taken out to be written.
pub open spec fn reorder_take(s: ReorderState) -> ReorderState {
    if s.pending.contains_key(s.next) {
        ReorderState { pending: s.pending.remove(s.next), next: (s.next + 1) as u64 }
    } else {
        s
    }
}

impl ReorderBuffer {
    pub fn new() -> (r: Self)
        ensures
            r@.pending == Map::<u64, Seq<u8>>::empty(),
            r@.next == 0,
    {
        let r = ReorderBuffer { pending: BTreeMap::new(), next_seq_num: 0 };
        assert(r@.pending =~= Map::<u64, Seq<u8>>::empty());
        r
    }

    /// The number of the chunk written next.
    pub fn next_seq_num(&self) -> (r: u64)
        ensures
            r == self@.next,
    {
        self.next_seq_num
    }

    /// Keeps a compressed chunk until its turn.
    pub fn insert(&mut self, seq_num: u64, data: Vec<u8>)
        ensures
            final(self)@ == reorder_insert(old(self)@, seq_num, data@),
    {
        let ghost before = self.pending@;
        self.pending.insert(seq_num, data);
        assert(self.pending@.map_values(|d: Vec<u8>| d@) =~= before.map_values(
            |d: Vec<u8>| d@,
        ).insert(seq_num, data@));
    }

    /// Accepts a worker's result: keeps its chunk, or passes on its error.
    pub fn accept(&mut self, block: CompressedBlock) -> (r: Result<(), ZipError>)
        ensures
            match block.data {
                Ok(data) => r is Ok && final(self)@ == reorder_insert(old(self)@, block.seq_num, data@),
                Err(e) => r == Err::<(), ZipError>(e) && final(self)@ == old(self)@,
            },
    {
        match block.data {
            Ok(data) => {
                self.insert(block.seq_num, data);
                Ok(())
            },
            Err(e) => Err(e),
        }
    }

    /// Takes out the chunk whose turn it is, if it has arrived, with its
    /// number.
    pub fn take_ready(&mut self) -> (r: Option<(u64, Vec<u8>)>)
        requires
            old(self)@.next < u64::MAX,
        ensures
            final(self)@ == reorder_take(old(self)@),
            match reorder_ready(old(self)@) {
                Some(data) => r matches Some(out) && out.0 == old(self)@.next && out.1@ == data,
                None => r is None,
            },
    {
        let ghost before = self.pending@;
        let next = self.next_seq_num;
        match self.pending.remove(&next) {
            Some(data) => {
                assert(self.pending@.map_values(|d: Vec<u8>| d@) =~= before.map_values(
                    |d: Vec<u8>| d@,
                ).remove(next));
                self.next_seq_num = next + 1;
                Some((next, data))
            },
            None => {
                assert(self.pending@ =~= before);
                None
            },
        }
    }

    /// Takes out, in order, every chunk that can be written now.
    pub fn drain_ready(&mut self) -> (r: Vec<(u64, Vec<u8>)>)
        ensures
            final(self)@ == reorder_drain(old(self)@).1,
            r@.map_values(|c: (u64, Vec<u8>)| c.1@) == reorder_drain(old(self)@).0,
            forall|i: int| 0 <= i < r@.len() ==> #[trigger] r@[i].0 == old(self)@.next + i,
    {
        let mut out: Vec<(u64, Vec<u8>)> = Vec::new();
        loop
            invariant
                reorder_drain(old(self)@).1 == reorder_drain(self@).1,
                reorder_drain(old(self)@).0 == out@.map_values(|c: (u64, Vec<u8>)| c.1@)
                    + reorder_drain(self@).0,
                self@.next == old(self)@.next + out@.len(),
                forall|i: int| 0 <= i < out@.len() ==> #[trigger] out@[i].0 == old(self)@.next + i,
            decreases u64::MAX - self@.next,
        {
            if self.next_seq_num == u64::MAX {
                return out;
            }
            let ghost here = self@;
            match self.take_ready() {
                Some(chunk) => {
                    let ghost before = out@;
                    out.push(chunk);
                    assert(out@.map_values(|c: (u64, Vec<u8>)| c.1@) =~= before.map_values(
                        |c: (u64, Vec<u8>)| c.1@,
                    ).push(chunk.1@));
                    assert(reorder_drain(here).0 =~= seq![chunk.1@] + reorder_drain(self@).0);
                },
                None => {
                    return out;
                },
            }
        }
    }
}

/// Everything that can be written from `s` now: the ready chunk, then the
/// one after it, and so on, with the state that is left.
pub open spec fn reorder_drain(s: ReorderState) -> (Seq<Seq<u8>>, ReorderState)
    decreases u64::MAX - s.next,
{
    if s.next < u64::MAX && reorder_ready(s) is Some {
        let rest = reorder_drain(reorder_take(s));
        (seq![reorder_ready(s)->0] + rest.0, rest.1)
    } else {
        (Seq::empty(), s)
    }
}

/// What the writer has written, and its state, after the chunks in
/// `arrivals` came in one after the other, each followed by writing all
/// that was ready.
pub open spec fn reorder_deliver(s: ReorderState, arrivals: Seq<(u64, Seq<u8>)>) -> (
    Seq<Seq<u8>>,
    ReorderState,
)
    decreases arrivals.len(),
{
    if arrivals.len() == 0 {
        (Seq::empty(), s)
    } else {
        let before = reorder_deliver(s, arrivals.drop_last());
        let a = arrivals.last();
        let after = reorder_drain(reorder_insert(before.1, a.0, a.1));
        (before.0 + after.0, after.1)
    }
}

/// The chunks of `chunks` arriving in the order of their numbers in `order`.
pub open spec fn arrivals_in(chunks: Seq<Seq<u8>>, order: Seq<u64>) -> Seq<(u64, Seq<u8>)> {
    Seq::new(order.len(), |i: int| (order[i], chunks[order[i] as int]))
}

/// The state of a fresh reorder buffer.
pub open spec fn reorder_empty() -> ReorderState {
    ReorderState { pending: Map::empty(), next: 0 }
}

/// `order` lists each of the numbers below `n` once.
pub open spec fn is_arrival_order(order: Seq<u64>, n: nat) -> bool {
    &&& order.len() == n
    &&& forall|i: int| 0 <= i < order.len() ==> order[i] < n
    &&& forall|i: int, j: int| 0 <= i < j < order.len() ==> order[i] != order[j]
}

/// The chunks held in `s` are chunks of `chunks`, none of them already
/// written.
spec fn holds_chunks_of(s: ReorderState, chunks: Seq<Seq<u8>>) -> bool {
    &&& s.pending.dom().finite()
    &&& s.next <= chunks.len()
    &&& forall|k: u64|
        #[trigger] s.pending.contains_key(k) ==> s.next <= k < chunks.len() && s.pending[k]
            == chunks[k as int]
}

proof fn lemma_drain(s: ReorderState, chunks: Seq<Seq<u8>>)
    requires
        holds_chunks_of(s, chunks),
        chunks.len() < u64::MAX,
    ensures
        ({
            let (out, t) = reorder_drain(s);
            &&& holds_chunks_of(t, chunks)
            &&& !t.pending.contains_key(t.next)
            &&& s.next <= t.next
            &&& out == chunks.subrange(s.next as int, t.next as int)
            &&& t.pending.dom().len() + t.next == s.pending.dom().len() + s.next
            &&& forall|k: u64| #[trigger] t.pending.contains_key(k) ==> s.pending.contains_key(k)
            &&& forall|k: u64| s.next <= k < t.next ==> #[trigger] s.pending.contains_key(k)
        }),
    decreases u64::MAX - s.next,
{
    if s.pending.contains_key(s.next) {
        let u = reorder_take(s);
        assert(u.pending.dom() =~= s.pending.dom().remove(s.next));
        lemma_drain(u, chunks);
        let (rest, t) = reorder_drain(u);
        assert(chunks.subrange(s.next as int, t.next as int) =~= seq![chunks[s.next as int]]
            + chunks.subrange(u.next as int, t.next as int));
    } else {
        assert(s.next < u64::MAX);
    }
}

proof fn lemma_bounded_keys(keys: Set<u64>, lo: int, hi: int)
    requires
        keys.finite(),
        0 <= lo,
        forall|k: u64| #[trigger] keys.contains(k) ==> lo <= k < hi,
    ensures
        keys.len() <= if lo <= hi { hi - lo } else { 0 },
    decreases hi - lo,
{
    if hi <= lo {
        assert(keys =~= Set::empty());
    } else {
        let top = (hi - 1) as u64;
        lemma_bounded_keys(keys.remove(top), lo, hi - 1);
    }
}

/// Chunk `k` is among the first `j` to arrive.
spec fn arrived_before(order: Seq<u64>, j: int, k: u64) -> bool {
    exists|i: int| 0 <= i < j && #[trigger] order[i] == k
}

/// What holds of the writer after `j` arrivals.
spec fn delivered_prefix(
    chunks: Seq<Seq<u8>>,
    order: Seq<u64>,
    j: int,
    out: Seq<Seq<u8>>,
    s: ReorderState,
) -> bool {
    &&& holds_chunks_of(s, chunks)
    &&& !s.pending.contains_key(s.next)
    &&& out == chunks.take(s.next as int)
    &&& s.pending.dom().len() + s.next == j
    &&& forall|k: u64| k < s.next ==> #[trigger] arrived_before(order, j, k)
    &&& forall|k: u64| #[trigger] s.pending.contains_key(k) ==> arrived_before(order, j, k)
}

proof fn lemma_deliver_prefix(chunks: Seq<Seq<u8>>, order: Seq<u64>, j: int)
    requires
        chunks.len() < u64::MAX,
        is_arrival_order(order, chunks.len()),
        0 <= j <= order.len(),
    ensures
        delivered_prefix(
            chunks,
            order,
            j,
            reorder_deliver(reorder_empty(), arrivals_in(chunks, order).take(j)).0,
            reorder_deliver(reorder_empty(), arrivals_in(chunks, order).take(j)).1,
        ),
    decreases j,
{
    let arrivals = arrivals_in(chunks, order);
    if j == 0 {
        assert(arrivals.take(0) =~= Seq::<(u64, Seq<u8>)>::empty());
        assert(reorder_empty().pending.dom() =~= Set::empty());
        assert(chunks.take(0) =~= Seq::<Seq<u8>>::empty());
    } else {
        lemma_deliver_prefix(chunks, order, j - 1);
        assert(arrivals.take(j).drop_last() =~= arrivals.take(j - 1));
        let before = reorder_deliver(reorder_empty(), arrivals.take(j - 1));
        let out1 = before.0;
        let s1 = before.1;
        let a = order[j - 1];
        assert(arrivals.take(j).last() == (a, chunks[a as int]));
        if a < s1.next || s1.pending.contains_key(a) {
            assert(arrived_before(order, j - 1, a));
            let i = choose|i: int| 0 <= i < j - 1 && #[trigger] order[i] == a;
            assert(order[i] != order[j - 1]);
        }
        let m = reorder_insert(s1, a, chunks[a as int]);
        assert(m.pending.dom() =~= s1.pending.dom().insert(a));
        assert(holds_chunks_of(m, chunks));
        lemma_drain(m, chunks);
        let after = reorder_drain(m);
        let s2 = after.1;
        assert(chunks.take(s2.next as int) =~= chunks.take(s1.next as int) + chunks.subrange(
            s1.next as int,
            s2.next as int,
        ));
        assert forall|k: u64| #[trigger] arrived_before(order, j - 1, k) implies arrived_before(
            order,
            j,
            k,
        ) by {
            let i = choose|i: int| 0 <= i < j - 1 && #[trigger] order[i] == k;
            assert(order[i] == k);
        }
        assert(arrived_before(order, j, a)) by {
            assert(order[j - 1] == a);
        }
        assert forall|k: u64| k < s2.next implies #[trigger] arrived_before(order, j, k) by {
            if k != a && k >= s1.next {
                assert(m.pending.contains_key(k));
                assert(s1.pending.contains_key(k));
            }
            if k != a {
                assert(arrived_before(order, j - 1, k));
            }
        }
        assert forall|k: u64| #[trigger] s2.pending.contains_key(k) implies arrived_before(
            order,
            j,
            k,
        ) by {
            assert(m.pending.contains_key(k));
            if k != a {
                assert(s1.pending.contains_key(k));
                assert(arrived_before(order, j - 1, k));
            }
        }
    }
}

/// The writer puts the chunks back in order: whatever order they arrive
/// in, with the ready ones written after each arrival, it writes every
/// chunk once, in sequence, and ends with nothing held back.
pub proof fn lemma_reorder_restores_sequence(chunks: Seq<Seq<u8>>, order: Seq<u64>)
    requires
        chunks.len() < u64::MAX,
        is_arrival_order(order, chunks.len()),
    ensures
        reorder_deliver(reorder_empty(), arrivals_in(chunks, order)).0 == chunks,
        reorder_deliver(reorder_empty(), arrivals_in(chunks, order)).1 == (ReorderState {
            pending: Map::empty(),
            next: chunks.len() as u64,
        }),
{
    let n = chunks.len();
    let arrivals = arrivals_in(chunks, order);
    lemma_deliver_prefix(chunks, order, n as int);
    assert(arrivals.take(n as int) =~= arrivals);
    let s = reorder_deliver(reorder_empty(), arrivals).1;
    if s.next < n {
        lemma_bounded_keys(s.pending.dom(), s.next + 1, n as int);
    }
    assert(s.next == n);
    assert(s.pending.dom() =~= Set::empty());
    assert(s.pending =~= Map::empty());
    assert(chunks.take(n as int) =~= chunks);
}

} // verus!
