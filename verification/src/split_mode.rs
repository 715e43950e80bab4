//! Split mode: a file is cut into equal ranges that are compressed
//! independently and concatenated in order.
use crate::pipeline::{ProgressEvent, SplitStage};
use vstd::prelude::*;

verus! {

/// One range of the input file, compressed as its own stream.
#[derive(Clone, Copy, Debug, PartialEq, Eq, Structural)]
pub struct SliceRange {
    pub id: usize,
    pub start: u64,
    pub length: u64,
}

/// The width of every range but possibly the last: the input length divided
/// by the number of slices, rounded up.
pub open spec fn slice_width(input_len: nat, slices: nat) -> nat
    recommends
        slices > 0,
{
    ((input_len + slices - 1) / (slices as int)) as nat
}

/// The range with index `id` when `input_len` bytes are cut into `slices`.
pub open spec fn planned_range(input_len: nat, slices: nat, id: nat) -> SliceRange {
    let width = slice_width(input_len, slices);
    let start = id * width;
    let rest: int = if start <= input_len { input_len - start } else { 0 };
    SliceRange {
        id: id as usize,
        start: start as u64,
        length: (if width <= rest { width as int } else { rest }) as u64,
    }
}

/// How many ranges there are: as many as start before the end of the input,
/// and one empty range for an empty input.
pub open spec fn planned_count(input_len: nat, slices: nat) -> nat {
    if input_len == 0 {
        1
    } else {
        let width = slice_width(input_len, slices);
        ((input_len + width - 1) / (width as int)) as nat
    }
}

proof fn lemma_width_facts(input_len: nat, slices: nat)
    requires
        slices > 0,
        input_len > 0,
    ensures
        slice_width(input_len, slices) >= 1,
        slice_width(input_len, slices) * slices >= input_len,
        planned_count(input_len, slices) >= 1,
        planned_count(input_len, slices) <= slices,
        planned_count(input_len, slices) * slice_width(input_len, slices) >= input_len,
        (planned_count(input_len, slices) - 1) * slice_width(input_len, slices) < input_len,
{
    let w = slice_width(input_len, slices);
    let c = planned_count(input_len, slices);
    assert(w >= 1) by (nonlinear_arith)
        requires
            w == (input_len + slices - 1) / (slices as int),
            input_len >= 1,
            slices >= 1,
    ;
    assert(w * slices >= input_len) by (nonlinear_arith)
        requires
            w == (input_len + slices - 1) / (slices as int),
            slices >= 1,
    ;
    assert(c * w >= input_len && (c - 1) * w < input_len && c >= 1) by (nonlinear_arith)
        requires
            c == (input_len + w - 1) / (w as int),
            w >= 1,
            input_len >= 1,
    ;
    assert(c <= slices) by (nonlinear_arith)
        requires
            (c - 1) * w < input_len,
            w * slices >= input_len,
            w >= 1,
            c >= 1,
    ;
}

/// Cuts `input_len` bytes into at most `requested_slices` contiguous ranges
/// of equal width (the last may be shorter); an empty input gets one empty
/// range.
pub fn plan_ranges(input_len: u64, requested_slices: usize) -> (ranges: Vec<SliceRange>)
    requires
        requested_slices >= 1,
    ensures
        ranges@.len() == planned_count(input_len as nat, requested_slices as nat),
        1 <= ranges@.len() <= requested_slices,
        forall|i: int|
            0 <= i < ranges@.len() ==> #[trigger] ranges@[i] == planned_range(
                input_len as nat,
                requested_slices as nat,
                i as nat,
            ),
{
    let mut ranges: Vec<SliceRange> = Vec::new();
    if input_len == 0 {
        ranges.push(SliceRange { id: 0, start: 0, length: 0 });
        assert(ranges@[0] == planned_range(0, requested_slices as nat, 0)) by {
            assert(slice_width(0, requested_slices as nat) == 0) by (nonlinear_arith)
                requires
                    requested_slices >= 1,
            ;
        }
        return ranges;
    }
    let ghost len = input_len as nat;
    let ghost slices = requested_slices as nat;
    proof {
        lemma_width_facts(len, slices);
    }
    let slices64 = requested_slices as u64;
    let quotient = input_len / slices64;
    let remainder = input_len % slices64;
    let width: u64 = if remainder == 0 {
        quotient
    } else {
        assert(quotient < u64::MAX) by (nonlinear_arith)
            requires
                quotient == input_len / slices64,
                remainder == input_len % slices64,
                remainder != 0,
                slices64 >= 1,
        ;
        quotient + 1
    };
    assert(width == slice_width(len, slices)) by (nonlinear_arith)
        requires
            quotient == input_len / slices64,
            remainder == input_len % slices64,
            width == if remainder == 0 { quotient as int } else { quotient + 1 },
            slices64 >= 1,
            len == input_len,
            slices == slices64,
    ;
    let ghost count = planned_count(len, slices);
    let mut id: usize = 0;
    let mut start: u64 = 0;
    let mut exhausted = false;
    while id < requested_slices && !exhausted && start < input_len
        invariant
            width == slice_width(len, slices),
            width >= 1,
            len == input_len,
            slices == requested_slices,
            count == planned_count(len, slices),
            count <= slices,
            count * width >= len,
            (count - 1) * width < len,
            id <= count,
            !exhausted ==> start == id * width,
            exhausted ==> id >= count,
            ranges@.len() == id,
            forall|i: int|
                0 <= i < ranges@.len() ==> #[trigger] ranges@[i] == planned_range(len, slices, i as nat),
        decreases requested_slices - id,
    {
        let rest = input_len - start;
        let length = if width <= rest { width } else { rest };
        ranges.push(SliceRange { id, start, length });
        proof {
            assert(id < count) by (nonlinear_arith)
                requires
                    start == id * width,
                    start < len,
                    count * width >= len,
                    width >= 1,
            ;
        }
        id = id + 1;
        match start.checked_add(width) {
            Some(next) => {
                start = next;
                assert(start == id * width) by (nonlinear_arith)
                    requires
                        start == (id - 1) * width + width,
                ;
            },
            None => {
                exhausted = true;
                assert(id >= count) by (nonlinear_arith)
                    requires
                        start + width > u64::MAX,
                        start == (id - 1) * width,
                        len <= u64::MAX,
                        (count - 1) * width < len,
                        width >= 1,
                ;
            },
        }
    }
    proof {
        if id < count {
            assert(!exhausted);
            assert(id < requested_slices);
            assert(start >= input_len);
            assert(false) by (nonlinear_arith)
                requires
                    start == id * width,
                    start >= len,
                    id < count,
                    (count - 1) * width < len,
                    width >= 1,
            ;
        }
    }
    ranges
}

/// How many slices a file is cut into: the configured thread count, or the
/// size of the thread pool when none was configured, and at least one.
pub fn requested_slices(num_threads: usize, pool_threads: usize) -> (r: usize)
    ensures
        r == (if num_threads > 0 {
            num_threads
        } else if pool_threads > 0 {
            pool_threads
        } else {
            1
        }),
{
    if num_threads > 0 {
        num_threads
    } else if pool_threads > 0 {
        pool_threads
    } else {
        1
    }
}

/// The progress a running slice reports: the input taken so far (never more
/// than the slice) and the compressed bytes written so far.
pub fn slice_progress(stripe_id: usize, processed: usize, written: usize, total_bytes: usize) -> (r:
    ProgressEvent)
    ensures
        r == (ProgressEvent::SplitProgress {
            stripe_id,
            stage: SplitStage::Running,
            bytes_processed: if processed <= total_bytes { processed } else { total_bytes },
            bytes_written: written,
            total_bytes,
        }),
{
    ProgressEvent::SplitProgress {
        stripe_id,
        stage: SplitStage::Running,
        bytes_processed: if processed <= total_bytes { processed } else { total_bytes },
        bytes_written: written,
        total_bytes,
    }
}

/// `order` lists each index below `n` once.
pub open spec fn is_index_permutation(order: Seq<usize>, n: nat) -> bool {
    &&& order.len() == n
    &&& order.no_duplicates()
    &&& forall|k: int| 0 <= k < order.len() ==> order[k] < n
}

/// The positions of the finished slices in the order they are joined: by
/// ascending slice id, slices with equal ids keeping their order.
pub fn order_by_id(ids: &Vec<usize>) -> (order: Vec<usize>)
    ensures
        is_index_permutation(order@, ids@.len()),
        forall|a: int, b: int|
            0 <= a < b < order@.len() ==> ids@[order@[a] as int] <= ids@[order@[b] as int],
        forall|a: int, b: int|
            0 <= a < b < order@.len() && ids@[order@[a] as int] == ids@[order@[b] as int]
                ==> order@[a] < order@[b],
{
    let mut order: Vec<usize> = Vec::new();
    let mut i: usize = 0;
    while i < ids.len()
        invariant
            i <= ids@.len(),
            is_index_permutation(order@, i as nat),
            forall|a: int, b: int|
                0 <= a < b < order@.len() ==> ids@[order@[a] as int] <= ids@[order@[b] as int],
            forall|a: int, b: int|
                0 <= a < b < order@.len() && ids@[order@[a] as int] == ids@[order@[b] as int]
                    ==> order@[a] < order@[b],
        decreases ids@.len() - i,
    {
        let key = ids[i];
        let mut pos = order.len();
        while pos > 0 && ids[order[pos - 1]] > key
            invariant
                pos <= order@.len(),
                order@.len() == i,
                i < ids@.len(),
                key == ids@[i as int],
                forall|k: int| 0 <= k < order@.len() ==> order@[k] < i,
                forall|k: int| pos <= k < order@.len() ==> ids@[order@[k] as int] > key,
            decreases pos,
        {
            pos = pos - 1;
        }
        proof {
            if pos > 0 {
                assert(ids@[order@[pos - 1] as int] <= key);
            }
        }
        let ghost before = order@;
        order.insert(pos, i);
        proof {
            assert(order@ == before.insert(pos as int, i));
            assert forall|k: int| 0 <= k < order@.len() implies order@[k] < i + 1 by {
                if k < pos {
                    assert(order@[k] == before[k]);
                } else if k > pos {
                    assert(order@[k] == before[k - 1]);
                }
            }
            assert forall|a: int, b: int| 0 <= a < b < order@.len() implies order@[a] != order@[b] by {
                if a < pos && b < pos {
                    assert(before[a] != before[b]);
                } else if a < pos && b > pos {
                    assert(before[a] != before[b - 1]);
                } else if a > pos && b > pos {
                    assert(before[a - 1] != before[b - 1]);
                }
            }
            assert forall|a: int, b: int|
                0 <= a < b < order@.len() implies ids@[order@[a] as int] <= ids@[order@[b] as int] by {
                if b < pos {
                } else if a < pos && b == pos {
                    assert(ids@[before[a] as int] <= ids@[before[pos - 1] as int]);
                } else if a < pos && b > pos {
                    assert(order@[b] == before[b - 1]);
                } else if a == pos {
                    assert(order@[b] == before[b - 1]);
                } else {
                    assert(order@[a] == before[a - 1]);
                    assert(order@[b] == before[b - 1]);
                }
            }
            assert forall|a: int, b: int|
                0 <= a < b < order@.len() && ids@[order@[a] as int] == ids@[order@[b] as int]
                    implies order@[a] < order@[b] by {
                if b < pos {
                } else if a < pos && b == pos {
                } else if a < pos && b > pos {
                    assert(order@[b] == before[b - 1]);
                } else if a == pos {
                    assert(order@[b] == before[b - 1]);
                } else {
                    assert(order@[a] == before[a - 1]);
                    assert(order@[b] == before[b - 1]);
                }
            }
        }
        i = i + 1;
    }
    order
}

/// The file is cut into no more ranges than were asked for, all as wide as
/// the narrowest width that fits the input into that many ranges, but the
/// last, which may be shorter; an empty input gets one empty range.
pub proof fn lemma_ranges_at_most_requested(input_len: nat, slices: nat)
    requires
        slices >= 1,
        input_len <= u64::MAX,
    ensures
        input_len == 0 ==> planned_count(input_len, slices) == 1 && planned_range(
            input_len,
            slices,
            0,
        ).length == 0,
        input_len > 0 ==> 1 <= planned_count(input_len, slices) <= slices,
        input_len > 0 ==> slice_width(input_len, slices) * slices >= input_len,
        input_len > 0 ==> (slice_width(input_len, slices) - 1) * slices < input_len,
        input_len > 0 ==> forall|i: nat|
            i + 1 < planned_count(input_len, slices) ==> #[trigger] planned_range(
                input_len,
                slices,
                i,
            ).length == slice_width(input_len, slices),
{
    if input_len > 0 {
        lemma_width_facts(input_len, slices);
        let w = slice_width(input_len, slices);
        let c = planned_count(input_len, slices);
        assert((w - 1) * slices < input_len) by (nonlinear_arith)
            requires
                w == (input_len + slices - 1) / (slices as int),
                slices >= 1,
        ;
        assert forall|i: nat| i + 1 < c implies #[trigger] planned_range(input_len, slices, i).length
            == w by {
            assert((i + 1) * w <= (c - 1) * w) by (nonlinear_arith)
                requires
                    i + 1 <= c - 1,
                    w >= 1,
            ;
            assert(i * w + w == (i + 1) * w) by (nonlinear_arith);
        }
    }
}

/// The ranges tile the input: the first starts at zero, each starts where
/// the previous one ends, none is empty, and the last ends at the end of the
/// input.
pub proof fn lemma_ranges_tile_input(input_len: nat, slices: nat)
    requires
        slices >= 1,
        input_len >= 1,
        input_len <= u64::MAX,
    ensures
        planned_range(input_len, slices, 0).start == 0,
        forall|i: nat|
            i + 1 < planned_count(input_len, slices) ==> #[trigger] planned_range(
                input_len,
                slices,
                i,
            ).start + planned_range(input_len, slices, i).length == planned_range(
                input_len,
                slices,
                i + 1,
            ).start,
        forall|i: nat|
            i < planned_count(input_len, slices) ==> #[trigger] planned_range(
                input_len,
                slices,
                i,
            ).length > 0,
        planned_range(input_len, slices, (planned_count(input_len, slices) - 1) as nat).start
            + planned_range(input_len, slices, (planned_count(input_len, slices) - 1) as nat).length
            == input_len,
{
    lemma_width_facts(input_len, slices);
    let w = slice_width(input_len, slices);
    let c = planned_count(input_len, slices);
    assert forall|i: nat| i + 1 < c implies #[trigger] planned_range(input_len, slices, i).start
        + planned_range(input_len, slices, i).length == planned_range(input_len, slices, i + 1).start by {
        assert((i + 1) * w <= (c - 1) * w) by (nonlinear_arith)
            requires
                i + 1 <= c - 1,
                w >= 1,
        ;
        assert((i + 1) * w == i * w + w) by (nonlinear_arith);
    }
    assert forall|i: nat| i < c implies #[trigger] planned_range(input_len, slices, i).length > 0 by {
        assert(i * w <= (c - 1) * w) by (nonlinear_arith)
            requires
                i <= c - 1,
                w >= 1,
        ;
    }
    let last = (c - 1) as nat;
    assert(last * w < input_len);
    assert(input_len - last * w <= w) by (nonlinear_arith)
        requires
            c * w >= input_len,
            last == c - 1,
    ;
}

} // verus!
