//! The dashboard's state and the reducer that folds progress events into it.
//!
//! Times are nanoseconds on a monotonic clock that the caller reads; rates
//! are kept as the byte counts and durations they are computed from.
use crate::pipeline::{ProgressEvent, SplitStage, WorkerStage, DEFAULT_CHUNK_SIZE};
use vstd::prelude::*;

pub mod controls;
pub mod metrics;

verus! {

/// Nanoseconds in one second: the interval of the I/O history buckets.
pub const IO_BUCKET_INTERVAL_NANOS: u64 = 1_000_000_000;

/// How many finished chunks a worker's averages look back over.
pub const WORKER_AVERAGE_WINDOW: usize = 10;

#[derive(Clone, Copy, Debug, PartialEq, Eq, Structural)]
pub enum TuiMode {
    Split,
    Stream,
}

#[derive(Clone, Copy, Debug, PartialEq, Eq, Structural)]
pub enum IoChartMode {
    Rate,
    Cumulative,
}

/// One bucket of the I/O history: the bytes that went in and came out over
/// `elapsed_nanos`, and the running totals at its end.
#[derive(Clone, Copy, Debug, PartialEq, Eq, Structural)]
pub struct IoSample {
    pub input_delta: usize,
    pub output_delta: usize,
    pub elapsed_nanos: u64,
    pub input_total: usize,
    pub output_total: usize,
}

/// Progress of one slice in split mode.
#[derive(Clone, Copy, Debug, PartialEq, Eq, Structural)]
pub struct StripeProgress {
    pub id: usize,
    pub stage: SplitStage,
    pub bytes_processed: usize,
    pub total_bytes: usize,
    pub bytes_written: usize,
    pub started_at: Option<u64>,
    pub completed_at: Option<u64>,
}

pub open spec fn sat_sub_u64(a: u64, b: u64) -> u64 {
    if a >= b { (a - b) as u64 } else { 0 }
}

pub open spec fn sat_sub(a: usize, b: usize) -> usize {
    if a >= b { (a - b) as usize } else { 0 }
}

pub open spec fn sat_add(a: usize, b: usize) -> usize {
    if a + b <= usize::MAX { (a + b) as usize } else { usize::MAX }
}

pub open spec fn min_usize(a: usize, b: usize) -> usize {
    if a <= b { a } else { b }
}

pub open spec fn max_usize(a: usize, b: usize) -> usize {
    if a >= b { a } else { b }
}

/// How long a slice has been (or was) running, if it started.
pub open spec fn active_duration_of(stripe: StripeProgress, now: u64) -> Option<u64> {
    match stripe.started_at {
        Some(started) => Some(
            sat_sub_u64(
                match stripe.completed_at {
                    Some(c) => c,
                    None => now,
                },
                started,
            ),
        ),
        None => None,
    }
}

impl StripeProgress {
    /// How long the slice has been running, or ran until it completed.
    pub fn active_duration(&self, now: u64) -> (r: Option<u64>)
        ensures
            r == active_duration_of(*self, now),
    {
        match self.started_at {
            Some(started) => {
                let end = match self.completed_at {
                    Some(c) => c,
                    None => now,
                };
                Some(end.saturating_sub(started))
            },
            None => None,
        }
    }
}

/// Totals over all slices.
#[derive(Clone, Copy, Debug, PartialEq, Eq, Structural)]
pub struct SplitAggregate {
    pub input_processed: usize,
    pub input_total: usize,
    pub output_produced: usize,
    pub completed_input: usize,
    pub completed_output: usize,
    pub active_sectors: usize,
    pub completed_sectors: usize,
}

pub open spec fn empty_aggregate() -> SplitAggregate {
    SplitAggregate {
        input_processed: 0,
        input_total: 0,
        output_produced: 0,
        completed_input: 0,
        completed_output: 0,
        active_sectors: 0,
        completed_sectors: 0,
    }
}

/// The totals with one more slice counted: its input (capped at its size),
/// its size, its output, and, when done, its size and output again as
/// completed work. Sums saturate.
pub open spec fn add_stripe(a: SplitAggregate, stripe: StripeProgress) -> SplitAggregate {
    let processed = min_usize(stripe.bytes_processed, stripe.total_bytes);
    let counted = SplitAggregate {
        input_processed: sat_add(a.input_processed, processed),
        input_total: sat_add(a.input_total, stripe.total_bytes),
        output_produced: sat_add(a.output_produced, stripe.bytes_written),
        ..a
    };
    match stripe.stage {
        SplitStage::Waiting => counted,
        SplitStage::Running => SplitAggregate {
            active_sectors: (counted.active_sectors + 1) as usize,
            ..counted
        },
        SplitStage::Done => SplitAggregate {
            completed_sectors: (counted.completed_sectors + 1) as usize,
            completed_input: sat_add(counted.completed_input, stripe.total_bytes),
            completed_output: sat_add(counted.completed_output, stripe.bytes_written),
            ..counted
        },
    }
}

/// The totals over `stripes`.
pub open spec fn aggregate_of(stripes: Seq<StripeProgress>) -> SplitAggregate
    decreases stripes.len(),
{
    if stripes.len() == 0 {
        empty_aggregate()
    } else {
        add_stripe(aggregate_of(stripes.drop_last()), stripes.last())
    }
}

/// A stream worker as the dashboard sees it. The histories keep, for the
/// last finished chunks, the input and output sizes and the input size with
/// the time it took.
#[derive(Debug)]
pub struct WorkerState {
    pub id: usize,
    pub stage: WorkerStage,
    pub current_chunk: Option<u64>,
    pub display_chunk: Option<u64>,
    pub bytes_processed: usize,
    pub total_bytes: usize,
    pub bytes_written: usize,
    pub started_at: Option<u64>,
    pub completed_at: Option<u64>,
    pub ratio_history: Vec<(usize, usize)>,
    pub input_rate_history: Vec<(usize, u64)>,
}

pub struct WorkerView {
    pub id: usize,
    pub stage: WorkerStage,
    pub current_chunk: Option<u64>,
    pub display_chunk: Option<u64>,
    pub bytes_processed: usize,
    pub total_bytes: usize,
    pub bytes_written: usize,
    pub started_at: Option<u64>,
    pub completed_at: Option<u64>,
    pub ratio_history: Seq<(usize, usize)>,
    pub input_rate_history: Seq<(usize, u64)>,
}

impl View for WorkerState {
    type V = WorkerView;

    open spec fn view(&self) -> WorkerView {
        WorkerView {
            id: self.id,
            stage: self.stage,
            current_chunk: self.current_chunk,
            display_chunk: self.display_chunk,
            bytes_processed: self.bytes_processed,
            total_bytes: self.total_bytes,
            bytes_written: self.bytes_written,
            started_at: self.started_at,
            completed_at: self.completed_at,
            ratio_history: self.ratio_history@,
            input_rate_history: self.input_rate_history@,
        }
    }
}

/// A worker that has not done anything yet.
pub open spec fn fresh_worker(id: usize) -> WorkerView {
    WorkerView {
        id,
        stage: WorkerStage::Idle,
        current_chunk: None,
        display_chunk: None,
        bytes_processed: 0,
        total_bytes: 0,
        bytes_written: 0,
        started_at: None,
        completed_at: None,
        ratio_history: Seq::empty(),
        input_rate_history: Seq::empty(),
    }
}

/// A history with `x` appended, the oldest entry dropped when it already
/// held a full window.
pub open spec fn window_push<T>(history: Seq<T>, x: T) -> Seq<T> {
    if history.len() == WORKER_AVERAGE_WINDOW {
        history.drop_first().push(x)
    } else {
        history.push(x)
    }
}

/// How long the worker's current assignment has taken (until it completed,
/// or until `now`); zero when it has not started.
pub open spec fn assignment_nanos(w: WorkerView, now: u64) -> u64 {
    match w.started_at {
        Some(started) => sat_sub_u64(
            match w.completed_at {
                Some(c) => c,
                None => now,
            },
            started,
        ),
        None => 0,
    }
}

/// The worker after a chunk finished: nothing when it produced no output;
/// otherwise its sizes join the ratio history and, when it took input and
/// time, its input and duration join the rate history.
pub open spec fn record_final_metrics(w: WorkerView, now: u64) -> WorkerView {
    if w.bytes_written == 0 {
        w
    } else {
        let nanos = assignment_nanos(w, now);
        WorkerView {
            ratio_history: window_push(w.ratio_history, (w.bytes_processed, w.bytes_written)),
            input_rate_history: if w.bytes_processed > 0 && nanos > 0 {
                window_push(w.input_rate_history, (w.bytes_processed, nanos))
            } else {
                w.input_rate_history
            },
            ..w
        }
    }
}

#[derive(Clone, Copy, Debug, PartialEq, Eq, Structural)]
pub enum FocusedWidget {
    Unfocused,
    CompressionLevelSlider,
    ThrottleDelaySlider,
    ChunkSizeSlider,
    WorkerCountSlider,
}

/// Everything the dashboard shows.
#[derive(Debug)]
pub struct TuiState {
    pub mode: TuiMode,
    pub start_time: u64,
    pub is_complete: bool,
    pub final_elapsed: Option<u64>,
    pub total_input_size: usize,
    pub stripes: Vec<StripeProgress>,
    pub split_sector_offset: usize,
    pub split_final_bytes_written: usize,
    /// CPU ticks used over the last sampling interval, with its length.
    pub process_cpu: Option<(u64, u64)>,
    pub process_memory_bytes: Option<usize>,
    pub previous_cpu_ticks: Option<u64>,
    pub bytes_read: usize,
    pub bytes_written: usize,
    pub queue_depth: usize,
    pub queue_capacity: usize,
    pub io_history: Vec<IoSample>,
    pub io_chart_mode: IoChartMode,
    pub terminal_cols: u16,
    pub terminal_rows: u16,
    pub prev_total_in: usize,
    pub prev_total_out: usize,
    pub last_speed_update: u64,
    pub last_io_sample: u64,
    pub input_queue: Vec<u64>,
    pub workers: Vec<WorkerState>,
    pub output_buffer: Vec<u64>,
    pub next_expected_seq: u64,
    pub level: u32,
    pub total_chunks_compressed: u64,
    pub total_compress_nanos: u128,
    pub focused_widget: FocusedWidget,
    pub throttle_delay_ms: u64,
    pub chunk_size: usize,
    pub active_workers: usize,
    pub max_workers: usize,
    pub is_paused: bool,
}

pub struct TuiView {
    pub mode: TuiMode,
    pub start_time: u64,
    pub is_complete: bool,
    pub final_elapsed: Option<u64>,
    pub total_input_size: usize,
    pub stripes: Seq<StripeProgress>,
    pub split_sector_offset: usize,
    pub split_final_bytes_written: usize,
    pub process_cpu: Option<(u64, u64)>,
    pub process_memory_bytes: Option<usize>,
    pub previous_cpu_ticks: Option<u64>,
    pub bytes_read: usize,
    pub bytes_written: usize,
    pub queue_depth: usize,
    pub queue_capacity: usize,
    pub io_history: Seq<IoSample>,
    pub io_chart_mode: IoChartMode,
    pub terminal_cols: u16,
    pub terminal_rows: u16,
    pub prev_total_in: usize,
    pub prev_total_out: usize,
    pub last_speed_update: u64,
    pub last_io_sample: u64,
    pub input_queue: Seq<u64>,
    pub workers: Seq<WorkerView>,
    pub output_buffer: Seq<u64>,
    pub next_expected_seq: u64,
    pub level: u32,
    pub total_chunks_compressed: u64,
    pub total_compress_nanos: u128,
    pub focused_widget: FocusedWidget,
    pub throttle_delay_ms: u64,
    pub chunk_size: usize,
    pub active_workers: usize,
    pub max_workers: usize,
    pub is_paused: bool,
}

impl View for TuiState {
    type V = TuiView;

    open spec fn view(&self) -> TuiView {
        TuiView {
            mode: self.mode,
            start_time: self.start_time,
            is_complete: self.is_complete,
            final_elapsed: self.final_elapsed,
            total_input_size: self.total_input_size,
            stripes: self.stripes@,
            split_sector_offset: self.split_sector_offset,
            split_final_bytes_written: self.split_final_bytes_written,
            process_cpu: self.process_cpu,
            process_memory_bytes: self.process_memory_bytes,
            previous_cpu_ticks: self.previous_cpu_ticks,
            bytes_read: self.bytes_read,
            bytes_written: self.bytes_written,
            queue_depth: self.queue_depth,
            queue_capacity: self.queue_capacity,
            io_history: self.io_history@,
            io_chart_mode: self.io_chart_mode,
            terminal_cols: self.terminal_cols,
            terminal_rows: self.terminal_rows,
            prev_total_in: self.prev_total_in,
            prev_total_out: self.prev_total_out,
            last_speed_update: self.last_speed_update,
            last_io_sample: self.last_io_sample,
            input_queue: self.input_queue@,
            workers: self.workers@.map_values(|w: WorkerState| w@),
            output_buffer: self.output_buffer@,
            next_expected_seq: self.next_expected_seq,
            level: self.level,
            total_chunks_compressed: self.total_chunks_compressed,
            total_compress_nanos: self.total_compress_nanos,
            focused_widget: self.focused_widget,
            throttle_delay_ms: self.throttle_delay_ms,
            chunk_size: self.chunk_size,
            active_workers: self.active_workers,
            max_workers: self.max_workers,
            is_paused: self.is_paused,
        }
    }
}

/// `q` with `x` added at its end unless it is already there.
pub open spec fn queue_with(q: Seq<u64>, x: u64) -> Seq<u64> {
    if q.contains(x) {
        q
    } else {
        q.push(x)
    }
}

/// `q` without any `x`, order kept.
pub open spec fn queue_without(q: Seq<u64>, x: u64) -> Seq<u64> {
    q.filter(other_than(x))
}

/// The entries other than `x`.
pub open spec fn other_than(x: u64) -> spec_fn(u64) -> bool {
    |y: u64| y != x
}

/// The entries smaller than `x`.
pub open spec fn smaller_than(x: u64) -> spec_fn(u64) -> bool {
    |y: u64| y < x
}

/// How many entries of `q` are smaller than `x`.
pub open spec fn count_below(q: Seq<u64>, x: u64) -> nat {
    q.filter(smaller_than(x)).len()
}

/// `q` with `x` added, in ascending order when `q` was ascending; unchanged
/// when `x` is already there.
pub open spec fn sorted_with(q: Seq<u64>, x: u64) -> Seq<u64> {
    if q.contains(x) {
        q
    } else {
        q.insert(count_below(q, x) as int, x)
    }
}

/// The entries strictly ascend (so none repeats).
pub open spec fn strictly_ascending(q: Seq<u64>) -> bool {
    forall|i: int, j: int| 0 <= i < j < q.len() ==> q[i] < q[j]
}

/// The slice after a progress report.
pub open spec fn stripe_after_progress(
    s: StripeProgress,
    stage: SplitStage,
    bytes_processed: usize,
    bytes_written: usize,
    total_bytes: usize,
    now: u64,
) -> StripeProgress {
    StripeProgress {
        id: s.id,
        stage,
        bytes_processed: min_usize(bytes_processed, total_bytes),
        total_bytes,
        bytes_written: max_usize(s.bytes_written, bytes_written),
        started_at: if stage == SplitStage::Running && s.started_at is None {
            Some(now)
        } else {
            s.started_at
        },
        completed_at: if stage == SplitStage::Done && s.completed_at is None {
            Some(now)
        } else {
            s.completed_at
        },
    }
}

/// The worker after a report on chunk `seq_num`.
pub open spec fn worker_after_chunk_progress(
    w: WorkerView,
    seq_num: u64,
    bytes_processed: usize,
    bytes_written: usize,
    total_bytes: usize,
    finalized: bool,
    now: u64,
) -> WorkerView {
    let updated = WorkerView {
        display_chunk: Some(seq_num),
        bytes_processed: min_usize(bytes_processed, total_bytes),
        total_bytes,
        bytes_written: max_usize(w.bytes_written, bytes_written),
        started_at: if w.started_at is None { Some(now) } else { w.started_at },
        ..w
    };
    if finalized && updated.completed_at is None {
        record_final_metrics(WorkerView { completed_at: Some(now), ..updated }, now)
    } else {
        updated
    }
}

/// The worker after it was handed chunk `seq_num`.
pub open spec fn worker_after_assignment(w: WorkerView, seq_num: u64, now: u64) -> WorkerView {
    WorkerView {
        stage: WorkerStage::Busy,
        current_chunk: Some(seq_num),
        display_chunk: Some(seq_num),
        bytes_processed: 0,
        total_bytes: 0,
        bytes_written: 0,
        started_at: Some(now),
        completed_at: None,
        ..w
    }
}

/// The worker after its chunk went to the writer: idle, unless it already
/// moved on to another chunk.
pub open spec fn worker_after_pending(w: WorkerView, seq_num: u64) -> WorkerView {
    if w.current_chunk == Some(seq_num) {
        WorkerView { stage: WorkerStage::Idle, current_chunk: None, ..w }
    } else {
        w
    }
}

/// The worker after it was switched on or off.
pub open spec fn worker_after_availability(w: WorkerView, enabled: bool) -> WorkerView {
    if enabled {
        WorkerView { stage: WorkerStage::Idle, ..w }
    } else {
        WorkerView { stage: WorkerStage::Off, current_chunk: None, ..w }
    }
}

/// A worker once the pipeline stopped: no chunk, idle unless switched off.
pub open spec fn worker_cleared(w: WorkerView) -> WorkerView {
    WorkerView {
        current_chunk: None,
        stage: if w.stage == WorkerStage::Off { WorkerStage::Off } else { WorkerStage::Idle },
        ..w
    }
}

/// `workers` with entry `id` transformed by `f`, when there is one.
pub open spec fn update_worker(
    workers: Seq<WorkerView>,
    id: usize,
    f: spec_fn(WorkerView) -> WorkerView,
) -> Seq<WorkerView> {
    if id < workers.len() {
        workers.update(id as int, f(workers[id as int]))
    } else {
        workers
    }
}

/// The state once the pipeline stopped: no chunk queued, pending or held.
pub open spec fn cleared(s: TuiView) -> TuiView {
    TuiView {
        input_queue: Seq::empty(),
        output_buffer: Seq::empty(),
        queue_depth: 0,
        workers: s.workers.map_values(|w: WorkerView| worker_cleared(w)),
        ..s
    }
}

/// Bytes in and out so far: in split mode the slices' input and output plus
/// what was copied to the final file; in stream mode the stream counters.
pub open spec fn io_totals(s: TuiView) -> (usize, usize) {
    match s.mode {
        TuiMode::Split => {
            let a = aggregate_of(s.stripes);
            (a.input_processed, sat_add(a.output_produced, s.split_final_bytes_written))
        },
        TuiMode::Stream => (s.bytes_read, s.bytes_written),
    }
}

/// How many I/O samples are kept: the terminal width, between 80 and 512.
pub open spec fn io_history_capacity(cols: u16) -> nat {
    if cols < 80 {
        80
    } else if cols > 512 {
        512
    } else {
        cols as nat
    }
}

/// The state after an I/O sample over `elapsed` nanoseconds: the bytes that
/// moved since the previous sample are appended to the history, which keeps
/// only its newest entries.
pub open spec fn sampled(s: TuiView, elapsed: u64) -> TuiView {
    if elapsed == 0 {
        s
    } else {
        let (input_total, output_total) = io_totals(s);
        let sample = IoSample {
            input_delta: sat_sub(input_total, s.prev_total_in),
            output_delta: sat_sub(output_total, s.prev_total_out),
            elapsed_nanos: elapsed,
            input_total,
            output_total,
        };
        let grown = s.io_history.push(sample);
        let capacity = io_history_capacity(s.terminal_cols);
        TuiView {
            io_history: if grown.len() > capacity {
                grown.skip(grown.len() - capacity)
            } else {
                grown
            },
            prev_total_in: input_total,
            prev_total_out: output_total,
            ..s
        }
    }
}

/// The state after a sampling tick at `now`: a sample is taken once a full
/// bucket interval has passed since the last one.
pub open spec fn bucket_sampled(s: TuiView, now: u64) -> TuiView {
    let elapsed = sat_sub_u64(now, s.last_io_sample);
    if elapsed < IO_BUCKET_INTERVAL_NANOS {
        s
    } else {
        TuiView { last_io_sample: now, ..sampled(s, elapsed) }
    }
}

/// The state once the job completed at `now`.
pub open spec fn completed(s: TuiView, now: u64) -> TuiView {
    let system_elapsed = sat_sub_u64(now, s.last_speed_update);
    let timed = if system_elapsed > 0 {
        TuiView { last_speed_update: now, ..s }
    } else {
        s
    };
    let sampled = bucket_sampled(timed, now);
    cleared(
        TuiView {
            is_complete: true,
            final_elapsed: Some(sat_sub_u64(now, s.start_time)),
            ..sampled
        },
    )
}

/// The dashboard after `event` arrives at `now`.
pub open spec fn reduce(s: TuiView, event: ProgressEvent, now: u64) -> TuiView {
    match event {
        ProgressEvent::SplitProgress {
            stripe_id,
            stage,
            bytes_processed,
            bytes_written,
            total_bytes,
        } => if stripe_id < s.stripes.len() {
            TuiView {
                stripes: s.stripes.update(
                    stripe_id as int,
                    stripe_after_progress(
                        s.stripes[stripe_id as int],
                        stage,
                        bytes_processed,
                        bytes_written,
                        total_bytes,
                        now,
                    ),
                ),
                ..s
            }
        } else {
            s
        },
        ProgressEvent::SplitFinalWrite { bytes_written } => TuiView {
            split_final_bytes_written: max_usize(s.split_final_bytes_written, bytes_written),
            ..s
        },
        ProgressEvent::StreamProgress { bytes_read, bytes_written, queue_depth } => TuiView {
            bytes_read,
            bytes_written,
            queue_depth,
            ..s
        },
        ProgressEvent::WorkerStatus { worker_id, stage, current_chunk } => TuiView {
            workers: update_worker(
                s.workers,
                worker_id,
                |w: WorkerView| WorkerView { stage, current_chunk, ..w },
            ),
            ..s
        },
        ProgressEvent::WorkerChunkProgress {
            worker_id,
            seq_num,
            bytes_processed,
            bytes_written,
            total_bytes,
            finalized,
        } => TuiView {
            workers: update_worker(
                s.workers,
                worker_id,
                |w: WorkerView|
                    worker_after_chunk_progress(
                        w,
                        seq_num,
                        bytes_processed,
                        bytes_written,
                        total_bytes,
                        finalized,
                        now,
                    ),
            ),
            ..s
        },
        ProgressEvent::ChunkQueued { seq_num, bytes: _ } => TuiView {
            input_queue: queue_with(s.input_queue, seq_num),
            ..s
        },
        ProgressEvent::ChunkAssigned { worker_id, seq_num } => TuiView {
            input_queue: queue_without(s.input_queue, seq_num),
            workers: update_worker(
                s.workers,
                worker_id,
                |w: WorkerView| worker_after_assignment(w, seq_num, now),
            ),
            ..s
        },
        ProgressEvent::ChunkPending { worker_id, seq_num } => TuiView {
            workers: update_worker(
                s.workers,
                worker_id,
                |w: WorkerView| worker_after_pending(w, seq_num),
            ),
            output_buffer: sorted_with(s.output_buffer, seq_num),
            ..s
        },
        ProgressEvent::ChunkWritten { seq_num } => TuiView {
            output_buffer: queue_without(s.output_buffer, seq_num),
            next_expected_seq: if s.next_expected_seq >= seq_num + 1 {
                s.next_expected_seq
            } else {
                (seq_num + 1) as u64
            },
            ..s
        },
        ProgressEvent::WorkerAvailability { worker_id, enabled } => TuiView {
            workers: update_worker(
                s.workers,
                worker_id,
                |w: WorkerView| worker_after_availability(w, enabled),
            ),
            ..s
        },
        ProgressEvent::AvgCompressionTime(nanos) => chunk_timed(s, nanos),
        ProgressEvent::Error(_) => cleared(s),
        ProgressEvent::Complete => completed(s, now),
    }
}

/// The state after one more chunk took `nanos` (the total saturates).
pub open spec fn chunk_timed(s: TuiView, nanos: u64) -> TuiView {
    TuiView {
        total_chunks_compressed: (s.total_chunks_compressed + 1) as u64,
        total_compress_nanos: if s.total_compress_nanos + nanos <= u128::MAX {
            (s.total_compress_nanos + nanos) as u128
        } else {
            u128::MAX
        },
        ..s
    }
}

/// When `event` is the completion, the time since the process metrics were
/// last sampled, so that the caller samples them once more.
pub open spec fn metrics_request(s: TuiView, event: ProgressEvent, now: u64) -> Option<u64> {
    match event {
        ProgressEvent::Complete => {
            let elapsed = sat_sub_u64(now, s.last_speed_update);
            if elapsed > 0 { Some(elapsed) } else { None }
        },
        _ => None,
    }
}

/// What a reducer call may be asked to handle without overflowing a counter.
pub open spec fn event_fits(s: TuiView, event: ProgressEvent) -> bool {
    match event {
        ProgressEvent::ChunkWritten { seq_num } => seq_num < u64::MAX,
        ProgressEvent::AvgCompressionTime(_) => s.total_chunks_compressed < u64::MAX,
        _ => true,
    }
}

/// A worker's histories hold at most a window of finished chunks.
pub open spec fn within_window(w: WorkerView) -> bool {
    &&& w.ratio_history.len() <= WORKER_AVERAGE_WINDOW
    &&& w.input_rate_history.len() <= WORKER_AVERAGE_WINDOW
}

/// The queues are consistent: no chunk is queued twice, the pending buffer
/// is ascending, and every worker's histories stay within the window.
pub open spec fn well_formed(s: TuiView) -> bool {
    &&& s.input_queue.no_duplicates()
    &&& strictly_ascending(s.output_buffer)
    &&& forall|i: int| 0 <= i < s.workers.len() ==> within_window(#[trigger] s.workers[i])
}

} // verus!

verus! {

/// Whether `x` occurs in `q`.
pub fn contains_seq(q: &Vec<u64>, x: u64) -> (r: bool)
    ensures
        r == q@.contains(x),
{
    let mut i: usize = 0;
    while i < q.len()
        invariant
            i <= q.len(),
            forall|j: int| 0 <= j < i ==> q@[j] != x,
        decreases q.len() - i,
    {
        if q[i] == x {
            return true;
        }
        i = i + 1;
    }
    false
}

/// Removes every `x` from `q`, keeping the order of the rest.
pub fn remove_all(q: &mut Vec<u64>, x: u64)
    ensures
        final(q)@ == queue_without(old(q)@, x),
{
    let ghost items = q@;
    let mut kept: Vec<u64> = Vec::new();
    let mut i: usize = 0;
    while i < q.len()
        invariant
            q@ == items,
            i <= q.len(),
            kept@ == items.take(i as int).filter(other_than(x)),
        decreases q.len() - i,
    {
        proof {
            items.take(i as int).lemma_filter_push(items[i as int], other_than(x));
            assert(items.take(i + 1) == items.take(i as int).push(items[i as int]));
        }
        if q[i] != x {
            kept.push(q[i]);
        }
        i = i + 1;
    }
    assert(items.take(items.len() as int) == items);
    *q = kept;
}

/// Adds `x` at the end of `q` unless it is there.
pub fn add_once(q: &mut Vec<u64>, x: u64)
    ensures
        final(q)@ == queue_with(old(q)@, x),
{
    if !contains_seq(q, x) {
        q.push(x);
    }
}

/// Adds `x` to `q` before the first entry that is not smaller, unless it is
/// there.
pub fn insert_sorted(q: &mut Vec<u64>, x: u64)
    ensures
        final(q)@ == sorted_with(old(q)@, x),
{
    if contains_seq(q, x) {
        return;
    }
    let ghost items = q@;
    let mut below: usize = 0;
    let mut i: usize = 0;
    while i < q.len()
        invariant
            q@ == items,
            i <= q.len(),
            below == items.take(i as int).filter(smaller_than(x)).len(),
            below <= i,
        decreases q.len() - i,
    {
        proof {
            items.take(i as int).lemma_filter_push(items[i as int], smaller_than(x));
            assert(items.take(i + 1) == items.take(i as int).push(items[i as int]));
        }
        if q[i] < x {
            below = below + 1;
        }
        i = i + 1;
    }
    assert(items.take(items.len() as int) == items);
    q.insert(below, x);
}

} // verus!

verus! {

/// Appends `x` to a worker history, dropping the oldest entry of a full one.
fn push_window<T: Copy>(history: &mut Vec<T>, x: T)
    ensures
        final(history)@ == window_push(old(history)@, x),
{
    let ghost before = history@;
    if history.len() == WORKER_AVERAGE_WINDOW {
        history.remove(0);
        assert(history@ =~= before.drop_first());
    }
    history.push(x);
}

impl WorkerState {
    /// A worker that has not done anything yet.
    pub fn new(id: usize) -> (r: Self)
        ensures
            r@ == fresh_worker(id),
    {
        let r = WorkerState {
            id,
            stage: WorkerStage::Idle,
            current_chunk: None,
            display_chunk: None,
            bytes_processed: 0,
            total_bytes: 0,
            bytes_written: 0,
            started_at: None,
            completed_at: None,
            ratio_history: Vec::new(),
            input_rate_history: Vec::new(),
        };
        assert(r@.ratio_history =~= Seq::<(usize, usize)>::empty());
        assert(r@.input_rate_history =~= Seq::<(usize, u64)>::empty());
        r
    }

    /// How long the current assignment has taken, in nanoseconds.
    pub fn assignment_nanos(&self, now: u64) -> (r: u64)
        ensures
            r == assignment_nanos(self@, now),
    {
        match self.started_at {
            Some(started) => {
                let end = match self.completed_at {
                    Some(c) => c,
                    None => now,
                };
                end.saturating_sub(started)
            },
            None => 0,
        }
    }

    /// Records the sizes and timing of the chunk that just finished.
    pub fn record_final_metrics(&mut self, now: u64)
        ensures
            final(self)@ == record_final_metrics(old(self)@, now),
    {
        if self.bytes_written == 0 {
            return;
        }
        let nanos = self.assignment_nanos(now);
        push_window(&mut self.ratio_history, (self.bytes_processed, self.bytes_written));
        if self.bytes_processed > 0 && nanos > 0 {
            push_window(&mut self.input_rate_history, (self.bytes_processed, nanos));
        }
    }

    fn apply_chunk_progress(
        &mut self,
        seq_num: u64,
        bytes_processed: usize,
        bytes_written: usize,
        total_bytes: usize,
        finalized: bool,
        now: u64,
    )
        ensures
            final(self)@ == worker_after_chunk_progress(
                old(self)@,
                seq_num,
                bytes_processed,
                bytes_written,
                total_bytes,
                finalized,
                now,
            ),
    {
        self.display_chunk = Some(seq_num);
        self.bytes_processed = if bytes_processed <= total_bytes {
            bytes_processed
        } else {
            total_bytes
        };
        self.total_bytes = total_bytes;
        if bytes_written > self.bytes_written {
            self.bytes_written = bytes_written;
        }
        if self.started_at.is_none() {
            self.started_at = Some(now);
        }
        if finalized && self.completed_at.is_none() {
            self.completed_at = Some(now);
            self.record_final_metrics(now);
        }
    }

    fn apply_assignment(&mut self, seq_num: u64, now: u64)
        ensures
            final(self)@ == worker_after_assignment(old(self)@, seq_num, now),
    {
        self.stage = WorkerStage::Busy;
        self.current_chunk = Some(seq_num);
        self.display_chunk = Some(seq_num);
        self.bytes_processed = 0;
        self.total_bytes = 0;
        self.bytes_written = 0;
        self.started_at = Some(now);
        self.completed_at = None;
    }

    fn apply_pending(&mut self, seq_num: u64)
        ensures
            final(self)@ == worker_after_pending(old(self)@, seq_num),
    {
        if self.current_chunk == Some(seq_num) {
            self.stage = WorkerStage::Idle;
            self.current_chunk = None;
        }
    }

    fn apply_availability(&mut self, enabled: bool)
        ensures
            final(self)@ == worker_after_availability(old(self)@, enabled),
    {
        if enabled {
            self.stage = WorkerStage::Idle;
        } else {
            self.stage = WorkerStage::Off;
            self.current_chunk = None;
        }
    }

    fn clear(&mut self)
        ensures
            final(self)@ == worker_cleared(old(self)@),
    {
        self.current_chunk = None;
        if self.stage != WorkerStage::Off {
            self.stage = WorkerStage::Idle;
        }
    }
}

} // verus!

verus! {

/// A fresh split-mode dashboard for `total_stripes` slices, started at `now`.
pub open spec fn initial_split_view(
    total_stripes: usize,
    total_input_size: usize,
    level: u32,
    now: u64,
) -> TuiView {
    let pool = if total_stripes == 0 { 1usize } else { total_stripes };
    TuiView {
        mode: TuiMode::Split,
        stripes: Seq::new(
            total_stripes as nat,
            |i: int|
                StripeProgress {
                    id: i as usize,
                    stage: SplitStage::Waiting,
                    bytes_processed: 0,
                    total_bytes: 0,
                    bytes_written: 0,
                    started_at: None,
                    completed_at: None,
                },
        ),
        workers: Seq::empty(),
        queue_capacity: 0,
        active_workers: pool,
        max_workers: pool,
        ..initial_common_view(total_input_size, level, now)
    }
}

/// A fresh stream-mode dashboard for `num_workers` workers, started at `now`.
pub open spec fn initial_stream_view(
    queue_capacity: usize,
    total_input_size: usize,
    num_workers: usize,
    level: u32,
    now: u64,
) -> TuiView {
    let pool = if num_workers == 0 { 1usize } else { num_workers };
    TuiView {
        mode: TuiMode::Stream,
        stripes: Seq::empty(),
        workers: Seq::new(num_workers as nat, |i: int| fresh_worker(i as usize)),
        queue_capacity,
        active_workers: pool,
        max_workers: pool,
        ..initial_common_view(total_input_size, level, now)
    }
}

/// What both kinds of fresh dashboard share.
pub open spec fn initial_common_view(total_input_size: usize, level: u32, now: u64) -> TuiView {
    TuiView {
        mode: TuiMode::Stream,
        start_time: now,
        is_complete: false,
        final_elapsed: None,
        total_input_size,
        stripes: Seq::empty(),
        split_sector_offset: 0,
        split_final_bytes_written: 0,
        process_cpu: None,
        process_memory_bytes: None,
        previous_cpu_ticks: None,
        bytes_read: 0,
        bytes_written: 0,
        queue_depth: 0,
        queue_capacity: 0,
        io_history: Seq::empty(),
        io_chart_mode: IoChartMode::Rate,
        terminal_cols: 80,
        terminal_rows: 24,
        prev_total_in: 0,
        prev_total_out: 0,
        last_speed_update: now,
        last_io_sample: now,
        input_queue: Seq::empty(),
        workers: Seq::empty(),
        output_buffer: Seq::empty(),
        next_expected_seq: 0,
        level,
        total_chunks_compressed: 0,
        total_compress_nanos: 0,
        focused_widget: FocusedWidget::Unfocused,
        throttle_delay_ms: 0,
        chunk_size: DEFAULT_CHUNK_SIZE,
        active_workers: 1,
        max_workers: 1,
        is_paused: false,
    }
}

impl TuiState {
    fn common(total_input_size: usize, level: u32, now: u64) -> (r: Self)
        ensures
            r@ == initial_common_view(total_input_size, level, now),
    {
        let r = TuiState {
            mode: TuiMode::Stream,
            start_time: now,
            is_complete: false,
            final_elapsed: None,
            total_input_size,
            stripes: Vec::new(),
            split_sector_offset: 0,
            split_final_bytes_written: 0,
            process_cpu: None,
            process_memory_bytes: None,
            previous_cpu_ticks: None,
            bytes_read: 0,
            bytes_written: 0,
            queue_depth: 0,
            queue_capacity: 0,
            io_history: Vec::new(),
            io_chart_mode: IoChartMode::Rate,
            terminal_cols: 80,
            terminal_rows: 24,
            prev_total_in: 0,
            prev_total_out: 0,
            last_speed_update: now,
            last_io_sample: now,
            input_queue: Vec::new(),
            workers: Vec::new(),
            output_buffer: Vec::new(),
            next_expected_seq: 0,
            level,
            total_chunks_compressed: 0,
            total_compress_nanos: 0,
            focused_widget: FocusedWidget::Unfocused,
            throttle_delay_ms: 0,
            chunk_size: DEFAULT_CHUNK_SIZE,
            active_workers: 1,
            max_workers: 1,
            is_paused: false,
        };
        assert(r@ =~= initial_common_view(total_input_size, level, now)) by {
            assert(r@.stripes =~= Seq::<StripeProgress>::empty());
            assert(r@.io_history =~= Seq::<IoSample>::empty());
            assert(r@.input_queue =~= Seq::<u64>::empty());
            assert(r@.output_buffer =~= Seq::<u64>::empty());
            assert(r@.workers =~= Seq::<WorkerView>::empty());
        }
        r
    }

    /// A split-mode dashboard for `total_stripes` slices of a
    /// `total_input_size`-byte input, opened at `now`.
    pub fn new_split(total_stripes: usize, total_input_size: usize, level: u32, now: u64) -> (r: Self)
        ensures
            r@ == initial_split_view(total_stripes, total_input_size, level, now),
    {
        let mut r = Self::common(total_input_size, level, now);
        let mut id: usize = 0;
        while id < total_stripes
            invariant
                id <= total_stripes,
                r.stripes@.len() == id,
                forall|i: int|
                    0 <= i < id ==> #[trigger] r.stripes@[i] == (StripeProgress {
                        id: i as usize,
                        stage: SplitStage::Waiting,
                        bytes_processed: 0,
                        total_bytes: 0,
                        bytes_written: 0,
                        started_at: None,
                        completed_at: None,
                    }),
                r@ == (TuiView { stripes: r@.stripes, ..initial_common_view(total_input_size, level, now) }),
            decreases total_stripes - id,
        {
            r.stripes.push(
                StripeProgress {
                    id,
                    stage: SplitStage::Waiting,
                    bytes_processed: 0,
                    total_bytes: 0,
                    bytes_written: 0,
                    started_at: None,
                    completed_at: None,
                },
            );
            id = id + 1;
        }
        let pool = if total_stripes == 0 { 1 } else { total_stripes };
        r.mode = TuiMode::Split;
        r.active_workers = pool;
        r.max_workers = pool;
        assert(r@.stripes =~= initial_split_view(total_stripes, total_input_size, level, now).stripes);
        r
    }

    /// A stream-mode dashboard with `num_workers` workers and a queue of
    /// `queue_capacity` chunks, opened at `now`.
    pub fn new_stream(
        queue_capacity: usize,
        total_input_size: usize,
        num_workers: usize,
        level: u32,
        now: u64,
    ) -> (r: Self)
        ensures
            r@ == initial_stream_view(queue_capacity, total_input_size, num_workers, level, now),
    {
        let mut r = Self::common(total_input_size, level, now);
        assert(r.workers@.map_values(|w: WorkerState| w@).len() == r.workers@.len());
        let mut id: usize = 0;
        while id < num_workers
            invariant
                id <= num_workers,
                r.workers@.len() == id,
                forall|i: int| 0 <= i < id ==> #[trigger] r.workers@[i]@ == fresh_worker(i as usize),
                r@ == (TuiView { workers: r@.workers, ..initial_common_view(total_input_size, level, now) }),
            decreases num_workers - id,
        {
            r.workers.push(WorkerState::new(id));
            id = id + 1;
        }
        let pool = if num_workers == 0 { 1 } else { num_workers };
        r.queue_capacity = queue_capacity;
        r.active_workers = pool;
        r.max_workers = pool;
        assert(r@.workers =~= initial_stream_view(queue_capacity, total_input_size, num_workers, level, now).workers);
        r
    }

    /// Counts one more compressed chunk that took `nanos`.
    pub fn update_chunk_time(&mut self, nanos: u64)
        requires
            old(self).total_chunks_compressed < u64::MAX,
        ensures
            final(self)@ == chunk_timed(old(self)@, nanos),
    {
        self.total_chunks_compressed = self.total_chunks_compressed + 1;
        self.total_compress_nanos = self.total_compress_nanos.saturating_add(nanos as u128);
    }

    /// Switches the I/O chart between rates and running totals.
    pub fn toggle_io_chart_mode(&mut self)
        ensures
            final(self)@ == (TuiView {
                io_chart_mode: match old(self).io_chart_mode {
                    IoChartMode::Rate => IoChartMode::Cumulative,
                    IoChartMode::Cumulative => IoChartMode::Rate,
                },
                ..old(self)@
            }),
    {
        self.io_chart_mode = match self.io_chart_mode {
            IoChartMode::Rate => IoChartMode::Cumulative,
            IoChartMode::Cumulative => IoChartMode::Rate,
        };
    }

    /// Time since the dashboard opened, frozen once the job completed.
    pub fn elapsed(&self, now: u64) -> (r: u64)
        ensures
            r == match self.final_elapsed {
                Some(e) => e,
                None => sat_sub_u64(now, self.start_time),
            },
    {
        match self.final_elapsed {
            Some(e) => e,
            None => now.saturating_sub(self.start_time),
        }
    }

    /// Records a sample of the process's CPU ticks and resident memory taken
    /// `elapsed` nanoseconds after the previous one (ignored when no time
    /// passed).
    pub fn record_process_sample(&mut self, elapsed: u64, ticks: Option<u64>, memory: Option<usize>)
        ensures
            elapsed == 0 ==> final(self)@ == old(self)@,
            elapsed > 0 ==> final(self)@ == (TuiView {
                process_cpu: match ticks {
                    Some(current) => match old(self).previous_cpu_ticks {
                        Some(previous) => Some((sat_sub_u64(current, previous), elapsed)),
                        None => None,
                    },
                    None => old(self).process_cpu,
                },
                previous_cpu_ticks: match ticks {
                    Some(current) => Some(current),
                    None => old(self).previous_cpu_ticks,
                },
                process_memory_bytes: memory,
                ..old(self)@
            }),
    {
        if elapsed == 0 {
            return;
        }
        if let Some(current) = ticks {
            self.process_cpu = match self.previous_cpu_ticks {
                Some(previous) => Some((current.saturating_sub(previous), elapsed)),
                None => None,
            };
            self.previous_cpu_ticks = Some(current);
        }
        self.process_memory_bytes = memory;
    }

    /// Totals over all slices.
    pub fn split_aggregate(&self) -> (r: SplitAggregate)
        ensures
            r == aggregate_of(self.stripes@),
    {
        let mut a = SplitAggregate {
            input_processed: 0,
            input_total: 0,
            output_produced: 0,
            completed_input: 0,
            completed_output: 0,
            active_sectors: 0,
            completed_sectors: 0,
        };
        let mut i: usize = 0;
        while i < self.stripes.len()
            invariant
                i <= self.stripes.len(),
                a == aggregate_of(self.stripes@.take(i as int)),
                a.active_sectors + a.completed_sectors <= i,
            decreases self.stripes.len() - i,
        {
            let stripe = self.stripes[i];
            assert(self.stripes@.take(i + 1).drop_last() =~= self.stripes@.take(i as int));
            let processed = if stripe.bytes_processed <= stripe.total_bytes {
                stripe.bytes_processed
            } else {
                stripe.total_bytes
            };
            a.input_processed = a.input_processed.saturating_add(processed);
            a.input_total = a.input_total.saturating_add(stripe.total_bytes);
            a.output_produced = a.output_produced.saturating_add(stripe.bytes_written);
            match stripe.stage {
                SplitStage::Waiting => {},
                SplitStage::Running => {
                    a.active_sectors = a.active_sectors + 1;
                },
                SplitStage::Done => {
                    a.completed_sectors = a.completed_sectors + 1;
                    a.completed_input = a.completed_input.saturating_add(stripe.total_bytes);
                    a.completed_output = a.completed_output.saturating_add(stripe.bytes_written);
                },
            }
            i = i + 1;
        }
        assert(self.stripes@.take(self.stripes@.len() as int) =~= self.stripes@);
        a
    }
}

} // verus!

verus! {

impl TuiState {
    /// Appends an I/O sample covering `elapsed` nanoseconds (nothing when no
    /// time passed).
    pub fn sample_io(&mut self, elapsed: u64)
        ensures
            final(self)@ == sampled(old(self)@, elapsed),
    {
        if elapsed == 0 {
            return;
        }
        let (input_total, output_total) = match self.mode {
            TuiMode::Split => {
                let a = self.split_aggregate();
                (a.input_processed, a.output_produced.saturating_add(self.split_final_bytes_written))
            },
            TuiMode::Stream => (self.bytes_read, self.bytes_written),
        };
        let sample = IoSample {
            input_delta: input_total.saturating_sub(self.prev_total_in),
            output_delta: output_total.saturating_sub(self.prev_total_out),
            elapsed_nanos: elapsed,
            input_total,
            output_total,
        };
        self.io_history.push(sample);
        self.prev_total_in = input_total;
        self.prev_total_out = output_total;
        let cols = self.terminal_cols as usize;
        let capacity: usize = if cols < 80 {
            80
        } else if cols > 512 {
            512
        } else {
            cols
        };
        if self.io_history.len() > capacity {
            let ghost grown = self.io_history@;
            let start = self.io_history.len() - capacity;
            let mut kept: Vec<IoSample> = Vec::new();
            let mut j = start;
            while j < self.io_history.len()
                invariant
                    self.io_history@ == grown,
                    start <= j <= grown.len(),
                    kept@ == grown.subrange(start as int, j as int),
                decreases grown.len() - j,
            {
                kept.push(self.io_history[j]);
                j = j + 1;
            }
            assert(kept@ =~= grown.skip(start as int));
            self.io_history = kept;
        }
    }

    /// Takes an I/O sample when a full bucket interval has passed since the
    /// last one, and says whether it did.
    pub fn sample_io_bucket(&mut self, now: u64) -> (r: bool)
        ensures
            final(self)@ == bucket_sampled(old(self)@, now),
            r == (sat_sub_u64(now, old(self).last_io_sample) >= IO_BUCKET_INTERVAL_NANOS),
    {
        let elapsed = now.saturating_sub(self.last_io_sample);
        if elapsed < IO_BUCKET_INTERVAL_NANOS {
            return false;
        }
        self.sample_io(elapsed);
        self.last_io_sample = now;
        true
    }

    /// Forgets every queued, pending and held chunk.
    fn clear_transient_pipeline_state(&mut self)
        ensures
            final(self)@ == cleared(old(self)@),
    {
        let ghost before = self.workers@;
        self.input_queue = Vec::new();
        self.output_buffer = Vec::new();
        self.queue_depth = 0;
        assert(self.input_queue@ =~= Seq::<u64>::empty());
        assert(self.output_buffer@ =~= Seq::<u64>::empty());
        let ghost emptied = self@;
        let mut i: usize = 0;
        while i < self.workers.len()
            invariant
                self@ == (TuiView { workers: self@.workers, ..emptied }),
                self.workers@.len() == before.len(),
                i <= before.len(),
                forall|j: int| 0 <= j < i ==> #[trigger] self.workers@[j]@ == worker_cleared(before[j]@),
                forall|j: int| i <= j < before.len() ==> #[trigger] self.workers@[j] == before[j],
            decreases before.len() - i,
        {
            self.workers[i].clear();
            i = i + 1;
        }
        assert(self.workers@.map_values(|w: WorkerState| w@) =~= before.map_values(
            |w: WorkerState| w@,
        ).map_values(|w: WorkerView| worker_cleared(w)));
    }
}

} // verus!

verus! {

impl TuiState {
    fn on_split_progress(
        &mut self,
        stripe_id: usize,
        stage: SplitStage,
        bytes_processed: usize,
        bytes_written: usize,
        total_bytes: usize,
        now: u64,
    )
        ensures
            final(self)@ == reduce(
                old(self)@,
                ProgressEvent::SplitProgress {
                    stripe_id,
                    stage,
                    bytes_processed,
                    bytes_written,
                    total_bytes,
                },
                now,
            ),
    {
        if stripe_id < self.stripes.len() {
            let mut stripe = self.stripes[stripe_id];
            stripe.stage = stage;
            if stage == SplitStage::Running && stripe.started_at.is_none() {
                stripe.started_at = Some(now);
            }
            if stage == SplitStage::Done && stripe.completed_at.is_none() {
                stripe.completed_at = Some(now);
            }
            stripe.bytes_processed = if bytes_processed <= total_bytes {
                bytes_processed
            } else {
                total_bytes
            };
            if bytes_written > stripe.bytes_written {
                stripe.bytes_written = bytes_written;
            }
            stripe.total_bytes = total_bytes;
            self.stripes.set(stripe_id, stripe);
        }
    }

    fn on_worker_status(
        &mut self,
        worker_id: usize,
        stage: WorkerStage,
        current_chunk: Option<u64>,
        now: u64,
    )
        ensures
            final(self)@ == reduce(
                old(self)@,
                ProgressEvent::WorkerStatus { worker_id, stage, current_chunk },
                now,
            ),
    {
        let ghost before = self.workers@;
        if worker_id < self.workers.len() {
            self.workers[worker_id].stage = stage;
            self.workers[worker_id].current_chunk = current_chunk;
            assert(self.workers@.map_values(|w: WorkerState| w@) =~= before.map_values(
                |w: WorkerState| w@,
            ).update(
                worker_id as int,
                WorkerView { stage, current_chunk, ..before[worker_id as int]@ },
            ));
        }
    }

    fn on_chunk_progress(
        &mut self,
        worker_id: usize,
        seq_num: u64,
        bytes_processed: usize,
        bytes_written: usize,
        total_bytes: usize,
        finalized: bool,
        now: u64,
    )
        ensures
            final(self)@ == reduce(
                old(self)@,
                ProgressEvent::WorkerChunkProgress {
                    worker_id,
                    seq_num,
                    bytes_processed,
                    bytes_written,
                    total_bytes,
                    finalized,
                },
                now,
            ),
    {
        let ghost before = self.workers@;
        if worker_id < self.workers.len() {
            self.workers[worker_id].apply_chunk_progress(
                seq_num,
                bytes_processed,
                bytes_written,
                total_bytes,
                finalized,
                now,
            );
            assert(self.workers@.map_values(|w: WorkerState| w@) =~= before.map_values(
                |w: WorkerState| w@,
            ).update(
                worker_id as int,
                worker_after_chunk_progress(
                    before[worker_id as int]@,
                    seq_num,
                    bytes_processed,
                    bytes_written,
                    total_bytes,
                    finalized,
                    now,
                ),
            ));
        }
    }

    fn on_chunk_assigned(&mut self, worker_id: usize, seq_num: u64, now: u64)
        ensures
            final(self)@ == reduce(old(self)@, ProgressEvent::ChunkAssigned { worker_id, seq_num }, now),
    {
        let ghost before = self.workers@;
        remove_all(&mut self.input_queue, seq_num);
        if worker_id < self.workers.len() {
            self.workers[worker_id].apply_assignment(seq_num, now);
            assert(self.workers@.map_values(|w: WorkerState| w@) =~= before.map_values(
                |w: WorkerState| w@,
            ).update(worker_id as int, worker_after_assignment(before[worker_id as int]@, seq_num, now)));
        }
    }

    fn on_chunk_pending(&mut self, worker_id: usize, seq_num: u64, now: u64)
        ensures
            final(self)@ == reduce(old(self)@, ProgressEvent::ChunkPending { worker_id, seq_num }, now),
    {
        let ghost before = self.workers@;
        if worker_id < self.workers.len() {
            self.workers[worker_id].apply_pending(seq_num);
            assert(self.workers@.map_values(|w: WorkerState| w@) =~= before.map_values(
                |w: WorkerState| w@,
            ).update(worker_id as int, worker_after_pending(before[worker_id as int]@, seq_num)));
        }
        insert_sorted(&mut self.output_buffer, seq_num);
    }

    fn on_availability(&mut self, worker_id: usize, enabled: bool, now: u64)
        ensures
            final(self)@ == reduce(
                old(self)@,
                ProgressEvent::WorkerAvailability { worker_id, enabled },
                now,
            ),
    {
        let ghost before = self.workers@;
        if worker_id < self.workers.len() {
            self.workers[worker_id].apply_availability(enabled);
            assert(self.workers@.map_values(|w: WorkerState| w@) =~= before.map_values(
                |w: WorkerState| w@,
            ).update(worker_id as int, worker_after_availability(before[worker_id as int]@, enabled)));
        }
    }

    fn on_complete(&mut self, now: u64) -> (r: Option<u64>)
        ensures
            final(self)@ == completed(old(self)@, now),
            r == metrics_request(old(self)@, ProgressEvent::Complete, now),
    {
        let system_elapsed = now.saturating_sub(self.last_speed_update);
        if system_elapsed > 0 {
            self.last_speed_update = now;
        }
        self.sample_io_bucket(now);
        self.is_complete = true;
        self.final_elapsed = Some(now.saturating_sub(self.start_time));
        self.clear_transient_pipeline_state();
        if system_elapsed > 0 {
            Some(system_elapsed)
        } else {
            None
        }
    }

    /// Folds one progress event, arriving at `now`, into the dashboard.
    /// After the completion event it returns the time since the process
    /// metrics were last sampled, for the caller to sample them once more.
    pub fn apply_progress_event(&mut self, event: ProgressEvent, now: u64) -> (r: Option<u64>)
        requires
            event_fits(old(self)@, event),
        ensures
            final(self)@ == reduce(old(self)@, event, now),
            r == metrics_request(old(self)@, event, now),
    {
        match event {
            ProgressEvent::SplitProgress {
                stripe_id,
                stage,
                bytes_processed,
                bytes_written,
                total_bytes,
            } => {
                self.on_split_progress(
                    stripe_id,
                    stage,
                    bytes_processed,
                    bytes_written,
                    total_bytes,
                    now,
                );
                None
            },
            ProgressEvent::SplitFinalWrite { bytes_written } => {
                if bytes_written > self.split_final_bytes_written {
                    self.split_final_bytes_written = bytes_written;
                }
                None
            },
            ProgressEvent::StreamProgress { bytes_read, bytes_written, queue_depth } => {
                self.bytes_read = bytes_read;
                self.bytes_written = bytes_written;
                self.queue_depth = queue_depth;
                None
            },
            ProgressEvent::WorkerStatus { worker_id, stage, current_chunk } => {
                self.on_worker_status(worker_id, stage, current_chunk, now);
                None
            },
            ProgressEvent::WorkerChunkProgress {
                worker_id,
                seq_num,
                bytes_processed,
                bytes_written,
                total_bytes,
                finalized,
            } => {
                self.on_chunk_progress(
                    worker_id,
                    seq_num,
                    bytes_processed,
                    bytes_written,
                    total_bytes,
                    finalized,
                    now,
                );
                None
            },
            ProgressEvent::ChunkQueued { seq_num, bytes: _ } => {
                add_once(&mut self.input_queue, seq_num);
                None
            },
            ProgressEvent::ChunkAssigned { worker_id, seq_num } => {
                self.on_chunk_assigned(worker_id, seq_num, now);
                None
            },
            ProgressEvent::ChunkPending { worker_id, seq_num } => {
                self.on_chunk_pending(worker_id, seq_num, now);
                None
            },
            ProgressEvent::ChunkWritten { seq_num } => {
                remove_all(&mut self.output_buffer, seq_num);
                if seq_num + 1 > self.next_expected_seq {
                    self.next_expected_seq = seq_num + 1;
                }
                None
            },
            ProgressEvent::WorkerAvailability { worker_id, enabled } => {
                self.on_availability(worker_id, enabled, now);
                None
            },
            ProgressEvent::AvgCompressionTime(nanos) => {
                self.update_chunk_time(nanos);
                None
            },
            ProgressEvent::Error(_) => {
                self.clear_transient_pipeline_state();
                None
            },
            ProgressEvent::Complete => self.on_complete(now),
        }
    }
}

} // verus!

verus! {

proof fn lemma_filter_members<A>(q: Seq<A>, p: spec_fn(A) -> bool)
    ensures
        forall|i: int| 0 <= i < q.filter(p).len() ==> q.contains(#[trigger] q.filter(p)[i]),
    decreases q.len(),
{
    reveal_with_fuel(Seq::filter, 1);
    if q.len() > 0 {
        let rest = q.drop_last();
        lemma_filter_members(rest, p);
        assert forall|i: int| 0 <= i < q.filter(p).len() implies q.contains(#[trigger] q.filter(p)[i]) by {
            if i < rest.filter(p).len() {
                let e = rest.filter(p)[i];
                assert(rest.contains(e));
                let k = choose|k: int| 0 <= k < rest.len() && rest[k] == e;
                assert(q[k] == e);
            } else {
                assert(q.filter(p)[i] == q.last());
                assert(q[q.len() - 1] == q.last());
            }
        }
    }
}

proof fn lemma_filter_keeps_no_duplicates<A>(q: Seq<A>, p: spec_fn(A) -> bool)
    requires
        q.no_duplicates(),
    ensures
        q.filter(p).no_duplicates(),
    decreases q.len(),
{
    reveal_with_fuel(Seq::filter, 1);
    if q.len() > 0 {
        let rest = q.drop_last();
        assert(rest.no_duplicates());
        lemma_filter_keeps_no_duplicates(rest, p);
        lemma_filter_members(rest, p);
        if p(q.last()) {
            assert forall|i: int| 0 <= i < rest.filter(p).len() implies rest.filter(p)[i] != q.last() by {
                let e = rest.filter(p)[i];
                assert(rest.contains(e));
                let k = choose|k: int| 0 <= k < rest.len() && rest[k] == e;
                assert(q[k] == e && q[q.len() - 1] == q.last());
            }
        }
    }
}

proof fn lemma_filter_keeps_ascending(q: Seq<u64>, p: spec_fn(u64) -> bool)
    requires
        strictly_ascending(q),
    ensures
        strictly_ascending(q.filter(p)),
    decreases q.len(),
{
    reveal_with_fuel(Seq::filter, 1);
    if q.len() > 0 {
        let rest = q.drop_last();
        lemma_filter_keeps_ascending(rest, p);
        lemma_filter_members(rest, p);
        if p(q.last()) {
            assert forall|i: int| 0 <= i < rest.filter(p).len() implies rest.filter(p)[i] < q.last() by {
                let e = rest.filter(p)[i];
                assert(rest.contains(e));
                let k = choose|k: int| 0 <= k < rest.len() && rest[k] == e;
                assert(q[k] == e && q[q.len() - 1] == q.last());
            }
        }
    }
}

proof fn lemma_count_below_splits(q: Seq<u64>, x: u64)
    requires
        strictly_ascending(q),
    ensures
        count_below(q, x) <= q.len(),
        forall|i: int| 0 <= i < count_below(q, x) ==> q[i] < x,
        forall|i: int| count_below(q, x) <= i < q.len() ==> q[i] >= x,
    decreases q.len(),
{
    reveal_with_fuel(Seq::filter, 1);
    if q.len() > 0 {
        let rest = q.drop_last();
        lemma_count_below_splits(rest, x);
        let k = count_below(rest, x);
        let y = q.last();
        assert(q == rest.push(y));
        assert(q.filter(smaller_than(x)) == if y < x {
            rest.filter(smaller_than(x)).push(y)
        } else {
            rest.filter(smaller_than(x))
        });
        if y < x {
            if k < rest.len() {
                assert(rest[k as int] >= x);
                assert(q[k as int] < q[q.len() - 1]);
            }
            assert(count_below(q, x) == q.len());
            assert forall|i: int| 0 <= i < count_below(q, x) implies q[i] < x by {
                if i < q.len() - 1 {
                    assert(q[i] < q[q.len() - 1]);
                }
            }
        } else {
            assert(count_below(q, x) == k);
            assert forall|i: int| count_below(q, x) <= i < q.len() implies q[i] >= x by {
                if i < q.len() - 1 {
                    assert(q[i] == rest[i]);
                }
            }
            assert forall|i: int| 0 <= i < count_below(q, x) implies q[i] < x by {
                assert(q[i] == rest[i]);
            }
        }
    }
}

/// Adding a chunk to the pending buffer keeps it strictly ascending.
proof fn lemma_sorted_with_ascends(q: Seq<u64>, x: u64)
    requires
        strictly_ascending(q),
    ensures
        strictly_ascending(sorted_with(q, x)),
{
    if !q.contains(x) {
        lemma_count_below_splits(q, x);
        let k = count_below(q, x) as int;
        let r = q.insert(k, x);
        assert forall|i: int, j: int| 0 <= i < j < r.len() implies r[i] < r[j] by {
            if j < k {
            } else if j == k {
            } else if i < k {
                assert(q[j - 1] >= x);
                assert(q[j - 1] != x) by {
                    assert(q[j - 1] == q[j - 1]);
                    if q[j - 1] == x {
                        assert(q.contains(x));
                    }
                }
            } else if i == k {
                assert(q[j - 1] >= x);
                if q[j - 1] == x {
                    assert(q.contains(x));
                }
            } else {
            }
        }
    }
}

proof fn lemma_progress_within_window(
    w: WorkerView,
    seq_num: u64,
    bytes_processed: usize,
    bytes_written: usize,
    total_bytes: usize,
    finalized: bool,
    now: u64,
)
    requires
        within_window(w),
    ensures
        within_window(
            worker_after_chunk_progress(
                w,
                seq_num,
                bytes_processed,
                bytes_written,
                total_bytes,
                finalized,
                now,
            ),
        ),
{
    let updated = WorkerView {
        display_chunk: Some(seq_num),
        bytes_processed: min_usize(bytes_processed, total_bytes),
        total_bytes,
        bytes_written: max_usize(w.bytes_written, bytes_written),
        started_at: if w.started_at is None { Some(now) } else { w.started_at },
        ..w
    };
    let done = WorkerView { completed_at: Some(now), ..updated };
    lemma_window_keeps_latest(done.ratio_history, (done.bytes_processed, done.bytes_written));
    lemma_window_keeps_latest(done.input_rate_history, (done.bytes_processed, assignment_nanos(done, now)));
}

proof fn lemma_update_within_window(
    workers: Seq<WorkerView>,
    id: usize,
    f: spec_fn(WorkerView) -> WorkerView,
)
    requires
        forall|i: int| 0 <= i < workers.len() ==> within_window(#[trigger] workers[i]),
        id < workers.len() ==> within_window(f(workers[id as int])),
    ensures
        forall|i: int|
            0 <= i < update_worker(workers, id, f).len() ==> within_window(
                #[trigger] update_worker(workers, id, f)[i],
            ),
{
}

/// The reducer keeps the dashboard consistent: no chunk is queued twice, the
/// chunks waiting to be written stay in ascending order without repeats,
/// and no worker's history grows beyond the averaging window.
pub proof fn lemma_reduce_keeps_well_formed(s: TuiView, event: ProgressEvent, now: u64)
    requires
        well_formed(s),
    ensures
        well_formed(reduce(s, event, now)),
{
    match event {
        ProgressEvent::ChunkQueued { seq_num, bytes: _ } => {
            assert(queue_with(s.input_queue, seq_num).no_duplicates());
        },
        ProgressEvent::ChunkAssigned { worker_id, seq_num } => {
            lemma_filter_keeps_no_duplicates(s.input_queue, other_than(seq_num));
            lemma_update_within_window(
                s.workers,
                worker_id,
                |w: WorkerView| worker_after_assignment(w, seq_num, now),
            );
        },
        ProgressEvent::ChunkPending { worker_id, seq_num } => {
            lemma_sorted_with_ascends(s.output_buffer, seq_num);
            lemma_update_within_window(
                s.workers,
                worker_id,
                |w: WorkerView| worker_after_pending(w, seq_num),
            );
        },
        ProgressEvent::WorkerStatus { worker_id, stage, current_chunk } => {
            lemma_update_within_window(
                s.workers,
                worker_id,
                |w: WorkerView| WorkerView { stage, current_chunk, ..w },
            );
        },
        ProgressEvent::WorkerAvailability { worker_id, enabled } => {
            lemma_update_within_window(
                s.workers,
                worker_id,
                |w: WorkerView| worker_after_availability(w, enabled),
            );
        },
        ProgressEvent::WorkerChunkProgress {
            worker_id,
            seq_num,
            bytes_processed,
            bytes_written,
            total_bytes,
            finalized,
        } => {
            if worker_id < s.workers.len() {
                lemma_progress_within_window(
                    s.workers[worker_id as int],
                    seq_num,
                    bytes_processed,
                    bytes_written,
                    total_bytes,
                    finalized,
                    now,
                );
            }
            lemma_update_within_window(
                s.workers,
                worker_id,
                |w: WorkerView|
                    worker_after_chunk_progress(
                        w,
                        seq_num,
                        bytes_processed,
                        bytes_written,
                        total_bytes,
                        finalized,
                        now,
                    ),
            );
        },
        ProgressEvent::ChunkWritten { seq_num } => {
            lemma_filter_keeps_ascending(s.output_buffer, other_than(seq_num));
        },
        ProgressEvent::Error(_) => {
            assert(cleared(s).input_queue.no_duplicates());
        },
        ProgressEvent::Complete => {
            assert(reduce(s, event, now).input_queue =~= Seq::<u64>::empty());
        },
        _ => {},
    }
}

/// A fresh dashboard is well formed.
pub proof fn lemma_initial_well_formed(
    queue_capacity: usize,
    total_input_size: usize,
    count: usize,
    level: u32,
    now: u64,
)
    ensures
        well_formed(initial_split_view(count, total_input_size, level, now)),
        well_formed(initial_stream_view(queue_capacity, total_input_size, count, level, now)),
{
    assert(Seq::<u64>::empty().no_duplicates());
}

/// The stages of a chunk exclude each other: once assigned it has left the
/// input queue; once pending it is in the ascending buffer; once written it
/// has left that buffer and the writer expects a later chunk.
pub proof fn lemma_chunk_lifecycle(s: TuiView, worker_id: usize, seq_num: u64, now: u64)
    requires
        well_formed(s),
        seq_num < u64::MAX,
    ensures
        !reduce(s, ProgressEvent::ChunkAssigned { worker_id, seq_num }, now).input_queue.contains(
            seq_num,
        ),
        reduce(s, ProgressEvent::ChunkPending { worker_id, seq_num }, now).output_buffer.contains(
            seq_num,
        ),
        !reduce(s, ProgressEvent::ChunkWritten { seq_num }, now).output_buffer.contains(seq_num),
        reduce(s, ProgressEvent::ChunkWritten { seq_num }, now).next_expected_seq > seq_num,
{
    let assigned = reduce(s, ProgressEvent::ChunkAssigned { worker_id, seq_num }, now).input_queue;
    if assigned.contains(seq_num) {
        let i = choose|i: int| 0 <= i < assigned.len() && assigned[i] == seq_num;
        assert(s.input_queue.filter(other_than(seq_num)).contains(seq_num));
        s.input_queue.lemma_filter_pred(other_than(seq_num), i);
    }
    let pending = sorted_with(s.output_buffer, seq_num);
    if !s.output_buffer.contains(seq_num) {
        lemma_count_below_splits(s.output_buffer, seq_num);
        assert(pending[count_below(s.output_buffer, seq_num) as int] == seq_num);
    }
    let written = queue_without(s.output_buffer, seq_num);
    if written.contains(seq_num) {
        let i = choose|i: int| 0 <= i < written.len() && written[i] == seq_num;
        s.output_buffer.lemma_filter_pred(other_than(seq_num), i);
    }
}

/// A worker's averages look back over at most `WORKER_AVERAGE_WINDOW`
/// finished chunks: adding one keeps the history within the window, puts
/// the new entry last, and drops only the oldest.
pub proof fn lemma_window_keeps_latest<T>(history: Seq<T>, x: T)
    requires
        history.len() <= WORKER_AVERAGE_WINDOW,
    ensures
        window_push(history, x).len() <= WORKER_AVERAGE_WINDOW,
        window_push(history, x).last() == x,
        window_push(history, x).drop_last() == (if history.len() < WORKER_AVERAGE_WINDOW {
            history
        } else {
            history.drop_first()
        }),
{
    assert(history.push(x).drop_last() =~= history);
    assert(history.drop_first().push(x).drop_last() =~= history.drop_first());
}

/// The I/O history gets at most one sample per bucket interval: before a
/// full interval has passed since the last sample nothing changes; once it
/// has, one sample covering the whole time since is taken and the time of
/// the last sample becomes now.
pub proof fn lemma_bucket_samples_once_per_interval(s: TuiView, now: u64)
    ensures
        ({
            let elapsed = sat_sub_u64(now, s.last_io_sample);
            let t = bucket_sampled(s, now);
            &&& elapsed < IO_BUCKET_INTERVAL_NANOS ==> t == s
            &&& elapsed >= IO_BUCKET_INTERVAL_NANOS ==> t.last_io_sample == now
                && t.io_history.len() > 0 && t.io_history.last().elapsed_nanos == elapsed
                && t.io_history == sampled(s, elapsed).io_history
        }),
{
    let elapsed = sat_sub_u64(now, s.last_io_sample);
    if elapsed >= IO_BUCKET_INTERVAL_NANOS {
        lemma_sample_keeps_newest(s, elapsed);
    }
}

/// A stream progress report lands field by field: the bytes read, the bytes
/// written and the queue depth shown are the ones reported, and nothing
/// else on the dashboard changes.
pub proof fn lemma_stream_progress_sets_counters(
    s: TuiView,
    bytes_read: usize,
    bytes_written: usize,
    queue_depth: usize,
    now: u64,
)
    ensures
        ({
            let t = reduce(
                s,
                ProgressEvent::StreamProgress { bytes_read, bytes_written, queue_depth },
                now,
            );
            &&& t.bytes_read == bytes_read
            &&& t.bytes_written == bytes_written
            &&& t.queue_depth == queue_depth
            &&& (TuiView {
                bytes_read: s.bytes_read,
                bytes_written: s.bytes_written,
                queue_depth: s.queue_depth,
                ..t
            }) == s
        }),
{
}

/// A worker event changes only its own worker, and only when that worker
/// exists: a status report sets its stage and chunk; switching it on makes
/// it idle and keeps its chunk, switching it off sets it off and drops its
/// chunk; an assignment makes it busy on the new chunk from a fresh start
/// and takes that chunk, and only that one, off the input queue; a chunk
/// handed to the writer leaves the worker idle only if it was the chunk the
/// worker held.
pub proof fn lemma_worker_events_touch_only_their_worker(
    s: TuiView,
    worker_id: usize,
    seq_num: u64,
    stage: WorkerStage,
    current_chunk: Option<u64>,
    enabled: bool,
    now: u64,
)
    ensures
        ({
            let status = reduce(s, ProgressEvent::WorkerStatus { worker_id, stage, current_chunk }, now);
            let on_off = reduce(s, ProgressEvent::WorkerAvailability { worker_id, enabled }, now);
            let assigned = reduce(s, ProgressEvent::ChunkAssigned { worker_id, seq_num }, now);
            let pending = reduce(s, ProgressEvent::ChunkPending { worker_id, seq_num }, now);
            let n = s.workers.len();
            &&& status.workers.len() == n && on_off.workers.len() == n
            &&& assigned.workers.len() == n && pending.workers.len() == n
            &&& forall|j: int|
                0 <= j < n && j != worker_id ==> #[trigger] status.workers[j] == s.workers[j]
                    && on_off.workers[j] == s.workers[j] && assigned.workers[j] == s.workers[j]
                    && pending.workers[j] == s.workers[j]
            &&& (TuiView { workers: s.workers, ..status }) == s
            &&& (TuiView { workers: s.workers, ..on_off }) == s
            &&& worker_id >= n ==> status == s && on_off == s && assigned.workers == s.workers
                && pending.workers == s.workers
            &&& worker_id < n ==> ({
                let w = s.workers[worker_id as int];
                &&& status.workers[worker_id as int] == (WorkerView {
                    stage,
                    current_chunk,
                    ..w
                })
                &&& enabled ==> on_off.workers[worker_id as int] == (WorkerView {
                    stage: WorkerStage::Idle,
                    ..w
                })
                &&& !enabled ==> on_off.workers[worker_id as int] == (WorkerView {
                    stage: WorkerStage::Off,
                    current_chunk: None,
                    ..w
                })
                &&& assigned.workers[worker_id as int].stage == WorkerStage::Busy
                &&& assigned.workers[worker_id as int].current_chunk == Some(seq_num)
                &&& assigned.workers[worker_id as int].display_chunk == Some(seq_num)
                &&& assigned.workers[worker_id as int].bytes_processed == 0
                &&& assigned.workers[worker_id as int].bytes_written == 0
                &&& assigned.workers[worker_id as int].started_at == Some(now)
                &&& assigned.workers[worker_id as int].completed_at is None
                &&& w.current_chunk == Some(seq_num) ==> pending.workers[worker_id as int] == (
                WorkerView { stage: WorkerStage::Idle, current_chunk: None, ..w })
                &&& w.current_chunk != Some(seq_num) ==> pending.workers[worker_id as int] == w
            })
            &&& forall|x: u64|
                x != seq_num ==> (#[trigger] assigned.input_queue.contains(x)
                    <==> s.input_queue.contains(x))
            &&& !assigned.input_queue.contains(seq_num)
        }),
{
    lemma_queue_without_members(s.input_queue, seq_num);
}

/// Queue events: a queued chunk is in the input queue afterwards and no
/// other chunk joins or leaves it; a written chunk leaves the pending
/// buffer, no other does, and the writer then expects at least the chunk
/// after it, never an earlier chunk than before; the bytes copied to the
/// final file of a split job never go back.
pub proof fn lemma_queue_events_keep_the_rest(s: TuiView, seq_num: u64, bytes: usize, now: u64)
    requires
        seq_num < u64::MAX,
    ensures
        ({
            let queued = reduce(s, ProgressEvent::ChunkQueued { seq_num, bytes }, now);
            let written = reduce(s, ProgressEvent::ChunkWritten { seq_num }, now);
            let copied = reduce(s, ProgressEvent::SplitFinalWrite { bytes_written: bytes }, now);
            &&& forall|x: u64|
                #[trigger] queued.input_queue.contains(x) <==> s.input_queue.contains(x) || x
                    == seq_num
            &&& forall|x: u64|
                #[trigger] written.output_buffer.contains(x) <==> s.output_buffer.contains(x) && x
                    != seq_num
            &&& written.next_expected_seq >= s.next_expected_seq
            &&& written.next_expected_seq >= seq_num + 1
            &&& (written.next_expected_seq == s.next_expected_seq || written.next_expected_seq
                == seq_num + 1)
            &&& copied.split_final_bytes_written >= s.split_final_bytes_written
            &&& copied.split_final_bytes_written >= bytes
            &&& (copied.split_final_bytes_written == s.split_final_bytes_written
                || copied.split_final_bytes_written == bytes)
        }),
{
    let written = reduce(s, ProgressEvent::ChunkWritten { seq_num }, now);
    lemma_queue_without_members(s.output_buffer, seq_num);
    let queued = reduce(s, ProgressEvent::ChunkQueued { seq_num, bytes }, now);
    assert forall|x: u64| #[trigger] queued.input_queue.contains(x) <==> s.input_queue.contains(x)
        || x == seq_num by {
        if !s.input_queue.contains(seq_num) {
            let grown = s.input_queue.push(seq_num);
            assert(grown[grown.len() - 1] == seq_num);
            if s.input_queue.contains(x) {
                let i = choose|i: int| 0 <= i < s.input_queue.len() && s.input_queue[i] == x;
                assert(grown[i] == x);
            }
            if grown.contains(x) && x != seq_num {
                let i = choose|i: int| 0 <= i < grown.len() && grown[i] == x;
                assert(s.input_queue[i] == x);
            }
        }
    }
    let copied = reduce(s, ProgressEvent::SplitFinalWrite { bytes_written: bytes }, now);
    assert(written.next_expected_seq >= s.next_expected_seq);
    assert(copied.split_final_bytes_written >= s.split_final_bytes_written);
}

/// An error or the completion stops the pipeline on the dashboard: no chunk
/// is queued, pending or held by a worker, the queue depth is zero, and the
/// workers that were switched off stay off while the others go idle. The
/// completion also marks the job complete with the time since it started.
pub proof fn lemma_stop_events_clear_pipeline(s: TuiView, message: crate::compressor::ZipError, now: u64)
    ensures
        ({
            let failed = reduce(s, ProgressEvent::Error(message), now);
            let done = reduce(s, ProgressEvent::Complete, now);
            &&& failed.input_queue.len() == 0 && failed.output_buffer.len() == 0
            &&& done.input_queue.len() == 0 && done.output_buffer.len() == 0
            &&& failed.queue_depth == 0 && done.queue_depth == 0
            &&& failed.workers.len() == s.workers.len() && done.workers.len() == s.workers.len()
            &&& forall|j: int|
                0 <= j < s.workers.len() ==> (#[trigger] failed.workers[j]).current_chunk is None
                    && done.workers[j].current_chunk is None && (failed.workers[j].stage
                    == WorkerStage::Off <==> s.workers[j].stage == WorkerStage::Off) && (
                done.workers[j].stage == WorkerStage::Off <==> s.workers[j].stage
                    == WorkerStage::Off) && (s.workers[j].stage != WorkerStage::Off
                    ==> failed.workers[j].stage == WorkerStage::Idle && done.workers[j].stage
                    == WorkerStage::Idle)
            &&& done.is_complete
            &&& done.final_elapsed == Some(sat_sub_u64(now, s.start_time))
        }),
{
}

/// Progress reports only move forward: a slice report sets the slice's
/// stage and size, counts at most its size as processed, never lowers the
/// bytes written, stamps the start when the slice first runs and the end
/// when it is first done, and keeps both stamps once set; it touches no
/// other slice and nothing else. A chunk report does the same for its
/// worker's chunk, which the worker card then shows.
pub proof fn lemma_progress_reports_move_forward(
    s: TuiView,
    id: usize,
    stage: SplitStage,
    seq_num: u64,
    bytes_processed: usize,
    bytes_written: usize,
    total_bytes: usize,
    finalized: bool,
    now: u64,
)
    ensures
        ({
            let t = reduce(
                s,
                ProgressEvent::SplitProgress {
                    stripe_id: id,
                    stage,
                    bytes_processed,
                    bytes_written,
                    total_bytes,
                },
                now,
            );
            &&& (TuiView { stripes: s.stripes, ..t }) == s
            &&& t.stripes.len() == s.stripes.len()
            &&& forall|j: int| 0 <= j < s.stripes.len() && j != id ==> #[trigger] t.stripes[j] == s.stripes[j]
            &&& id < s.stripes.len() ==> ({
                let old = s.stripes[id as int];
                let new = t.stripes[id as int];
                &&& new.id == old.id && new.stage == stage && new.total_bytes == total_bytes
                &&& new.bytes_processed == (if bytes_processed <= total_bytes {
                    bytes_processed
                } else {
                    total_bytes
                })
                &&& new.bytes_written >= old.bytes_written && new.bytes_written >= bytes_written
                &&& (new.bytes_written == old.bytes_written || new.bytes_written == bytes_written)
                &&& old.started_at is Some ==> new.started_at == old.started_at
                &&& old.started_at is None ==> new.started_at == (if stage == SplitStage::Running {
                    Some(now)
                } else {
                    None::<u64>
                })
                &&& old.completed_at is Some ==> new.completed_at == old.completed_at
                &&& old.completed_at is None ==> new.completed_at == (if stage == SplitStage::Done {
                    Some(now)
                } else {
                    None::<u64>
                })
            })
        }),
        ({
            let t = reduce(
                s,
                ProgressEvent::WorkerChunkProgress {
                    worker_id: id,
                    seq_num,
                    bytes_processed,
                    bytes_written,
                    total_bytes,
                    finalized,
                },
                now,
            );
            &&& (TuiView { workers: s.workers, ..t }) == s
            &&& t.workers.len() == s.workers.len()
            &&& forall|j: int| 0 <= j < s.workers.len() && j != id ==> #[trigger] t.workers[j] == s.workers[j]
            &&& id < s.workers.len() ==> ({
                let old = s.workers[id as int];
                let new = t.workers[id as int];
                &&& new.display_chunk == Some(seq_num)
                &&& new.stage == old.stage && new.current_chunk == old.current_chunk
                &&& new.total_bytes == total_bytes
                &&& new.bytes_processed == (if bytes_processed <= total_bytes {
                    bytes_processed
                } else {
                    total_bytes
                })
                &&& new.bytes_written >= old.bytes_written && new.bytes_written >= bytes_written
                &&& (new.bytes_written == old.bytes_written || new.bytes_written == bytes_written)
                &&& new.started_at == (if old.started_at is Some {
                    old.started_at
                } else {
                    Some(now)
                })
                &&& old.completed_at is Some ==> new.completed_at == old.completed_at
                &&& old.completed_at is None ==> new.completed_at == (if finalized {
                    Some(now)
                } else {
                    None::<u64>
                })
            })
        }),
{
}

/// Each reported chunk time counts one more compressed chunk and adds its
/// time to the total (which stops at its largest value), so the average
/// the dashboard shows covers every chunk reported; nothing else changes.
pub proof fn lemma_chunk_time_accumulates(s: TuiView, nanos: u64, now: u64)
    requires
        s.total_chunks_compressed < u64::MAX,
    ensures
        ({
            let t = reduce(s, ProgressEvent::AvgCompressionTime(nanos), now);
            &&& t.total_chunks_compressed == s.total_chunks_compressed + 1
            &&& t.total_compress_nanos == (if s.total_compress_nanos + nanos <= u128::MAX {
                s.total_compress_nanos + nanos
            } else {
                u128::MAX as int
            })
            &&& t.total_compress_nanos >= s.total_compress_nanos
            &&& (TuiView {
                total_chunks_compressed: s.total_chunks_compressed,
                total_compress_nanos: s.total_compress_nanos,
                ..t
            }) == s
        }),
{
}

/// An I/O sample keeps the newest history: after a sample over some time,
/// the last entry is the sample just taken, with the current totals and the
/// bytes moved since the previous sample; the history is the end of the old
/// history followed by that sample, as long as the terminal width allows
/// (between 80 and 512 entries), so only the oldest entries are dropped.
/// In stream mode the totals are the stream counters. When no time passed,
/// nothing changes.
pub proof fn lemma_sample_keeps_newest(s: TuiView, elapsed: u64)
    ensures
        elapsed == 0 ==> sampled(s, elapsed) == s,
        elapsed > 0 ==> ({
            let t = sampled(s, elapsed);
            let h = t.io_history;
            let capacity: int = if s.terminal_cols < 80 {
                80
            } else if s.terminal_cols > 512 {
                512
            } else {
                s.terminal_cols as int
            };
            let (input_total, output_total) = io_totals(s);
            &&& h.len() == (if s.io_history.len() + 1 <= capacity {
                s.io_history.len() + 1int
            } else {
                capacity
            })
            &&& h.len() > 0
            &&& h.last() == (IoSample {
                input_delta: sat_sub(input_total, s.prev_total_in),
                output_delta: sat_sub(output_total, s.prev_total_out),
                elapsed_nanos: elapsed,
                input_total,
                output_total,
            })
            &&& h == s.io_history.push(h.last()).skip(s.io_history.len() + 1 - h.len())
            &&& t.prev_total_in == input_total
            &&& t.prev_total_out == output_total
            &&& s.mode == TuiMode::Stream ==> h.last().input_total == s.bytes_read
                && h.last().output_total == s.bytes_written
        }),
{
    if elapsed > 0 {
        let t = sampled(s, elapsed);
        let grown = s.io_history.push(t.io_history.last());
        let capacity = io_history_capacity(s.terminal_cols);
        if grown.len() > capacity {
            assert(t.io_history =~= grown.skip(grown.len() - capacity));
        } else {
            assert(grown.skip(0) =~= grown);
        }
    }
}

/// A slice never counts more input than its size, so the totals never show
/// more input done than there is, and no more slices running or done than
/// there are.
pub proof fn lemma_aggregate_bounded(stripes: Seq<StripeProgress>)
    ensures
        aggregate_of(stripes).input_processed <= aggregate_of(stripes).input_total,
        aggregate_of(stripes).completed_input <= aggregate_of(stripes).input_total,
        aggregate_of(stripes).active_sectors + aggregate_of(stripes).completed_sectors
            <= stripes.len(),
    decreases stripes.len(),
{
    if stripes.len() > 0 {
        lemma_aggregate_bounded(stripes.drop_last());
    }
}


/// The slices in `stage`.
pub open spec fn in_stage(stage: SplitStage) -> spec_fn(StripeProgress) -> bool {
    |x: StripeProgress| x.stage == stage
}

/// The totals count the slices by stage: the running slices are the active
/// ones and the finished slices the completed ones.
pub proof fn lemma_aggregate_counts_stages(stripes: Seq<StripeProgress>)
    requires
        stripes.len() <= usize::MAX,
    ensures
        aggregate_of(stripes).active_sectors == stripes.filter(in_stage(SplitStage::Running)).len(),
        aggregate_of(stripes).completed_sectors == stripes.filter(in_stage(SplitStage::Done)).len(),
    decreases stripes.len(),
{
    reveal_with_fuel(Seq::filter, 1);
    if stripes.len() > 0 {
        let rest = stripes.drop_last();
        lemma_aggregate_counts_stages(rest);
        lemma_aggregate_bounded(rest);
        rest.lemma_filter_len(in_stage(SplitStage::Running));
        rest.lemma_filter_len(in_stage(SplitStage::Done));
    }
}

proof fn lemma_queue_without_members(q: Seq<u64>, x: u64)
    ensures
        forall|y: u64| #[trigger] queue_without(q, x).contains(y) <==> (q.contains(y) && y != x),
{
    assert forall|y: u64| #[trigger] queue_without(q, x).contains(y) <==> (q.contains(y) && y != x) by {
        if queue_without(q, x).contains(y) {
            q.lemma_filter_contains_rev(other_than(x), y);
            let i = choose|i: int| 0 <= i < q.filter(other_than(x)).len() && q.filter(other_than(x))[i] == y;
            q.lemma_filter_pred(other_than(x), i);
        }
        if q.contains(y) && y != x {
            let i = choose|i: int| 0 <= i < q.len() && q[i] == y;
            q.lemma_filter_contains(other_than(x), i);
        }
    }
}

proof fn lemma_sorted_with_members(q: Seq<u64>, x: u64)
    requires
        strictly_ascending(q),
    ensures
        forall|y: u64| #[trigger] sorted_with(q, x).contains(y) <==> (q.contains(y) || y == x),
{
    if !q.contains(x) {
        lemma_count_below_splits(q, x);
        let k = count_below(q, x) as int;
        q.insert_ensures(k, x);
        let r = q.insert(k, x);
        assert forall|y: u64| #[trigger] r.contains(y) <==> (q.contains(y) || y == x) by {
            if r.contains(y) {
                let i = choose|i: int| 0 <= i < r.len() && r[i] == y;
                if i < k {
                    assert(q[i] == y);
                } else if i > k {
                    assert(q[i - 1] == y);
                }
            }
            if q.contains(y) {
                let i = choose|i: int| 0 <= i < q.len() && q[i] == y;
                if i < k {
                    assert(r[i] == y);
                } else {
                    assert(r[i + 1] == y);
                }
            }
            if y == x {
                assert(r[k] == y);
            }
        }
    }
}

/// The chunk a queue event is about: queued, assigned, pending or written.
pub open spec fn chunk_event_seq(event: ProgressEvent) -> Option<u64> {
    match event {
        ProgressEvent::ChunkQueued { seq_num, bytes: _ } => Some(seq_num),
        ProgressEvent::ChunkAssigned { worker_id: _, seq_num } => Some(seq_num),
        ProgressEvent::ChunkPending { worker_id: _, seq_num } => Some(seq_num),
        ProgressEvent::ChunkWritten { seq_num } => Some(seq_num),
        _ => None,
    }
}

/// The stage a queue event moves its chunk to: 1 queued, 2 assigned,
/// 3 pending, 4 written.
pub open spec fn chunk_event_stage(event: ProgressEvent) -> nat {
    match event {
        ProgressEvent::ChunkQueued { .. } => 1,
        ProgressEvent::ChunkAssigned { .. } => 2,
        ProgressEvent::ChunkPending { .. } => 3,
        ProgressEvent::ChunkWritten { .. } => 4,
        _ => 0,
    }
}

/// The stage chunk `x` has reached after `events` (0 before it is queued).
pub open spec fn chunk_stage(events: Seq<(ProgressEvent, u64)>, x: u64) -> nat
    decreases events.len(),
{
    if events.len() == 0 {
        0
    } else if chunk_event_seq(events.last().0) == Some(x) {
        chunk_event_stage(events.last().0)
    } else {
        chunk_stage(events.drop_last(), x)
    }
}

/// The worker chunk `x` was assigned to in `events`, if any.
pub open spec fn chunk_worker(events: Seq<(ProgressEvent, u64)>, x: u64) -> Option<usize>
    decreases events.len(),
{
    if events.len() == 0 {
        None
    } else {
        match events.last().0 {
            ProgressEvent::ChunkAssigned { worker_id, seq_num } => if seq_num == x {
                Some(worker_id)
            } else {
                chunk_worker(events.drop_last(), x)
            },
            _ => chunk_worker(events.drop_last(), x),
        }
    }
}

/// One more than the largest chunk written in `events` (0 when none was).
pub open spec fn written_bound(events: Seq<(ProgressEvent, u64)>) -> u64
    decreases events.len(),
{
    if events.len() == 0 {
        0
    } else {
        let before = written_bound(events.drop_last());
        match events.last().0 {
            ProgressEvent::ChunkWritten { seq_num } => if before >= seq_num + 1 {
                before
            } else {
                (seq_num + 1) as u64
            },
            _ => before,
        }
    }
}

/// Every event of `events` moves one chunk one stage on: queued, then
/// assigned to a worker, then pending from that same worker, then written.
pub open spec fn follows_lifecycle(events: Seq<(ProgressEvent, u64)>) -> bool
    decreases events.len(),
{
    if events.len() == 0 {
        true
    } else {
        let before = events.drop_last();
        let event = events.last().0;
        &&& follows_lifecycle(before)
        &&& match chunk_event_seq(event) {
            Some(x) => {
                &&& chunk_event_stage(event) == chunk_stage(before, x) + 1
                &&& (event matches ProgressEvent::ChunkPending { worker_id, seq_num: _ } ==> chunk_worker(
                    before,
                    x,
                ) == Some(worker_id))
                &&& x < u64::MAX
            },
            None => false,
        }
    }
}

/// The dashboard after each event of `events` arrives at its time.
pub open spec fn reduce_all(s: TuiView, events: Seq<(ProgressEvent, u64)>) -> TuiView
    decreases events.len(),
{
    if events.len() == 0 {
        s
    } else {
        reduce(reduce_all(s, events.drop_last()), events.last().0, events.last().1)
    }
}

/// Some worker holds chunk `x`.
pub open spec fn held_by_worker(s: TuiView, x: u64) -> bool {
    exists|j: int| 0 <= j < s.workers.len() && #[trigger] s.workers[j].current_chunk == Some(x)
}

spec fn tracks_lifecycle(s: TuiView, events: Seq<(ProgressEvent, u64)>) -> bool {
    &&& well_formed(s)
    &&& s.workers.len() <= usize::MAX
    &&& forall|x: u64| #[trigger] s.input_queue.contains(x) <==> chunk_stage(events, x) == 1
    &&& forall|x: u64| #[trigger] s.output_buffer.contains(x) <==> chunk_stage(events, x) == 3
    &&& forall|j: int| 0 <= j < s.workers.len() ==> holds_assigned(#[trigger] s.workers[j], j, events)
    &&& s.next_expected_seq == written_bound(events)
}

/// A worker at position `j` holds only a chunk assigned to it and not yet
/// pending.
spec fn holds_assigned(w: WorkerView, j: int, events: Seq<(ProgressEvent, u64)>) -> bool {
    match w.current_chunk {
        Some(x) => chunk_stage(events, x) == 2 && chunk_worker(events, x) == Some(j as usize),
        None => true,
    }
}

proof fn lemma_lifecycle_step(s: TuiView, events: Seq<(ProgressEvent, u64)>, event: ProgressEvent, now: u64)
    requires
        tracks_lifecycle(s, events),
        follows_lifecycle(events.push((event, now))),
    ensures
        tracks_lifecycle(reduce(s, event, now), events.push((event, now))),
{
    let all = events.push((event, now));
    assert(all.drop_last() =~= events);
    assert(all.last() == (event, now));
    let t = reduce(s, event, now);
    lemma_reduce_keeps_well_formed(s, event, now);
    assert forall|y: u64| chunk_event_seq(event) != Some(y) implies chunk_stage(all, y) == chunk_stage(events, y) && chunk_worker(all, y) == chunk_worker(events, y) by {
    }
    match event {
        ProgressEvent::ChunkQueued { seq_num: x, bytes: _ } => {
            assert(chunk_stage(all, x) == 1);
            assert forall|y: u64| #[trigger] t.input_queue.contains(y) <==> chunk_stage(all, y) == 1 by {
                if y == x {
                    assert(queue_with(s.input_queue, x).contains(x)) by {
                        if !s.input_queue.contains(x) {
                            assert(s.input_queue.push(x)[s.input_queue.len() as int] == x);
                        }
                    }
                } else if t.input_queue.contains(y) && !s.input_queue.contains(y) {
                    let i = choose|i: int| 0 <= i < t.input_queue.len() && t.input_queue[i] == y;
                    assert(t.input_queue == s.input_queue.push(x));
                    assert(i < s.input_queue.len());
                    assert(s.input_queue[i] == y);
                } else if s.input_queue.contains(y) {
                    let i = choose|i: int| 0 <= i < s.input_queue.len() && s.input_queue[i] == y;
                    assert(t.input_queue[i] == y);
                }
            }
            assert forall|j: int| 0 <= j < t.workers.len() implies holds_assigned(
                #[trigger] t.workers[j],
                j,
                all,
            ) by {
                assert(holds_assigned(s.workers[j], j, events));
                assert(t.workers[j] == s.workers[j]);
            }
        },
        ProgressEvent::ChunkAssigned { worker_id: k, seq_num: x } => {
            lemma_queue_without_members(s.input_queue, x);
            assert(chunk_stage(all, x) == 2 && chunk_worker(all, x) == Some(k));
            assert forall|j: int| 0 <= j < t.workers.len() implies holds_assigned(
                #[trigger] t.workers[j],
                j,
                all,
            ) by {
                assert(holds_assigned(s.workers[j], j, events));
                if j != k as int {
                    assert(t.workers[j] == s.workers[j]);
                }
            }
        },
        ProgressEvent::ChunkPending { worker_id: k, seq_num: x } => {
            lemma_sorted_with_members(s.output_buffer, x);
            assert(chunk_stage(all, x) == 3);
            assert(chunk_worker(events, x) == Some(k));
            assert forall|j: int| 0 <= j < t.workers.len() implies holds_assigned(
                #[trigger] t.workers[j],
                j,
                all,
            ) by {
                let w = s.workers[j];
                assert(holds_assigned(w, j, events));
                if j != k as int {
                    assert(t.workers[j] == w);
                    if w.current_chunk == Some(x) {
                        assert(chunk_worker(events, x) == Some(j as usize));
                        assert(false);
                    }
                } else {
                    assert(t.workers[j] == worker_after_pending(w, x));
                    match w.current_chunk {
                        Some(y) => {
                            if y != x {
                                assert(chunk_event_seq(event) != Some(y));
                                assert(chunk_stage(all, y) == chunk_stage(events, y));
                                assert(chunk_worker(all, y) == chunk_worker(events, y));
                            }
                        },
                        None => {},
                    }
                }
            }
        },
        ProgressEvent::ChunkWritten { seq_num: x } => {
            lemma_queue_without_members(s.output_buffer, x);
            assert(chunk_stage(all, x) == 4);
            assert forall|j: int| 0 <= j < t.workers.len() implies holds_assigned(
                #[trigger] t.workers[j],
                j,
                all,
            ) by {
                assert(holds_assigned(s.workers[j], j, events));
                assert(t.workers[j] == s.workers[j]);
            }
        },
        _ => {},
    }
}

proof fn lemma_lifecycle_prefix(s0: TuiView, events: Seq<(ProgressEvent, u64)>)
    requires
        tracks_lifecycle(s0, Seq::empty()),
        follows_lifecycle(events),
    ensures
        tracks_lifecycle(reduce_all(s0, events), events),
    decreases events.len(),
{
    if events.len() > 0 {
        let before = events.drop_last();
        lemma_lifecycle_prefix(s0, before);
        assert(before.push(events.last()) =~= events);
        lemma_lifecycle_step(reduce_all(s0, before), before, events.last().0, events.last().1);
    }
}

/// On a stream dashboard, while chunks move through their lifecycle (queued,
/// assigned to a worker, pending from that worker, written), each chunk is
/// in at most one place: the input queue, a worker, or the pending buffer.
/// The pending buffer stays ascending, and the writer expects the chunk after
/// the largest one written.
pub proof fn lemma_chunk_stages_exclusive(
    queue_capacity: usize,
    total_input_size: usize,
    num_workers: usize,
    level: u32,
    opened: u64,
    events: Seq<(ProgressEvent, u64)>,
)
    requires
        follows_lifecycle(events),
    ensures
        ({
            let s = reduce_all(
                initial_stream_view(queue_capacity, total_input_size, num_workers, level, opened),
                events,
            );
            &&& forall|x: u64|
                #[trigger] s.input_queue.contains(x) ==> !held_by_worker(s, x)
                    && !s.output_buffer.contains(x)
            &&& forall|x: u64| #[trigger] held_by_worker(s, x) ==> !s.output_buffer.contains(x)
            &&& strictly_ascending(s.output_buffer)
            &&& s.next_expected_seq == written_bound(events)
        }),
{
    let s0 = initial_stream_view(queue_capacity, total_input_size, num_workers, level, opened);
    lemma_initial_well_formed(queue_capacity, total_input_size, num_workers, level, opened);
    assert(tracks_lifecycle(s0, Seq::empty()));
    lemma_lifecycle_prefix(s0, events);
    let s = reduce_all(s0, events);
    assert forall|x: u64| #[trigger] held_by_worker(s, x) implies chunk_stage(events, x) == 2 by {
        let j = choose|j: int| 0 <= j < s.workers.len() && #[trigger] s.workers[j].current_chunk == Some(x);
        assert(s.workers[j].current_chunk == Some(x));
    }
}

} // verus!
