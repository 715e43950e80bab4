//! Runtime controls of a compression job and the stages its parts go through.
use crate::compressor::{AnyCompressor, ZipError};
use vstd::prelude::*;

verus! {

/// Smallest chunk a stream or slice reader may be asked to use (64 KiB).
pub const MIN_CHUNK_SIZE: usize = 65536;

/// Chunk size a job starts with (1 MiB).
pub const DEFAULT_CHUNK_SIZE: usize = 1048576;

/// Largest chunk a reader may be asked to use (8 MiB).
pub const MAX_CHUNK_SIZE: usize = 8388608;

/// Longest throttle pause, in milliseconds, inserted before each chunk.
pub const MAX_THROTTLE_DELAY_MS: u64 = 500;

/// Lifecycle of one slice of a file compressed in split mode.
#[derive(Clone, Copy, Debug, PartialEq, Eq, Structural)]
pub enum SplitStage {
    Waiting,
    Running,
    Done,
}

/// What a stream worker is doing.
#[derive(Clone, Copy, Debug, PartialEq, Eq, Structural)]
pub enum WorkerStage {
    Off,
    Idle,
    Busy,
    Hold,
}

/// The text shown for each worker stage.
pub open spec fn worker_stage_text(stage: WorkerStage) -> Seq<char> {
    match stage {
        WorkerStage::Off => seq!['O', 'F', 'F'],
        WorkerStage::Idle => seq!['I', 'D', 'L', 'E'],
        WorkerStage::Busy => seq!['B', 'U', 'S', 'Y'],
        WorkerStage::Hold => seq!['H', 'O', 'L', 'D'],
    }
}

impl WorkerStage {
    /// Four-letter (or three-letter) label of the stage.
    pub fn label(self) -> (r: &'static str)
        ensures
            r@ == worker_stage_text(self),
    {
        proof {
            reveal_strlit("OFF");
            reveal_strlit("IDLE");
            reveal_strlit("BUSY");
            reveal_strlit("HOLD");
        }
        match self {
            WorkerStage::Off => "OFF",
            WorkerStage::Idle => "IDLE",
            WorkerStage::Busy => "BUSY",
            WorkerStage::Hold => "HOLD",
        }
    }
}

/// `n` is a power of two.
pub open spec fn is_power_of_two(n: nat) -> bool
    decreases n,
{
    if n <= 1 {
        n == 1
    } else {
        n % 2 == 0 && is_power_of_two(n / 2)
    }
}

/// A chunk size the readers accept: a power of two between the bounds.
pub open spec fn valid_chunk_size(n: int) -> bool {
    MIN_CHUNK_SIZE <= n <= MAX_CHUNK_SIZE && is_power_of_two(n as nat)
}

/// A level that the interactive controls may set.
pub open spec fn valid_level(level: int) -> bool {
    1 <= level <= 9
}

/// A throttle delay that the controls may set.
pub open spec fn valid_throttle(delay_ms: int) -> bool {
    0 <= delay_ms <= MAX_THROTTLE_DELAY_MS
}

/// A number of active workers the controls may set, given the pool size.
pub open spec fn valid_active_workers(count: int, max_workers: int) -> bool {
    1 <= count <= max_workers
}

/// Decides whether `n` is a power of two.
pub fn power_of_two(n: usize) -> (r: bool)
    ensures
        r == is_power_of_two(n as nat),
{
    let mut m = n;
    while m > 1 && m % 2 == 0
        invariant
            is_power_of_two(m as nat) == is_power_of_two(n as nat),
        decreases m,
    {
        m = m / 2;
    }
    m == 1
}

/// Decides whether `bytes` is an acceptable chunk size.
pub fn chunk_size_is_valid(bytes: usize) -> (r: bool)
    ensures
        r == valid_chunk_size(bytes as int),
{
    MIN_CHUNK_SIZE <= bytes && bytes <= MAX_CHUNK_SIZE && power_of_two(bytes)
}

/// Everything the controls hold at one moment.
#[derive(Clone, Copy, Debug, PartialEq, Eq, Structural)]
pub struct ControllerSnapshot {
    pub is_paused: bool,
    pub throttle_delay_ms: u64,
    pub compression_level: u32,
    pub is_aborted: bool,
    pub chunk_size: usize,
    pub active_workers: usize,
    pub max_workers: usize,
}

impl ControllerSnapshot {
    /// The settings the controls keep valid at all times.
    pub open spec fn well_formed(self) -> bool {
        &&& valid_throttle(self.throttle_delay_ms as int)
        &&& valid_chunk_size(self.chunk_size as int)
        &&& valid_active_workers(self.active_workers as int, self.max_workers as int)
    }

    /// The controls after a request to set the level.
    pub open spec fn after_level_request(self, level: u32) -> ControllerSnapshot {
        if valid_level(level as int) {
            ControllerSnapshot { compression_level: level, ..self }
        } else {
            self
        }
    }

    /// The controls after a request to set the throttle.
    pub open spec fn after_throttle_request(self, delay_ms: u64) -> ControllerSnapshot {
        if valid_throttle(delay_ms as int) {
            ControllerSnapshot { throttle_delay_ms: delay_ms, ..self }
        } else {
            self
        }
    }

    /// The controls after a request to set the chunk size.
    pub open spec fn after_chunk_size_request(self, bytes: usize) -> ControllerSnapshot {
        if valid_chunk_size(bytes as int) {
            ControllerSnapshot { chunk_size: bytes, ..self }
        } else {
            self
        }
    }

    /// The controls after a request to set the number of active workers.
    pub open spec fn after_workers_request(self, count: usize) -> ControllerSnapshot {
        if valid_active_workers(count as int, self.max_workers as int) {
            ControllerSnapshot { active_workers: count, ..self }
        } else {
            self
        }
    }

    /// The controls with the pause flag set to `paused`.
    pub open spec fn with_pause(self, paused: bool) -> ControllerSnapshot {
        ControllerSnapshot { is_paused: paused, ..self }
    }

    /// The controls after an abort.
    pub open spec fn after_abort(self) -> ControllerSnapshot {
        ControllerSnapshot { is_aborted: true, ..self }
    }
}

/// Runtime controls of a job: pause, abort, throttle, level, chunk size and
/// the number of active workers out of a fixed pool.
///
/// Every update is validated: one outside the accepted range is refused and
/// leaves the controls as they were.
#[derive(Debug)]
pub struct PipelineController {
    is_paused: bool,
    throttle_delay_ms: u64,
    compression_level: u32,
    is_aborted: bool,
    chunk_size: usize,
    active_workers: usize,
    max_workers: usize,
}

impl View for PipelineController {
    type V = ControllerSnapshot;

    closed spec fn view(&self) -> ControllerSnapshot {
        ControllerSnapshot {
            is_paused: self.is_paused,
            throttle_delay_ms: self.throttle_delay_ms,
            compression_level: self.compression_level,
            is_aborted: self.is_aborted,
            chunk_size: self.chunk_size,
            active_workers: self.active_workers,
            max_workers: self.max_workers,
        }
    }
}

/// The controls of a new job: running, unthrottled, default chunk size and
/// all of at least one worker active.
pub open spec fn initial_controls(level: u32, max_workers: usize) -> ControllerSnapshot {
    let pool = if max_workers == 0 { 1usize } else { max_workers };
    ControllerSnapshot {
        is_paused: false,
        throttle_delay_ms: 0,
        compression_level: level,
        is_aborted: false,
        chunk_size: DEFAULT_CHUNK_SIZE,
        active_workers: pool,
        max_workers: pool,
    }
}

impl PipelineController {
    #[verifier::type_invariant]
    spec fn controls_valid(self) -> bool {
        self@.well_formed()
    }

    /// Controls for a job at `level` with a pool of `max_workers` (at least one).
    pub fn new_with_workers(level: u32, max_workers: usize) -> (r: Self)
        ensures
            r@ == initial_controls(level, max_workers),
    {
        let pool = if max_workers == 0 { 1 } else { max_workers };
        assert(valid_chunk_size(DEFAULT_CHUNK_SIZE as int)) by {
            reveal_with_fuel(is_power_of_two, 22);
        }
        PipelineController {
            is_paused: false,
            throttle_delay_ms: 0,
            compression_level: level,
            is_aborted: false,
            chunk_size: DEFAULT_CHUNK_SIZE,
            active_workers: pool,
            max_workers: pool,
        }
    }

    /// Sets the level if it is between 1 and 9; otherwise changes nothing.
    pub fn update_level(&mut self, level: u32)
        ensures
            final(self)@ == old(self)@.after_level_request(level),
    {
        proof {
            use_type_invariant(&*self);
        }
        if 1 <= level && level <= 9 {
            self.compression_level = level;
        }
    }

    /// Sets the throttle if it is at most 500 ms; otherwise changes nothing.
    pub fn update_throttle(&mut self, delay_ms: u64)
        ensures
            final(self)@ == old(self)@.after_throttle_request(delay_ms),
    {
        proof {
            use_type_invariant(&*self);
        }
        if delay_ms <= MAX_THROTTLE_DELAY_MS {
            self.throttle_delay_ms = delay_ms;
        }
    }

    /// Sets the chunk size if it is a power of two within the bounds, and
    /// says whether it did.
    pub fn update_chunk_size(&mut self, bytes: usize) -> (valid: bool)
        ensures
            valid == valid_chunk_size(bytes as int),
            final(self)@ == old(self)@.after_chunk_size_request(bytes),
    {
        proof {
            use_type_invariant(&*self);
        }
        let valid = chunk_size_is_valid(bytes);
        if valid {
            self.chunk_size = bytes;
        }
        valid
    }

    /// Sets the number of active workers if it is between 1 and the pool
    /// size, and says whether it did.
    pub fn update_active_workers(&mut self, count: usize) -> (valid: bool)
        ensures
            valid == valid_active_workers(count as int, old(self)@.max_workers as int),
            final(self)@ == old(self)@.after_workers_request(count),
    {
        proof {
            use_type_invariant(&*self);
        }
        if 1 <= count && count <= self.max_workers {
            self.active_workers = count;
            true
        } else {
            false
        }
    }

    /// Pauses the job.
    pub fn pause(&mut self)
        ensures
            final(self)@ == old(self)@.with_pause(true),
    {
        proof {
            use_type_invariant(&*self);
        }
        self.is_paused = true;
    }

    /// Resumes the job.
    pub fn resume(&mut self)
        ensures
            final(self)@ == old(self)@.with_pause(false),
    {
        proof {
            use_type_invariant(&*self);
        }
        self.is_paused = false;
    }

    /// Aborts the job; nothing clears this again.
    pub fn abort(&mut self)
        ensures
            final(self)@ == old(self)@.after_abort(),
    {
        proof {
            use_type_invariant(&*self);
        }
        self.is_aborted = true;
    }

    /// All settings at once.
    pub fn snapshot(&self) -> (r: ControllerSnapshot)
        ensures
            r == self@,
            r.well_formed(),
    {
        proof {
            use_type_invariant(self);
        }
        ControllerSnapshot {
            is_paused: self.is_paused,
            throttle_delay_ms: self.throttle_delay_ms,
            compression_level: self.compression_level,
            is_aborted: self.is_aborted,
            chunk_size: self.chunk_size,
            active_workers: self.active_workers,
            max_workers: self.max_workers,
        }
    }

    pub fn is_aborted(&self) -> (r: bool)
        ensures
            r == self@.is_aborted,
    {
        self.is_aborted
    }

    pub fn is_paused(&self) -> (r: bool)
        ensures
            r == self@.is_paused,
    {
        self.is_paused
    }

    pub fn compression_level(&self) -> (r: u32)
        ensures
            r == self@.compression_level,
    {
        self.compression_level
    }

    pub fn throttle_delay_ms(&self) -> (r: u64)
        ensures
            r == self@.throttle_delay_ms,
            valid_throttle(r as int),
    {
        proof {
            use_type_invariant(self);
        }
        self.throttle_delay_ms
    }

    pub fn chunk_size(&self) -> (r: usize)
        ensures
            r == self@.chunk_size,
            valid_chunk_size(r as int),
    {
        proof {
            use_type_invariant(self);
        }
        self.chunk_size
    }

    pub fn active_workers(&self) -> (r: usize)
        ensures
            r == self@.active_workers,
            valid_active_workers(r as int, self@.max_workers as int),
    {
        proof {
            use_type_invariant(self);
        }
        self.active_workers
    }

    pub fn max_workers(&self) -> (r: usize)
        ensures
            r == self@.max_workers,
            r >= 1,
    {
        proof {
            use_type_invariant(self);
        }
        self.max_workers
    }
}

/// No request can make the controls invalid: each keeps the throttle, the
/// chunk size and the number of active workers within their bounds.
pub proof fn lemma_requests_keep_controls_valid(
    s: ControllerSnapshot,
    level: u32,
    delay_ms: u64,
    bytes: usize,
    count: usize,
    paused: bool,
)
    requires
        s.well_formed(),
    ensures
        s.after_level_request(level).well_formed(),
        s.after_throttle_request(delay_ms).well_formed(),
        s.after_chunk_size_request(bytes).well_formed(),
        s.after_workers_request(count).well_formed(),
        s.with_pause(paused).well_formed(),
        s.after_abort().well_formed(),
{
}

/// A request outside the accepted range changes nothing, and an accepted
/// one changes only its own setting.
pub proof fn lemma_requests_touch_only_their_setting(
    s: ControllerSnapshot,
    level: u32,
    delay_ms: u64,
    bytes: usize,
    count: usize,
)
    ensures
        !valid_level(level as int) ==> s.after_level_request(level) == s,
        !valid_throttle(delay_ms as int) ==> s.after_throttle_request(delay_ms) == s,
        !valid_chunk_size(bytes as int) ==> s.after_chunk_size_request(bytes) == s,
        !valid_active_workers(count as int, s.max_workers as int) ==> s.after_workers_request(
            count,
        ) == s,
        s.after_level_request(level) == (ControllerSnapshot {
            compression_level: s.after_level_request(level).compression_level,
            ..s
        }),
        s.after_throttle_request(delay_ms) == (ControllerSnapshot {
            throttle_delay_ms: s.after_throttle_request(delay_ms).throttle_delay_ms,
            ..s
        }),
        s.after_chunk_size_request(bytes) == (ControllerSnapshot {
            chunk_size: s.after_chunk_size_request(bytes).chunk_size,
            ..s
        }),
        s.after_workers_request(count) == (ControllerSnapshot {
            active_workers: s.after_workers_request(count).active_workers,
            ..s
        }),
{
}

/// A request within the accepted range takes effect: afterwards the
/// controls hold exactly the value asked for; pausing and resuming set the
/// pause as asked, and an abort aborts. A job starts running, unthrottled,
/// at the chunk size it defaults to, at the level it was made with, and with
/// its whole pool of at least one worker active.
pub proof fn lemma_accepted_requests_take_effect(
    s: ControllerSnapshot,
    level: u32,
    delay_ms: u64,
    bytes: usize,
    count: usize,
    paused: bool,
    max_workers: usize,
)
    ensures
        valid_level(level as int) ==> s.after_level_request(level).compression_level == level,
        valid_throttle(delay_ms as int) ==> s.after_throttle_request(delay_ms).throttle_delay_ms
            == delay_ms,
        valid_chunk_size(bytes as int) ==> s.after_chunk_size_request(bytes).chunk_size == bytes,
        valid_active_workers(count as int, s.max_workers as int) ==> s.after_workers_request(
            count,
        ).active_workers == count,
        s.with_pause(paused).is_paused == paused,
        s.with_pause(paused) == (ControllerSnapshot { is_paused: paused, ..s }),
        s.after_abort().is_aborted,
        s.after_abort() == (ControllerSnapshot { is_aborted: true, ..s }),
        ({
            let c = initial_controls(level, max_workers);
            &&& !c.is_paused && !c.is_aborted && c.throttle_delay_ms == 0
            &&& c.chunk_size == DEFAULT_CHUNK_SIZE && c.compression_level == level
            &&& c.max_workers >= 1 && c.active_workers == c.max_workers
            &&& max_workers > 0 ==> c.max_workers == max_workers
        }),
{
}

/// Once a job is aborted it stays aborted, whatever is requested after.
pub proof fn lemma_abort_is_final(
    s: ControllerSnapshot,
    level: u32,
    delay_ms: u64,
    bytes: usize,
    count: usize,
    paused: bool,
)
    requires
        s.is_aborted,
    ensures
        s.after_level_request(level).is_aborted,
        s.after_throttle_request(delay_ms).is_aborted,
        s.after_chunk_size_request(bytes).is_aborted,
        s.after_workers_request(count).is_aborted,
        s.with_pause(paused).is_aborted,
        s.after_abort().is_aborted,
{
}

/// Resuming a job that was running before a pause gives back the controls
/// as they were.
pub proof fn lemma_resume_undoes_pause(s: ControllerSnapshot)
    requires
        !s.is_paused,
    ensures
        s.with_pause(true).with_pause(false) == s,
{
}

/// A request made of the controls.
pub enum ControlRequest {
    Level(u32),
    Throttle(u64),
    ChunkSize(usize),
    Workers(usize),
    Pause,
    Resume,
    Abort,
}

/// The controls after `request`, as the controller's methods leave them.
pub open spec fn after_request(s: ControllerSnapshot, request: ControlRequest) -> ControllerSnapshot {
    match request {
        ControlRequest::Level(level) => s.after_level_request(level),
        ControlRequest::Throttle(delay_ms) => s.after_throttle_request(delay_ms),
        ControlRequest::ChunkSize(bytes) => s.after_chunk_size_request(bytes),
        ControlRequest::Workers(count) => s.after_workers_request(count),
        ControlRequest::Pause => s.with_pause(true),
        ControlRequest::Resume => s.with_pause(false),
        ControlRequest::Abort => s.after_abort(),
    }
}

/// The controls after each of `requests` in turn.
pub open spec fn after_requests(s: ControllerSnapshot, requests: Seq<ControlRequest>) -> ControllerSnapshot
    decreases requests.len(),
{
    if requests.len() == 0 {
        s
    } else {
        after_request(after_requests(s, requests.drop_last()), requests.last())
    }
}

/// Over any run of requests on controls made for a pool of `max_workers`,
/// the pool keeps its size (at least one), the active workers stay between
/// one and the pool size, the other settings stay valid, and once an abort
/// was requested the job stays aborted.
pub proof fn lemma_controls_over_requests(level: u32, max_workers: usize, requests: Seq<ControlRequest>)
    ensures
        after_requests(initial_controls(level, max_workers), requests).well_formed(),
        after_requests(initial_controls(level, max_workers), requests).max_workers == (if max_workers
            == 0 {
            1
        } else {
            max_workers
        }),
        1 <= after_requests(initial_controls(level, max_workers), requests).active_workers
            <= after_requests(initial_controls(level, max_workers), requests).max_workers,
        requests.contains(ControlRequest::Abort) ==> after_requests(
            initial_controls(level, max_workers),
            requests,
        ).is_aborted,
    decreases requests.len(),
{
    if requests.len() == 0 {
        assert(valid_chunk_size(DEFAULT_CHUNK_SIZE as int)) by {
            reveal_with_fuel(is_power_of_two, 22);
        }
    } else {
        let before = requests.drop_last();
        lemma_controls_over_requests(level, max_workers, before);
        if requests.contains(ControlRequest::Abort) && requests.last() != ControlRequest::Abort {
            let i = choose|i: int| 0 <= i < requests.len() && requests[i] == ControlRequest::Abort;
            assert(before[i] == ControlRequest::Abort);
            assert(before.contains(ControlRequest::Abort));
        }
    }
}

/// What the parts of a job report while they run.
#[derive(Debug)]
#[allow(inconsistent_fields)]
pub enum ProgressEvent {
    SplitProgress {
        stripe_id: usize,
        stage: SplitStage,
        bytes_processed: usize,
        bytes_written: usize,
        total_bytes: usize,
    },
    SplitFinalWrite { bytes_written: usize },
    StreamProgress { bytes_read: usize, bytes_written: usize, queue_depth: usize },
    WorkerStatus { worker_id: usize, stage: WorkerStage, current_chunk: Option<u64> },
    WorkerChunkProgress {
        worker_id: usize,
        seq_num: u64,
        bytes_processed: usize,
        bytes_written: usize,
        total_bytes: usize,
        finalized: bool,
    },
    ChunkQueued { seq_num: u64, bytes: usize },
    ChunkAssigned { worker_id: usize, seq_num: u64 },
    ChunkPending { worker_id: usize, seq_num: u64 },
    ChunkWritten { seq_num: u64 },
    WorkerAvailability { worker_id: usize, enabled: bool },
    /// How long one encoder call took, in nanoseconds.
    AvgCompressionTime(u64),
    Error(ZipError),
    Complete,
}

#[verifier::external_type_specification]
#[verifier::external_body]
#[verifier::reject_recursive_types(T)]
pub struct ExSender<T>(std::sync::mpsc::Sender<T>);

/// One handle on a channel of progress events: `std::sync::mpsc::Sender`.
#[verifier::external_body]
pub struct EventChannel {
    sender: std::sync::mpsc::Sender<ProgressEvent>,
}

/// The events handed to `Sender::send` through this handle, oldest first.
pub uninterp spec fn events_sent(channel: EventChannel) -> Seq<ProgressEvent>;

/// Takes `sender` as a handle that has sent nothing yet.
#[verifier::external_body]
fn channel_from(sender: std::sync::mpsc::Sender<ProgressEvent>) -> (c: EventChannel)
    ensures
        events_sent(c) == Seq::<ProgressEvent>::empty(),
{
    EventChannel { sender }
}

/// Another handle on the same channel (`Sender::clone`), that has sent
/// nothing yet.
#[verifier::external_body]
fn channel_clone(channel: &EventChannel) -> (c: EventChannel)
    ensures
        events_sent(c) == Seq::<ProgressEvent>::empty(),
{
    EventChannel { sender: channel.sender.clone() }
}

/// Sends `event` down the channel (`Sender::send`); false when nobody
/// listens any more. Either way the event is the next one handed to `send`
/// through this handle.
#[verifier::external_body]
fn channel_send(channel: &mut EventChannel, event: ProgressEvent) -> (delivered: bool)
    ensures
        events_sent(*final(channel)) == events_sent(*old(channel)).push(event),
{
    channel.sender.send(event).is_ok()
}

/// Where progress events go. Reporting is best effort: an observer that went
/// away never fails the job.
pub struct ProgressSink {
    channel: EventChannel,
}

impl ProgressSink {
    /// The events this sink has sent down its channel, oldest first.
    pub closed spec fn sent(&self) -> Seq<ProgressEvent> {
        events_sent(self.channel)
    }

    pub fn new(sender: std::sync::mpsc::Sender<ProgressEvent>) -> (r: Self)
        ensures
            r.sent() == Seq::<ProgressEvent>::empty(),
    {
        ProgressSink { channel: channel_from(sender) }
    }

    /// Reports `event`: sends it down the channel; says whether an observer
    /// was still listening.
    pub fn report(&mut self, event: ProgressEvent) -> (delivered: bool)
        ensures
            final(self).sent() == old(self).sent().push(event),
    {
        channel_send(&mut self.channel, event)
    }
}

impl Clone for ProgressSink {
    /// Another sink on the same channel, that has sent nothing yet.
    fn clone(&self) -> (r: Self)
        ensures
            r.sent() == Seq::<ProgressEvent>::empty(),
    {
        ProgressSink { channel: channel_clone(&self.channel) }
    }
}

/// Where a job reads from.
#[derive(Debug)]
pub enum InputSource {
    File(String),
    Stdin,
}

/// Where a job writes to.
#[derive(Debug)]
pub enum OutputDestination {
    File(String),
    Stdout,
}

/// How a job moves its data: split mode needs a file on both ends, every
/// other combination streams.
#[derive(Clone, Copy, Debug, PartialEq, Eq, Structural)]
pub enum Route {
    FileToFile,
    FileToStdout,
    StdinToFile,
    StdinToStdout,
}

pub open spec fn route_of(input: InputSource, output: OutputDestination) -> Route {
    match (input, output) {
        (InputSource::File(_), OutputDestination::File(_)) => Route::FileToFile,
        (InputSource::File(_), OutputDestination::Stdout) => Route::FileToStdout,
        (InputSource::Stdin, OutputDestination::File(_)) => Route::StdinToFile,
        (InputSource::Stdin, OutputDestination::Stdout) => Route::StdinToStdout,
    }
}

pub fn route(input: &InputSource, output: &OutputDestination) -> (r: Route)
    ensures
        r == route_of(*input, *output),
{
    match (input, output) {
        (InputSource::File(_), OutputDestination::File(_)) => Route::FileToFile,
        (InputSource::File(_), OutputDestination::Stdout) => Route::FileToStdout,
        (InputSource::Stdin, OutputDestination::File(_)) => Route::StdinToFile,
        (InputSource::Stdin, OutputDestination::Stdout) => Route::StdinToStdout,
    }
}

/// A configured job: a compressor, a thread count (0 for one per core) and
/// the level it starts at.
pub struct CompressionPipeline {
    compressor: AnyCompressor,
    num_threads: usize,
    initial_level: u32,
}

impl CompressionPipeline {
    pub closed spec fn spec_compressor(&self) -> AnyCompressor {
        self.compressor
    }

    pub closed spec fn spec_num_threads(&self) -> usize {
        self.num_threads
    }

    pub closed spec fn spec_initial_level(&self) -> u32 {
        self.initial_level
    }

    /// A job at the default level.
    pub fn new(compressor: AnyCompressor, num_threads: usize) -> (r: Self)
        ensures
            r.spec_compressor() == compressor,
            r.spec_num_threads() == num_threads,
            r.spec_initial_level() == crate::DEFAULT_COMPRESSION_LEVEL,
    {
        Self::with_level(compressor, num_threads, crate::DEFAULT_COMPRESSION_LEVEL)
    }

    /// A job starting at `initial_level`.
    pub fn with_level(compressor: AnyCompressor, num_threads: usize, initial_level: u32) -> (r: Self)
        ensures
            r.spec_compressor() == compressor,
            r.spec_num_threads() == num_threads,
            r.spec_initial_level() == initial_level,
    {
        CompressionPipeline { compressor, num_threads, initial_level }
    }

    pub fn compressor(&self) -> (r: &AnyCompressor)
        ensures
            *r == self.spec_compressor(),
    {
        &self.compressor
    }

    pub fn num_threads(&self) -> (r: usize)
        ensures
            r == self.spec_num_threads(),
    {
        self.num_threads
    }

    pub fn initial_level(&self) -> (r: u32)
        ensures
            r == self.spec_initial_level(),
    {
        self.initial_level
    }

    /// The size of the worker pool: the configured thread count, or
    /// `available` (the machine's parallelism) when none was configured.
    pub fn resolved_workers(&self, available: usize) -> (r: usize)
        ensures
            r == (if self.spec_num_threads() > 0 { self.spec_num_threads() } else { available }),
    {
        if self.num_threads > 0 {
            self.num_threads
        } else {
            available
        }
    }

    /// The controls the job starts with.
    pub fn initial_controller(&self, available: usize) -> (r: PipelineController)
        ensures
            r@ == initial_controls(
                self.spec_initial_level(),
                if self.spec_num_threads() > 0 { self.spec_num_threads() } else { available },
            ),
    {
        PipelineController::new_with_workers(self.initial_level, self.resolved_workers(available))
    }
}

/// The last event of a job: `Complete` after success, a copy of the error
/// after a failure.
pub fn completion_event(result: &Result<(), ZipError>) -> (r: ProgressEvent)
    ensures
        result is Ok <==> r is Complete,
        result matches Err(e) ==> r matches ProgressEvent::Error(f) && (e is Io <==> f is Io),
        result matches Err(ZipError::Compression(m)) ==> r matches ProgressEvent::Error(
            ZipError::Compression(n),
        ) && n@ == m@,
        result matches Err(ZipError::Verification(m)) ==> r matches ProgressEvent::Error(
            ZipError::Verification(n),
        ) && n@ == m@,
{
    match result {
        Ok(()) => ProgressEvent::Complete,
        Err(e) => ProgressEvent::Error(e.clone()),
    }
}

} // verus!
