//! Parallel multi-format compression: the verified core.
//!
//! The library holds the decisions of the compression pipeline (runtime
//! controls, slice planning, chunk sequencing and reordering, the dashboard
//! state machine) and the calls into the gzip, bzip2 and xz encoders.
//! Threads, files, terminals and signal handling live in the program around it.
pub mod cli;
pub mod compressor;
pub mod pipeline;
pub mod split_mode;
pub mod stream_mode;
pub mod text;
pub mod tui;

use vstd::prelude::*;

verus! {

/// Compression level used when none is requested (the strongest one).
pub const DEFAULT_COMPRESSION_LEVEL: u32 = 9;

} // verus!
