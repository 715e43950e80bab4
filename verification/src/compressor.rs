//! The three compression formats, their errors, and the checks made before
//! each chunk is encoded.
use crate::pipeline::ControllerSnapshot;
use crate::DEFAULT_COMPRESSION_LEVEL;
use std::io::{Read, Write};
use vstd::prelude::*;
use vstd::string::*;

verus! {

#[verifier::external_type_specification]
#[verifier::external_body]
pub struct ExIoError(std::io::Error);

#[verifier::external_type_specification]
#[verifier::external_body]
pub struct ExInstant(std::time::Instant);

#[verifier::external_type_specification]
#[verifier::external_body]
pub struct ExIoErrorKind(std::io::ErrorKind);

/// Why a compression job or a verification failed.
#[derive(Debug)]
pub enum ZipError {
    Io(std::io::Error),
    Compression(String),
    Verification(String),
}

/// The compressed container format.
#[derive(Clone, Copy, Debug, PartialEq, Eq, Structural)]
pub enum Format {
    Gzip,
    Bzip2,
    Xz,
}

/// What gzip (flate2's `write::GzEncoder` over a `Vec<u8>`) produces for
/// `input` at `level`: the finished stream, and how many of its bytes had
/// reached the vector before `finish` was called.
pub uninterp spec fn gzip_encoding(level: u32, input: Seq<u8>) -> (Seq<u8>, nat);

/// What bzip2 (`bzip2::write::BzEncoder` over a `Vec<u8>`) produces for
/// `input` at `level`: the finished stream, and how many of its bytes had
/// reached the vector before `finish` was called.
pub uninterp spec fn bzip2_encoding(level: u32, input: Seq<u8>) -> (Seq<u8>, nat);

/// What xz (`xz2::write::XzEncoder` over a `Vec<u8>`) produces for `input`
/// with `preset`: the finished stream, and how many of its bytes had reached
/// the vector before `finish` was called.
pub uninterp spec fn xz_encoding(preset: u32, input: Seq<u8>) -> (Seq<u8>, nat);

/// The message of the error that flate2's `read::MultiGzDecoder` reports when
/// it reads `input` to the end, or `None` when it decodes.
pub uninterp spec fn gzip_decode_failure(input: Seq<u8>) -> Option<Seq<char>>;

/// The message of the error that `bzip2::read::BzDecoder` reports when it
/// reads `input` to the end, or `None` when it decodes.
pub uninterp spec fn bzip2_decode_failure(input: Seq<u8>) -> Option<Seq<char>>;

/// The message of the error that xz2's multi-stream `read::XzDecoder`
/// reports when it reads `input` to the end, or `None` when it decodes.
pub uninterp spec fn xz_decode_failure(input: Seq<u8>) -> Option<Seq<char>>;

/// An xz preset that liblzma accepts: a level up to 9, optionally with the
/// "extreme" flag (the highest bit), and no other bit set.
pub open spec fn xz_preset_valid(preset: u32) -> bool {
    &&& preset & 0x7FFF_FFE0u32 == 0
    &&& preset & 0x1Fu32 <= 9
}

/// The levels each encoder accepts without panicking.
pub open spec fn level_supported(format: Format, level: u32) -> bool {
    match format {
        Format::Gzip => level <= 10,
        Format::Bzip2 => 1 <= level <= 9,
        Format::Xz => xz_preset_valid(level),
    }
}

/// Every level the dashboard's controls can set, 1 to 9, is one that each
/// encoder accepts, so a job whose level was changed while it runs can
/// always encode its next chunk.
pub proof fn lemma_control_levels_supported(format: Format, level: u32)
    requires
        crate::pipeline::valid_level(level as int),
    ensures
        level_supported(format, level),
{
    assert(level <= 9 ==> level & 0x7FFF_FFE0u32 == 0 && level & 0x1Fu32 <= 9) by (bit_vector);
}

/// The encoding of `input` in `format` at `level`.
pub open spec fn encoding(format: Format, level: u32, input: Seq<u8>) -> (Seq<u8>, nat) {
    match format {
        Format::Gzip => gzip_encoding(level, input),
        Format::Bzip2 => bzip2_encoding(level, input),
        Format::Xz => xz_encoding(level, input),
    }
}

/// The decoder's complaint about `input` in `format`, if any.
pub open spec fn decode_failure(format: Format, input: Seq<u8>) -> Option<Seq<char>> {
    match format {
        Format::Gzip => gzip_decode_failure(input),
        Format::Bzip2 => bzip2_decode_failure(input),
        Format::Xz => xz_decode_failure(input),
    }
}

/// How a failed verification of `format` begins its message.
pub open spec fn verification_prefix(format: Format) -> Seq<char> {
    match format {
        Format::Gzip => "Gzip decompression failed: "@,
        Format::Bzip2 => "Bzip2 decompression failed: "@,
        Format::Xz => "XZ decompression failed: "@,
    }
}

/// The text of the error that stops an aborted job.
pub open spec fn aborted_text() -> Seq<char> {
    "Aborted"@
}

/// `r` is the outcome of encoding `input` in `format` at `level`.
pub open spec fn compression_outcome(
    format: Format,
    level: u32,
    input: Seq<u8>,
    r: Result<Vec<u8>, ZipError>,
) -> bool {
    match r {
        Ok(out) => out@ == encoding(format, level, input).0 && decode_failure(format, out@) is None,
        Err(e) => e is Io,
    }
}

/// `r` is the outcome of verifying `input` as `format`.
pub open spec fn verification_outcome(format: Format, input: Seq<u8>, r: Result<(), ZipError>) -> bool {
    match decode_failure(format, input) {
        None => r is Ok,
        Some(reason) => r matches Err(ZipError::Verification(m)) && m@ == verification_prefix(format)
            + reason,
    }
}

/// What a compressor produces passes its verification: when compressing
/// `input` gave `compressed` and verifying that output gave `verified`, the
/// verification succeeded.
pub proof fn lemma_compressed_output_verifies(
    format: Format,
    level: u32,
    input: Seq<u8>,
    compressed: Result<Vec<u8>, ZipError>,
    verified: Result<(), ZipError>,
)
    requires
        compression_outcome(format, level, input, compressed),
        compressed matches Ok(out) && verification_outcome(format, out@, verified),
    ensures
        verified is Ok,
{
}

/// `r` is the error that stops an aborted job.
pub open spec fn is_aborted_error(r: Result<Vec<u8>, ZipError>) -> bool {
    r matches Err(ZipError::Compression(m)) && m@ == aborted_text()
}

/// Encodes `input` with flate2's gzip writer at `level`; the stream it
/// writes is one that flate2's gzip decoder reads without error. Writing
/// into a vector never fails and the deflate backend reports no error on a
/// fresh stream, so the call succeeds; the stream always holds the gzip
/// header and trailer, so it is never empty.
#[verifier::external_body]
fn gzip_encode(level: u32, input: &[u8]) -> (r: Result<(Vec<u8>, usize), std::io::Error>)
    requires
        level <= 10,
    ensures
        r is Ok,
        r matches Ok(out) ==> (out.0@, out.1 as nat) == gzip_encoding(level, input@),
        r matches Ok(out) ==> gzip_decode_failure(out.0@) is None,
        r matches Ok(out) ==> out.0@.len() > 0,
{
    let mut encoder = flate2::write::GzEncoder::new(Vec::new(), flate2::Compression::new(level));
    encoder.write_all(input)?;
    let early = encoder.get_ref().len();
    Ok((encoder.finish()?, early))
}

/// Encodes `input` with bzip2's writer at `level`; the stream it writes is
/// one that bzip2's decoder reads without error. The writer's only error
/// path is its output, a vector, which never fails (compression errors are
/// unwrapped, not returned), so the call succeeds.
#[verifier::external_body]
fn bzip2_encode(level: u32, input: &[u8]) -> (r: Result<(Vec<u8>, usize), std::io::Error>)
    requires
        1 <= level <= 9,
    ensures
        r is Ok,
        r matches Ok(out) ==> (out.0@, out.1 as nat) == bzip2_encoding(level, input@),
        r matches Ok(out) ==> bzip2_decode_failure(out.0@) is None,
{
    let mut encoder = bzip2::write::BzEncoder::new(Vec::new(), bzip2::Compression::new(level));
    encoder.write_all(input)?;
    let early = encoder.get_ref().len();
    Ok((encoder.finish()?, early))
}

/// Encodes `input` with xz2's writer using `preset`; the stream it writes
/// is one that xz2's decoder reads without error. Success is left unsaid:
/// `XzEncoder::try_finish` passes on any error liblzma reports while it
/// finishes the stream (such as running out of memory).
#[verifier::external_body]
fn xz_encode(preset: u32, input: &[u8]) -> (r: Result<(Vec<u8>, usize), std::io::Error>)
    requires
        xz_preset_valid(preset),
    ensures
        r matches Ok(out) ==> (out.0@, out.1 as nat) == xz_encoding(preset, input@),
        r matches Ok(out) ==> xz_decode_failure(out.0@) is None,
{
    let mut encoder = xz2::write::XzEncoder::new(Vec::new(), preset);
    encoder.write_all(input)?;
    let early = encoder.get_ref().len();
    Ok((encoder.finish()?, early))
}

/// Reads `input` to the end with flate2's multi-member gzip decoder and
/// returns the text of the error it reports, if any.
#[verifier::external_body]
fn gzip_decode_check(input: &[u8]) -> (r: Option<String>)
    ensures
        match r {
            Some(m) => gzip_decode_failure(input@) == Some(m@),
            None => gzip_decode_failure(input@) is None,
        },
{
    let mut buffer = Vec::new();
    match flate2::read::MultiGzDecoder::new(input).read_to_end(&mut buffer) {
        Ok(_) => None,
        Err(e) => Some(e.to_string()),
    }
}

/// Reads `input` to the end with bzip2's decoder and returns the text of the
/// error it reports, if any.
#[verifier::external_body]
fn bzip2_decode_check(input: &[u8]) -> (r: Option<String>)
    ensures
        match r {
            Some(m) => bzip2_decode_failure(input@) == Some(m@),
            None => bzip2_decode_failure(input@) is None,
        },
{
    let mut buffer = Vec::new();
    match bzip2::read::BzDecoder::new(input).read_to_end(&mut buffer) {
        Ok(_) => None,
        Err(e) => Some(e.to_string()),
    }
}

/// Reads `input` to the end with xz2's multi-stream decoder and returns the
/// text of the error it reports, if any.
#[verifier::external_body]
fn xz_decode_check(input: &[u8]) -> (r: Option<String>)
    ensures
        match r {
            Some(m) => xz_decode_failure(input@) == Some(m@),
            None => xz_decode_failure(input@) is None,
        },
{
    let mut buffer = Vec::new();
    match xz2::read::XzDecoder::new_multi_decoder(input).read_to_end(&mut buffer) {
        Ok(_) => None,
        Err(e) => Some(e.to_string()),
    }
}

/// Reads the monotonic clock.
#[verifier::external_body]
fn clock_now() -> std::time::Instant {
    std::time::Instant::now()
}

/// Nanoseconds elapsed since `start` (saturating at `u64::MAX`).
#[verifier::external_body]
fn nanos_since(start: &std::time::Instant) -> u64 {
    u64::try_from(start.elapsed().as_nanos()).unwrap_or(u64::MAX)
}

/// A gzip stream written piece by piece with flate2's `write::GzEncoder` into a vector;
/// the output of each piece is taken out of the vector as it comes.
#[verifier::external_body]
pub struct GzipStream {
    encoder: flate2::write::GzEncoder<Vec<u8>>,
}

/// The pieces fed to a gzip stream so far.
pub uninterp spec fn gzip_stream_fed(stream: GzipStream) -> Seq<Seq<u8>>;

/// The bytes taken out of a gzip stream so far.
pub uninterp spec fn gzip_stream_emitted(stream: GzipStream) -> Seq<u8>;

/// The level a gzip stream was made with.
pub uninterp spec fn gzip_stream_level(stream: GzipStream) -> u32;

/// The whole gzip stream that flate2's `write::GzEncoder` writes at `level` when `pieces`
/// are written to it one after the other and it is finished.
pub uninterp spec fn gzip_stream_encoding(level: u32, pieces: Seq<Seq<u8>>) -> Seq<u8>;

/// A fresh gzip stream at `level` (flate2's `write::GzEncoder``::new` over an empty vector).
#[verifier::external_body]
fn gzip_stream_new(level: u32) -> (s: GzipStream)
    requires
        level <= 10,
    ensures
        gzip_stream_fed(s) == Seq::<Seq<u8>>::empty(),
        gzip_stream_emitted(s) == Seq::<u8>::empty(),
        gzip_stream_level(s) == level,
{
    GzipStream { encoder: flate2::write::GzEncoder::new(Vec::new(), flate2::Compression::new(level)) }
}

/// Writes `piece` into the gzip stream (`write_all`) and takes out the
/// bytes the encoder has put into its vector so far (`get_mut`). Writing
/// into a vector never fails, so the call succeeds.
#[verifier::external_body]
fn gzip_stream_feed(stream: &mut GzipStream, piece: &[u8]) -> (r: Result<Vec<u8>, std::io::Error>)
    ensures
        r is Ok,
        gzip_stream_level(*final(stream)) == gzip_stream_level(*old(stream)),
        gzip_stream_fed(*final(stream)) == gzip_stream_fed(*old(stream)).push(piece@),
        r matches Ok(out) ==> gzip_stream_emitted(*final(stream)) == gzip_stream_emitted(*old(stream))
            + out@,
{
    stream.encoder.write_all(piece)?;
    Ok(std::mem::take(stream.encoder.get_mut()))
}

/// Finishes the gzip stream (`finish`) and returns the bytes not yet
/// taken out: with those taken before, the whole stream, which the
/// matching decoder reads without error. Writing into a vector never fails
/// and the deflate backend reports no error on a fresh stream, so the call
/// succeeds.
#[verifier::external_body]
fn gzip_stream_finish(stream: GzipStream) -> (r: Result<Vec<u8>, std::io::Error>)
    ensures
        r is Ok,
        r matches Ok(tail) ==> gzip_stream_emitted(stream) + tail@ == gzip_stream_encoding(
            gzip_stream_level(stream),
            gzip_stream_fed(stream),
        ),
        r matches Ok(tail) ==> gzip_decode_failure(gzip_stream_emitted(stream) + tail@) is None,
{
    stream.encoder.finish()
}

/// A bzip2 stream written piece by piece with `bzip2::write::BzEncoder` into a vector;
/// the output of each piece is taken out of the vector as it comes.
#[verifier::external_body]
pub struct Bzip2Stream {
    encoder: bzip2::write::BzEncoder<Vec<u8>>,
}

/// The pieces fed to a bzip2 stream so far.
pub uninterp spec fn bzip2_stream_fed(stream: Bzip2Stream) -> Seq<Seq<u8>>;

/// The bytes taken out of a bzip2 stream so far.
pub uninterp spec fn bzip2_stream_emitted(stream: Bzip2Stream) -> Seq<u8>;

/// The level a bzip2 stream was made with.
pub uninterp spec fn bzip2_stream_level(stream: Bzip2Stream) -> u32;

/// The whole bzip2 stream that `bzip2::write::BzEncoder` writes at `level` when `pieces`
/// are written to it one after the other and it is finished.
pub uninterp spec fn bzip2_stream_encoding(level: u32, pieces: Seq<Seq<u8>>) -> Seq<u8>;

/// A fresh bzip2 stream at `level` (`bzip2::write::BzEncoder``::new` over an empty vector).
#[verifier::external_body]
fn bzip2_stream_new(level: u32) -> (s: Bzip2Stream)
    requires
        1 <= level <= 9,
    ensures
        bzip2_stream_fed(s) == Seq::<Seq<u8>>::empty(),
        bzip2_stream_emitted(s) == Seq::<u8>::empty(),
        bzip2_stream_level(s) == level,
{
    Bzip2Stream { encoder: bzip2::write::BzEncoder::new(Vec::new(), bzip2::Compression::new(level)) }
}

/// Writes `piece` into the bzip2 stream (`write_all`) and takes out the
/// bytes the encoder has put into its vector so far (`get_mut`). Writing
/// into a vector never fails, so the call succeeds.
#[verifier::external_body]
fn bzip2_stream_feed(stream: &mut Bzip2Stream, piece: &[u8]) -> (r: Result<Vec<u8>, std::io::Error>)
    ensures
        r is Ok,
        bzip2_stream_level(*final(stream)) == bzip2_stream_level(*old(stream)),
        bzip2_stream_fed(*final(stream)) == bzip2_stream_fed(*old(stream)).push(piece@),
        r matches Ok(out) ==> bzip2_stream_emitted(*final(stream)) == bzip2_stream_emitted(*old(stream))
            + out@,
{
    stream.encoder.write_all(piece)?;
    Ok(std::mem::take(stream.encoder.get_mut()))
}

/// Finishes the bzip2 stream (`finish`) and returns the bytes not yet
/// taken out: with those taken before, the whole stream, which the
/// matching decoder reads without error. The writer's only error path is its
/// vector, which never fails, so the call succeeds.
#[verifier::external_body]
fn bzip2_stream_finish(stream: Bzip2Stream) -> (r: Result<Vec<u8>, std::io::Error>)
    ensures
        r is Ok,
        r matches Ok(tail) ==> bzip2_stream_emitted(stream) + tail@ == bzip2_stream_encoding(
            bzip2_stream_level(stream),
            bzip2_stream_fed(stream),
        ),
        r matches Ok(tail) ==> bzip2_decode_failure(bzip2_stream_emitted(stream) + tail@) is None,
{
    stream.encoder.finish()
}

/// A xz stream written piece by piece with xz2's `write::XzEncoder` into a vector;
/// the output of each piece is taken out of the vector as it comes.
#[verifier::external_body]
pub struct XzStream {
    encoder: xz2::write::XzEncoder<Vec<u8>>,
}

/// The pieces fed to a xz stream so far.
pub uninterp spec fn xz_stream_fed(stream: XzStream) -> Seq<Seq<u8>>;

/// The bytes taken out of a xz stream so far.
pub uninterp spec fn xz_stream_emitted(stream: XzStream) -> Seq<u8>;

/// The level a xz stream was made with.
pub uninterp spec fn xz_stream_level(stream: XzStream) -> u32;

/// The whole xz stream that xz2's `write::XzEncoder` writes at `level` when `pieces`
/// are written to it one after the other and it is finished.
pub uninterp spec fn xz_stream_encoding(level: u32, pieces: Seq<Seq<u8>>) -> Seq<u8>;

/// A fresh xz stream at `level` (xz2's `write::XzEncoder``::new` over an empty vector).
#[verifier::external_body]
fn xz_stream_new(level: u32) -> (s: XzStream)
    requires
        xz_preset_valid(level),
    ensures
        xz_stream_fed(s) == Seq::<Seq<u8>>::empty(),
        xz_stream_emitted(s) == Seq::<u8>::empty(),
        xz_stream_level(s) == level,
{
    XzStream { encoder: xz2::write::XzEncoder::new(Vec::new(), level) }
}

/// Writes `piece` into the xz stream (`write_all`) and takes out the
/// bytes the encoder has put into its vector so far (`get_mut`). Writing
/// into a vector never fails, so the call succeeds.
#[verifier::external_body]
fn xz_stream_feed(stream: &mut XzStream, piece: &[u8]) -> (r: Result<Vec<u8>, std::io::Error>)
    ensures
        r is Ok,
        xz_stream_level(*final(stream)) == xz_stream_level(*old(stream)),
        xz_stream_fed(*final(stream)) == xz_stream_fed(*old(stream)).push(piece@),
        r matches Ok(out) ==> xz_stream_emitted(*final(stream)) == xz_stream_emitted(*old(stream))
            + out@,
{
    stream.encoder.write_all(piece)?;
    Ok(std::mem::take(stream.encoder.get_mut()))
}

/// Finishes the xz stream (`finish`) and returns the bytes not yet
/// taken out: with those taken before, the whole stream, which the
/// matching decoder reads without error. Success is left unsaid:
/// `XzEncoder::try_finish` passes on any error liblzma reports while it
/// finishes the stream.
#[verifier::external_body]
fn xz_stream_finish(stream: XzStream) -> (r: Result<Vec<u8>, std::io::Error>)
    ensures
        r matches Ok(tail) ==> xz_stream_emitted(stream) + tail@ == xz_stream_encoding(
            xz_stream_level(stream),
            xz_stream_fed(stream),
        ),
        r matches Ok(tail) ==> xz_decode_failure(xz_stream_emitted(stream) + tail@) is None,
{
    stream.encoder.finish()
}

/// A compression stream fed one chunk at a time, for input too large to
/// hold at once. Each chunk gives back the compressed bytes that became
/// available; finishing gives the rest.
pub enum StreamEncoder {
    Gzip(GzipStream),
    Bzip2(Bzip2Stream),
    Xz(XzStream),
}

impl StreamEncoder {
    pub open spec fn spec_format(&self) -> Format {
        match self {
            StreamEncoder::Gzip(_) => Format::Gzip,
            StreamEncoder::Bzip2(_) => Format::Bzip2,
            StreamEncoder::Xz(_) => Format::Xz,
        }
    }

    /// The chunks fed so far.
    pub open spec fn fed(&self) -> Seq<Seq<u8>> {
        match self {
            StreamEncoder::Gzip(g) => gzip_stream_fed(*g),
            StreamEncoder::Bzip2(b) => bzip2_stream_fed(*b),
            StreamEncoder::Xz(x) => xz_stream_fed(*x),
        }
    }

    /// The compressed bytes handed out so far.
    pub open spec fn emitted(&self) -> Seq<u8> {
        match self {
            StreamEncoder::Gzip(g) => gzip_stream_emitted(*g),
            StreamEncoder::Bzip2(b) => bzip2_stream_emitted(*b),
            StreamEncoder::Xz(x) => xz_stream_emitted(*x),
        }
    }

    /// The level the stream was made with.
    pub open spec fn level(&self) -> u32 {
        match self {
            StreamEncoder::Gzip(g) => gzip_stream_level(*g),
            StreamEncoder::Bzip2(b) => bzip2_stream_level(*b),
            StreamEncoder::Xz(x) => xz_stream_level(*x),
        }
    }

    /// The whole compressed stream for the chunks fed so far, once finished.
    pub open spec fn whole_stream(&self) -> Seq<u8> {
        match self {
            StreamEncoder::Gzip(g) => gzip_stream_encoding(gzip_stream_level(*g), gzip_stream_fed(*g)),
            StreamEncoder::Bzip2(b) => bzip2_stream_encoding(bzip2_stream_level(*b), bzip2_stream_fed(*b)),
            StreamEncoder::Xz(x) => xz_stream_encoding(xz_stream_level(*x), xz_stream_fed(*x)),
        }
    }

    /// A stream of `format` at `level`, with nothing fed yet.
    pub fn new(format: Format, level: u32) -> (r: Self)
        requires
            level_supported(format, level),
        ensures
            r.spec_format() == format,
            r.level() == level,
            r.fed() == Seq::<Seq<u8>>::empty(),
            r.emitted() == Seq::<u8>::empty(),
    {
        match format {
            Format::Gzip => StreamEncoder::Gzip(gzip_stream_new(level)),
            Format::Bzip2 => StreamEncoder::Bzip2(bzip2_stream_new(level)),
            Format::Xz => StreamEncoder::Xz(xz_stream_new(level)),
        }
    }

    /// Compresses the next chunk unless the job is aborted, and gives back
    /// the compressed bytes to write. The controls must not be paused: the
    /// caller waits out a pause and the throttle delay first, as
    /// `control_step` tells it.
    pub fn encode_chunk(&mut self, controls: &ControllerSnapshot, chunk: &[u8]) -> (r: Result<Vec<u8>, ZipError>)
        requires
            !controls.is_paused,
        ensures
            controls.is_aborted ==> is_aborted_error(r) && *final(self) == *old(self),
            !controls.is_aborted ==> {
                &&& r is Ok
                &&& final(self).spec_format() == old(self).spec_format()
                &&& final(self).level() == old(self).level()
                &&& final(self).fed() == old(self).fed().push(chunk@)
                &&& final(self).emitted() == old(self).emitted() + r->Ok_0@
            },
    {
        if controls.is_aborted {
            return Err(aborted_error());
        }
        let fed = match self {
            StreamEncoder::Gzip(g) => gzip_stream_feed(g, chunk),
            StreamEncoder::Bzip2(b) => bzip2_stream_feed(b, chunk),
            StreamEncoder::Xz(x) => xz_stream_feed(x, chunk),
        };
        match fed {
            Ok(out) => Ok(out),
            Err(e) => Err(ZipError::Io(e)),
        }
    }

    /// Ends the stream and gives back its last bytes: with the bytes handed
    /// out before, they make the whole stream for the chunks fed. Gzip and
    /// bzip2 always succeed; xz fails only when liblzma reports an error.
    pub fn finish(self) -> (r: Result<Vec<u8>, ZipError>)
        ensures
            r matches Ok(tail) ==> self.emitted() + tail@ == self.whole_stream(),
            r matches Ok(tail) ==> decode_failure(self.spec_format(), self.whole_stream()) is None,
            r matches Err(e) ==> e is Io,
            self.spec_format() != Format::Xz ==> r is Ok,
    {
        let finished = match self {
            StreamEncoder::Gzip(g) => gzip_stream_finish(g),
            StreamEncoder::Bzip2(b) => bzip2_stream_finish(b),
            StreamEncoder::Xz(x) => xz_stream_finish(x),
        };
        match finished {
            Ok(tail) => Ok(tail),
            Err(e) => Err(ZipError::Io(e)),
        }
    }
}

/// Decides whether `preset` is accepted by the xz encoder.
pub fn xz_preset_is_valid(preset: u32) -> (r: bool)
    ensures
        r == xz_preset_valid(preset),
{
    (preset & 0x7FFF_FFE0u32) == 0 && (preset & 0x1Fu32) <= 9
}

/// Decides whether `format` can be encoded at `level`.
pub fn level_is_supported(format: Format, level: u32) -> (r: bool)
    ensures
        r == level_supported(format, level),
{
    match format {
        Format::Gzip => level <= 10,
        Format::Bzip2 => 1 <= level && level <= 9,
        Format::Xz => xz_preset_is_valid(level),
    }
}

/// Encodes `input` in `format` at `level`; also returns how many bytes of
/// the stream existed before it was finished.
pub fn encode(format: Format, level: u32, input: &[u8]) -> (r: Result<(Vec<u8>, usize), ZipError>)
    requires
        level_supported(format, level),
    ensures
        match r {
            Ok(out) => (out.0@, out.1 as nat) == encoding(format, level, input@) && decode_failure(
                format,
                out.0@,
            ) is None,
            Err(e) => e is Io,
        },
        format != Format::Xz ==> r is Ok,
        format == Format::Gzip && r is Ok ==> r->Ok_0.0@.len() > 0,
{
    let encoded = match format {
        Format::Gzip => gzip_encode(level, input),
        Format::Bzip2 => bzip2_encode(level, input),
        Format::Xz => xz_encode(level, input),
    };
    match encoded {
        Ok(out) => Ok(out),
        Err(e) => Err(ZipError::Io(e)),
    }
}

/// Decodes `input` as `format` and reports a verification error carrying
/// the decoder's complaint.
pub fn verify_format(format: Format, input: &[u8]) -> (r: Result<(), ZipError>)
    ensures
        verification_outcome(format, input@, r),
{
    let failure = match format {
        Format::Gzip => gzip_decode_check(input),
        Format::Bzip2 => bzip2_decode_check(input),
        Format::Xz => xz_decode_check(input),
    };
    match failure {
        None => Ok(()),
        Some(reason) => {
            let prefix = match format {
                Format::Gzip => "Gzip decompression failed: ",
                Format::Bzip2 => "Bzip2 decompression failed: ",
                Format::Xz => "XZ decompression failed: ",
            };
            let mut message = String::from_str(prefix);
            message.append(reason.as_str());
            Err(ZipError::Verification(message))
        },
    }
}

/// The error that stops an aborted job.
pub fn aborted_error() -> (e: ZipError)
    ensures
        e matches ZipError::Compression(m) && m@ == aborted_text(),
{
    ZipError::Compression(String::from_str("Aborted"))
}

/// What a compressor must do before it encodes the next chunk.
#[derive(Clone, Copy, Debug, PartialEq, Eq, Structural)]
pub enum ControlStep {
    /// Stop with the abort error.
    Abort,
    /// Sleep for the pause interval and look again.
    WaitWhilePaused,
    /// Go on after sleeping `throttle_ms` milliseconds (none when zero).
    Proceed { throttle_ms: u64 },
}

/// How long, in milliseconds, a paused compressor sleeps between checks.
pub const PAUSE_POLL_MS: u64 = 50;

/// The step the controls ask for: an abort wins over a pause, and a running
/// job waits for the throttle delay.
pub open spec fn control_step_for(controls: ControllerSnapshot) -> ControlStep {
    if controls.is_aborted {
        ControlStep::Abort
    } else if controls.is_paused {
        ControlStep::WaitWhilePaused
    } else {
        ControlStep::Proceed { throttle_ms: controls.throttle_delay_ms }
    }
}

/// Decides what to do before the next chunk, given the current controls.
pub fn control_step(controls: &ControllerSnapshot) -> (r: ControlStep)
    ensures
        r == control_step_for(*controls),
{
    if controls.is_aborted {
        ControlStep::Abort
    } else if controls.is_paused {
        ControlStep::WaitWhilePaused
    } else {
        ControlStep::Proceed { throttle_ms: controls.throttle_delay_ms }
    }
}

/// An abort stops the compressor whether or not the job is paused; a pause
/// holds it; otherwise it goes on after exactly the throttle delay the
/// controls hold at that moment.
pub proof fn lemma_control_step_obeys_controls(controls: ControllerSnapshot)
    ensures
        controls.is_aborted ==> control_step_for(controls) == ControlStep::Abort,
        !controls.is_aborted && controls.is_paused ==> control_step_for(controls)
            == ControlStep::WaitWhilePaused,
        !controls.is_aborted && !controls.is_paused ==> control_step_for(controls) == (
        ControlStep::Proceed { throttle_ms: controls.throttle_delay_ms }),
{
}

/// A compression format with a default level.
///
/// The level used for encoding comes from the job's controls; the
/// compressor's own level is what the job was configured with.
pub trait Compressor {
    spec fn spec_format(&self) -> Format;

    /// The format this compressor writes.
    fn format(&self) -> (f: Format)
        ensures
            f == self.spec_format(),
    ;

    /// Compresses `input` at the default level. Gzip and bzip2 always
    /// succeed; xz fails only when liblzma reports an error.
    fn compress(&self, input: &[u8]) -> (r: Result<Vec<u8>, ZipError>)
        ensures
            compression_outcome(self.spec_format(), DEFAULT_COMPRESSION_LEVEL, input@, r),
            self.spec_format() != Format::Xz ==> r is Ok,
            self.spec_format() == Format::Gzip && r is Ok ==> r->Ok_0@.len() > 0,
    {
        assert(xz_preset_valid(9u32)) by (bit_vector);
        match encode(self.format(), DEFAULT_COMPRESSION_LEVEL, input) {
            Ok(out) => Ok(out.0),
            Err(e) => Err(e),
        }
    }

    /// Compresses `input` in one piece at the level of `controls` (the job's
    /// controls as they stand when the chunk is taken), unless the job is
    /// aborted. On success `on_progress` is told how many input bytes went
    /// in, how many output bytes existed before the stream was finished, and
    /// how many nanoseconds the encoding took.
    ///
    /// The controls must not be paused: the caller waits out a pause and the
    /// throttle delay first, as `control_step` tells it.
    fn compress_with_progress<F: Fn(usize, usize, u64)>(
        &self,
        input: &[u8],
        on_progress: &F,
        controls: &ControllerSnapshot,
    ) -> (r: Result<Vec<u8>, ZipError>)
        requires
            !controls.is_paused,
            controls.is_aborted || level_supported(self.spec_format(), controls.compression_level),
            forall|a: usize, b: usize, c: u64| on_progress.requires((a, b, c)),
        ensures
            controls.is_aborted ==> is_aborted_error(r),
            !controls.is_aborted ==> compression_outcome(
                self.spec_format(),
                controls.compression_level,
                input@,
                r,
            ),
            !controls.is_aborted && self.spec_format() != Format::Xz ==> r is Ok,
            !controls.is_aborted && self.spec_format() == Format::Gzip && r is Ok ==> r->Ok_0@.len()
                > 0,
            !controls.is_aborted && r is Ok ==> exists|nanos: u64|
                #[trigger] call_ensures(
                    on_progress,
                    (
                        input@.len() as usize,
                        encoding(self.spec_format(), controls.compression_level, input@).1 as usize,
                        nanos,
                    ),
                    (),
                ),
    {
        if controls.is_aborted {
            return Err(aborted_error());
        }
        let start = clock_now();
        match encode(self.format(), controls.compression_level, input) {
            Ok(out) => {
                let nanos = nanos_since(&start);
                on_progress(input.len(), out.1, nanos);
                assert(out.1 == encoding(self.spec_format(), controls.compression_level, input@).1 as usize);
                assert(call_ensures(
                    on_progress,
                    (
                        input@.len() as usize,
                        encoding(self.spec_format(), controls.compression_level, input@).1 as usize,
                        nanos,
                    ),
                    (),
                ));
                Ok(out.0)
            },
            Err(e) => Err(e),
        }
    }

    /// Decodes `input` to check its integrity.
    fn verify(&self, input: &[u8]) -> (r: Result<(), ZipError>)
        ensures
            verification_outcome(self.spec_format(), input@, r),
    {
        verify_format(self.format(), input)
    }
}

/// Gzip compressor.
pub struct GzipCompressor {
    pub level: u32,
}

/// Bzip2 compressor.
pub struct Bzip2Compressor {
    pub level: u32,
}

/// Xz compressor.
pub struct XzCompressor {
    pub level: u32,
}

impl Compressor for GzipCompressor {
    open spec fn spec_format(&self) -> Format {
        Format::Gzip
    }

    fn format(&self) -> (f: Format) {
        Format::Gzip
    }
}

impl Compressor for Bzip2Compressor {
    open spec fn spec_format(&self) -> Format {
        Format::Bzip2
    }

    fn format(&self) -> (f: Format) {
        Format::Bzip2
    }
}

impl Compressor for XzCompressor {
    open spec fn spec_format(&self) -> Format {
        Format::Xz
    }

    fn format(&self) -> (f: Format) {
        Format::Xz
    }
}

} // verus!

verus! {

/// Any one of the three compressors.
pub enum AnyCompressor {
    Gzip(GzipCompressor),
    Bzip2(Bzip2Compressor),
    Xz(XzCompressor),
}

impl AnyCompressor {
    /// The level the compressor was configured with.
    pub open spec fn level_of(&self) -> u32 {
        match self {
            AnyCompressor::Gzip(c) => c.level,
            AnyCompressor::Bzip2(c) => c.level,
            AnyCompressor::Xz(c) => c.level,
        }
    }

    /// The level the compressor was configured with.
    pub fn level(&self) -> (r: u32)
        ensures
            r == self.level_of(),
    {
        match self {
            AnyCompressor::Gzip(c) => c.level,
            AnyCompressor::Bzip2(c) => c.level,
            AnyCompressor::Xz(c) => c.level,
        }
    }
}

impl Compressor for AnyCompressor {
    open spec fn spec_format(&self) -> Format {
        match self {
            AnyCompressor::Gzip(_) => Format::Gzip,
            AnyCompressor::Bzip2(_) => Format::Bzip2,
            AnyCompressor::Xz(_) => Format::Xz,
        }
    }

    fn format(&self) -> (f: Format) {
        match self {
            AnyCompressor::Gzip(_) => Format::Gzip,
            AnyCompressor::Bzip2(_) => Format::Bzip2,
            AnyCompressor::Xz(_) => Format::Xz,
        }
    }
}

/// The text of `error` as the program prints it.
pub open spec fn error_text(error: ZipError, io_text: Seq<char>) -> Seq<char> {
    match error {
        ZipError::Io(_) => "IO Error: "@ + io_text,
        ZipError::Compression(m) => "Compression Error: "@ + m@,
        ZipError::Verification(m) => "Verification Failed: "@ + m@,
    }
}

/// The text the standard library gives for an I/O error.
#[verifier::external_body]
fn io_error_text(error: &std::io::Error) -> String {
    error.to_string()
}

/// The kind of an I/O error (`std::io::Error::kind`).
#[verifier::external_body]
fn io_error_kind(error: &std::io::Error) -> std::io::ErrorKind {
    error.kind()
}

/// A new I/O error of `kind` carrying `text` (`std::io::Error::new`).
#[verifier::external_body]
fn io_error_new(kind: std::io::ErrorKind, text: String) -> std::io::Error {
    std::io::Error::new(kind, text)
}

impl ZipError {
    /// The error as it is printed: a prefix naming its kind, then its text.
    /// Of an I/O error the text is what the standard library says of it.
    pub fn message(&self) -> (r: String)
        ensures
            !(self is Io) ==> r@ == error_text(*self, Seq::empty()),
            self is Io ==> exists|t: Seq<char>| r@ == error_text(*self, t),
    {
        match self {
            ZipError::Io(e) => {
                let text = io_error_text(e);
                let mut r = String::from_str("IO Error: ");
                r.append(text.as_str());
                assert(r@ == error_text(*self, text@));
                r
            },
            ZipError::Compression(m) => {
                let mut r = String::from_str("Compression Error: ");
                r.append(m.as_str());
                r
            },
            ZipError::Verification(m) => {
                let mut r = String::from_str("Verification Failed: ");
                r.append(m.as_str());
                r
            },
        }
    }
}

impl Clone for ZipError {
    /// A copy of the error; an I/O error is copied by kind and text.
    fn clone(&self) -> (r: ZipError)
        ensures
            self is Io <==> r is Io,
            self matches ZipError::Compression(m) ==> r matches ZipError::Compression(n) && n@
                == m@,
            self matches ZipError::Verification(m) ==> r matches ZipError::Verification(n) && n@
                == m@,
    {
        match self {
            ZipError::Io(e) => ZipError::Io(io_error_new(io_error_kind(e), io_error_text(e))),
            ZipError::Compression(m) => ZipError::Compression(m.clone()),
            ZipError::Verification(m) => ZipError::Verification(m.clone()),
        }
    }
}

} // verus!
