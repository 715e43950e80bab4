use std::io::Read;
use std::sync::{Arc, Mutex};
use zipmt_rust::compressor::{
    aborted_error, control_step, encode, level_is_supported, verify_format, xz_preset_is_valid,
    Bzip2Compressor, Compressor, ControlStep, Format, GzipCompressor, StreamEncoder, XzCompressor,
    ZipError,
};
use zipmt_rust::pipeline::PipelineController;

fn test_compressor_behavior<C: Compressor>(compressor: &C) {
    let sample_data =
        b"Hello, this is a test string to verify the compression and decompression loops in Rust!";

    let compressed = compressor.compress(sample_data);
    assert!(compressed.is_ok(), "Compression failed");
    let compressed_data = compressed.unwrap();
    assert!(!compressed_data.is_empty(), "Compressed data is empty");
    assert_ne!(
        sample_data.to_vec(),
        compressed_data,
        "Data was not compressed/modified"
    );

    let verify_result = compressor.verify(&compressed_data);
    assert!(
        verify_result.is_ok(),
        "Verification failed on valid data: {:?}",
        verify_result.err()
    );

    let mut corrupt_data = compressed_data.clone();
    if corrupt_data.len() > 10 {
        for i in (corrupt_data.len() / 2)..(corrupt_data.len() / 2 + 5) {
            corrupt_data[i] ^= 0xFF;
        }
    } else {
        corrupt_data[0] ^= 0xFF;
    }
    let verify_corrupt = compressor.verify(&corrupt_data);
    assert!(
        verify_corrupt.is_err(),
        "Verification succeeded on corrupted data"
    );
}

#[test]
fn test_gzip_compressor() {
    test_compressor_behavior(&GzipCompressor { level: 6 });
}

#[test]
fn test_bzip2_compressor() {
    test_compressor_behavior(&Bzip2Compressor { level: 6 });
}

#[test]
fn test_xz_compressor() {
    test_compressor_behavior(&XzCompressor { level: 6 });
}

#[test]
fn stream_chunk_is_fed_directly_to_encoder() {
    let input = vec![b'x'; 256 * 1024];
    let calls = Arc::new(Mutex::new(Vec::new()));
    let callback_calls = calls.clone();
    let controller = PipelineController::new_with_workers(6, 4);
    let compressed = GzipCompressor { level: 6 }
        .compress_with_progress(
            &input,
            &move |input_bytes: usize, _: usize, _: u64| {
                callback_calls.lock().unwrap().push(input_bytes)
            },
            &controller.snapshot(),
        )
        .unwrap();

    assert!(!compressed.is_empty());
    assert_eq!(*calls.lock().unwrap(), vec![input.len()]);
}

#[test]
fn compression_round_trips_through_each_decoder() {
    let input = b"round trip data round trip data round trip data".to_vec();
    let gz = GzipCompressor { level: 9 }.compress(&input).unwrap();
    let mut out = Vec::new();
    flate2::read::MultiGzDecoder::new(&gz[..]).read_to_end(&mut out).unwrap();
    assert_eq!(out, input);

    let bz = Bzip2Compressor { level: 9 }.compress(&input).unwrap();
    let mut out = Vec::new();
    bzip2::read::BzDecoder::new(&bz[..]).read_to_end(&mut out).unwrap();
    assert_eq!(out, input);

    let xz = XzCompressor { level: 9 }.compress(&input).unwrap();
    let mut out = Vec::new();
    xz2::read::XzDecoder::new(&xz[..]).read_to_end(&mut out).unwrap();
    assert_eq!(out, input);
}

#[test]
fn aborted_job_compresses_nothing() {
    let mut controller = PipelineController::new_with_workers(6, 2);
    controller.abort();
    let calls = Arc::new(Mutex::new(0usize));
    let seen = calls.clone();
    let result = XzCompressor { level: 6 }.compress_with_progress(
        b"never encoded",
        &move |_: usize, _: usize, _: u64| *seen.lock().unwrap() += 1,
        &controller.snapshot(),
    );
    match result {
        Err(ZipError::Compression(m)) => assert_eq!(m, "Aborted"),
        other => panic!("expected the abort error, got {:?}", other),
    }
    assert_eq!(*calls.lock().unwrap(), 0);
}

#[test]
fn compress_with_progress_uses_the_controller_level() {
    let input = vec![b'z'; 4096];
    let mut controller = PipelineController::new_with_workers(1, 2);
    let fast = Bzip2Compressor { level: 9 }
        .compress_with_progress(&input, &|_: usize, _: usize, _: u64| {}, &controller.snapshot())
        .unwrap();
    let expected = encode(Format::Bzip2, 1, &input).unwrap().0;
    assert_eq!(fast, expected);
    controller.update_level(9);
    let strong = Bzip2Compressor { level: 1 }
        .compress_with_progress(&input, &|_: usize, _: usize, _: u64| {}, &controller.snapshot())
        .unwrap();
    assert_eq!(strong, encode(Format::Bzip2, 9, &input).unwrap().0);
}

#[test]
fn encode_reports_bytes_written_before_finish() {
    let input = vec![0u8; 1024];
    let (stream, early) = encode(Format::Gzip, 6, &input).unwrap();
    assert!(early <= stream.len());
    assert!(!stream.is_empty());
}

#[test]
fn verification_messages_name_the_format() {
    let garbage = b"definitely not compressed";
    for (format, prefix) in [
        (Format::Gzip, "Gzip decompression failed: "),
        (Format::Bzip2, "Bzip2 decompression failed: "),
        (Format::Xz, "XZ decompression failed: "),
    ] {
        match verify_format(format, garbage) {
            Err(ZipError::Verification(m)) => assert!(m.starts_with(prefix), "{}", m),
            other => panic!("expected a verification error, got {:?}", other),
        }
    }
}

#[test]
fn supported_levels_per_format() {
    assert!(level_is_supported(Format::Gzip, 0));
    assert!(level_is_supported(Format::Gzip, 10));
    assert!(!level_is_supported(Format::Gzip, 11));
    assert!(!level_is_supported(Format::Bzip2, 0));
    assert!(level_is_supported(Format::Bzip2, 1));
    assert!(level_is_supported(Format::Bzip2, 9));
    assert!(!level_is_supported(Format::Bzip2, 10));
    assert!(level_is_supported(Format::Xz, 0));
    assert!(level_is_supported(Format::Xz, 9));
    assert!(!level_is_supported(Format::Xz, 10));
    assert!(xz_preset_is_valid(0x8000_0006));
    assert!(!xz_preset_is_valid(0x4000_0006));
    assert!(!xz_preset_is_valid(0x8000_000A));
}

#[test]
fn control_step_orders_abort_pause_and_throttle() {
    let mut controller = PipelineController::new_with_workers(6, 2);
    assert_eq!(
        control_step(&controller.snapshot()),
        ControlStep::Proceed { throttle_ms: 0 }
    );
    controller.update_throttle(120);
    assert_eq!(
        control_step(&controller.snapshot()),
        ControlStep::Proceed { throttle_ms: 120 }
    );
    controller.pause();
    assert_eq!(control_step(&controller.snapshot()), ControlStep::WaitWhilePaused);
    controller.abort();
    assert_eq!(control_step(&controller.snapshot()), ControlStep::Abort);
}

#[test]
fn error_messages_carry_their_prefix() {
    assert_eq!(aborted_error().message(), "Compression Error: Aborted");
    assert_eq!(
        ZipError::Verification("bad".to_string()).message(),
        "Verification Failed: bad"
    );
    assert_eq!(
        ZipError::Io(std::io::Error::other("disk gone")).message(),
        "IO Error: disk gone"
    );
    let copy = ZipError::Io(std::io::Error::other("disk gone")).clone();
    assert_eq!(copy.message(), "IO Error: disk gone");
    let copy = ZipError::Compression("x".to_string()).clone();
    assert_eq!(copy.message(), "Compression Error: x");
}

#[test]
fn gzip_and_bzip2_always_compress_even_empty_input() {
    let gz = GzipCompressor { level: 1 }.compress(b"").unwrap();
    assert!(!gz.is_empty());
    assert!(GzipCompressor { level: 1 }.verify(&gz).is_ok());
    let bz = Bzip2Compressor { level: 1 }.compress(b"").unwrap();
    assert!(Bzip2Compressor { level: 1 }.verify(&bz).is_ok());
    let (stream, early) = encode(Format::Bzip2, 9, b"").unwrap();
    assert!(early <= stream.len());
}

fn stream_in_chunks(format: Format, level: u32, chunks: &[&[u8]]) -> Vec<u8> {
    let controller = PipelineController::new_with_workers(level.max(1).min(9), 1);
    let mut stream = StreamEncoder::new(format, level);
    let mut out = Vec::new();
    for chunk in chunks {
        out.extend(stream.encode_chunk(&controller.snapshot(), chunk).unwrap());
    }
    out.extend(stream.finish().unwrap());
    out
}

#[test]
fn chunked_streams_decode_to_their_input() {
    let chunks: [&[u8]; 3] = [b"first chunk, ", b"second chunk, ", b"third chunk"];
    let whole: Vec<u8> = chunks.concat();

    let gz = stream_in_chunks(Format::Gzip, 6, &chunks);
    let mut out = Vec::new();
    flate2::read::MultiGzDecoder::new(&gz[..]).read_to_end(&mut out).unwrap();
    assert_eq!(out, whole);

    let bz = stream_in_chunks(Format::Bzip2, 6, &chunks);
    let mut out = Vec::new();
    bzip2::read::BzDecoder::new(&bz[..]).read_to_end(&mut out).unwrap();
    assert_eq!(out, whole);

    let xz = stream_in_chunks(Format::Xz, 6, &chunks);
    let mut out = Vec::new();
    xz2::read::XzDecoder::new(&xz[..]).read_to_end(&mut out).unwrap();
    assert_eq!(out, whole);
    assert!(verify_format(Format::Xz, &xz).is_ok());
}

#[test]
fn aborted_stream_takes_no_chunk() {
    let mut controller = PipelineController::new_with_workers(6, 1);
    let mut stream = StreamEncoder::new(Format::Gzip, 6);
    let first = stream.encode_chunk(&controller.snapshot(), b"kept").unwrap();
    controller.abort();
    match stream.encode_chunk(&controller.snapshot(), b"dropped") {
        Err(ZipError::Compression(m)) => assert_eq!(m, "Aborted"),
        other => panic!("expected the abort error, got {:?}", other),
    }
    let mut whole = first;
    whole.extend(stream.finish().unwrap());
    let mut out = Vec::new();
    flate2::read::MultiGzDecoder::new(&whole[..]).read_to_end(&mut out).unwrap();
    assert_eq!(out, b"kept");
}
