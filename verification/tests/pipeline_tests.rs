use zipmt_rust::compressor::{Compressor, Format, GzipCompressor, XzCompressor, ZipError};
use zipmt_rust::compressor::AnyCompressor;
use zipmt_rust::pipeline::{
    chunk_size_is_valid, completion_event, power_of_two, route, CompressionPipeline,
    InputSource, OutputDestination, PipelineController, ProgressEvent, ProgressSink, Route,
    WorkerStage, DEFAULT_CHUNK_SIZE, MAX_CHUNK_SIZE, MIN_CHUNK_SIZE,
};

#[test]
fn controller_snapshot_exposes_consistent_validated_state() {
    let mut controller = PipelineController::new_with_workers(6, 4);
    controller.pause();
    controller.update_throttle(150);
    assert!(controller.update_chunk_size(128 * 1024));
    assert!(controller.update_active_workers(2));
    let snapshot = controller.snapshot();

    assert!(snapshot.is_paused);
    assert_eq!(snapshot.throttle_delay_ms, 150);
    assert_eq!(snapshot.compression_level, 6);
    assert_eq!(snapshot.chunk_size, 128 * 1024);
    assert_eq!(snapshot.active_workers, 2);
    assert_eq!(snapshot.max_workers, 4);
}

#[test]
fn disconnected_progress_observer_is_explicitly_best_effort() {
    let (sender, receiver) = std::sync::mpsc::channel();
    let mut progress = ProgressSink::new(sender);
    drop(receiver);

    assert!(!progress.report(ProgressEvent::Complete));
}

#[test]
fn connected_progress_observer_receives_events() {
    let (sender, receiver) = std::sync::mpsc::channel();
    let mut progress = ProgressSink::new(sender);
    let mut copy = progress.clone();
    assert!(progress.report(ProgressEvent::ChunkWritten { seq_num: 3 }));
    assert!(copy.report(ProgressEvent::Complete));
    assert!(matches!(
        receiver.recv().unwrap(),
        ProgressEvent::ChunkWritten { seq_num: 3 }
    ));
    assert!(matches!(receiver.recv().unwrap(), ProgressEvent::Complete));
}

#[test]
fn controller_validates_chunk_size_boundaries() {
    let mut controller = PipelineController::new_with_workers(9, 4);
    assert_eq!(controller.chunk_size(), DEFAULT_CHUNK_SIZE);
    assert!(controller.update_chunk_size(MIN_CHUNK_SIZE));
    assert!(controller.update_chunk_size(MAX_CHUNK_SIZE));
    assert!(!controller.update_chunk_size(MIN_CHUNK_SIZE - 1));
    assert!(!controller.update_chunk_size(3 * MIN_CHUNK_SIZE));
    assert_eq!(controller.chunk_size(), MAX_CHUNK_SIZE);
}

#[test]
fn controller_validates_active_worker_boundaries() {
    let mut controller = PipelineController::new_with_workers(9, 4);
    assert_eq!(controller.active_workers(), 4);
    assert!(controller.update_active_workers(1));
    assert!(controller.update_active_workers(4));
    assert!(!controller.update_active_workers(0));
    assert!(!controller.update_active_workers(5));
    assert_eq!(controller.active_workers(), 4);
}

#[test]
fn controller_rejects_out_of_range_level_and_throttle() {
    let mut controller = PipelineController::new_with_workers(5, 2);
    controller.update_level(0);
    assert_eq!(controller.compression_level(), 5);
    controller.update_level(10);
    assert_eq!(controller.compression_level(), 5);
    controller.update_level(9);
    assert_eq!(controller.compression_level(), 9);
    controller.update_throttle(501);
    assert_eq!(controller.throttle_delay_ms(), 0);
    controller.update_throttle(500);
    assert_eq!(controller.throttle_delay_ms(), 500);
}

#[test]
fn controller_pool_has_at_least_one_worker() {
    let controller = PipelineController::new_with_workers(6, 0);
    assert_eq!(controller.max_workers(), 1);
    assert_eq!(controller.active_workers(), 1);
    assert!(!controller.is_paused());
    assert!(!controller.is_aborted());
}

#[test]
fn abort_stays_set_and_pause_is_undone_by_resume() {
    let mut controller = PipelineController::new_with_workers(6, 2);
    let before = controller.snapshot();
    controller.pause();
    assert!(controller.is_paused());
    controller.resume();
    assert_eq!(controller.snapshot(), before);
    controller.abort();
    controller.resume();
    controller.update_level(3);
    controller.update_throttle(10);
    assert!(controller.update_chunk_size(MIN_CHUNK_SIZE));
    assert!(controller.update_active_workers(1));
    assert!(controller.is_aborted());
}

#[test]
fn chunk_sizes_must_be_powers_of_two_in_range() {
    assert!(power_of_two(1));
    assert!(power_of_two(1 << 20));
    assert!(!power_of_two(0));
    assert!(!power_of_two(3 * 1024));
    assert!(chunk_size_is_valid(256 * 1024));
    assert!(!chunk_size_is_valid(32 * 1024));
    assert!(!chunk_size_is_valid(16 * 1024 * 1024));
}

#[test]
fn worker_stage_labels() {
    assert_eq!(WorkerStage::Off.label(), "OFF");
    assert_eq!(WorkerStage::Idle.label(), "IDLE");
    assert_eq!(WorkerStage::Busy.label(), "BUSY");
    assert_eq!(WorkerStage::Hold.label(), "HOLD");
}

#[test]
fn routes_follow_input_and_output() {
    let file = |p: &str| InputSource::File(p.to_string());
    let out = |p: &str| OutputDestination::File(p.to_string());
    assert_eq!(route(&file("a"), &out("b")), Route::FileToFile);
    assert_eq!(route(&file("a"), &OutputDestination::Stdout), Route::FileToStdout);
    assert_eq!(route(&InputSource::Stdin, &out("b")), Route::StdinToFile);
    assert_eq!(
        route(&InputSource::Stdin, &OutputDestination::Stdout),
        Route::StdinToStdout
    );
}

#[test]
fn pipeline_defaults_and_worker_resolution() {
    let pipeline = CompressionPipeline::new(AnyCompressor::Gzip(GzipCompressor { level: 6 }), 0);
    assert_eq!(pipeline.initial_level(), 9);
    assert_eq!(pipeline.num_threads(), 0);
    assert_eq!(pipeline.resolved_workers(12), 12);
    assert_eq!(pipeline.compressor().format(), Format::Gzip);
    let controller = pipeline.initial_controller(3);
    assert_eq!(controller.max_workers(), 3);
    assert_eq!(controller.compression_level(), 9);

    let pipeline =
        CompressionPipeline::with_level(AnyCompressor::Xz(XzCompressor { level: 2 }), 5, 4);
    assert_eq!(pipeline.initial_level(), 4);
    assert_eq!(pipeline.resolved_workers(12), 5);
    assert_eq!(pipeline.initial_controller(12).active_workers(), 5);
    assert_eq!(pipeline.compressor().level(), 2);
}

#[test]
fn completion_event_reports_success_or_the_error() {
    assert!(matches!(completion_event(&Ok(())), ProgressEvent::Complete));
    match completion_event(&Err(ZipError::Verification("bad".to_string()))) {
        ProgressEvent::Error(ZipError::Verification(m)) => assert_eq!(m, "bad"),
        other => panic!("unexpected {:?}", other),
    }
    assert!(matches!(
        completion_event(&Err(ZipError::Io(std::io::Error::other("x")))),
        ProgressEvent::Error(ZipError::Io(_))
    ));
    match completion_event(&Err(ZipError::Compression("Aborted".to_string()))) {
        ProgressEvent::Error(ZipError::Compression(m)) => assert_eq!(m, "Aborted"),
        other => panic!("unexpected {:?}", other),
    }
}
