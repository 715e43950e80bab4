use zipmt_rust::cli::{
    default_output_path, exit_code_for_error, initial_tui_state, output_extension,
    resolve_compressor, resolve_run_plan, should_run_tui, verification_target, LogBuffer,
    LOG_CAPACITY,
};
use zipmt_rust::pipeline::{InputSource, OutputDestination};
use zipmt_rust::tui::TuiMode;
use zipmt_rust::compressor::{Compressor, Format, ZipError};
use zipmt_rust::DEFAULT_COMPRESSION_LEVEL;

#[test]
fn streaming_tui_runs_when_stderr_is_a_terminal() {
    assert!(should_run_tui(true, false, false, true));
}

#[test]
fn tui_falls_back_when_stderr_is_redirected() {
    assert!(!should_run_tui(true, false, false, false));
}

#[test]
fn no_tui_wins_over_cli_and_environment_overrides() {
    assert!(!should_run_tui(true, true, true, true));
}

#[test]
fn force_tui_supports_noninteractive_test_backends() {
    assert!(should_run_tui(false, false, true, false));
}

#[test]
fn tui_is_off_unless_requested() {
    assert!(!should_run_tui(false, false, false, true));
}

#[test]
fn default_level_constant_is_maximum() {
    assert_eq!(DEFAULT_COMPRESSION_LEVEL, 9);
}

#[test]
fn compressor_resolution_is_typed_and_preserves_diagnostic() {
    assert!(resolve_compressor("xz", 5).is_ok());
    assert!(resolve_compressor("gz", 5).is_ok());
    assert!(resolve_compressor("bz2", 5).is_ok());
    assert_eq!(
        resolve_compressor("zip", 5).err().as_deref(),
        Some("Unknown algorithm 'zip'. Supported: xz, bz2, gz")
    );
}

#[test]
fn resolved_compressor_has_format_and_level() {
    let c = resolve_compressor("bz2", 7).ok().unwrap();
    assert_eq!(c.format(), Format::Bzip2);
    assert_eq!(c.level(), 7);
    let c = resolve_compressor("gz", 1).ok().unwrap();
    assert_eq!(c.format(), Format::Gzip);
    assert_eq!(c.level(), 1);
    let c = resolve_compressor("xz", 9).ok().unwrap();
    assert_eq!(c.format(), Format::Xz);
    assert_eq!(
        resolve_compressor("", 9).err().as_deref(),
        Some("Unknown algorithm ''. Supported: xz, bz2, gz")
    );
    assert!(resolve_compressor("GZ", 9).is_err());
}

#[test]
fn verification_errors_have_the_distinct_exit_code() {
    assert_eq!(
        exit_code_for_error(&ZipError::Verification("failed".into())),
        3
    );
    assert_eq!(
        exit_code_for_error(&ZipError::Io(std::io::Error::other("failed"))),
        2
    );
    assert_eq!(
        exit_code_for_error(&ZipError::Compression("failed".into())),
        2
    );
}

#[test]
fn output_extension_follows_algorithm() {
    assert_eq!(output_extension("gz"), "gz");
    assert_eq!(output_extension("bz2"), "bz2");
    assert_eq!(output_extension("xz"), "xz");
    assert_eq!(output_extension("other"), "xz");
}

#[test]
fn default_output_path_appends_algorithm_extension() {
    assert_eq!(default_output_path("input.txt", "gz"), "input.txt.gz");
    assert_eq!(default_output_path("data", "bz2"), "data.bz2");
    assert_eq!(default_output_path("dir/archive.tar", "xz"), "dir/archive.tar.xz");
}

#[test]
fn log_buffer_keeps_the_newest_hundred_messages() {
    let mut log = LogBuffer::new();
    assert_eq!(log.len(), 0);
    for i in 0..(LOG_CAPACITY + 5) {
        log.push(format!("message {}", i));
    }
    assert_eq!(log.len(), LOG_CAPACITY);
    assert_eq!(log.get(0), "message 5");
    assert_eq!(log.get(LOG_CAPACITY - 1), &format!("message {}", LOG_CAPACITY + 4));
}

#[test]
fn log_buffer_below_capacity_keeps_everything() {
    let mut log = LogBuffer::new();
    log.push("first".to_string());
    log.push("second".to_string());
    assert_eq!(log.len(), 2);
    assert_eq!(log.get(0), "first");
    assert_eq!(log.get(1), "second");
}

#[test]
fn run_plan_for_a_file_writes_next_to_it() {
    let plan = resolve_run_plan(Some("data.txt"), None, false, "gz", None, false, false, false, true);
    assert!(matches!(&plan.input_source, InputSource::File(p) if p == "data.txt"));
    assert!(matches!(&plan.output_destination, OutputDestination::File(p) if p == "data.txt.gz"));
    assert_eq!(plan.input_path.as_deref(), Some("data.txt"));
    assert_eq!(plan.threads, 0);
    assert!(!plan.run_tui);
}

#[test]
fn run_plan_prefers_stdout_then_named_output() {
    let plan = resolve_run_plan(Some("a.bin"), Some("b.xz"), true, "xz", Some(3), true, false, false, true);
    assert!(matches!(plan.output_destination, OutputDestination::Stdout));
    assert_eq!(plan.threads, 3);
    assert!(plan.run_tui);
    let plan = resolve_run_plan(Some("a.bin"), Some("b.xz"), false, "xz", None, false, false, false, false);
    assert!(matches!(&plan.output_destination, OutputDestination::File(p) if p == "b.xz"));
}

#[test]
fn run_plan_for_standard_input_streams() {
    let plan = resolve_run_plan(Some("-"), None, false, "bz2", None, false, false, false, false);
    assert!(matches!(plan.input_source, InputSource::Stdin));
    assert!(matches!(plan.output_destination, OutputDestination::Stdout));
    assert!(plan.input_path.is_none());
    let plan = resolve_run_plan(None, Some("out.bz2"), false, "bz2", None, false, false, false, false);
    assert!(matches!(plan.input_source, InputSource::Stdin));
    assert!(matches!(&plan.output_destination, OutputDestination::File(p) if p == "out.bz2"));
}

#[test]
fn initial_dashboard_follows_the_input() {
    let plan = resolve_run_plan(Some("f"), None, false, "xz", None, false, false, false, false);
    let state = initial_tui_state(&plan, 4, 1000, 9, 7);
    assert_eq!(state.mode, TuiMode::Split);
    assert_eq!(state.stripes.len(), 4);
    assert_eq!(state.total_input_size, 1000);
    let plan = resolve_run_plan(None, None, false, "xz", None, false, false, false, false);
    let state = initial_tui_state(&plan, 3, 1000, 5, 7);
    assert_eq!(state.mode, TuiMode::Stream);
    assert_eq!(state.workers.len(), 3);
    assert_eq!(state.queue_capacity, 6);
    assert_eq!(state.total_input_size, 0);
    assert_eq!(state.level, 5);
}

#[test]
fn verification_needs_a_named_file() {
    assert_eq!(verification_target(Some("x.gz")).ok().as_deref(), Some("x.gz"));
    for input in [None, Some("-")] {
        match verification_target(input) {
            Err(ZipError::Verification(m)) => {
                assert_eq!(m, "Cannot verify stream from standard input")
            }
            other => panic!("unexpected {:?}", other),
        }
    }
}
