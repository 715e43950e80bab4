use zipmt_rust::pipeline::{PipelineController, ProgressEvent, SplitStage, WorkerStage};
use zipmt_rust::tui::controls::{
    body_height_for_rows, chunk_size_from_slider_row, footer_height_for_rows, handle_key,
    handle_mouse, level_from_slider_row, log_window_start, next_focus, next_focus_for_mode,
    split_page_size, throttle_from_slider_row, workers_from_slider_row, KeyCommand, MouseInput,
    MouseKind, RuntimeAction,
};
use zipmt_rust::tui::metrics::{
    chunk_label, next_chunk_label, queue_fill_label, status_label, format_chunk_slots, parse_env_size, parse_process_cpu_ticks, parse_resident_memory,
    parse_stty_size, parse_tput_size, process_cpu_tick_fields,
};
use zipmt_rust::tui::{FocusedWidget, IoChartMode, IoSample, StripeProgress, TuiMode, TuiState};

const SECOND: u64 = 1_000_000_000;
const MILLI: u64 = 1_000_000;
const T0: u64 = 100 * SECOND;

fn rate(delta: usize, nanos: u64) -> f64 {
    delta as f64 / (nanos as f64 / SECOND as f64)
}

#[test]
fn test_four_control_focus_order() {
    let mut focus = FocusedWidget::Unfocused;
    focus = next_focus(focus);
    assert_eq!(focus, FocusedWidget::CompressionLevelSlider);
    focus = next_focus(focus);
    assert_eq!(focus, FocusedWidget::ThrottleDelaySlider);
    focus = next_focus(focus);
    assert_eq!(focus, FocusedWidget::ChunkSizeSlider);
    focus = next_focus(focus);
    assert_eq!(focus, FocusedWidget::WorkerCountSlider);
    assert_eq!(next_focus(focus), FocusedWidget::Unfocused);
}

#[test]
fn test_split_focus_visits_live_throttle_and_chunk() {
    assert_eq!(
        next_focus_for_mode(TuiMode::Split, FocusedWidget::Unfocused),
        FocusedWidget::ThrottleDelaySlider
    );
    assert_eq!(
        next_focus_for_mode(TuiMode::Split, FocusedWidget::ThrottleDelaySlider),
        FocusedWidget::ChunkSizeSlider
    );
    assert_eq!(
        next_focus_for_mode(TuiMode::Split, FocusedWidget::ChunkSizeSlider),
        FocusedWidget::Unfocused
    );
    assert_eq!(
        next_focus_for_mode(TuiMode::Split, FocusedWidget::WorkerCountSlider),
        FocusedWidget::ThrottleDelaySlider
    );
}

#[test]
fn test_split_page_size_matches_responsive_body_capacity() {
    assert_eq!(split_page_size(22), 3);
    assert_eq!(split_page_size(30), 5);
}

#[test]
fn layout_heights_grow_with_the_terminal() {
    assert_eq!(footer_height_for_rows(22), 6);
    assert_eq!(footer_height_for_rows(30), 8);
    assert_eq!(footer_height_for_rows(200), 10);
    assert_eq!(body_height_for_rows(10), 11);
    assert_eq!(body_height_for_rows(30), 15);
    assert_eq!(split_page_size(0), 3);
}

#[test]
fn test_process_metric_parsers() {
    let stat = "42 (zipmt worker) S 1 2 3 4 5 6 7 8 9 10 120 30 0 0";
    assert_eq!(parse_process_cpu_ticks(stat), Some(150));
    assert_eq!(
        parse_resident_memory("Name:\tzipmt\nVmRSS:\t1234 kB\n"),
        Some(1234 * 1024)
    );
}

#[test]
fn process_metric_parsers_reject_malformed_text() {
    assert_eq!(parse_process_cpu_ticks("no parenthesis here"), None);
    assert_eq!(parse_process_cpu_ticks("1 (x) S 1 2 3"), None);
    assert_eq!(parse_process_cpu_ticks("1 (x) S 1 2 3 4 5 6 7 8 9 10 abc 30"), None);
    assert_eq!(
        process_cpu_tick_fields("7 (a) b) R 1 2 3 4 5 6 7 8 9 10 +5 6"),
        Some((5, 6))
    );
    assert_eq!(parse_resident_memory("Name:\tzipmt\n"), None);
    assert_eq!(parse_resident_memory("VmRSS:\n"), None);
    assert_eq!(parse_resident_memory("VmRSS: 2 kB\r\nVmRSS: 9 kB\n"), Some(2048));
}

#[test]
fn test_log_window_follows_tail_and_scrolls_back() {
    assert_eq!(log_window_start(20, 5, 0), 15);
    assert_eq!(log_window_start(20, 5, 3), 12);
    assert_eq!(log_window_start(20, 5, usize::MAX), 0);
    assert_eq!(log_window_start(3, 5, 0), 0);
}

#[test]
fn test_chunk_slot_overflow_is_explicit() {
    assert_eq!(format_chunk_slots(&[0, 1, 2, 3], 2), "#1 #2 +2");
    assert_eq!(format_chunk_slots(&[], 2), "--");
}

#[test]
fn chunk_slots_show_all_when_they_fit() {
    assert_eq!(format_chunk_slots(&[4, 9], 5), "#5 #10");
    assert_eq!(format_chunk_slots(&[4, 9], 0), "+2");
}

#[test]
fn test_new_control_mouse_rows_map_to_valid_boundaries() {
    assert_eq!(chunk_size_from_slider_row(0, 4), 8 * 1024 * 1024);
    assert_eq!(chunk_size_from_slider_row(3, 4), 64 * 1024);
    assert_eq!(workers_from_slider_row(0, 4, 8), 8);
    assert_eq!(workers_from_slider_row(3, 4, 8), 1);
    assert_eq!(workers_from_slider_row(3, 4, 1), 1);
    assert_eq!(chunk_size_from_slider_row(7, 8), 64 * 1024);
}

#[test]
fn level_and_throttle_sliders_span_their_ranges() {
    assert_eq!(level_from_slider_row(0, 5), 9);
    assert_eq!(level_from_slider_row(4, 5), 1);
    assert_eq!(throttle_from_slider_row(0, 5), 500);
    assert_eq!(throttle_from_slider_row(4, 5), 0);
}

#[test]
fn test_io_sampling_keeps_rate_and_cumulative_data_across_toggle() {
    let mut state = TuiState::new_stream(8, 0, 4, 9, T0);
    state.bytes_read = 2000;
    state.bytes_written = 1000;
    state.sample_io(500 * MILLI);
    assert_eq!(state.io_history.len(), 1);
    let s = state.io_history[0];
    assert_eq!(rate(s.input_delta, s.elapsed_nanos), 4000.0);
    assert_eq!(rate(s.output_delta, s.elapsed_nanos), 2000.0);
    assert_eq!(s.input_total, 2000);
    state.toggle_io_chart_mode();
    assert_eq!(state.io_chart_mode, IoChartMode::Cumulative);
    assert_eq!(state.io_history.len(), 1);
    state.sample_io(100 * MILLI);
    assert_eq!(rate(state.io_history[1].input_delta, state.io_history[1].elapsed_nanos), 0.0);
}

#[test]
fn test_graph_history_emits_consistent_one_second_buckets() {
    let mut state = TuiState::new_stream(8, 0, 2, 9, T0);
    let start = T0 + 3 * SECOND;
    state.last_io_sample = start;
    state.bytes_read = 1000;
    state.bytes_written = 500;
    assert!(!state.sample_io_bucket(start + 999 * MILLI));
    assert!(state.io_history.is_empty());
    assert!(state.sample_io_bucket(start + SECOND));
    assert_eq!(state.io_history.len(), 1);
    let s = state.io_history[0];
    assert_eq!(rate(s.input_delta, s.elapsed_nanos), 1000.0);
    assert_eq!(rate(s.output_delta, s.elapsed_nanos), 500.0);
    assert_eq!(state.last_io_sample, start + SECOND);
}

#[test]
fn test_split_lifecycle_aggregate_and_sampling_are_truthful() {
    let mut state = TuiState::new_split(2, 200, 9, T0);
    state.apply_progress_event(
        ProgressEvent::SplitProgress {
            stripe_id: 0,
            stage: SplitStage::Done,
            bytes_processed: 150,
            bytes_written: 50,
            total_bytes: 100,
        },
        T0 + SECOND,
    );
    state.apply_progress_event(
        ProgressEvent::SplitProgress {
            stripe_id: 1,
            stage: SplitStage::Running,
            bytes_processed: 25,
            bytes_written: 99,
            total_bytes: 100,
        },
        T0 + SECOND,
    );

    let aggregate = state.split_aggregate();
    assert_eq!(state.stripes[0].bytes_processed, 100);
    assert_eq!(state.stripes[1].bytes_written, 99);
    assert_eq!(aggregate.input_processed, 125);
    assert_eq!(aggregate.input_total, 200);
    assert_eq!(aggregate.output_produced, 149);
    assert_eq!(aggregate.active_sectors, 1);
    assert_eq!(aggregate.completed_sectors, 1);
    let percent = aggregate.input_processed as f64 * 100.0 / aggregate.input_total as f64;
    assert_eq!(percent, 62.5);
    let ratio = aggregate.completed_input as f64 / aggregate.completed_output as f64;
    assert_eq!(ratio, 2.0);
    let eta = (aggregate.input_total - aggregate.input_processed) as f64 / 25.0;
    assert_eq!(eta, 3.0);

    state.apply_progress_event(ProgressEvent::SplitFinalWrite { bytes_written: 50 }, T0 + SECOND);
    state.sample_io(500 * MILLI);
    let s = state.io_history[0];
    assert_eq!(rate(s.input_delta, s.elapsed_nanos), 250.0);
    assert_eq!(rate(s.output_delta, s.elapsed_nanos), 398.0);
    assert_eq!(s.input_total, 125);
    assert_eq!(s.output_total, 199);
    state.sample_io(100 * MILLI);
    let s = state.io_history[1];
    assert_eq!(rate(s.input_delta, s.elapsed_nanos), 0.0);
    assert_eq!(rate(s.output_delta, s.elapsed_nanos), 0.0);
}

#[test]
fn test_split_aggregate_with_no_completed_output_has_no_ratio_or_eta() {
    let state = TuiState::new_split(1, 100, 9, T0);
    let aggregate = state.split_aggregate();
    assert_eq!(aggregate.completed_output, 0);
    assert_eq!(aggregate.input_processed, 0);
}

#[test]
fn test_chunk_lifecycle_reducer_keeps_stages_mutually_exclusive() {
    let mut state = TuiState::new_stream(8, 0, 2, 9, T0);
    state.apply_progress_event(ProgressEvent::ChunkQueued { seq_num: 0, bytes: 1024 }, T0);
    assert_eq!(state.input_queue, vec![0]);

    state.apply_progress_event(ProgressEvent::ChunkAssigned { worker_id: 1, seq_num: 0 }, T0);
    assert!(state.input_queue.is_empty());
    assert_eq!(state.workers[1].current_chunk, Some(0));

    state.apply_progress_event(ProgressEvent::ChunkPending { worker_id: 1, seq_num: 0 }, T0);
    assert_eq!(state.workers[1].current_chunk, None);
    assert_eq!(state.output_buffer, vec![0]);

    state.apply_progress_event(ProgressEvent::ChunkWritten { seq_num: 0 }, T0);
    assert!(state.output_buffer.is_empty());
    assert_eq!(state.next_expected_seq, 1);
}

#[test]
fn test_worker_ratio_averages_completed_assignments_and_survives_reassignment() {
    let mut state = TuiState::new_stream(8, 1000, 1, 9, T0);
    for (seq_num, bytes_written) in [(0u64, 500usize), (1, 250)] {
        state.apply_progress_event(ProgressEvent::ChunkAssigned { worker_id: 0, seq_num }, T0);
        state.apply_progress_event(
            ProgressEvent::WorkerChunkProgress {
                worker_id: 0,
                seq_num,
                bytes_processed: 1000,
                bytes_written,
                total_bytes: 1000,
                finalized: true,
            },
            T0 + SECOND,
        );
    }
    let average = |state: &TuiState| {
        let h = &state.workers[0].ratio_history;
        h.iter().map(|(i, o)| *i as f64 / *o as f64).sum::<f64>() / h.len() as f64
    };
    assert_eq!(average(&state), 3.0);

    state.apply_progress_event(ProgressEvent::ChunkAssigned { worker_id: 0, seq_num: 2 }, T0);
    assert_eq!(average(&state), 3.0);
}

#[test]
fn test_worker_rate_uses_ten_chunk_window_plus_live_assignment() {
    let mut state = TuiState::new_stream(8, 1000, 1, 9, T0);
    let now = T0 + 60 * SECOND;
    for seq_num in 0..11u64 {
        state.apply_progress_event(ProgressEvent::ChunkAssigned { worker_id: 0, seq_num }, now);
        state.workers[0].started_at = Some(now - SECOND);
        state.apply_progress_event(
            ProgressEvent::WorkerChunkProgress {
                worker_id: 0,
                seq_num,
                bytes_processed: 1000,
                bytes_written: 500,
                total_bytes: 1000,
                finalized: true,
            },
            now,
        );
    }
    assert_eq!(state.workers[0].input_rate_history.len(), 10);

    state.apply_progress_event(ProgressEvent::ChunkAssigned { worker_id: 0, seq_num: 11 }, now);
    state.workers[0].started_at = Some(now - 2 * SECOND);
    state.apply_progress_event(
        ProgressEvent::WorkerChunkProgress {
            worker_id: 0,
            seq_num: 11,
            bytes_processed: 500,
            bytes_written: 1,
            total_bytes: 1000,
            finalized: false,
        },
        now,
    );
    let worker = &state.workers[0];
    let live = rate(worker.bytes_processed, worker.assignment_nanos(now));
    let history: Vec<f64> = worker
        .input_rate_history
        .iter()
        .rev()
        .take(9)
        .map(|(bytes, nanos)| rate(*bytes, *nanos))
        .collect();
    let average = (history.iter().sum::<f64>() + live) / (history.len() + 1) as f64;
    assert!((924.0..=926.0).contains(&average));
}

#[test]
fn test_chunk_lifecycle_reducer_sorts_out_of_order_pending_chunks() {
    let mut state = TuiState::new_stream(8, 0, 2, 9, T0);
    state.apply_progress_event(ProgressEvent::ChunkPending { worker_id: 0, seq_num: 2 }, T0);
    state.apply_progress_event(ProgressEvent::ChunkPending { worker_id: 1, seq_num: 1 }, T0);
    assert_eq!(state.output_buffer, vec![1, 2]);
    assert_eq!(state.next_expected_seq, 0);
}

#[test]
fn completion_freezes_elapsed_time() {
    let mut state = TuiState::new_stream(8, 0, 1, 9, T0);
    let request = state.apply_progress_event(ProgressEvent::Complete, T0 + 2 * SECOND);
    assert!(state.is_complete);
    assert!(request.is_some());
    assert_eq!(state.elapsed(T0 + 10 * SECOND), 2 * SECOND);
    for worker in &state.workers {
        assert_eq!(worker.stage, WorkerStage::Idle);
    }
}

#[test]
fn process_samples_turn_ticks_into_intervals() {
    let mut state = TuiState::new_stream(8, 0, 1, 9, T0);
    state.record_process_sample(SECOND, Some(100), Some(4096));
    assert_eq!(state.process_cpu, None);
    assert_eq!(state.process_memory_bytes, Some(4096));
    state.record_process_sample(SECOND, Some(130), None);
    assert_eq!(state.process_cpu, Some((30, SECOND)));
    state.record_process_sample(0, Some(500), Some(1));
    assert_eq!(state.process_cpu, Some((30, SECOND)));
    assert_eq!(state.process_memory_bytes, None);
}

#[test]
fn chunk_timing_accumulates() {
    let mut state = TuiState::new_stream(8, 0, 1, 9, T0);
    state.update_chunk_time(3 * MILLI);
    state.apply_progress_event(ProgressEvent::AvgCompressionTime(5 * MILLI), T0);
    assert_eq!(state.total_chunks_compressed, 2);
    assert_eq!(state.total_compress_nanos, 8 * MILLI as u128);
}

#[test]
fn keys_drive_the_controls() {
    let mut state = TuiState::new_stream(8, 0, 4, 6, T0);
    let mut controller = PipelineController::new_with_workers(6, 4);
    let mut scroll = 0usize;
    assert_eq!(
        handle_key(KeyCommand::LevelUp, &mut state, &mut controller, &mut scroll),
        RuntimeAction::Continue
    );
    assert_eq!(controller.compression_level(), 7);
    assert_eq!(state.level, 7);
    handle_key(KeyCommand::TogglePause, &mut state, &mut controller, &mut scroll);
    assert!(controller.is_paused());
    assert!(state.is_paused);
    handle_key(KeyCommand::TogglePause, &mut state, &mut controller, &mut scroll);
    assert!(!controller.is_paused());
    handle_key(KeyCommand::FocusNext, &mut state, &mut controller, &mut scroll);
    assert_eq!(state.focused_widget, FocusedWidget::CompressionLevelSlider);
    handle_key(KeyCommand::LogOldest, &mut state, &mut controller, &mut scroll);
    assert_eq!(scroll, usize::MAX);
    handle_key(KeyCommand::LogNewest, &mut state, &mut controller, &mut scroll);
    assert_eq!(scroll, 0);
    assert_eq!(
        handle_key(KeyCommand::Confirm, &mut state, &mut controller, &mut scroll),
        RuntimeAction::Continue
    );
    assert_eq!(
        handle_key(KeyCommand::Quit, &mut state, &mut controller, &mut scroll),
        RuntimeAction::Abort
    );
    assert!(controller.is_aborted());
}

#[test]
fn quit_after_completion_just_exits() {
    let mut state = TuiState::new_stream(8, 0, 1, 9, T0);
    let mut controller = PipelineController::new_with_workers(9, 1);
    let mut scroll = 0usize;
    state.apply_progress_event(ProgressEvent::Complete, T0);
    assert_eq!(
        handle_key(KeyCommand::Quit, &mut state, &mut controller, &mut scroll),
        RuntimeAction::Exit
    );
    assert!(!controller.is_aborted());
}

#[test]
fn mouse_wheel_scrolls_the_log_panel() {
    let mut state = TuiState::new_stream(8, 0, 1, 9, T0);
    state.terminal_cols = 80;
    state.terminal_rows = 22;
    let mut controller = PipelineController::new_with_workers(9, 1);
    let mut scroll = 0usize;
    let row = body_height_for_rows(22) + 1;
    handle_mouse(
        MouseInput { kind: MouseKind::ScrollUp, column: 10, row },
        &mut state,
        &mut controller,
        &mut scroll,
    );
    assert_eq!(scroll, 3);
    handle_mouse(
        MouseInput { kind: MouseKind::ScrollDown, column: 10, row },
        &mut state,
        &mut controller,
        &mut scroll,
    );
    assert_eq!(scroll, 0);
}

#[test]
fn io_sample_fields_are_plain_counts() {
    let s = IoSample {
        input_delta: 10,
        output_delta: 5,
        elapsed_nanos: SECOND,
        input_total: 10,
        output_total: 5,
    };
    assert_eq!(rate(s.input_delta, s.elapsed_nanos), 10.0);
}

#[test]
fn test_slice_rates_freeze_and_composite_eta_uses_whole_job_average() {
    let now = T0 + 10 * SECOND;
    let stripe = StripeProgress {
        id: 0,
        stage: SplitStage::Done,
        bytes_processed: 400,
        total_bytes: 1000,
        bytes_written: 100,
        started_at: Some(now - 4 * SECOND),
        completed_at: Some(now),
    };
    let active = stripe.active_duration(now + 20 * SECOND).unwrap();
    assert_eq!(active, 4 * SECOND);
    assert_eq!(
        (rate(stripe.bytes_processed, active), rate(stripe.bytes_written, active)),
        (100.0, 25.0)
    );

    let input_processed = 400usize;
    let input_total = 1000usize;
    let elapsed = 4 * SECOND;
    let whole_job_rate = rate(input_processed, elapsed);
    let eta = (input_total - input_processed) as f64 / whole_job_rate;
    assert_eq!(eta, 6.0);
    let running = StripeProgress { completed_at: None, ..stripe };
    assert_eq!(running.active_duration(now + SECOND), Some(5 * SECOND));
    let waiting = StripeProgress { started_at: None, ..stripe };
    assert_eq!(waiting.active_duration(now), None);
}

#[test]
fn terminal_sizes_from_env_stty_and_tput() {
    assert_eq!(parse_env_size("137", "42"), Some((137, 42)));
    assert_eq!(parse_env_size("137", ""), None);
    assert_eq!(parse_env_size(" 137", "42"), None);
    assert_eq!(parse_env_size("70000", "42"), None);
    assert_eq!(parse_stty_size("42 137\n"), Some((137, 42)));
    assert_eq!(parse_stty_size("0 137\n"), None);
    assert_eq!(parse_stty_size("42\n"), None);
    assert_eq!(parse_stty_size("stty: not a tty"), None);
    assert_eq!(parse_tput_size(" 120\n", "30\n"), Some((120, 30)));
    assert_eq!(parse_tput_size("120 1\n", "30\n"), None);
    assert_eq!(parse_tput_size("0\n", "30\n"), None);
}

#[test]
fn dashboard_labels() {
    assert_eq!(status_label(false, false), "RUNNING");
    assert_eq!(status_label(true, true), "PAUSED");
    assert_eq!(status_label(false, true), "COMPLETE");
    assert_eq!(chunk_label(Some(1)), "C002");
    assert_eq!(chunk_label(Some(1233)), "C1234");
    assert_eq!(chunk_label(None), "C---");
    assert_eq!(queue_fill_label(12, 8), " (12/8)");
    assert_eq!(next_chunk_label(0), "  N #1");
}
