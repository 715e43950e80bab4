use zipmt_rust::compressor::ZipError;
use zipmt_rust::pipeline::{PipelineController, ProgressEvent};
use zipmt_rust::split_mode::{order_by_id, plan_ranges, requested_slices, slice_progress, SliceRange};
use zipmt_rust::stream_mode::{
    chunk_progress, keep_filling, keep_waiting, reader_step, takes_chunk, worker_turn,
    BlockSequencer, CompressedBlock, ReaderStep, ReorderBuffer, WorkerAction, WorkerTurn,
};

#[test]
fn plan_ranges_cuts_equal_widths_with_a_short_last_range() {
    let ranges = plan_ranges(10, 3);
    assert_eq!(
        ranges,
        vec![
            SliceRange { id: 0, start: 0, length: 4 },
            SliceRange { id: 1, start: 4, length: 4 },
            SliceRange { id: 2, start: 8, length: 2 },
        ]
    );
}

#[test]
fn plan_ranges_drops_slices_past_the_end() {
    let ranges = plan_ranges(10, 4);
    assert_eq!(
        ranges,
        vec![
            SliceRange { id: 0, start: 0, length: 3 },
            SliceRange { id: 1, start: 3, length: 3 },
            SliceRange { id: 2, start: 6, length: 3 },
            SliceRange { id: 3, start: 9, length: 1 },
        ]
    );
    let ranges = plan_ranges(5, 4);
    assert_eq!(ranges.len(), 3);
    assert_eq!(ranges[2], SliceRange { id: 2, start: 4, length: 1 });
    let ranges = plan_ranges(2, 8);
    assert_eq!(ranges.len(), 2);
}

#[test]
fn plan_ranges_of_empty_input_is_one_empty_range() {
    assert_eq!(plan_ranges(0, 4), vec![SliceRange { id: 0, start: 0, length: 0 }]);
}

#[test]
fn plan_ranges_tile_the_input() {
    for len in [1u64, 7, 100, 1023, 65536, 1_000_003] {
        for slices in 1usize..9 {
            let ranges = plan_ranges(len, slices);
            assert!(ranges.len() <= slices);
            let mut next = 0;
            for (i, r) in ranges.iter().enumerate() {
                assert_eq!(r.id, i);
                assert_eq!(r.start, next);
                assert!(r.length > 0);
                next += r.length;
            }
            assert_eq!(next, len);
        }
    }
}

#[test]
fn sequencer_numbers_chunks_consecutively() {
    let mut seq = BlockSequencer::new();
    assert_eq!(seq.next_seq_num(), 0);
    let a = seq.seal(vec![1, 2, 3]).unwrap();
    assert!(seq.seal(Vec::new()).is_none());
    let b = seq.seal(vec![4]).unwrap();
    assert_eq!((a.seq_num, b.seq_num), (0, 1));
    assert_eq!(a.data, vec![1, 2, 3]);
    assert_eq!(seq.next_seq_num(), 2);
}

#[test]
fn reorder_buffer_writes_in_sequence_whatever_the_arrival_order() {
    let mut buffer = ReorderBuffer::new();
    let mut written: Vec<(u64, Vec<u8>)> = Vec::new();
    for seq in [2u64, 0, 3, 1, 4] {
        buffer.insert(seq, vec![seq as u8; 2]);
        written.extend(buffer.drain_ready());
    }
    let order: Vec<u64> = written.iter().map(|c| c.0).collect();
    assert_eq!(order, vec![0, 1, 2, 3, 4]);
    assert_eq!(written[3].1, vec![3, 3]);
    assert_eq!(buffer.next_seq_num(), 5);
    assert!(buffer.take_ready().is_none());
}

#[test]
fn reorder_buffer_holds_chunks_until_their_turn() {
    let mut buffer = ReorderBuffer::new();
    buffer.insert(1, vec![9]);
    assert!(buffer.take_ready().is_none());
    assert!(buffer.drain_ready().is_empty());
    buffer.insert(0, vec![8]);
    assert_eq!(buffer.take_ready(), Some((0, vec![8])));
    assert_eq!(buffer.take_ready(), Some((1, vec![9])));
    assert_eq!(buffer.next_seq_num(), 2);
}

#[test]
fn reorder_buffer_passes_worker_errors_on() {
    let mut buffer = ReorderBuffer::new();
    let ok = CompressedBlock { worker_id: 0, seq_num: 0, data: Ok(vec![1]) };
    assert!(buffer.accept(ok).is_ok());
    let failed = CompressedBlock {
        worker_id: 1,
        seq_num: 1,
        data: Err(ZipError::Compression("boom".to_string())),
    };
    match buffer.accept(failed) {
        Err(ZipError::Compression(m)) => assert_eq!(m, "boom"),
        other => panic!("unexpected {:?}", other),
    }
    assert_eq!(buffer.drain_ready(), vec![(0, vec![1])]);
}

#[test]
fn reader_follows_the_controls() {
    let mut controller = PipelineController::new_with_workers(6, 2);
    assert_eq!(
        reader_step(&controller.snapshot()),
        ReaderStep::Read { chunk_size: 1024 * 1024 }
    );
    controller.pause();
    assert_eq!(reader_step(&controller.snapshot()), ReaderStep::WaitWhilePaused);
    controller.abort();
    assert_eq!(reader_step(&controller.snapshot()), ReaderStep::Stop);
    assert!(keep_filling(10, 64, false));
    assert!(!keep_filling(64, 64, false));
    assert!(!keep_filling(10, 64, true));
}

#[test]
fn workers_follow_the_active_count() {
    let mut controller = PipelineController::new_with_workers(6, 4);
    assert!(controller.update_active_workers(2));
    let controls = controller.snapshot();
    assert_eq!(
        worker_turn(1, &controls, None, false, 0),
        WorkerTurn { announce: Some(true), action: WorkerAction::Receive }
    );
    assert_eq!(
        worker_turn(1, &controls, Some(true), false, 0),
        WorkerTurn { announce: None, action: WorkerAction::Receive }
    );
    assert_eq!(
        worker_turn(3, &controls, Some(true), false, 2),
        WorkerTurn { announce: Some(false), action: WorkerAction::Sleep }
    );
    assert_eq!(
        worker_turn(3, &controls, Some(false), true, 0),
        WorkerTurn { announce: None, action: WorkerAction::Exit }
    );
    controller.abort();
    assert_eq!(
        worker_turn(0, &controller.snapshot(), None, false, 5),
        WorkerTurn { announce: None, action: WorkerAction::Exit }
    );
    assert!(takes_chunk(1, 2));
    assert!(!takes_chunk(2, 2));
    assert!(keep_waiting(false, 0));
    assert!(keep_waiting(true, 1));
    assert!(!keep_waiting(true, 0));
}

#[test]
fn chunk_progress_caps_input_at_the_chunk_size() {
    match chunk_progress(1, 7, 5000, 300, 4096, false) {
        ProgressEvent::WorkerChunkProgress {
            worker_id,
            seq_num,
            bytes_processed,
            bytes_written,
            total_bytes,
            finalized,
        } => {
            assert_eq!((worker_id, seq_num), (1, 7));
            assert_eq!(bytes_processed, 4096);
            assert_eq!(bytes_written, 300);
            assert_eq!(total_bytes, 4096);
            assert!(!finalized);
        }
        other => panic!("unexpected {:?}", other),
    }
}

#[test]
fn slices_are_joined_by_ascending_id() {
    assert_eq!(order_by_id(&vec![2, 0, 1]), vec![1, 2, 0]);
    assert_eq!(order_by_id(&vec![]), Vec::<usize>::new());
    assert_eq!(order_by_id(&vec![0, 1, 2, 3]), vec![0, 1, 2, 3]);
    assert_eq!(order_by_id(&vec![5, 1, 5, 0]), vec![3, 1, 0, 2]);
}

#[test]
fn slice_count_and_progress() {
    assert_eq!(requested_slices(3, 16), 3);
    assert_eq!(requested_slices(0, 16), 16);
    assert_eq!(requested_slices(0, 0), 1);
    match slice_progress(2, 700, 90, 500) {
        ProgressEvent::SplitProgress { stripe_id, stage, bytes_processed, bytes_written, total_bytes } => {
            assert_eq!(stripe_id, 2);
            assert_eq!(stage, zipmt_rust::pipeline::SplitStage::Running);
            assert_eq!((bytes_processed, bytes_written, total_bytes), (500, 90, 500));
        }
        other => panic!("unexpected {:?}", other),
    }
}
