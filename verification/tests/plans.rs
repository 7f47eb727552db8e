//! Chunk-plan arithmetic and cancellation-flag sharing.

use etchr_core::cancel::CancelFlag;
use etchr_core::chunks;
use etchr_core::memdev::MemDevice;
use etchr_core::progress::ProgressLog;

#[test]
fn next_chunk_len_clamps_to_remainder() {
    assert_eq!(chunks::next_chunk_len(1000, 0, 512), 512);
    assert_eq!(chunks::next_chunk_len(1000, 512, 512), 488);
    assert_eq!(chunks::next_chunk_len(512, 0, 512), 512);
    assert_eq!(chunks::next_chunk_len(1, 0, 512), 1);
}

#[test]
fn padded_chunk_len_rounds_up_to_block() {
    assert_eq!(chunks::padded_chunk_len(0, 512), 0);
    assert_eq!(chunks::padded_chunk_len(1, 512), 512);
    assert_eq!(chunks::padded_chunk_len(512, 512), 512);
    assert_eq!(chunks::padded_chunk_len(513, 512), 1024);
    assert_eq!(chunks::padded_chunk_len(1000, 512), 1024);
}

#[test]
fn cancel_flag_is_shared_between_handles() {
    let flag = CancelFlag::new();
    assert!(!flag.should_stop());
    let handler_side = flag.clone();
    handler_side.request_stop();
    assert!(flag.should_stop());
}

#[test]
fn read_resume_completes_without_cancellation() {
    let bytes: Vec<u8> = (0..2000u32).map(|i| (i % 256) as u8).collect();
    let dev = MemDevice::from_bytes(bytes.clone());
    let cancel = CancelFlag::new();
    let mut log = ProgressLog::new();
    let mut job = etchr_core::read::ReadJob::new(&dev, &mut log).unwrap();
    job.step(&dev, &mut log, 512);
    let img = etchr_core::read::resume(job, &dev, &cancel, &mut log, 512).unwrap();
    assert_eq!(img, bytes);
    // Start event plus four chunk reports: 512, 1024, 1536, 2000.
    assert_eq!(log.len(), 5);
}
