//! End-to-end tests of the read and write pipelines over a simulated
//! device.

use etchr_core::cancel::CancelFlag;
use etchr_core::errors::ReadError;
use etchr_core::errors::WriteError;
use etchr_core::memdev::MemDevice;
use etchr_core::progress::Event;
use etchr_core::progress::ProgressLog;
use etchr_core::read::ReadJob;
use etchr_core::write::WriteJob;

const CHUNK: usize = 512;

fn pattern(len: usize) -> Vec<u8> {
    (0..len).map(|i| (i % 251) as u8).collect()
}

fn log_events(log: &ProgressLog) -> Vec<Event> {
    (0..log.len()).map(|i| log.get(i)).collect()
}

#[test]
fn read_reproduces_device() {
    let bytes = pattern(3 * CHUNK + 100);
    let dev = MemDevice::from_bytes(bytes.clone());
    let cancel = CancelFlag::new();
    let mut log = ProgressLog::new();
    let img = etchr_core::read::run(&dev, &cancel, &mut log, CHUNK).unwrap();
    assert_eq!(img, bytes);
    let events = log_events(&log);
    assert_eq!(events[0], Event::ReadStart((3 * CHUNK + 100) as u64));
    assert_eq!(events.len(), 1 + 4);
    assert_eq!(events[1], Event::ReadProgress(512));
    assert_eq!(events[4], Event::ReadProgress((3 * CHUNK + 100) as u64));
}

#[test]
fn read_zero_size_device_fails_before_anything() {
    let dev = MemDevice::zeroed(0);
    let cancel = CancelFlag::new();
    let mut log = ProgressLog::new();
    let r = etchr_core::read::run(&dev, &cancel, &mut log, CHUNK);
    assert_eq!(r, Err(ReadError::ZeroSize));
    assert_eq!(log.len(), 0);
}

#[test]
fn read_cancelled_after_three_chunks() {
    // A device of exactly 10 chunks; the flag flips once chunk 3 has been
    // observed, and the resumed pipeline must report a cancellation and
    // hand back no image.
    let dev = MemDevice::from_bytes(pattern(10 * CHUNK));
    let cancel = CancelFlag::new();
    let mut log = ProgressLog::new();
    let mut job = ReadJob::new(&dev, &mut log).unwrap();
    for _ in 0..3 {
        job.step(&dev, &mut log, CHUNK);
    }
    cancel.request_stop();
    let r = etchr_core::read::resume(job, &dev, &cancel, &mut log, CHUNK);
    assert_eq!(r, Err(ReadError::Cancelled));
    // Start event plus the three chunks that were copied, nothing more.
    assert_eq!(log.len(), 4);
    assert_eq!(log.get(3), Event::ReadProgress(3 * CHUNK as u64));
}

#[test]
fn write_then_read_back_round_trip() {
    let image = pattern(10 * CHUNK);
    let mut dev = MemDevice::from_bytes(vec![0xAA; 10 * CHUNK]);
    let cancel = CancelFlag::new();
    let mut log = ProgressLog::new();
    let r = etchr_core::write::run("disk.img", &image, &mut dev, true, &cancel, &mut log, CHUNK, 128);
    assert_eq!(r, Ok(()));
    // Reading the device back reproduces the image exactly.
    let mut rlog = ProgressLog::new();
    let back = etchr_core::read::run(&dev, &cancel, &mut rlog, CHUNK).unwrap();
    assert_eq!(back, image);
}

#[test]
fn write_pads_final_block_but_reports_true_length() {
    // 1000 bytes is not a multiple of the 512-byte block: the device gets
    // 1024 bytes (the tail zero-filled), while the final progress report
    // carries 1000, never 1024.
    let image = pattern(1000);
    let mut dev = MemDevice::from_bytes(vec![0xAA; 2048]);
    let cancel = CancelFlag::new();
    let mut log = ProgressLog::new();
    let r = etchr_core::write::run("disk.img", &image, &mut dev, false, &cancel, &mut log, 1024, 128);
    assert_eq!(r, Ok(()));
    let events = log_events(&log);
    let write_reports: Vec<u64> = events
        .iter()
        .filter_map(|e| match e {
            Event::WriteProgress(p) => Some(*p),
            _ => None,
        })
        .collect();
    assert_eq!(write_reports.last(), Some(&1000));
    assert!(write_reports.iter().all(|p| *p <= 1000));
    for i in 0..1000 {
        assert_eq!(dev.byte_at(i), image[i]);
    }
    for i in 1000..1024 {
        assert_eq!(dev.byte_at(i), 0, "padding byte {} not zeroed", i);
    }
    for i in 1024..2048 {
        assert_eq!(dev.byte_at(i), 0xAA, "byte {} beyond padding touched", i);
    }
}

#[test]
fn write_cancelled_after_three_chunks() {
    let image = pattern(10 * CHUNK);
    let mut dev = MemDevice::from_bytes(vec![0u8; 10 * CHUNK]);
    let cancel = CancelFlag::new();
    let mut log = ProgressLog::new();
    let mut job = WriteJob::new(&image, &dev, &mut log).unwrap();
    for _ in 0..3 {
        job.step(&image, &mut dev, &mut log, CHUNK);
    }
    cancel.request_stop();
    let r = etchr_core::write::resume_write(job, &image, &mut dev, &cancel, &mut log, CHUNK);
    assert_eq!(r, Err(WriteError::Cancelled));
    // The three committed chunks stay on the device: no rollback.
    for i in 0..3 * CHUNK {
        assert_eq!(dev.byte_at(i), image[i]);
    }
    for i in 3 * CHUNK..10 * CHUNK {
        assert_eq!(dev.byte_at(i), 0);
    }
}

#[test]
fn write_device_too_small_fails_without_writing() {
    let image = pattern(2048);
    let mut dev = MemDevice::from_bytes(vec![7u8; 1024]);
    let cancel = CancelFlag::new();
    let mut log = ProgressLog::new();
    let r = etchr_core::write::run("disk.img", &image, &mut dev, false, &cancel, &mut log, CHUNK, 128);
    assert_eq!(r, Err(WriteError::IoFailure));
    for i in 0..1024 {
        assert_eq!(dev.byte_at(i), 7);
    }
}

#[test]
fn verification_mismatch_after_corruption() {
    // Write image A, independently corrupt one device byte, re-run
    // verification alone: it must report the mismatch.
    let image = pattern(4 * CHUNK);
    let mut dev = MemDevice::from_bytes(vec![0u8; 4 * CHUNK]);
    let cancel = CancelFlag::new();
    let mut log = ProgressLog::new();
    let r = etchr_core::write::run("disk.img", &image, &mut dev, true, &cancel, &mut log, CHUNK, 128);
    assert_eq!(r, Ok(()));
    let original = dev.byte_at(700);
    dev.set_byte(700, original.wrapping_add(1));
    let mut vlog = ProgressLog::new();
    let v = etchr_core::write::verify_device(&image, &dev, &cancel, &mut vlog, CHUNK);
    assert_eq!(v, Err(WriteError::VerificationMismatch));
}

#[test]
fn verification_is_idempotent() {
    let image = pattern(4 * CHUNK);
    let mut dev = MemDevice::from_bytes(vec![0u8; 4 * CHUNK]);
    let cancel = CancelFlag::new();
    let mut log = ProgressLog::new();
    etchr_core::write::run("disk.img", &image, &mut dev, false, &cancel, &mut log, CHUNK, 128).unwrap();
    // Two passes over the unmodified pair agree (here: both accept).
    let mut l1 = ProgressLog::new();
    let mut l2 = ProgressLog::new();
    let r1 = etchr_core::write::verify_device(&image, &dev, &cancel, &mut l1, CHUNK);
    let r2 = etchr_core::write::verify_device(&image, &dev, &cancel, &mut l2, CHUNK);
    assert_eq!(r1, r2);
    assert_eq!(r1, Ok(()));
    // And after corruption, both passes report the same mismatch.
    dev.set_byte(3, 0xFF);
    let mut l3 = ProgressLog::new();
    let mut l4 = ProgressLog::new();
    let r3 = etchr_core::write::verify_device(&image, &dev, &cancel, &mut l3, CHUNK);
    let r4 = etchr_core::write::verify_device(&image, &dev, &cancel, &mut l4, CHUNK);
    assert_eq!(r3, r4);
    assert_eq!(r3, Err(WriteError::VerificationMismatch));
}

#[test]
fn write_event_order_covers_all_stages() {
    let image = pattern(2 * CHUNK);
    let mut dev = MemDevice::from_bytes(vec![0u8; 2 * CHUNK]);
    let cancel = CancelFlag::new();
    let mut log = ProgressLog::new();
    etchr_core::write::run("disk.img", &image, &mut dev, true, &cancel, &mut log, CHUNK, 128).unwrap();
    let events = log_events(&log);
    let expected_total = (2 * CHUNK) as u64;
    assert_eq!(
        events,
        vec![
            Event::DecompressStart,
            Event::WriteStart(expected_total),
            Event::WriteProgress(512),
            Event::WriteProgress(1024),
            Event::VerifyStart(expected_total),
            Event::VerifyProgress(512),
            Event::VerifyProgress(1024),
        ]
    );
}
