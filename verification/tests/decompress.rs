//! Decompression-stage tests: each supported format round-trips a fixture,
//! and an unrecognized suffix passes through untouched.

use std::io::Write;

use etchr_core::cancel::CancelFlag;
use etchr_core::errors::WriteError;
use etchr_core::progress::Event;
use etchr_core::progress::ProgressLog;
use etchr_core::write::ImageFormat;

fn fixture(len: usize) -> Vec<u8> {
    (0..len).map(|i| ((i * 7) % 253) as u8).collect()
}

fn gzip_fixture(data: &[u8]) -> Vec<u8> {
    let mut enc = flate2::write::GzEncoder::new(Vec::new(), flate2::Compression::default());
    enc.write_all(data).unwrap();
    enc.finish().unwrap()
}

fn xz_fixture(data: &[u8]) -> Vec<u8> {
    let mut enc = xz2::write::XzEncoder::new(Vec::new(), 6);
    enc.write_all(data).unwrap();
    enc.finish().unwrap()
}

fn zstd_fixture(data: &[u8]) -> Vec<u8> {
    zstd::stream::encode_all(data, 0).unwrap()
}

#[test]
fn detect_format_by_suffix() {
    assert_eq!(etchr_core::write::detect_format("image.img.gz"), ImageFormat::Gzip);
    assert_eq!(etchr_core::write::detect_format("image.gzip"), ImageFormat::Gzip);
    assert_eq!(etchr_core::write::detect_format("image.xz"), ImageFormat::Xz);
    assert_eq!(etchr_core::write::detect_format("image.zst"), ImageFormat::Zstd);
    assert_eq!(etchr_core::write::detect_format("image.zstd"), ImageFormat::Zstd);
    assert_eq!(etchr_core::write::detect_format("image.img"), ImageFormat::Plain);
    assert_eq!(etchr_core::write::detect_format("image"), ImageFormat::Plain);
    assert_eq!(etchr_core::write::detect_format("IMAGE.GZ"), ImageFormat::Gzip);
    assert_eq!(etchr_core::write::detect_format("a.XZ"), ImageFormat::Xz);
    // Only the file name's suffix counts, not a dot in a directory name,
    // and a dotfile has no suffix.
    assert_eq!(etchr_core::write::detect_format("dir.gz/image"), ImageFormat::Plain);
    assert_eq!(etchr_core::write::detect_format("/data/dir.v2/image.gz"), ImageFormat::Gzip);
    assert_eq!(etchr_core::write::detect_format(".gz"), ImageFormat::Plain);
    assert_eq!(etchr_core::write::detect_format("image."), ImageFormat::Plain);
}

#[test]
fn gzip_round_trips_fixture() {
    let plain = fixture(20000);
    let compressed = gzip_fixture(&plain);
    let cancel = CancelFlag::new();
    let mut log = ProgressLog::new();
    let img = etchr_core::write::decompress_image("disk.gz", &compressed, &cancel, &mut log, 8192).unwrap();
    assert!(img.was_decompressed());
    assert_eq!(img.bytes(), &plain);
    // Cumulative decoded counts, one per chunk, ending at the true length.
    assert_eq!(log.len(), 3);
    assert_eq!(log.get(0), Event::DecompressProgress(8192));
    assert_eq!(log.get(2), Event::DecompressProgress(20000));
}

#[test]
fn xz_round_trips_fixture() {
    let plain = fixture(5000);
    let compressed = xz_fixture(&plain);
    let cancel = CancelFlag::new();
    let mut log = ProgressLog::new();
    let img = etchr_core::write::decompress_image("disk.xz", &compressed, &cancel, &mut log, 8192).unwrap();
    assert!(img.was_decompressed());
    assert_eq!(img.bytes(), &plain);
}

#[test]
fn zstd_round_trips_fixture() {
    let plain = fixture(5000);
    let compressed = zstd_fixture(&plain);
    let cancel = CancelFlag::new();
    let mut log = ProgressLog::new();
    let img = etchr_core::write::decompress_image("disk.zstd", &compressed, &cancel, &mut log, 8192).unwrap();
    assert!(img.was_decompressed());
    assert_eq!(img.bytes(), &plain);
}

#[test]
fn unrecognized_suffix_passes_through() {
    let plain = fixture(5000);
    let cancel = CancelFlag::new();
    let mut log = ProgressLog::new();
    let img = etchr_core::write::decompress_image("disk.img", &plain, &cancel, &mut log, 8192).unwrap();
    assert!(!img.was_decompressed());
    assert_eq!(img.bytes(), &plain);
    // A pass-through runs no decoder and reports nothing.
    assert_eq!(log.len(), 0);
}

#[test]
fn malformed_stream_fails_decompression() {
    let junk = fixture(100);
    let cancel = CancelFlag::new();
    let mut log = ProgressLog::new();
    let r = etchr_core::write::decompress_image("disk.gz", &junk, &cancel, &mut log, 8192);
    assert!(matches!(r, Err(WriteError::DecompressFailed)));
}

#[test]
fn malformed_stream_fails_whole_write_run() {
    let junk = fixture(300);
    let mut dev = etchr_core::memdev::MemDevice::from_bytes(vec![9u8; 1024]);
    let cancel = CancelFlag::new();
    let mut log = ProgressLog::new();
    let r = etchr_core::write::run("disk.xz", &junk, &mut dev, true, &cancel, &mut log, 512, 128);
    assert_eq!(r, Err(WriteError::DecompressFailed));
    // The device is untouched and only the stage-start event was recorded.
    for i in 0..1024 {
        assert_eq!(dev.byte_at(i), 9);
    }
    assert_eq!(log.len(), 1);
    assert_eq!(log.get(0), Event::DecompressStart);
}

#[test]
fn empty_plain_image_always_succeeds() {
    let image: Vec<u8> = Vec::new();
    let mut dev = etchr_core::memdev::MemDevice::from_bytes(vec![5u8; 1024]);
    let cancel = CancelFlag::new();
    let mut log = ProgressLog::new();
    let r = etchr_core::write::run("disk.img", &image, &mut dev, true, &cancel, &mut log, 512, 128);
    assert_eq!(r, Ok(()));
    for i in 0..1024 {
        assert_eq!(dev.byte_at(i), 5);
    }
    assert_eq!(log.len(), 3);
    assert_eq!(log.get(1), Event::WriteStart(0));
    assert_eq!(log.get(2), Event::VerifyStart(0));
}

#[test]
fn empty_compressed_image_always_succeeds() {
    let compressed = gzip_fixture(&[]);
    let mut dev = etchr_core::memdev::MemDevice::from_bytes(vec![5u8; 1024]);
    let cancel = CancelFlag::new();
    let mut log = ProgressLog::new();
    let r = etchr_core::write::run("disk.gz", &compressed, &mut dev, true, &cancel, &mut log, 512, 128);
    assert_eq!(r, Ok(()));
    for i in 0..1024 {
        assert_eq!(dev.byte_at(i), 5);
    }
}

#[test]
fn compressed_write_round_trips_through_device() {
    let plain = fixture(2048);
    let compressed = gzip_fixture(&plain);
    let mut dev = etchr_core::memdev::MemDevice::from_bytes(vec![0u8; 2048]);
    let cancel = CancelFlag::new();
    let mut log = ProgressLog::new();
    let r = etchr_core::write::run("disk.img.gz", &compressed, &mut dev, true, &cancel, &mut log, 512, 700);
    assert_eq!(r, Ok(()));
    for i in 0..2048 {
        assert_eq!(dev.byte_at(i), plain[i]);
    }
}
