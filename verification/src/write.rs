//! The write pipeline: streams a possibly compressed image onto a block
//! device, then optionally verifies what was written.
//!
//! Stage order, each gated by the previous succeeding: the image's name
//! suffix selects a decoder and the stream is fully materialized before any
//! device write; the plain bytes are then written in fixed chunks, the
//! final partial chunk zero-padded to the device block size (direct I/O
//! accepts only block-aligned write lengths) while progress reports carry
//! only genuine byte counts; finally image and device are re-read in
//! lockstep and their SHA-256 digests compared. Every stage checks the
//! cancellation flag at each chunk boundary; a cancelled write performs no
//! rollback, since bytes already on the device cannot be taken back.

use crate::cancel::CancelFlag;
use crate::chunks::next_chunk_len;
use crate::chunks::next_progress;
use crate::chunks::padded_chunk_len;
use crate::chunks::points_from;
use crate::chunks::spec_padded_len;
use crate::chunks::BLOCK_SIZE;
use crate::digest::bytes_equal;
use crate::digest::sha256;
use crate::digest::sha256_of;
use crate::errors::WriteError;
use crate::memdev::MemDevice;
use crate::progress::lemma_progress_events_step;
use crate::progress::progress_events;
use crate::progress::Event;
use crate::progress::ProgressLog;
use crate::text::last_index_of;
use crate::text::lower_eq_from;
use crate::text::spec_last_index_of;
use crate::text::spec_lower;
use vstd::prelude::*;
use vstd::string::StrSliceExecFns;

verus! {

/// The compression format an image name's suffix selects.
#[derive(Clone, Copy, Debug, PartialEq, Eq, Structural)]
pub enum ImageFormat {
    /// `.gz` or `.gzip`
    Gzip,
    /// `.xz`
    Xz,
    /// `.zst` or `.zstd`
    Zstd,
    /// Any other suffix, or none: an already-plain raw image.
    Plain,
}

/// The final path component: everything after the last `/`.
pub open spec fn spec_file_name(path: Seq<char>) -> Seq<char> {
    path.skip(spec_last_index_of(path, '/') + 1)
}

/// The suffix after the last `.` of the file name; empty when the name has
/// no dot, or only a leading one (a dotfile has no suffix).
pub open spec fn spec_extension(path: Seq<char>) -> Seq<char> {
    let name = spec_file_name(path);
    let d = spec_last_index_of(name, '.');
    if d <= 0 {
        Seq::empty()
    } else {
        name.skip(d + 1)
    }
}

/// The format selected by the image name's suffix, compared in lower case.
pub open spec fn spec_format_of(path: Seq<char>) -> ImageFormat {
    let e = spec_lower(spec_extension(path));
    if e == seq!['g', 'z'] || e == seq!['g', 'z', 'i', 'p'] {
        ImageFormat::Gzip
    } else if e == seq!['x', 'z'] {
        ImageFormat::Xz
    } else if e == seq!['z', 's', 't'] || e == seq!['z', 's', 't', 'd'] {
        ImageFormat::Zstd
    } else {
        ImageFormat::Plain
    }
}

/// Reads the compression format off the image name's suffix,
/// case-insensitively.
pub fn detect_format(path: &str) -> (f: ImageFormat)
    ensures
        f == spec_format_of(path@),
{
    let n = path.unicode_len();
    let name_start = match last_index_of(path, '/') {
        Some(i) => i + 1,
        None => 0,
    };
    let name = path.substring_char(name_start, n);
    proof {
        assert(name@ =~= spec_file_name(path@));
    }
    let d = match last_index_of(name, '.') {
        Some(i) => i,
        None => {
            proof {
                assert(spec_extension(path@) =~= Seq::<char>::empty());
                assert(spec_lower(spec_extension(path@)) =~= Seq::<char>::empty());
            }
            return ImageFormat::Plain;
        },
    };
    if d == 0 {
        proof {
            assert(spec_extension(path@) =~= Seq::<char>::empty());
            assert(spec_lower(spec_extension(path@)) =~= Seq::<char>::empty());
        }
        return ImageFormat::Plain;
    }
    proof {
        reveal_strlit("gz");
        reveal_strlit("gzip");
        reveal_strlit("xz");
        reveal_strlit("zst");
        reveal_strlit("zstd");
        assert(("gz")@ =~= seq!['g', 'z']);
        assert(("gzip")@ =~= seq!['g', 'z', 'i', 'p']);
        assert(("xz")@ =~= seq!['x', 'z']);
        assert(("zst")@ =~= seq!['z', 's', 't']);
        assert(("zstd")@ =~= seq!['z', 's', 't', 'd']);
        assert(spec_extension(path@) == name@.skip(d + 1));
    }
    if lower_eq_from(name, d + 1, "gz") || lower_eq_from(name, d + 1, "gzip") {
        ImageFormat::Gzip
    } else if lower_eq_from(name, d + 1, "xz") {
        ImageFormat::Xz
    } else if lower_eq_from(name, d + 1, "zst") || lower_eq_from(name, d + 1, "zstd") {
        ImageFormat::Zstd
    } else {
        ImageFormat::Plain
    }
}

/// What gzip decoding yields on a given byte string, when it succeeds: a
/// pure function of the compressed bytes.
pub uninterp spec fn gzip_decoded(data: Seq<u8>) -> Seq<u8>;

/// Whether a byte string is a well-formed gzip stream, so that decoding it
/// succeeds: like the decoded stream itself, a pure function of the bytes.
pub uninterp spec fn gzip_ok(data: Seq<u8>) -> bool;

/// What xz decoding yields on a given byte string, when it succeeds.
pub uninterp spec fn xz_decoded(data: Seq<u8>) -> Seq<u8>;

/// Whether a byte string is a well-formed xz stream.
pub uninterp spec fn xz_ok(data: Seq<u8>) -> bool;

/// What zstd decoding yields on a given byte string, when it succeeds.
pub uninterp spec fn zstd_decoded(data: Seq<u8>) -> Seq<u8>;

/// Whether a byte string is a well-formed zstd stream.
pub uninterp spec fn zstd_ok(data: Seq<u8>) -> bool;

/// Relies on flate2's `read::GzDecoder` over an in-memory slice: whether
/// decoding succeeds, and the decoded stream when it does, depend on the
/// compressed bytes alone; a malformed stream is the one thing that fails.
#[verifier::external_body]
fn gzip_decode(data: &[u8]) -> (r: Option<Vec<u8>>)
    ensures
        r is Some <==> gzip_ok(data@),
        r matches Some(v) ==> v@ == gzip_decoded(data@),
{
    let mut decoder = flate2::read::GzDecoder::new(data);
    let mut out = Vec::new();
    match std::io::Read::read_to_end(&mut decoder, &mut out) {
        Ok(_) => Some(out),
        Err(_) => None,
    }
}

/// Relies on xz2's `read::XzDecoder` over an in-memory slice (built with an
/// unbounded memory limit): success and the decoded stream depend on the
/// compressed bytes alone; a malformed stream is the one thing that fails.
#[verifier::external_body]
fn xz_decode(data: &[u8]) -> (r: Option<Vec<u8>>)
    ensures
        r is Some <==> xz_ok(data@),
        r matches Some(v) ==> v@ == xz_decoded(data@),
{
    let mut decoder = xz2::read::XzDecoder::new(data);
    let mut out = Vec::new();
    match std::io::Read::read_to_end(&mut decoder, &mut out) {
        Ok(_) => Some(out),
        Err(_) => None,
    }
}

/// Relies on zstd's `stream::decode_all` over an in-memory slice (default
/// decoder parameters): success and the decoded stream depend on the
/// compressed bytes alone; a malformed stream is the one thing that fails.
#[verifier::external_body]
fn zstd_decode(data: &[u8]) -> (r: Option<Vec<u8>>)
    ensures
        r is Some <==> zstd_ok(data@),
        r matches Some(v) ==> v@ == zstd_decoded(data@),
{
    match zstd::stream::decode_all(data) {
        Ok(out) => Some(out),
        Err(_) => None,
    }
}

/// Whether an image decodes at all: a plain image always does, a compressed
/// one exactly when its stream is well-formed for its format.
pub open spec fn spec_decodable(fmt: ImageFormat, data: Seq<u8>) -> bool {
    match fmt {
        ImageFormat::Gzip => gzip_ok(data),
        ImageFormat::Xz => xz_ok(data),
        ImageFormat::Zstd => zstd_ok(data),
        ImageFormat::Plain => true,
    }
}

/// The plain bytes a successful decompression stage hands to the write
/// stage: the input itself for a plain image, the decoded stream otherwise.
pub open spec fn spec_decoded(fmt: ImageFormat, data: Seq<u8>) -> Seq<u8> {
    match fmt {
        ImageFormat::Gzip => gzip_decoded(data),
        ImageFormat::Xz => xz_decoded(data),
        ImageFormat::Zstd => zstd_decoded(data),
        ImageFormat::Plain => data,
    }
}

/// The progress events the decompression stage emits.
pub open spec fn decompress_events(done: u64, total: u64, chunk: u64) -> Seq<Event> {
    progress_events(done, total, chunk, |p: u64| Event::DecompressProgress(p))
}

/// A fully materialized plain image: either the caller's own bytes passed
/// through untouched, or a freshly decoded stream the stage owns. A front
/// end working on files keeps the decoded stream in a temporary file that
/// is deleted when this value is dropped; the caller's input is never
/// deleted.
pub struct DecompressedImage {
    bytes: Vec<u8>,
    decompressed: bool,
}

impl DecompressedImage {
    /// The materialized plain bytes.
    pub closed spec fn spec_bytes(&self) -> Seq<u8> {
        self.bytes@
    }

    /// Whether a decoder ran (and so a temporary resource exists).
    pub closed spec fn spec_decompressed(&self) -> bool {
        self.decompressed
    }

    /// The plain image bytes.
    pub fn bytes(&self) -> (b: &Vec<u8>)
        ensures
            b@ == self.spec_bytes(),
    {
        &self.bytes
    }

    /// True when a decoder ran; false for a pass-through of the caller's
    /// own image.
    pub fn was_decompressed(&self) -> (b: bool)
        ensures
            b == self.spec_decompressed(),
    {
        self.decompressed
    }
}

/// Appends `src[start, start + len)` to `out`.
fn extend_from_vec(out: &mut Vec<u8>, src: &Vec<u8>, start: usize, len: usize)
    requires
        start + len <= src@.len(),
    ensures
        final(out)@ == old(out)@ + src@.subrange(start as int, start + len),
{
    let n = src.len();
    let mut j: usize = 0;
    while j < len
        invariant
            start + len <= n == src@.len(),
            j <= len,
            out@ == old(out)@ + src@.subrange(start as int, start + j),
        decreases len - j,
    {
        out.push(src[start + j]);
        proof {
            assert(src@.subrange(start as int, start + j + 1) == src@.subrange(
                start as int,
                start + j,
            ).push(src@[start + j]));
        }
        j += 1;
    }
    proof {
        assert(out@ == old(out)@ + src@.subrange(start as int, start + len));
    }
}

/// Copies a decoded stream into the materialized image in fixed chunks,
/// checking the cancellation flag before each chunk and reporting the
/// cumulative decoded byte count after each.
fn stream_decoded(decoded: Vec<u8>, cancel: &CancelFlag, log: &mut ProgressLog, chunk: usize) -> (r:
    Result<Vec<u8>, WriteError>)
    requires
        chunk >= 1,
    ensures
        match r {
            Ok(out) => out@ == decoded@ && final(log)@ == old(log)@ + decompress_events(
                0,
                decoded@.len() as u64,
                chunk as u64,
            ),
            Err(e) => e == WriteError::Cancelled && exists|k: int|
                0 <= k < decompress_events(0, decoded@.len() as u64, chunk as u64).len()
                    && final(log)@ == old(log)@ + #[trigger] decompress_events(
                    0,
                    decoded@.len() as u64,
                    chunk as u64,
                ).take(k),
        },
{
    let total = decoded.len();
    let ghost total64 = total as u64;
    let ghost full = decompress_events(0, total64, chunk as u64);
    let ghost emitted = Seq::<Event>::empty();
    let mut out: Vec<u8> = Vec::new();
    let mut done: usize = 0;
    proof {
        assert(out@ =~= decoded@.take(0));
    }
    while done < total
        invariant
            chunk >= 1,
            total == decoded@.len(),
            total64 == total as u64,
            full == decompress_events(0, total64, chunk as u64),
            done <= total,
            out@ == decoded@.take(done as int),
            emitted + decompress_events(done as u64, total64, chunk as u64) == full,
            log@ == old(log)@ + emitted,
        decreases total - done,
    {
        if cancel.should_stop() {
            proof {
                assert(decompress_events(done as u64, total64, chunk as u64).len() > 0);
                let k = emitted.len() as int;
                assert(decompress_events(0, total64, chunk as u64).take(k) =~= emitted);
                assert(log@ == old(log)@ + decompress_events(0, total64, chunk as u64).take(k));
            }
            return Err(WriteError::Cancelled);
        }
        let n = next_chunk_len(total as u64, done as u64, chunk);
        extend_from_vec(&mut out, &decoded, done, n);
        proof {
            assert(decoded@.take(done as int) + decoded@.subrange(done as int, done + n)
                =~= decoded@.take(done + n));
            lemma_progress_events_step(
                done as u64,
                total64,
                chunk as u64,
                |p: u64| Event::DecompressProgress(p),
            );
        }
        done += n;
        log.record(Event::DecompressProgress(done as u64));
        proof {
            emitted = emitted.push(Event::DecompressProgress(done as u64));
            assert(emitted + decompress_events(done as u64, total64, chunk as u64) =~= full);
        }
    }
    proof {
        assert(emitted =~= full);
        assert(decoded@.take(total as int) =~= decoded@);
    }
    Ok(out)
}

/// The decompression stage: selects a decoder from the image name's suffix
/// and fully materializes the plain bytes before any device write. A plain
/// image passes through untouched, with no event and no decoder run; a
/// compressed one is decoded and then copied in fixed chunks, checking the
/// cancellation flag and reporting cumulative decoded bytes per chunk.
/// [`WriteError::DecompressFailed`] comes exactly when the stream is
/// malformed for its format: a well-formed stream is never refused.
pub fn decompress_image(path: &str, data: &Vec<u8>, cancel: &CancelFlag, log: &mut ProgressLog, chunk: usize) -> (r:
    Result<DecompressedImage, WriteError>)
    requires
        chunk >= 1,
    ensures
        ({
            let fmt = spec_format_of(path@);
            let dec = spec_decoded(fmt, data@);
            &&& (match r {
                Ok(img) => img.spec_bytes() == dec && img.spec_decompressed() == (fmt
                    != ImageFormat::Plain) && (fmt == ImageFormat::Plain ==> final(log)@ == old(
                    log,
                )@) && (fmt != ImageFormat::Plain ==> final(log)@ == old(log)@
                    + decompress_events(0, dec.len() as u64, chunk as u64)),
                Err(e) => fmt != ImageFormat::Plain && (e == WriteError::DecompressFailed
                    && final(log)@ == old(log)@ || e == WriteError::Cancelled && spec_decodable(
                    fmt,
                    data@,
                ) && exists|k: int|
                    0 <= k < decompress_events(0, dec.len() as u64, chunk as u64).len()
                        && final(log)@ == old(log)@ + #[trigger] decompress_events(
                        0,
                        dec.len() as u64,
                        chunk as u64,
                    ).take(k)),
            })
            // A well-formed stream is never refused: the failure comes
            // exactly on a compressed image whose stream is malformed.
            &&& ((r is Err && r->Err_0 == WriteError::DecompressFailed) <==> (fmt
                != ImageFormat::Plain && !spec_decodable(fmt, data@)))
            &&& (fmt == ImageFormat::Plain ==> r is Ok)
            &&& (spec_decodable(fmt, data@) && dec.len() == 0 ==> r is Ok)
        }),
{
    let fmt = detect_format(path);
    let decoded: Vec<u8> = match fmt {
        ImageFormat::Plain => {
            let mut out: Vec<u8> = Vec::new();
            extend_from_vec(&mut out, data, 0, data.len());
            proof {
                assert(data@.subrange(0, data@.len() as int) =~= data@);
                assert(Seq::<u8>::empty() + data@ =~= data@);
            }
            return Ok(DecompressedImage { bytes: out, decompressed: false });
        },
        ImageFormat::Gzip => match gzip_decode(data.as_slice()) {
            Some(v) => v,
            None => {
                return Err(WriteError::DecompressFailed);
            },
        },
        ImageFormat::Xz => match xz_decode(data.as_slice()) {
            Some(v) => v,
            None => {
                return Err(WriteError::DecompressFailed);
            },
        },
        ImageFormat::Zstd => match zstd_decode(data.as_slice()) {
            Some(v) => v,
            None => {
                return Err(WriteError::DecompressFailed);
            },
        },
    };
    proof {
        assert(decoded@ == spec_decoded(spec_format_of(path@), data@));
    }
    let ghost dec = decoded@;
    match stream_decoded(decoded, cancel, log, chunk) {
        Ok(out) => {
            proof {
                assert(out@ == dec);
            }
            Ok(DecompressedImage { bytes: out, decompressed: true })
        },
        Err(e) => {
            proof {
                if dec.len() == 0 {
                    assert(decompress_events(0, dec.len() as u64, chunk as u64)
                        =~= Seq::<Event>::empty());
                    assert(false);
                }
            }
            Err(e)
        },
    }
}

/// A zero-filled byte string.
pub open spec fn zero_seq(n: nat) -> Seq<u8> {
    Seq::new(n, |i: int| 0u8)
}

/// The device content after a completed write of `img` over a device that
/// held `dev0`: the image, the zero padding of its final partial block, and
/// the untouched remainder of the device.
pub open spec fn spec_written(dev0: Seq<u8>, img: Seq<u8>) -> Seq<u8> {
    let l = img.len() as int;
    let p = spec_padded_len(l, BLOCK_SIZE as int);
    img + zero_seq((p - l) as nat) + dev0.skip(p)
}

/// The progress events the device-write stage emits: cumulative genuine
/// byte counts, never padded ones.
pub open spec fn write_events(done: u64, total: u64, chunk: u64) -> Seq<Event> {
    progress_events(done, total, chunk, |p: u64| Event::WriteProgress(p))
}

/// An image-to-device write in flight: how much of the image is already on
/// the device, and what the device held when the write began.
pub struct WriteJob {
    total: usize,
    done: usize,
    base: Ghost<Seq<u8>>,
}

impl WriteJob {
    /// The device content when the write began.
    pub closed spec fn spec_base(&self) -> Seq<u8> {
        self.base@
    }

    /// How many genuine image bytes are on the device so far.
    pub closed spec fn spec_done(&self) -> u64 {
        self.done as u64
    }

    /// The image length the job was created for.
    pub closed spec fn spec_total(&self) -> u64 {
        self.total as u64
    }

    /// The job belongs to `img` and `dev`: the device holds the written
    /// prefix of the image and is otherwise as it began; after the final
    /// (padded) chunk it is exactly [`spec_written`] of the two.
    pub closed spec fn wf(&self, img: &Vec<u8>, dev: &MemDevice) -> bool {
        &&& self.total == img@.len()
        &&& self.done <= self.total
        &&& self.base@.len() == dev@.len()
        &&& spec_padded_len(img@.len() as int, BLOCK_SIZE as int) <= dev@.len()
        &&& (self.done < self.total ==> dev@ == img@.take(self.done as int) + self.base@.skip(
            self.done as int,
        ))
        &&& (self.done == self.total ==> dev@ == spec_written(self.base@, img@))
    }

    /// Starts a write of `img` onto `dev`, recording the start event with
    /// the image's exact length. A device too small for the block-padded
    /// image is rejected with [`WriteError::IoFailure`] before anything is
    /// written or recorded.
    pub fn new(img: &Vec<u8>, dev: &MemDevice, log: &mut ProgressLog) -> (r: Result<
        WriteJob,
        WriteError,
    >)
        ensures
            spec_padded_len(img@.len() as int, BLOCK_SIZE as int) > dev@.len() ==> r == Err::<
                WriteJob,
                WriteError,
            >(WriteError::IoFailure) && final(log)@ == old(log)@,
            spec_padded_len(img@.len() as int, BLOCK_SIZE as int) <= dev@.len() ==> (match r {
                Ok(job) => job.wf(img, dev) && job.spec_done() == 0 && job.spec_base() == dev@
                    && final(log)@ == old(log)@.push(Event::WriteStart(img@.len() as u64)),
                Err(_) => false,
            }),
    {
        let l = img.len();
        let dlen = dev.len();
        let rem = l % BLOCK_SIZE;
        proof {
            crate::chunks::lemma_padded_len_bounds(l as int, BLOCK_SIZE as int);
        }
        let p = if rem == 0 {
            l
        } else {
            match (l - rem).checked_add(BLOCK_SIZE) {
                Some(v) => v,
                None => {
                    // The padded length does not even fit the machine, so no
                    // device can hold it.
                    proof {
                        assert(spec_padded_len(l as int, BLOCK_SIZE as int) == l - rem
                            + BLOCK_SIZE);
                        assert(spec_padded_len(l as int, BLOCK_SIZE as int) > usize::MAX >= dlen);
                    }
                    return Err(WriteError::IoFailure);
                },
            }
        };
        if (p as u64) > dev.size() {
            return Err(WriteError::IoFailure);
        }
        log.record(Event::WriteStart(l as u64));
        let job = WriteJob { total: l, done: 0, base: Ghost(dev@) };
        proof {
            assert(img@.take(0) + job.base@.skip(0) =~= dev@);
            if l == 0 {
                assert(spec_written(job.base@, img@) =~= dev@);
            }
        }
        Ok(job)
    }

    /// True once the whole image (with its final padding) is on the device.
    pub fn is_done(&self) -> (b: bool)
        ensures
            b == (self.spec_done() == self.spec_total()),
    {
        self.done == self.total
    }

    /// How many genuine image bytes are on the device so far.
    pub fn done_bytes(&self) -> (n: u64)
        ensures
            n == self.spec_done(),
    {
        self.done as u64
    }

    /// Writes one chunk of the image to the device, zero-padding a final
    /// partial chunk to the device block size, and records the new
    /// cumulative genuine byte count (never the padded one).
    pub fn step(&mut self, img: &Vec<u8>, dev: &mut MemDevice, log: &mut ProgressLog, chunk: usize)
        requires
            old(self).wf(img, old(dev)),
            old(self).spec_done() < img@.len(),
            chunk >= BLOCK_SIZE,
            chunk % BLOCK_SIZE == 0,
            chunk + BLOCK_SIZE <= usize::MAX,
            old(self).spec_done() % (chunk as u64) == 0,
        ensures
            final(self).wf(img, final(dev)),
            final(self).spec_base() == old(self).spec_base(),
            final(dev)@.len() == old(dev)@.len(),
            final(self).spec_done() == next_progress(
                old(self).spec_done(),
                img@.len() as u64,
                chunk as u64,
            ),
            final(self).spec_done() % (chunk as u64) == 0 || final(self).spec_done()
                == img@.len(),
            final(log)@ == old(log)@.push(Event::WriteProgress(final(self).spec_done())),
    {
        let ghost done0 = self.done as int;
        let ghost base = self.base@;
        let n = next_chunk_len(self.total as u64, self.done as u64, chunk);
        let mut buf: Vec<u8> = Vec::new();
        extend_from_vec(&mut buf, img, self.done, n);
        let p = padded_chunk_len(n, BLOCK_SIZE);
        proof {
            assert(buf@ =~= img@.subrange(done0, done0 + n) + zero_seq(0));
        }
        while buf.len() < p
            invariant
                n <= buf@.len() <= p,
                buf@ == img@.subrange(done0, done0 + n) + zero_seq((buf@.len() - n) as nat),
            decreases p - buf@.len(),
        {
            buf.push(0u8);
            proof {
                assert(buf@ =~= img@.subrange(done0, done0 + n) + zero_seq(
                    (buf@.len() - n) as nat,
                ));
            }
        }
        proof {
            crate::chunks::lemma_mod_zero_transitive(done0, chunk as int, BLOCK_SIZE as int);
            crate::chunks::lemma_padded_len_bounds(n as int, BLOCK_SIZE as int);
            if done0 + n == self.total {
                crate::chunks::lemma_padded_len_add(done0, n as int, BLOCK_SIZE as int);
                assert(done0 + p == spec_padded_len(img@.len() as int, BLOCK_SIZE as int));
            } else {
                assert(n == chunk);
                crate::chunks::lemma_padded_len_bounds(chunk as int, BLOCK_SIZE as int);
                assert(p == n);
                assert(done0 + p < img@.len() <= spec_padded_len(
                    img@.len() as int,
                    BLOCK_SIZE as int,
                ));
            }
            assert(done0 + p <= dev@.len());
        }
        dev.write_at(self.done, buf.as_slice());
        proof {
            let olddev = img@.take(done0) + base.skip(done0);
            assert(old(dev)@ == olddev);
            assert(olddev.take(done0) =~= img@.take(done0));
            if done0 + n == self.total {
                let l = img@.len() as int;
                let pl = spec_padded_len(l, BLOCK_SIZE as int);
                assert(olddev.skip(done0 + p) =~= base.skip(pl));
                assert(img@.take(done0) + (img@.subrange(done0, done0 + n) + zero_seq(
                    (p - n) as nat,
                )) + base.skip(pl) =~= spec_written(base, img@));
                assert(dev@ == spec_written(base, img@));
            } else {
                assert(olddev.skip(done0 + n) =~= base.skip(done0 + n));
                assert(img@.take(done0) + (img@.subrange(done0, done0 + n) + zero_seq(0))
                    + base.skip(done0 + n) =~= img@.take(done0 + n) + base.skip(done0 + n));
                assert(dev@ == img@.take(done0 + n) + base.skip(done0 + n));
            }
        }
        self.done += n;
        log.record(Event::WriteProgress(self.done as u64));
        proof {
            if self.done < self.total {
                vstd::arithmetic::div_mod::lemma_mod_add_multiples_vanish(done0, chunk as int);
                assert((done0 + chunk) % (chunk as int) == done0 % (chunk as int));
                assert(self.done as u64 % (chunk as u64) == 0);
            }
        }
    }
}

/// Runs a write job to completion, checking the cancellation flag before
/// each chunk. On success the device holds exactly the written image
/// ([`spec_written`]); on cancellation the device keeps the whole chunks
/// already committed — physical writes are not rolled back — and the log
/// holds the progress events of exactly those chunks.
pub fn resume_write(
    job: WriteJob,
    img: &Vec<u8>,
    dev: &mut MemDevice,
    cancel: &CancelFlag,
    log: &mut ProgressLog,
    chunk: usize,
) -> (r: Result<(), WriteError>)
    requires
        job.wf(img, old(dev)),
        chunk >= BLOCK_SIZE,
        chunk % BLOCK_SIZE == 0,
        chunk + BLOCK_SIZE <= usize::MAX,
        job.spec_done() % (chunk as u64) == 0 || job.spec_done() == img@.len(),
    ensures
        final(dev)@.len() == old(dev)@.len(),
        match r {
            Ok(()) => final(dev)@ == spec_written(job.spec_base(), img@) && final(log)@ == old(
                log,
            )@ + write_events(job.spec_done(), img@.len() as u64, chunk as u64),
            Err(e) => e == WriteError::Cancelled && (exists|d: int|
                0 <= d <= img@.len() && final(dev)@ == #[trigger] img@.take(d)
                    + job.spec_base().skip(d)) && exists|k: int|
                0 <= k < write_events(job.spec_done(), img@.len() as u64, chunk as u64).len()
                    && final(log)@ == old(log)@ + #[trigger] write_events(
                    job.spec_done(),
                    img@.len() as u64,
                    chunk as u64,
                ).take(k),
        },
{
    let ghost total64 = img@.len() as u64;
    let ghost full = write_events(job.spec_done(), total64, chunk as u64);
    let ghost emitted = Seq::<Event>::empty();
    let mut cur = job;
    while !cur.is_done()
        invariant
            cur.wf(img, dev),
            chunk >= BLOCK_SIZE,
            chunk % BLOCK_SIZE == 0,
            chunk + BLOCK_SIZE <= usize::MAX,
            cur.spec_done() % (chunk as u64) == 0 || cur.spec_done() == img@.len(),
            cur.spec_base() == job.spec_base(),
            dev@.len() == old(dev)@.len(),
            total64 == img@.len() as u64,
            full == write_events(job.spec_done(), total64, chunk as u64),
            emitted + write_events(cur.spec_done(), total64, chunk as u64) == full,
            log@ == old(log)@ + emitted,
        decreases img@.len() - cur.spec_done(),
    {
        if cancel.should_stop() {
            proof {
                assert(write_events(cur.spec_done(), total64, chunk as u64).len() > 0);
                let k = emitted.len() as int;
                assert(write_events(job.spec_done(), total64, chunk as u64).take(k) =~= emitted);
                assert(log@ == old(log)@ + write_events(job.spec_done(), total64, chunk as u64).take(
                    k,
                ));
                let d = cur.spec_done() as int;
                assert(dev@ == img@.take(d) + job.spec_base().skip(d));
            }
            return Err(WriteError::Cancelled);
        }
        let ghost before = cur.spec_done();
        cur.step(img, dev, log, chunk);
        proof {
            lemma_progress_events_step(
                before,
                total64,
                chunk as u64,
                |p: u64| Event::WriteProgress(p),
            );
            emitted = emitted.push(Event::WriteProgress(cur.spec_done()));
            assert(emitted + write_events(cur.spec_done(), total64, chunk as u64) =~= full);
        }
    }
    proof {
        assert(emitted =~= full);
    }
    Ok(())
}

/// The progress events the verification stage emits.
pub open spec fn verify_events(done: u64, total: u64, chunk: u64) -> Seq<Event> {
    progress_events(done, total, chunk, |p: u64| Event::VerifyProgress(p))
}

/// Verification accepts: the SHA-256 digest of the image equals the digest
/// of the same number of bytes re-read from the front of the device.
pub open spec fn spec_verify_ok(img: Seq<u8>, dev: Seq<u8>) -> bool {
    sha256_of(img) == sha256_of(dev.take(img.len() as int))
}

/// The verification stage: re-reads image and device in lockstep chunks for
/// exactly the image's length, digesting each side, and compares the two
/// digests. A mismatch is reported only after both streams are fully
/// consumed; it cannot roll the write back. The cancellation flag is
/// checked before each chunk.
pub fn verify_device(img: &Vec<u8>, dev: &MemDevice, cancel: &CancelFlag, log: &mut ProgressLog, chunk: usize) -> (r:
    Result<(), WriteError>)
    requires
        chunk >= 1,
    ensures
        img@.len() > dev@.len() ==> r == Err::<(), WriteError>(WriteError::IoFailure)
            && final(log)@ == old(log)@,
        img@.len() <= dev@.len() ==> (match r {
            Ok(()) => spec_verify_ok(img@, dev@) && final(log)@ == old(log)@ + seq![
                Event::VerifyStart(img@.len() as u64),
            ] + verify_events(0, img@.len() as u64, chunk as u64),
            Err(e) => {
                ||| (e == WriteError::VerificationMismatch && !spec_verify_ok(img@, dev@)
                    && final(log)@ == old(log)@ + seq![Event::VerifyStart(img@.len() as u64)]
                    + verify_events(0, img@.len() as u64, chunk as u64))
                ||| (e == WriteError::Cancelled && exists|k: int|
                    0 <= k < verify_events(0, img@.len() as u64, chunk as u64).len() && final(log)@
                        == old(log)@ + seq![Event::VerifyStart(img@.len() as u64)]
                        + #[trigger] verify_events(0, img@.len() as u64, chunk as u64).take(k))
            },
        }),
{
    let l = img.len();
    if (l as u64) > dev.size() {
        return Err(WriteError::IoFailure);
    }
    log.record(Event::VerifyStart(l as u64));
    let ghost entry = log@;
    let ghost total64 = l as u64;
    let ghost full = verify_events(0, total64, chunk as u64);
    let ghost emitted = Seq::<Event>::empty();
    let mut done: usize = 0;
    while done < l
        invariant
            chunk >= 1,
            l == img@.len() <= dev@.len(),
            total64 == l as u64,
            full == verify_events(0, total64, chunk as u64),
            done <= l,
            emitted + verify_events(done as u64, total64, chunk as u64) == full,
            log@ == entry + emitted,
            entry == old(log)@ + seq![Event::VerifyStart(l as u64)],
        decreases l - done,
    {
        if cancel.should_stop() {
            proof {
                assert(verify_events(done as u64, total64, chunk as u64).len() > 0);
                let k = emitted.len() as int;
                assert(verify_events(0, total64, chunk as u64).take(k) =~= emitted);
                assert(log@ == old(log)@ + seq![Event::VerifyStart(l as u64)] + verify_events(
                    0,
                    total64,
                    chunk as u64,
                ).take(k));
            }
            return Err(WriteError::Cancelled);
        }
        let n = next_chunk_len(l as u64, done as u64, chunk);
        proof {
            lemma_progress_events_step(
                done as u64,
                total64,
                chunk as u64,
                |p: u64| Event::VerifyProgress(p),
            );
        }
        done += n;
        log.record(Event::VerifyProgress(done as u64));
        proof {
            emitted = emitted.push(Event::VerifyProgress(done as u64));
            assert(emitted + verify_events(done as u64, total64, chunk as u64) =~= full);
        }
    }
    proof {
        assert(emitted =~= full);
    }
    let image_digest = sha256(img.as_slice());
    let mut device_prefix: Vec<u8> = Vec::new();
    dev.read_into(0, l, &mut device_prefix);
    proof {
        assert(device_prefix@ =~= dev@.take(l as int));
    }
    let device_digest = sha256(device_prefix.as_slice());
    if bytes_equal(&image_digest, &device_digest) {
        Ok(())
    } else {
        Err(WriteError::VerificationMismatch)
    }
}

/// Every event a successful whole write pipeline run emits, in order: the
/// decompression stage (progress only when a decoder ran), the device-write
/// stage with the image's exact length, and, when requested, the
/// verification stage.
pub open spec fn run_events(
    fmt: ImageFormat,
    dec: Seq<u8>,
    verify: bool,
    wchunk: u64,
    dchunk: u64,
) -> Seq<Event> {
    let l = dec.len() as u64;
    seq![Event::DecompressStart] + (if fmt == ImageFormat::Plain {
        Seq::<Event>::empty()
    } else {
        decompress_events(0, l, dchunk)
    }) + seq![Event::WriteStart(l)] + write_events(0, l, wchunk) + (if verify {
        seq![Event::VerifyStart(l)] + verify_events(0, l, wchunk)
    } else {
        Seq::<Event>::empty()
    })
}

/// The whole write pipeline: decompression, device write, optional
/// verification, each stage gated by the previous succeeding and each
/// checking the cancellation flag at chunk boundaries.
///
/// On success the device holds exactly the written image and the log holds
/// [`run_events`]. A verification mismatch cannot occur in a single run
/// over an unmodified device, and the contract says so: the error is never
/// returned here. A cancelled run leaves the chunks already committed on
/// the device, without rollback.
#[verifier::rlimit(60)]
pub fn run(
    image_path: &str,
    image_data: &Vec<u8>,
    dev: &mut MemDevice,
    verify: bool,
    cancel: &CancelFlag,
    log: &mut ProgressLog,
    write_chunk: usize,
    decompress_chunk: usize,
) -> (r: Result<(), WriteError>)
    requires
        write_chunk >= BLOCK_SIZE,
        write_chunk % BLOCK_SIZE == 0,
        write_chunk + BLOCK_SIZE <= usize::MAX,
        decompress_chunk >= 1,
    ensures
        final(dev)@.len() == old(dev)@.len(),
        ({
            let fmt = spec_format_of(image_path@);
            let dec = spec_decoded(fmt, image_data@);
            let pl = spec_padded_len(dec.len() as int, BLOCK_SIZE as int);
            match r {
                Ok(()) => pl <= old(dev)@.len() && final(dev)@ == spec_written(old(dev)@, dec)
                    && final(log)@ == old(log)@ + run_events(
                    fmt,
                    dec,
                    verify,
                    write_chunk as u64,
                    decompress_chunk as u64,
                ),
                Err(e) => {
                    &&& e != WriteError::VerificationMismatch
                    &&& e != WriteError::DeviceOpenFailed
                    &&& (e == WriteError::DecompressFailed ==> fmt != ImageFormat::Plain
                        && final(dev)@ == old(dev)@ && final(log)@ == old(log)@.push(
                        Event::DecompressStart,
                    ))
                    &&& (e == WriteError::IoFailure ==> pl > old(dev)@.len() && final(dev)@
                        == old(dev)@ && final(log)@ == old(log)@ + seq![Event::DecompressStart] + (
                    if fmt == ImageFormat::Plain {
                        Seq::<Event>::empty()
                    } else {
                        decompress_events(0, dec.len() as u64, decompress_chunk as u64)
                    }))
                    &&& (e == WriteError::Cancelled ==> final(dev)@ == spec_written(old(dev)@, dec)
                        || exists|d: int|
                        0 <= d <= dec.len() && final(dev)@ == #[trigger] dec.take(d)
                            + old(dev)@.skip(d))
                    &&& (e == WriteError::Cancelled ==> exists|k: int|
                        0 <= k < run_events(
                            fmt,
                            dec,
                            verify,
                            write_chunk as u64,
                            decompress_chunk as u64,
                        ).len() && final(log)@ == old(log)@ + #[trigger] run_events(
                            fmt,
                            dec,
                            verify,
                            write_chunk as u64,
                            decompress_chunk as u64,
                        ).take(k))
                },
            }
        }),
        ({
            let fmt = spec_format_of(image_path@);
            let dec = spec_decoded(fmt, image_data@);
            let pl = spec_padded_len(dec.len() as int, BLOCK_SIZE as int);
            // A malformed compressed stream is the one source of
            // DecompressFailed; a decodable image that fits is written, bar
            // cancellation; and an empty decoded image has no chunk boundary
            // at which a stop could be observed, so it always succeeds.
            &&& ((r is Err && r->Err_0 == WriteError::DecompressFailed) <==> (fmt
                != ImageFormat::Plain && !spec_decodable(fmt, image_data@)))
            &&& (spec_decodable(fmt, image_data@) && pl <= old(dev)@.len() ==> (r is Ok || r
                == Err::<(), WriteError>(WriteError::Cancelled)))
            &&& (spec_decodable(fmt, image_data@) && dec.len() == 0 ==> r is Ok)
        }),
{
    let ghost fmt = spec_format_of(image_path@);
    let ghost dec = spec_decoded(fmt, image_data@);
    log.record(Event::DecompressStart);
    let img = match decompress_image(image_path, image_data, cancel, log, decompress_chunk) {
        Ok(m) => m,
        Err(e) => {
            proof {
                let re = run_events(fmt, dec, verify, write_chunk as u64, decompress_chunk as u64);
                if e == WriteError::Cancelled {
                    assert(final(dev)@ == dec.take(0) + old(dev)@.skip(0)) by {
                        assert(dec.take(0) + old(dev)@.skip(0) =~= old(dev)@);
                    }
                    let de = decompress_events(0, dec.len() as u64, decompress_chunk as u64);
                    let kd = choose|kd: int|
                        0 <= kd < de.len() && log@ == old(log)@.push(Event::DecompressStart)
                            + de.take(kd);
                    assert(old(log)@ + re.take(1 + kd) =~= old(log)@.push(Event::DecompressStart)
                        + de.take(kd));
                    assert(log@ == old(log)@ + re.take(1 + kd));
                    assert(0 <= 1 + kd < re.len());
                }
            }
            return Err(e);
        },
    };
    let data = img.bytes();
    let ghost after_decompress = log@;
    proof {
        if fmt == ImageFormat::Plain {
            assert(after_decompress =~= old(log)@ + seq![Event::DecompressStart]
                + Seq::<Event>::empty());
        } else {
            assert(after_decompress =~= old(log)@ + seq![Event::DecompressStart]
                + decompress_events(0, dec.len() as u64, decompress_chunk as u64));
        }
    }
    let job = match WriteJob::new(data, dev, log) {
        Ok(j) => j,
        Err(_) => {
            proof {
                assert(log@ == after_decompress);
            }
            return Err(WriteError::IoFailure);
        },
    };
    let ghost base = job.spec_base();
    match resume_write(job, data, dev, cancel, log, write_chunk) {
        Ok(()) => {},
        Err(e) => {
            proof {
                let re = run_events(fmt, dec, verify, write_chunk as u64, decompress_chunk as u64);
                let we = write_events(0, dec.len() as u64, write_chunk as u64);
                let head = 1 + (if fmt == ImageFormat::Plain {
                    0int
                } else {
                    decompress_events(0, dec.len() as u64, decompress_chunk as u64).len() as int
                });
                if dec.len() == 0 {
                    assert(we =~= Seq::<Event>::empty());
                    assert(false);
                }
                let kw = choose|kw: int|
                    0 <= kw < we.len() && log@ == after_decompress.push(
                        Event::WriteStart(dec.len() as u64),
                    ) + we.take(kw);
                assert(old(log)@ + re.take(head + 1 + kw) =~= after_decompress.push(
                    Event::WriteStart(dec.len() as u64),
                ) + we.take(kw));
                assert(log@ == old(log)@ + re.take(head + 1 + kw));
                assert(0 <= head + 1 + kw < re.len());
            }
            return Err(e);
        },
    }
    let ghost after_write = log@;
    proof {
        assert(after_write =~= after_decompress + seq![Event::WriteStart(dec.len() as u64)]
            + write_events(0, dec.len() as u64, write_chunk as u64));
    }
    if verify {
        let ghost l = data@.len() as int;
        proof {
            assert(data@.len() <= spec_padded_len(l, BLOCK_SIZE as int) <= dev@.len());
            assert(dev@.take(l) =~= dec);
        }
        match verify_device(data, dev, cancel, log, write_chunk) {
            Ok(()) => {},
            Err(e) => {
                proof {
                    assert(e != WriteError::IoFailure);
                    assert(spec_verify_ok(data@, dev@));
                    assert(e != WriteError::VerificationMismatch);
                    let re = run_events(
                        fmt,
                        dec,
                        true,
                        write_chunk as u64,
                        decompress_chunk as u64,
                    );
                    let ve = verify_events(0, dec.len() as u64, write_chunk as u64);
                    let head = 1 + (if fmt == ImageFormat::Plain {
                        0int
                    } else {
                        decompress_events(0, dec.len() as u64, decompress_chunk as u64).len() as int
                    }) + 1 + write_events(0, dec.len() as u64, write_chunk as u64).len() as int;
                    if dec.len() == 0 {
                        assert(ve =~= Seq::<Event>::empty());
                        assert(false);
                    }
                    let kv = choose|kv: int|
                        0 <= kv < ve.len() && log@ == after_write + seq![
                            Event::VerifyStart(dec.len() as u64),
                        ] + ve.take(kv);
                    assert(old(log)@ + re.take(head + 1 + kv) =~= after_write + seq![
                        Event::VerifyStart(dec.len() as u64),
                    ] + ve.take(kv));
                    assert(log@ == old(log)@ + re.take(head + 1 + kv));
                    assert(0 <= head + 1 + kv < re.len());
                }
                return Err(e);
            },
        }
        proof {
            lemma_run_events_assembly(
                old(log)@,
                fmt,
                dec,
                true,
                write_chunk as u64,
                decompress_chunk as u64,
                after_decompress,
                after_write,
                log@,
            );
        }
    } else {
        proof {
            lemma_run_events_assembly(
                old(log)@,
                fmt,
                dec,
                false,
                write_chunk as u64,
                decompress_chunk as u64,
                after_decompress,
                after_write,
                log@,
            );
        }
    }
    Ok(())
}

/// Concatenating the per-stage event suffixes gives [`run_events`].
proof fn lemma_run_events_assembly(
    log0: Seq<Event>,
    fmt: ImageFormat,
    dec: Seq<u8>,
    verify: bool,
    wchunk: u64,
    dchunk: u64,
    after_decompress: Seq<Event>,
    after_write: Seq<Event>,
    after_all: Seq<Event>,
)
    requires
        after_decompress == log0 + seq![Event::DecompressStart] + (if fmt == ImageFormat::Plain {
            Seq::<Event>::empty()
        } else {
            decompress_events(0, dec.len() as u64, dchunk)
        }),
        after_write == after_decompress + seq![Event::WriteStart(dec.len() as u64)] + write_events(
            0,
            dec.len() as u64,
            wchunk,
        ),
        after_all == (if verify {
            after_write + seq![Event::VerifyStart(dec.len() as u64)] + verify_events(
                0,
                dec.len() as u64,
                wchunk,
            )
        } else {
            after_write
        }),
    ensures
        after_all == log0 + run_events(fmt, dec, verify, wchunk, dchunk),
{
    assert(after_all =~= log0 + run_events(fmt, dec, verify, wchunk, dchunk));
}

/// Writing an image onto a device and then reading the device back
/// reproduces the image: the read-back bytes begin with the image exactly,
/// and are the image exactly when it fills the device.
pub proof fn lemma_write_read_round_trip(img: Seq<u8>, dev0: Seq<u8>, readback: Seq<u8>)
    requires
        spec_padded_len(img.len() as int, BLOCK_SIZE as int) <= dev0.len(),
        readback == spec_written(dev0, img),
    ensures
        readback.take(img.len() as int) == img,
        img.len() == dev0.len() ==> readback == img,
{
    crate::chunks::lemma_padded_len_bounds(img.len() as int, BLOCK_SIZE as int);
    assert(readback.take(img.len() as int) =~= img);
    if img.len() == dev0.len() {
        assert(readback =~= img);
    }
}

/// The outcome of a verification pass that ran to completion over an image
/// and a device: acceptance exactly when the digests agree, a mismatch
/// error exactly otherwise.
pub open spec fn spec_completed_verify(img: Seq<u8>, dev: Seq<u8>, r: Result<
    (),
    WriteError,
>) -> bool {
    match r {
        Ok(()) => spec_verify_ok(img, dev),
        Err(e) => e == WriteError::VerificationMismatch && !spec_verify_ok(img, dev),
    }
}

/// Verification is idempotent: two completed verification passes over the
/// same unmodified image and device return the same outcome — both accept,
/// or both report the mismatch.
pub proof fn lemma_verification_idempotent(
    img: Seq<u8>,
    dev: Seq<u8>,
    r1: Result<(), WriteError>,
    r2: Result<(), WriteError>,
)
    requires
        spec_completed_verify(img, dev, r1),
        spec_completed_verify(img, dev, r2),
    ensures
        r1 is Ok <==> r2 is Ok,
        r1 is Err ==> r1->Err_0 == r2->Err_0,
{
}

/// The write stage reports only genuine byte counts: the cumulative counts
/// never exceed the image's true length and the final one equals it
/// exactly, though the device itself receives the block-padded length.
pub proof fn lemma_write_progress_reports_true_length(total: u64, chunk: u64)
    requires
        total >= 1,
        chunk >= 1,
    ensures
        write_events(0, total, chunk).len() > 0,
        write_events(0, total, chunk).last() == Event::WriteProgress(total),
        forall|i: int|
            0 <= i < write_events(0, total, chunk).len() ==> (#[trigger] write_events(
                0,
                total,
                chunk,
            )[i] matches Event::WriteProgress(p) && p <= total),
{
    crate::chunks::lemma_points_within_total(0, total, chunk);
    assert(write_events(0, total, chunk).last() == Event::WriteProgress(
        points_from(0, total, chunk).last(),
    ));
}

} // verus!
