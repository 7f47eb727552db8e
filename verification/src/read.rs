//! The read pipeline: copies an entire block device to an image.
//!
//! The device's size is taken from its size query and must be non-zero;
//! the copy then proceeds in fixed-size chunks, checking the cancellation
//! flag before each chunk and reporting the cumulative byte count after
//! each. On cancellation the pipeline returns [`ReadError::Cancelled`] and
//! hands back no image at all: a half-complete image is useless, so a front
//! end working on files deletes its partial output before returning.
//!
//! The copy is resumable: [`ReadJob`] holds the position and the bytes read
//! so far, one [`ReadJob::step`] copies one chunk, and [`resume`] runs steps
//! until the device is exhausted or a stop is requested. [`run`] is the
//! whole pipeline in one call.

use crate::cancel::CancelFlag;
use crate::chunks::next_chunk_len;
use crate::chunks::next_progress;
use crate::errors::ReadError;
use crate::memdev::MemDevice;
use crate::progress::lemma_progress_events_step;
use crate::progress::progress_events;
use crate::progress::Event;
use crate::progress::ProgressLog;
use vstd::prelude::*;

verus! {

/// The progress events the read pipeline emits while copying from `done` of
/// `total` device bytes in chunks of `chunk` bytes.
pub open spec fn read_events(done: u64, total: u64, chunk: u64) -> Seq<Event> {
    progress_events(done, total, chunk, |p: u64| Event::ReadProgress(p))
}

/// A device-to-image copy in flight: the bytes read so far and the position
/// of the next chunk.
pub struct ReadJob {
    total: u64,
    done: usize,
    out: Vec<u8>,
}

impl ReadJob {
    /// The job belongs to `dev` and what it has read so far is exactly the
    /// prefix of the device up to its position.
    pub closed spec fn wf(&self, dev: &MemDevice) -> bool {
        &&& self.total == dev@.len()
        &&& self.done <= dev@.len()
        &&& self.out@ == dev@.take(self.done as int)
    }

    /// How many bytes the job has copied so far.
    pub closed spec fn spec_done(&self) -> u64 {
        self.done as u64
    }

    /// Starts a read of the whole of `dev`, recording the start event with
    /// the total byte count. A device reporting size zero is rejected with
    /// [`ReadError::ZeroSize`] before anything is copied or recorded.
    pub fn new(dev: &MemDevice, log: &mut ProgressLog) -> (r: Result<ReadJob, ReadError>)
        ensures
            dev@.len() == 0 ==> r == Err::<ReadJob, ReadError>(ReadError::ZeroSize) && final(log)@
                == old(log)@,
            dev@.len() > 0 ==> (match r {
                Ok(job) => job.wf(dev) && job.spec_done() == 0 && final(log)@ == old(log)@.push(
                    Event::ReadStart(dev@.len() as u64),
                ),
                Err(_) => false,
            }),
    {
        let total = dev.size();
        if total == 0 {
            return Err(ReadError::ZeroSize);
        }
        log.record(Event::ReadStart(total));
        let out: Vec<u8> = Vec::new();
        proof {
            assert(out@ =~= dev@.take(0));
        }
        Ok(ReadJob { total, done: 0, out })
    }

    /// True once the whole device has been copied.
    pub fn is_done(&self, dev: &MemDevice) -> (b: bool)
        requires
            self.wf(dev),
        ensures
            b == (self.spec_done() == dev@.len()),
    {
        self.done as u64 == self.total
    }

    /// Copies one chunk from the device and records the new cumulative
    /// count.
    pub fn step(&mut self, dev: &MemDevice, log: &mut ProgressLog, chunk: usize)
        requires
            old(self).wf(dev),
            old(self).spec_done() < dev@.len(),
            chunk >= 1,
        ensures
            final(self).wf(dev),
            final(self).spec_done() == next_progress(
                old(self).spec_done(),
                dev@.len() as u64,
                chunk as u64,
            ),
            final(log)@ == old(log)@.push(Event::ReadProgress(final(self).spec_done())),
    {
        // An exec witness that the device length fits a usize, for the
        // position update below.
        let _device_len = dev.len();
        let n = next_chunk_len(self.total, self.done as u64, chunk);
        dev.read_into(self.done, n, &mut self.out);
        proof {
            assert(dev@.take(self.done as int) + dev@.subrange(
                self.done as int,
                self.done + n,
            ) =~= dev@.take(self.done + n));
        }
        self.done += n;
        log.record(Event::ReadProgress(self.done as u64));
    }

    /// The bytes copied so far; the whole device once the job is done.
    pub fn into_image(self, dev: &MemDevice) -> (img: Vec<u8>)
        requires
            self.wf(dev),
        ensures
            img@ == dev@.take(self.spec_done() as int),
    {
        self.out
    }
}

/// Runs `job` to completion, checking the cancellation flag before each
/// chunk. On success the image is the whole device and the log gains one
/// progress event per chunk; on cancellation no image is returned and the
/// log holds the events of the chunks that were copied before the stop was
/// observed.
pub fn resume(job: ReadJob, dev: &MemDevice, cancel: &CancelFlag, log: &mut ProgressLog, chunk: usize) -> (r:
    Result<Vec<u8>, ReadError>)
    requires
        job.wf(dev),
        chunk >= 1,
    ensures
        match r {
            Ok(img) => img@ == dev@ && final(log)@ == old(log)@ + read_events(
                job.spec_done(),
                dev@.len() as u64,
                chunk as u64,
            ),
            Err(e) => e == ReadError::Cancelled && exists|k: int|
                0 <= k < read_events(job.spec_done(), dev@.len() as u64, chunk as u64).len()
                    && final(log)@ == old(log)@ + #[trigger] read_events(
                    job.spec_done(),
                    dev@.len() as u64,
                    chunk as u64,
                ).take(k),
        },
{
    let ghost total = dev@.len() as u64;
    let ghost full = read_events(job.spec_done(), total, chunk as u64);
    let ghost emitted = Seq::<Event>::empty();
    let mut cur = job;
    while !cur.is_done(dev)
        invariant
            cur.wf(dev),
            chunk >= 1,
            total == dev@.len(),
            full == read_events(job.spec_done(), total, chunk as u64),
            emitted + read_events(cur.spec_done(), total, chunk as u64) == full,
            log@ == old(log)@ + emitted,
        decreases total - cur.spec_done(),
    {
        if cancel.should_stop() {
            proof {
                assert(read_events(cur.spec_done(), total, chunk as u64).len() > 0);
                let k = emitted.len() as int;
                assert(read_events(job.spec_done(), total, chunk as u64).take(k) =~= emitted);
                assert(0 <= k < read_events(job.spec_done(), total, chunk as u64).len());
                assert(log@ == old(log)@ + read_events(job.spec_done(), total, chunk as u64).take(
                    k,
                ));
            }
            return Err(ReadError::Cancelled);
        }
        let ghost before = cur.spec_done();
        cur.step(dev, log, chunk);
        proof {
            lemma_progress_events_step(
                before,
                total,
                chunk as u64,
                |p: u64| Event::ReadProgress(p),
            );
            emitted = emitted.push(Event::ReadProgress(cur.spec_done()));
            assert(emitted + read_events(cur.spec_done(), total, chunk as u64) =~= full);
        }
    }
    proof {
        assert(emitted =~= full);
        assert(dev@.take(cur.spec_done() as int) =~= dev@);
    }
    Ok(cur.into_image(dev))
}

/// The whole read pipeline: size query, start event, chunked cancellable
/// copy. A zero-size device fails with [`ReadError::ZeroSize`] before any
/// event is recorded or any byte copied; otherwise the result is the whole
/// device, or [`ReadError::Cancelled`] with no image.
pub fn run(dev: &MemDevice, cancel: &CancelFlag, log: &mut ProgressLog, chunk: usize) -> (r: Result<
    Vec<u8>,
    ReadError,
>)
    requires
        chunk >= 1,
    ensures
        dev@.len() == 0 ==> r == Err::<Vec<u8>, ReadError>(ReadError::ZeroSize) && final(log)@
            == old(log)@,
        dev@.len() > 0 ==> (match r {
            Ok(img) => img@ == dev@ && final(log)@ == old(log)@ + seq![
                Event::ReadStart(dev@.len() as u64),
            ] + read_events(0, dev@.len() as u64, chunk as u64),
            Err(e) => e == ReadError::Cancelled && exists|k: int|
                0 <= k < read_events(0, dev@.len() as u64, chunk as u64).len() && final(log)@
                    == old(log)@ + seq![Event::ReadStart(dev@.len() as u64)] + #[trigger] read_events(
                    0,
                    dev@.len() as u64,
                    chunk as u64,
                ).take(k),
        }),
{
    let job = match ReadJob::new(dev, log) {
        Ok(job) => job,
        Err(e) => {
            return Err(e);
        },
    };
    proof {
        assert(old(log)@.push(Event::ReadStart(dev@.len() as u64)) =~= old(log)@ + seq![
            Event::ReadStart(dev@.len() as u64),
        ]);
    }
    resume(job, dev, cancel, log, chunk)
}

} // verus!
