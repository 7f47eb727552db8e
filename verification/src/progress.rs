//! Progress and stage-lifecycle events.
//!
//! Every pipeline appends its notifications to a [`ProgressLog`] in the
//! order it would call a presentation layer: a start event carrying the
//! total where it is known, then one progress event per chunk carrying the
//! cumulative byte count. The contracts of the pipelines state the exact
//! event sequence, so an observer's view of an operation is part of what is
//! verified.

use crate::chunks::next_progress;
use crate::chunks::points_from;
use vstd::prelude::*;

verus! {

/// One notification out of a pipeline stage.
#[derive(Clone, Copy, Debug, PartialEq, Eq, Structural)]
pub enum Event {
    /// The read pipeline starts; carries the device's total byte size.
    ReadStart(u64),
    /// Cumulative bytes copied from the device so far.
    ReadProgress(u64),
    /// The decompression stage starts; the total is unknown until the
    /// stream has been read, so it carries nothing.
    DecompressStart,
    /// Cumulative bytes decompressed so far.
    DecompressProgress(u64),
    /// The device-write stage starts; carries the image's exact byte length.
    WriteStart(u64),
    /// Cumulative genuine (unpadded) bytes written so far.
    WriteProgress(u64),
    /// The verification stage starts; carries the image's exact byte length.
    VerifyStart(u64),
    /// Cumulative bytes verified so far.
    VerifyProgress(u64),
}

/// The progress events a stage emits while copying from `done` of `total`
/// bytes in chunks of `chunk` bytes: one event per chunk, made by `f` from
/// the cumulative byte count.
pub open spec fn progress_events(done: u64, total: u64, chunk: u64, f: spec_fn(u64) -> Event) -> Seq<
    Event,
> {
    points_from(done, total, chunk).map_values(f)
}

/// One chunk's transfer moves the pending progress events along by exactly
/// the event of the new cumulative count.
pub proof fn lemma_progress_events_step(done: u64, total: u64, chunk: u64, f: spec_fn(u64) -> Event)
    requires
        chunk >= 1,
        done < total,
    ensures
        progress_events(done, total, chunk, f) == seq![f(next_progress(done, total, chunk))]
            + progress_events(next_progress(done, total, chunk), total, chunk, f),
{
    let next = next_progress(done, total, chunk);
    assert(points_from(done, total, chunk) == seq![next] + points_from(next, total, chunk));
    assert(progress_events(done, total, chunk, f) =~= seq![f(next)] + progress_events(
        next,
        total,
        chunk,
        f,
    ));
}

/// The ordered record of every event a pipeline emitted.
pub struct ProgressLog {
    events: Vec<Event>,
}

impl View for ProgressLog {
    type V = Seq<Event>;

    closed spec fn view(&self) -> Seq<Event> {
        self.events@
    }
}

impl ProgressLog {
    /// An empty log.
    pub fn new() -> (log: ProgressLog)
        ensures
            log@ == Seq::<Event>::empty(),
    {
        ProgressLog { events: Vec::new() }
    }

    /// Appends one event.
    pub fn record(&mut self, e: Event)
        ensures
            final(self)@ == old(self)@.push(e),
    {
        self.events.push(e);
    }

    /// How many events have been recorded.
    pub fn len(&self) -> (n: usize)
        ensures
            n == self@.len(),
    {
        self.events.len()
    }

    /// The `i`-th recorded event.
    pub fn get(&self, i: usize) -> (e: Event)
        requires
            i < self@.len(),
        ensures
            e == self@[i as int],
    {
        self.events[i]
    }
}

} // verus!
