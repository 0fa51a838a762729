//! The upload stage's bookkeeping: bytes sent against the file's size, and
//! the progress events that follow each chunk.

use vstd::prelude::*;
use crate::tracker::{fraction_of, fresh_tracker, update_spec, ProgressTracker, TrackerView, SCALE};

verus! {

/// The size of the chunks a file is sent in.
pub const CHUNK_SIZE: usize = 131072;

/// The progress of an upload after a chunk.
#[derive(Debug, Clone, Copy, PartialEq, Eq)]
pub struct UploadProgressPayload {
    /// Bytes sent so far, in millionths of the file's size.
    pub progress: u64,
    /// Estimated time left, in milliseconds.
    pub eta: u64,
    /// Index of the file in the job.
    pub step: u32,
}

/// The state of an [`UploadSession`].
pub struct UploadView {
    pub sent: u64,
    pub size: u64,
    pub step: u32,
    pub tracker: TrackerView,
}

/// The share of a file of `size` bytes that `sent` bytes are, in millionths;
/// an empty file counts as done.
pub open spec fn sent_fraction(sent: u64, size: u64) -> u64 {
    if size == 0 {
        SCALE
    } else {
        fraction_of(sent, size)
    }
}

/// Counts the bytes of one file's upload.
pub struct UploadSession {
    sent: u64,
    size: u64,
    step: u32,
    tracker: ProgressTracker,
}

impl UploadSession {
    /// The session's state.
    pub closed spec fn view(&self) -> UploadView {
        UploadView { sent: self.sent, size: self.size, step: self.step, tracker: self.tracker.view() }
    }

    /// The session's invariant.
    pub closed spec fn wf(&self) -> bool {
        self.tracker.wf()
    }

    /// A session for the file at position `step` of the job, of `size`
    /// bytes, started at time `now_ms`.
    pub fn new(step: u32, size: u64, now_ms: u64) -> (s: UploadSession)
        ensures
            s.wf(),
            s.view().sent == 0,
            s.view().size == size,
            s.view().step == step,
            s.view().tracker == fresh_tracker(now_ms),
    {
        UploadSession { sent: 0, size, step, tracker: ProgressTracker::new(now_ms) }
    }

    /// The bytes sent so far.
    pub fn sent(&self) -> (r: u64)
        ensures
            r == self.view().sent,
    {
        self.sent
    }

    /// Counts a chunk of `bytes` sent at time `now_ms`, and gives the
    /// progress event that follows it.
    pub fn on_chunk(&mut self, bytes: u64, now_ms: u64) -> (p: UploadProgressPayload)
        requires
            old(self).wf(),
            old(self).view().sent + bytes <= u64::MAX,
        ensures
            final(self).wf(),
            final(self).view().sent == old(self).view().sent + bytes,
            final(self).view().size == old(self).view().size,
            final(self).view().step == old(self).view().step,
            final(self).view().tracker == match update_spec(old(self).view().tracker, now_ms, final(self).view().sent, old(self).view().size) {
                Ok(t) => t,
                Err(_) => old(self).view().tracker,
            },
            p == (UploadProgressPayload {
                progress: sent_fraction(final(self).view().sent, final(self).view().size),
                eta: final(self).view().tracker.eta,
                step: final(self).view().step,
            }),
    {
        self.sent = self.sent + bytes;
        let progress = if self.size == 0 {
            SCALE
        } else {
            let capped = if self.sent > self.size { self.size } else { self.sent };
            assert(capped as int * 1_000_000 / self.size as int <= 1_000_000) by (nonlinear_arith)
                requires
                    capped <= self.size,
                    self.size > 0,
            {
                assert(capped as int * 1_000_000 <= self.size as int * 1_000_000);
            }
            ((capped as u128 * 1_000_000u128) / self.size as u128) as u64
        };
        let _ = self.tracker.update(now_ms, self.sent, self.size);
        UploadProgressPayload { progress, eta: self.tracker.get_eta(), step: self.step }
    }
}

} // verus!
