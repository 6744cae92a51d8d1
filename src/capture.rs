//! The audio buffer of one capture: append-only until cancelled.
use vstd::prelude::*;

verus! {

/// What is known of a capture: the samples so far and whether it was cancelled.
pub struct CaptureModel<T> {
    pub samples: Seq<T>,
    pub cancelled: bool,
}

/// Appending a chunk: kept while live, ignored once cancelled.
pub open spec fn push_spec<T>(m: CaptureModel<T>, chunk: Seq<T>) -> CaptureModel<T> {
    if m.cancelled {
        m
    } else {
        CaptureModel { samples: m.samples + chunk, cancelled: false }
    }
}

/// Cancelling keeps every sample captured so far.
pub open spec fn cancel_spec<T>(m: CaptureModel<T>) -> CaptureModel<T> {
    CaptureModel { samples: m.samples, cancelled: true }
}

/// A signal seen by a capture in progress.
pub enum CaptureEvent<T> {
    Chunk(Seq<T>),
    Cancel,
}

pub open spec fn capture_step<T>(m: CaptureModel<T>, e: CaptureEvent<T>) -> CaptureModel<T> {
    match e {
        CaptureEvent::Chunk(c) => push_spec(m, c),
        CaptureEvent::Cancel => cancel_spec(m),
    }
}

pub open spec fn capture_run<T>(m: CaptureModel<T>, es: Seq<CaptureEvent<T>>) -> CaptureModel<T>
    decreases es.len(),
{
    if es.len() == 0 {
        m
    } else {
        capture_step(capture_run(m, es.drop_last()), es.last())
    }
}

/// Cancelling a capture holding some samples yields exactly those samples,
/// whatever chunks or further cancellations arrive afterwards.
pub proof fn lemma_cancel_keeps_samples<T>(m: CaptureModel<T>, later: Seq<CaptureEvent<T>>)
    ensures
        capture_run(cancel_spec(m), later).samples == m.samples,
        capture_run(cancel_spec(m), later).cancelled,
    decreases later.len(),
{
    if later.len() > 0 {
        lemma_cancel_keeps_samples(m, later.drop_last());
    }
}

/// Samples accumulated by a live capture: each chunk is appended in order,
/// nothing lost and nothing repeated.
pub proof fn lemma_live_capture_appends<T>(m: CaptureModel<T>, a: Seq<T>, b: Seq<T>)
    requires
        !m.cancelled,
    ensures
        push_spec(push_spec(m, a), b).samples == m.samples + a + b,
{
    assert(m.samples + a + b == (m.samples + a) + b);
}

/// A capture in progress, stopped by cancellation or by its deadline.
pub struct CaptureBuffer<T> {
    samples: Vec<T>,
    cancelled: bool,
    deadline_ms: Option<u64>,
}

impl<T: Copy> CaptureBuffer<T> {
    pub closed spec fn model(&self) -> CaptureModel<T> {
        CaptureModel { samples: self.samples@, cancelled: self.cancelled }
    }

    pub closed spec fn deadline(&self) -> Option<u64> {
        self.deadline_ms
    }

    /// An empty, live capture that stops by itself at `deadline_ms`, if given.
    pub fn new(deadline_ms: Option<u64>) -> (r: CaptureBuffer<T>)
        ensures
            r.model().samples.len() == 0,
            !r.model().cancelled,
            r.deadline() == deadline_ms,
    {
        CaptureBuffer { samples: Vec::new(), cancelled: false, deadline_ms }
    }

    /// Appends a chunk read from the device, unless the capture was cancelled.
    pub fn push(&mut self, chunk: &[T])
        ensures
            final(self).model() == push_spec(old(self).model(), chunk@),
            final(self).deadline() == old(self).deadline(),
    {
        if self.cancelled {
            return;
        }
        let ghost start = self.samples@;
        let mut i: usize = 0;
        while i < chunk.len()
            invariant
                i <= chunk@.len(),
                self.samples@ == start + chunk@.subrange(0, i as int),
                !self.cancelled,
                self.deadline_ms == old(self).deadline(),
                start == old(self).model().samples,
                !old(self).model().cancelled,
            decreases chunk@.len() - i,
        {
            let x = chunk[i];
            self.samples.push(x);
            i = i + 1;
            assert(chunk@.subrange(0, i as int) == chunk@.subrange(0, i - 1 as int).push(x));
        }
        assert(chunk@.subrange(0, i as int) == chunk@);
    }

    /// Stops the capture; returns how many samples it holds. Repeating it
    /// changes nothing.
    pub fn cancel(&mut self) -> (n: usize)
        ensures
            final(self).model() == cancel_spec(old(self).model()),
            final(self).deadline() == old(self).deadline(),
            n == old(self).model().samples.len(),
    {
        self.cancelled = true;
        self.samples.len()
    }

    pub fn is_cancelled(&self) -> (r: bool)
        ensures
            r == self.model().cancelled,
    {
        self.cancelled
    }

    /// Checks the deadline at `now_ms`; reaching it cancels just as an
    /// explicit cancellation does. Returns whether the capture is over.
    pub fn poll(&mut self, now_ms: u64) -> (done: bool)
        ensures
            final(self).deadline() == old(self).deadline(),
            (match old(self).deadline() {
                Some(d) => d <= now_ms,
                None => false,
            }) ==> final(self).model() == cancel_spec(old(self).model()),
            !(match old(self).deadline() {
                Some(d) => d <= now_ms,
                None => false,
            }) ==> final(self).model() == old(self).model(),
            done == final(self).model().cancelled,
    {
        match self.deadline_ms {
            Some(d) => {
                if d <= now_ms {
                    self.cancelled = true;
                }
            },
            None => {},
        }
        self.cancelled
    }

    /// Ends the capture and hands over every sample it holds.
    pub fn into_samples(self) -> (r: Vec<T>)
        ensures
            r@ == self.model().samples,
    {
        self.samples
    }
}

} // verus!
