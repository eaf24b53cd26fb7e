use vstd::prelude::*;
use crate::batching::Batch;

verus! {

/// What the sink is in specifications: how many messages and batches it has
/// accepted so far, and whether it still accepts batches.
pub struct SinkView {
    pub message_count: nat,
    pub batch_count: nat,
    pub running: bool,
}

/// The shared downstream endpoint. It consumes completed batches from every
/// topic, one at a time, and keeps a monotonically increasing count of the
/// messages pushed; it holds no per-topic state.
pub struct Sink {
    message_count: usize,
    batch_count: usize,
    running: bool,
}

impl View for Sink {
    type V = SinkView;

    closed spec fn view(&self) -> SinkView {
        SinkView {
            message_count: self.message_count as nat,
            batch_count: self.batch_count as nat,
            running: self.running,
        }
    }
}

impl Sink {
    /// A fresh sink: nothing pushed yet, accepting batches.
    pub fn new() -> (s: Sink)
        ensures
            s@.message_count == 0,
            s@.batch_count == 0,
            s@.running,
    {
        Sink { message_count: 0, batch_count: 0, running: true }
    }

    /// Accept one completed batch: the running message count grows by the
    /// batch's message count. A batch is accepted in full; there is no
    /// partial-batch outcome. Accumulators never forward an empty batch.
    pub fn push(&mut self, batch: Batch)
        requires
            old(self)@.running,
            batch@.messages.len() > 0,
            old(self)@.message_count + batch@.messages.len() <= usize::MAX,
            old(self)@.batch_count + 1 <= usize::MAX,
        ensures
            final(self)@.message_count == old(self)@.message_count + batch@.messages.len(),
            final(self)@.batch_count == old(self)@.batch_count + 1,
            final(self)@.running,
    {
        let n = batch.message_count();
        self.message_count = self.message_count + n;
        self.batch_count = self.batch_count + 1;
    }

    /// Stop accepting batches. Called last during shutdown, after every
    /// accumulator has finished flushing; the counts are kept.
    pub fn stop(&mut self)
        ensures
            final(self)@.message_count == old(self)@.message_count,
            final(self)@.batch_count == old(self)@.batch_count,
            !final(self)@.running,
    {
        self.running = false;
    }

    /// Total messages accepted so far.
    pub fn message_count(&self) -> (n: usize)
        ensures
            n == self@.message_count,
    {
        self.message_count
    }

    /// Total batches accepted so far.
    pub fn batch_count(&self) -> (n: usize)
        ensures
            n == self@.batch_count,
    {
        self.batch_count
    }

    /// Whether the sink still accepts batches.
    pub fn is_running(&self) -> (r: bool)
        ensures
            r == self@.running,
    {
        self.running
    }
}

} // verus!
