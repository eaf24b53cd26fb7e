use vstd::prelude::*;

verus! {

/// What a batch is in specifications: the destination topic and the ordered
/// payloads it carries.
#[verifier::ext_equal]
pub struct BatchView {
    pub topic: Seq<char>,
    pub messages: Seq<Seq<u8>>,
}

/// An ordered group of messages collected for one topic, flushed together to
/// the sink. A batch is created only by an accumulator's flush and is never
/// empty.
pub struct Batch {
    topic: String,
    messages: Vec<Vec<u8>>,
}

/// The payloads of a vector of messages, each as its byte sequence.
pub open spec fn payloads_of(messages: Seq<Vec<u8>>) -> Seq<Seq<u8>> {
    messages.map_values(|m: Vec<u8>| m@)
}

impl View for Batch {
    type V = BatchView;

    closed spec fn view(&self) -> BatchView {
        BatchView { topic: self.topic@, messages: payloads_of(self.messages@) }
    }
}

impl Batch {
    /// How many messages the batch carries.
    pub fn message_count(&self) -> (n: usize)
        ensures
            n == self@.messages.len(),
    {
        self.messages.len()
    }

    /// The topic the batch was collected for.
    pub fn topic(&self) -> (t: &String)
        ensures
            t@ == self@.topic,
    {
        &self.topic
    }

    /// One message of the batch, in arrival order.
    pub fn message(&self, i: usize) -> (m: &Vec<u8>)
        requires
            i < self@.messages.len(),
        ensures
            m@ == self@.messages[i as int],
    {
        &self.messages[i]
    }
}

/// What an accumulator is in specifications: its topic, its size threshold,
/// the buffered payloads in arrival order, whether a deferred flush is
/// scheduled, and whether it still accepts messages.
#[verifier::ext_equal]
pub struct AccumulatorView {
    pub topic: Seq<char>,
    pub batch_size: nat,
    pub buffer: Seq<Seq<u8>>,
    pub timer_armed: bool,
    pub running: bool,
}

impl AccumulatorView {
    /// The accumulator's invariant: the threshold is positive, the buffer is
    /// always strictly below the threshold at rest (reaching it flushes
    /// synchronously), a timer is outstanding exactly while the buffer is
    /// non-empty, and a terminated accumulator holds nothing.
    pub open spec fn wf(self) -> bool {
        &&& self.batch_size >= 1
        &&& self.buffer.len() < self.batch_size
        &&& (self.timer_armed <==> self.buffer.len() > 0)
        &&& (!self.running ==> self.buffer.len() == 0)
    }
}

/// Effect of accepting one payload: it is appended to the buffer; if the
/// buffer thereby reaches the size threshold, the whole buffer is flushed at
/// once (and the timer is dropped), otherwise a timer is armed if none was.
pub open spec fn enqueue_transition(pre: AccumulatorView, m: Seq<u8>) -> (AccumulatorView, Option<
    Seq<Seq<u8>>,
>) {
    let extended = pre.buffer.push(m);
    if extended.len() >= pre.batch_size {
        (
            AccumulatorView { buffer: Seq::empty(), timer_armed: false, ..pre },
            Some(extended),
        )
    } else {
        (AccumulatorView { buffer: extended, timer_armed: true, ..pre }, None)
    }
}

/// Effect of the batch timeout elapsing: a non-empty buffer is flushed whole;
/// a fire that finds the buffer already empty (the timer lost the race with a
/// size-triggered flush) is suppressed and nothing is forwarded.
pub open spec fn timer_transition(pre: AccumulatorView) -> (AccumulatorView, Option<
    Seq<Seq<u8>>,
>) {
    if pre.buffer.len() > 0 {
        (AccumulatorView { buffer: Seq::empty(), timer_armed: false, ..pre }, Some(pre.buffer))
    } else {
        (AccumulatorView { timer_armed: false, ..pre }, None)
    }
}

/// Effect of an orderly shutdown: any pending timer is dropped, a non-empty
/// buffer produces exactly one final batch, and the accumulator terminates
/// with an empty buffer.
pub open spec fn shutdown_transition(pre: AccumulatorView) -> (AccumulatorView, Option<
    Seq<Seq<u8>>,
>) {
    (
        AccumulatorView { buffer: Seq::empty(), timer_armed: false, running: false, ..pre },
        if pre.buffer.len() > 0 {
            Some(pre.buffer)
        } else {
            None
        },
    )
}

/// The per-topic buffering unit: it collects serialized payloads and flushes
/// them to the sink as batches, either when the size threshold is reached or
/// when the batch timeout elapses.
pub struct Accumulator {
    topic: String,
    batch_size: usize,
    buffer: Vec<Vec<u8>>,
    timer_armed: bool,
    running: bool,
}

impl View for Accumulator {
    type V = AccumulatorView;

    closed spec fn view(&self) -> AccumulatorView {
        AccumulatorView {
            topic: self.topic@,
            batch_size: self.batch_size as nat,
            buffer: payloads_of(self.buffer@),
            timer_armed: self.timer_armed,
            running: self.running,
        }
    }
}

impl Accumulator {
    /// A fresh accumulator for one topic: empty buffer, no timer, accepting
    /// messages.
    pub fn new(topic: String, batch_size: usize) -> (a: Accumulator)
        requires
            batch_size >= 1,
        ensures
            a@ =~= (AccumulatorView {
                topic: topic@,
                batch_size: batch_size as nat,
                buffer: Seq::empty(),
                timer_armed: false,
                running: true,
            }),
            a@.wf(),
    {
        let a = Accumulator { topic, batch_size, buffer: Vec::new(), timer_armed: false, running: true };
        proof {
            assert(a@.buffer =~= Seq::<Seq<u8>>::empty());
        }
        a
    }

    /// Accept one payload. Appends it to the buffer, arms the timer if none
    /// was armed, and, if the buffer has reached the size threshold, cancels
    /// the timer and flushes the whole buffer synchronously as one batch.
    pub fn enqueue(&mut self, message: Vec<u8>) -> (flushed: Option<Batch>)
        requires
            old(self)@.wf(),
            old(self)@.running,
        ensures
            final(self)@.wf(),
            final(self)@ =~= enqueue_transition(old(self)@, message@).0,
            (flushed is Some <==> enqueue_transition(old(self)@, message@).1 is Some),
            flushed is Some ==> {
                &&& flushed->Some_0@.topic == old(self)@.topic
                &&& flushed->Some_0@.messages =~= enqueue_transition(old(self)@, message@).1->Some_0
                &&& flushed->Some_0@.messages.len() == old(self)@.batch_size
            },
    {
        let ghost pre = self@;
        let ghost m = message@;
        self.buffer.push(message);
        proof {
            assert(payloads_of(self.buffer@) =~= pre.buffer.push(m));
        }
        if self.buffer.len() >= self.batch_size {
            self.timer_armed = false;
            let mut drained: Vec<Vec<u8>> = Vec::new();
            core::mem::swap(&mut drained, &mut self.buffer);
            proof {
                assert(payloads_of(self.buffer@) =~= Seq::<Seq<u8>>::empty());
            }
            Some(Batch { topic: self.topic.clone(), messages: drained })
        } else {
            self.timer_armed = true;
            None
        }
    }

    /// The batch timeout elapsed: flush whatever is buffered as one batch. A
    /// fire that finds an empty buffer is suppressed (the timer lost the race
    /// with a size-triggered flush); no empty batch is ever forwarded.
    pub fn timer_fire(&mut self) -> (flushed: Option<Batch>)
        requires
            old(self)@.wf(),
        ensures
            final(self)@.wf(),
            final(self)@ =~= timer_transition(old(self)@).0,
            (flushed is Some <==> timer_transition(old(self)@).1 is Some),
            flushed is Some ==> {
                &&& flushed->Some_0@.topic == old(self)@.topic
                &&& flushed->Some_0@.messages =~= timer_transition(old(self)@).1->Some_0
                &&& flushed->Some_0@.messages.len() > 0
            },
    {
        self.timer_armed = false;
        if self.buffer.len() > 0 {
            let mut drained: Vec<Vec<u8>> = Vec::new();
            core::mem::swap(&mut drained, &mut self.buffer);
            proof {
                assert(payloads_of(self.buffer@) =~= Seq::<Seq<u8>>::empty());
            }
            Some(Batch { topic: self.topic.clone(), messages: drained })
        } else {
            None
        }
    }

    /// Orderly termination: cancel any pending timer, flush a non-empty
    /// buffer as exactly one final batch, and stop accepting messages.
    pub fn shutdown(&mut self) -> (last: Option<Batch>)
        requires
            old(self)@.wf(),
        ensures
            final(self)@.wf(),
            final(self)@ =~= shutdown_transition(old(self)@).0,
            (last is Some <==> shutdown_transition(old(self)@).1 is Some),
            last is Some ==> {
                &&& last->Some_0@.topic == old(self)@.topic
                &&& last->Some_0@.messages =~= shutdown_transition(old(self)@).1->Some_0
                &&& last->Some_0@.messages.len() > 0
            },
    {
        self.timer_armed = false;
        self.running = false;
        if self.buffer.len() > 0 {
            let mut drained: Vec<Vec<u8>> = Vec::new();
            core::mem::swap(&mut drained, &mut self.buffer);
            proof {
                assert(payloads_of(self.buffer@) =~= Seq::<Seq<u8>>::empty());
            }
            Some(Batch { topic: self.topic.clone(), messages: drained })
        } else {
            None
        }
    }

    /// The topic this accumulator collects for.
    pub fn topic(&self) -> (t: &String)
        ensures
            t@ == self@.topic,
    {
        &self.topic
    }

    /// How many payloads are currently buffered.
    pub fn buffered_count(&self) -> (n: usize)
        ensures
            n == self@.buffer.len(),
    {
        self.buffer.len()
    }

    /// Whether a deferred flush is currently scheduled.
    pub fn is_timer_armed(&self) -> (r: bool)
        ensures
            r == self@.timer_armed,
    {
        self.timer_armed
    }

    /// Whether the accumulator still accepts messages.
    pub fn is_running(&self) -> (r: bool)
        ensures
            r == self@.running,
    {
        self.running
    }
}

/// One thing that can happen to a running accumulator: a payload arrives, or
/// its batch timeout fires.
pub enum AccumulatorEvent {
    Enqueue(Seq<u8>),
    TimerFire,
}

/// The effect of one event on an accumulator.
pub open spec fn step_transition(pre: AccumulatorView, event: AccumulatorEvent) -> (
    AccumulatorView,
    Option<Seq<Seq<u8>>>,
) {
    match event {
        AccumulatorEvent::Enqueue(m) => enqueue_transition(pre, m),
        AccumulatorEvent::TimerFire => timer_transition(pre),
    }
}

/// The effect of a whole sequence of events: the state reached, and every
/// batch flushed on the way, oldest first.
pub open spec fn run_transitions(pre: AccumulatorView, events: Seq<AccumulatorEvent>) -> (
    AccumulatorView,
    Seq<Seq<Seq<u8>>>,
)
    decreases events.len(),
{
    if events.len() == 0 {
        (pre, Seq::empty())
    } else {
        let (mid, emitted) = step_transition(pre, events.first());
        let (post, flushed) = run_transitions(mid, events.drop_first());
        (
            post,
            match emitted {
                Some(batch) => seq![batch] + flushed,
                None => flushed,
            },
        )
    }
}

/// The event sequence of enqueueing the given payloads back-to-back.
pub open spec fn enqueue_events(msgs: Seq<Seq<u8>>) -> Seq<AccumulatorEvent> {
    msgs.map_values(|m: Seq<u8>| AccumulatorEvent::Enqueue(m))
}

/// The payloads enqueued by a sequence of events, in arrival order.
pub open spec fn enqueued_messages(events: Seq<AccumulatorEvent>) -> Seq<Seq<u8>>
    decreases events.len(),
{
    if events.len() == 0 {
        Seq::empty()
    } else {
        match events.first() {
            AccumulatorEvent::Enqueue(m) => seq![m] + enqueued_messages(events.drop_first()),
            AccumulatorEvent::TimerFire => enqueued_messages(events.drop_first()),
        }
    }
}

/// The payloads of a flush that may not have happened.
pub open spec fn emitted_or_empty(emitted: Option<Seq<Seq<u8>>>) -> Seq<Seq<u8>> {
    match emitted {
        Some(batch) => batch,
        None => Seq::empty(),
    }
}

/// Running a concatenation of two event sequences is running the first, then
/// the second from the state reached; the flushes concatenate in order.
pub proof fn lemma_run_append(
    pre: AccumulatorView,
    events1: Seq<AccumulatorEvent>,
    events2: Seq<AccumulatorEvent>,
)
    ensures
        ({
            let (mid, flushed1) = run_transitions(pre, events1);
            let (post, flushed2) = run_transitions(mid, events2);
            &&& run_transitions(pre, events1 + events2).0 == post
            &&& run_transitions(pre, events1 + events2).1 =~= flushed1 + flushed2
        }),
    decreases events1.len(),
{
    if events1.len() == 0 {
        assert(events1 + events2 =~= events2);
        assert(run_transitions(pre, events1).1 + run_transitions(pre, events2).1 =~= run_transitions(
            pre,
            events2,
        ).1);
    } else {
        let (mid1, emitted) = step_transition(pre, events1.first());
        assert((events1 + events2).first() == events1.first());
        assert((events1 + events2).drop_first() =~= events1.drop_first() + events2);
        lemma_run_append(mid1, events1.drop_first(), events2);
        let (mid, flushed1) = run_transitions(pre, events1);
        let (post, flushed2) = run_transitions(mid, events2);
        match emitted {
            Some(batch) => {
                assert(seq![batch] + (run_transitions(mid1, events1.drop_first()).1 + flushed2)
                    =~= flushed1 + flushed2);
            },
            None => {},
        }
    }
}

/// Below the size threshold nothing is flushed: as long as the buffer stays
/// under the threshold, enqueued payloads only accumulate, in arrival order,
/// and no batch leaves before the timeout fires.
pub proof fn lemma_below_threshold_no_flush(pre: AccumulatorView, msgs: Seq<Seq<u8>>)
    requires
        pre.wf(),
        pre.running,
        pre.buffer.len() + msgs.len() < pre.batch_size,
    ensures
        ({
            let (post, flushed) = run_transitions(pre, enqueue_events(msgs));
            &&& flushed.len() == 0
            &&& post.buffer =~= pre.buffer + msgs
            &&& post.running
            &&& post.wf()
            &&& post.topic == pre.topic
            &&& post.batch_size == pre.batch_size
        }),
    decreases msgs.len(),
{
    if msgs.len() == 0 {
        assert(enqueue_events(msgs).len() == 0);
        assert(pre.buffer + msgs =~= pre.buffer);
    } else {
        let events = enqueue_events(msgs);
        assert(events.first() == AccumulatorEvent::Enqueue(msgs.first()));
        let (mid, emitted) = enqueue_transition(pre, msgs.first());
        assert(emitted is None);
        assert(events.drop_first() =~= enqueue_events(msgs.drop_first()));
        lemma_below_threshold_no_flush(mid, msgs.drop_first());
        let (post, flushed) = run_transitions(pre, events);
        assert(post.buffer =~= pre.buffer + msgs) by {
            assert(mid.buffer + msgs.drop_first() =~= pre.buffer + msgs);
        }
    }
}

/// Starting from an empty buffer, enqueueing exactly `batch_size` payloads
/// flushes exactly one batch holding exactly those payloads, in order, and
/// leaves the buffer empty again.
pub proof fn lemma_exactly_one_batch(pre: AccumulatorView, msgs: Seq<Seq<u8>>)
    requires
        pre.wf(),
        pre.running,
        pre.buffer.len() == 0,
        msgs.len() == pre.batch_size,
    ensures
        ({
            let (post, flushed) = run_transitions(pre, enqueue_events(msgs));
            &&& flushed =~= seq![msgs]
            &&& post.buffer.len() == 0
            &&& !post.timer_armed
            &&& post.running
            &&& post.wf()
            &&& post.topic == pre.topic
            &&& post.batch_size == pre.batch_size
        }),
{
    let head = msgs.take(msgs.len() - 1);
    let tail = seq![msgs.last()];
    assert(enqueue_events(msgs) =~= enqueue_events(head) + enqueue_events(tail));
    lemma_below_threshold_no_flush(pre, head);
    let (mid, flushed1) = run_transitions(pre, enqueue_events(head));
    assert(mid.buffer =~= head) by {
        assert(pre.buffer + head =~= head);
    }
    // the last enqueue reaches the threshold and flushes the whole buffer
    let single = enqueue_events(tail);
    assert(single.len() == 1);
    assert(single.first() == AccumulatorEvent::Enqueue(msgs.last()));
    let (stepped, emitted) = enqueue_transition(mid, msgs.last());
    assert(emitted == Some(mid.buffer.push(msgs.last())));
    assert(mid.buffer.push(msgs.last()) =~= msgs);
    assert(single.drop_first().len() == 0);
    assert(run_transitions(stepped, single.drop_first()).1 =~= Seq::<Seq<Seq<u8>>>::empty());
    assert(run_transitions(mid, single).1 =~= seq![msgs]) by {
        assert(step_transition(mid, single.first()) == enqueue_transition(mid, msgs.last()));
        assert(seq![mid.buffer.push(msgs.last())] + Seq::<Seq<Seq<u8>>>::empty() =~= seq![msgs]);
    }
    lemma_run_append(pre, enqueue_events(head), single);
    assert(run_transitions(pre, enqueue_events(msgs)).1 =~= flushed1 + run_transitions(
        mid,
        single,
    ).1);
    assert(flushed1 + seq![msgs] =~= seq![msgs]);
    assert(run_transitions(mid, single).0 == stepped);
}

/// A window of a suffix of a sequence is the shifted window of the whole
/// sequence.
proof fn lemma_skip_subrange<A>(s: Seq<A>, n: int, a: int, b: int)
    requires
        0 <= n <= s.len(),
        0 <= a <= b <= s.len() - n,
    ensures
        s.skip(n).subrange(a, b) =~= s.subrange(a + n, b + n),
{
}

/// At or above the size threshold, a back-to-back arrival of `N` payloads on
/// an idle accumulator flushes exactly `N / batch_size` batches immediately,
/// each holding exactly `batch_size` consecutive payloads in arrival order,
/// with the remainder (`N % batch_size` payloads) still buffered.
pub proof fn lemma_threshold_flushes(pre: AccumulatorView, msgs: Seq<Seq<u8>>)
    requires
        pre.wf(),
        pre.running,
        pre.buffer.len() == 0,
    ensures
        ({
            let (post, flushed) = run_transitions(pre, enqueue_events(msgs));
            let size = pre.batch_size as int;
            let full = msgs.len() as int / size;
            &&& flushed.len() == full
            &&& (forall|i: int|
                0 <= i < full ==> flushed[i] =~= msgs.subrange(i * size, (i + 1) * size))
            &&& post.buffer =~= msgs.subrange(full * size, msgs.len() as int)
            &&& post.running
            &&& post.wf()
            &&& post.topic == pre.topic
            &&& post.batch_size == pre.batch_size
        }),
    decreases msgs.len(),
{
    let size = pre.batch_size as int;
    if msgs.len() < pre.batch_size {
        lemma_below_threshold_no_flush(pre, msgs);
        assert(msgs.len() as int / size == 0) by (nonlinear_arith)
            requires
                0 <= msgs.len() < size,
        ;
        let (post, flushed) = run_transitions(pre, enqueue_events(msgs));
        assert(post.buffer =~= msgs.subrange(0, msgs.len() as int)) by {
            assert(pre.buffer + msgs =~= msgs.subrange(0, msgs.len() as int));
        }
    } else {
        let first_full = msgs.take(size);
        let rest = msgs.skip(size);
        assert(enqueue_events(msgs) =~= enqueue_events(first_full) + enqueue_events(rest));
        lemma_exactly_one_batch(pre, first_full);
        let (mid, flushed1) = run_transitions(pre, enqueue_events(first_full));
        lemma_threshold_flushes(mid, rest);
        let (post, flushed2) = run_transitions(mid, enqueue_events(rest));
        lemma_run_append(pre, enqueue_events(first_full), enqueue_events(rest));
        let flushed = run_transitions(pre, enqueue_events(msgs)).1;
        assert(flushed =~= seq![first_full] + flushed2);
        let full = msgs.len() as int / size;
        let rest_full = rest.len() as int / size;
        assert(full == rest_full + 1) by (nonlinear_arith)
            requires
                size >= 1,
                msgs.len() >= size,
                rest.len() == msgs.len() - size,
                full == msgs.len() as int / size,
                rest_full == rest.len() as int / size,
        ;
        assert(rest_full * size <= rest.len()) by (nonlinear_arith)
            requires
                size >= 1,
                rest.len() >= 0,
                rest_full == rest.len() as int / size,
        ;
        assert forall|i: int| 0 <= i < full implies flushed[i] =~= msgs.subrange(
            i * size,
            (i + 1) * size,
        ) by {
            if i == 0 {
                assert(flushed[0] == first_full);
                assert(first_full =~= msgs.subrange(0, size));
                assert(i * size == 0 && (i + 1) * size == size);
                assert(flushed[i] =~= msgs.subrange(i * size, (i + 1) * size));
            } else {
                let a = (i - 1) * size;
                let b = i * size;
                assert(flushed[i] == flushed2[i - 1]);
                assert(0 <= a && a <= b && b <= rest_full * size) by (nonlinear_arith)
                    requires
                        size >= 1,
                        1 <= i <= rest_full,
                        a == (i - 1) * size,
                        b == i * size,
                ;
                assert(flushed2[i - 1] =~= rest.subrange(a, b));
                assert(a + size == i * size && b + size == (i + 1) * size) by (nonlinear_arith)
                    requires
                        a == (i - 1) * size,
                        b == i * size,
                ;
                lemma_skip_subrange(msgs, size, a, b);
                assert(rest.subrange(a, b) =~= msgs.subrange(i * size, (i + 1) * size));
                assert(flushed[i] =~= msgs.subrange(i * size, (i + 1) * size));
            }
        }
        assert(post.buffer =~= msgs.subrange(full * size, msgs.len() as int)) by {
            assert(post.buffer =~= rest.subrange(rest_full * size, rest.len() as int));
            lemma_skip_subrange(msgs, size, rest_full * size, rest.len() as int);
            assert(rest_full * size + size == full * size) by (nonlinear_arith)
                requires
                    full == rest_full + 1,
            ;
        }
    }
}

/// Order and conservation: over any run of arrivals and timer fires, the
/// flushed batches, concatenated in flush order, followed by what is still
/// buffered, are exactly the prior buffer followed by every enqueued payload
/// in arrival order — no payload is lost, duplicated, or reordered, and no
/// flushed batch is empty.
pub proof fn lemma_fifo_conservation(pre: AccumulatorView, events: Seq<AccumulatorEvent>)
    requires
        pre.wf(),
        pre.running,
    ensures
        ({
            let (post, flushed) = run_transitions(pre, events);
            &&& flushed.flatten() + post.buffer =~= pre.buffer + enqueued_messages(events)
            &&& (forall|i: int| 0 <= i < flushed.len() ==> flushed[i].len() > 0)
            &&& post.running
            &&& post.wf()
            &&& post.topic == pre.topic
            &&& post.batch_size == pre.batch_size
        }),
    decreases events.len(),
{
    if events.len() == 0 {
        let (post, flushed) = run_transitions(pre, events);
        assert(flushed.flatten() + post.buffer =~= pre.buffer + enqueued_messages(events));
    } else {
        let (mid, emitted) = step_transition(pre, events.first());
        lemma_fifo_conservation(mid, events.drop_first());
        let (post, flushed_rest) = run_transitions(mid, events.drop_first());
        let (post_all, flushed) = run_transitions(pre, events);
        match emitted {
            Some(batch) => {
                assert(flushed =~= seq![batch] + flushed_rest);
                assert(flushed.first() == batch);
                assert(flushed.drop_first() =~= flushed_rest);
                assert(flushed.flatten() =~= batch + flushed_rest.flatten());
                match events.first() {
                    AccumulatorEvent::Enqueue(m) => {
                        assert(batch =~= pre.buffer.push(m));
                        assert(enqueued_messages(events) =~= seq![m] + enqueued_messages(
                            events.drop_first(),
                        ));
                        assert((batch + flushed_rest.flatten()) + post.buffer =~= pre.buffer
                            + enqueued_messages(events)) by {
                            assert(flushed_rest.flatten() + post.buffer =~= mid.buffer
                                + enqueued_messages(events.drop_first()));
                            assert(mid.buffer =~= Seq::<Seq<u8>>::empty());
                        }
                    },
                    AccumulatorEvent::TimerFire => {
                        assert(batch == pre.buffer);
                        assert((batch + flushed_rest.flatten()) + post.buffer =~= pre.buffer
                            + enqueued_messages(events)) by {
                            assert(flushed_rest.flatten() + post.buffer =~= mid.buffer
                                + enqueued_messages(events.drop_first()));
                            assert(mid.buffer =~= Seq::<Seq<u8>>::empty());
                        }
                    },
                }
            },
            None => {
                assert(flushed =~= flushed_rest);
                match events.first() {
                    AccumulatorEvent::Enqueue(m) => {
                        assert(mid.buffer =~= pre.buffer.push(m));
                        assert(enqueued_messages(events) =~= seq![m] + enqueued_messages(
                            events.drop_first(),
                        ));
                        assert(flushed.flatten() + post.buffer =~= pre.buffer + enqueued_messages(
                            events,
                        )) by {
                            assert(flushed_rest.flatten() + post.buffer =~= mid.buffer
                                + enqueued_messages(events.drop_first()));
                            assert(pre.buffer.push(m) =~= pre.buffer + seq![m]);
                        }
                    },
                    AccumulatorEvent::TimerFire => {
                        assert(mid.buffer == pre.buffer);
                    },
                }
            },
        }
    }
}

/// Shutdown completeness at one accumulator: after any run of arrivals and
/// timer fires followed by an orderly shutdown, the flushed batches plus the
/// final batch carry exactly the payloads that were enqueued, in arrival
/// order; the accumulator ends stopped with an empty buffer.
pub proof fn lemma_shutdown_completeness(pre: AccumulatorView, events: Seq<AccumulatorEvent>)
    requires
        pre.wf(),
        pre.running,
        pre.buffer.len() == 0,
    ensures
        ({
            let (post, flushed) = run_transitions(pre, events);
            let (stopped, last) = shutdown_transition(post);
            &&& flushed.flatten() + emitted_or_empty(last) =~= enqueued_messages(events)
            &&& (flushed.flatten() + emitted_or_empty(last)).len() == enqueued_messages(
                events,
            ).len()
            &&& !stopped.running
            &&& stopped.buffer.len() == 0
            &&& !stopped.timer_armed
        }),
{
    lemma_fifo_conservation(pre, events);
    let (post, flushed) = run_transitions(pre, events);
    let (stopped, last) = shutdown_transition(post);
    assert(flushed.flatten() + emitted_or_empty(last) =~= enqueued_messages(events)) by {
        assert(flushed.flatten() + post.buffer =~= pre.buffer + enqueued_messages(events));
        assert(pre.buffer + enqueued_messages(events) =~= enqueued_messages(events));
        assert(emitted_or_empty(last) =~= post.buffer);
    }
}

} // verus!
