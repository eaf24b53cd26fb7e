use vstd::prelude::*;
use crate::PubSubError;
use crate::batching::{Accumulator, AccumulatorView, Batch, enqueue_transition};
use crate::sink::{Sink, SinkView};

verus! {

/// Flush threshold used by `PubSub::create`: a batch is flushed as soon as it
/// holds this many messages.
pub const DEFAULT_BATCH_SIZE: usize = 5;

/// Batch timeout used by `PubSub::create`, in milliseconds: a non-empty
/// buffer is never held open longer than this.
pub const DEFAULT_BATCH_TIMEOUT_MS: u64 = 1000;

/// What the registry is in specifications: the registered topics in creation
/// order, one accumulator per topic, the shared sink, and the configuration.
#[verifier::ext_equal]
pub struct PubSubView {
    pub topics: Seq<Seq<char>>,
    pub accumulators: Seq<AccumulatorView>,
    pub sink: SinkView,
    pub batch_size: nat,
    pub batch_timeout_ms: nat,
}

impl PubSubView {
    /// The registry's invariant: one well-formed accumulator per topic, each
    /// bound to this registry's threshold and topic, topics never repeat, and
    /// no accumulator keeps running once the sink has stopped.
    pub open spec fn wf(self) -> bool {
        &&& self.batch_size >= 1
        &&& self.topics.len() == self.accumulators.len()
        &&& (forall|i: int|
            0 <= i < self.accumulators.len() ==> (#[trigger] self.accumulators[i]).wf())
        &&& (forall|i: int|
            0 <= i < self.accumulators.len() ==> (#[trigger] self.accumulators[i]).topic
                == self.topics[i])
        &&& (forall|i: int|
            0 <= i < self.accumulators.len() ==> (#[trigger] self.accumulators[i]).batch_size
                == self.batch_size)
        &&& (forall|i: int, j: int|
            0 <= i < j < self.topics.len() ==> self.topics[i] != self.topics[j])
        &&& (forall|i: int|
            0 <= i < self.accumulators.len() && (#[trigger] self.accumulators[i]).running
                ==> self.sink.running)
    }
}

/// How many messages are still buffered across the given accumulators.
pub open spec fn pending_total(accumulators: Seq<AccumulatorView>) -> nat
    decreases accumulators.len(),
{
    if accumulators.len() == 0 {
        0
    } else {
        accumulators.first().buffer.len() + pending_total(accumulators.drop_first())
    }
}

/// The position of the first occurrence of `topic`, or -1 if it is not
/// registered.
pub open spec fn first_topic_index(topics: Seq<Seq<char>>, topic: Seq<char>) -> int
    decreases topics.len(),
{
    if topics.len() == 0 {
        -1
    } else if topics.first() == topic {
        0
    } else {
        let rest = first_topic_index(topics.drop_first(), topic);
        if rest < 0 {
            -1
        } else {
            rest + 1
        }
    }
}

/// The effect of a topic lookup on the registered topics: an already-known
/// topic leaves them unchanged and yields its position; an unseen topic is
/// appended and yields the new position.
pub open spec fn get_or_create_spec(topics: Seq<Seq<char>>, topic: Seq<char>) -> (
    Seq<Seq<char>>,
    int,
) {
    let found = first_topic_index(topics, topic);
    if found >= 0 {
        (topics, found)
    } else {
        (topics.push(topic), topics.len() as int)
    }
}

/// What `first_topic_index` finds: a match at the reported position and none
/// before it, or no match at all.
pub proof fn lemma_first_topic_index_characterizes(topics: Seq<Seq<char>>, topic: Seq<char>)
    ensures
        ({
            let found = first_topic_index(topics, topic);
            &&& (found == -1 ==> forall|k: int|
                0 <= k < topics.len() ==> topics[k] != topic)
            &&& (found != -1 ==> {
                &&& 0 <= found < topics.len()
                &&& topics[found] == topic
                &&& forall|k: int| 0 <= k < found ==> topics[k] != topic
            })
        }),
    decreases topics.len(),
{
    if topics.len() == 0 {
    } else if topics.first() == topic {
    } else {
        lemma_first_topic_index_characterizes(topics.drop_first(), topic);
        let rest = first_topic_index(topics.drop_first(), topic);
        if rest == -1 {
            assert forall|k: int| 0 <= k < topics.len() implies topics[k] != topic by {
                if k > 0 {
                    assert(topics.drop_first()[k - 1] == topics[k]);
                }
            }
        } else {
            assert(topics.drop_first()[rest] == topics[rest + 1]);
            assert forall|k: int| 0 <= k < rest + 1 implies topics[k] != topic by {
                if k > 0 {
                    assert(topics.drop_first()[k - 1] == topics[k]);
                }
            }
        }
    }
}

/// Any position that matches with no earlier match is the position that
/// `first_topic_index` reports.
pub proof fn lemma_first_topic_index_found(topics: Seq<Seq<char>>, topic: Seq<char>, j: int)
    requires
        0 <= j < topics.len(),
        topics[j] == topic,
        forall|k: int| 0 <= k < j ==> topics[k] != topic,
    ensures
        first_topic_index(topics, topic) == j,
    decreases topics.len(),
{
    if j == 0 {
    } else {
        lemma_first_topic_index_found(topics.drop_first(), topic, j - 1);
    }
}

/// If no position matches, `first_topic_index` reports -1.
pub proof fn lemma_first_topic_index_absent(topics: Seq<Seq<char>>, topic: Seq<char>)
    requires
        forall|k: int| 0 <= k < topics.len() ==> topics[k] != topic,
    ensures
        first_topic_index(topics, topic) == -1,
    decreases topics.len(),
{
    if topics.len() == 0 {
    } else {
        lemma_first_topic_index_absent(topics.drop_first(), topic);
    }
}

/// Idempotent topic creation: looking the same topic up twice yields the same
/// position both times, and the second lookup changes nothing.
pub proof fn lemma_idempotent_topic_creation(topics: Seq<Seq<char>>, topic: Seq<char>)
    ensures
        ({
            let (topics1, pos1) = get_or_create_spec(topics, topic);
            let (topics2, pos2) = get_or_create_spec(topics1, topic);
            &&& pos2 == pos1
            &&& topics2 == topics1
        }),
{
    let found = first_topic_index(topics, topic);
    lemma_first_topic_index_characterizes(topics, topic);
    if found >= 0 {
    } else {
        let topics1 = topics.push(topic);
        lemma_first_topic_index_found(topics1, topic, topics.len() as int);
    }
}

/// Replacing one accumulator changes the pending total by the difference of
/// the two buffers.
pub proof fn lemma_pending_total_update(
    accumulators: Seq<AccumulatorView>,
    i: int,
    replacement: AccumulatorView,
)
    requires
        0 <= i < accumulators.len(),
    ensures
        pending_total(accumulators.update(i, replacement)) + accumulators[i].buffer.len()
            == pending_total(accumulators) + replacement.buffer.len(),
    decreases accumulators.len(),
{
    if i == 0 {
        assert(accumulators.update(0, replacement).drop_first() =~= accumulators.drop_first());
        assert(accumulators.update(0, replacement).first() == replacement);
    } else {
        assert(accumulators.update(i, replacement).drop_first() =~= accumulators.drop_first()
            .update(i - 1, replacement));
        assert(accumulators.update(i, replacement).first() == accumulators.first());
        lemma_pending_total_update(accumulators.drop_first(), i - 1, replacement);
    }
}

/// The pending total of a concatenation is the sum of the pending totals.
pub proof fn lemma_pending_total_append(left: Seq<AccumulatorView>, right: Seq<AccumulatorView>)
    ensures
        pending_total(left + right) == pending_total(left) + pending_total(right),
    decreases left.len(),
{
    if left.len() == 0 {
        assert(left + right =~= right);
    } else {
        assert((left + right).first() == left.first());
        assert((left + right).drop_first() =~= left.drop_first() + right);
        lemma_pending_total_append(left.drop_first(), right);
    }
}

/// Appending one accumulator adds its buffer to the pending total.
pub proof fn lemma_pending_total_push(
    accumulators: Seq<AccumulatorView>,
    appended: AccumulatorView,
)
    ensures
        pending_total(accumulators.push(appended)) == pending_total(accumulators)
            + appended.buffer.len(),
{
    assert(accumulators.push(appended) =~= accumulators + seq![appended]);
    lemma_pending_total_append(accumulators, seq![appended]);
    assert(seq![appended].drop_first().len() == 0);
    assert(pending_total(seq![appended].drop_first()) == 0);
    assert(pending_total(seq![appended]) == appended.buffer.len());
}

/// The effect of one send on the registry: a send to a terminated
/// accumulator is refused and changes nothing; an accepted payload is
/// enqueued, and a batch it completes goes to the sink at once.
pub open spec fn send_spec(pre: PubSubView, target: int) -> (PubSubView, bool) {
    if !pre.accumulators[target].running {
        (pre, false)
    } else {
        let enqueued = enqueue_transition(pre.accumulators[target], Seq::<u8>::empty());
        let sink = match enqueued.1 {
            Some(batch) => SinkView {
                message_count: (pre.sink.message_count + batch.len()) as nat,
                batch_count: (pre.sink.batch_count + 1) as nat,
                running: pre.sink.running,
            },
            None => pre.sink,
        };
        (
            PubSubView {
                accumulators: pre.accumulators.update(target, enqueued.0),
                sink,
                ..pre
            },
            true,
        )
    }
}

/// The effect of a whole sequence of sends: the state reached, and how many
/// of the sends were accepted.
pub open spec fn run_sends(pre: PubSubView, targets: Seq<int>) -> (PubSubView, nat)
    decreases targets.len(),
{
    if targets.len() == 0 {
        (pre, 0)
    } else {
        let first = send_spec(pre, targets.first());
        let rest = run_sends(first.0, targets.drop_first());
        (rest.0, (if first.1 { 1nat } else { 0nat }) + rest.1)
    }
}

/// Conservation across the registry: over any sequence of sends, every
/// accepted send adds exactly one message to what the sink has counted plus
/// what is still buffered — none is lost and none is duplicated.
pub proof fn lemma_registry_conservation(pre: PubSubView, targets: Seq<int>)
    requires
        pre.wf(),
        forall|i: int| 0 <= i < targets.len() ==> 0 <= #[trigger] targets[i]
            < pre.accumulators.len(),
    ensures
        ({
            let (post, accepted) = run_sends(pre, targets);
            &&& post.wf()
            &&& post.accumulators.len() == pre.accumulators.len()
            &&& post.topics == pre.topics
            &&& post.sink.message_count + pending_total(post.accumulators)
                == pre.sink.message_count + pending_total(pre.accumulators) + accepted
        }),
    decreases targets.len(),
{
    if targets.len() > 0 {
        let target = targets.first();
        let (mid, accepted_first) = send_spec(pre, target);
        if pre.accumulators[target].running {
            let enqueued = enqueue_transition(pre.accumulators[target], Seq::<u8>::empty());
            lemma_pending_total_update(pre.accumulators, target, enqueued.0);
            assert(mid.wf());
        }
        assert(forall|i: int|
            0 <= i < targets.drop_first().len() ==> 0 <= #[trigger] targets.drop_first()[i]
                < mid.accumulators.len());
        lemma_registry_conservation(mid, targets.drop_first());
    }
}

/// Shutdown completeness: on a fresh registry, after any sequence of sends,
/// the accepted sends are exactly what the sink has counted plus what is
/// still buffered. `shutdown_all` then pushes exactly the buffered remainder
/// to the sink — its contract sets the sink's count to this very sum — so
/// after it returns the sink has counted every accepted send.
pub proof fn lemma_shutdown_counts_accepted_sends(pre: PubSubView, targets: Seq<int>)
    requires
        pre.wf(),
        pre.sink.message_count == 0,
        pending_total(pre.accumulators) == 0,
        forall|i: int| 0 <= i < targets.len() ==> 0 <= #[trigger] targets[i]
            < pre.accumulators.len(),
    ensures
        ({
            let (post, accepted) = run_sends(pre, targets);
            post.sink.message_count + pending_total(post.accumulators) == accepted
        }),
{
    lemma_registry_conservation(pre, targets);
}

/// The pending total splits at any position.
pub proof fn lemma_pending_total_split(accumulators: Seq<AccumulatorView>, k: int)
    requires
        0 <= k <= accumulators.len(),
    ensures
        pending_total(accumulators) == pending_total(accumulators.take(k)) + pending_total(
            accumulators.skip(k),
        ),
{
    assert(accumulators.take(k) + accumulators.skip(k) =~= accumulators);
    lemma_pending_total_append(accumulators.take(k), accumulators.skip(k));
}

/// Accumulators with empty buffers have nothing pending.
pub proof fn lemma_pending_total_zero(accumulators: Seq<AccumulatorView>)
    requires
        forall|i: int|
            0 <= i < accumulators.len() ==> (#[trigger] accumulators[i]).buffer.len() == 0,
    ensures
        pending_total(accumulators) == 0,
    decreases accumulators.len(),
{
    if accumulators.len() > 0 {
        lemma_pending_total_zero(accumulators.drop_first());
    }
}

/// The producer-facing facade for one (event type, topic) binding: it carries
/// the position of the topic's accumulator in the registry that created it.
/// Serialization is attached here, so the accumulator sees only opaque bytes.
pub struct MessageSender<T> {
    topic_index: usize,
    event_type: core::marker::PhantomData<T>,
}

impl<T> View for MessageSender<T> {
    type V = int;

    closed spec fn view(&self) -> int {
        self.topic_index as int
    }
}

impl<T> MessageSender<T> {
    /// The position of the bound accumulator in the owning registry.
    pub fn topic_index(&self) -> (i: usize)
        ensures
            i as int == self@,
    {
        self.topic_index
    }
}

/// Serialize one event to its opaque payload. The encoding is a stub, as any
/// deterministic encoding is acceptable here: every event encodes to the
/// empty payload. The accumulators and the sink treat payloads as opaque
/// bytes either way.
pub fn serialize_event<T>(_event: &T) -> (payload: Vec<u8>)
    ensures
        payload@ == Seq::<u8>::empty(),
{
    let payload: Vec<u8> = Vec::new();
    payload
}

/// The topic registry: it creates and caches exactly one accumulator per
/// topic, hands out senders bound to those accumulators, and owns the shared
/// sink that every accumulator flushes to.
pub struct PubSub {
    topics: Vec<String>,
    accumulators: Vec<Accumulator>,
    sink: Sink,
    batch_size: usize,
    batch_timeout_ms: u64,
}

impl View for PubSub {
    type V = PubSubView;

    closed spec fn view(&self) -> PubSubView {
        PubSubView {
            topics: self.topics@.map_values(|t: String| t@),
            accumulators: self.accumulators@.map_values(|a: Accumulator| a@),
            sink: self.sink@,
            batch_size: self.batch_size as nat,
            batch_timeout_ms: self.batch_timeout_ms as nat,
        }
    }
}

impl PubSub {
    /// A fresh registry with the given flush threshold and batch timeout:
    /// no topics yet, and a freshly started sink.
    pub fn with_config(batch_size: usize, batch_timeout_ms: u64) -> (registry: PubSub)
        requires
            batch_size >= 1,
        ensures
            registry@.wf(),
            registry@.topics.len() == 0,
            registry@.accumulators.len() == 0,
            registry@.sink.message_count == 0,
            registry@.sink.batch_count == 0,
            registry@.sink.running,
            registry@.batch_size == batch_size,
            registry@.batch_timeout_ms == batch_timeout_ms,
    {
        let registry = PubSub {
            topics: Vec::new(),
            accumulators: Vec::new(),
            sink: Sink::new(),
            batch_size,
            batch_timeout_ms,
        };
        proof {
            assert(registry@.topics =~= Seq::<Seq<char>>::empty());
            assert(registry@.accumulators =~= Seq::<AccumulatorView>::empty());
        }
        registry
    }

    /// A fresh registry with the default threshold and timeout.
    pub fn create() -> (registry: PubSub)
        ensures
            registry@.wf(),
            registry@.topics.len() == 0,
            registry@.accumulators.len() == 0,
            registry@.sink.message_count == 0,
            registry@.sink.batch_count == 0,
            registry@.sink.running,
            registry@.batch_size == DEFAULT_BATCH_SIZE,
            registry@.batch_timeout_ms == DEFAULT_BATCH_TIMEOUT_MS,
    {
        PubSub::with_config(DEFAULT_BATCH_SIZE, DEFAULT_BATCH_TIMEOUT_MS)
    }

    /// Look a topic up; if it is unseen, create one accumulator for it, bound
    /// to the shared sink. Either way the sender handed back is bound to the
    /// topic's one accumulator, so topics, not event types, are the batching
    /// unit: senders for different event types on one topic share batches.
    pub fn get_or_create_sender<T>(&mut self, topic: String) -> (sender: MessageSender<T>)
        requires
            old(self)@.wf(),
        ensures
            final(self)@.wf(),
            final(self)@.topics == get_or_create_spec(old(self)@.topics, topic@).0,
            sender@ == get_or_create_spec(old(self)@.topics, topic@).1,
            0 <= sender@ < final(self)@.topics.len(),
            final(self)@.topics[sender@] == topic@,
            final(self)@.sink == old(self)@.sink,
            final(self)@.batch_size == old(self)@.batch_size,
            final(self)@.batch_timeout_ms == old(self)@.batch_timeout_ms,
            first_topic_index(old(self)@.topics, topic@) >= 0 ==> final(self)@ == old(self)@,
            first_topic_index(old(self)@.topics, topic@) == -1 ==> {
                &&& sender@ == old(self)@.topics.len()
                &&& final(self)@.accumulators =~= old(self)@.accumulators.push(
                    AccumulatorView {
                        topic: topic@,
                        batch_size: old(self)@.batch_size,
                        buffer: Seq::empty(),
                        timer_armed: false,
                        running: old(self)@.sink.running,
                    },
                )
            },
            pending_total(final(self)@.accumulators) == pending_total(old(self)@.accumulators),
    {
        proof {
            lemma_first_topic_index_characterizes(old(self)@.topics, topic@);
        }
        let mut j: usize = 0;
        while j < self.topics.len()
            invariant
                self == old(self),
                old(self)@.wf(),
                j <= self.topics@.len(),
                forall|k: int| 0 <= k < j ==> self@.topics[k] != topic@,
            decreases self.topics@.len() - j,
        {
            if self.topics[j] == topic {
                proof {
                    lemma_first_topic_index_found(self@.topics, topic@, j as int);
                }
                return MessageSender { topic_index: j, event_type: core::marker::PhantomData };
            }
            j = j + 1;
        }
        proof {
            lemma_first_topic_index_absent(self@.topics, topic@);
        }
        let ghost pre = self@;
        let mut accumulator = Accumulator::new(topic.clone(), self.batch_size);
        if !self.sink.is_running() {
            // the pipeline is already shut down: the new accumulator starts
            // terminated, so sends to it fail instead of piling up
            if let Some(batch) = accumulator.shutdown() {
                self.sink.push(batch);
            }
        }
        let position = self.topics.len();
        self.topics.push(topic);
        self.accumulators.push(accumulator);
        proof {
            assert(self@.topics =~= pre.topics.push(topic@));
            assert(self@.accumulators =~= pre.accumulators.push(
                AccumulatorView {
                    topic: topic@,
                    batch_size: pre.batch_size,
                    buffer: Seq::empty(),
                    timer_armed: false,
                    running: pre.sink.running,
                },
            ));
            lemma_pending_total_push(
                pre.accumulators,
                AccumulatorView {
                    topic: topic@,
                    batch_size: pre.batch_size,
                    buffer: Seq::empty(),
                    timer_armed: false,
                    running: pre.sink.running,
                },
            );
        }
        MessageSender { topic_index: position, event_type: core::marker::PhantomData }
    }

    /// Serialize one event and offer its payload to the accumulator the
    /// sender is bound to. `Ok` means the payload was accepted into the
    /// buffer — not that it was flushed or pushed downstream, which happens
    /// asynchronously. If the accumulator has terminated, `SendFailed` comes
    /// back and nothing changes. An accepted payload either sits in the
    /// buffer or, having reached the threshold, was flushed to the sink at
    /// once: the count of accepted sends is conserved across buffers and
    /// sink.
    pub fn send<T>(&mut self, sender: &MessageSender<T>, event: T) -> (r: Result<
        (),
        PubSubError,
    >)
        requires
            old(self)@.wf(),
            0 <= sender@ < old(self)@.accumulators.len(),
            old(self)@.sink.message_count + old(self)@.batch_size <= usize::MAX,
            old(self)@.sink.batch_count + 1 <= usize::MAX,
        ensures
            final(self)@.wf(),
            (r is Ok <==> old(self)@.accumulators[sender@].running),
            r is Err ==> r->Err_0 == PubSubError::SendFailed && final(self)@ == old(self)@,
            r is Ok ==> ({
                let enqueued = enqueue_transition(
                    old(self)@.accumulators[sender@],
                    Seq::<u8>::empty(),
                );
                &&& final(self)@.topics == old(self)@.topics
                &&& final(self)@.batch_size == old(self)@.batch_size
                &&& final(self)@.batch_timeout_ms == old(self)@.batch_timeout_ms
                &&& final(self)@.accumulators =~= old(self)@.accumulators.update(
                    sender@,
                    enqueued.0,
                )
                &&& (enqueued.1 is Some ==> {
                    &&& final(self)@.sink.message_count == old(self)@.sink.message_count + old(
                        self,
                    )@.batch_size
                    &&& final(self)@.sink.batch_count == old(self)@.sink.batch_count + 1
                    &&& final(self)@.sink.running == old(self)@.sink.running
                })
                &&& (enqueued.1 is None ==> final(self)@.sink == old(self)@.sink)
            }),
            r is Ok ==> final(self)@.sink.message_count + pending_total(
                final(self)@.accumulators,
            ) == old(self)@.sink.message_count + pending_total(old(self)@.accumulators) + 1,
            (r is Ok) == send_spec(old(self)@, sender@).1,
            final(self)@ == send_spec(old(self)@, sender@).0,
    {
        let payload = serialize_event(&event);
        let position = sender.topic_index();
        let mut accumulator = self.accumulators.remove(position);
        if !accumulator.is_running() {
            self.accumulators.insert(position, accumulator);
            proof {
                assert(self.accumulators@ =~= old(self).accumulators@);
                assert(self@ =~= old(self)@);
            }
            return Err(PubSubError::SendFailed);
        }
        let ghost pre_accumulator = accumulator@;
        let flushed = accumulator.enqueue(payload);
        self.accumulators.insert(position, accumulator);
        proof {
            assert(self.accumulators@ =~= old(self).accumulators@.update(
                sender@,
                accumulator,
            ));
            assert(self@.accumulators =~= old(self)@.accumulators.update(
                sender@,
                accumulator@,
            ));
            lemma_pending_total_update(old(self)@.accumulators, sender@, accumulator@);
        }
        match flushed {
            Some(batch) => {
                self.sink.push(batch);
            },
            None => {},
        }
        proof {
            assert(self@ =~= send_spec(old(self)@, sender@).0);
        }
        Ok(())
    }

    /// Drain and stop the whole pipeline. Every accumulator is shut down in
    /// turn — flushing its remaining buffer as one final batch — and only
    /// after all of them have finished flushing is the sink told to stop.
    /// Afterwards the sink has counted every message that was still pending,
    /// every accumulator reports stopped with an empty buffer, and no
    /// further sends are accepted.
    pub fn shutdown_all(&mut self)
        requires
            old(self)@.wf(),
            old(self)@.sink.message_count + pending_total(old(self)@.accumulators)
                <= usize::MAX,
            old(self)@.sink.batch_count + old(self)@.accumulators.len() <= usize::MAX,
        ensures
            final(self)@.wf(),
            final(self)@.topics == old(self)@.topics,
            final(self)@.batch_size == old(self)@.batch_size,
            final(self)@.batch_timeout_ms == old(self)@.batch_timeout_ms,
            final(self)@.accumulators.len() == old(self)@.accumulators.len(),
            forall|i: int|
                0 <= i < final(self)@.accumulators.len()
                    ==> (#[trigger] final(self)@.accumulators[i])
                    == crate::batching::shutdown_transition(old(self)@.accumulators[i]).0,
            !final(self)@.sink.running,
            final(self)@.sink.message_count == old(self)@.sink.message_count + pending_total(
                old(self)@.accumulators,
            ),
            final(self)@.sink.batch_count <= old(self)@.sink.batch_count + old(
                self,
            )@.accumulators.len(),
            pending_total(final(self)@.accumulators) == 0,
    {
        let ghost pre = self@;
        let mut drained: Vec<Accumulator> = Vec::new();
        proof {
            assert(drained@.map_values(|a: Accumulator| a@) =~= Seq::<AccumulatorView>::empty());
            assert(self@.accumulators.skip(0) =~= pre.accumulators);
            assert(pending_total(pre.accumulators.take(0)) == 0) by {
                assert(pre.accumulators.take(0).len() == 0);
            }
        }
        while self.accumulators.len() > 0
            invariant
                pre.wf(),
                pre == (PubSubView {
                    topics: self.topics@.map_values(|t: String| t@),
                    accumulators: pre.accumulators,
                    sink: pre.sink,
                    batch_size: self.batch_size as nat,
                    batch_timeout_ms: self.batch_timeout_ms as nat,
                }),
                drained@.len() + self.accumulators@.len() == pre.accumulators.len(),
                self.accumulators@.map_values(|a: Accumulator| a@) =~= pre.accumulators.skip(
                    drained@.len() as int,
                ),
                forall|i: int|
                    0 <= i < drained@.len() ==> (#[trigger] drained@[i])@
                        == crate::batching::shutdown_transition(pre.accumulators[i]).0,
                self.sink@.message_count == pre.sink.message_count + pending_total(
                    pre.accumulators.take(drained@.len() as int),
                ),
                self.sink@.batch_count <= pre.sink.batch_count + drained@.len(),
                self.sink@.running == pre.sink.running,
                pre.sink.message_count + pending_total(pre.accumulators) <= usize::MAX,
                pre.sink.batch_count + pre.accumulators.len() <= usize::MAX,
            decreases self.accumulators@.len(),
        {
            let ghost k = drained@.len() as int;
            let mut accumulator = self.accumulators.remove(0);
            proof {
                assert(accumulator@ == pre.accumulators.skip(k).first());
                assert(pre.accumulators.skip(k).first() == pre.accumulators[k]);
                assert(self.accumulators@.map_values(|a: Accumulator| a@)
                    =~= pre.accumulators.skip(k + 1)) by {
                    assert(self.accumulators@.map_values(|a: Accumulator| a@)
                        =~= pre.accumulators.skip(k).drop_first());
                    assert(pre.accumulators.skip(k).drop_first() =~= pre.accumulators.skip(
                        k + 1,
                    ));
                }
                assert(pre.accumulators.take(k + 1) =~= pre.accumulators.take(k).push(
                    pre.accumulators[k],
                ));
                lemma_pending_total_push(pre.accumulators.take(k), pre.accumulators[k]);
                lemma_pending_total_split(pre.accumulators, k + 1);
                assert(pending_total(pre.accumulators.take(k + 1)) <= pending_total(
                    pre.accumulators,
                ));
            }
            if let Some(batch) = accumulator.shutdown() {
                self.sink.push(batch);
            }
            let ghost drained_pre = drained@;
            drained.push(accumulator);
            proof {
                assert(drained@.map_values(|a: Accumulator| a@) =~= drained_pre.map_values(
                    |a: Accumulator| a@,
                ).push(accumulator@));
            }
        }
        let ghost all_drained = drained@;
        core::mem::swap(&mut self.accumulators, &mut drained);
        proof {
            assert(pre.accumulators.take(pre.accumulators.len() as int) =~= pre.accumulators);
            assert(self@.accumulators =~= all_drained.map_values(|a: Accumulator| a@));
            lemma_pending_total_zero(self@.accumulators);
        }
        self.sink.stop();
    }

    /// The flush threshold every accumulator of this registry uses.
    pub fn batch_size(&self) -> (n: usize)
        ensures
            n == self@.batch_size,
    {
        self.batch_size
    }

    /// The batch timeout every accumulator of this registry uses, in
    /// milliseconds.
    pub fn batch_timeout_ms(&self) -> (n: u64)
        ensures
            n == self@.batch_timeout_ms,
    {
        self.batch_timeout_ms
    }

    /// How many topics have been registered.
    pub fn topic_count(&self) -> (n: usize)
        ensures
            n == self@.topics.len(),
    {
        self.topics.len()
    }

    /// The shared sink, for observation.
    pub fn sink(&self) -> (s: &Sink)
        ensures
            s@ == self@.sink,
    {
        &self.sink
    }

    /// One accumulator, for observation.
    pub fn accumulator(&self, i: usize) -> (a: &Accumulator)
        requires
            i < self@.accumulators.len(),
        ensures
            a@ == self@.accumulators[i as int],
    {
        &self.accumulators[i]
    }
}

} // verus!
