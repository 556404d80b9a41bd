//! The subscriber bridge: topics, subscription state and the queue that turns
//! pushed broker events into one-at-a-time polls.
//!
//! The blocking parts (talking to the broker, waiting for an event) are done by
//! the caller; this type decides what to ask the broker for and what each
//! answer does to the bridge.
use vstd::prelude::*;
use crate::queue::{EventQueue, PollOutcome, QueueView, spec_poll, spec_push};
use crate::registry::{Handle, Registry, RegistryError, issued};
use crate::topic::{InvalidTopic, Topic, valid_topic};

verus! {

/// What a request asks the broker to do with the bridge's topics.
#[derive(Clone, Copy, Debug, PartialEq, Eq)]
pub enum TopicAction {
    Subscribe,
    Unsubscribe,
}

/// A request for the broker client registered under `client`.
#[derive(Clone, Debug, PartialEq, Eq)]
pub struct TopicRequest {
    pub client: Handle,
    pub topics: Vec<String>,
    pub action: TopicAction,
}

/// The broker refused a subscription change, for the reason it gave.
#[derive(Clone, Debug, PartialEq, Eq)]
pub struct BrokerRejected {
    pub reason: String,
}

/// The bridge as a value: its client, topics, queue, and whether it is subscribed.
pub struct SubscriberView {
    pub client: Handle,
    pub topics: Seq<Seq<char>>,
    pub queue: QueueView,
    pub subscribed: bool,
}

/// The bridge after the broker answered a request for `action`: `ok` when it
/// accepted. Only the subscription state can change; topics and queued events stay.
pub open spec fn spec_complete(s: SubscriberView, action: TopicAction, ok: bool) -> SubscriberView {
    if ok {
        SubscriberView { subscribed: action == TopicAction::Subscribe, ..s }
    } else {
        s
    }
}

/// The texts of `texts`, as character sequences.
pub open spec fn texts_view(texts: Seq<String>) -> Seq<Seq<char>> {
    texts.map_values(|t: String| t@)
}

/// `index` is the first position of `texts` that is not a topic.
pub open spec fn first_invalid_topic(texts: Seq<String>, index: int) -> bool {
    &&& 0 <= index < texts.len()
    &&& !valid_topic(texts[index]@)
    &&& forall|j: int| 0 <= j < index ==> valid_topic(#[trigger] texts[j]@)
}

/// Bridges a broker client's pushed events to pull-style polls.
pub struct TopicSubscriber {
    client: Handle,
    topics: Vec<Topic>,
    queue: EventQueue,
    subscribed: bool,
}

impl View for TopicSubscriber {
    type V = SubscriberView;

    closed spec fn view(&self) -> SubscriberView {
        SubscriberView {
            client: self.client,
            topics: self.topics@.map_values(|t: Topic| t@),
            queue: self.queue@,
            subscribed: self.subscribed,
        }
    }
}

impl TopicSubscriber {
    /// Every topic held follows the grammar.
    pub open spec fn wf(&self) -> bool {
        forall|i: int| 0 <= i < self@.topics.len() ==> valid_topic(#[trigger] self@.topics[i])
    }

    /// A bridge for the client under `client`: no topics, an empty open queue, not subscribed.
    pub fn new(client: Handle) -> (r: TopicSubscriber)
        ensures
            r@ == (SubscriberView {
                client,
                topics: Seq::empty(),
                queue: QueueView { events: Seq::empty(), closed: false },
                subscribed: false,
            }),
            r.wf(),
    {
        let r = TopicSubscriber {
            client,
            topics: Vec::new(),
            queue: EventQueue::new(),
            subscribed: false,
        };
        proof {
            assert(r@.topics =~= Seq::<Seq<char>>::empty());
        }
        r
    }

    /// Appends the topic `text`; text that breaks the grammar is refused and the list is left as it was.
    pub fn topic(&mut self, text: &str) -> (r: Result<(), InvalidTopic>)
        requires
            old(self).wf(),
        ensures
            final(self).wf(),
            r is Ok <==> valid_topic(text@),
            r is Ok ==> final(self)@ == (SubscriberView {
                topics: old(self)@.topics.push(text@),
                ..old(self)@
            }),
            r matches Err(e) ==> e.text@ == text@ && final(self)@ == old(self)@,
    {
        match Topic::parse(text) {
            Ok(t) => {
                self.topics.push(t);
                proof {
                    assert(self@.topics =~= old(self)@.topics.push(text@));
                }
                Ok(())
            },
            Err(e) => Err(e),
        }
    }

    /// Appends the topics `texts` in order, all or none: the first text that breaks the
    /// grammar is refused and the list is left as it was.
    pub fn topics(&mut self, texts: &Vec<String>) -> (r: Result<(), InvalidTopic>)
        requires
            old(self).wf(),
        ensures
            final(self).wf(),
            r is Ok <==> forall|i: int| 0 <= i < texts@.len() ==> valid_topic(#[trigger] texts@[i]@),
            r is Ok ==> final(self)@ == (SubscriberView {
                topics: old(self)@.topics + texts_view(texts@),
                ..old(self)@
            }),
            r matches Err(e) ==> final(self)@ == old(self)@ && exists|i: int|
                first_invalid_topic(texts@, i) && e.text@ == #[trigger] texts@[i]@,
    {
        let mut parsed: Vec<Topic> = Vec::new();
        let mut i: usize = 0;
        while i < texts.len()
            invariant
                0 <= i <= texts@.len(),
                parsed@.map_values(|t: Topic| t@) == texts_view(texts@).take(i as int),
                forall|j: int| 0 <= j < i ==> valid_topic(#[trigger] texts@[j]@),
                self@ == old(self)@,
                self.wf(),
            decreases texts@.len() - i,
        {
            match Topic::parse(texts[i].as_str()) {
                Ok(t) => {
                    let ghost prev = parsed@;
                    parsed.push(t);
                    proof {
                        assert(parsed@.map_values(|t: Topic| t@) =~= prev.map_values(
                            |t: Topic| t@,
                        ).push(texts@[i as int]@));
                        assert(texts_view(texts@).take(i + 1) =~= texts_view(texts@).take(
                            i as int,
                        ).push(texts@[i as int]@));
                    }
                },
                Err(e) => {
                    proof {
                        assert(first_invalid_topic(texts@, i as int));
                    }
                    return Err(e);
                },
            }
            i = i + 1;
        }
        let ghost parsed_before = parsed@;
        self.topics.append(&mut parsed);
        proof {
            assert(parsed_before.map_values(|t: Topic| t@) =~= texts_view(texts@).take(i as int));
            assert(texts_view(texts@).take(i as int) =~= texts_view(texts@));
            assert(self@.topics =~= old(self)@.topics + texts_view(texts@));
            assert forall|j: int| 0 <= j < self@.topics.len() implies valid_topic(
                #[trigger] self@.topics[j],
            ) by {
                if j >= old(self)@.topics.len() {
                    assert(self@.topics[j] == texts@[j - old(self)@.topics.len()]@);
                }
            }
        }
        Ok(())
    }

    /// The texts of the topics held, in the order they were added.
    pub fn topic_list(&self) -> (r: Vec<String>)
        ensures
            texts_view(r@) == self@.topics,
    {
        let mut r: Vec<String> = Vec::new();
        let mut i: usize = 0;
        while i < self.topics.len()
            invariant
                0 <= i <= self.topics@.len(),
                texts_view(r@) == self@.topics.take(i as int),
            decreases self.topics@.len() - i,
        {
            let ghost prev = r@;
            r.push(self.topics[i].as_str().to_owned());
            proof {
                assert(texts_view(r@) =~= texts_view(prev).push(self@.topics[i as int]));
                assert(self@.topics.take(i + 1) =~= self@.topics.take(i as int).push(
                    self@.topics[i as int],
                ));
            }
            i = i + 1;
        }
        proof {
            assert(self@.topics.take(i as int) =~= self@.topics);
        }
        r
    }

    /// The handle of the client this bridge is bound to.
    pub fn client(&self) -> (r: Handle)
        ensures
            r == self@.client,
    {
        self.client
    }

    /// Whether the broker last accepted a subscription of this bridge's topics.
    pub fn is_subscribed(&self) -> (r: bool)
        ensures
            r == self@.subscribed,
    {
        self.subscribed
    }

    /// The request that carries out `action` for the current topics on the bound
    /// client, or `NotFound` when `registry` never issued the bridge's handle.
    pub fn request<C>(&self, action: TopicAction, registry: &Registry<C>) -> (r: Result<
        TopicRequest,
        RegistryError,
    >)
        ensures
            r is Ok <==> issued(registry@, self@.client),
            r matches Err(e) ==> e == RegistryError::NotFound,
            r matches Ok(q) ==> q.client == self@.client && q.action == action && texts_view(
                q.topics@,
            ) == self@.topics,
    {
        match registry.resolve(&self.client) {
            Ok(_) => Ok(TopicRequest { client: self.client, topics: self.topic_list(), action }),
            Err(e) => Err(e),
        }
    }

    /// The request that subscribes the bound client to the current topics.
    pub fn subscribe<C>(&self, registry: &Registry<C>) -> (r: Result<TopicRequest, RegistryError>)
        ensures
            r is Ok <==> issued(registry@, self@.client),
            r matches Err(e) ==> e == RegistryError::NotFound,
            r matches Ok(q) ==> q.client == self@.client && q.action == TopicAction::Subscribe
                && texts_view(q.topics@) == self@.topics,
    {
        self.request(TopicAction::Subscribe, registry)
    }

    /// The request that unsubscribes the bound client from the current topics.
    pub fn unsubscribe<C>(&self, registry: &Registry<C>) -> (r: Result<TopicRequest, RegistryError>)
        ensures
            r is Ok <==> issued(registry@, self@.client),
            r matches Err(e) ==> e == RegistryError::NotFound,
            r matches Ok(q) ==> q.client == self@.client && q.action == TopicAction::Unsubscribe
                && texts_view(q.topics@) == self@.topics,
    {
        self.request(TopicAction::Unsubscribe, registry)
    }

    /// Takes in the broker's answer to a request for `action`: on acceptance the
    /// subscription state follows the action; on refusal nothing changes and the
    /// broker's reason is passed on. Topics and queued events are never touched.
    pub fn complete(&mut self, action: TopicAction, outcome: Result<(), String>) -> (r: Result<
        (),
        BrokerRejected,
    >)
        requires
            old(self).wf(),
        ensures
            final(self).wf(),
            final(self)@ == spec_complete(old(self)@, action, outcome is Ok),
            r is Ok <==> outcome is Ok,
            r matches Err(e) ==> outcome == Err::<(), String>(e.reason),
    {
        match outcome {
            Ok(()) => {
                self.subscribed = match action {
                    TopicAction::Subscribe => true,
                    TopicAction::Unsubscribe => false,
                };
                proof {
                    assert(self@.topics == old(self)@.topics);
                }
                Ok(())
            },
            Err(reason) => Err(BrokerRejected { reason }),
        }
    }

    /// Queues an event the broker delivered; never blocks and never drops it.
    pub fn push_event(&mut self, event: String)
        requires
            old(self).wf(),
        ensures
            final(self).wf(),
            final(self)@ == (SubscriberView {
                queue: spec_push(old(self)@.queue, event),
                ..old(self)@
            }),
    {
        self.queue.push(event);
    }

    /// Takes the oldest queued event; `Pending` when none has come yet, `Closed`
    /// when none is queued and the producing side is gone.
    pub fn poll(&mut self) -> (r: PollOutcome)
        requires
            old(self).wf(),
        ensures
            final(self).wf(),
            (r, final(self)@.queue) == spec_poll(old(self)@.queue),
            final(self)@ == (SubscriberView { queue: final(self)@.queue, ..old(self)@ }),
    {
        self.queue.poll()
    }

    /// Marks that no more events will be pushed; queued ones can still be polled.
    pub fn close(&mut self)
        requires
            old(self).wf(),
        ensures
            final(self).wf(),
            final(self)@ == (SubscriberView {
                queue: QueueView { closed: true, ..old(self)@.queue },
                ..old(self)@
            }),
    {
        self.queue.close();
    }
}

/// An event queued before an unsubscription, whatever the broker answered, is
/// the one the next poll returns: unsubscribing discards no buffered event.
pub proof fn lemma_unsubscribe_keeps_events(s: SubscriberView, ok: bool)
    requires
        s.queue.events.len() > 0,
    ensures
        spec_complete(s, TopicAction::Unsubscribe, ok).queue == s.queue,
        spec_poll(spec_complete(s, TopicAction::Unsubscribe, ok).queue).0 == PollOutcome::Event(
            s.queue.events[0],
        ),
{
}

/// The queue of a bridge after the broker delivers `events` in order.
pub open spec fn deliver_all(q: QueueView, events: Seq<String>) -> QueueView
    decreases events.len(),
{
    if events.len() == 0 {
        q
    } else {
        deliver_all(spec_push(q, events[0]), events.drop_first())
    }
}

proof fn lemma_deliver_all(q: QueueView, events: Seq<String>)
    ensures
        deliver_all(q, events) == (QueueView { events: q.events + events, ..q }),
    decreases events.len(),
{
    if events.len() > 0 {
        lemma_deliver_all(spec_push(q, events[0]), events.drop_first());
        assert(q.events.push(events[0]) + events.drop_first() =~= q.events + events);
    } else {
        assert(q.events + events =~= q.events);
    }
}

/// Events that the broker delivers to an empty bridge queue, one push each, come
/// out of successive polls in delivery order, each once: the `i`-th poll returns
/// the `i`-th event.
pub proof fn lemma_delivery_order_kept(q: QueueView, events: Seq<String>, i: nat)
    requires
        q.events.len() == 0,
        i < events.len(),
    ensures
        spec_poll(crate::queue::poll_times(deliver_all(q, events), i)).0 == PollOutcome::Event(
            events[i as int],
        ),
{
    lemma_deliver_all(q, events);
    crate::queue::lemma_fifo_order(q, events, i);
}

/// Adding topic texts to a bridge without topics and then listing its topics
/// gives back exactly those texts, in order, repeats included.
pub proof fn lemma_topics_round_trip(s: SubscriberView, texts: Seq<String>, listed: Seq<String>)
    requires
        s.topics.len() == 0,
        texts_view(listed) == (SubscriberView { topics: s.topics + texts_view(texts), ..s }).topics,
    ensures
        listed.len() == texts.len(),
        forall|i: int| 0 <= i < texts.len() ==> (#[trigger] listed[i])@ == texts[i]@,
{
    assert(s.topics + texts_view(texts) =~= texts_view(texts));
    assert forall|i: int| 0 <= i < texts.len() implies (#[trigger] listed[i])@ == texts[i]@ by {
        assert(texts_view(listed)[i] == texts_view(texts)[i]);
    }
}

} // verus!
