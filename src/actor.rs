use vstd::prelude::*;
use vstd::string::StringExecFns;

use crate::message::payload_text;
use crate::message::payload_text_of;
use crate::message::PublishMessage;
use crate::registry::delivered;
use crate::registry::entry_of;
use crate::registry::has_topic;
use crate::registry::lemma_delivered_wf;
use crate::registry::lemma_registered_wf;
use crate::registry::lookup_of;
use crate::registry::registered;
use crate::registry::unique_topics;
use crate::registry::Registry;
use crate::registry::Watchers;

verus! {

/// The actor as a value: its watcher registry and whether it still runs.
pub struct ActorState {
    pub watchers: Watchers,
    pub running: bool,
}

/// A mailbox message; its reply channel stays with the caller's side of the mailbox.
pub enum Request {
    /// Hand a message to the broker.
    Publish(PublishMessage),
    /// Watch a topic.
    Subscribe(String),
    /// Ask for liveness text.
    Status,
}

/// What the actor asks of the world for one request.
pub enum Effect {
    /// Publish this message through the broker client, then answer with `publish_reply` of the
    /// outcome.
    Publish(PublishMessage),
    /// Answer with the receiver of watcher `watcher`; when `subscribe_broker` holds, first issue
    /// the broker-level subscribe for the topic (its failure is only logged).
    Watch { watcher: usize, subscribe_broker: bool },
    /// Answer with this text.
    Reply(String),
    /// The actor has stopped: drop the reply channel unanswered.
    Unanswered,
}

/// The liveness text of a running actor.
pub open spec fn running_text() -> Seq<char> {
    "implementation pending"@
}

/// The state after a subscribe of `topic`.
pub open spec fn subscribed(s: ActorState, topic: Seq<char>) -> ActorState {
    ActorState { watchers: registered(s.watchers, topic), running: s.running }
}

/// The watcher id that a subscribe of `topic` answers with.
pub open spec fn subscribe_watcher(s: ActorState, topic: Seq<char>) -> int {
    entry_of(registered(s.watchers, topic), topic)
}

/// Whether a subscribe of `topic` issues a broker-level subscribe: only for a topic without
/// an entry.
pub open spec fn subscribe_issues_broker_call(s: ActorState, topic: Seq<char>) -> bool {
    !has_topic(s.watchers, topic)
}

/// How one mailbox message takes the actor from `s` to `s2` with effect `e`.
pub open spec fn handles(s: ActorState, req: Request, s2: ActorState, e: Effect) -> bool {
    if !s.running {
        s2 == s && e is Unanswered
    } else {
        match req {
            Request::Publish(m) => s2 == s && e == Effect::Publish(m),
            Request::Subscribe(t) => s2 == subscribed(s, t@) && e == (Effect::Watch {
                watcher: subscribe_watcher(s, t@) as usize,
                subscribe_broker: subscribe_issues_broker_call(s, t@),
            }),
            Request::Status => s2 == s && (e matches Effect::Reply(text) && text@ == running_text()),
        }
    }
}

/// The watcher that a broker message for `topic` goes to: the topic's entry while the actor
/// runs, none otherwise.
pub open spec fn route_of(s: ActorState, topic: Seq<char>) -> Option<int> {
    if s.running {
        lookup_of(s.watchers, topic)
    } else {
        None
    }
}

/// The state after a broker message with text `text` arrives for `topic`.
pub open spec fn broker_message_step(s: ActorState, topic: Seq<char>, text: Seq<char>) -> ActorState {
    if s.running {
        ActorState { watchers: delivered(s.watchers, topic, text), running: true }
    } else {
        s
    }
}

/// The subscription actor: the single owner of the watcher registry, which serialises
/// subscribes, publishes and incoming broker messages.
pub struct SubscriberActor {
    registry: Registry,
    running: bool,
}

impl View for SubscriberActor {
    type V = ActorState;

    closed spec fn view(&self) -> ActorState {
        ActorState { watchers: self.registry@, running: self.running }
    }
}

impl SubscriberActor {
    /// The actor's invariant: its registry has one entry per topic.
    pub open spec fn wf(&self) -> bool {
        unique_topics(self@.watchers)
    }

    /// A running actor without watchers.
    pub fn new() -> (r: SubscriberActor)
        ensures
            r.wf(),
            r@.running,
            r@.watchers == Seq::<(Seq<char>, Seq<char>)>::empty(),
    {
        SubscriberActor { registry: Registry::new(), running: true }
    }

    /// Whether the actor still takes messages.
    pub fn is_running(&self) -> (r: bool)
        ensures
            r == self@.running,
    {
        self.running
    }

    /// The number of watcher entries.
    pub fn watcher_count(&self) -> (r: usize)
        ensures
            r == self@.watchers.len(),
    {
        self.registry.len()
    }

    /// The topic of watcher `id`.
    pub fn watcher_topic(&self, id: usize) -> (r: &String)
        requires
            id < self@.watchers.len(),
        ensures
            r@ == self@.watchers[id as int].0,
    {
        self.registry.topic(id)
    }

    /// The latest value of watcher `id`: what a new receiver of it sees first.
    pub fn watcher_value(&self, id: usize) -> (r: &String)
        requires
            id < self@.watchers.len(),
        ensures
            r@ == self@.watchers[id as int].1,
    {
        self.registry.value(id)
    }

    /// Takes one mailbox message. A publish is handed to the broker unchanged; a subscribe
    /// registers the topic once and always answers with its watcher, asking for the broker call
    /// only when the entry is new; a status request answers with liveness text. Once stopped,
    /// the actor answers nothing and changes nothing.
    pub fn handle(&mut self, req: Request) -> (r: Effect)
        requires
            old(self).wf(),
        ensures
            final(self).wf(),
            handles(old(self)@, req, final(self)@, r),
            old(self)@.running ==> match req {
                Request::Subscribe(t) => r matches Effect::Watch { watcher, subscribe_broker }
                    && watcher < final(self)@.watchers.len() && final(self)@.watchers[watcher as int].0
                    == t@ && (subscribe_broker ==> watcher == old(self)@.watchers.len()),
                _ => true,
            },
    {
        if !self.running {
            return Effect::Unanswered;
        }
        match req {
            Request::Publish(m) => Effect::Publish(m),
            Request::Subscribe(topic) => {
                proof {
                    lemma_registered_wf(self@.watchers, topic@);
                }
                let ghost t = topic@;
                let (watcher, created) = self.registry.register(topic);
                proof {
                    crate::registry::lemma_entry_of_unique(
                        self@.watchers,
                        t,
                        entry_of(self@.watchers, t),
                    );
                }
                Effect::Watch { watcher, subscribe_broker: created }
            },
            Request::Status => Effect::Reply(String::from_str("implementation pending")),
        }
    }

    /// Takes a message that the broker delivered for `topic`: its text becomes the latest value
    /// of the topic's watcher, whose id is returned so that the value can be broadcast. A topic
    /// without a watcher, or a stopped actor, leaves everything as it is.
    pub fn on_broker_message(&mut self, topic: &String, payload: Vec<u8>) -> (r: Option<usize>)
        requires
            old(self).wf(),
        ensures
            final(self).wf(),
            final(self)@ == broker_message_step(old(self)@, topic@, payload_text_of(payload@)),
            r == (match route_of(old(self)@, topic@) {
                Some(i) => Some(i as usize),
                None => None,
            }),
            r matches Some(i) ==> i < final(self)@.watchers.len() && final(self)@.watchers[i as int]
                == (topic@, payload_text_of(payload@)),
    {
        if !self.running {
            return None;
        }
        let text = payload_text(payload);
        self.registry.deliver(topic, text)
    }

    /// Stops the actor. Returns whether it was running, that is whether the broker connection
    /// is now to be closed; stopping twice asks for that once.
    pub fn stop(&mut self) -> (r: bool)
        ensures
            final(self)@ == (ActorState { watchers: old(self)@.watchers, running: false }),
            r == old(self)@.running,
    {
        let was = self.running;
        self.running = false;
        was
    }
}


/// The state after `n` subscribes of `topic` in a row.
pub open spec fn subscribed_n(s: ActorState, topic: Seq<char>, n: nat) -> ActorState
    decreases n,
{
    if n == 0 {
        s
    } else {
        subscribed(subscribed_n(s, topic, (n - 1) as nat), topic)
    }
}

/// How many broker-level subscribes `n` subscribes of `topic` in a row issue.
pub open spec fn broker_subscribes_n(s: ActorState, topic: Seq<char>, n: nat) -> nat
    decreases n,
{
    if n == 0 {
        0
    } else {
        broker_subscribes_n(s, topic, (n - 1) as nat) + (if subscribe_issues_broker_call(
            subscribed_n(s, topic, (n - 1) as nat),
            topic,
        ) {
            1nat
        } else {
            0nat
        })
    }
}

/// A broker message for a topic that no one subscribed to changes nothing and reaches no
/// watcher; a later first subscribe of the topic adds one entry, holding the empty text.
pub proof fn lemma_unwatched_topic_is_ignored(s: ActorState, topic: Seq<char>, text: Seq<char>)
    requires
        !has_topic(s.watchers, topic),
    ensures
        broker_message_step(s, topic, text) == s,
        route_of(s, topic) is None,
        subscribed(broker_message_step(s, topic, text), topic).watchers == s.watchers.push(
            (topic, Seq::empty()),
        ),
{
}

/// Subscribing to a topic that already has a watcher changes nothing, issues no broker call
/// and answers with the existing watcher.
pub proof fn lemma_subscribe_is_idempotent(s: ActorState, topic: Seq<char>)
    requires
        unique_topics(s.watchers),
        has_topic(s.watchers, topic),
    ensures
        subscribed(s, topic) == s,
        !subscribe_issues_broker_call(s, topic),
        subscribe_watcher(s, topic) == entry_of(s.watchers, topic),
{
}

/// Once subscribed, further subscribes of the same topic leave the state as it is.
proof fn lemma_subscribed_n_stable(s: ActorState, topic: Seq<char>, n: nat)
    requires
        unique_topics(s.watchers),
        n >= 1,
    ensures
        subscribed_n(s, topic, n) == subscribed(s, topic),
    decreases n,
{
    lemma_registered_wf(s.watchers, topic);
    if n > 1 {
        lemma_subscribed_n_stable(s, topic, (n - 1) as nat);
        let s1 = subscribed(s, topic);
        assert(registered(s1.watchers, topic) == s1.watchers);
        assert(subscribed(s1, topic) == s1);
    } else {
        assert(subscribed_n(s, topic, 0) == s);
    }
}

/// Any number `n` of subscribes of a new topic, one after the other as the mailbox serialises
/// them, issue exactly one broker-level subscribe, all answer with the same watcher, and leave
/// exactly one entry for the topic.
pub proof fn lemma_subscribes_share_one_watcher(s: ActorState, topic: Seq<char>, n: nat)
    requires
        unique_topics(s.watchers),
        !has_topic(s.watchers, topic),
        n >= 1,
    ensures
        broker_subscribes_n(s, topic, n) == 1,
        forall|k: nat|
            k < n ==> #[trigger] subscribe_watcher(subscribed_n(s, topic, k), topic)
                == s.watchers.len(),
        forall|k: nat|
            k < n ==> (#[trigger] subscribe_issues_broker_call(subscribed_n(s, topic, k), topic)
                <==> k == 0),
        unique_topics(subscribed_n(s, topic, n).watchers),
        has_topic(subscribed_n(s, topic, n).watchers, topic),
        subscribed_n(s, topic, n).watchers.len() == s.watchers.len() + 1,
    decreases n,
{
    lemma_registered_wf(s.watchers, topic);
    let s1 = subscribed(s, topic);
    lemma_registered_wf(s1.watchers, topic);
    assert forall|k: nat| k < n implies #[trigger] subscribe_watcher(subscribed_n(s, topic, k), topic)
        == s.watchers.len() && (subscribe_issues_broker_call(subscribed_n(s, topic, k), topic)
        <==> k == 0) by {
        if k >= 1 {
            lemma_subscribed_n_stable(s, topic, k);
        }
    }
    lemma_subscribed_n_stable(s, topic, n);
    if n > 1 {
        lemma_subscribes_share_one_watcher(s, topic, (n - 1) as nat);
        lemma_subscribed_n_stable(s, topic, (n - 1) as nat);
        assert(!subscribe_issues_broker_call(subscribed_n(s, topic, (n - 1) as nat), topic));
    } else {
        assert(subscribed_n(s, topic, 0) == s);
        assert(broker_subscribes_n(s, topic, 0) == 0);
    }
}

/// A payload published to a topic and delivered back by the broker reaches the watcher that
/// every subscriber of the topic holds, before or after the delivery; a later delivery
/// replaces it, so the last value wins.
pub proof fn lemma_delivery_reaches_every_subscriber(
    s: ActorState,
    m: PublishMessage,
    later: Seq<char>,
)
    requires
        unique_topics(s.watchers),
        s.running,
    ensures
        ({
            let t = m.topic@;
            let s1 = subscribed(s, t);
            let w = subscribe_watcher(s, t);
            let text = payload_text_of(m.value@);
            let s2 = broker_message_step(s1, t, text);
            let s3 = broker_message_step(s2, t, later);
            &&& handles(s1, Request::Publish(m), s1, Effect::Publish(m))
            &&& route_of(s1, t) == Some(w)
            &&& 0 <= w < s2.watchers.len()
            &&& s2.watchers[w].1 == text
            &&& subscribed(s2, t) == s2
            &&& subscribe_watcher(s2, t) == w
            &&& route_of(s2, t) == Some(w)
            &&& s3.watchers[w].1 == later
        }),
{
    let t = m.topic@;
    let s1 = subscribed(s, t);
    let w = subscribe_watcher(s, t);
    let text = payload_text_of(m.value@);
    lemma_registered_wf(s.watchers, t);
    crate::registry::lemma_entry_of_unique(s1.watchers, t, w);
    lemma_delivered_wf(s1.watchers, t, text);
    let s2 = broker_message_step(s1, t, text);
    crate::registry::lemma_entry_of_unique(s2.watchers, t, w);
    lemma_delivered_wf(s2.watchers, t, later);
}

/// A stopped actor answers no request and changes nothing, whatever it is sent, and routes
/// no broker message.
pub proof fn lemma_stopped_actor_answers_nothing(s: ActorState, req: Request, topic: Seq<char>)
    requires
        !s.running,
    ensures
        forall|s2: ActorState, e: Effect| handles(s, req, s2, e) ==> s2 == s && e is Unanswered,
        route_of(s, topic) is None,
        forall|text: Seq<char>| broker_message_step(s, topic, text) == s,
{
}

} // verus!
