use vstd::prelude::*;

verus! {

/// What the registry holds, entry by entry: each entry's topic and its last delivered value.
/// An entry's position is its watcher id.
pub type Watchers = Seq<(Seq<char>, Seq<char>)>;

/// No topic has two entries.
pub open spec fn unique_topics(w: Watchers) -> bool {
    forall|i: int, j: int| 0 <= i < j < w.len() ==> w[i].0 != w[j].0
}

/// Some entry belongs to `topic`.
pub open spec fn has_topic(w: Watchers, topic: Seq<char>) -> bool {
    exists|i: int| 0 <= i < w.len() && w[i].0 == topic
}

/// The watcher id of `topic`, where it has an entry.
pub open spec fn entry_of(w: Watchers, topic: Seq<char>) -> int {
    choose|i: int| 0 <= i < w.len() && w[i].0 == topic
}

/// Where `topic` has an entry, its id; otherwise nothing.
pub open spec fn lookup_of(w: Watchers, topic: Seq<char>) -> Option<int> {
    if has_topic(w, topic) {
        Some(entry_of(w, topic))
    } else {
        None
    }
}

/// The registry after `topic` is registered: a new entry with an empty value when it had none.
pub open spec fn registered(w: Watchers, topic: Seq<char>) -> Watchers {
    if has_topic(w, topic) {
        w
    } else {
        w.push((topic, Seq::empty()))
    }
}

/// The registry after `value` arrives for `topic`: the topic's entry takes the value, when there
/// is one; otherwise nothing changes.
pub open spec fn delivered(w: Watchers, topic: Seq<char>, value: Seq<char>) -> Watchers {
    if has_topic(w, topic) {
        w.update(entry_of(w, topic), (topic, value))
    } else {
        w
    }
}

/// In a registry without duplicate topics, the entry found for a topic is the only one.
pub proof fn lemma_entry_of_unique(w: Watchers, topic: Seq<char>, i: int)
    requires
        unique_topics(w),
        0 <= i < w.len(),
        w[i].0 == topic,
    ensures
        has_topic(w, topic),
        entry_of(w, topic) == i,
{
    let j = entry_of(w, topic);
    assert(0 <= j < w.len() && w[j].0 == topic);
}

/// Registering keeps topics unique and gives the topic an entry.
pub proof fn lemma_registered_wf(w: Watchers, topic: Seq<char>)
    requires
        unique_topics(w),
    ensures
        unique_topics(registered(w, topic)),
        has_topic(registered(w, topic), topic),
        registered(w, topic).len() == w.len() + (if has_topic(w, topic) { 0int } else { 1int }),
        !has_topic(w, topic) ==> entry_of(registered(w, topic), topic) == w.len(),
        forall|i: int| 0 <= i < w.len() ==> #[trigger] registered(w, topic)[i] == w[i],
{
    let r = registered(w, topic);
    if !has_topic(w, topic) {
        assert(r[w.len() as int].0 == topic);
        lemma_entry_of_unique(r, topic, w.len() as int);
    }
}

/// Delivering keeps the topics as they are.
pub proof fn lemma_delivered_wf(w: Watchers, topic: Seq<char>, value: Seq<char>)
    requires
        unique_topics(w),
    ensures
        unique_topics(delivered(w, topic, value)),
        delivered(w, topic, value).len() == w.len(),
        forall|i: int| 0 <= i < w.len() ==> (#[trigger] delivered(w, topic, value)[i]).0 == w[i].0,
        forall|t: Seq<char>| has_topic(delivered(w, topic, value), t) == has_topic(w, t),
        forall|t: Seq<char>|
            has_topic(w, t) ==> entry_of(delivered(w, topic, value), t) == entry_of(w, t),
{
    let d = delivered(w, topic, value);
    if has_topic(w, topic) {
    }
    assert forall|t: Seq<char>| has_topic(d, t) == has_topic(w, t) by {
        if has_topic(d, t) {
            let i = entry_of(d, t);
            assert(w[i].0 == t);
        }
        if has_topic(w, t) {
            let i = entry_of(w, t);
            assert(d[i].0 == t);
        }
    }
    assert forall|t: Seq<char>| has_topic(w, t) implies entry_of(d, t) == entry_of(w, t) by {
        let i = entry_of(w, t);
        assert(d[i].0 == t);
        lemma_entry_of_unique(d, t, i);
    }
}

/// The watcher entry of one topic.
pub struct WatcherEntry {
    pub topic: String,
    pub value: String,
}

/// The topic watcher registry: one entry per topic, never removed, its id its position.
pub struct Registry {
    entries: Vec<WatcherEntry>,
}

impl View for Registry {
    type V = Watchers;

    closed spec fn view(&self) -> Watchers {
        Seq::new(self.entries@.len(), |i: int| (self.entries@[i].topic@, self.entries@[i].value@))
    }
}

impl Registry {
    /// The registry's invariant: no topic has two entries.
    pub open spec fn wf(&self) -> bool {
        unique_topics(self@)
    }

    /// An empty registry.
    pub fn new() -> (r: Registry)
        ensures
            r@ == Seq::<(Seq<char>, Seq<char>)>::empty(),
            r.wf(),
    {
        let r = Registry { entries: Vec::new() };
        assert(r@ =~= Seq::<(Seq<char>, Seq<char>)>::empty());
        r
    }

    /// The number of entries.
    pub fn len(&self) -> (r: usize)
        ensures
            r == self@.len(),
    {
        self.entries.len()
    }

    /// The watcher id of `topic`, if it has an entry.
    pub fn lookup(&self, topic: &String) -> (r: Option<usize>)
        requires
            self.wf(),
        ensures
            r == (match lookup_of(self@, topic@) {
                Some(i) => Some(i as usize),
                None => None,
            }),
            r matches Some(i) ==> i < self@.len() && self@[i as int].0 == topic@,
    {
        let n = self.entries.len();
        let mut i: usize = 0;
        while i < n
            invariant
                n == self.entries@.len(),
                n == self@.len(),
                self.wf(),
                0 <= i <= n,
                forall|j: int| 0 <= j < i ==> #[trigger] self@[j].0 != topic@,
            decreases n - i,
        {
            if self.entries[i].topic.eq(topic) {
                assert(self@[i as int].0 == topic@);
                proof {
                    lemma_entry_of_unique(self@, topic@, i as int);
                }
                return Some(i);
            }
            assert(self@[i as int].0 != topic@);
            i = i + 1;
        }
        assert(!has_topic(self@, topic@));
        None
    }

    /// The topic of entry `id`.
    pub fn topic(&self, id: usize) -> (r: &String)
        requires
            id < self@.len(),
        ensures
            r@ == self@[id as int].0,
    {
        &self.entries[id].topic
    }

    /// The last value delivered to entry `id` (empty before the first).
    pub fn value(&self, id: usize) -> (r: &String)
        requires
            id < self@.len(),
        ensures
            r@ == self@[id as int].1,
    {
        &self.entries[id].value
    }

    /// Gives `topic` an entry unless it has one, and returns its watcher id and whether the
    /// entry is new.
    pub fn register(&mut self, topic: String) -> (r: (usize, bool))
        requires
            old(self).wf(),
        ensures
            final(self).wf(),
            final(self)@ == registered(old(self)@, topic@),
            r.0 == entry_of(final(self)@, topic@),
            r.1 == !has_topic(old(self)@, topic@),
    {
        proof {
            lemma_registered_wf(self@, topic@);
        }
        match self.lookup(&topic) {
            Some(id) => {
                proof {
                    lemma_entry_of_unique(self@, topic@, id as int);
                }
                (id, false)
            },
            None => {
                let id = self.entries.len();
                let ghost before = self@;
                let ghost t = topic@;
                self.entries.push(WatcherEntry { topic, value: String::new() });
                assert(self@ =~= registered(before, t));
                (id, true)
            },
        }
    }

    /// Stores `value` as the latest value of `topic`'s entry and returns its id; a topic without
    /// an entry is left alone.
    pub fn deliver(&mut self, topic: &String, value: String) -> (r: Option<usize>)
        requires
            old(self).wf(),
        ensures
            final(self).wf(),
            final(self)@ == delivered(old(self)@, topic@, value@),
            r == (match lookup_of(old(self)@, topic@) {
                Some(i) => Some(i as usize),
                None => None,
            }),
            r matches Some(i) ==> i < final(self)@.len() && final(self)@[i as int] == (
                topic@,
                value@,
            ),
    {
        proof {
            lemma_delivered_wf(self@, topic@, value@);
        }
        match self.lookup(topic) {
            Some(id) => {
                let ghost before = self@;
                proof {
                    lemma_entry_of_unique(before, topic@, id as int);
                }
                let t = self.entries[id].topic.clone();
                self.entries.set(id, WatcherEntry { topic: t, value });
                assert(self@ =~= delivered(before, topic@, value@));
                Some(id)
            },
            None => None,
        }
    }
}

} // verus!
