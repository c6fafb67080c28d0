//! Topic subscriptions: which plugins listen on which topic.
use vstd::prelude::*;

verus! {

pub struct EventBus {
    subscriptions: Vec<(String, Vec<String>)>,
    model: Ghost<Map<Seq<char>, Set<Seq<char>>>>,
}

impl View for EventBus {
    type V = Map<Seq<char>, Set<Seq<char>>>;

    /// Topic to the set of plugins subscribed to it; a topic that nobody
    /// subscribed to is absent.
    closed spec fn view(&self) -> Map<Seq<char>, Set<Seq<char>>> {
        self.model@
    }
}

/// The plugins subscribed to `topic` in `subs`.
pub open spec fn subscribers_of(subs: Map<Seq<char>, Set<Seq<char>>>, topic: Seq<char>) -> Set<Seq<char>> {
    if subs.contains_key(topic) {
        subs[topic]
    } else {
        Set::empty()
    }
}

/// The plugins of a list, each once.
pub open spec fn lists_once(ids: Seq<String>, set: Set<Seq<char>>) -> bool {
    &&& forall|i: int, j: int| 0 <= i < j < ids.len() ==> (#[trigger] ids[i])@ != (#[trigger] ids[j])@
    &&& forall|id: Seq<char>| set.contains(id) <==> exists|i: int| 0 <= i < ids.len() && (#[trigger] ids[i])@ == id
}

impl EventBus {
    pub closed spec fn wf(&self) -> bool {
        &&& forall|i: int, j: int|
            0 <= i < j < self.subscriptions.len() ==> (#[trigger] self.subscriptions@[i]).0@
                != (#[trigger] self.subscriptions@[j]).0@
        &&& forall|i: int|
            0 <= i < self.subscriptions.len() ==> {
                &&& self.model@.contains_key((#[trigger] self.subscriptions@[i]).0@)
                &&& lists_once(self.subscriptions@[i].1@, self.model@[self.subscriptions@[i].0@])
            }
        &&& forall|t: Seq<char>|
            #[trigger] self.model@.contains_key(t) ==> exists|i: int|
                0 <= i < self.subscriptions.len() && self.subscriptions@[i].0@ == t
    }

    pub fn new() -> (r: EventBus)
        ensures
            r.wf(),
            r@ == Map::<Seq<char>, Set<Seq<char>>>::empty(),
    {
        EventBus { subscriptions: Vec::new(), model: Ghost(Map::empty()) }
    }

    fn find_topic(&self, topic: &String) -> (r: Option<usize>)
        requires
            self.wf(),
        ensures
            r is Some <==> self@.contains_key(topic@),
            r matches Some(i) ==> i < self.subscriptions.len() && self.subscriptions@[i as int].0@ == topic@,
    {
        let mut i: usize = 0;
        while i < self.subscriptions.len()
            invariant
                self.wf(),
                i <= self.subscriptions.len(),
                forall|j: int| 0 <= j < i ==> (#[trigger] self.subscriptions@[j]).0@ != topic@,
            decreases self.subscriptions.len() - i,
        {
            if self.subscriptions[i].0 == *topic {
                assert(self.model@.contains_key(self.subscriptions@[i as int].0@));
                return Some(i);
            }
            i = i + 1;
        }
        proof {
            if self@.contains_key(topic@) {
                let j = choose|j: int| 0 <= j < self.subscriptions.len() && self.subscriptions@[j].0@ == topic@;
                assert(self.subscriptions@[j].0@ == topic@);
            }
        }
        None
    }

    /// Subscribes `plugin_id` to `topic`; subscribing twice changes nothing.
    pub fn subscribe(&mut self, topic: String, plugin_id: String)
        requires
            old(self).wf(),
        ensures
            final(self).wf(),
            final(self)@ == old(self)@.insert(topic@, subscribers_of(old(self)@, topic@).insert(plugin_id@)),
    {
        let ghost new_set = subscribers_of(self@, topic@).insert(plugin_id@);
        let ghost m = self@.insert(topic@, new_set);
        match self.find_topic(&topic) {
            Some(i) => {
                let ghost olds = self.subscriptions@;
                let ghost old_set = self@[topic@];
                assert(lists_once(olds[i as int].1@, old_set));
                if contains_id(&self.subscriptions[i].1, &plugin_id) {
                    assert(new_set =~= old_set);
                    assert(m =~= self@);
                } else {
                    let mut ids = copy_ids(&self.subscriptions[i].1);
                    let ghost before = ids@;
                    ids.push(plugin_id);
                    proof {
                        assert forall|a: int, b: int| 0 <= a < b < ids.len() implies (#[trigger] ids@[a])@
                            != (#[trigger] ids@[b])@ by {
                            if b == ids.len() - 1 {
                                assert(ids@[a] == before[a]);
                            } else {
                                assert(ids@[a] == before[a] && ids@[b] == before[b]);
                            }
                        }
                        assert forall|id: Seq<char>| new_set.contains(id) <==> exists|k: int|
                            0 <= k < ids.len() && (#[trigger] ids@[k])@ == id by {
                            if old_set.contains(id) {
                                let k = choose|k: int| 0 <= k < before.len() && (#[trigger] before[k])@ == id;
                                assert(ids@[k] == before[k]);
                            }
                            if exists|k: int| 0 <= k < ids.len() && (#[trigger] ids@[k])@ == id {
                                let k = choose|k: int| 0 <= k < ids.len() && (#[trigger] ids@[k])@ == id;
                                if k < before.len() {
                                    assert(ids@[k] == before[k]);
                                }
                            }
                            assert(ids@[ids.len() - 1]@ == plugin_id@);
                        }
                    }
                    self.subscriptions.set(i, (topic, ids));
                    self.model = Ghost(m);
                    proof {
                        assert forall|j: int| 0 <= j < self.subscriptions.len() implies {
                            &&& self.model@.contains_key((#[trigger] self.subscriptions@[j]).0@)
                            &&& lists_once(self.subscriptions@[j].1@, self.model@[self.subscriptions@[j].0@])
                        } by {
                            if j != i {
                                assert(self.subscriptions@[j] == olds[j]);
                                assert(olds[j].0@ != olds[i as int].0@);
                            }
                        }
                        assert forall|t: Seq<char>| #[trigger] self.model@.contains_key(t) implies exists|j: int|
                            0 <= j < self.subscriptions.len() && self.subscriptions@[j].0@ == t by {
                            if t != topic@ {
                                let j = choose|j: int| 0 <= j < olds.len() && olds[j].0@ == t;
                                assert(self.subscriptions@[j] == olds[j]);
                            } else {
                                assert(self.subscriptions@[i as int].0@ == t);
                            }
                        }
                        assert forall|a: int, b: int| 0 <= a < b < self.subscriptions.len() implies
                            (#[trigger] self.subscriptions@[a]).0@ != (#[trigger] self.subscriptions@[b]).0@ by {
                            assert(olds[a].0@ != olds[b].0@);
                        }
                    }
                }
            },
            None => {
                let ghost olds = self.subscriptions@;
                let mut ids: Vec<String> = Vec::new();
                ids.push(plugin_id);
                proof {
                    assert(new_set =~= Set::empty().insert(plugin_id@));
                    assert forall|id: Seq<char>| new_set.contains(id) <==> exists|k: int|
                        0 <= k < ids.len() && (#[trigger] ids@[k])@ == id by {
                        assert(ids@[0]@ == plugin_id@);
                    }
                }
                self.subscriptions.push((topic, ids));
                self.model = Ghost(m);
                proof {
                    let last = self.subscriptions.len() - 1;
                    assert forall|j: int| 0 <= j < self.subscriptions.len() implies {
                        &&& self.model@.contains_key((#[trigger] self.subscriptions@[j]).0@)
                        &&& lists_once(self.subscriptions@[j].1@, self.model@[self.subscriptions@[j].0@])
                    } by {
                        if j != last {
                            assert(self.subscriptions@[j] == olds[j]);
                            assert(old(self).model@.contains_key(olds[j].0@));
                        }
                    }
                    assert forall|t: Seq<char>| #[trigger] self.model@.contains_key(t) implies exists|j: int|
                        0 <= j < self.subscriptions.len() && self.subscriptions@[j].0@ == t by {
                        if t != topic@ {
                            let j = choose|j: int| 0 <= j < olds.len() && olds[j].0@ == t;
                            assert(self.subscriptions@[j] == olds[j]);
                        } else {
                            assert(self.subscriptions@[last].0@ == t);
                        }
                    }
                    assert forall|a: int, b: int| 0 <= a < b < self.subscriptions.len() implies
                        (#[trigger] self.subscriptions@[a]).0@ != (#[trigger] self.subscriptions@[b]).0@ by {
                        if b == last {
                            assert(self.subscriptions@[a] == olds[a]);
                            assert(old(self).model@.contains_key(olds[a].0@));
                        } else {
                            assert(olds[a].0@ != olds[b].0@);
                        }
                    }
                }
            },
        }
    }

    /// The plugins subscribed to `topic`, each once, in no particular order.
    pub fn subscribers(&self, topic: &str) -> (r: Vec<String>)
        requires
            self.wf(),
        ensures
            lists_once(r@, subscribers_of(self@, topic@)),
    {
        let key = topic.to_owned();
        match self.find_topic(&key) {
            Some(i) => {
                let r = copy_ids(&self.subscriptions[i].1);
                assert(lists_once(self.subscriptions@[i as int].1@, self@[topic@]));
                r
            },
            None => {
                let r: Vec<String> = Vec::new();
                assert(subscribers_of(self@, topic@) =~= Set::empty());
                r
            },
        }
    }
}

impl Default for EventBus {
    fn default() -> (r: EventBus)
        ensures
            r.wf(),
            r@ == Map::<Seq<char>, Set<Seq<char>>>::empty(),
    {
        EventBus::new()
    }
}

fn contains_id(ids: &Vec<String>, id: &String) -> (r: bool)
    ensures
        r == exists|k: int| 0 <= k < ids.len() && (#[trigger] ids@[k])@ == id@,
{
    let mut k: usize = 0;
    while k < ids.len()
        invariant
            k <= ids.len(),
            forall|j: int| 0 <= j < k ==> (#[trigger] ids@[j])@ != id@,
        decreases ids.len() - k,
    {
        if ids[k] == *id {
            return true;
        }
        k = k + 1;
    }
    false
}

fn copy_ids(ids: &Vec<String>) -> (r: Vec<String>)
    ensures
        r@ == ids@,
{
    let mut r: Vec<String> = Vec::new();
    let mut k: usize = 0;
    while k < ids.len()
        invariant
            k <= ids.len(),
            r@ == ids@.subrange(0, k as int),
        decreases ids.len() - k,
    {
        r.push(ids[k].clone());
        k = k + 1;
        assert(r@ =~= ids@.subrange(0, k as int));
    }
    assert(ids@.subrange(0, ids.len() as int) =~= ids@);
    r
}

} // verus!
