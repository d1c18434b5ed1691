//! The local peer's topic registry: which broadcast channels it has
//! joined. Joining is idempotent, as the adapter's subscribe must be:
//! joining a topic twice does not double-register it.

use vstd::prelude::*;

verus! {

/// The topics the local peer has joined, in join order.
pub struct Peer {
    topics: Vec<String>,
}

impl View for Peer {
    type V = Seq<Seq<char>>;

    closed spec fn view(&self) -> Seq<Seq<char>> {
        self.topics@.map_values(|topic: String| topic@)
    }
}

/// Whether `topics` already holds `name`.
pub open spec fn has_topic(topics: Seq<Seq<char>>, name: Seq<char>) -> bool {
    exists|i: int| 0 <= i < topics.len() && topics[i] == name
}

impl Peer {
    /// A peer that has joined nothing yet.
    pub fn new() -> (peer: Self)
        ensures
            peer@ == Seq::<Seq<char>>::empty(),
    {
        let peer = Self { topics: Vec::new() };
        proof {
            assert(peer@ =~= Seq::<Seq<char>>::empty());
        }
        peer
    }

    /// Whether the peer has joined `topic_name`.
    pub fn joined(&self, topic_name: &str) -> (already: bool)
        ensures
            already == has_topic(self@, topic_name@),
    {
        let wanted: String = topic_name.to_owned();
        let mut i: usize = 0;
        while i < self.topics.len()
            invariant
                i <= self.topics@.len(),
                wanted@ == topic_name@,
                self@ == self.topics@.map_values(|topic: String| topic@),
                forall|j: int| 0 <= j < i ==> self@[j] != topic_name@,
            decreases self.topics@.len() - i,
        {
            if self.topics[i] == wanted {
                proof {
                    assert(self@[i as int] == topic_name@);
                }
                return true;
            }
            i = i + 1;
        }
        false
    }

    /// Join a topic: registered once, however often it is joined.
    /// Reports whether the topic was newly joined.
    pub fn join_topic(&mut self, topic_name: String) -> (newly: bool)
        ensures
            has_topic(old(self)@, topic_name@) ==> final(self)@ == old(self)@ && !newly,
            !has_topic(old(self)@, topic_name@) ==> final(self)@ == old(self)@.push(topic_name@)
                && newly,
    {
        if self.joined(topic_name.as_str()) {
            false
        } else {
            self.topics.push(topic_name);
            proof {
                assert(self@ =~= old(self)@.push(topic_name@));
            }
            true
        }
    }

    /// A snapshot of all joined topics, in join order.
    pub fn get_topics(&self) -> (topics: Vec<String>)
        ensures
            topics@.map_values(|topic: String| topic@) == self@,
    {
        let mut topics: Vec<String> = Vec::new();
        let mut i: usize = 0;
        while i < self.topics.len()
            invariant
                i <= self.topics@.len(),
                self@ == self.topics@.map_values(|topic: String| topic@),
                topics@.map_values(|topic: String| topic@) == self@.subrange(0, i as int),
            decreases self.topics@.len() - i,
        {
            let ghost prev = topics@;
            topics.push(self.topics[i].clone());
            i = i + 1;
            proof {
                let made = topics@.map_values(|topic: String| topic@);
                assert(prev.map_values(|topic: String| topic@).len() == prev.len());
                assert(prev.len() == i - 1);
                assert(topics@ == prev.push(self.topics@[i - 1]));
                assert forall|k: int| 0 <= k < i implies made[k] == self@[k] by {
                    if k < i - 1 {
                        assert(topics@[k] == prev[k]);
                        assert(prev.map_values(|topic: String| topic@)[k] == self@.subrange(
                            0,
                            i - 1,
                        )[k]);
                    } else {
                        assert(topics@[k]@ == self.topics@[k]@);
                    }
                }
                assert(made =~= self@.subrange(0, i as int));
            }
        }
        proof {
            assert(self@.subrange(0, self@.len() as int) =~= self@);
        }
        topics
    }
}

} // verus!
