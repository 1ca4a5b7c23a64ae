//! Topic-based messaging between agents: each subscription is a bounded
//! queue; a message is offered to the subscriptions of one topic or to all
//! of them. Every subscription keeps, as a ghost record, the messages
//! offered to it, so that the contracts can say exactly who was offered
//! what.

use vstd::prelude::*;

use crate::strmap::StrMap;

verus! {

/// The sending side of a tokio bounded queue.
#[verifier::external_type_specification]
#[verifier::external_body]
#[verifier::reject_recursive_types(T)]
pub struct ExMpscSender<T>(tokio::sync::mpsc::Sender<T>);

/// The receiving side of a tokio bounded queue.
#[verifier::external_type_specification]
#[verifier::external_body]
#[verifier::reject_recursive_types(T)]
pub struct ExMpscReceiver<T>(tokio::sync::mpsc::Receiver<T>);

/// How many messages a subscription's queue holds.
pub const SUBSCRIPTION_CAPACITY: usize = 32;

/// Calls `tokio::sync::mpsc::channel`: a bounded queue of `capacity`
/// messages, its sending and receiving sides. tokio panics on a capacity of
/// 0 or above its permit limit (`usize::MAX >> 3`); `requires` rules both
/// out.
#[verifier::external_body]
fn bounded_queue(capacity: usize) -> (q: (tokio::sync::mpsc::Sender<String>, tokio::sync::mpsc::Receiver<String>))
    requires
        0 < capacity <= 1024,
{
    tokio::sync::mpsc::channel(capacity)
}

/// Calls `Sender::try_send`, which queues the message unless the queue is
/// full or its receiver is gone, and returns at once either way. Whether it
/// was queued depends on the receiver and is not stated.
#[verifier::external_body]
fn queue_try_send(sender: &tokio::sync::mpsc::Sender<String>, message: String) {
    let _ = sender.try_send(message);
}

/// One subscription: the sending side of its queue, and the messages
/// offered to it so far.
pub struct Subscription {
    sender: tokio::sync::mpsc::Sender<String>,
    offers: Ghost<Seq<Seq<char>>>,
}

impl Subscription {
    /// The messages offered to this subscription, oldest first.
    pub closed spec fn offered(&self) -> Seq<Seq<char>> {
        self.offers@
    }

    /// Offers a message without waiting; a full queue or a receiver that is
    /// gone loses it.
    pub fn offer(&mut self, message: &str)
        ensures
            final(self).offered() == old(self).offered().push(message@),
    {
        queue_try_send(&self.sender, message.to_owned());
        self.offers = Ghost(self.offers@.push(message@));
    }
}

/// The records of a list of subscriptions.
pub open spec fn records(subs: Seq<Subscription>) -> Seq<Seq<Seq<char>>> {
    subs.map_values(|s: Subscription| s.offered())
}

/// The records after one more offer of `m` to each subscription.
pub open spec fn each_offered(recs: Seq<Seq<Seq<char>>>, m: Seq<char>) -> Seq<Seq<Seq<char>>> {
    recs.map_values(|r: Seq<Seq<char>>| r.push(m))
}

/// The number of subscriptions under a topic (0 for an unknown topic).
pub open spec fn count_under(m: Map<Seq<char>, Seq<Seq<Seq<char>>>>, topic: Seq<char>) -> nat {
    if m.contains_key(topic) {
        m[topic].len()
    } else {
        0
    }
}

/// Offers `message` once to each subscription of the list, in order.
fn offer_all(subs: &mut Vec<Subscription>, message: &str)
    ensures
        final(subs)@.len() == old(subs)@.len(),
        records(final(subs)@) == each_offered(records(old(subs)@), message@),
{
    let mut i: usize = 0;
    while i < subs.len()
        invariant
            i <= subs@.len(),
            subs@.len() == old(subs)@.len(),
            forall|j: int| 0 <= j < i ==> (#[trigger] subs@[j]).offered() == old(subs)@[j].offered().push(message@),
            forall|j: int| i <= j < subs@.len() ==> (#[trigger] subs@[j]) == old(subs)@[j],
        decreases subs.len() - i,
    {
        subs[i].offer(message);
        i = i + 1;
    }
    assert(records(subs@) =~= each_offered(records(old(subs)@), message@));
}

/// The subscriptions, by topic.
pub struct Channel {
    pub subscribers: StrMap<Vec<Subscription>>,
}

impl Channel {
    /// Internal consistency of the map.
    pub open spec fn wf(&self) -> bool {
        self.subscribers.wf()
    }

    /// For each topic, the records of its subscriptions, in the order they
    /// subscribed.
    pub open spec fn offers(&self) -> Map<Seq<char>, Seq<Seq<Seq<char>>>> {
        self.subscribers@.map_values(|v: Vec<Subscription>| records(v@))
    }

    /// A channel without subscriptions.
    pub fn new() -> (c: Self)
        ensures
            c.wf(),
            c.offers() == Map::<Seq<char>, Seq<Seq<Seq<char>>>>::empty(),
    {
        let c = Channel { subscribers: StrMap::new() };
        assert(c.offers() =~= Map::<Seq<char>, Seq<Seq<Seq<char>>>>::empty());
        c
    }

    /// Adds a subscription to a topic, with a queue of
    /// `SUBSCRIPTION_CAPACITY` messages, and returns its receiving side.
    pub fn subscribe(&mut self, topic: &str) -> (r: tokio::sync::mpsc::Receiver<String>)
        requires
            old(self).wf(),
        ensures
            final(self).wf(),
            final(self).offers() == old(self).offers().insert(
                topic@,
                (if old(self).offers().contains_key(topic@) {
                    old(self).offers()[topic@]
                } else {
                    Seq::empty()
                }).push(Seq::empty()),
            ),
    {
        let (sender, receiver) = bounded_queue(SUBSCRIPTION_CAPACITY);
        let sub = Subscription { sender, offers: Ghost(Seq::empty()) };
        proof {
            self.subscribers.lemma_view();
        }
        match self.subscribers.find(topic) {
            Some(i) => {
                let ghost mid = self.subscribers;
                let list = self.subscribers.value_at_mut(i);
                let ghost before = *list;
                list.push(sub);
                proof {
                    StrMap::lemma_update_at(mid, self.subscribers, i as int);
                    assert(records(self.subscribers.val_seq()[i as int]@) =~= records(before@).push(
                        Seq::empty(),
                    ));
                    assert(self.offers() =~= old(self).offers().insert(
                        topic@,
                        old(self).offers()[topic@].push(Seq::empty()),
                    ));
                }
            },
            None => {
                let mut list: Vec<Subscription> = Vec::new();
                list.push(sub);
                self.subscribers.insert(topic.to_owned(), list);
                proof {
                    assert(records(list@) =~= Seq::<Seq<Seq<char>>>::empty().push(Seq::empty()));
                    assert(self.offers() =~= old(self).offers().insert(
                        topic@,
                        Seq::<Seq<Seq<char>>>::empty().push(Seq::empty()),
                    ));
                }
            },
        }
        receiver
    }

    /// Offers a message once to each subscription of a topic, and to no
    /// other subscription; a topic without subscriptions changes nothing.
    pub fn publish(&mut self, topic: &str, message: String)
        requires
            old(self).wf(),
        ensures
            final(self).wf(),
            final(self).offers() == (if old(self).offers().contains_key(topic@) {
                old(self).offers().insert(topic@, each_offered(old(self).offers()[topic@], message@))
            } else {
                old(self).offers()
            }),
    {
        proof {
            self.subscribers.lemma_view();
        }
        match self.subscribers.find(topic) {
            Some(i) => {
                let ghost mid = self.subscribers;
                let list = self.subscribers.value_at_mut(i);
                offer_all(list, message.as_str());
                proof {
                    StrMap::lemma_update_at(mid, self.subscribers, i as int);
                    assert(self.offers() =~= old(self).offers().insert(
                        topic@,
                        each_offered(old(self).offers()[topic@], message@),
                    ));
                }
            },
            None => {},
        }
    }

    /// Offers a message once to every subscription of every topic.
    pub fn broadcast(&mut self, message: String)
        requires
            old(self).wf(),
        ensures
            final(self).wf(),
            final(self).offers() == old(self).offers().map_values(
                |recs: Seq<Seq<Seq<char>>>| each_offered(recs, message@),
            ),
    {
        let n = self.subscribers.len();
        let ghost ks = self.subscribers.key_seq();
        let ghost vs = self.subscribers.val_seq();
        proof {
            self.subscribers.lemma_view();
        }
        let mut k: usize = 0;
        while k < n
            invariant
                self.subscribers.wf(),
                ks == self.subscribers.key_seq(),
                n == ks.len(),
                vs.len() == n,
                self.subscribers.val_seq().len() == n,
                k <= n,
                forall|q: int|
                    0 <= q < k ==> records((#[trigger] self.subscribers.val_seq()[q])@) == each_offered(
                        records(vs[q]@),
                        message@,
                    ),
                forall|q: int| k <= q < n ==> (#[trigger] self.subscribers.val_seq()[q]) == vs[q],
            decreases n - k,
        {
            let list = self.subscribers.value_at_mut(k);
            offer_all(list, message.as_str());
            k = k + 1;
        }
        proof {
            self.subscribers.lemma_view();
            let m = message@;
            assert forall|t: Seq<char>| #[trigger] self.offers().contains_key(t) implies old(self).offers().contains_key(t)
                && self.offers()[t] == each_offered(old(self).offers()[t], m) by {
                let q = ks.index_of(t);
                assert(ks.to_set().contains(t));
                crate::strmap::lemma_index_of_unique(ks, q);
                assert(self.subscribers@[ks[q]] == self.subscribers.val_seq()[q]);
                assert(old(self).subscribers@[ks[q]] == vs[q]);
            }
            assert(self.offers().dom() =~= old(self).offers().dom());
            assert(self.offers() =~= old(self).offers().map_values(
                |recs: Seq<Seq<Seq<char>>>| each_offered(recs, m),
            ));
        }
    }

    /// The topics with subscriptions.
    pub fn topics(&self) -> (r: Vec<String>)
        requires
            self.wf(),
        ensures
            r@.map_values(|s: String| s@) == self.subscribers.key_seq(),
            r@.map_values(|s: String| s@).to_set() == self.offers().dom(),
    {
        let mut r: Vec<String> = Vec::new();
        let n = self.subscribers.len();
        let mut i: usize = 0;
        while i < n
            invariant
                self.subscribers.wf(),
                n == self.subscribers.key_seq().len(),
                i <= n,
                r@.map_values(|s: String| s@) == self.subscribers.key_seq().take(i as int),
            decreases n - i,
        {
            let ghost before = r@;
            let k = self.subscribers.key_at(i).clone();
            r.push(k);
            proof {
                assert(r@.map_values(|s: String| s@) =~= before.map_values(|s: String| s@).push(k@));
                assert(self.subscribers.key_seq().take(i + 1 as int) =~= self.subscribers.key_seq().take(
                    i as int,
                ).push(self.subscribers.key_seq()[i as int]));
            }
            i = i + 1;
        }
        proof {
            assert(self.subscribers.key_seq().take(n as int) =~= self.subscribers.key_seq());
            self.subscribers.lemma_view();
            assert(self.offers().dom() =~= self.subscribers@.dom());
        }
        r
    }

    /// The number of subscriptions of a topic.
    pub fn subscriber_count(&self, topic: &str) -> (n: usize)
        requires
            self.wf(),
        ensures
            n == count_under(self.offers(), topic@),
    {
        match self.subscribers.get(topic) {
            Some(subs) => subs.len(),
            None => 0,
        }
    }
}

impl Default for Channel {
    fn default() -> (c: Self)
        ensures
            c.wf(),
            c.offers() == Map::<Seq<char>, Seq<Seq<Seq<char>>>>::empty(),
    {
        Channel::new()
    }
}

} // verus!
