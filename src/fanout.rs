//! Best-effort fan-out of decoded responses to subscribers. Every response
//! gets the next sequence number; each open subscriber holds a bounded
//! buffer of what it has not taken yet, and a full buffer loses its oldest
//! entry rather than holding up the publisher.
use vstd::prelude::*;

verus! {

/// A published response with its place in the order of publication.
#[derive(Clone, Debug)]
pub struct Delivery<R> {
    pub seq: u64,
    pub response: R,
}

/// What one subscriber has not taken yet, and the last number it took.
pub struct Subscriber<R> {
    open: bool,
    queue: Vec<Delivery<R>>,
    last_taken: Option<u64>,
}

pub struct FanOut<R> {
    capacity: usize,
    next_seq: u64,
    subscribers: Vec<Subscriber<R>>,
    published: Ghost<Seq<R>>,
}

/// The sequence numbers of a buffer, in buffer order.
pub open spec fn seqs_of<R>(q: Seq<Delivery<R>>) -> Seq<u64> {
    q.map_values(|d: Delivery<R>| d.seq)
}

/// Strictly increasing numbers, all above `floor` when there is one and all
/// below `bound`.
pub open spec fn ordered_between(s: Seq<u64>, floor: Option<u64>, bound: u64) -> bool {
    &&& forall|a: int, b: int| 0 <= a < b < s.len() ==> s[a] < s[b]
    &&& forall|a: int| 0 <= a < s.len() ==> s[a] < bound
    &&& forall|a: int| 0 <= a < s.len() ==> (floor matches Some(f) ==> f < #[trigger] s[a])
}

impl<R: Clone> FanOut<R> {
    /// Every response published so far, in order.
    pub closed spec fn published(&self) -> Seq<R> {
        self.published@
    }

    pub closed spec fn spec_capacity(&self) -> nat {
        self.capacity as nat
    }

    pub closed spec fn subscriber_count(&self) -> nat {
        self.subscribers@.len()
    }

    pub closed spec fn is_open(&self, id: usize) -> bool {
        self.subscribers@[id as int].open
    }

    /// The numbers that subscriber `id` has yet to take, oldest first.
    pub closed spec fn pending(&self, id: usize) -> Seq<u64> {
        seqs_of(self.subscribers@[id as int].queue@)
    }

    /// The number of the last response that subscriber `id` took.
    pub closed spec fn last_taken(&self, id: usize) -> Option<u64> {
        self.subscribers@[id as int].last_taken
    }

    closed spec fn sub_ok(&self, sub: Subscriber<R>) -> bool {
        &&& ordered_between(seqs_of(sub.queue@), sub.last_taken, self.next_seq)
        &&& sub.queue@.len() <= self.capacity
        &&& (sub.last_taken matches Some(l) ==> l < self.next_seq)
        &&& forall|a: int|
            0 <= a < sub.queue@.len() ==> cloned(
                self.published@[sub.queue@[a].seq as int],
                #[trigger] sub.queue@[a].response,
            )
        &&& (!sub.open ==> sub.queue@.len() == 0)
    }

    /// Every buffer is in order of publication, within capacity, and holds
    /// copies of what was published under its numbers.
    pub closed spec fn wf(&self) -> bool {
        &&& self.published@.len() == self.next_seq
        &&& forall|i: int| 0 <= i < self.subscribers@.len() ==> self.sub_ok(#[trigger] self.subscribers@[i])
    }

    /// A fan-out whose subscribers buffer at most `capacity` responses each.
    pub fn new(capacity: usize) -> (r: Self)
        ensures
            r.wf(),
            r.published() == Seq::<R>::empty(),
            r.subscriber_count() == 0,
            r.spec_capacity() == capacity,
    {
        FanOut { capacity, next_seq: 0, subscribers: Vec::new(), published: Ghost(Seq::empty()) }
    }

    /// How many responses were published so far.
    pub fn published_count(&self) -> (r: u64)
        requires
            self.wf(),
        ensures
            r == self.published().len(),
    {
        self.next_seq
    }

    /// Opens a subscriber; it receives what is published from now on.
    pub fn subscribe(&mut self) -> (id: usize)
        requires
            old(self).wf(),
        ensures
            final(self).wf(),
            id == old(self).subscriber_count(),
            final(self).subscriber_count() == old(self).subscriber_count() + 1,
            final(self).is_open(id),
            final(self).pending(id) == Seq::<u64>::empty(),
            final(self).last_taken(id) is None,
            final(self).published() == old(self).published(),
            forall|j: usize| j < old(self).subscriber_count() ==> final(self).is_open(j) == old(self).is_open(j)
                && final(self).pending(j) == old(self).pending(j) && final(self).last_taken(j) == old(self).last_taken(j),
    {
        let id = self.subscribers.len();
        self.subscribers.push(Subscriber { open: true, queue: Vec::new(), last_taken: None });
        proof {
            assert(seqs_of(self.subscribers@[id as int].queue@) =~= Seq::<u64>::empty());
            assert forall|i: int| 0 <= i < self.subscribers@.len() implies self.sub_ok(#[trigger] self.subscribers@[i]) by {
                if i < id {
                    assert(self.subscribers@[i] == old(self).subscribers@[i]);
                }
            }
        }
        id
    }

    /// Publishes a response: it gets the next number, and every open
    /// subscriber buffers a copy of it, dropping its oldest entry when its
    /// buffer is full.
    pub fn publish(&mut self, response: R) -> (seq: u64)
        requires
            old(self).wf(),
            old(self).published().len() < u64::MAX,
        ensures
            final(self).wf(),
            seq == old(self).published().len(),
            final(self).published() == old(self).published().push(response),
            final(self).subscriber_count() == old(self).subscriber_count(),
            forall|j: usize| j < old(self).subscriber_count() ==> {
                &&& final(self).is_open(j) == old(self).is_open(j)
                &&& final(self).last_taken(j) == old(self).last_taken(j)
                &&& final(self).pending(j) == (if !old(self).is_open(j) || old(self).spec_capacity() == 0 {
                    old(self).pending(j)
                } else if old(self).pending(j).len() < old(self).spec_capacity() {
                    old(self).pending(j).push(seq)
                } else {
                    old(self).pending(j).drop_first().push(seq)
                })
            },
    {
        let seq = self.next_seq;
        self.published = Ghost(self.published@.push(response));
        self.next_seq = seq + 1;
        proof {
            assert forall|k: int| 0 <= k < self.subscribers@.len() implies self.sub_ok(#[trigger] self.subscribers@[k]) by {
                let sub = self.subscribers@[k];
                assert(old(self).sub_ok(sub));
                assert forall|a: int| 0 <= a < sub.queue@.len() implies cloned(
                    self.published@[sub.queue@[a].seq as int],
                    #[trigger] sub.queue@[a].response,
                ) by {
                    assert(seqs_of(sub.queue@)[a] == sub.queue@[a].seq);
                    assert(self.published@[sub.queue@[a].seq as int] == old(self).published@[sub.queue@[a].seq as int]);
                }
            }
        }
        let mut i: usize = 0;
        while i < self.subscribers.len()
            invariant
                self.published@ == old(self).published@.push(response),
                self.next_seq == seq + 1,
                seq == old(self).next_seq,
                self.capacity == old(self).capacity,
                old(self).wf(),
                self.subscribers@.len() == old(self).subscribers@.len(),
                i <= self.subscribers@.len(),
                forall|k: int| 0 <= k < self.subscribers@.len() ==> self.sub_ok(#[trigger] self.subscribers@[k]),
                forall|k: int| i <= k < self.subscribers@.len() ==> #[trigger] self.subscribers@[k] == old(self).subscribers@[k],
                forall|k: int| 0 <= k < i ==> {
                    &&& (#[trigger] self.subscribers@[k]).open == old(self).subscribers@[k].open
                    &&& self.subscribers@[k].last_taken == old(self).subscribers@[k].last_taken
                    &&& seqs_of(self.subscribers@[k].queue@) == (if !old(self).subscribers@[k].open || old(self).capacity == 0 {
                        seqs_of(old(self).subscribers@[k].queue@)
                    } else if old(self).subscribers@[k].queue@.len() < old(self).capacity {
                        seqs_of(old(self).subscribers@[k].queue@).push(seq)
                    } else {
                        seqs_of(old(self).subscribers@[k].queue@).drop_first().push(seq)
                    })
                },
            decreases self.subscribers@.len() - i,
        {
            assert(old(self).sub_ok(old(self).subscribers@[i as int]));
            if self.subscribers[i].open && self.capacity > 0 {
                let mut sub = self.subscribers.remove(i);
                let ghost q0 = sub.queue@;
                if sub.queue.len() >= self.capacity {
                    sub.queue.remove(0);
                }
                let ghost q1 = sub.queue@;
                let copy = response.clone();
                sub.queue.push(Delivery { seq, response: copy });
                proof {
                    assert(seqs_of(q1) =~= (if q0.len() < self.capacity { seqs_of(q0) } else { seqs_of(q0).drop_first() }));
                    assert(seqs_of(sub.queue@) =~= seqs_of(q1).push(seq));
                    assert forall|a: int| 0 <= a < sub.queue@.len() implies cloned(
                        self.published@[sub.queue@[a].seq as int],
                        #[trigger] sub.queue@[a].response,
                    ) by {
                        if a < q1.len() {
                            let b = if q0.len() < self.capacity { a } else { a + 1 };
                            assert(q1[a] == q0[b]);
                            assert(sub.queue@[a] == q0[b]);
                            assert(cloned(old(self).published@[q0[b].seq as int], q0[b].response));
                        } else {
                            assert(sub.queue@[a].response == copy);
                        }
                    }
                    assert(self.sub_ok(sub)) by {
                        let s = seqs_of(sub.queue@);
                        assert forall|a: int, b: int| 0 <= a < b < s.len() implies s[a] < s[b] by {
                            if b == s.len() - 1 {
                                let aa = if q0.len() < self.capacity { a } else { a + 1 };
                                assert(s[a] == seqs_of(q0)[aa]);
                            } else {
                                let aa = if q0.len() < self.capacity { a } else { a + 1 };
                                let bb = if q0.len() < self.capacity { b } else { b + 1 };
                                assert(s[a] == seqs_of(q0)[aa]);
                                assert(s[b] == seqs_of(q0)[bb]);
                            }
                        }
                        assert forall|a: int| 0 <= a < s.len() implies s[a] < self.next_seq && (sub.last_taken matches Some(f) ==> f < s[a]) by {
                            if a < s.len() - 1 {
                                let aa = if q0.len() < self.capacity { a } else { a + 1 };
                                assert(s[a] == seqs_of(q0)[aa]);
                            }
                        }
                    }
                }
                self.subscribers.insert(i, sub);
            }
            i = i + 1;
        }
        seq
    }

    /// Takes the oldest response that subscriber `id` has not taken yet.
    pub fn receive(&mut self, id: usize) -> (r: Option<Delivery<R>>)
        requires
            old(self).wf(),
            id < old(self).subscriber_count(),
        ensures
            final(self).wf(),
            final(self).published() == old(self).published(),
            final(self).subscriber_count() == old(self).subscriber_count(),
            forall|j: usize| j < old(self).subscriber_count() && j != id ==> final(self).is_open(j) == old(self).is_open(j)
                && final(self).pending(j) == old(self).pending(j) && final(self).last_taken(j) == old(self).last_taken(j),
            final(self).is_open(id) == old(self).is_open(id),
            match r {
                Some(d) => {
                    &&& old(self).pending(id).len() > 0
                    &&& d.seq == old(self).pending(id)[0]
                    &&& final(self).pending(id) == old(self).pending(id).drop_first()
                    &&& final(self).last_taken(id) == Some(d.seq)
                    &&& (old(self).last_taken(id) matches Some(l) ==> l < d.seq)
                    &&& d.seq < old(self).published().len()
                    &&& cloned(old(self).published()[d.seq as int], d.response)
                },
                None => {
                    &&& old(self).pending(id).len() == 0
                    &&& final(self).pending(id) == old(self).pending(id)
                    &&& final(self).last_taken(id) == old(self).last_taken(id)
                },
            },
    {
        if self.subscribers[id].queue.len() == 0 {
            return None;
        }
        let mut sub = self.subscribers.remove(id);
        assert(self.sub_ok(sub)) by {
            assert(sub == old(self).subscribers@[id as int]);
        }
        let ghost q0 = sub.queue@;
        let d = sub.queue.remove(0);
        sub.last_taken = Some(d.seq);
        proof {
            assert(seqs_of(sub.queue@) =~= seqs_of(q0).drop_first());
            assert(seqs_of(q0)[0] == d.seq);
            let s = seqs_of(sub.queue@);
            assert forall|a: int, b: int| 0 <= a < b < s.len() implies s[a] < s[b] by {
                assert(s[a] == seqs_of(q0)[a + 1] && s[b] == seqs_of(q0)[b + 1]);
            }
            assert forall|a: int| 0 <= a < s.len() implies s[a] < self.next_seq && d.seq < s[a] by {
                assert(s[a] == seqs_of(q0)[a + 1]);
            }
            assert forall|a: int| 0 <= a < sub.queue@.len() implies cloned(
                self.published@[sub.queue@[a].seq as int],
                #[trigger] sub.queue@[a].response,
            ) by {
                assert(sub.queue@[a] == q0[a + 1]);
            }
            assert(cloned(self.published@[q0[0].seq as int], q0[0].response));
        }
        self.subscribers.insert(id, sub);
        proof {
            assert forall|i: int| 0 <= i < self.subscribers@.len() implies self.sub_ok(#[trigger] self.subscribers@[i]) by {
                if i != id {
                    assert(self.subscribers@[i] == old(self).subscribers@[i]);
                }
            }
        }
        Some(d)
    }

    /// A subscriber's buffer is in order of publication and lies past the
    /// last number it took; with `receive` handing out the front of the
    /// buffer and raising that mark, a subscriber takes responses in the
    /// order they were published, possibly with gaps.
    pub proof fn lemma_pending_in_order(&self, id: usize)
        requires
            self.wf(),
            id < self.subscriber_count(),
        ensures
            ordered_between(self.pending(id), self.last_taken(id), self.published().len() as u64),
    {
        assert(self.sub_ok(self.subscribers@[id as int]));
    }

    /// Closes subscriber `id`: it drops what it holds and gets nothing more.
    pub fn unsubscribe(&mut self, id: usize)
        requires
            old(self).wf(),
            id < old(self).subscriber_count(),
        ensures
            final(self).wf(),
            final(self).published() == old(self).published(),
            final(self).subscriber_count() == old(self).subscriber_count(),
            !final(self).is_open(id),
            final(self).pending(id) == Seq::<u64>::empty(),
            final(self).last_taken(id) == old(self).last_taken(id),
            forall|j: usize| j < old(self).subscriber_count() && j != id ==> final(self).is_open(j) == old(self).is_open(j)
                && final(self).pending(j) == old(self).pending(j) && final(self).last_taken(j) == old(self).last_taken(j),
    {
        let mut sub = self.subscribers.remove(id);
        assert(self.sub_ok(sub)) by {
            assert(sub == old(self).subscribers@[id as int]);
        }
        sub.open = false;
        sub.queue = Vec::new();
        proof {
            assert(seqs_of(sub.queue@) =~= Seq::<u64>::empty());
        }
        self.subscribers.insert(id, sub);
        proof {
            assert forall|i: int| 0 <= i < self.subscribers@.len() implies self.sub_ok(#[trigger] self.subscribers@[i]) by {
                if i != id {
                    assert(self.subscribers@[i] == old(self).subscribers@[i]);
                }
            }
        }
    }
}

} // verus!
