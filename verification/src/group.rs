//! A bounded, multi-subscriber broadcast log for one chat group.
//!
//! A [`Group`] owns a monotonically increasing sequence counter and a ring
//! buffer holding the most recently posted messages, up to a capacity fixed at
//! construction. Any number of independent [`Subscription`]s read the log at
//! their own pace through a cursor; a reader that falls behind the retained
//! window is told exactly how many messages it missed and is resynchronized to
//! the oldest message still available, rather than being disconnected.

use std::sync::Arc;
use vstd::arithmetic::div_mod::{lemma_mod_division_less_than_divisor, lemma_mod_equivalence, lemma_small_mod};
use vstd::prelude::*;

verus! {

/// Retained-history capacity of groups made by `Group::new`.
pub const GROUP_CAPACITY: usize = 1000;

/// The result of one polling step of a subscription.
pub enum PollOutcome {
    /// The next message of the group, in posting order.
    Delivered(Arc<String>),
    /// The subscriber fell behind and the given number of messages were
    /// dropped; its cursor has been moved up to the oldest retained message.
    Lagged(u64),
    /// No message is available yet; the caller should wait for a post.
    Pending,
    /// The group was closed and the subscriber has read everything retained.
    Closed,
}

/// Abstract state of a [`Group`]: the full sequence of messages ever posted,
/// of which only the last `capacity` are retained.
pub struct GroupView {
    pub name: Seq<char>,
    pub history: Seq<Seq<char>>,
    pub capacity: nat,
    pub closed: bool,
}

impl GroupView {
    /// Sequence number of the next message to be posted; equivalently, how
    /// many messages have been posted so far.
    pub open spec fn next_seq(self) -> nat {
        self.history.len()
    }

    /// Sequence number of the oldest message still retained in the ring.
    pub open spec fn first_retained(self) -> nat {
        if self.history.len() <= self.capacity {
            0
        } else {
            (self.history.len() - self.capacity) as nat
        }
    }

    /// The messages still retained, oldest first.
    pub open spec fn retained(self) -> Seq<Seq<char>> {
        self.history.subrange(self.first_retained() as int, self.history.len() as int)
    }
}

/// Abstract state of a [`Subscription`]: its read cursor, the sequence number
/// at which it joined, and the sequence numbers it has received so far, in
/// delivery order.
pub struct SubscriptionView {
    pub cursor: nat,
    pub joined_at: nat,
    pub delivered: Seq<int>,
}

impl SubscriptionView {
    /// A subscription is well formed with respect to its group when its cursor
    /// lies between its join point and the end of the log, and everything it
    /// has received was posted at or after its join point, in strictly
    /// increasing sequence order, before its cursor.
    pub open spec fn wf(self, g: GroupView) -> bool {
        &&& self.joined_at <= self.cursor <= g.history.len()
        &&& forall|i: int|
            0 <= i < self.delivered.len() ==> self.joined_at <= #[trigger] self.delivered[i]
                < self.cursor
        &&& forall|i: int, j: int|
            0 <= i < j < self.delivered.len() ==> #[trigger] self.delivered[i]
                < #[trigger] self.delivered[j]
    }

    /// The messages this subscription has received, in delivery order.
    pub open spec fn received(self, g: GroupView) -> Seq<Seq<char>> {
        self.delivered.map(|_i: int, s: int| g.history[s])
    }
}

/// A reader's position in one group's message sequence. Created by
/// [`Group::subscribe`]; advanced by [`Group::poll`].
pub struct Subscription {
    cursor: u64,
    joined_at: Ghost<nat>,
    delivered: Ghost<Seq<int>>,
}

impl View for Subscription {
    type V = SubscriptionView;

    closed spec fn view(&self) -> SubscriptionView {
        SubscriptionView {
            cursor: self.cursor as nat,
            joined_at: self.joined_at@,
            delivered: self.delivered@,
        }
    }
}

impl Subscription {
    /// The sequence number of the next message this subscription expects.
    pub fn cursor(&self) -> (c: u64)
        ensures
            c as nat == self@.cursor,
    {
        self.cursor
    }
}

/// A named broadcast channel with bounded retained history.
pub struct Group {
    name: Arc<String>,
    ring: Vec<Arc<String>>,
    next_seq: u64,
    capacity: usize,
    closed: bool,
    history: Ghost<Seq<Seq<char>>>,
}

impl View for Group {
    type V = GroupView;

    closed spec fn view(&self) -> GroupView {
        GroupView {
            name: self.name@,
            history: self.history@,
            capacity: self.capacity as nat,
            closed: self.closed,
        }
    }
}

impl Group {
    /// Representation invariant: the ring holds exactly the retained suffix of
    /// the history, each message in the slot given by its sequence number
    /// modulo the capacity.
    pub closed spec fn wf(&self) -> bool {
        &&& 0 < self.capacity
        &&& self.history@.len() == self.next_seq as nat
        &&& self.ring@.len() == if self.history@.len() <= self.capacity as nat {
            self.history@.len()
        } else {
            self.capacity as nat
        }
        &&& forall|i: int|
            self@.first_retained() <= i < self.history@.len() ==> self.ring@[i % (
            self.capacity as int)]@ == #[trigger] self.history@[i]
    }

    /// Create a group with the default retained-history capacity.
    pub fn new(name: Arc<String>) -> (g: Group)
        ensures
            g.wf(),
            g@.name == name@,
            g@.history == Seq::<Seq<char>>::empty(),
            g@.capacity == GROUP_CAPACITY as nat,
            !g@.closed,
    {
        Group::with_capacity(name, GROUP_CAPACITY)
    }

    /// Create a group retaining at most `capacity` messages.
    pub fn with_capacity(name: Arc<String>, capacity: usize) -> (g: Group)
        requires
            0 < capacity,
        ensures
            g.wf(),
            g@.name == name@,
            g@.history == Seq::<Seq<char>>::empty(),
            g@.capacity == capacity as nat,
            !g@.closed,
    {
        Group {
            name,
            ring: Vec::new(),
            next_seq: 0,
            capacity,
            closed: false,
            history: Ghost(Seq::empty()),
        }
    }

    /// The sequence number the next post will receive; how many messages
    /// have ever been posted.
    pub fn next_seq(&self) -> (c: u64)
        requires
            self.wf(),
        ensures
            c as nat == self@.next_seq(),
    {
        self.next_seq
    }

    /// The group's name.
    pub fn name(&self) -> (n: &Arc<String>)
        ensures
            n@ == self@.name,
    {
        &self.name
    }

    /// Append a message to the log, evicting the oldest retained message if
    /// the ring is full. Posting never fails, whether or not anyone is
    /// subscribed, and retains at most `capacity` messages.
    pub fn post(&mut self, message: Arc<String>)
        requires
            old(self).wf(),
            old(self)@.history.len() < u64::MAX,
        ensures
            final(self).wf(),
            final(self)@.history == old(self)@.history.push(message@),
            final(self)@.name == old(self)@.name,
            final(self)@.capacity == old(self)@.capacity,
            final(self)@.closed == old(self)@.closed,
    {
        let ghost message_text = message@;
        if self.ring.len() < self.capacity {
            // While the ring is not yet full, the slot for the next sequence
            // number is exactly the current length.
            proof {
                lemma_small_mod(self.next_seq as nat, self.capacity as nat);
            }
            self.ring.push(message);
        } else {
            let slot = (self.next_seq % (self.capacity as u64)) as usize;
            self.ring.set(slot, message);
        }
        self.next_seq = self.next_seq + 1;
        proof {
            self.history@ = self.history@.push(message_text);
        }
        proof {
            let cap = self.capacity as int;
            let last = self.history@.len() - 1;
            assert forall|i: int| self@.first_retained() <= i < self.history@.len() implies self.ring@[i
                % cap]@ == #[trigger] self.history@[i] by {
                lemma_mod_division_less_than_divisor(i, cap);
                if old(self)@.history.len() < old(self)@.capacity {
                    // The ring grew by one; every retained sequence number is
                    // below the capacity, so each message sits at its own
                    // sequence number.
                    lemma_small_mod(i as nat, cap as nat);
                } else {
                    // The ring is full: the new message took the slot of the
                    // evicted one; the slots of the older retained messages
                    // differ from it, because any two sequence numbers of the
                    // window are less than one capacity apart.
                    lemma_small_mod(last as nat % cap as nat, cap as nat);
                    if i < last && i % cap == last % cap {
                        lemma_mod_equivalence(last, i, cap);
                        lemma_small_mod((last - i) as nat, cap as nat);
                        assert(false);
                    }
                }
            }
        }
    }

    /// Close the group. Subscribers can still drain the retained messages;
    /// once they catch up they observe `PollOutcome::Closed`.
    pub fn close(&mut self)
        requires
            old(self).wf(),
        ensures
            final(self).wf(),
            final(self)@ == (GroupView { closed: true, ..old(self)@ }),
    {
        self.closed = true;
    }

    /// Start a new subscription. Its cursor is the current end of the log, so
    /// the subscriber sees only messages posted after it joined.
    pub fn subscribe(&self) -> (s: Subscription)
        requires
            self.wf(),
        ensures
            s@.wf(self@),
            s@.cursor == self@.next_seq(),
            s@.joined_at == self@.next_seq(),
            s@.delivered == Seq::<int>::empty(),
    {
        Subscription {
            cursor: self.next_seq,
            joined_at: Ghost(self.next_seq as nat),
            delivered: Ghost(Seq::empty()),
        }
    }

    /// One polling step of a subscription against this group:
    /// - a cursor behind the retained window reports how far it lagged and is
    ///   moved up to the oldest retained message;
    /// - a cursor strictly inside the log delivers the message it points at
    ///   and advances by one;
    /// - a cursor at the end of the log reports `Pending`, or `Closed` once
    ///   the group has been closed.
    pub fn poll(&self, sub: &mut Subscription) -> (r: PollOutcome)
        requires
            self.wf(),
            old(sub)@.wf(self@),
        ensures
            final(sub)@.wf(self@),
            final(sub)@.joined_at == old(sub)@.joined_at,
            final(sub)@.cursor >= old(sub)@.cursor,
            match r {
                PollOutcome::Delivered(m) => {
                    &&& self@.first_retained() <= old(sub)@.cursor < self@.next_seq()
                    &&& m@ == self@.history[old(sub)@.cursor as int]
                    &&& final(sub)@.cursor == old(sub)@.cursor + 1
                    &&& final(sub)@.delivered == old(sub)@.delivered.push(old(sub)@.cursor as int)
                },
                PollOutcome::Lagged(n) => {
                    &&& old(sub)@.cursor < self@.first_retained()
                    &&& n as nat == self@.first_retained() - old(sub)@.cursor
                    &&& final(sub)@.cursor == self@.first_retained()
                    &&& final(sub)@.delivered == old(sub)@.delivered
                },
                PollOutcome::Pending => {
                    &&& old(sub)@.cursor == self@.next_seq()
                    &&& !self@.closed
                    &&& final(sub)@ == old(sub)@
                },
                PollOutcome::Closed => {
                    &&& old(sub)@.cursor == self@.next_seq()
                    &&& self@.closed
                    &&& final(sub)@ == old(sub)@
                },
            },
    {
        let first_retained = self.next_seq - (self.ring.len() as u64);
        if sub.cursor < first_retained {
            let missed = first_retained - sub.cursor;
            sub.cursor = first_retained;
            proof {
                let d = sub.delivered@;
                assert forall|i: int| 0 <= i < d.len() implies sub@.joined_at <= #[trigger] d[i]
                    < sub@.cursor by {
                    assert(old(sub)@.joined_at <= old(sub)@.delivered[i] < old(sub)@.cursor);
                }
                assert forall|i: int, j: int| 0 <= i < j < d.len() implies #[trigger] d[i]
                    < #[trigger] d[j] by {
                    assert(old(sub)@.delivered[i] < old(sub)@.delivered[j]);
                }
            }
            PollOutcome::Lagged(missed)
        } else if sub.cursor == self.next_seq {
            if self.closed {
                PollOutcome::Closed
            } else {
                PollOutcome::Pending
            }
        } else {
            proof {
                lemma_mod_division_less_than_divisor(sub.cursor as int, self.capacity as int);
                if self@.history.len() <= self@.capacity {
                    lemma_small_mod(sub.cursor as nat, self.capacity as nat);
                }
            }
            let slot = (sub.cursor % (self.capacity as u64)) as usize;
            let message = self.ring[slot].clone();
            proof {
                sub.delivered@ = sub.delivered@.push(sub.cursor as int);
            }
            sub.cursor = sub.cursor + 1;
            proof {
                let prior = old(sub)@.delivered;
                let now = sub.delivered@;
                assert forall|i: int| 0 <= i < now.len() implies sub@.joined_at <= #[trigger] now[i]
                    < sub@.cursor by {
                    if i < prior.len() {
                        assert(now[i] == prior[i]);
                    } else {
                        assert(now[i] == old(sub)@.cursor as int);
                    }
                }
                assert forall|i: int, j: int| 0 <= i < j < now.len() implies #[trigger] now[i]
                    < #[trigger] now[j] by {
                    if j < prior.len() {
                        assert(now[i] == prior[i] && now[j] == prior[j]);
                    } else {
                        assert(now[j] == old(sub)@.cursor as int);
                        assert(now[i] == prior[i]);
                    }
                }
            }
            PollOutcome::Delivered(message)
        }
    }
}

/// Join-then-see-future-only: everything a subscription has received was
/// posted at or after the point where it joined, and is exactly the message
/// the group's history holds at that sequence number — nothing retroactive.
pub proof fn lemma_join_then_see_future_only(g: GroupView, s: SubscriptionView, k: int)
    requires
        s.wf(g),
        0 <= k < s.delivered.len(),
    ensures
        s.joined_at <= s.delivered[k],
        s.received(g)[k] == g.history[s.delivered[k]],
{
}

/// Total order per group: two subscriptions of one group observe their common
/// messages in the same order — the global posting order. If subscription `a`
/// receives two messages at delivery positions `i` before `j`, then wherever
/// subscription `b` received those same posts, `b` received them in that
/// order too, and both read the same message texts from the group's history.
pub proof fn lemma_total_order_per_group(
    g: GroupView,
    a: SubscriptionView,
    b: SubscriptionView,
    i: int,
    j: int,
    p: int,
    q: int,
)
    requires
        a.wf(g),
        b.wf(g),
        0 <= i < j < a.delivered.len(),
        0 <= p < b.delivered.len(),
        0 <= q < b.delivered.len(),
        b.delivered[p] == a.delivered[i],
        b.delivered[q] == a.delivered[j],
    ensures
        p < q,
        b.received(g)[p] == a.received(g)[i],
        b.received(g)[q] == a.received(g)[j],
{
    if p > q {
        assert(b.delivered[q] < b.delivered[p]);
    }
}

/// Lag correctness: a subscriber that stopped polling while more than one
/// capacity's worth of messages went by has missed exactly the messages that
/// were posted past its cursor and then evicted; after resynchronization it
/// resumes at the oldest message still retained.
pub proof fn lemma_lag_correctness(g: GroupView, s: SubscriptionView)
    requires
        0 < g.capacity,
        s.wf(g),
        s.cursor + g.capacity < g.history.len(),
    ensures
        s.cursor < g.first_retained(),
        g.first_retained() - s.cursor == g.history.len() - g.capacity - s.cursor,
        g.retained().len() > 0,
        g.retained()[0] == g.history[g.first_retained() as int],
{
}

/// Bounded retention: whatever is posted, and whether or not anyone
/// subscribes, a group retains at most `capacity` messages — the most recent
/// suffix of its history.
pub proof fn lemma_retention_bounded(g: GroupView)
    ensures
        g.retained().len() <= g.capacity,
        g.retained() == g.history.skip(g.first_retained() as int),
{
    assert(g.retained() =~= g.history.skip(g.first_retained() as int));
}

} // verus!
