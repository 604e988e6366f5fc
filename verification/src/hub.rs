//! The broadcast hub: an in-memory registry of subscriber queues keyed by
//! an opaque subscription id. A publish fans out to every queue currently
//! registered without ever blocking on a slow subscriber: a full queue
//! drops its oldest entry instead. A subscriber sees the acknowledgement
//! first, then every event published while it stays registered, and never
//! one from before it subscribed.

use vstd::prelude::*;

use crate::util::slot_at;

verus! {

/// What the hub carries to the screens: the connection acknowledgement,
/// the periodic heartbeat, or one ticket call.
#[derive(Debug, Clone, PartialEq)]
pub enum Msg {
    Connected,
    Ping,
    Ticket { guichet: String, compteur: i32 },
}

impl Msg {
    /// A fresh copy of the message, equal to the original.
    pub fn duplicate(&self) -> (r: Msg)
        ensures
            r == *self,
    {
        match self {
            Msg::Connected => Msg::Connected,
            Msg::Ping => Msg::Ping,
            Msg::Ticket { guichet, compteur } => Msg::Ticket {
                guichet: guichet.clone(),
                compteur: *compteur,
            },
        }
    }
}

/// One registered subscriber: its id and the messages it has not yet
/// consumed, oldest first.
#[derive(Debug)]
pub struct Subscriber {
    pub id: u64,
    pub queue: Vec<Msg>,
}

/// The process-wide publish point.
pub struct Hub {
    pub subs: Vec<Subscriber>,
    pub next_sub: u64,
    pub cap: usize,
}

/// What one publish does to one subscriber's queue: the message is
/// appended, and a queue already at capacity loses its oldest entry — the
/// publisher is never slowed or blocked.
pub open spec fn deliver(q: Seq<Msg>, m: Msg, cap: int) -> Seq<Msg> {
    if q.len() < cap {
        q.push(m)
    } else {
        q.skip(1).push(m)
    }
}

/// How many copies of `m` a queue holds.
pub open spec fn msg_count(q: Seq<Msg>, m: Msg) -> nat
    decreases q.len(),
{
    if q.len() == 0 {
        0
    } else {
        msg_count(q.drop_last(), m) + if q.last() == m {
            1nat
        } else {
            0nat
        }
    }
}

impl Hub {
    /// A well-formed hub: a positive capacity, no queue beyond it, and
    /// subscription ids handed out uniquely below `next_sub`.
    pub open spec fn wf(self) -> bool {
        &&& 1 <= self.cap
        &&& forall|i: int|
            0 <= i < self.subs.len() ==> (#[trigger] self.subs@[i]).queue@.len() <= self.cap
                && self.subs@[i].id < self.next_sub
        &&& forall|i: int, j: int|
            #![trigger self.subs@[i], self.subs@[j]]
            0 <= i < j < self.subs.len() ==> self.subs@[i].id != self.subs@[j].id
    }

    /// An empty hub whose subscriber queues will hold at most `capacity`
    /// pending messages each.
    pub fn new(capacity: usize) -> (r: Hub)
        requires
            1 <= capacity,
        ensures
            r.wf(),
            r.subs@ == Seq::<Subscriber>::empty(),
            r.cap == capacity,
            r.next_sub == 0,
    {
        Hub { subs: Vec::new(), next_sub: 0, cap: capacity }
    }

    /// Register a new subscriber. Its queue starts with the synthetic
    /// acknowledgement alone: nothing published earlier is replayed.
    pub fn subscribe(&mut self) -> (sid: u64)
        requires
            old(self).wf(),
            old(self).next_sub < 0xffff_ffff_ffff_ffff,
        ensures
            final(self).wf(),
            sid == old(self).next_sub,
            final(self).next_sub == old(self).next_sub + 1,
            final(self).cap == old(self).cap,
            final(self).subs@.len() == old(self).subs@.len() + 1,
            forall|i: int|
                0 <= i < old(self).subs@.len() ==> final(self).subs@[i] == old(self).subs@[i],
            final(self).subs@.last().id == sid,
            final(self).subs@.last().queue@ == seq![Msg::Connected],
    {
        let sid = self.next_sub;
        let mut queue: Vec<Msg> = Vec::new();
        queue.push(Msg::Connected);
        self.subs.push(Subscriber { id: sid, queue });
        self.next_sub = self.next_sub + 1;
        proof {
            assert(self.subs@.last().queue@ =~= seq![Msg::Connected]);
        }
        sid
    }

    /// Fan one message out to every registered subscriber, at most once
    /// each; queues already at capacity drop their oldest entry instead of
    /// slowing the publisher.
    pub fn publish(&mut self, m: Msg)
        requires
            old(self).wf(),
        ensures
            final(self).wf(),
            final(self).next_sub == old(self).next_sub,
            final(self).cap == old(self).cap,
            final(self).subs@.len() == old(self).subs@.len(),
            forall|i: int|
                0 <= i < old(self).subs@.len() ==> (#[trigger] final(self).subs@[i]).id == old(
                    self,
                ).subs@[i].id && final(self).subs@[i].queue@ == deliver(
                    old(self).subs@[i].queue@,
                    m,
                    old(self).cap as int,
                ),
    {
        let cap = self.cap;
        let mut i: usize = 0;
        while i < self.subs.len()
            invariant
                old(self).wf(),
                cap == old(self).cap,
                self.cap == old(self).cap,
                self.next_sub == old(self).next_sub,
                self.subs@.len() == old(self).subs@.len(),
                i <= self.subs@.len(),
                forall|j: int|
                    0 <= j < i ==> (#[trigger] self.subs@[j]).id == old(self).subs@[j].id
                        && self.subs@[j].queue@ == deliver(
                        old(self).subs@[j].queue@,
                        m,
                        cap as int,
                    ),
                forall|j: int|
                    i <= j < self.subs@.len() ==> #[trigger] self.subs@[j] == old(self).subs@[j],
            decreases self.subs@.len() - i,
        {
            let dm = m.duplicate();
            let s = slot_at(&mut self.subs, i);
            if s.queue.len() == cap {
                let ghost q0 = s.queue@;
                s.queue.remove(0);
                proof {
                    assert(s.queue@ =~= q0.skip(1));
                }
            }
            s.queue.push(dm);
            i = i + 1;
        }
    }

    /// Hand the subscriber with this id its oldest pending message, if it
    /// is registered and has one.
    pub fn recv(&mut self, sid: u64) -> (r: Option<Msg>)
        requires
            old(self).wf(),
        ensures
            final(self).wf(),
            final(self).next_sub == old(self).next_sub,
            final(self).cap == old(self).cap,
            (forall|i: int| 0 <= i < old(self).subs@.len() ==> (#[trigger] old(self).subs@[i]).id
                != sid) ==> r is None && *final(self) == *old(self),
            forall|i: int|
                0 <= i < old(self).subs@.len() && (#[trigger] old(self).subs@[i]).id == sid && old(
                    self,
                ).subs@[i].queue@.len() == 0 ==> r is None && *final(self) == *old(self),
            forall|i: int|
                0 <= i < old(self).subs@.len() && (#[trigger] old(self).subs@[i]).id == sid && old(
                    self,
                ).subs@[i].queue@.len() > 0 ==> {
                    &&& r == Some(old(self).subs@[i].queue@.first())
                    &&& final(self).subs@.len() == old(self).subs@.len()
                    &&& forall|j: int|
                        0 <= j < old(self).subs@.len() && j != i ==> final(self).subs@[j] == old(
                            self,
                        ).subs@[j]
                    &&& final(self).subs@[i].id == sid
                    &&& final(self).subs@[i].queue@ == old(self).subs@[i].queue@.drop_first()
                },
    {
        let mut i: usize = 0;
        while i < self.subs.len()
            invariant
                old(self).wf(),
                *self == *old(self),
                i <= self.subs@.len(),
                forall|j: int| 0 <= j < i ==> (#[trigger] self.subs@[j]).id != sid,
            decreases self.subs@.len() - i,
        {
            if self.subs[i].id == sid {
                if self.subs[i].queue.len() == 0 {
                    return None;
                }
                let s = slot_at(&mut self.subs, i);
                let ghost q0 = s.queue@;
                let msg = s.queue.remove(0);
                proof {
                    assert(s.queue@ =~= q0.drop_first());
                }
                return Some(msg);
            }
            i = i + 1;
        }
        None
    }

    /// Deterministically release a subscription: after this, no publish or
    /// heartbeat references the subscriber again.
    pub fn unsubscribe(&mut self, sid: u64)
        requires
            old(self).wf(),
        ensures
            final(self).wf(),
            final(self).next_sub == old(self).next_sub,
            final(self).cap == old(self).cap,
            (forall|i: int| 0 <= i < old(self).subs@.len() ==> (#[trigger] old(self).subs@[i]).id
                != sid) ==> *final(self) == *old(self),
            forall|i: int|
                0 <= i < old(self).subs@.len() && (#[trigger] old(self).subs@[i]).id == sid
                    ==> final(self).subs@ == old(self).subs@.remove(i),
    {
        let mut i: usize = 0;
        while i < self.subs.len()
            invariant
                old(self).wf(),
                *self == *old(self),
                i <= self.subs@.len(),
                forall|j: int| 0 <= j < i ==> (#[trigger] self.subs@[j]).id != sid,
            decreases self.subs@.len() - i,
        {
            if self.subs[i].id == sid {
                self.subs.remove(i);
                proof {
                    let ss = old(self).subs@;
                    let nss = self.subs@;
                    ss.remove_ensures(i as int);
                    assert forall|p: int, q: int|
                        #![trigger nss[p], nss[q]]
                        0 <= p < q < nss.len() implies nss[p].id != nss[q].id by {
                        let p0: int = if p < i { p } else { p + 1 };
                        let q0: int = if q < i { q } else { q + 1 };
                        assert(ss.remove(i as int)[p] == ss[p0]);
                        assert(ss.remove(i as int)[q] == ss[q0]);
                    }
                    assert forall|p: int|
                        0 <= p < nss.len() implies (#[trigger] nss[p]).queue@.len()
                        <= self.cap && nss[p].id < self.next_sub by {
                        let p0: int = if p < i { p } else { p + 1 };
                        assert(ss.remove(i as int)[p] == ss[p0]);
                    }
                }
                return ;
            }
            i = i + 1;
        }
    }
}

} // verus!
