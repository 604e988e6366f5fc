//! The authorizing façade: every inbound action carries a bearer token,
//! and a token the registry does not know is rejected with no side effects
//! at all — no counter mutation, no log row, no broadcast, no
//! subscription.

use vstd::prelude::*;

use crate::database::{Database, MAX_LOG_LEN};
use crate::hub::{deliver, Hub, Msg};
use crate::registry::token_taken;
use crate::types::{EtatFile, HistoryItem};

verus! {

/// The whole engine: the durable state and the broadcast hub. The two
/// live in independent synchronization domains; only the gateway drives
/// them together.
pub struct Engine {
    pub db: Database,
    pub hub: Hub,
}

/// What one authorized ticket call leaves behind, given the state before
/// it and the desk that called: counter advanced, desk remembered, the
/// matching row appended, and the new state fanned out to every
/// subscriber's queue.
pub open spec fn next_effect(before: Engine, after: Engine, desk: String, now: u64) -> bool {
    let numero = (before.db.counter + 1) as i32;
    let row = (HistoryItem {
        id: (before.db.history@.len() + 1) as i32,
        ticket_number: numero,
        desk_name: desk,
        created_at: now,
    });
    let msg = (Msg::Ticket { guichet: desk, compteur: numero });
    &&& after.db.counter == before.db.counter + 1
    &&& after.db.last_desk == desk
    &&& after.db.history@ == before.db.history@.push(row)
    &&& after.db.devices == before.db.devices
    &&& after.db.annonces == before.db.annonces
    &&& after.hub.subs@.len() == before.hub.subs@.len()
    &&& after.hub.next_sub == before.hub.next_sub
    &&& after.hub.cap == before.hub.cap
    &&& forall|j: int|
        0 <= j < before.hub.subs@.len() ==> (#[trigger] after.hub.subs@[j]).id
            == before.hub.subs@[j].id && after.hub.subs@[j].queue@ == deliver(
            before.hub.subs@[j].queue@,
            msg,
            before.hub.cap as int,
        )
}

impl Engine {
    /// Both halves well formed.
    pub open spec fn wf(self) -> bool {
        self.db.wf() && self.hub.wf()
    }

    /// A fresh engine: seeded state, no subscribers.
    pub fn new(capacity: usize) -> (r: Engine)
        requires
            1 <= capacity,
        ensures
            r.wf(),
            r.db.counter == 0,
            r.db.history@ == Seq::<HistoryItem>::empty(),
            r.db.devices@.len() == 0,
            r.db.annonces@.len() == 0,
            r.hub.subs@.len() == 0,
            r.hub.cap == capacity,
            r.hub.next_sub == 0,
    {
        Engine { db: Database::init(), hub: Hub::new(capacity) }
    }

    /// One authenticated "call next" action. A known token advances the
    /// counter, appends the history row and fans the new state out to every
    /// subscriber, then returns it; an unknown token is rejected with no
    /// side effects.
    pub fn handle_next(&mut self, token: &str, now: u64) -> (r: Option<EtatFile>)
        requires
            old(self).wf(),
            token_taken(old(self).db.devices@, token@) ==> old(self).db.history@.len()
                < MAX_LOG_LEN,
        ensures
            final(self).wf(),
            !token_taken(old(self).db.devices@, token@) ==> r is None && *final(self)
                == *old(self),
            token_taken(old(self).db.devices@, token@) ==> exists|i: int|
                0 <= i < old(self).db.devices@.len()
                    && (#[trigger] old(self).db.devices@[i]).token@ == token@
                    && r == Some(
                    (EtatFile {
                        compteur: (old(self).db.counter + 1) as i32,
                        guichet: old(self).db.devices@[i].name,
                    }),
                ) && next_effect(*old(self), *final(self), old(self).db.devices@[i].name, now),
    {
        match self.db.get_device_info(token) {
            None => None,
            Some((_id, name)) => {
                let etat = self.db.call_next(name, now);
                let msg = Msg::Ticket { guichet: etat.guichet.clone(), compteur: etat.compteur };
                self.hub.publish(msg);
                Some(etat)
            },
        }
    }

    /// One authenticated subscription request. A known token registers a
    /// new subscriber, whose stream starts with the acknowledgement; an
    /// unknown token is rejected before anything is registered.
    pub fn handle_subscribe(&mut self, token: &str) -> (r: Option<u64>)
        requires
            old(self).wf(),
            token_taken(old(self).db.devices@, token@) ==> old(self).hub.next_sub
                < 0xffff_ffff_ffff_ffff,
        ensures
            final(self).wf(),
            !token_taken(old(self).db.devices@, token@) ==> r is None && *final(self)
                == *old(self),
            token_taken(old(self).db.devices@, token@) ==> {
                &&& r == Some(old(self).hub.next_sub)
                &&& final(self).db == old(self).db
                &&& final(self).hub.next_sub == old(self).hub.next_sub + 1
                &&& final(self).hub.cap == old(self).hub.cap
                &&& final(self).hub.subs@.len() == old(self).hub.subs@.len() + 1
                &&& forall|i: int|
                    0 <= i < old(self).hub.subs@.len() ==> #[trigger] final(self).hub.subs@[i]
                        == old(self).hub.subs@[i]
                &&& final(self).hub.subs@.last().id == old(self).hub.next_sub
                &&& final(self).hub.subs@.last().queue@ == seq![Msg::Connected]
            },
    {
        match self.db.get_device_info(token) {
            None => None,
            Some(_) => Some(self.hub.subscribe()),
        }
    }
}

} // verus!
