//! The engine's state: the displayed counter, the append-only history log,
//! the device roster and the announcements, with the operations that mutate
//! them atomically.

use vstd::prelude::*;

use crate::annonces::{
    annonces_loadable, annonces_wf, lemma_max_annonce_id_bounds, max_annonce_id,
};
use crate::log::{
    close_outcome, current_number, ids_are_positions, last_event_for, lemma_ids_after_push,
    lemma_session_tickets_len, session_tickets,
};
use crate::registry::{lemma_max_device_id_bounds, max_device_id, registry_wf, roster_loadable};
use crate::types::{Annonce, CloseStatus, Device, EtatFile, HistoryItem};
use crate::util::str_eq;

verus! {

/// A log may not grow past this many rows, so that the next row id still
/// fits in an `i32`.
pub const MAX_LOG_LEN: usize = 0x7fff_fffe;

/// The whole persistent state of the engine, held consistent as one unit:
/// no reader may see a counter value without its history row, or a reset
/// marker without the zeroed counter.
pub struct Database {
    pub counter: i32,
    pub last_desk: String,
    pub history: Vec<HistoryItem>,
    pub devices: Vec<Device>,
    pub annonces: Vec<Annonce>,
    pub next_device_id: i32,
    pub next_annonce_id: i32,
}

impl Database {
    /// The state invariant every operation preserves: the counter always
    /// equals both the number of the most recent ticket since the last
    /// reset and the count of tickets called since that reset; history row
    /// ids are the append positions; rosters are well formed.
    pub open spec fn wf(self) -> bool {
        &&& self.counter == current_number(self.history@)
        &&& self.counter == session_tickets(self.history@).len()
        &&& self.history@.len() <= MAX_LOG_LEN
        &&& ids_are_positions(self.history@)
        &&& registry_wf(self.devices@, self.next_device_id as int)
        &&& annonces_wf(self.annonces@, self.next_annonce_id as int)
    }

    /// The freshly seeded state: counter 0, no desk called yet, empty log
    /// and rosters.
    pub fn init() -> (r: Database)
        ensures
            r.wf(),
            r.counter == 0,
            r.last_desk@ == "None"@,
            r.history@ == Seq::<HistoryItem>::empty(),
            r.devices@ == Seq::<Device>::empty(),
            r.annonces@ == Seq::<Annonce>::empty(),
    {
        Database {
            counter: 0,
            last_desk: "None".to_owned(),
            history: Vec::new(),
            devices: Vec::new(),
            annonces: Vec::new(),
            next_device_id: 1,
            next_annonce_id: 1,
        }
    }

    /// A read-only snapshot of what the displays show.
    pub fn get_current(&self) -> (r: EtatFile)
        ensures
            r.compteur == self.counter,
            r.guichet == self.last_desk,
    {
        EtatFile { compteur: self.counter, guichet: self.last_desk.clone() }
    }

    /// One ticket call: increment the counter, remember the calling desk,
    /// and append the matching history row, as one atomic unit. Returns the
    /// new displayed state.
    pub fn call_next(&mut self, desk_name: String, now: u64) -> (r: EtatFile)
        requires
            old(self).wf(),
            old(self).history@.len() < MAX_LOG_LEN,
        ensures
            final(self).wf(),
            final(self).counter == old(self).counter + 1,
            final(self).last_desk == desk_name,
            final(self).history@ == old(self).history@.push(
                (HistoryItem {
                    id: (old(self).history@.len() + 1) as i32,
                    ticket_number: (old(self).counter + 1) as i32,
                    desk_name: desk_name,
                    created_at: now,
                }),
            ),
            final(self).devices == old(self).devices,
            final(self).annonces == old(self).annonces,
            final(self).next_device_id == old(self).next_device_id,
            final(self).next_annonce_id == old(self).next_annonce_id,
            r.compteur == old(self).counter + 1,
            r.guichet == desk_name,
    {
        proof {
            lemma_session_tickets_len(self.history@);
        }
        self.counter = self.counter + 1;
        self.last_desk = desk_name.clone();
        let id = (self.history.len() + 1) as i32;
        let item = HistoryItem {
            id,
            ticket_number: self.counter,
            desk_name,
            created_at: now,
        };
        self.history.push(item);
        proof {
            assert(self.history@.drop_last() =~= old(self).history@);
            lemma_ids_after_push(old(self).history@, self.history@.last());
        }
        EtatFile { compteur: self.counter, guichet: self.last_desk.clone() }
    }

    /// Start a new session: append a global reset marker and zero the
    /// displayed state, as one atomic unit.
    pub fn reset_all(&mut self, now: u64) -> (r: EtatFile)
        requires
            old(self).wf(),
            old(self).history@.len() < MAX_LOG_LEN,
        ensures
            final(self).wf(),
            final(self).counter == 0,
            final(self).last_desk@ == "Reset"@,
            final(self).history@ == old(self).history@.push(final(self).history@.last()),
            final(self).history@.last().id == old(self).history@.len() + 1,
            final(self).history@.last().ticket_number == -2,
            final(self).history@.last().desk_name@ == "System"@,
            final(self).history@.last().created_at == now,
            final(self).devices == old(self).devices,
            final(self).annonces == old(self).annonces,
            final(self).next_device_id == old(self).next_device_id,
            final(self).next_annonce_id == old(self).next_annonce_id,
            r.compteur == 0,
            r.guichet@ == "Reset"@,
    {
        let id = (self.history.len() + 1) as i32;
        let marker = HistoryItem {
            id,
            ticket_number: -2,
            desk_name: "System".to_owned(),
            created_at: now,
        };
        self.history.push(marker);
        self.counter = 0;
        self.last_desk = "Reset".to_owned();
        proof {
            assert(self.history@.drop_last() =~= old(self).history@);
            lemma_ids_after_push(old(self).history@, self.history@.last());
        }
        EtatFile { compteur: self.counter, guichet: self.last_desk.clone() }
    }

    /// Close a desk: if its most recent event is already a close marker the
    /// call is an idempotent no-op, a desk without history gets no marker
    /// either, and otherwise one close marker is appended.
    pub fn close_desk(&mut self, desk_name: &str, now: u64) -> (r: CloseStatus)
        requires
            old(self).wf(),
            close_outcome(old(self).history@, desk_name@) is Success ==> old(
                self,
            ).history@.len() < MAX_LOG_LEN,
        ensures
            final(self).wf(),
            r == close_outcome(old(self).history@, desk_name@),
            r is Success ==> {
                &&& final(self).history@ == old(self).history@.push(final(self).history@.last())
                &&& final(self).history@.last().id == old(self).history@.len() + 1
                &&& final(self).history@.last().ticket_number == -1
                &&& final(self).history@.last().desk_name@ == desk_name@
                &&& final(self).history@.last().created_at == now
            },
            !(r is Success) ==> final(self).history == old(self).history,
            final(self).counter == old(self).counter,
            final(self).last_desk == old(self).last_desk,
            final(self).devices == old(self).devices,
            final(self).annonces == old(self).annonces,
            final(self).next_device_id == old(self).next_device_id,
            final(self).next_annonce_id == old(self).next_annonce_id,
    {
        match find_last_for(&self.history, desk_name) {
            None => CloseStatus::NoHistory,
            Some(i) => {
                if self.history[i].ticket_number == -1 {
                    CloseStatus::AlreadyClosed
                } else {
                    assert(close_outcome(self.history@, desk_name@) is Success);
                    let id = (self.history.len() + 1) as i32;
                    let marker = HistoryItem {
                        id,
                        ticket_number: -1,
                        desk_name: desk_name.to_owned(),
                        created_at: now,
                    };
                    self.history.push(marker);
                    proof {
                        assert(self.history@.drop_last() =~= old(self).history@);
                        lemma_ids_after_push(old(self).history@, self.history@.last());
                    }
                    CloseStatus::Success
                }
            },
        }
    }

    /// What closing this desk would report right now, without doing it.
    /// Lets a caller persist the marker before applying it in memory.
    pub fn close_desk_outcome(&self, desk_name: &str) -> (r: CloseStatus)
        ensures
            r == close_outcome(self.history@, desk_name@),
    {
        match find_last_for(&self.history, desk_name) {
            None => CloseStatus::NoHistory,
            Some(i) => {
                if self.history[i].ticket_number == -1 {
                    CloseStatus::AlreadyClosed
                } else {
                    CloseStatus::Success
                }
            },
        }
    }
}

/// A stored state the engine can adopt: the log fits and numbers its rows
/// from 1, its derived counter readings agree, and the rosters carry
/// unique ids, names and tokens inside the id space.
pub open spec fn restorable(
    history: Seq<HistoryItem>,
    devices: Seq<Device>,
    annonces: Seq<Annonce>,
) -> bool {
    &&& history.len() <= MAX_LOG_LEN
    &&& ids_are_positions(history)
    &&& current_number(history) == session_tickets(history).len()
    &&& roster_loadable(devices)
    &&& annonces_loadable(annonces)
}

impl Database {
    /// Adopt a state read back from storage. The log is the source of
    /// truth, so the counter is rederived from it; rows that no run of the
    /// engine could have written — misnumbered ids, a log whose two counter
    /// readings disagree, duplicate ids, names or tokens — are rejected as
    /// a whole rather than patched.
    pub fn restore(
        last_desk: String,
        history: Vec<HistoryItem>,
        devices: Vec<Device>,
        annonces: Vec<Annonce>,
    ) -> (r: Option<Database>)
        ensures
            r is Some <==> restorable(history@, devices@, annonces@),
            r matches Some(db) ==> {
                &&& db.wf()
                &&& db.counter == current_number(history@)
                &&& db.last_desk == last_desk
                &&& db.history == history
                &&& db.devices == devices
                &&& db.annonces == annonces
                &&& db.next_device_id == max_device_id(devices@) + 1
                &&& db.next_annonce_id == max_annonce_id(annonces@) + 1
            },
    {
        if history.len() > MAX_LOG_LEN {
            return None;
        }
        let mut current: i32 = 0;
        let mut count: usize = 0;
        let mut i: usize = 0;
        while i < history.len()
            invariant
                i <= history@.len(),
                history@.len() <= MAX_LOG_LEN,
                forall|j: int| 0 <= j < i ==> #[trigger] history@[j].id == j + 1,
                count == session_tickets(history@.take(i as int)).len(),
                current == current_number(history@.take(i as int)),
                0 <= current,
                count <= i,
            decreases history@.len() - i,
        {
            proof {
                assert(history@.take(i + 1).drop_last() =~= history@.take(i as int));
                assert(history@.take(i + 1).last() == history@[i as int]);
            }
            if history[i].id != (i + 1) as i32 {
                return None;
            }
            if history[i].ticket_number >= 0 {
                count = count + 1;
                current = history[i].ticket_number;
            } else if history[i].ticket_number == -2 {
                count = 0;
                current = 0;
            }
            i = i + 1;
        }
        proof {
            assert(history@.take(history@.len() as int) =~= history@);
        }
        if count != current as usize {
            return None;
        }

        let mut next_dev: i32 = 1;
        i = 0;
        while i < devices.len()
            invariant
                i <= devices@.len(),
                forall|p: int| 0 <= p < i ==> 1 <= (#[trigger] devices@[p]).id <= 0x7fff_fffe,
                forall|p: int, q: int|
                    #![trigger devices@[p], devices@[q]]
                    0 <= p < q < i ==> devices@[p].id != devices@[q].id && devices@[p].name@
                        != devices@[q].name@ && devices@[p].token@ != devices@[q].token@,
                next_dev == max_device_id(devices@.take(i as int)) + 1,
                1 <= next_dev <= 0x7fff_ffff,
            decreases devices@.len() - i,
        {
            let d_id = devices[i].id;
            if d_id < 1 || d_id > 0x7fff_fffe {
                return None;
            }
            let mut j: usize = 0;
            while j < i
                invariant
                    j <= i,
                    i < devices@.len(),
                    d_id == devices@[i as int].id,
                    forall|p: int|
                        0 <= p < j ==> (#[trigger] devices@[p]).id != devices@[i as int].id
                            && devices@[p].name@ != devices@[i as int].name@ && devices@[p].token@
                            != devices@[i as int].token@,
                decreases i - j,
            {
                if devices[j].id == d_id || str_eq(
                    devices[j].name.as_str(),
                    devices[i].name.as_str(),
                ) || str_eq(devices[j].token.as_str(), devices[i].token.as_str()) {
                    return None;
                }
                j = j + 1;
            }
            proof {
                assert(devices@.take(i + 1).drop_last() =~= devices@.take(i as int));
                assert(devices@.take(i + 1).last() == devices@[i as int]);
            }
            if d_id + 1 > next_dev {
                next_dev = d_id + 1;
            }
            i = i + 1;
        }
        proof {
            assert(devices@.take(devices@.len() as int) =~= devices@);
        }

        let mut next_ann: i32 = 1;
        i = 0;
        while i < annonces.len()
            invariant
                i <= annonces@.len(),
                forall|p: int| 0 <= p < i ==> 1 <= (#[trigger] annonces@[p]).id <= 0x7fff_fffe,
                forall|p: int, q: int|
                    #![trigger annonces@[p], annonces@[q]]
                    0 <= p < q < i ==> annonces@[p].id != annonces@[q].id,
                next_ann == max_annonce_id(annonces@.take(i as int)) + 1,
                1 <= next_ann <= 0x7fff_ffff,
            decreases annonces@.len() - i,
        {
            let a_id = annonces[i].id;
            if a_id < 1 || a_id > 0x7fff_fffe {
                return None;
            }
            let mut j: usize = 0;
            while j < i
                invariant
                    j <= i,
                    i < annonces@.len(),
                    a_id == annonces@[i as int].id,
                    forall|p: int| 0 <= p < j ==> (#[trigger] annonces@[p]).id != annonces@[i as int].id,
                decreases i - j,
            {
                if annonces[j].id == a_id {
                    return None;
                }
                j = j + 1;
            }
            proof {
                assert(annonces@.take(i + 1).drop_last() =~= annonces@.take(i as int));
                assert(annonces@.take(i + 1).last() == annonces@[i as int]);
            }
            if a_id + 1 > next_ann {
                next_ann = a_id + 1;
            }
            i = i + 1;
        }
        proof {
            assert(annonces@.take(annonces@.len() as int) =~= annonces@);
            lemma_max_device_id_bounds(devices@);
            lemma_max_annonce_id_bounds(annonces@);
        }

        Some(
            Database {
                counter: current,
                last_desk,
                history,
                devices,
                annonces,
                next_device_id: next_dev,
                next_annonce_id: next_ann,
            },
        )
    }
}

/// The index of the most recent event of `desk`, if the log holds any.
fn find_last_for(history: &Vec<HistoryItem>, desk: &str) -> (r: Option<usize>)
    ensures
        r is None ==> last_event_for(history@, desk@) is None,
        r matches Some(i) ==> i < history@.len() && last_event_for(history@, desk@) == Some(
            history@[i as int],
        ) && history@[i as int].desk_name@ == desk@,
{
    let mut i: usize = history.len();
    proof {
        assert(history@.take(history@.len() as int) =~= history@);
    }
    while i > 0
        invariant
            i <= history@.len(),
            last_event_for(history@, desk@) == last_event_for(history@.take(i as int), desk@),
        decreases i,
    {
        i = i - 1;
        if str_eq(history[i].desk_name.as_str(), desk) {
            proof {
                assert(history@.take(i + 1).last() == history@[i as int]);
            }
            return Some(i);
        }
        proof {
            assert(history@.take(i + 1).drop_last() =~= history@.take(i as int));
            assert(history@.take(i + 1).last() == history@[i as int]);
        }
    }
    None
}

} // verus!
