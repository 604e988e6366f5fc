//! Announcements: a plain CRUD roster whose only invariant is id
//! uniqueness. Independent of ticketing, but kept in the same store.

use vstd::prelude::*;

use crate::database::Database;
use crate::types::Annonce;
use crate::util::slot_at;

verus! {

/// A well-formed list of announcements: ids were handed out below
/// `next_id` and are unique.
pub open spec fn annonces_wf(list: Seq<Annonce>, next_id: int) -> bool {
    &&& 1 <= next_id <= 0x7fff_ffff
    &&& forall|i: int| 0 <= i < list.len() ==> 1 <= #[trigger] list[i].id < next_id
    &&& forall|i: int, j: int|
        #![trigger list[i], list[j]]
        0 <= i < j < list.len() ==> list[i].id != list[j].id
}

/// Some announcement carries this id.
pub open spec fn annonce_id_taken(list: Seq<Annonce>, id: int) -> bool {
    exists|i: int| 0 <= i < list.len() && #[trigger] list[i].id == id
}

/// The largest announcement id the list holds; 0 when it is empty.
pub open spec fn max_annonce_id(list: Seq<Annonce>) -> int
    decreases list.len(),
{
    if list.len() == 0 {
        0
    } else {
        let m = max_annonce_id(list.drop_last());
        if list.last().id > m {
            list.last().id as int
        } else {
            m
        }
    }
}

/// A list as a stored file may hold it: every id positive and small
/// enough that the id after the largest one still fits, and ids unique.
pub open spec fn annonces_loadable(list: Seq<Annonce>) -> bool {
    &&& forall|i: int| 0 <= i < list.len() ==> 1 <= (#[trigger] list[i]).id <= 0x7fff_fffe
    &&& forall|i: int, j: int|
        #![trigger list[i], list[j]]
        0 <= i < j < list.len() ==> list[i].id != list[j].id
}

/// The maximum id bounds every id in a loadable list, and itself stays in
/// the id space.
pub proof fn lemma_max_annonce_id_bounds(list: Seq<Annonce>)
    requires
        annonces_loadable(list),
    ensures
        0 <= max_annonce_id(list) <= 0x7fff_fffe,
        forall|i: int| 0 <= i < list.len() ==> (#[trigger] list[i]).id <= max_annonce_id(list),
    decreases list.len(),
{
    if list.len() > 0 {
        let prefix = list.drop_last();
        assert forall|i: int| 0 <= i < prefix.len() implies 1 <= (#[trigger] prefix[i]).id
            <= 0x7fff_fffe by {
            assert(prefix[i] == list[i]);
        }
        assert forall|i: int, j: int|
            #![trigger prefix[i], prefix[j]]
            0 <= i < j < prefix.len() implies prefix[i].id != prefix[j].id by {
            assert(prefix[i] == list[i]);
            assert(prefix[j] == list[j]);
        }
        lemma_max_annonce_id_bounds(prefix);
        assert forall|i: int| 0 <= i < list.len() implies (#[trigger] list[i]).id
            <= max_annonce_id(list) by {
            if i < list.len() - 1 {
                assert(prefix[i] == list[i]);
            }
        }
    }
}

/// The position of the announcement with this id, if the list holds one.
fn find_annonce(list: &Vec<Annonce>, id: i32) -> (r: Option<usize>)
    ensures
        r is None ==> !annonce_id_taken(list@, id as int),
        r matches Some(i) ==> i < list@.len() && list@[i as int].id == id,
{
    let mut i: usize = 0;
    while i < list.len()
        invariant
            i <= list@.len(),
            forall|j: int| 0 <= j < i ==> #[trigger] list@[j].id != id,
        decreases list@.len() - i,
    {
        if list[i].id == id {
            return Some(i);
        }
        i = i + 1;
    }
    None
}

impl Database {
    /// Add an announcement; new ones start active.
    pub fn add_annonce(&mut self, message: String)
        requires
            old(self).wf(),
            old(self).next_annonce_id < 0x7fff_ffff,
        ensures
            final(self).wf(),
            final(self).annonces@ == old(self).annonces@.push(
                (Annonce { id: old(self).next_annonce_id, message: message, active: true }),
            ),
            final(self).next_annonce_id == old(self).next_annonce_id + 1,
            final(self).counter == old(self).counter,
            final(self).last_desk == old(self).last_desk,
            final(self).history == old(self).history,
            final(self).devices == old(self).devices,
            final(self).next_device_id == old(self).next_device_id,
    {
        let a = Annonce { id: self.next_annonce_id, message, active: true };
        self.annonces.push(a);
        self.next_annonce_id = self.next_annonce_id + 1;
        proof {
            assert(self.annonces@.drop_last() =~= old(self).annonces@);
        }
    }

    /// A copy of the announcement list for the administrative surface.
    pub fn get_annonces(&self) -> (r: Vec<Annonce>)
        ensures
            r@ == self.annonces@,
    {
        let mut out: Vec<Annonce> = Vec::new();
        let mut i: usize = 0;
        while i < self.annonces.len()
            invariant
                i <= self.annonces@.len(),
                out@ == self.annonces@.take(i as int),
            decreases self.annonces@.len() - i,
        {
            let a = Annonce {
                id: self.annonces[i].id,
                message: self.annonces[i].message.clone(),
                active: self.annonces[i].active,
            };
            out.push(a);
            proof {
                assert(self.annonces@.take(i + 1).drop_last() =~= self.annonces@.take(i as int));
                assert(self.annonces@.take(i + 1).last() == self.annonces@[i as int]);
                assert(out@ =~= self.annonces@.take(i + 1));
            }
            i = i + 1;
        }
        proof {
            assert(self.annonces@.take(self.annonces@.len() as int) =~= self.annonces@);
        }
        out
    }

    /// Replace the message of the announcement with this id, if any.
    pub fn update_annonce_message(&mut self, id: i32, new_message: String)
        requires
            old(self).wf(),
        ensures
            final(self).wf(),
            !annonce_id_taken(old(self).annonces@, id as int) ==> *final(self) == *old(self),
            annonce_id_taken(old(self).annonces@, id as int) ==> exists|i: int|
                0 <= i < old(self).annonces@.len() && #[trigger] old(self).annonces@[i].id == id
                    && final(self).annonces@ == old(self).annonces@.update(
                    i,
                    (Annonce {
                        id: id,
                        message: new_message,
                        active: old(self).annonces@[i].active,
                    }),
                ),
            final(self).counter == old(self).counter,
            final(self).last_desk == old(self).last_desk,
            final(self).history == old(self).history,
            final(self).devices == old(self).devices,
            final(self).next_device_id == old(self).next_device_id,
            final(self).next_annonce_id == old(self).next_annonce_id,
    {
        match find_annonce(&self.annonces, id) {
            None => (),
            Some(i) => {
                let slot = slot_at(&mut self.annonces, i);
                slot.message = new_message;
            },
        }
    }

    /// Switch the announcement with this id on or off, if any.
    pub fn set_annonce_active(&mut self, id: i32, is_active: bool)
        requires
            old(self).wf(),
        ensures
            final(self).wf(),
            !annonce_id_taken(old(self).annonces@, id as int) ==> *final(self) == *old(self),
            annonce_id_taken(old(self).annonces@, id as int) ==> exists|i: int|
                0 <= i < old(self).annonces@.len() && #[trigger] old(self).annonces@[i].id == id
                    && final(self).annonces@ == old(self).annonces@.update(
                    i,
                    (Annonce {
                        id: id,
                        message: old(self).annonces@[i].message,
                        active: is_active,
                    }),
                ),
            final(self).counter == old(self).counter,
            final(self).last_desk == old(self).last_desk,
            final(self).history == old(self).history,
            final(self).devices == old(self).devices,
            final(self).next_device_id == old(self).next_device_id,
            final(self).next_annonce_id == old(self).next_annonce_id,
    {
        match find_annonce(&self.annonces, id) {
            None => (),
            Some(i) => {
                let slot = slot_at(&mut self.annonces, i);
                slot.active = is_active;
            },
        }
    }

    /// Remove the announcement with this id, if the list holds one.
    pub fn delete_annonce(&mut self, id: i32)
        requires
            old(self).wf(),
        ensures
            final(self).wf(),
            !annonce_id_taken(old(self).annonces@, id as int) ==> *final(self) == *old(self),
            annonce_id_taken(old(self).annonces@, id as int) ==> exists|i: int|
                0 <= i < old(self).annonces@.len() && #[trigger] old(self).annonces@[i].id == id
                    && final(self).annonces@ == old(self).annonces@.remove(i),
            final(self).counter == old(self).counter,
            final(self).last_desk == old(self).last_desk,
            final(self).history == old(self).history,
            final(self).devices == old(self).devices,
            final(self).next_device_id == old(self).next_device_id,
            final(self).next_annonce_id == old(self).next_annonce_id,
    {
        match find_annonce(&self.annonces, id) {
            None => (),
            Some(i) => {
                self.annonces.remove(i);
                proof {
                    let la = old(self).annonces@;
                    let nla = self.annonces@;
                    la.remove_ensures(i as int);
                    assert forall|p: int, q: int|
                        #![trigger nla[p], nla[q]]
                        0 <= p < q < nla.len() implies nla[p].id != nla[q].id by {
                        let p0: int = if p < i { p } else { p + 1 };
                        let q0: int = if q < i { q } else { q + 1 };
                        assert(la.remove(i as int)[p] == la[p0]);
                        assert(la.remove(i as int)[q] == la[q0]);
                    }
                }
            },
        }
    }
}

} // verus!
