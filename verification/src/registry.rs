//! The device registry: token issuance and validation. Registration is
//! idempotent — the first registration of a name wins and a later one never
//! rotates the token — and an unknown token is a normal "unauthenticated"
//! outcome, not an error.

use vstd::prelude::*;

use crate::database::Database;
use crate::token::fresh_token;
use crate::types::Device;
use crate::util::str_eq;

verus! {

/// Some device already carries this name.
pub open spec fn name_taken(ds: Seq<Device>, name: Seq<char>) -> bool {
    exists|i: int| 0 <= i < ds.len() && #[trigger] ds[i].name@ == name
}

/// Some device already carries this token.
pub open spec fn token_taken(ds: Seq<Device>, token: Seq<char>) -> bool {
    exists|i: int| 0 <= i < ds.len() && #[trigger] ds[i].token@ == token
}

/// A well-formed roster: ids were handed out below `next_id`, and ids,
/// names and tokens are unique.
pub open spec fn registry_wf(ds: Seq<Device>, next_id: int) -> bool {
    &&& 1 <= next_id <= 0x7fff_ffff
    &&& forall|i: int| 0 <= i < ds.len() ==> 1 <= #[trigger] ds[i].id < next_id
    &&& forall|i: int, j: int|
        #![trigger ds[i], ds[j]]
        0 <= i < j < ds.len() ==> ds[i].id != ds[j].id && ds[i].name@ != ds[j].name@
            && ds[i].token@ != ds[j].token@
}

/// Some device already carries this id.
pub open spec fn device_id_taken(ds: Seq<Device>, id: int) -> bool {
    exists|i: int| 0 <= i < ds.len() && #[trigger] ds[i].id == id
}

/// The largest device id the roster holds; 0 when it is empty.
pub open spec fn max_device_id(ds: Seq<Device>) -> int
    decreases ds.len(),
{
    if ds.len() == 0 {
        0
    } else {
        let m = max_device_id(ds.drop_last());
        if ds.last().id > m {
            ds.last().id as int
        } else {
            m
        }
    }
}

/// A roster as a stored file may hold it: every id positive and small
/// enough that the id after the largest one still fits, and ids, names
/// and tokens unique.
pub open spec fn roster_loadable(ds: Seq<Device>) -> bool {
    &&& forall|i: int| 0 <= i < ds.len() ==> 1 <= (#[trigger] ds[i]).id <= 0x7fff_fffe
    &&& forall|i: int, j: int|
        #![trigger ds[i], ds[j]]
        0 <= i < j < ds.len() ==> ds[i].id != ds[j].id && ds[i].name@ != ds[j].name@
            && ds[i].token@ != ds[j].token@
}

/// The maximum id bounds every id in a loadable roster, and itself stays
/// in the id space.
pub proof fn lemma_max_device_id_bounds(ds: Seq<Device>)
    requires
        roster_loadable(ds),
    ensures
        0 <= max_device_id(ds) <= 0x7fff_fffe,
        forall|i: int| 0 <= i < ds.len() ==> (#[trigger] ds[i]).id <= max_device_id(ds),
    decreases ds.len(),
{
    if ds.len() > 0 {
        let prefix = ds.drop_last();
        assert forall|i: int| 0 <= i < prefix.len() implies 1 <= (#[trigger] prefix[i]).id
            <= 0x7fff_fffe by {
            assert(prefix[i] == ds[i]);
        }
        assert forall|i: int, j: int|
            #![trigger prefix[i], prefix[j]]
            0 <= i < j < prefix.len() implies prefix[i].id != prefix[j].id && prefix[i].name@
            != prefix[j].name@ && prefix[i].token@ != prefix[j].token@ by {
            assert(prefix[i] == ds[i]);
            assert(prefix[j] == ds[j]);
        }
        lemma_max_device_id_bounds(prefix);
        assert forall|i: int| 0 <= i < ds.len() implies (#[trigger] ds[i]).id <= max_device_id(
            ds,
        ) by {
            if i < ds.len() - 1 {
                assert(prefix[i] == ds[i]);
            }
        }
    }
}

/// Whether the roster already holds `name` or `token`.
fn find_name_or_token(ds: &Vec<Device>, name: &str, token: &str) -> (taken: bool)
    ensures
        taken == (name_taken(ds@, name@) || token_taken(ds@, token@)),
{
    let mut i: usize = 0;
    while i < ds.len()
        invariant
            i <= ds@.len(),
            forall|j: int| 0 <= j < i ==> #[trigger] ds@[j].name@ != name@,
            forall|j: int| 0 <= j < i ==> #[trigger] ds@[j].token@ != token@,
        decreases ds@.len() - i,
    {
        if str_eq(ds[i].name.as_str(), name) || str_eq(ds[i].token.as_str(), token) {
            return true;
        }
        i = i + 1;
    }
    false
}

impl Database {
    /// Store `(name, token)` unless the roster already holds the name or
    /// the token; says whether the row went in. The caller supplies the
    /// token, so everything here is checked for every possible token value.
    pub fn register_device_with_token(&mut self, name: String, token: String) -> (inserted: bool)
        requires
            old(self).wf(),
            old(self).next_device_id < 0x7fff_ffff,
        ensures
            final(self).wf(),
            inserted == (!name_taken(old(self).devices@, name@) && !token_taken(
                old(self).devices@,
                token@,
            )),
            !inserted ==> *final(self) == *old(self),
            inserted ==> {
                &&& final(self).devices@ == old(self).devices@.push(
                    (Device {
                        id: old(self).next_device_id,
                        name: name,
                        token: token,
                        status: None,
                        ip_address: None,
                    }),
                )
                &&& final(self).next_device_id == old(self).next_device_id + 1
            },
            final(self).counter == old(self).counter,
            final(self).last_desk == old(self).last_desk,
            final(self).history == old(self).history,
            final(self).annonces == old(self).annonces,
            final(self).next_annonce_id == old(self).next_annonce_id,
    {
        if find_name_or_token(&self.devices, name.as_str(), token.as_str()) {
            return false;
        }
        let device = Device {
            id: self.next_device_id,
            name,
            token,
            status: None,
            ip_address: None,
        };
        self.devices.push(device);
        self.next_device_id = self.next_device_id + 1;
        proof {
            assert(self.devices@.drop_last() =~= old(self).devices@);
        }
        true
    }

    /// Register a device under `name` with a freshly generated token, and
    /// say whether the row went in. A name that already exists is left
    /// exactly as it was: re-registration never rotates the token. The one
    /// other way the row stays out is the drawn token colliding with a
    /// stored one — impossible while the roster is empty, so there the
    /// registration is owed.
    pub fn register_device(&mut self, name: String) -> (inserted: bool)
        requires
            old(self).wf(),
            old(self).next_device_id < 0x7fff_ffff,
        ensures
            final(self).wf(),
            name_taken(old(self).devices@, name@) ==> !inserted,
            !inserted ==> *final(self) == *old(self),
            !inserted ==> name_taken(old(self).devices@, name@) || old(self).devices@.len() > 0,
            old(self).devices@.len() == 0 ==> inserted,
            inserted ==> {
                &&& !name_taken(old(self).devices@, name@)
                &&& final(self).devices@.len() == old(self).devices@.len() + 1
                &&& final(self).devices@.drop_last() == old(self).devices@
                &&& final(self).devices@.last().name == name
                &&& final(self).devices@.last().id == old(self).next_device_id
                &&& final(self).devices@.last().token@.len() == 36
                &&& final(self).next_device_id == old(self).next_device_id + 1
            },
            final(self).counter == old(self).counter,
            final(self).last_desk == old(self).last_desk,
            final(self).history == old(self).history,
            final(self).annonces == old(self).annonces,
            final(self).next_annonce_id == old(self).next_annonce_id,
    {
        let token = fresh_token();
        let inserted = self.register_device_with_token(name, token);
        proof {
            if inserted {
                assert(self.devices@.drop_last() =~= old(self).devices@);
            }
        }
        inserted
    }

    /// Whether the roster already holds a device under this name.
    pub fn has_device_name(&self, name: &str) -> (r: bool)
        ensures
            r == name_taken(self.devices@, name@),
    {
        let mut i: usize = 0;
        while i < self.devices.len()
            invariant
                i <= self.devices@.len(),
                forall|j: int| 0 <= j < i ==> #[trigger] self.devices@[j].name@ != name@,
            decreases self.devices@.len() - i,
        {
            if str_eq(self.devices[i].name.as_str(), name) {
                return true;
            }
            i = i + 1;
        }
        false
    }

    /// Resolve a bearer token to the device that holds it: the O(1)-spirit
    /// lookup behind every authenticated action. An unknown token yields
    /// `None`, which is a normal outcome, not an error.
    pub fn get_device_info(&self, token: &str) -> (r: Option<(i32, String)>)
        requires
            self.wf(),
        ensures
            r is Some <==> token_taken(self.devices@, token@),
            r matches Some(p) ==> exists|i: int|
                0 <= i < self.devices@.len() && #[trigger] self.devices@[i].token@ == token@ && p
                    == (self.devices@[i].id, self.devices@[i].name),
    {
        let mut i: usize = 0;
        while i < self.devices.len()
            invariant
                i <= self.devices@.len(),
                forall|j: int| 0 <= j < i ==> #[trigger] self.devices@[j].token@ != token@,
            decreases self.devices@.len() - i,
        {
            if str_eq(self.devices[i].token.as_str(), token) {
                return Some((self.devices[i].id, self.devices[i].name.clone()));
            }
            i = i + 1;
        }
        None
    }

    /// Remove the device with this id, if the roster holds one.
    pub fn delete_device(&mut self, id: i32)
        requires
            old(self).wf(),
        ensures
            final(self).wf(),
            !device_id_taken(old(self).devices@, id as int) ==> *final(self) == *old(self),
            device_id_taken(old(self).devices@, id as int) ==> exists|i: int|
                0 <= i < old(self).devices@.len() && #[trigger] old(self).devices@[i].id == id
                    && final(self).devices@ == old(self).devices@.remove(i),
            final(self).counter == old(self).counter,
            final(self).last_desk == old(self).last_desk,
            final(self).history == old(self).history,
            final(self).annonces == old(self).annonces,
            final(self).next_device_id == old(self).next_device_id,
            final(self).next_annonce_id == old(self).next_annonce_id,
    {
        let mut i: usize = 0;
        while i < self.devices.len()
            invariant
                i <= self.devices@.len(),
                forall|j: int| 0 <= j < i ==> #[trigger] self.devices@[j].id != id,
                *self == *old(self),
                old(self).wf(),
            decreases self.devices@.len() - i,
        {
            if self.devices[i].id == id {
                self.devices.remove(i);
                proof {
                    let ds = old(self).devices@;
                    let nds = self.devices@;
                    ds.remove_ensures(i as int);
                    assert forall|p: int, q: int|
                        #![trigger nds[p], nds[q]]
                        0 <= p < q < nds.len() implies nds[p].id != nds[q].id && nds[p].name@
                        != nds[q].name@ && nds[p].token@ != nds[q].token@ by {
                        let p0: int = if p < i { p } else { p + 1 };
                        let q0: int = if q < i { q } else { q + 1 };
                        assert(ds.remove(i as int)[p] == ds[p0]);
                        assert(ds.remove(i as int)[q] == ds[q0]);
                        assert(nds[p] == ds[p0]);
                        assert(nds[q] == ds[q0]);
                    }
                }
                return ;
            }
            i = i + 1;
        }
    }

    /// A copy of the roster for the administrative surface; the transient
    /// status and address columns are reported empty, as the store does not
    /// keep them.
    pub fn get_all_devices(&self) -> (r: Vec<Device>)
        ensures
            r@.len() == self.devices@.len(),
            forall|i: int|
                0 <= i < r@.len() ==> {
                    &&& (#[trigger] r@[i]).id == self.devices@[i].id
                    &&& r@[i].name == self.devices@[i].name
                    &&& r@[i].token == self.devices@[i].token
                    &&& r@[i].status is None
                    &&& r@[i].ip_address is None
                },
    {
        let mut out: Vec<Device> = Vec::new();
        let mut i: usize = 0;
        while i < self.devices.len()
            invariant
                i <= self.devices@.len(),
                out@.len() == i,
                forall|j: int|
                    0 <= j < i ==> {
                        &&& (#[trigger] out@[j]).id == self.devices@[j].id
                        &&& out@[j].name == self.devices@[j].name
                        &&& out@[j].token == self.devices@[j].token
                        &&& out@[j].status is None
                        &&& out@[j].ip_address is None
                    },
            decreases self.devices@.len() - i,
        {
            let d = Device {
                id: self.devices[i].id,
                name: self.devices[i].name.clone(),
                token: self.devices[i].token.clone(),
                status: None,
                ip_address: None,
            };
            out.push(d);
            i = i + 1;
        }
        out
    }
}

} // verus!
