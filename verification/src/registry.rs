//! The room registry: the name-to-room mapping, with lazy creation on first
//! reference and no eviction. The registry is an explicitly owned value; the
//! caller that accepts connections holds it (under its own lock) and passes
//! it by reference.

use vstd::prelude::*;

use crate::engine::spec_initial;
use crate::model::Catalog;
use crate::model::StateModel;
use crate::model::TrackModel;
use crate::room::Room;

verus! {

/// The mapping from room name to room. Names are unique; a room, once
/// created, is never removed nor replaced.
pub struct Registry {
    pub rooms: Vec<Room>,
}

impl Registry {
    /// Room names are pairwise distinct and every room is well formed over
    /// the catalog.
    pub open spec fn wf(self, cat: Seq<TrackModel>) -> bool {
        &&& forall|i: int, j: int|
            0 <= i < j < self.rooms@.len() ==> (#[trigger] self.rooms@[i]).name@ != (
            #[trigger] self.rooms@[j]).name@
        &&& forall|i: int| 0 <= i < self.rooms@.len() ==> (#[trigger] self.rooms@[i]).wf(cat)
    }

    /// Whether a room named `name` exists.
    pub open spec fn has_room(self, name: Seq<char>) -> bool {
        exists|i: int| 0 <= i < self.rooms@.len() && (#[trigger] self.rooms@[i]).name@ == name
    }

    /// An empty registry.
    pub fn new() -> (r: Registry)
        ensures
            r.rooms@ == Seq::<Room>::empty(),
    {
        Registry { rooms: Vec::new() }
    }

    /// Returns the index of the room for `name`, creating the room — first
    /// track, paused, clock at zero — if no room of that name exists yet.
    /// Exactly one room per distinct name ever exists; an existing room is
    /// returned as it stands, never replaced.
    pub fn get_or_create(&mut self, name: &String, cat: &Catalog) -> (idx: usize)
        requires
            old(self).wf(cat@),
            cat@.len() >= 1,
        ensures
            final(self).wf(cat@),
            idx < final(self).rooms@.len(),
            final(self).rooms@[idx as int].name@ == name@,
            old(self).has_room(name@) ==> *final(self) == *old(self),
            !old(self).has_room(name@) ==> {
                &&& final(self).rooms@.len() == old(self).rooms@.len() + 1
                &&& idx == old(self).rooms@.len()
                &&& (forall|j: int|
                    0 <= j < old(self).rooms@.len() ==> final(self).rooms@[j] == old(
                    self).rooms@[j])
                &&& final(self).rooms@[idx as int].state@ == spec_initial(cat@)
                &&& final(self).rooms@[idx as int].subscribers == 0
                &&& final(self).rooms@[idx as int].published@ == Seq::<StateModel>::empty()
            },
    {
        let n = self.rooms.len();
        let mut i: usize = 0;
        while i < n
            invariant
                n == self.rooms@.len(),
                i <= n,
                *self == *old(self),
                old(self).wf(cat@),
                cat@.len() >= 1,
                forall|j: int| 0 <= j < i ==> (#[trigger] self.rooms@[j]).name@ != name@,
            decreases n - i,
        {
            if self.rooms[i].name == *name {
                return i;
            }
            i = i + 1;
        }
        let room = Room::new(name.clone(), cat);
        self.rooms.push(room);
        proof {
            assert(!old(self).has_room(name@));
            assert(final(self).wf(cat@)) by {
                assert(forall|j: int|
                    0 <= j < old(self).rooms@.len() ==> self.rooms@[j] == old(self).rooms@[j]);
            }
        }
        n
    }
}

} // verus!
