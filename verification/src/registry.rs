//! The process-wide registry of online places.
//!
//! Built once at startup from durable storage and mutated when places are
//! created. Offline places are simply omitted rather than torn down, so
//! membership alone decides whether a place serves traffic.

use vstd::prelude::*;

use crate::place::Place;

verus! {

/// Summary row describing one stored place, as listed to clients.
pub struct PlaceInfo {
    pub place_id: String,
    pub online: bool,
    pub cooldown: i64,
    pub voxel_id: String,
    pub name: String,
    pub size_x: i64,
    pub size_y: i64,
    pub size_z: i64,
}

pub struct CanvasRegistry {
    pub places: Vec<Place>,
    pub last_user_update: i64,
}

pub open spec fn has_place(s: Seq<Place>, id: i64) -> bool {
    exists|i: int| 0 <= i < s.len() && #[trigger] s[i].id == id
}

/// The index of the place carrying `id`; meaningful only under
/// `has_place`, and unique while ids are distinct.
pub open spec fn spec_place_index(s: Seq<Place>, id: i64) -> int {
    choose|i: int| 0 <= i < s.len() && #[trigger] s[i].id == id
}

pub open spec fn distinct_place_ids(s: Seq<Place>) -> bool {
    forall|i: int, j: int|
        0 <= i < s.len() && 0 <= j < s.len() && i != j
            ==> #[trigger] s[i].id != #[trigger] s[j].id
}

impl CanvasRegistry {
    /// Place ids are distinct, every place is well formed, and the flush
    /// timestamp never lies before the epoch.
    pub open spec fn wf(&self) -> bool {
        &&& distinct_place_ids(self.places@)
        &&& forall|i: int| 0 <= i < self.places@.len() ==> (#[trigger] self.places@[i]).wf()
        &&& self.last_user_update >= 0
    }

    pub fn new() -> (r: CanvasRegistry)
        ensures
            r.wf(),
            r.places@.len() == 0,
            r.last_user_update == 0,
    {
        CanvasRegistry { places: Vec::new(), last_user_update: 0 }
    }

    /// The index of the place carrying `place_id`, if it is registered.
    pub fn find_place(&self, place_id: i64) -> (r: Option<usize>)
        requires
            self.wf(),
        ensures
            r is Some <==> has_place(self.places@, place_id),
            r matches Some(i) ==> i < self.places@.len()
                && self.places@[i as int].id == place_id
                && i == spec_place_index(self.places@, place_id),
    {
        let n = self.places.len();
        let mut i: usize = 0;
        while i < n
            invariant
                self.wf(),
                n == self.places@.len(),
                i <= n,
                forall|j: int| 0 <= j < i ==> #[trigger] self.places@[j].id != place_id,
            decreases n - i,
        {
            if self.places[i].id == place_id {
                proof {
                    let w = spec_place_index(self.places@, place_id);
                    assert(self.places@[i as int].id == place_id);
                    assert(0 <= w < self.places@.len() && self.places@[w].id == place_id);
                    assert(w == i as int);
                }
                return Some(i);
            }
            i = i + 1;
        }
        None
    }

    /// Registers a place, replacing any place that already carries its
    /// id, as a fresh insert into the map of online places.
    pub fn add_place(&mut self, place: Place)
        requires
            old(self).wf(),
            place.wf(),
        ensures
            final(self).wf(),
            final(self).last_user_update == old(self).last_user_update,
            has_place(final(self).places@, place.id),
            !has_place(old(self).places@, place.id)
                ==> final(self).places@ == old(self).places@.push(place),
            has_place(old(self).places@, place.id)
                ==> final(self).places@ == old(self).places@.update(
                    spec_place_index(old(self).places@, place.id), place),
    {
        let ghost s0 = self.places@;
        let id = place.id;
        let n = self.places.len();
        let mut i: usize = 0;
        while i < n
            invariant
                self == old(self),
                old(self).wf(),
                place.wf(),
                s0 == self.places@,
                n == s0.len(),
                i <= n,
                id == place.id,
                forall|j: int| 0 <= j < i ==> #[trigger] s0[j].id != id,
            decreases n - i,
        {
            if self.places[i].id == id {
                proof {
                    assert(has_place(s0, id));
                    let w = spec_place_index(s0, id);
                    assert(0 <= w < s0.len() && s0[w].id == id);
                    assert(w == i as int);
                }
                let slot = place_at(&mut self.places, i);
                *slot = place;
                proof {
                    let s1 = self.places@;
                    assert(s1 == s0.update(i as int, place));
                    assert(s1[i as int].id == id);
                    assert forall|a: int, b: int|
                        0 <= a < s1.len() && 0 <= b < s1.len() && a != b
                            implies #[trigger] s1[a].id != #[trigger] s1[b].id by {
                        assert(s1[a].id == s0[a].id);
                        assert(s1[b].id == s0[b].id);
                    }
                    assert forall|a: int| 0 <= a < s1.len()
                        implies (#[trigger] s1[a]).wf() by {
                        if a != i as int {
                            assert(s1[a] == s0[a]);
                        }
                    }
                }
                return;
            }
            i = i + 1;
        }
        self.places.push(place);
        proof {
            let s1 = self.places@;
            assert(s1[s1.len() - 1].id == id);
            assert forall|a: int, b: int|
                0 <= a < s1.len() && 0 <= b < s1.len() && a != b
                    implies #[trigger] s1[a].id != #[trigger] s1[b].id by {
                if a < s1.len() - 1 && b < s1.len() - 1 {
                    assert(s1[a] == s0[a] && s1[b] == s0[b]);
                } else {
                    let c = if a < s1.len() - 1 { a } else { b };
                    assert(s1[c] == s0[c]);
                }
            }
            assert forall|a: int| 0 <= a < s1.len() implies (#[trigger] s1[a]).wf() by {
                if a < s1.len() - 1 {
                    assert(s1[a] == s0[a]);
                }
            }
        }
    }
}

/// Mutable access to one registered place.
pub fn place_at<'a>(v: &'a mut Vec<Place>, i: usize) -> (r: &'a mut Place)
    requires
        i < old(v)@.len(),
    ensures
        *r == old(v)@[i as int],
        final(v)@ == old(v)@.update(i as int, *final(r)),
{
    &mut v[i]
}

} // verus!
