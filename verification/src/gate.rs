//! The draw gate: validates one paint request and applies it.
//!
//! Checks run in order — bounds, cooldown, adjacency — and only a request
//! passing all three mutates state: the cell is written, the cooldown
//! record advanced, the paint event buffered for the write-behind flush,
//! and the update fanned out to the viewers of the place. The checks and
//! the write are deliberately not covered by one lock: two concurrent
//! draws may both see a neighbor and both succeed (optimistic,
//! last-writer-wins concurrency).

use vstd::prelude::*;

use crate::canvas::{lemma_flat_index_bounds, VoxelCanvas};
use crate::cooldown::{cooldown_ready, spec_lookup, CooldownStore};
use crate::errors::VoxError;
use crate::hub::{spec_fanout, BroadcastHub, SlotModel, UpdateMessage};
use crate::place::{Place, PlaceUserUpdate};
use crate::registry::{has_place, place_at, spec_place_index, CanvasRegistry};

verus! {

/// Does any of the up-to-six face-adjacent neighbors hold paint?
pub open spec fn has_neighbor(c: VoxelCanvas, x: int, y: int, z: int) -> bool {
    ||| (x > 0 && c.spec_cell(x - 1, y, z) > 0)
    ||| (x + 1 < c.size_x && c.spec_cell(x + 1, y, z) > 0)
    ||| (y > 0 && c.spec_cell(x, y - 1, z) > 0)
    ||| (y + 1 < c.size_y && c.spec_cell(x, y + 1, z) > 0)
    ||| (z > 0 && c.spec_cell(x, y, z - 1) > 0)
    ||| (z + 1 < c.size_z && c.spec_cell(x, y, z + 1) > 0)
}

/// The adjacency rule: a cell may be painted on the floor layer, next to
/// paint, or over existing paint (repaint).
pub open spec fn paintable(c: VoxelCanvas, x: int, y: int, z: int) -> bool {
    y == 0 || has_neighbor(c, x, y, z) || c.spec_cell(x, y, z) > 0
}

/// When the user may paint again after painting now: the cooldown is
/// added to the clock, saturating at the far end of time.
pub open spec fn spec_expiry(now: i64, cooldown: i64) -> i64 {
    if now + cooldown <= i64::MAX {
        (now + cooldown) as i64
    } else {
        i64::MAX
    }
}

/// The result one paint request gets, decided in order: bounds, then
/// cooldown, then adjacency; all three passed yields the new expiry.
pub open spec fn draw_outcome(
    p: Place,
    st: Seq<(i64, i64, i64)>,
    user_id: i64,
    x: int,
    y: int,
    z: int,
    now: i64,
) -> Result<i64, VoxError> {
    if !p.voxel.spec_in_bounds(x, y, z) {
        Err(VoxError::InvalidCoordinate)
    } else if !cooldown_ready(st, p.id, user_id, now) {
        Err(VoxError::CooldownActive(
            (spec_lookup(st, p.id, user_id)->Some_0 - now) as i64))
    } else if !paintable(p.voxel, x, y, z) {
        Err(VoxError::NoAdjacency)
    } else {
        Ok(spec_expiry(now, p.cooldown))
    }
}

/// How one draw relates the state before to the state after: a rejected
/// request changes nothing; an accepted one writes exactly the requested
/// cell, buffers exactly one paint event, advances exactly the painter's
/// cooldown record, and fans exactly one update out to the place.
pub open spec fn draw_transition(
    p0: Place,
    p1: Place,
    st0: Seq<(i64, i64, i64)>,
    st1: Seq<(i64, i64, i64)>,
    h0: Seq<SlotModel>,
    h1: Seq<SlotModel>,
    user_id: i64,
    x: usize,
    y: usize,
    z: usize,
    color: u8,
    now: i64,
    r: Result<i64, VoxError>,
) -> bool {
    &&& r == draw_outcome(p0, st0, user_id, x as int, y as int, z as int, now)
    &&& (r is Err ==> p1 == p0 && st1 == st0 && h1 == h0)
    &&& (r is Ok ==> {
        &&& p1.id == p0.id
        &&& p1.online == p0.online
        &&& p1.cooldown == p0.cooldown
        &&& p1.last_grid_update == p0.last_grid_update
        &&& p1.voxel.id == p0.voxel.id
        &&& p1.voxel.name@ == p0.voxel.name@
        &&& p1.voxel.size_x == p0.voxel.size_x
        &&& p1.voxel.size_y == p0.voxel.size_y
        &&& p1.voxel.size_z == p0.voxel.size_z
        &&& p1.voxel.palette_id == p0.voxel.palette_id
        &&& p1.voxel.created_at == p0.voxel.created_at
        &&& p1.voxel.last_modified_at == p0.voxel.last_modified_at
        &&& p1.voxel.grid@ == p0.voxel.grid@.update(
            p0.voxel.spec_index(x as int, y as int, z as int), color)
        &&& p1.voxel.spec_cell(x as int, y as int, z as int) == color
        &&& p1.pending_updates@ == p0.pending_updates@.push(
            PlaceUserUpdate { x, y, z, user_id, place_id: p0.id })
        &&& spec_lookup(st1, p0.id, user_id) == Some(spec_expiry(now, p0.cooldown))
        &&& (forall|p2: i64, u2: i64|
            !(p2 == p0.id && u2 == user_id)
                ==> #[trigger] spec_lookup(st1, p2, u2) == spec_lookup(st0, p2, u2))
        &&& h1 == spec_fanout(h0, p0.id, UpdateMessage(x, y, z, color))
    })
}

/// Validates one paint request against a place and applies it.
pub struct DrawGate;

impl DrawGate {
    /// Validates the request in order — bounds, cooldown, adjacency —
    /// and on success writes the cell, advances the painter's cooldown
    /// record, buffers the paint event and fans the update out,
    /// returning the new cooldown expiry.
    pub fn apply(
        place: &mut Place,
        store: &mut CooldownStore,
        hub: &mut BroadcastHub,
        x: usize,
        y: usize,
        z: usize,
        color: u8,
        user_id: i64,
        now: i64,
    ) -> (r: Result<i64, VoxError>)
        requires
            old(place).wf(),
            old(store).wf(),
            old(hub).wf(),
            now >= 0,
        ensures
            final(place).wf(),
            final(store).wf(),
            final(hub).wf(),
            final(hub).next_sink_id == old(hub).next_sink_id,
            draw_transition(
                *old(place), *final(place),
                old(store).records@, final(store).records@,
                old(hub).view_of(), final(hub).view_of(),
                user_id, x, y, z, color, now, r),
    {
        if !(x < place.voxel.size_x && y < place.voxel.size_y && z < place.voxel.size_z) {
            return Err(VoxError::InvalidCoordinate);
        }

        let pid = place.id;
        match store.get(pid, user_id) {
            Some(expiry) => {
                if expiry > now {
                    return Err(VoxError::CooldownActive(expiry - now));
                }
            },
            None => {},
        }

        let c = &place.voxel;
        let at_bottom = y == 0;
        let mut neighbor = false;
        if x > 0 && c.cell(x - 1, y, z) > 0 {
            neighbor = true;
        }
        if x + 1 < c.size_x && c.cell(x + 1, y, z) > 0 {
            neighbor = true;
        }
        if y > 0 && c.cell(x, y - 1, z) > 0 {
            neighbor = true;
        }
        if y + 1 < c.size_y && c.cell(x, y + 1, z) > 0 {
            neighbor = true;
        }
        if z > 0 && c.cell(x, y, z - 1) > 0 {
            neighbor = true;
        }
        if z + 1 < c.size_z && c.cell(x, y, z + 1) > 0 {
            neighbor = true;
        }
        let repaint = c.cell(x, y, z) > 0;
        if !(at_bottom || neighbor || repaint) {
            return Err(VoxError::NoAdjacency);
        }

        let cooldown = place.cooldown;
        let expiry = if cooldown <= i64::MAX - now {
            now + cooldown
        } else {
            i64::MAX
        };
        if let Err(e) = place.voxel.set(x, y, z, color) {
            return Err(e);
        }
        store.set(pid, user_id, expiry);
        place.add_place_update(x, y, z, user_id);
        hub.broadcast(pid, UpdateMessage(x, y, z, color));
        proof {
            let c0 = old(place).voxel;
            lemma_flat_index_bounds(
                c0.size_x as int, c0.size_y as int, c0.size_z as int,
                x as int, y as int, z as int,
            );
            assert(place.voxel.spec_cell(x as int, y as int, z as int) == color);
        }
        Ok(expiry)
    }
}

/// Resolves the place by id and applies one paint request to it: the
/// whole paint endpoint below request parsing and authentication.
pub fn draw_on_place(
    registry: &mut CanvasRegistry,
    store: &mut CooldownStore,
    hub: &mut BroadcastHub,
    place_id: i64,
    user_id: i64,
    x: usize,
    y: usize,
    z: usize,
    color: u8,
    now: i64,
) -> (r: Result<i64, VoxError>)
    requires
        old(registry).wf(),
        old(store).wf(),
        old(hub).wf(),
        now >= 0,
    ensures
        final(registry).wf(),
        final(store).wf(),
        final(hub).wf(),
        final(registry).last_user_update == old(registry).last_user_update,
        final(hub).next_sink_id == old(hub).next_sink_id,
        !has_place(old(registry).places@, place_id) ==> {
            &&& r == Err::<i64, VoxError>(VoxError::PlaceNotFound)
            &&& final(registry).places@ == old(registry).places@
            &&& *final(store) == *old(store)
            &&& *final(hub) == *old(hub)
        },
        has_place(old(registry).places@, place_id) ==> {
            let i = spec_place_index(old(registry).places@, place_id);
            &&& final(registry).places@.len() == old(registry).places@.len()
            &&& (forall|j: int|
                0 <= j < old(registry).places@.len() && j != i
                    ==> final(registry).places@[j] == old(registry).places@[j])
            &&& draw_transition(
                old(registry).places@[i], final(registry).places@[i],
                old(store).records@, final(store).records@,
                old(hub).view_of(), final(hub).view_of(),
                user_id, x, y, z, color, now, r)
        },
{
    let idx = match registry.find_place(place_id) {
        Some(i) => i,
        None => {
            return Err(VoxError::PlaceNotFound);
        },
    };
    let ghost s0 = registry.places@;
    let place = place_at(&mut registry.places, idx);
    let r = DrawGate::apply(place, store, hub, x, y, z, color, user_id, now);
    proof {
        let s1 = registry.places@;
        assert(s1 == s0.update(idx as int, *place));
        if r is Err {
            assert(s1 =~= s0);
        }
        assert forall|a: int, b: int|
            0 <= a < s1.len() && 0 <= b < s1.len() && a != b
                implies #[trigger] s1[a].id != #[trigger] s1[b].id by {
            assert(s1[a].id == s0[a].id);
            assert(s1[b].id == s0[b].id);
        }
        assert forall|a: int| 0 <= a < s1.len() implies (#[trigger] s1[a]).wf() by {
            if a != idx as int {
                assert(s1[a] == s0[a]);
            }
        }
    }
    r
}

/// Floor exemption: on an otherwise empty canvas, any in-bounds floor
/// cell (y = 0) may be painted with any color by any user whose cooldown
/// has cleared — the draw succeeds and returns the new expiry.
pub proof fn lemma_floor_exempt(
    p: Place,
    st: Seq<(i64, i64, i64)>,
    user_id: i64,
    x: int,
    z: int,
    now: i64,
)
    requires
        p.wf(),
        p.voxel.spec_all_empty(),
        0 <= x < p.voxel.size_x,
        0 <= z < p.voxel.size_z,
        p.voxel.size_y > 0,
        cooldown_ready(st, p.id, user_id, now),
    ensures
        draw_outcome(p, st, user_id, x, 0, z, now)
            == Ok::<i64, VoxError>(spec_expiry(now, p.cooldown)),
{
    assert(p.voxel.spec_in_bounds(x, 0, z));
    assert(paintable(p.voxel, x, 0, z));
}

/// Adjacency enforcement: on an empty canvas, a draw strictly above the
/// floor with every face neighbor empty and the target cell empty is
/// rejected with `NoAdjacency`, whatever the user and color.
pub proof fn lemma_no_adjacency_on_empty(
    p: Place,
    st: Seq<(i64, i64, i64)>,
    user_id: i64,
    x: int,
    y: int,
    z: int,
    now: i64,
)
    requires
        p.wf(),
        p.voxel.spec_all_empty(),
        p.voxel.spec_in_bounds(x, y, z),
        y > 0,
        cooldown_ready(st, p.id, user_id, now),
    ensures
        draw_outcome(p, st, user_id, x, y, z, now)
            == Err::<i64, VoxError>(VoxError::NoAdjacency),
{
    let c = p.voxel;
    let sx = c.size_x as int;
    let sy = c.size_y as int;
    let sz = c.size_z as int;
    assert forall|x2: int, y2: int, z2: int| c.spec_in_bounds(x2, y2, z2)
        implies c.spec_cell(x2, y2, z2) == 0 by {
        lemma_flat_index_bounds(sx, sy, sz, x2, y2, z2);
    }
    assert(!has_neighbor(c, x, y, z));
    assert(!paintable(c, x, y, z));
}

/// Cooldown enforcement: while the recorded expiry lies ahead of the
/// clock a draw fails with exactly the remaining wait; once it has been
/// reached, the cooldown no longer blocks the draw.
pub proof fn lemma_cooldown_enforced(
    p: Place,
    st: Seq<(i64, i64, i64)>,
    user_id: i64,
    x: int,
    y: int,
    z: int,
    expiry: i64,
    t2: i64,
)
    requires
        p.wf(),
        p.voxel.spec_in_bounds(x, y, z),
        spec_lookup(st, p.id, user_id) == Some(expiry),
    ensures
        t2 < expiry ==> draw_outcome(p, st, user_id, x, y, z, t2)
            == Err::<i64, VoxError>(VoxError::CooldownActive((expiry - t2) as i64)),
        t2 >= expiry && paintable(p.voxel, x, y, z)
            ==> draw_outcome(p, st, user_id, x, y, z, t2)
                == Ok::<i64, VoxError>(spec_expiry(t2, p.cooldown)),
{
}

} // verus!
