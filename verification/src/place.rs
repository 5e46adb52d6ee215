//! A place: a named, cooldown-governed instance wrapping one canvas.
//!
//! Besides the canvas, a place buffers not-yet-flushed paint events and
//! remembers when its grid was last snapshotted; both serve the
//! write-behind persistence layer.

use vstd::prelude::*;

use crate::canvas::VoxelCanvas;

verus! {

/// One paint event: who painted which cell of which place. Buffered by
/// the draw gate, drained in flush batches.
#[derive(Clone, Copy, Debug, PartialEq, Eq, Structural)]
pub struct PlaceUserUpdate {
    pub x: usize,
    pub y: usize,
    pub z: usize,
    pub user_id: i64,
    pub place_id: i64,
}

pub struct Place {
    pub id: i64,
    pub online: bool,
    pub cooldown: i64,
    pub voxel: VoxelCanvas,
    pub pending_updates: Vec<PlaceUserUpdate>,
    pub last_grid_update: i64,
}

impl Place {
    /// The canvas fills its box, the cooldown is a duration, and the
    /// flush timestamps never lie before the epoch.
    pub open spec fn wf(&self) -> bool {
        &&& self.voxel.wf()
        &&& self.cooldown >= 0
        &&& self.last_grid_update >= 0
    }

    pub fn new(id: i64, online: bool, cooldown: i64, voxel: VoxelCanvas) -> (r: Place)
        requires
            cooldown >= 0,
            voxel.wf(),
        ensures
            r.wf(),
            r.id == id,
            r.online == online,
            r.cooldown == cooldown,
            r.voxel == voxel,
            r.pending_updates@.len() == 0,
            r.last_grid_update == 0,
    {
        Place {
            id,
            online,
            cooldown,
            voxel,
            pending_updates: Vec::new(),
            last_grid_update: 0,
        }
    }

    /// Buffers one paint event for the next flush; O(1), no I/O.
    pub fn add_place_update(&mut self, x: usize, y: usize, z: usize, user_id: i64)
        ensures
            final(self).pending_updates@ == old(self).pending_updates@.push(
                PlaceUserUpdate { x, y, z, user_id, place_id: old(self).id }),
            final(self).id == old(self).id,
            final(self).online == old(self).online,
            final(self).cooldown == old(self).cooldown,
            final(self).voxel == old(self).voxel,
            final(self).last_grid_update == old(self).last_grid_update,
    {
        let place_id = self.id;
        self.pending_updates.push(PlaceUserUpdate { x, y, z, user_id, place_id });
    }

    /// Drains the buffered paint events, leaving the buffer empty.
    pub fn get_place_updates(&mut self) -> (r: Vec<PlaceUserUpdate>)
        ensures
            r@ == old(self).pending_updates@,
            final(self).pending_updates@.len() == 0,
            final(self).id == old(self).id,
            final(self).online == old(self).online,
            final(self).cooldown == old(self).cooldown,
            final(self).voxel == old(self).voxel,
            final(self).last_grid_update == old(self).last_grid_update,
    {
        let r = self.pending_updates.split_off(0);
        proof {
            assert(r@ =~= old(self).pending_updates@);
        }
        r
    }

    pub fn last_grid_update(&self) -> (r: i64)
        ensures
            r == self.last_grid_update,
    {
        self.last_grid_update
    }

    pub fn set_last_grid_update(&mut self, last_grid_update: i64)
        ensures
            *final(self) == (Place { last_grid_update, ..*old(self) }),
    {
        self.last_grid_update = last_grid_update;
    }
}

} // verus!
