//! Write-behind persistence planning.
//!
//! Paint events are buffered in memory per place and never written
//! synchronously. On a timer the hosting process calls `flush_tick`,
//! which drains the buffers into one batch — upserted per cell, latest
//! painter wins — and, for each place whose grid flush has aged out,
//! prepares a compressed grid snapshot. The caller writes the plan to
//! durable storage; a failed write is logged and discarded, never
//! retried, since the paints already succeeded in memory.

use vstd::prelude::*;

use crate::canvas::same_canvas;
use crate::codec::gunzip_of;
use crate::place::{Place, PlaceUserUpdate};
use crate::registry::{place_at, CanvasRegistry};

verus! {

/// Seconds a buffer or a grid may age before the next tick flushes it.
pub const FLUSH_INTERVAL_SECS: i64 = 5;

/// One compressed grid bound for its durable canvas row.
pub struct GridSnapshot {
    pub voxel_id: i64,
    pub blob: Vec<u8>,
}

/// Everything one tick hands to durable storage.
pub struct FlushPlan {
    pub user_updates: Vec<PlaceUserUpdate>,
    pub snapshots: Vec<GridSnapshot>,
}

/// The cell a paint event lands on.
pub open spec fn cell_key(u: PlaceUserUpdate) -> (i64, int, int, int) {
    (u.place_id, u.x as int, u.y as int, u.z as int)
}

pub open spec fn unique_keys(s: Seq<PlaceUserUpdate>) -> bool {
    forall|i: int, j: int|
        0 <= i < s.len() && 0 <= j < s.len() && i != j
            ==> cell_key(#[trigger] s[i]) != cell_key(#[trigger] s[j])
}

/// No later event in `s` paints the same cell as the event at `j`.
pub open spec fn latest_at(s: Seq<PlaceUserUpdate>, j: int) -> bool {
    forall|k: int| j < k < s.len() ==> cell_key(#[trigger] s[k]) != cell_key(s[j])
}

/// The entry at `i` of the batch is an input event that no later input
/// event painted over.
pub open spec fn from_latest(input: Seq<PlaceUserUpdate>, out: Seq<PlaceUserUpdate>, i: int)
    -> bool {
    exists|j: int| 0 <= j < input.len() && out[i] == #[trigger] input[j] && latest_at(input, j)
}

/// Some entry of the batch paints the cell of the input event at `j`.
pub open spec fn covered(input: Seq<PlaceUserUpdate>, out: Seq<PlaceUserUpdate>, j: int)
    -> bool {
    exists|i: int| 0 <= i < out.len() && cell_key(#[trigger] out[i]) == cell_key(input[j])
}

/// The batch upsert: one entry per painted cell, carrying the latest
/// painter of that cell, and a cell for every event of the input.
pub open spec fn coalesced(input: Seq<PlaceUserUpdate>, out: Seq<PlaceUserUpdate>) -> bool {
    &&& unique_keys(out)
    &&& (forall|i: int| 0 <= i < out.len() ==> #[trigger] from_latest(input, out, i))
    &&& (forall|j: int| 0 <= j < input.len() ==> #[trigger] covered(input, out, j))
}

/// Collapses a drained buffer into its batch: per cell the latest
/// painter survives, every painted cell is kept.
pub fn coalesce_updates(updates: &Vec<PlaceUserUpdate>) -> (r: Vec<PlaceUserUpdate>)
    ensures
        coalesced(updates@, r@),
{
    let s = updates;
    let ghost sv = updates@;
    let mut out: Vec<PlaceUserUpdate> = Vec::new();
    // For each batch entry, the input position it came from; for each
    // input position, the batch entry covering its cell.
    let ghost mut srcidx: Seq<int> = Seq::empty();
    let ghost mut covidx: Seq<int> = Seq::empty();
    let n = s.len();
    let mut j: usize = 0;
    while j < n
        invariant
            n == sv.len(),
            sv == s@,
            j <= n,
            unique_keys(out@),
            srcidx.len() == out@.len(),
            covidx.len() == j,
            forall|i: int| 0 <= i < out@.len() ==> {
                &&& 0 <= #[trigger] srcidx[i] < j
                &&& out@[i] == sv[srcidx[i]]
                &&& latest_upto(sv, srcidx[i], j as int)
            },
            forall|j2: int| 0 <= j2 < j ==> {
                &&& 0 <= #[trigger] covidx[j2] < out@.len()
                &&& cell_key(out@[covidx[j2]]) == cell_key(sv[j2])
            },
        decreases n - j,
    {
        let u = s[j];
        let ghost out0 = out@;
        let m = out.len();
        let mut i: usize = 0;
        let mut found = false;
        while i < m
            invariant_except_break
                !found,
            invariant
                m == out@.len(),
                out@ == out0,
                i <= m,
                0 <= j < sv.len(),
                u == sv[j as int],
                forall|i2: int| 0 <= i2 < i
                    ==> cell_key(#[trigger] out@[i2]) != cell_key(u),
            ensures
                m == out@.len(),
                out@ == out0,
                0 <= j < sv.len(),
                u == sv[j as int],
                found ==> i < m && cell_key(out@[i as int]) == cell_key(u),
                !found ==> forall|i2: int| 0 <= i2 < m
                    ==> cell_key(#[trigger] out@[i2]) != cell_key(u),
            decreases m - i,
        {
            if out[i].place_id == u.place_id && out[i].x == u.x && out[i].y == u.y
                && out[i].z == u.z {
                found = true;
                break;
            }
            i = i + 1;
        }
        if found {
            update_at(&mut out, i, u);
            proof {
                srcidx = srcidx.update(i as int, j as int);
                covidx = covidx.push(i as int);
                assert forall|i2: int| 0 <= i2 < out@.len() implies {
                    &&& 0 <= #[trigger] srcidx[i2] < j + 1
                    &&& out@[i2] == sv[srcidx[i2]]
                    &&& latest_upto(sv, srcidx[i2], j + 1)
                } by {
                    if i2 != i as int {
                        assert(out@[i2] == out0[i2]);
                        assert(cell_key(out0[i2]) != cell_key(out0[i as int]));
                        assert(cell_key(sv[srcidx[i2]]) != cell_key(sv[j as int]));
                    }
                }
                assert forall|j2: int| 0 <= j2 < j + 1 implies {
                    &&& 0 <= #[trigger] covidx[j2] < out@.len()
                    &&& cell_key(out@[covidx[j2]]) == cell_key(sv[j2])
                } by {
                    if j2 < j as int {
                        let c = covidx[j2];
                        if c == i as int {
                            assert(cell_key(out@[c]) == cell_key(out0[c]));
                        } else {
                            assert(out@[c] == out0[c]);
                        }
                    }
                }
                assert forall|a: int, b: int|
                    0 <= a < out@.len() && 0 <= b < out@.len() && a != b
                        implies cell_key(#[trigger] out@[a]) != cell_key(#[trigger] out@[b]) by {
                    assert(cell_key(out@[a]) == cell_key(out0[a]));
                    assert(cell_key(out@[b]) == cell_key(out0[b]));
                }
            }
        } else {
            out.push(u);
            proof {
                srcidx = srcidx.push(j as int);
                covidx = covidx.push(out@.len() - 1);
                assert forall|i2: int| 0 <= i2 < out@.len() implies {
                    &&& 0 <= #[trigger] srcidx[i2] < j + 1
                    &&& out@[i2] == sv[srcidx[i2]]
                    &&& latest_upto(sv, srcidx[i2], j + 1)
                } by {
                    if i2 < out@.len() - 1 {
                        assert(out@[i2] == out0[i2]);
                        assert(cell_key(out0[i2]) != cell_key(u));
                        assert(cell_key(sv[srcidx[i2]]) != cell_key(sv[j as int]));
                    } else {
                        assert(out@[i2] == sv[j as int]);
                    }
                }
                assert forall|j2: int| 0 <= j2 < j + 1 implies {
                    &&& 0 <= #[trigger] covidx[j2] < out@.len()
                    &&& cell_key(out@[covidx[j2]]) == cell_key(sv[j2])
                } by {
                    if j2 < j as int {
                        assert(out@[covidx[j2]] == out0[covidx[j2]]);
                    }
                }
                assert forall|a: int, b: int|
                    0 <= a < out@.len() && 0 <= b < out@.len() && a != b
                        implies cell_key(#[trigger] out@[a]) != cell_key(#[trigger] out@[b]) by {
                    let c = if a < out@.len() - 1 { a } else { b };
                    if a < out@.len() - 1 && b < out@.len() - 1 {
                        assert(out@[a] == out0[a] && out@[b] == out0[b]);
                    } else {
                        assert(out@[c] == out0[c]);
                        assert(cell_key(out0[c]) != cell_key(u));
                    }
                }
            }
        }
        j = j + 1;
    }
    proof {
        lemma_coalesced_intro(sv, out@, srcidx, covidx);
    }
    out
}

/// No event between `j` (exclusive) and `upto` (exclusive) paints the
/// cell of the event at `j`.
pub open spec fn latest_upto(s: Seq<PlaceUserUpdate>, j: int, upto: int) -> bool {
    forall|k: int| j < k < upto ==> cell_key(#[trigger] s[k]) != cell_key(s[j])
}

/// A batch with explicit witnesses — for each entry its input position,
/// for each input position its covering entry — is a coalesced batch.
proof fn lemma_coalesced_intro(
    input: Seq<PlaceUserUpdate>,
    out: Seq<PlaceUserUpdate>,
    srcidx: Seq<int>,
    covidx: Seq<int>,
)
    requires
        unique_keys(out),
        srcidx.len() == out.len(),
        covidx.len() == input.len(),
        forall|i: int| 0 <= i < out.len() ==> {
            &&& 0 <= #[trigger] srcidx[i] < input.len()
            &&& out[i] == input[srcidx[i]]
            &&& latest_upto(input, srcidx[i], input.len() as int)
        },
        forall|j: int| 0 <= j < input.len() ==> {
            &&& 0 <= #[trigger] covidx[j] < out.len()
            &&& cell_key(out[covidx[j]]) == cell_key(input[j])
        },
    ensures
        coalesced(input, out),
{
    assert forall|i: int| 0 <= i < out.len() implies #[trigger] from_latest(input, out, i) by {
        let w = srcidx[i];
        assert(latest_at(input, w));
        assert(0 <= w < input.len() && out[i] == input[w] && latest_at(input, w));
    }
    assert forall|j: int| 0 <= j < input.len() implies #[trigger] covered(input, out, j) by {
        let w = covidx[j];
        assert(0 <= w < out.len() && cell_key(out[w]) == cell_key(input[j]));
    }
}

/// Replaces one element of a batch being built.
fn update_at(v: &mut Vec<PlaceUserUpdate>, i: usize, value: PlaceUserUpdate)
    requires
        i < old(v)@.len(),
    ensures
        final(v)@ == old(v)@.update(i as int, value),
{
    let slot = &mut v[i];
    *slot = value;
}

/// All buffered paint events of all places, in registry order.
pub open spec fn all_pending(s: Seq<Place>) -> Seq<PlaceUserUpdate>
    decreases s.len(),
{
    if s.len() == 0 {
        Seq::empty()
    } else {
        all_pending(s.drop_last()) + s.last().pending_updates@
    }
}

/// Is the user-update buffer of the registry due for a flush?
pub open spec fn user_flush_due(last_user_update: i64, now: i64) -> bool {
    now - last_user_update > FLUSH_INTERVAL_SECS
}

/// Is the grid of this place due for a snapshot?
pub open spec fn grid_flush_due(p: Place, now: i64) -> bool {
    now - p.last_grid_update > FLUSH_INTERVAL_SECS
}

/// The snapshot belongs to a place of the list whose grid flush was
/// due, and its blob decompresses to exactly that place's cells.
pub open spec fn snapshot_of(places: Seq<Place>, s: GridSnapshot, now: i64) -> bool {
    exists|i: int| {
        &&& 0 <= i < places.len()
        &&& grid_flush_due(#[trigger] places[i], now)
        &&& s.voxel_id == places[i].voxel.id
        &&& gunzip_of(s.blob@) == Some(places[i].voxel.grid@)
    }
}

/// Some snapshot of the plan carries exactly this place's grid.
pub open spec fn snapshot_covering(snaps: Seq<GridSnapshot>, p: Place) -> bool {
    exists|k: int| {
        &&& 0 <= k < snaps.len()
        &&& (#[trigger] snaps[k]).voxel_id == p.voxel.id
        &&& gunzip_of(snaps[k].blob@) == Some(p.voxel.grid@)
    }
}

/// Drains every place's buffered paint events into one coalesced batch,
/// if the buffers have aged past the flush interval; otherwise leaves
/// everything untouched.
pub fn drain_user_updates(registry: &mut CanvasRegistry, now: i64) -> (r: Option<
    Vec<PlaceUserUpdate>>)
    requires
        old(registry).wf(),
        now >= 0,
    ensures
        final(registry).wf(),
        r is Some <==> user_flush_due(old(registry).last_user_update, now),
        r is None ==> *final(registry) == *old(registry),
        r matches Some(v) ==> {
            &&& coalesced(all_pending(old(registry).places@), v@)
            &&& final(registry).last_user_update == now
            &&& final(registry).places@.len() == old(registry).places@.len()
            &&& (forall|i: int| 0 <= i < old(registry).places@.len() ==> {
                let p0 = #[trigger] old(registry).places@[i];
                let p1 = final(registry).places@[i];
                &&& p1.id == p0.id
                &&& p1.online == p0.online
                &&& p1.cooldown == p0.cooldown
                &&& same_canvas(p1.voxel, p0.voxel)
                &&& p1.pending_updates@.len() == 0
                &&& p1.last_grid_update == p0.last_grid_update
            })
        },
{
    if !(now - registry.last_user_update > FLUSH_INTERVAL_SECS) {
        return None;
    }
    let ghost s0 = registry.places@;
    let mut gathered: Vec<PlaceUserUpdate> = Vec::new();
    let n = registry.places.len();
    let mut i: usize = 0;
    while i < n
        invariant
            old(registry).wf(),
            s0 == old(registry).places@,
            n == registry.places@.len(),
            n == s0.len(),
            i <= n,
            registry.last_user_update == old(registry).last_user_update,
            gathered@ == all_pending(s0.subrange(0, i as int)),
            forall|j: int| i <= j < n ==> registry.places@[j] == s0[j],
            forall|j: int| 0 <= j < i ==> {
                let p0 = #[trigger] s0[j];
                let p1 = registry.places@[j];
                &&& p1.id == p0.id
                &&& p1.online == p0.online
                &&& p1.cooldown == p0.cooldown
                &&& p1.voxel == p0.voxel
                &&& p1.pending_updates@.len() == 0
                &&& p1.last_grid_update == p0.last_grid_update
            },
        decreases n - i,
    {
        let ghost r0 = registry.places@;
        let place = place_at(&mut registry.places, i);
        let drained = place.get_place_updates();
        let ghost g0 = gathered@;
        push_updates(&mut gathered, &drained);
        proof {
            assert(s0.subrange(0, i + 1).drop_last() =~= s0.subrange(0, i as int));
            assert(s0.subrange(0, i + 1).last() == s0[i as int]);
            assert(gathered@ =~= all_pending(s0.subrange(0, i + 1)));
            assert forall|j: int| 0 <= j < i + 1 implies {
                let p0 = #[trigger] s0[j];
                let p1 = registry.places@[j];
                &&& p1.id == p0.id
                &&& p1.online == p0.online
                &&& p1.cooldown == p0.cooldown
                &&& p1.voxel == p0.voxel
                &&& p1.pending_updates@.len() == 0
                &&& p1.last_grid_update == p0.last_grid_update
            } by {
                if j < i as int {
                    assert(registry.places@[j] == r0[j]);
                }
            }
        }
        i = i + 1;
    }
    proof {
        assert(s0.subrange(0, n as int) =~= s0);
    }
    let batch = coalesce_updates(&gathered);
    registry.last_user_update = now;
    proof {
        let s1 = registry.places@;
        assert forall|a: int, b: int|
            0 <= a < s1.len() && 0 <= b < s1.len() && a != b
                implies #[trigger] s1[a].id != #[trigger] s1[b].id by {
            assert(s1[a].id == s0[a].id);
            assert(s1[b].id == s0[b].id);
        }
        assert forall|a: int| 0 <= a < s1.len() implies (#[trigger] s1[a]).wf() by {
            assert(s0[a].wf());
            assert(s1[a].voxel == s0[a].voxel);
        }
    }
    Some(batch)
}

/// Appends a drained buffer to the gathered batch input.
fn push_updates(out: &mut Vec<PlaceUserUpdate>, src: &Vec<PlaceUserUpdate>)
    ensures
        final(out)@ == old(out)@ + src@,
{
    proof {
        assert(out@ =~= old(out)@ + src@.subrange(0, 0));
    }
    let n = src.len();
    let mut i: usize = 0;
    while i < n
        invariant
            n == src@.len(),
            i <= n,
            out@ == old(out)@ + src@.subrange(0, i as int),
        decreases n - i,
    {
        out.push(src[i]);
        proof {
            assert(out@ =~= old(out)@ + src@.subrange(0, i + 1));
        }
        i = i + 1;
    }
    proof {
        assert(src@.subrange(0, n as int) =~= src@);
    }
}

/// Prepares one place's grid snapshot if its last flush has aged out,
/// stamping the flush time. A due place always yields its snapshot:
/// the compressor writes into memory and cannot fail.
pub fn plan_grid_snapshot(place: &mut Place, now: i64) -> (r: Option<GridSnapshot>)
    requires
        old(place).wf(),
        now >= 0,
    ensures
        final(place).wf(),
        !grid_flush_due(*old(place), now) ==> r is None && *final(place) == *old(place),
        grid_flush_due(*old(place), now) ==> {
            &&& *final(place) == (Place { last_grid_update: now, ..*old(place) })
            &&& r is Some
            &&& (r matches Some(s) ==> s.voxel_id == old(place).voxel.id
                && gunzip_of(s.blob@) == Some(old(place).voxel.grid@))
        },
{
    if !(now - place.last_grid_update > FLUSH_INTERVAL_SECS) {
        return None;
    }
    place.set_last_grid_update(now);
    let voxel_id = place.voxel.id;
    match place.voxel.snapshot_blob() {
        Some(blob) => Some(GridSnapshot { voxel_id, blob }),
        None => None,
    }
}

/// One timer tick: drains aged paint buffers into a coalesced batch and
/// prepares a compressed snapshot of every place whose grid flush has
/// aged out. The caller writes the plan to durable storage and logs,
/// but never retries, whatever fails there.
pub fn flush_tick(registry: &mut CanvasRegistry, now: i64) -> (r: FlushPlan)
    requires
        old(registry).wf(),
        now >= 0,
    ensures
        final(registry).wf(),
        user_flush_due(old(registry).last_user_update, now) ==> {
            &&& coalesced(all_pending(old(registry).places@), r.user_updates@)
            &&& final(registry).last_user_update == now
        },
        !user_flush_due(old(registry).last_user_update, now) ==> {
            &&& r.user_updates@.len() == 0
            &&& final(registry).last_user_update == old(registry).last_user_update
        },
        final(registry).places@.len() == old(registry).places@.len(),
        forall|i: int| 0 <= i < old(registry).places@.len() ==> {
            let p0 = #[trigger] old(registry).places@[i];
            let p1 = final(registry).places@[i];
            &&& p1.id == p0.id
            &&& p1.online == p0.online
            &&& p1.cooldown == p0.cooldown
            &&& same_canvas(p1.voxel, p0.voxel)
            &&& (user_flush_due(old(registry).last_user_update, now)
                ==> p1.pending_updates@.len() == 0)
            &&& (!user_flush_due(old(registry).last_user_update, now)
                ==> p1.pending_updates@ == p0.pending_updates@)
            &&& (grid_flush_due(p0, now) ==> p1.last_grid_update == now)
            &&& (!grid_flush_due(p0, now) ==> p1.last_grid_update == p0.last_grid_update)
        },
        forall|k: int| 0 <= k < r.snapshots@.len()
            ==> #[trigger] snapshot_of(old(registry).places@, r.snapshots@[k], now),
        forall|i: int| 0 <= i < old(registry).places@.len()
            && grid_flush_due(old(registry).places@[i], now)
            ==> #[trigger] snapshot_covering(r.snapshots@, old(registry).places@[i]),
{
    let user_updates = match drain_user_updates(registry, now) {
        Some(v) => v,
        None => Vec::new(),
    };
    let ghost s0 = old(registry).places@;
    let ghost smid = registry.places@;
    let ghost due_u = user_flush_due(old(registry).last_user_update, now);
    let ghost lmid = registry.last_user_update;
    let mut snapshots: Vec<GridSnapshot> = Vec::new();
    let ghost mut snapsrc: Seq<int> = Seq::empty();
    // For each processed place that was due, the snapshot covering it.
    let ghost mut cover: Seq<int> = Seq::empty();
    let n = registry.places.len();
    proof {
        if due_u {
            assert forall|j: int| 0 <= j < smid.len() implies {
                &&& (#[trigger] smid[j]).id == s0[j].id
                &&& smid[j].online == s0[j].online
                &&& smid[j].cooldown == s0[j].cooldown
                &&& same_canvas(smid[j].voxel, s0[j].voxel)
                &&& smid[j].pending_updates@.len() == 0
                &&& smid[j].last_grid_update == s0[j].last_grid_update
            } by {
                assert(old(registry).places@[j] == s0[j]);
            }
        }
    }
    let mut i: usize = 0;
    while i < n
        invariant
            old(registry).wf(),
            s0 == old(registry).places@,
            n == registry.places@.len(),
            n == smid.len(),
            n == s0.len(),
            i <= n,
            now >= 0,
            registry.last_user_update == lmid,
            lmid >= 0,
            forall|j: int| 0 <= j < n ==> (#[trigger] smid[j]).wf(),
            forall|j: int| 0 <= j < n ==> smid[j].id == s0[j].id,
            forall|j: int| 0 <= j < n ==> smid[j].online == s0[j].online,
            forall|j: int| 0 <= j < n ==> smid[j].cooldown == s0[j].cooldown,
            forall|j: int| 0 <= j < n ==> same_canvas((#[trigger] smid[j]).voxel, s0[j].voxel),
            forall|j: int| 0 <= j < n
                ==> (#[trigger] smid[j]).last_grid_update == s0[j].last_grid_update,
            due_u ==> forall|j: int| 0 <= j < n
                ==> (#[trigger] smid[j]).pending_updates@.len() == 0,
            !due_u ==> forall|j: int| 0 <= j < n
                ==> (#[trigger] smid[j]).pending_updates@ == s0[j].pending_updates@,
            crate::registry::distinct_place_ids(smid),
            forall|j: int| i <= j < n ==> registry.places@[j] == smid[j],
            forall|j: int| 0 <= j < i ==> {
                let q1 = #[trigger] registry.places@[j];
                let q0 = smid[j];
                &&& q1.wf()
                &&& q1.id == q0.id
                &&& q1.online == q0.online
                &&& q1.cooldown == q0.cooldown
                &&& q1.voxel == q0.voxel
                &&& q1.pending_updates@ == q0.pending_updates@
                &&& (grid_flush_due(q0, now) ==> q1.last_grid_update == now)
                &&& (!grid_flush_due(q0, now) ==> q1.last_grid_update == q0.last_grid_update)
            },
            snapsrc.len() == snapshots@.len(),
            forall|k: int| 0 <= k < snapshots@.len() ==> {
                &&& 0 <= #[trigger] snapsrc[k] < n
                &&& grid_flush_due(smid[snapsrc[k]], now)
                &&& snapshots@[k].voxel_id == smid[snapsrc[k]].voxel.id
                &&& gunzip_of(snapshots@[k].blob@) == Some(smid[snapsrc[k]].voxel.grid@)
            },
            cover.len() == i,
            forall|j: int| 0 <= j < i && grid_flush_due(smid[j], now) ==> {
                &&& 0 <= #[trigger] cover[j] < snapshots@.len()
                &&& snapshots@[cover[j]].voxel_id == smid[j].voxel.id
                &&& gunzip_of(snapshots@[cover[j]].blob@) == Some(smid[j].voxel.grid@)
            },
        decreases n - i,
    {
        let ghost snaps0 = snapshots@;
        let ghost r1 = registry.places@;
        proof {
            assert(registry.places@[i as int] == smid[i as int]);
            assert(smid[i as int].wf());
        }
        let place = place_at(&mut registry.places, i);
        match plan_grid_snapshot(place, now) {
            Some(s) => {
                proof {
                    assert(grid_flush_due(smid[i as int], now));
                }
                snapshots.push(s);
                proof {
                    snapsrc = snapsrc.push(i as int);
                    cover = cover.push(snapshots@.len() - 1);
                    assert forall|j: int| 0 <= j < i + 1 && grid_flush_due(smid[j], now)
                        implies {
                        &&& 0 <= #[trigger] cover[j] < snapshots@.len()
                        &&& snapshots@[cover[j]].voxel_id == smid[j].voxel.id
                        &&& gunzip_of(snapshots@[cover[j]].blob@) == Some(smid[j].voxel.grid@)
                    } by {
                        if j < i as int {
                            assert(snapshots@[cover[j]] == snaps0[cover[j]]);
                        } else {
                            assert(cover[j] == snapshots@.len() - 1);
                            assert(snapshots@[cover[j]].voxel_id == smid[i as int].voxel.id);
                        }
                    }
                    assert forall|k: int| 0 <= k < snapshots@.len() implies {
                        &&& 0 <= #[trigger] snapsrc[k] < n
                        &&& grid_flush_due(smid[snapsrc[k]], now)
                        &&& snapshots@[k].voxel_id == smid[snapsrc[k]].voxel.id
                        &&& gunzip_of(snapshots@[k].blob@) == Some(smid[snapsrc[k]].voxel.grid@)
                    } by {
                        if k < snapshots@.len() - 1 {
                            assert(snapshots@[k] == snaps0[k]);
                            assert(snapsrc[k] == snapsrc.drop_last()[k]);
                        } else {
                            assert(snapshots@[k].voxel_id == smid[i as int].voxel.id);
                        }
                    }
                }
            },
            None => {
                proof {
                    assert(!grid_flush_due(smid[i as int], now));
                    cover = cover.push(0);
                }
            },
        }
        proof {
            assert forall|j: int| 0 <= j < i + 1 && grid_flush_due(smid[j], now)
                implies {
                &&& 0 <= #[trigger] cover[j] < snapshots@.len()
                &&& snapshots@[cover[j]].voxel_id == smid[j].voxel.id
                &&& gunzip_of(snapshots@[cover[j]].blob@) == Some(smid[j].voxel.grid@)
            } by {
                assert(j < i as int || j == i as int);
            }
            assert forall|j: int| 0 <= j < i + 1 implies {
                let q1 = #[trigger] registry.places@[j];
                let q0 = smid[j];
                &&& q1.wf()
                &&& q1.id == q0.id
                &&& q1.online == q0.online
                &&& q1.cooldown == q0.cooldown
                &&& q1.voxel == q0.voxel
                &&& q1.pending_updates@ == q0.pending_updates@
                &&& (grid_flush_due(q0, now) ==> q1.last_grid_update == now)
                &&& (!grid_flush_due(q0, now) ==> q1.last_grid_update == q0.last_grid_update)
            } by {
                assert(smid[j].wf());
                if j < i as int {
                    assert(registry.places@[j] == r1[j]);
                    assert(r1[j] == registry.places@[j]);
                } else {
                    assert(j == i as int);
                    assert(r1[j] == smid[j]);
                    assert(registry.places@[j].wf());
                    assert(registry.places@[j].id == smid[j].id);
                    assert(registry.places@[j].online == smid[j].online);
                    assert(registry.places@[j].cooldown == smid[j].cooldown);
                    assert(registry.places@[j].voxel == smid[j].voxel);
                    assert(registry.places@[j].pending_updates@ == smid[j].pending_updates@);
                    assert(grid_flush_due(smid[j], now)
                        ==> registry.places@[j].last_grid_update == now);
                    assert(!grid_flush_due(smid[j], now)
                        ==> registry.places@[j].last_grid_update == smid[j].last_grid_update);
                }
            }
            assert forall|j: int| i + 1 <= j < n
                implies registry.places@[j] == smid[j] by {
                assert(r1[j] == smid[j]);
                assert(registry.places@[j] == r1[j]);
            }
        }
        i = i + 1;
    }
    proof {
        let s1 = registry.places@;
        assert forall|a: int, b: int|
            0 <= a < s1.len() && 0 <= b < s1.len() && a != b
                implies #[trigger] s1[a].id != #[trigger] s1[b].id by {
            assert(s1[a].id == smid[a].id);
            assert(s1[b].id == smid[b].id);
        }
        assert forall|a: int| 0 <= a < s1.len() implies (#[trigger] s1[a]).wf() by {
            assert(smid[a].wf());
        }
        assert forall|k: int| 0 <= k < snapshots@.len()
            implies #[trigger] snapshot_of(s0, snapshots@[k], now) by {
            let w = snapsrc[k];
            assert(same_canvas(smid[w].voxel, s0[w].voxel));
            assert(smid[w].last_grid_update == s0[w].last_grid_update);
            assert(0 <= w < s0.len() && grid_flush_due(s0[w], now)
                && snapshots@[k].voxel_id == s0[w].voxel.id
                && gunzip_of(snapshots@[k].blob@) == Some(s0[w].voxel.grid@));
        }
        assert forall|i2: int| 0 <= i2 < s0.len() && grid_flush_due(s0[i2], now)
            implies #[trigger] snapshot_covering(snapshots@, s0[i2]) by {
            assert(smid[i2].last_grid_update == s0[i2].last_grid_update);
            assert(grid_flush_due(smid[i2], now));
            let w = cover[i2];
            assert(same_canvas(smid[i2].voxel, s0[i2].voxel));
            assert(0 <= w < snapshots@.len()
                && snapshots@[w].voxel_id == s0[i2].voxel.id
                && gunzip_of(snapshots@[w].blob@) == Some(s0[i2].voxel.grid@));
        }
    }
    FlushPlan { user_updates, snapshots }
}

} // verus!
