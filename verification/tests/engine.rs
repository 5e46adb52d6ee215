use voxplace::canvas::VoxelCanvas;
use voxplace::cooldown::CooldownStore;
use voxplace::errors::VoxError;
use voxplace::gate::{draw_on_place, DrawGate};
use voxplace::hub::BroadcastHub;
use voxplace::place::Place;
use voxplace::registry::CanvasRegistry;

fn empty_canvas(id: i64, size: usize) -> VoxelCanvas {
    VoxelCanvas::new(id, format!("canvas-{}", id), 0, size, size, size, None, Some(1), Some(1))
        .unwrap()
}

fn empty_place(place_id: i64, cooldown: i64, size: usize) -> Place {
    Place::new(place_id, true, cooldown, empty_canvas(place_id + 100, size))
}

#[test]
fn canvas_new_empty_grid() {
    let c = empty_canvas(1, 4);
    assert_eq!(c.grid.len(), 64);
    assert!(c.grid.iter().all(|&b| b == 0));
    assert_eq!(c.size_x, 4);
    assert_eq!(c.created_at, 1);
}

#[test]
fn canvas_new_rejects_wrong_grid_length() {
    let r = VoxelCanvas::new(1, "x".to_string(), 0, 2, 2, 2, Some(vec![0u8; 7]), Some(0), Some(0));
    assert!(matches!(r, Err(VoxError::CorruptFormat)));
}

#[test]
fn canvas_index_formula() {
    let c = empty_canvas(1, 4);
    assert_eq!(c.index(1, 2, 3).unwrap(), 1 * 16 + 2 * 4 + 3);
    assert_eq!(c.index(0, 0, 0).unwrap(), 0);
    assert_eq!(c.index(3, 3, 3).unwrap(), 63);
    assert!(matches!(c.index(4, 0, 0), Err(VoxError::InvalidCoordinate)));
}

#[test]
fn canvas_index_cubic_matches_historical_layout() {
    // on a cubic grid the corrected row-major index equals the
    // historical stored layout x*n*n + y*n + z, so stored cubic grids
    // keep their byte layout
    let n = 4usize;
    let c = empty_canvas(1, n);
    for x in 0..n {
        for y in 0..n {
            for z in 0..n {
                assert_eq!(c.index(x, y, z).unwrap(), x * n * n + y * n + z);
            }
        }
    }
}

#[test]
fn canvas_index_non_cubic() {
    let c = VoxelCanvas::new(1, "b".to_string(), 0, 2, 3, 5, None, Some(0), Some(0)).unwrap();
    // row-major: x * (size_y * size_z) + y * size_z + z
    assert_eq!(c.index(1, 2, 4).unwrap(), 15 + 10 + 4);
    assert!(matches!(c.index(0, 3, 0), Err(VoxError::InvalidCoordinate)));
}

#[test]
fn canvas_set_then_get() {
    let mut c = empty_canvas(1, 4);
    c.set(2, 1, 3, 9).unwrap();
    assert_eq!(c.get(2, 1, 3).unwrap(), 9);
    assert_eq!(c.get(2, 1, 2).unwrap(), 0);
    assert!(matches!(c.get(0, 4, 0), Err(VoxError::InvalidCoordinate)));
    assert!(matches!(c.set(0, 0, 4, 1), Err(VoxError::InvalidCoordinate)));
}

#[test]
fn canvas_snapshot_copies_cells() {
    let mut c = empty_canvas(1, 2);
    c.set(1, 0, 1, 7).unwrap();
    let snap = c.snapshot();
    assert_eq!(snap.len(), 8);
    assert_eq!(snap[c.index(1, 0, 1).unwrap()], 7);
}

#[test]
fn draw_floor_succeeds_anywhere_on_empty_canvas() {
    for (x, z, color) in [(0usize, 0usize, 1u8), (3, 0, 255), (1, 2, 42)] {
        let mut place = empty_place(1, 0, 4);
        let mut store = CooldownStore::new();
        let mut hub = BroadcastHub::new();
        let r = DrawGate::apply(&mut place, &mut store, &mut hub, x, 0, z, color, 7, 0);
        assert_eq!(r.unwrap(), 0);
        assert_eq!(place.voxel.get(x, 0, z).unwrap(), color);
    }
}

#[test]
fn draw_scenario_floor_neighbor_isolated() {
    // 4x4x4 canvas, all cells empty.
    let mut place = empty_place(1, 0, 4);
    let mut store = CooldownStore::new();
    let mut hub = BroadcastHub::new();
    // floor cell: allowed by the floor exemption
    let r1 = DrawGate::apply(&mut place, &mut store, &mut hub, 0, 0, 0, 5, 7, 0);
    assert!(r1.is_ok());
    assert_eq!(place.voxel.get(0, 0, 0).unwrap(), 5);
    // directly above: allowed because (0,0,0) now holds paint
    let r2 = DrawGate::apply(&mut place, &mut store, &mut hub, 0, 1, 0, 7, 7, 0);
    assert!(r2.is_ok());
    assert_eq!(place.voxel.get(0, 1, 0).unwrap(), 7);
    // isolated cell above the floor: rejected
    let r3 = DrawGate::apply(&mut place, &mut store, &mut hub, 3, 3, 3, 9, 7, 0);
    assert!(matches!(r3, Err(VoxError::NoAdjacency)));
    assert_eq!(place.voxel.get(3, 3, 3).unwrap(), 0);
}

#[test]
fn draw_repaint_allowed() {
    let mut place = empty_place(1, 0, 4);
    let mut store = CooldownStore::new();
    let mut hub = BroadcastHub::new();
    DrawGate::apply(&mut place, &mut store, &mut hub, 1, 0, 1, 5, 7, 0).unwrap();
    let r = DrawGate::apply(&mut place, &mut store, &mut hub, 1, 0, 1, 6, 7, 0);
    assert!(r.is_ok());
    assert_eq!(place.voxel.get(1, 0, 1).unwrap(), 6);
}

#[test]
fn draw_out_of_bounds() {
    let mut place = empty_place(1, 0, 4);
    let mut store = CooldownStore::new();
    let mut hub = BroadcastHub::new();
    let r = DrawGate::apply(&mut place, &mut store, &mut hub, 4, 0, 0, 5, 7, 0);
    assert!(matches!(r, Err(VoxError::InvalidCoordinate)));
}

#[test]
fn draw_cooldown_scenario() {
    // cooldown = 10 s: paint at t=0 succeeds with expiry 10, a retry at
    // t=5 is refused with 5 s left, a retry at t=11 succeeds.
    let mut place = empty_place(1, 10, 4);
    let mut store = CooldownStore::new();
    let mut hub = BroadcastHub::new();
    let r1 = DrawGate::apply(&mut place, &mut store, &mut hub, 0, 0, 0, 5, 7, 0);
    assert_eq!(r1.unwrap(), 10);
    let r2 = DrawGate::apply(&mut place, &mut store, &mut hub, 1, 0, 0, 5, 7, 5);
    assert!(matches!(r2, Err(VoxError::CooldownActive(5))));
    let r3 = DrawGate::apply(&mut place, &mut store, &mut hub, 1, 0, 0, 5, 7, 11);
    assert_eq!(r3.unwrap(), 21);
}

#[test]
fn draw_cooldown_boundary_instant() {
    // the recorded expiry itself is the first allowed instant
    let mut place = empty_place(1, 10, 4);
    let mut store = CooldownStore::new();
    let mut hub = BroadcastHub::new();
    DrawGate::apply(&mut place, &mut store, &mut hub, 0, 0, 0, 5, 7, 0).unwrap();
    let r = DrawGate::apply(&mut place, &mut store, &mut hub, 1, 0, 0, 5, 7, 10);
    assert_eq!(r.unwrap(), 20);
}

#[test]
fn draw_cooldown_is_per_user_and_place() {
    let mut place = empty_place(1, 10, 4);
    let mut store = CooldownStore::new();
    let mut hub = BroadcastHub::new();
    DrawGate::apply(&mut place, &mut store, &mut hub, 0, 0, 0, 5, 7, 0).unwrap();
    // another user paints immediately
    let r = DrawGate::apply(&mut place, &mut store, &mut hub, 1, 0, 0, 5, 8, 0);
    assert!(r.is_ok());
}

#[test]
fn cooldown_check_runs_before_adjacency() {
    let mut place = empty_place(1, 10, 4);
    let mut store = CooldownStore::new();
    let mut hub = BroadcastHub::new();
    DrawGate::apply(&mut place, &mut store, &mut hub, 0, 0, 0, 5, 7, 0).unwrap();
    // isolated cell AND active cooldown: the cooldown error wins
    let r = DrawGate::apply(&mut place, &mut store, &mut hub, 3, 3, 3, 5, 7, 2);
    assert!(matches!(r, Err(VoxError::CooldownActive(8))));
}

#[test]
fn failed_draw_changes_nothing() {
    let mut place = empty_place(1, 0, 4);
    let mut store = CooldownStore::new();
    let mut hub = BroadcastHub::new();
    hub.register(1, 8).unwrap();
    let r = DrawGate::apply(&mut place, &mut store, &mut hub, 3, 3, 3, 9, 7, 0);
    assert!(r.is_err());
    assert!(place.voxel.grid.iter().all(|&b| b == 0));
    assert!(store.get(1, 7).is_none());
    assert!(hub.take_outbox(0).unwrap().is_empty());
}

#[test]
fn successful_draw_buffers_one_paint_event() {
    let mut place = empty_place(1, 0, 4);
    let mut store = CooldownStore::new();
    let mut hub = BroadcastHub::new();
    DrawGate::apply(&mut place, &mut store, &mut hub, 2, 0, 1, 5, 7, 0).unwrap();
    let pending = place.get_place_updates();
    assert_eq!(pending.len(), 1);
    assert_eq!((pending[0].x, pending[0].y, pending[0].z), (2, 0, 1));
    assert_eq!(pending[0].user_id, 7);
    assert_eq!(pending[0].place_id, 1);
    // drained: a second read finds nothing
    assert!(place.get_place_updates().is_empty());
}

#[test]
fn cooldown_store_upsert() {
    let mut store = CooldownStore::new();
    assert_eq!(store.get(1, 7), None);
    store.set(1, 7, 100);
    store.set(2, 7, 50);
    assert_eq!(store.get(1, 7), Some(100));
    assert_eq!(store.get(2, 7), Some(50));
    store.set(1, 7, 200);
    assert_eq!(store.get(1, 7), Some(200));
    assert_eq!(store.get(2, 7), Some(50));
    assert_eq!(store.get(1, 8), None);
}

#[test]
fn registry_add_find_replace() {
    let mut reg = CanvasRegistry::new();
    assert!(reg.find_place(1).is_none());
    reg.add_place(empty_place(1, 0, 4));
    reg.add_place(empty_place(2, 3, 4));
    assert_eq!(reg.find_place(1), Some(0));
    assert_eq!(reg.find_place(2), Some(1));
    assert!(reg.find_place(3).is_none());
    // same id replaces the place instead of duplicating it
    reg.add_place(empty_place(1, 9, 4));
    assert_eq!(reg.places.len(), 2);
    assert_eq!(reg.places[reg.find_place(1).unwrap()].cooldown, 9);
}

#[test]
fn draw_on_place_resolves_place() {
    let mut reg = CanvasRegistry::new();
    let mut store = CooldownStore::new();
    let mut hub = BroadcastHub::new();
    reg.add_place(empty_place(5, 0, 4));
    let r = draw_on_place(&mut reg, &mut store, &mut hub, 5, 7, 0, 0, 0, 3, 0);
    assert!(r.is_ok());
    let i = reg.find_place(5).unwrap();
    assert_eq!(reg.places[i].voxel.get(0, 0, 0).unwrap(), 3);
}

#[test]
fn draw_on_unknown_place_fails() {
    let mut reg = CanvasRegistry::new();
    let mut store = CooldownStore::new();
    let mut hub = BroadcastHub::new();
    let r = draw_on_place(&mut reg, &mut store, &mut hub, 42, 7, 0, 0, 0, 3, 0);
    assert!(matches!(r, Err(VoxError::PlaceNotFound)));
}

#[test]
fn error_messages() {
    assert_eq!(VoxError::InvalidCoordinate.message(), "Out of bounds");
    assert_eq!(VoxError::NoAdjacency.message(), "Voxel has no neighbors");
    assert_eq!(VoxError::CooldownActive(3).message(), "Cooldown not finished");
    assert_eq!(VoxError::PlaceNotFound.message(), "Invalid place");
}
