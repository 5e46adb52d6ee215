use voxplace::canvas::VoxelCanvas;
use voxplace::comment::Comment;
use voxplace::cooldown::CooldownStore;
use voxplace::gate::DrawGate;
use voxplace::hub::{BroadcastHub, UpdateMessage};
use voxplace::persist::{coalesce_updates, drain_user_updates, flush_tick, plan_grid_snapshot};
use voxplace::place::{Place, PlaceUserUpdate};
use voxplace::post::Post;
use voxplace::registry::CanvasRegistry;
use voxplace::user::User;

fn empty_place(place_id: i64, cooldown: i64, size: usize) -> Place {
    let canvas = VoxelCanvas::new(
        place_id + 100,
        format!("canvas-{}", place_id),
        0,
        size,
        size,
        size,
        None,
        Some(1),
        Some(1),
    )
    .unwrap();
    Place::new(place_id, true, cooldown, canvas)
}

fn upd(place_id: i64, x: usize, y: usize, z: usize, user_id: i64) -> PlaceUserUpdate {
    PlaceUserUpdate { x, y, z, user_id, place_id }
}

#[test]
fn hub_fan_out_delivers_once_per_sink() {
    let mut hub = BroadcastHub::new();
    let a = hub.register(1, 8).unwrap();
    let b = hub.register(1, 8).unwrap();
    let other = hub.register(2, 8).unwrap();
    hub.broadcast(1, UpdateMessage(1, 2, 3, 9));
    assert_eq!(hub.take_outbox(a).unwrap(), vec![UpdateMessage(1, 2, 3, 9)]);
    assert_eq!(hub.take_outbox(b).unwrap(), vec![UpdateMessage(1, 2, 3, 9)]);
    assert!(hub.take_outbox(other).unwrap().is_empty());
}

#[test]
fn hub_preserves_broadcast_order() {
    let mut hub = BroadcastHub::new();
    let a = hub.register(1, 8).unwrap();
    hub.broadcast(1, UpdateMessage(0, 0, 0, 1));
    hub.broadcast(1, UpdateMessage(1, 0, 0, 2));
    hub.broadcast(1, UpdateMessage(2, 0, 0, 3));
    let msgs = hub.take_outbox(a).unwrap();
    assert_eq!(
        msgs,
        vec![
            UpdateMessage(0, 0, 0, 1),
            UpdateMessage(1, 0, 0, 2),
            UpdateMessage(2, 0, 0, 3),
        ]
    );
    // drained: the queue is empty again
    assert!(hub.take_outbox(a).unwrap().is_empty());
}

#[test]
fn hub_drops_full_sink_and_keeps_others() {
    let mut hub = BroadcastHub::new();
    let slow = hub.register(1, 1).unwrap();
    let fast = hub.register(1, 8).unwrap();
    hub.broadcast(1, UpdateMessage(0, 0, 0, 1));
    hub.broadcast(1, UpdateMessage(1, 0, 0, 2));
    // the slow sink's queue was full at the second broadcast: dropped
    assert!(hub.take_outbox(slow).is_none());
    assert_eq!(hub.take_outbox(fast).unwrap().len(), 2);
}

#[test]
fn hub_unregister_removes_only_that_sink() {
    let mut hub = BroadcastHub::new();
    let a = hub.register(1, 8).unwrap();
    let b = hub.register(1, 8).unwrap();
    hub.unregister(a);
    assert!(hub.take_outbox(a).is_none());
    hub.broadcast(1, UpdateMessage(0, 0, 0, 1));
    assert_eq!(hub.take_outbox(b).unwrap().len(), 1);
}

#[test]
fn draw_broadcasts_to_viewers_of_the_place_only() {
    let mut place = empty_place(1, 0, 4);
    let mut store = CooldownStore::new();
    let mut hub = BroadcastHub::new();
    let viewer = hub.register(1, 8).unwrap();
    let stranger = hub.register(9, 8).unwrap();
    DrawGate::apply(&mut place, &mut store, &mut hub, 2, 0, 3, 7, 42, 0).unwrap();
    assert_eq!(hub.take_outbox(viewer).unwrap(), vec![UpdateMessage(2, 0, 3, 7)]);
    assert!(hub.take_outbox(stranger).unwrap().is_empty());
}

#[test]
fn coalesce_keeps_latest_painter_per_cell() {
    let input = vec![
        upd(1, 0, 0, 0, 10),
        upd(1, 1, 0, 0, 11),
        upd(1, 0, 0, 0, 12), // repaints the first cell
        upd(2, 0, 0, 0, 13), // same cell, different place
    ];
    let out = coalesce_updates(&input);
    assert_eq!(out.len(), 3);
    let first = out.iter().find(|u| u.place_id == 1 && u.x == 0).unwrap();
    assert_eq!(first.user_id, 12);
    let second = out.iter().find(|u| u.x == 1).unwrap();
    assert_eq!(second.user_id, 11);
    let third = out.iter().find(|u| u.place_id == 2).unwrap();
    assert_eq!(third.user_id, 13);
}

#[test]
fn coalesce_empty_input() {
    assert!(coalesce_updates(&Vec::new()).is_empty());
}

#[test]
fn drain_respects_flush_interval() {
    let mut reg = CanvasRegistry::new();
    reg.add_place(empty_place(1, 0, 4));
    // freshly built registry: last flush at 0, so t=3 is not due yet
    assert!(drain_user_updates(&mut reg, 3).is_none());
    assert!(drain_user_updates(&mut reg, 6).is_some());
    // flushed at 6: t=10 is within the interval again
    assert!(drain_user_updates(&mut reg, 10).is_none());
}

#[test]
fn drain_collects_and_empties_buffers() {
    let mut reg = CanvasRegistry::new();
    reg.add_place(empty_place(1, 0, 4));
    reg.add_place(empty_place(2, 0, 4));
    let i1 = reg.find_place(1).unwrap();
    let i2 = reg.find_place(2).unwrap();
    reg.places[i1].add_place_update(0, 0, 0, 10);
    reg.places[i1].add_place_update(0, 0, 0, 11);
    reg.places[i2].add_place_update(1, 1, 1, 12);
    let batch = drain_user_updates(&mut reg, 100).unwrap();
    assert_eq!(batch.len(), 2);
    let a = batch.iter().find(|u| u.place_id == 1).unwrap();
    assert_eq!(a.user_id, 11); // latest painter of the repainted cell
    assert!(batch.iter().any(|u| u.place_id == 2 && u.user_id == 12));
    assert!(reg.places[i1].get_place_updates().is_empty());
}

#[test]
fn grid_snapshot_honours_interval_and_stamps_time() {
    let mut place = empty_place(1, 0, 4);
    assert_eq!(place.last_grid_update(), 0);
    assert!(plan_grid_snapshot(&mut place, 4).is_none());
    let snap = plan_grid_snapshot(&mut place, 9).unwrap();
    assert_eq!(snap.voxel_id, place.voxel.id);
    assert_eq!(place.last_grid_update(), 9);
    // just flushed: nothing more to do this tick
    assert!(plan_grid_snapshot(&mut place, 10).is_none());
}

#[test]
fn flush_tick_plans_batches_and_snapshots() {
    let mut reg = CanvasRegistry::new();
    reg.add_place(empty_place(1, 0, 2));
    let i1 = reg.find_place(1).unwrap();
    reg.places[i1].add_place_update(0, 1, 0, 10);
    let plan = flush_tick(&mut reg, 50);
    assert_eq!(plan.user_updates.len(), 1);
    assert_eq!(plan.snapshots.len(), 1);
    let blob = &plan.snapshots[0].blob;
    let restored =
        VoxelCanvas::from_stored(101, "x".to_string(), 0, 2, 2, 2, blob, 0, 0).unwrap();
    assert_eq!(restored.grid, reg.places[i1].voxel.grid);
    assert_eq!(reg.last_user_update, 50);
    assert_eq!(reg.places[i1].last_grid_update(), 50);
}

#[test]
fn place_records_and_stamps() {
    let mut place = empty_place(7, 30, 2);
    assert_eq!(place.id, 7);
    assert!(place.online);
    assert_eq!(place.cooldown, 30);
    place.set_last_grid_update(12);
    assert_eq!(place.last_grid_update(), 12);
}

#[test]
fn comment_constructor() {
    let c = Comment::new(1, 2, Some(3), None, "hello", 99);
    assert_eq!(c.comment_id, 1);
    assert_eq!(c.user_id, 2);
    assert_eq!(c.place_id, Some(3));
    assert_eq!(c.post_id, None);
    assert_eq!(c.content, "hello");
    assert_eq!(c.created_at, 99);
}

#[test]
fn post_constructor() {
    let p = Post::new(1, "title", "body", 2, 3, 4, false, 5, 6);
    assert_eq!(p.id, 1);
    assert_eq!(p.title, "title");
    assert_eq!(p.content, "body");
    assert_eq!(p.voxel_id, 2);
    assert_eq!(p.votes, 3);
    assert_eq!(p.author_id, 4);
    assert!(!p.updated);
    assert_eq!((p.created_at, p.updated_at), (5, 6));
}

#[test]
fn user_constructor() {
    let u = User::new(1, "ada", "ada@example.net", "hash", 2, true, 3, 4);
    assert_eq!(u.user_id, 1);
    assert_eq!(u.username, "ada");
    assert_eq!(u.email, "ada@example.net");
    assert_eq!(u.password_hash, "hash");
    assert_eq!(u.voxel_id, 2);
    assert!(u.admin);
    assert_eq!((u.created_at, u.last_connected_at), (3, 4));
}
