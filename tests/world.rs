use world_chase::position::WorldPosition;
use world_chase::pursuit::{follow, CATCH_UP_SPEED, SLACK};
use world_chase::world::{DirectionKeys, Entity, EntityId, Role, World};

fn pos(x: i64, y: i64) -> WorldPosition {
    WorldPosition::new(x, y)
}

fn dist_sq(a: WorldPosition, b: WorldPosition) -> i128 {
    let dx = (b.x - a.x) as i128;
    let dy = (b.y - a.y) as i128;
    dx * dx + dy * dy
}

fn no_keys() -> DirectionKeys {
    DirectionKeys { up: false, down: false, left: false, right: false }
}

#[test]
fn cursor_from_pointer_at_origin_camera() {
    let mut world = World::new();
    world.updates_world_cursor(Some((5, 5)));
    assert_eq!(world.cursor, pos(50, 50));
}

#[test]
fn cursor_accounts_for_camera_position() {
    let mut world = World::new();
    world.camera = pos(100, 100);
    world.updates_world_cursor(Some((-3, 2)));
    assert_eq!(world.cursor, pos(70, 120));
}

#[test]
fn cursor_kept_without_pointer() {
    let mut world = World::new();
    world.updates_world_cursor(Some((1, -1)));
    world.updates_world_cursor(None);
    assert_eq!(world.cursor, pos(10, -10));
}

#[test]
fn from_render_units_scales_and_offsets() {
    let p = WorldPosition::from_render_units(7, -4, &pos(1, 2), 3);
    assert_eq!(p, pos(22, -10));
}

#[test]
fn offset_from_subtracts_exactly() {
    let far = pos(i64::MAX - 5, i64::MIN + 5);
    let camera = pos(i64::MAX - 10, i64::MIN + 12);
    assert_eq!(far.offset_from(&camera), pos(5, -7));
}

#[test]
fn render_round_trip_within_one_scale_step() {
    let scale: i64 = 10;
    let camera = pos(-37, 1234);
    for &(x, y) in &[(0i64, 0i64), (5, -5), (123_456_789, -987_654_321), (-1, 19), (-37, 1234)] {
        let p = pos(x, y);
        let offset = p.offset_from(&camera);
        let back = WorldPosition::from_render_units(offset.x / scale, offset.y / scale, &camera, scale);
        assert!((back.x - p.x).abs() < scale);
        assert!((back.y - p.y).abs() < scale);
    }
}

#[test]
fn follow_overshoots_at_large_step() {
    assert_eq!(CATCH_UP_SPEED, 10);
    let r = follow(&pos(0, 0), &pos(10000, 0), 1000);
    assert_eq!(r, pos(100000, 0));
    assert_eq!(r.x - 10000, 90000);
}

#[test]
fn follow_holds_still_in_dead_zone() {
    assert_eq!(SLACK, 10);
    let tail = pos(3, -4);
    let r = follow(&tail, &pos(9, 3), 1000);
    assert_eq!(r, tail);
}

#[test]
fn follow_moves_at_dead_zone_edge() {
    let r = follow(&pos(0, 0), &pos(6, 8), 1000);
    assert_eq!(r, pos(60, 80));
}

#[test]
fn follow_rounds_toward_zero() {
    let r = follow(&pos(0, 0), &pos(-1234, 567), 16);
    assert_eq!(r, pos(-197, 90));
}

#[test]
fn follow_closes_in_with_small_step() {
    let head = pos(1000, -300);
    let mut tail = pos(0, 0);
    let mut last = dist_sq(tail, head);
    for _ in 0..200 {
        let next = follow(&tail, &head, 16);
        let d = dist_sq(next, head);
        assert!(d <= last);
        if next != tail {
            assert!(d < last);
        }
        tail = next;
        last = d;
    }
    assert!(last < (SLACK as i128) * (SLACK as i128));
}

#[test]
fn leader_snaps_to_cursor() {
    let mut world = World::new();
    let leader = world.spawn(Entity { position: pos(123, -5), role: Role::Leader, is_head: true });
    let other = world.spawn(Entity { position: pos(4, 4), role: Role::Untracked, is_head: true });
    world.updates_world_cursor(Some((7, 8)));
    world.leader_tracks_cursor();
    assert_eq!(world.get(leader).unwrap().position, pos(70, 80));
    assert_eq!(world.get(other).unwrap().position, pos(4, 4));
    world.updates_world_cursor(Some((-1000, 0)));
    world.leader_tracks_cursor();
    assert_eq!(world.get(leader).unwrap().position, world.cursor);
}

#[test]
fn followers_chase_start_of_frame_positions() {
    let mut world = World::new();
    let leader = world.spawn(Entity { position: pos(0, 0), role: Role::Leader, is_head: true });
    let a = world.spawn(Entity { position: pos(1000, 0), role: Role::Follower(leader), is_head: true });
    let b = world.spawn(Entity { position: pos(2000, 0), role: Role::Follower(a), is_head: false });
    world.tails_follow_heads(16);
    assert_eq!(world.get(a).unwrap().position, pos(840, 0));
    assert_eq!(world.get(b).unwrap().position, pos(1840, 0));
    assert_eq!(world.get(leader).unwrap().position, pos(0, 0));
}

#[test]
fn stale_or_non_head_target_does_not_move() {
    let mut world = World::new();
    let head = world.spawn(Entity { position: pos(5000, 0), role: Role::Untracked, is_head: true });
    let plain = world.spawn(Entity { position: pos(0, 5000), role: Role::Untracked, is_head: false });
    let f1 = world.spawn(Entity { position: pos(0, 0), role: Role::Follower(head), is_head: false });
    let f2 = world.spawn(Entity { position: pos(0, 0), role: Role::Follower(plain), is_head: false });
    let f3 = world.spawn(Entity { position: pos(0, 0), role: Role::Follower(EntityId { index: 99 }), is_head: false });
    assert!(world.despawn(head));
    assert!(!world.despawn(head));
    world.tails_follow_heads(16);
    assert_eq!(world.get(f1).unwrap().position, pos(0, 0));
    assert_eq!(world.get(f2).unwrap().position, pos(0, 0));
    assert_eq!(world.get(f3).unwrap().position, pos(0, 0));
    assert_eq!(world.get(head), None);
    assert_eq!(world.head_position(plain), None);
}

#[test]
fn ten_link_chain_converges() {
    let mut world = World::new();
    let leader = world.spawn(Entity { position: pos(0, 0), role: Role::Leader, is_head: true });
    let mut links = vec![leader];
    let starts = [(0i64, 0i64), (10000, 0), (10000, 10000), (0, 10000), (-10000, 10000), (-10000, 0), (-10000, -10000), (0, -10000), (10000, -10000), (20000, -10000)];
    for (i, &(x, y)) in starts.iter().enumerate() {
        let head = *links.last().unwrap();
        let id = world.spawn(Entity { position: pos(x, y), role: Role::Follower(head), is_head: i + 1 < starts.len() });
        links.push(id);
    }
    world.updates_world_cursor(Some((100_000, -50_000)));
    for _ in 0..3000 {
        world.leader_tracks_cursor();
        world.tails_follow_heads(16);
    }
    assert_eq!(world.get(leader).unwrap().position, pos(1_000_000, -500_000));
    for pair in links.windows(2) {
        let head = world.get(pair[0]).unwrap().position;
        let tail = world.get(pair[1]).unwrap().position;
        assert!(dist_sq(tail, head) < (SLACK as i128) * (SLACK as i128));
    }
}

#[test]
fn camera_offsets_are_exact_and_repeatable() {
    let mut world = World::new();
    world.camera = pos(30, -20);
    let e = world.spawn(Entity { position: pos(100, 50), role: Role::Untracked, is_head: false });
    let gone = world.spawn(Entity { position: pos(1, 1), role: Role::Untracked, is_head: false });
    world.despawn(gone);
    let first = world.camera_offsets();
    let second = world.camera_offsets();
    assert_eq!(first, second);
    assert_eq!(first[e.index], Some(pos(70, 70)));
    assert_eq!(first[gone.index], None);
}

#[test]
fn camera_moves_per_held_key() {
    let mut world = World::new();
    world.moves_camera(DirectionKeys { up: true, down: false, left: false, right: true }, 500);
    assert_eq!(world.camera, pos(1000, 1000));
    world.moves_camera(DirectionKeys { up: true, down: true, left: true, right: false }, 250);
    assert_eq!(world.camera, pos(500, 1000));
    world.moves_camera(no_keys(), 1000);
    assert_eq!(world.camera, pos(500, 1000));
}

#[test]
fn set_position_and_lookup() {
    let mut world = World::new();
    let e = world.spawn(Entity { position: pos(1, 2), role: Role::Untracked, is_head: true });
    assert_eq!(world.len(), 1);
    assert!(world.set_position(e, pos(-9, 9)));
    assert_eq!(world.head_position(e), Some(pos(-9, 9)));
    assert!(!world.set_position(EntityId { index: 3 }, pos(0, 0)));
}

#[test]
fn overflow_checks_report_exactly() {
    let mut world = World::new();
    assert!(world.cursor_fits(None));
    assert!(world.cursor_fits(Some((i64::MAX / 10, 0))));
    assert!(!world.cursor_fits(Some((i64::MAX / 10 + 1, 0))));
    world.camera = pos(i64::MAX - 1, 0);
    assert!(!world.cursor_fits(Some((1, 0))));
    assert!(world.cursor_fits(Some((-1, 0))));
    assert!(world.camera_move_fits(DirectionKeys { up: false, down: false, left: true, right: true }, 1000));
    assert!(!world.camera_move_fits(DirectionKeys { up: false, down: false, left: false, right: true }, 1));
    assert!(world.camera_move_fits(DirectionKeys { up: false, down: false, left: true, right: false }, 1));
    assert!(world.camera_offsets_fit());
    world.spawn(Entity { position: pos(-5, 0), role: Role::Untracked, is_head: false });
    assert!(!world.camera_offsets_fit());
}

#[test]
fn follow_step_fit_check() {
    let mut world = World::new();
    let head = world.spawn(Entity { position: pos(i64::MAX, 0), role: Role::Untracked, is_head: true });
    world.spawn(Entity { position: pos(0, 0), role: Role::Follower(head), is_head: false });
    assert!(world.steps_fit(16));
    assert!(!world.steps_fit(1000));
    assert!(world.steps_fit(100));
}

#[test]
fn setup_builds_the_scene() {
    let mut world = World::setup();
    assert_eq!(world.len(), 15);
    assert_eq!(world.camera, pos(0, 0));
    assert_eq!(world.cursor, pos(0, 0));
    let leader = world.get(EntityId { index: 4 }).unwrap();
    assert_eq!(leader.role, Role::Leader);
    assert!(leader.is_head);
    assert_eq!(world.get(EntityId { index: 0 }).unwrap().position, pos(-450, 0));
    assert_eq!(world.get(EntityId { index: 0 }).unwrap().role, Role::Untracked);
    for index in 5..15 {
        let e = world.get(EntityId { index }).unwrap();
        assert_eq!(e.role, Role::Follower(EntityId { index: index - 1 }));
        assert_eq!(e.is_head, index < 14);
    }
    assert_eq!(world.get(EntityId { index: 14 }).unwrap().position, pos(20000, -10000));
    let landmark = world.get(EntityId { index: 3 }).unwrap().position;
    world.updates_world_cursor(Some((-30_000, 8_000)));
    for _ in 0..3000 {
        world.leader_tracks_cursor();
        world.tails_follow_heads(16);
    }
    assert_eq!(world.get(EntityId { index: 3 }).unwrap().position, landmark);
    for index in 5..15 {
        let head = world.get(EntityId { index: index - 1 }).unwrap().position;
        let tail = world.get(EntityId { index }).unwrap().position;
        assert!(dist_sq(tail, head) < (SLACK as i128) * (SLACK as i128));
    }
}

#[test]
fn spawn_tail_chases_its_head() {
    let mut world = World::new();
    let head = world.spawn(Entity { position: pos(500, 0), role: Role::Untracked, is_head: true });
    let tail = world.spawn_tail(head, 0, 0, false);
    assert_eq!(tail.index, 1);
    world.tails_follow_heads(100);
    assert_eq!(world.get(tail).unwrap().position, pos(500, 0));
}

#[test]
fn leader_without_head_flag_keeps_its_place() {
    let mut world = World::new();
    let plain = world.spawn(Entity { position: pos(1, 1), role: Role::Leader, is_head: false });
    let leader = world.spawn(Entity { position: pos(-3, 9), role: Role::Leader, is_head: true });
    world.leader_tracks_cursor();
    assert_eq!(world.get(plain).unwrap().position, pos(1, 1));
    assert_eq!(world.get(leader).unwrap().position, pos(0, 0));
}

#[test]
fn follower_in_dead_zone_of_world_head_stays() {
    let mut world = World::new();
    let head = world.spawn(Entity { position: pos(100, 100), role: Role::Untracked, is_head: true });
    let tail = world.spawn_tail(head, 93, 107, false);
    world.tails_follow_heads(1000);
    assert_eq!(world.get(tail).unwrap().position, pos(93, 107));
}

#[test]
fn single_link_settles_within_its_squared_distance_in_frames() {
    let head = pos(-700, 2500);
    let tail = pos(0, 0);
    let bound = dist_sq(tail, head);
    let mut p = tail;
    let mut frames: i128 = 0;
    while dist_sq(p, head) >= (SLACK as i128) * (SLACK as i128) {
        p = follow(&p, &head, 13);
        frames += 1;
        assert!(frames <= bound);
    }
    assert_eq!(follow(&p, &head, 13), p);
}
