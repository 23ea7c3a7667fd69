use antworld::geometry::{Pose, TICKS_PER_UNIT};
use antworld::world::World;

fn pose(x: i64, y: i64) -> Pose {
    Pose { x, y, rotation: 0 }
}

#[test]
fn mirrored_self_collision() {
    let mut world = World::new(32 * TICKS_PER_UNIT, 32 * TICKS_PER_UNIT);
    let result = world.add_ant_hill_mirrored(pose(0, 0), 0);
    assert!(result.is_none());
}

#[test]
fn mirrored_fine() {
    let mut world = World::new(32 * TICKS_PER_UNIT, 32 * TICKS_PER_UNIT);
    let result = world.add_ant_hill_mirrored(pose(10 * TICKS_PER_UNIT, 10 * TICKS_PER_UNIT), 0);
    assert!(result.is_some());
}

#[test]
fn try_add_in_empty_world_succeeds() {
    let mut world = World::new(64, 64);
    let p = pose(20, 20);
    assert!(world.try_add_ant_hill(p, 3).is_some());
    world.update();
    let frame = world.snapshot();
    assert_eq!(frame.anthills.len(), 1);
    assert_eq!(frame.anthills[0].pose, p);
    assert_eq!(frame.anthills[0].team, 3);
    assert_eq!(frame.ants.len(), 0);
    assert_eq!(frame.raspberries.len(), 0);
    assert_eq!(frame.sugar_hills.len(), 0);
    assert_eq!(frame.smells_clouds.len(), 0);
}

#[test]
fn try_add_blocked_fails_without_partial_insertion() {
    let mut world = World::new(64, 64);
    assert!(world.try_add_ant_hill(pose(0, 0), 1).is_some());
    world.update();
    // Colony hills have radius 7 ticks, so boxes at distance 10 overlap.
    assert!(world.try_add_ant_hill(pose(10, 0), 2).is_none());
    assert!(world.try_add_sugar_hill(pose(10, 0)).is_none());
    assert!(world.try_add_raspberry(pose(0, 5)).is_none());
    assert!(world.try_add_ant(pose(7, 7), 2).is_none());
    world.update();
    let frame = world.snapshot();
    assert_eq!(frame.anthills.len(), 1);
    assert_eq!(frame.anthills[0].team, 1);
    assert_eq!(frame.ants.len(), 0);
    assert_eq!(frame.raspberries.len(), 0);
    assert_eq!(frame.sugar_hills.len(), 0);
}

#[test]
fn mirror_negates_translation_and_rotation_twice() {
    let p = Pose { x: 5, y: -9, rotation: 3 };
    let m = p.mirror();
    assert_eq!(m, Pose { x: -5, y: 9, rotation: -3 });
    assert_eq!(m.mirror(), p);
}

#[test]
fn mirrored_failure_is_atomic() {
    let mut world = World::new(64, 64);
    // An obstacle that blocks only the mirrored half of the pair.
    world.add_ant_hill(pose(-20, -20), 9);
    world.update();
    assert!(world.add_ant_hill_mirrored(pose(20, 20), 1).is_none());
    world.update();
    let frame = world.snapshot();
    assert_eq!(frame.anthills.len(), 1);
    assert_eq!(frame.anthills[0].team, 9);
}

#[test]
fn mirrored_success_places_both() {
    let mut world = World::new(64, 64);
    assert!(world.add_ant_hill_mirrored(pose(20, 20), 5).is_some());
    world.update();
    let frame = world.snapshot();
    assert_eq!(frame.anthills.len(), 2);
    assert_eq!(frame.anthills[0].pose, pose(20, 20));
    assert_eq!(frame.anthills[1].pose, pose(-20, -20));
    assert!(frame.anthills.iter().all(|h| h.team == 5));
}

#[test]
fn mirrored_sugar_hills_and_raspberries() {
    let mut world = World::new(256, 256);
    assert!(world.add_sugar_hill_mirrored(pose(30, 0)).is_some());
    assert!(world.add_raspberry_mirrored(pose(0, 60)).is_some());
    // Too close to the origin: the footprint meets its own mirror image.
    assert!(world.add_sugar_hill_mirrored(pose(4, 0)).is_none());
    assert!(world.add_raspberry_mirrored(pose(1, 0)).is_none());
    world.update();
    let frame = world.snapshot();
    assert_eq!(frame.sugar_hills.len(), 2);
    assert_eq!(frame.raspberries.len(), 2);
    assert_eq!(frame.sugar_hills[0].pose, pose(30, 0));
    assert_eq!(frame.sugar_hills[1].pose, pose(-30, 0));
    assert_eq!(frame.raspberries[0], pose(0, 60));
    assert_eq!(frame.raspberries[1], pose(0, -60));
}

#[test]
fn snapshot_is_complete_over_all_kinds() {
    let mut world = World::new(256, 256);
    world.add_ant_hill(pose(0, 0), 1);
    world.add_ant(pose(30, 0), 1);
    world.add_sugar_hill(pose(-30, 0));
    world.add_raspberry(pose(0, 30));
    world.add_smell(pose(0, -30), 77, 1);
    world.update();
    let frame = world.snapshot();
    let total = frame.ants.len() + frame.anthills.len() + frame.raspberries.len()
        + frame.sugar_hills.len() + frame.smells_clouds.len();
    assert_eq!(total, 5);
    assert_eq!(frame.anthills.len(), 1);
    assert_eq!(frame.ants.len(), 1);
    assert_eq!(frame.sugar_hills.len(), 1);
    assert_eq!(frame.raspberries.len(), 1);
    assert_eq!(frame.smells_clouds.len(), 1);
    assert_eq!(frame.ants[0].hp, 1);
    assert_eq!(frame.ants[0].velocity, 0);
    assert_eq!(frame.sugar_hills[0].volume, 1);
    assert_eq!(frame.smells_clouds[0].code, 77);
    assert_eq!(frame.smells_clouds[0].age, 0);
    assert_eq!(frame.smells_clouds[0].position.x, 0);
    assert_eq!(frame.smells_clouds[0].position.y, -30);
}

#[test]
fn smell_clouds_never_block_placement() {
    let mut world = World::new(64, 64);
    world.add_smell(pose(0, 0), 42, 1);
    world.update();
    assert!(world.try_add_ant(pose(0, 0), 2).is_some());
    assert!(world.try_add_ant_hill(pose(0, 0), 2).is_some());
    world.update();
    let frame = world.snapshot();
    assert_eq!(frame.smells_clouds.len(), 1);
    assert_eq!(frame.ants.len(), 1);
    assert_eq!(frame.anthills.len(), 1);
}

#[test]
fn touching_boxes_count_as_overlap() {
    let mut world = World::new(64, 64);
    assert!(world.try_add_ant(pose(0, 0), 1).is_some());
    world.update();
    // Ant boxes span one tick each way; at distance 2 they touch.
    assert!(world.try_add_ant(pose(2, 0), 1).is_none());
    assert!(world.try_add_ant(pose(3, 0), 1).is_some());
}

#[test]
fn pending_placements_wait_for_update() {
    let mut world = World::new(64, 64);
    world.add_ant_hill(pose(0, 0), 1);
    let before = world.snapshot();
    assert_eq!(before.anthills.len(), 0);
    world.update();
    let after = world.snapshot();
    assert_eq!(after.anthills.len(), 1);
}

#[test]
fn update_is_idempotent() {
    let mut world = World::new(64, 64);
    world.add_raspberry(pose(0, 0));
    world.update();
    world.update();
    let frame = world.snapshot();
    assert_eq!(frame.raspberries.len(), 1);
}

#[test]
fn world_keeps_its_map_extent() {
    let world = World::new(48, 96);
    assert_eq!(world.map.width, 48);
    assert_eq!(world.map.height, 96);
}
