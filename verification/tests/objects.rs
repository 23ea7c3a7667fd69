use antworld::geometry::{Pose, TICKS_PER_UNIT};
use antworld::objects::Recording;

#[test]
fn fresh_recording_covers_the_default_arena() {
    let recording = Recording::new();
    assert_eq!(recording.map.width, 128 * TICKS_PER_UNIT);
    assert_eq!(recording.map.height, 128 * TICKS_PER_UNIT);
    assert!(recording.frames.is_empty());
}

#[test]
fn zero_pose_sits_at_the_origin() {
    let p = Pose::zero();
    assert_eq!(p, Pose { x: 0, y: 0, rotation: 0 });
}
