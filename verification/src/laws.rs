//! The engine's cross-operation laws, stated over the same spec functions
//! the operations' contracts use: what a committed placement contributes
//! to the next snapshot, that a mirrored pair contributes both of its
//! records, and that smell clouds never block a placement.

use vstd::prelude::*;

use crate::geometry::{aabb_overlap, Pose};
use crate::index::{groups_interact, seq_blocked, Entry, Group, Team};
use crate::objects::{Ant, AntHill, SugarHill};
use crate::snapshot::{anthills_of, ants_of, raspberries_of, smell_clouds_of, sugar_hills_of};
use crate::world::{
    ant_entry, ant_hill_entry, raspberry_entry, smell_cloud_entry, sugar_hill_entry,
};

verus! {

/// Once a colony-hill placement at `pose` is committed, the snapshot's
/// colony-hill sequence gains exactly its record, and the other four
/// sequences are unchanged.
pub proof fn lemma_snapshot_after_ant_hill(s: Seq<Entry>, pose: Pose, team: Team)
    ensures
        anthills_of(s.push(ant_hill_entry(pose, team))) == anthills_of(s).push(
            AntHill { pose, team },
        ),
        ants_of(s.push(ant_hill_entry(pose, team))) == ants_of(s),
        sugar_hills_of(s.push(ant_hill_entry(pose, team))) == sugar_hills_of(s),
        raspberries_of(s.push(ant_hill_entry(pose, team))) == raspberries_of(s),
        smell_clouds_of(s.push(ant_hill_entry(pose, team))) == smell_clouds_of(s),
{
    assert(s.push(ant_hill_entry(pose, team)).drop_last() =~= s);
}

/// Once an ant placement at `pose` is committed, the snapshot's ant
/// sequence gains exactly its record, and the other four sequences are
/// unchanged.
pub proof fn lemma_snapshot_after_ant(s: Seq<Entry>, pose: Pose, team: Team)
    ensures
        ants_of(s.push(ant_entry(pose, team))) == ants_of(s).push(
            Ant { pose, team, hp: 1, velocity: 0 },
        ),
        anthills_of(s.push(ant_entry(pose, team))) == anthills_of(s),
        sugar_hills_of(s.push(ant_entry(pose, team))) == sugar_hills_of(s),
        raspberries_of(s.push(ant_entry(pose, team))) == raspberries_of(s),
        smell_clouds_of(s.push(ant_entry(pose, team))) == smell_clouds_of(s),
{
    assert(s.push(ant_entry(pose, team)).drop_last() =~= s);
}

/// Once a sugar-hill placement at `pose` is committed, the snapshot's
/// sugar-hill sequence gains exactly its record, and the other four
/// sequences are unchanged.
pub proof fn lemma_snapshot_after_sugar_hill(s: Seq<Entry>, pose: Pose)
    ensures
        sugar_hills_of(s.push(sugar_hill_entry(pose))) == sugar_hills_of(s).push(
            SugarHill { pose, volume: 1 },
        ),
        anthills_of(s.push(sugar_hill_entry(pose))) == anthills_of(s),
        ants_of(s.push(sugar_hill_entry(pose))) == ants_of(s),
        raspberries_of(s.push(sugar_hill_entry(pose))) == raspberries_of(s),
        smell_clouds_of(s.push(sugar_hill_entry(pose))) == smell_clouds_of(s),
{
    assert(s.push(sugar_hill_entry(pose)).drop_last() =~= s);
}

/// Once a raspberry placement at `pose` is committed, the snapshot's
/// raspberry sequence gains exactly its pose, and the other four
/// sequences are unchanged.
pub proof fn lemma_snapshot_after_raspberry(s: Seq<Entry>, pose: Pose)
    ensures
        raspberries_of(s.push(raspberry_entry(pose))) == raspberries_of(s).push(pose),
        anthills_of(s.push(raspberry_entry(pose))) == anthills_of(s),
        ants_of(s.push(raspberry_entry(pose))) == ants_of(s),
        sugar_hills_of(s.push(raspberry_entry(pose))) == sugar_hills_of(s),
        smell_clouds_of(s.push(raspberry_entry(pose))) == smell_clouds_of(s),
{
    assert(s.push(raspberry_entry(pose)).drop_last() =~= s);
}

/// Once a smell-cloud placement at `pose` is committed, the snapshot's
/// smell-cloud sequence gains exactly its record, and the other four
/// sequences are unchanged.
pub proof fn lemma_snapshot_after_smell_cloud(s: Seq<Entry>, pose: Pose, code: u32, team: Team)
    ensures
        smell_clouds_of(s.push(smell_cloud_entry(pose, code, team))) == smell_clouds_of(s).push(
            crate::objects::SmellCloud {
                position: crate::geometry::Vector2 { x: pose.x, y: pose.y },
                code,
                age: 0,
                team,
            },
        ),
        anthills_of(s.push(smell_cloud_entry(pose, code, team))) == anthills_of(s),
        ants_of(s.push(smell_cloud_entry(pose, code, team))) == ants_of(s),
        sugar_hills_of(s.push(smell_cloud_entry(pose, code, team))) == sugar_hills_of(s),
        raspberries_of(s.push(smell_cloud_entry(pose, code, team))) == raspberries_of(s),
{
    assert(s.push(smell_cloud_entry(pose, code, team)).drop_last() =~= s);
}

/// Mirrored-placement atomicity, success half: a committed mirrored
/// colony-hill pair contributes both records, the pose and its mirror,
/// each exactly once, and leaves the other kinds' sequences unchanged.
/// (The failure half is in the mirrored operations' contracts: on failure
/// the world is unchanged, so neither record can appear.)
pub proof fn lemma_snapshot_after_mirrored_ant_hills(s: Seq<Entry>, pose: Pose, team: Team)
    ensures
        anthills_of(
            s.push(ant_hill_entry(pose, team)).push(ant_hill_entry(pose.spec_mirror(), team)),
        ) == anthills_of(s).push(AntHill { pose, team }).push(
            AntHill { pose: pose.spec_mirror(), team },
        ),
        ants_of(s.push(ant_hill_entry(pose, team)).push(ant_hill_entry(pose.spec_mirror(), team)))
            == ants_of(s),
        sugar_hills_of(
            s.push(ant_hill_entry(pose, team)).push(ant_hill_entry(pose.spec_mirror(), team)),
        ) == sugar_hills_of(s),
        raspberries_of(
            s.push(ant_hill_entry(pose, team)).push(ant_hill_entry(pose.spec_mirror(), team)),
        ) == raspberries_of(s),
        smell_clouds_of(
            s.push(ant_hill_entry(pose, team)).push(ant_hill_entry(pose.spec_mirror(), team)),
        ) == smell_clouds_of(s),
{
    lemma_snapshot_after_ant_hill(s, pose, team);
    lemma_snapshot_after_ant_hill(s.push(ant_hill_entry(pose, team)), pose.spec_mirror(), team);
}

/// Mirrored-placement atomicity, success half, for sugar hills.
pub proof fn lemma_snapshot_after_mirrored_sugar_hills(s: Seq<Entry>, pose: Pose)
    ensures
        sugar_hills_of(
            s.push(sugar_hill_entry(pose)).push(sugar_hill_entry(pose.spec_mirror())),
        ) == sugar_hills_of(s).push(SugarHill { pose, volume: 1 }).push(
            SugarHill { pose: pose.spec_mirror(), volume: 1 },
        ),
        anthills_of(s.push(sugar_hill_entry(pose)).push(sugar_hill_entry(pose.spec_mirror())))
            == anthills_of(s),
        ants_of(s.push(sugar_hill_entry(pose)).push(sugar_hill_entry(pose.spec_mirror())))
            == ants_of(s),
        raspberries_of(s.push(sugar_hill_entry(pose)).push(sugar_hill_entry(pose.spec_mirror())))
            == raspberries_of(s),
        smell_clouds_of(s.push(sugar_hill_entry(pose)).push(sugar_hill_entry(pose.spec_mirror())))
            == smell_clouds_of(s),
{
    lemma_snapshot_after_sugar_hill(s, pose);
    lemma_snapshot_after_sugar_hill(s.push(sugar_hill_entry(pose)), pose.spec_mirror());
}

/// Mirrored-placement atomicity, success half, for raspberries.
pub proof fn lemma_snapshot_after_mirrored_raspberries(s: Seq<Entry>, pose: Pose)
    ensures
        raspberries_of(s.push(raspberry_entry(pose)).push(raspberry_entry(pose.spec_mirror())))
            == raspberries_of(s).push(pose).push(pose.spec_mirror()),
        anthills_of(s.push(raspberry_entry(pose)).push(raspberry_entry(pose.spec_mirror())))
            == anthills_of(s),
        ants_of(s.push(raspberry_entry(pose)).push(raspberry_entry(pose.spec_mirror())))
            == ants_of(s),
        sugar_hills_of(s.push(raspberry_entry(pose)).push(raspberry_entry(pose.spec_mirror())))
            == sugar_hills_of(s),
        smell_clouds_of(s.push(raspberry_entry(pose)).push(raspberry_entry(pose.spec_mirror())))
            == smell_clouds_of(s),
{
    lemma_snapshot_after_raspberry(s, pose);
    lemma_snapshot_after_raspberry(s.push(raspberry_entry(pose)), pose.spec_mirror());
}

/// Smell clouds never block placement: a stored smell cloud changes no
/// default-group query, whatever its pose, so a placement that succeeded
/// without it still succeeds with it.
pub proof fn lemma_smell_cloud_never_blocks(
    s: Seq<Entry>,
    pose: Pose,
    code: u32,
    team: Team,
    p: Pose,
    r: int,
)
    ensures
        seq_blocked(s.push(smell_cloud_entry(pose, code, team)), p, r, Group::Default)
            == seq_blocked(s, p, r, Group::Default),
{
    let s2 = s.push(smell_cloud_entry(pose, code, team));
    if seq_blocked(s, p, r, Group::Default) {
        let i = choose|i: int|
            0 <= i < s.len() && groups_interact(Group::Default, (#[trigger] s[i]).group)
                && aabb_overlap(s[i].pose, s[i].radius as int, p, r);
        assert(s2[i] == s[i]);
        assert(seq_blocked(s2, p, r, Group::Default));
    }
    if seq_blocked(s2, p, r, Group::Default) {
        let i = choose|i: int|
            0 <= i < s2.len() && groups_interact(Group::Default, (#[trigger] s2[i]).group)
                && aabb_overlap(s2[i].pose, s2[i].radius as int, p, r);
        assert(s2[s.len() as int].group == Group::Smell);
        assert(i < s.len());
        assert(s[i] == s2[i]);
        assert(seq_blocked(s, p, r, Group::Default));
    }
}

} // verus!
