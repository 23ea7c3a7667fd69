//! The plain-data records exchanged with collaborators: the per-kind
//! object records of a snapshot, the arena extent, the snapshot frame, and
//! the append-only recording that collects frames.

use vstd::prelude::*;

use crate::geometry::{Pose, Vector2, TICKS_PER_UNIT};
use crate::index::Team;

verus! {

/// A sugar (food) hill as read back from a snapshot.
#[derive(Clone, Copy, PartialEq, Eq, Structural, Debug)]
pub struct SugarHill {
    pub pose: Pose,
    pub volume: i64,
}

/// A colony (ant) hill as read back from a snapshot.
#[derive(Clone, Copy, PartialEq, Eq, Structural, Debug)]
pub struct AntHill {
    pub pose: Pose,
    pub team: Team,
}

/// An ant as read back from a snapshot.
#[derive(Clone, Copy, PartialEq, Eq, Structural, Debug)]
pub struct Ant {
    pub pose: Pose,
    pub team: Team,
    pub hp: i64,
    pub velocity: i64,
}

/// A smell (scent) cloud as read back from a snapshot.
#[derive(Clone, Copy, PartialEq, Eq, Structural, Debug)]
pub struct SmellCloud {
    pub position: Vector2,
    pub code: u32,
    pub age: u32,
    pub team: Team,
}

/// The arena extent, centered at the origin, in ticks. Objects span
/// roughly `[-width/2, width/2] x [-height/2, height/2]`, though the
/// engine does not clamp placements to these bounds.
#[derive(Clone, Copy, PartialEq, Eq, Structural, Debug)]
pub struct MapSize {
    pub width: i64,
    pub height: i64,
}

/// One immutable per-tick snapshot: five ordered sequences of records,
/// grouped by kind, each carrying the current pose read back from the
/// spatial index.
#[derive(Clone, Debug)]
pub struct Frame {
    pub ants: Vec<Ant>,
    pub anthills: Vec<AntHill>,
    pub raspberries: Vec<Pose>,
    pub sugar_hills: Vec<SugarHill>,
    pub smells_clouds: Vec<SmellCloud>,
}

/// An append-only log of frames together with the arena extent they were
/// taken in.
#[derive(Clone, Debug)]
pub struct Recording {
    pub map: MapSize,
    pub frames: Vec<Frame>,
}

/// Extent of the arena a fresh recording assumes: 128 world units.
pub const RECORDING_EXTENT: i64 = 128 * TICKS_PER_UNIT;

impl Recording {
    /// An empty recording over the default arena of 128 by 128 world
    /// units.
    pub fn new() -> (r: Recording)
        ensures
            r.map == (MapSize { width: RECORDING_EXTENT, height: RECORDING_EXTENT }),
            r.frames@ == Seq::<Frame>::empty(),
    {
        let r = Recording {
            map: MapSize { width: RECORDING_EXTENT, height: RECORDING_EXTENT },
            frames: Vec::new(),
        };
        proof {
            assert(r.frames@ =~= Seq::<Frame>::empty());
        }
        r
    }
}

} // verus!
