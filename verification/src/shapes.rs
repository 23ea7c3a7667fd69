//! The shape catalog: the fixed circular collision radius of each object
//! kind, in ticks (two ticks per world unit). The values are engine
//! constants, not configurable per instance.

use vstd::prelude::*;

verus! {

/// Collision radius of a colony (ant) hill: 3.5 world units.
pub const ANT_HILL_RADIUS: i64 = 7;

/// Collision radius of a single ant: 0.5 world units.
pub const ANT_RADIUS: i64 = 1;

/// Collision radius of a sugar (food) hill: 2 world units.
pub const SUGAR_HILL_RADIUS: i64 = 4;

/// Collision radius of a raspberry (single food item): 0.5 world units.
pub const RASPBERRY_RADIUS: i64 = 1;

/// Collision radius of a smell (scent) cloud: 3 world units.
pub const SMELL_CLOUD_RADIUS: i64 = 6;

/// Upper bound on every radius of the catalog.
pub const MAX_RADIUS: i64 = 7;

} // verus!
