//! The world: the aggregate root owning the arena extent, the spatial
//! index, and one handle list per object kind. It exposes the placement
//! operations (unconditional add, conditional try-add, atomic mirrored
//! add), the commit operation [`World::update`], and the snapshot
//! extraction.

use vstd::prelude::*;

use crate::geometry::{aabb_overlap, boxes_overlap, Pose, Vector2};
use crate::index::{
    seq_blocked, Entry, Group, MapItem, SpatialIndex, Team,
};
use crate::objects::{Ant, AntHill, Frame, MapSize, SmellCloud, SugarHill};
use crate::snapshot::{anthills_of, ants_of, raspberries_of, smell_clouds_of, sugar_hills_of};
use crate::shapes::{
    ANT_HILL_RADIUS, ANT_RADIUS, RASPBERRY_RADIUS, SMELL_CLOUD_RADIUS, SUGAR_HILL_RADIUS,
};

verus! {

/// The object kinds a handle list can be kept for.
#[derive(Clone, Copy, PartialEq, Eq, Structural, Debug)]
pub enum Kind {
    AntHill,
    Ant,
    SugarHill,
    Raspberry,
    SmellCloud,
}

/// The kind of a stored payload.
pub open spec fn kind_of(item: MapItem) -> Kind {
    match item {
        MapItem::AntHill { .. } => Kind::AntHill,
        MapItem::Ant { .. } => Kind::Ant,
        MapItem::SugarHill { .. } => Kind::SugarHill,
        MapItem::Raspberry => Kind::Raspberry,
        MapItem::SmellCloud { .. } => Kind::SmellCloud,
    }
}

/// Every handle of `list` refers to a live entry of `s`, of kind `k`.
pub open spec fn handle_list_wf(list: Seq<usize>, s: Seq<Entry>, k: Kind) -> bool {
    forall|j: int|
        0 <= j < list.len() ==> (#[trigger] list[j]) < s.len()
            && kind_of(s[list[j] as int].item) == k
}

/// A handle list stays well formed when the entry store grows.
proof fn lemma_handle_list_grow(list: Seq<usize>, s: Seq<Entry>, e: Entry, k: Kind)
    requires
        handle_list_wf(list, s, k),
    ensures
        handle_list_wf(list, s.push(e), k),
{
    assert forall|j: int|
        0 <= j < list.len() implies (#[trigger] list[j]) < s.push(e).len()
            && kind_of(s.push(e)[list[j] as int].item) == k by {
        assert(list[j] < s.len());
        assert(s.push(e)[list[j] as int] == s[list[j] as int]);
    }
}

/// Appending an entry of kind `k` and its fresh handle keeps the list for
/// `k` well formed.
proof fn lemma_handle_list_extend(list: Seq<usize>, s: Seq<Entry>, e: Entry, k: Kind, h: usize)
    requires
        handle_list_wf(list, s, k),
        kind_of(e.item) == k,
        h as int == s.len(),
    ensures
        handle_list_wf(list.push(h), s.push(e), k),
{
    let list2 = list.push(h);
    let s2 = s.push(e);
    assert forall|j: int|
        0 <= j < list2.len() implies (#[trigger] list2[j]) < s2.len()
            && kind_of(s2[list2[j] as int].item) == k by {
        if j < list.len() {
            assert(list2[j] == list[j]);
            assert(list[j] < s.len());
            assert(s2[list[j] as int] == s[list[j] as int]);
        } else {
            assert(list2[j] == h);
            assert(s2[h as int] == e);
        }
    }
}

/// The index entry a colony-hill placement at `pose` stores.
pub open spec fn ant_hill_entry(pose: Pose, team: Team) -> Entry {
    Entry {
        pose,
        radius: ANT_HILL_RADIUS,
        group: Group::Default,
        item: MapItem::AntHill { team },
    }
}

/// The index entry an ant placement at `pose` stores: a fresh ant has full
/// health and no velocity.
pub open spec fn ant_entry(pose: Pose, team: Team) -> Entry {
    Entry {
        pose,
        radius: ANT_RADIUS,
        group: Group::Default,
        item: MapItem::Ant { team, hp: 1, velocity: 0 },
    }
}

/// The index entry a sugar-hill placement at `pose` stores: a fresh hill
/// holds one unit of volume.
pub open spec fn sugar_hill_entry(pose: Pose) -> Entry {
    Entry {
        pose,
        radius: SUGAR_HILL_RADIUS,
        group: Group::Default,
        item: MapItem::SugarHill { volume: 1 },
    }
}

/// The index entry a raspberry placement at `pose` stores.
pub open spec fn raspberry_entry(pose: Pose) -> Entry {
    Entry { pose, radius: RASPBERRY_RADIUS, group: Group::Default, item: MapItem::Raspberry }
}

/// The index entry a smell-cloud placement at `pose` stores: the cloud
/// starts at age zero and joins the smell group, which blocks nothing.
pub open spec fn smell_cloud_entry(pose: Pose, code: u32, team: Team) -> Entry {
    Entry {
        pose,
        radius: SMELL_CLOUD_RADIUS,
        group: Group::Smell,
        item: MapItem::SmellCloud { team, code, age: 0 },
    }
}

pub struct World {
    /// The arena extent. Resizing it does not re-validate or clip already
    /// placed objects.
    pub map: MapSize,
    index: SpatialIndex,
    ant_hills: Vec<usize>,
    sugar_hills: Vec<usize>,
    ants: Vec<usize>,
    raspberries: Vec<usize>,
    smell_clouds: Vec<usize>,
}

impl World {
    /// The arena extent, as seen in contracts.
    pub closed spec fn map_size(self) -> MapSize {
        self.map
    }

    /// All stored entries in handle order, committed or still pending.
    pub closed spec fn all(self) -> Seq<Entry> {
        self.index.all()
    }

    /// The committed entries: what queries and snapshots see.
    pub closed spec fn visible(self) -> Seq<Entry> {
        self.index.visible()
    }

    /// The handle list kept for kind `k`.
    pub closed spec fn handles(self, k: Kind) -> Seq<usize> {
        match k {
            Kind::AntHill => self.ant_hills@,
            Kind::Ant => self.ants@,
            Kind::SugarHill => self.sugar_hills@,
            Kind::Raspberry => self.raspberries@,
            Kind::SmellCloud => self.smell_clouds@,
        }
    }

    /// The index is well formed and every handle in a per-kind list refers
    /// to a live entry of the matching kind.
    pub closed spec fn wf(self) -> bool {
        &&& self.index.wf()
        &&& handle_list_wf(self.ant_hills@, self.all(), Kind::AntHill)
        &&& handle_list_wf(self.sugar_hills@, self.all(), Kind::SugarHill)
        &&& handle_list_wf(self.ants@, self.all(), Kind::Ant)
        &&& handle_list_wf(self.raspberries@, self.all(), Kind::Raspberry)
        &&& handle_list_wf(self.smell_clouds@, self.all(), Kind::SmellCloud)
    }

    /// A default-group placement of radius `r` at `p` is blocked by some
    /// committed default-group entry.
    pub open spec fn blocked(self, p: Pose, r: int) -> bool {
        seq_blocked(self.visible(), p, r, Group::Default)
    }

    /// An empty arena of the given extent.
    pub fn new(width: i64, height: i64) -> (w: World)
        ensures
            w.wf(),
            w.map_size() == (MapSize { width, height }),
            w.all() == Seq::<Entry>::empty(),
            w.visible() == Seq::<Entry>::empty(),
            forall|k: Kind| (#[trigger] w.handles(k)).len() == 0,
    {
        World {
            map: MapSize { width, height },
            index: SpatialIndex::new(),
            ant_hills: Vec::new(),
            sugar_hills: Vec::new(),
            ants: Vec::new(),
            raspberries: Vec::new(),
            smell_clouds: Vec::new(),
        }
    }

    /// Commit all pending placements so that subsequent queries and
    /// snapshots observe them. Calling it redundantly changes nothing.
    pub fn update(&mut self)
        requires
            old(self).wf(),
        ensures
            final(self).wf(),
            final(self).all() == old(self).all(),
            final(self).visible() == final(self).all(),
            final(self).map_size() == old(self).map_size(),
            forall|k: Kind| #[trigger] final(self).handles(k) == old(self).handles(k),
    {
        self.index.update();
    }

    /// Unconditionally place a colony hill at `position`; the caller
    /// accepts responsibility for any resulting overlap.
    pub fn add_ant_hill(&mut self, position: Pose, team: Team)
        requires
            old(self).wf(),
            position.wf(),
        ensures
            final(self).wf(),
            final(self).all() == old(self).all().push(ant_hill_entry(position, team)),
            final(self).visible() == old(self).visible(),
            final(self).map_size() == old(self).map_size(),
            final(self).handles(Kind::AntHill) == old(self).handles(Kind::AntHill).push(
                (old(self).all().len() as usize),
            ),
            forall|k: Kind|
                k != Kind::AntHill ==> #[trigger] final(self).handles(k) == old(self).handles(k),
    {
        let e = Entry {
            pose: position,
            radius: ANT_HILL_RADIUS,
            group: Group::Default,
            item: MapItem::AntHill { team },
        };
        let h = self.index.insert(e);
        self.ant_hills.push(h);
        proof {
            lemma_handle_list_extend(old(self).ant_hills@, old(self).all(), e, Kind::AntHill, h);
            lemma_handle_list_grow(old(self).sugar_hills@, old(self).all(), e, Kind::SugarHill);
            lemma_handle_list_grow(old(self).ants@, old(self).all(), e, Kind::Ant);
            lemma_handle_list_grow(old(self).raspberries@, old(self).all(), e, Kind::Raspberry);
            lemma_handle_list_grow(old(self).smell_clouds@, old(self).all(), e, Kind::SmellCloud);
        }
    }

    /// Place a colony hill at `position` only if its footprint is clear of
    /// every committed default-group object; on a blocking overlap nothing
    /// changes and `None` comes back.
    pub fn try_add_ant_hill(&mut self, position: Pose, team: Team) -> (r: Option<()>)
        requires
            old(self).wf(),
            position.wf(),
        ensures
            final(self).wf(),
            final(self).map_size() == old(self).map_size(),
            r.is_some() <==> !old(self).blocked(position, ANT_HILL_RADIUS as int),
            r.is_some() ==> final(self).all() == old(self).all().push(
                ant_hill_entry(position, team),
            ) && final(self).visible() == old(self).visible() && final(self).handles(
                Kind::AntHill,
            ) == old(self).handles(Kind::AntHill).push((old(self).all().len() as usize)) && (
            forall|k: Kind|
                k != Kind::AntHill ==> #[trigger] final(self).handles(k) == old(self).handles(k)),
            r.is_none() ==> *final(self) == *old(self),
    {
        if self.index.overlaps_any(&position, ANT_HILL_RADIUS, Group::Default) {
            None
        } else {
            self.add_ant_hill(position, team);
            Some(())
        }
    }

    /// Atomically place a colony hill at `position` and a second one of
    /// the same team at its point-mirror through the origin. Fails without
    /// any change if either footprint is blocked by a committed
    /// default-group object, or if the two footprints overlap each other
    /// (the chosen pose is too close to the origin).
    pub fn add_ant_hill_mirrored(&mut self, position: Pose, team: Team) -> (r: Option<()>)
        requires
            old(self).wf(),
            position.wf(),
        ensures
            final(self).wf(),
            final(self).map_size() == old(self).map_size(),
            r.is_some() <==> (!old(self).blocked(position, ANT_HILL_RADIUS as int) && !old(
                self,
            ).blocked(position.spec_mirror(), ANT_HILL_RADIUS as int) && !aabb_overlap(
                position,
                ANT_HILL_RADIUS as int,
                position.spec_mirror(),
                ANT_HILL_RADIUS as int,
            )),
            r.is_some() ==> final(self).all() == old(self).all().push(
                ant_hill_entry(position, team),
            ).push(ant_hill_entry(position.spec_mirror(), team)) && final(self).visible() == old(
                self,
            ).visible() && final(self).handles(Kind::AntHill) == old(self).handles(
                Kind::AntHill,
            ).push((old(self).all().len() as usize)).push(
                ((old(self).all().len() + 1) as usize),
            ) && (forall|k: Kind|
                k != Kind::AntHill ==> #[trigger] final(self).handles(k) == old(self).handles(k)),
            r.is_none() ==> *final(self) == *old(self),
    {
        let mirrored = position.mirror();
        if self.index.overlaps_any(&position, ANT_HILL_RADIUS, Group::Default)
            || self.index.overlaps_any(&mirrored, ANT_HILL_RADIUS, Group::Default)
            || boxes_overlap(&position, ANT_HILL_RADIUS, &mirrored, ANT_HILL_RADIUS) {
            None
        } else {
            self.add_ant_hill(position, team);
            self.add_ant_hill(mirrored, team);
            Some(())
        }
    }

    /// Unconditionally place a sugar hill at `position`; the caller
    /// accepts responsibility for any resulting overlap.
    pub fn add_sugar_hill(&mut self, position: Pose)
        requires
            old(self).wf(),
            position.wf(),
        ensures
            final(self).wf(),
            final(self).all() == old(self).all().push(sugar_hill_entry(position)),
            final(self).visible() == old(self).visible(),
            final(self).map_size() == old(self).map_size(),
            final(self).handles(Kind::SugarHill) == old(self).handles(Kind::SugarHill).push(
                (old(self).all().len() as usize),
            ),
            forall|k: Kind|
                k != Kind::SugarHill ==> #[trigger] final(self).handles(k) == old(self).handles(k),
    {
        let e = Entry {
            pose: position,
            radius: SUGAR_HILL_RADIUS,
            group: Group::Default,
            item: MapItem::SugarHill { volume: 1 },
        };
        let h = self.index.insert(e);
        self.sugar_hills.push(h);
        proof {
            lemma_handle_list_grow(old(self).ant_hills@, old(self).all(), e, Kind::AntHill);
            lemma_handle_list_extend(
                old(self).sugar_hills@,
                old(self).all(),
                e,
                Kind::SugarHill,
                h,
            );
            lemma_handle_list_grow(old(self).ants@, old(self).all(), e, Kind::Ant);
            lemma_handle_list_grow(old(self).raspberries@, old(self).all(), e, Kind::Raspberry);
            lemma_handle_list_grow(old(self).smell_clouds@, old(self).all(), e, Kind::SmellCloud);
        }
    }

    /// Place a sugar hill at `position` only if its footprint is clear of
    /// every committed default-group object.
    pub fn try_add_sugar_hill(&mut self, position: Pose) -> (r: Option<()>)
        requires
            old(self).wf(),
            position.wf(),
        ensures
            final(self).wf(),
            final(self).map_size() == old(self).map_size(),
            r.is_some() <==> !old(self).blocked(position, SUGAR_HILL_RADIUS as int),
            r.is_some() ==> final(self).all() == old(self).all().push(sugar_hill_entry(position))
                && final(self).visible() == old(self).visible() && final(self).handles(
                Kind::SugarHill,
            ) == old(self).handles(Kind::SugarHill).push((old(self).all().len() as usize)) && (
            forall|k: Kind|
                k != Kind::SugarHill ==> #[trigger] final(self).handles(k) == old(self).handles(
                    k,
                )),
            r.is_none() ==> *final(self) == *old(self),
    {
        if self.index.overlaps_any(&position, SUGAR_HILL_RADIUS, Group::Default) {
            None
        } else {
            self.add_sugar_hill(position);
            Some(())
        }
    }

    /// Atomically place a sugar hill at `position` and a second one at its
    /// point-mirror through the origin; both are placed or neither.
    pub fn add_sugar_hill_mirrored(&mut self, position: Pose) -> (r: Option<()>)
        requires
            old(self).wf(),
            position.wf(),
        ensures
            final(self).wf(),
            final(self).map_size() == old(self).map_size(),
            r.is_some() <==> (!old(self).blocked(position, SUGAR_HILL_RADIUS as int) && !old(
                self,
            ).blocked(position.spec_mirror(), SUGAR_HILL_RADIUS as int) && !aabb_overlap(
                position,
                SUGAR_HILL_RADIUS as int,
                position.spec_mirror(),
                SUGAR_HILL_RADIUS as int,
            )),
            r.is_some() ==> final(self).all() == old(self).all().push(
                sugar_hill_entry(position),
            ).push(sugar_hill_entry(position.spec_mirror())) && final(self).visible() == old(
                self,
            ).visible() && final(self).handles(Kind::SugarHill) == old(self).handles(
                Kind::SugarHill,
            ).push((old(self).all().len() as usize)).push(
                ((old(self).all().len() + 1) as usize),
            ) && (forall|k: Kind|
                k != Kind::SugarHill ==> #[trigger] final(self).handles(k) == old(self).handles(
                    k,
                )),
            r.is_none() ==> *final(self) == *old(self),
    {
        let mirrored = position.mirror();
        if self.index.overlaps_any(&position, SUGAR_HILL_RADIUS, Group::Default)
            || self.index.overlaps_any(&mirrored, SUGAR_HILL_RADIUS, Group::Default)
            || boxes_overlap(&position, SUGAR_HILL_RADIUS, &mirrored, SUGAR_HILL_RADIUS) {
            None
        } else {
            self.add_sugar_hill(position);
            self.add_sugar_hill(mirrored);
            Some(())
        }
    }

    /// Unconditionally place an ant at `position`; the caller accepts
    /// responsibility for any resulting overlap. A fresh ant has full
    /// health and no velocity.
    pub fn add_ant(&mut self, position: Pose, team: Team)
        requires
            old(self).wf(),
            position.wf(),
        ensures
            final(self).wf(),
            final(self).all() == old(self).all().push(ant_entry(position, team)),
            final(self).visible() == old(self).visible(),
            final(self).map_size() == old(self).map_size(),
            final(self).handles(Kind::Ant) == old(self).handles(Kind::Ant).push(
                (old(self).all().len() as usize),
            ),
            forall|k: Kind|
                k != Kind::Ant ==> #[trigger] final(self).handles(k) == old(self).handles(k),
    {
        let e = Entry {
            pose: position,
            radius: ANT_RADIUS,
            group: Group::Default,
            item: MapItem::Ant { team, hp: 1, velocity: 0 },
        };
        let h = self.index.insert(e);
        self.ants.push(h);
        proof {
            lemma_handle_list_grow(old(self).ant_hills@, old(self).all(), e, Kind::AntHill);
            lemma_handle_list_grow(old(self).sugar_hills@, old(self).all(), e, Kind::SugarHill);
            lemma_handle_list_extend(old(self).ants@, old(self).all(), e, Kind::Ant, h);
            lemma_handle_list_grow(old(self).raspberries@, old(self).all(), e, Kind::Raspberry);
            lemma_handle_list_grow(old(self).smell_clouds@, old(self).all(), e, Kind::SmellCloud);
        }
    }

    /// Place an ant at `position` only if its footprint is clear of every
    /// committed default-group object.
    pub fn try_add_ant(&mut self, position: Pose, team: Team) -> (r: Option<()>)
        requires
            old(self).wf(),
            position.wf(),
        ensures
            final(self).wf(),
            final(self).map_size() == old(self).map_size(),
            r.is_some() <==> !old(self).blocked(position, ANT_RADIUS as int),
            r.is_some() ==> final(self).all() == old(self).all().push(ant_entry(position, team))
                && final(self).visible() == old(self).visible() && final(self).handles(Kind::Ant)
                == old(self).handles(Kind::Ant).push((old(self).all().len() as usize)) && (
            forall|k: Kind|
                k != Kind::Ant ==> #[trigger] final(self).handles(k) == old(self).handles(k)),
            r.is_none() ==> *final(self) == *old(self),
    {
        if self.index.overlaps_any(&position, ANT_RADIUS, Group::Default) {
            None
        } else {
            self.add_ant(position, team);
            Some(())
        }
    }

    /// Unconditionally place a raspberry at `position`; the caller accepts
    /// responsibility for any resulting overlap.
    pub fn add_raspberry(&mut self, position: Pose)
        requires
            old(self).wf(),
            position.wf(),
        ensures
            final(self).wf(),
            final(self).all() == old(self).all().push(raspberry_entry(position)),
            final(self).visible() == old(self).visible(),
            final(self).map_size() == old(self).map_size(),
            final(self).handles(Kind::Raspberry) == old(self).handles(Kind::Raspberry).push(
                (old(self).all().len() as usize),
            ),
            forall|k: Kind|
                k != Kind::Raspberry ==> #[trigger] final(self).handles(k) == old(self).handles(k),
    {
        let e = Entry {
            pose: position,
            radius: RASPBERRY_RADIUS,
            group: Group::Default,
            item: MapItem::Raspberry,
        };
        let h = self.index.insert(e);
        self.raspberries.push(h);
        proof {
            lemma_handle_list_grow(old(self).ant_hills@, old(self).all(), e, Kind::AntHill);
            lemma_handle_list_grow(old(self).sugar_hills@, old(self).all(), e, Kind::SugarHill);
            lemma_handle_list_grow(old(self).ants@, old(self).all(), e, Kind::Ant);
            lemma_handle_list_extend(
                old(self).raspberries@,
                old(self).all(),
                e,
                Kind::Raspberry,
                h,
            );
            lemma_handle_list_grow(old(self).smell_clouds@, old(self).all(), e, Kind::SmellCloud);
        }
    }

    /// Place a raspberry at `position` only if its footprint is clear of
    /// every committed default-group object.
    pub fn try_add_raspberry(&mut self, position: Pose) -> (r: Option<()>)
        requires
            old(self).wf(),
            position.wf(),
        ensures
            final(self).wf(),
            final(self).map_size() == old(self).map_size(),
            r.is_some() <==> !old(self).blocked(position, RASPBERRY_RADIUS as int),
            r.is_some() ==> final(self).all() == old(self).all().push(raspberry_entry(position))
                && final(self).visible() == old(self).visible() && final(self).handles(
                Kind::Raspberry,
            ) == old(self).handles(Kind::Raspberry).push((old(self).all().len() as usize)) && (
            forall|k: Kind|
                k != Kind::Raspberry ==> #[trigger] final(self).handles(k) == old(self).handles(
                    k,
                )),
            r.is_none() ==> *final(self) == *old(self),
    {
        if self.index.overlaps_any(&position, RASPBERRY_RADIUS, Group::Default) {
            None
        } else {
            self.add_raspberry(position);
            Some(())
        }
    }

    /// Atomically place a raspberry at `position` and a second one at its
    /// point-mirror through the origin; both are placed or neither.
    pub fn add_raspberry_mirrored(&mut self, position: Pose) -> (r: Option<()>)
        requires
            old(self).wf(),
            position.wf(),
        ensures
            final(self).wf(),
            final(self).map_size() == old(self).map_size(),
            r.is_some() <==> (!old(self).blocked(position, RASPBERRY_RADIUS as int) && !old(
                self,
            ).blocked(position.spec_mirror(), RASPBERRY_RADIUS as int) && !aabb_overlap(
                position,
                RASPBERRY_RADIUS as int,
                position.spec_mirror(),
                RASPBERRY_RADIUS as int,
            )),
            r.is_some() ==> final(self).all() == old(self).all().push(
                raspberry_entry(position),
            ).push(raspberry_entry(position.spec_mirror())) && final(self).visible() == old(
                self,
            ).visible() && final(self).handles(Kind::Raspberry) == old(self).handles(
                Kind::Raspberry,
            ).push((old(self).all().len() as usize)).push(
                ((old(self).all().len() + 1) as usize),
            ) && (forall|k: Kind|
                k != Kind::Raspberry ==> #[trigger] final(self).handles(k) == old(self).handles(
                    k,
                )),
            r.is_none() ==> *final(self) == *old(self),
    {
        let mirrored = position.mirror();
        if self.index.overlaps_any(&position, RASPBERRY_RADIUS, Group::Default)
            || self.index.overlaps_any(&mirrored, RASPBERRY_RADIUS, Group::Default)
            || boxes_overlap(&position, RASPBERRY_RADIUS, &mirrored, RASPBERRY_RADIUS) {
            None
        } else {
            self.add_raspberry(position);
            self.add_raspberry(mirrored);
            Some(())
        }
    }

    /// Unconditionally place a smell cloud at `position`. Smell clouds
    /// join the smell group, so they neither block nor are blocked by any
    /// placement; no overlap check is made.
    pub fn add_smell(&mut self, position: Pose, code: u32, team: Team)
        requires
            old(self).wf(),
            position.wf(),
        ensures
            final(self).wf(),
            final(self).all() == old(self).all().push(smell_cloud_entry(position, code, team)),
            final(self).visible() == old(self).visible(),
            final(self).map_size() == old(self).map_size(),
            final(self).handles(Kind::SmellCloud) == old(self).handles(Kind::SmellCloud).push(
                (old(self).all().len() as usize),
            ),
            forall|k: Kind|
                k != Kind::SmellCloud ==> #[trigger] final(self).handles(k) == old(self).handles(
                    k,
                ),
    {
        let e = Entry {
            pose: position,
            radius: SMELL_CLOUD_RADIUS,
            group: Group::Smell,
            item: MapItem::SmellCloud { team, code, age: 0 },
        };
        let h = self.index.insert(e);
        self.smell_clouds.push(h);
        proof {
            lemma_handle_list_grow(old(self).ant_hills@, old(self).all(), e, Kind::AntHill);
            lemma_handle_list_grow(old(self).sugar_hills@, old(self).all(), e, Kind::SugarHill);
            lemma_handle_list_grow(old(self).ants@, old(self).all(), e, Kind::Ant);
            lemma_handle_list_grow(old(self).raspberries@, old(self).all(), e, Kind::Raspberry);
            lemma_handle_list_extend(
                old(self).smell_clouds@,
                old(self).all(),
                e,
                Kind::SmellCloud,
                h,
            );
        }
    }

    /// Extract the immutable per-tick snapshot: every committed entry,
    /// grouped by kind, each record carrying the current geometric pose
    /// read back from the index together with the payload's non-geometric
    /// fields. Pending placements that [`World::update`] has not committed
    /// yet do not appear.
    pub fn snapshot(&self) -> (f: Frame)
        requires
            self.wf(),
        ensures
            f.ants@ == ants_of(self.visible()),
            f.anthills@ == anthills_of(self.visible()),
            f.raspberries@ == raspberries_of(self.visible()),
            f.sugar_hills@ == sugar_hills_of(self.visible()),
            f.smells_clouds@ == smell_clouds_of(self.visible()),
    {
        let mut ants: Vec<Ant> = Vec::new();
        let mut anthills: Vec<AntHill> = Vec::new();
        let mut raspberries: Vec<Pose> = Vec::new();
        let mut sugar_hills: Vec<SugarHill> = Vec::new();
        let mut smells_clouds: Vec<SmellCloud> = Vec::new();
        let n = self.index.committed_len();
        proof {
            assert(self.visible().take(0) =~= Seq::<Entry>::empty());
        }
        let mut i: usize = 0;
        while i < n
            invariant
                self.wf(),
                n as int == self.visible().len(),
                i <= n,
                ants@ == ants_of(self.visible().take(i as int)),
                anthills@ == anthills_of(self.visible().take(i as int)),
                raspberries@ == raspberries_of(self.visible().take(i as int)),
                sugar_hills@ == sugar_hills_of(self.visible().take(i as int)),
                smells_clouds@ == smell_clouds_of(self.visible().take(i as int)),
            decreases n - i,
        {
            let e = *self.index.committed_entry(i);
            proof {
                assert(self.visible().take(i as int + 1).drop_last() =~= self.visible().take(
                    i as int,
                ));
                assert(self.visible().take(i as int + 1).last() == self.visible()[i as int]);
            }
            match e.item {
                MapItem::AntHill { team } => anthills.push(AntHill { pose: e.pose, team }),
                MapItem::Ant { team, hp, velocity } => ants.push(
                    Ant { pose: e.pose, team, hp, velocity },
                ),
                MapItem::SugarHill { volume } => sugar_hills.push(
                    SugarHill { pose: e.pose, volume },
                ),
                MapItem::Raspberry => raspberries.push(e.pose),
                MapItem::SmellCloud { team, code, age } => smells_clouds.push(
                    SmellCloud { position: Vector2 { x: e.pose.x, y: e.pose.y }, code, age, team },
                ),
            }
            i += 1;
        }
        proof {
            assert(self.visible().take(n as int) =~= self.visible());
        }
        Frame { ants, anthills, raspberries, sugar_hills, smells_clouds }
    }
}

} // verus!
