//! The spatial index: a broad-phase store of (pose, radius, group,
//! payload) entries under stable handles. Entries become visible to
//! queries and snapshots only once [`SpatialIndex::update`] commits them;
//! until then they sit in a pending suffix. Handles are assigned in
//! insertion order and are never invalidated, as nothing is ever removed.

use vstd::prelude::*;

use crate::geometry::{aabb_overlap, boxes_overlap, Pose};
use crate::shapes::MAX_RADIUS;

verus! {

/// A small unsigned integer identifying one of the competing sides; the
/// engine treats it as an opaque tag and validates nothing about it.
pub type Team = u8;

/// Collision filter group of a stored entry and of a query. Objects of the
/// default group mutually block each other; smell clouds are ghosts that
/// block nothing and are blocked by nothing.
#[derive(Clone, Copy, PartialEq, Eq, Structural, Debug)]
pub enum Group {
    Default,
    Smell,
}

/// A query of group `query` sees a stored entry of group `stored`.
/// Only default-group queries against default-group entries interact.
pub open spec fn groups_interact(query: Group, stored: Group) -> bool {
    query == Group::Default && stored == Group::Default
}

/// The non-geometric attributes of a stored object. The geometric pose
/// lives in the index entry itself and is read back from there at snapshot
/// time, so no stale copy of it is kept here.
#[derive(Clone, Copy, PartialEq, Eq, Structural, Debug)]
pub enum MapItem {
    AntHill { team: Team },
    Ant { team: Team, hp: i64, velocity: i64 },
    SugarHill { volume: i64 },
    Raspberry,
    SmellCloud { team: Team, code: u32, age: u32 },
}

/// One stored object: its geometric pose, its circular footprint radius,
/// its collision group, and its payload.
#[derive(Clone, Copy, PartialEq, Eq, Structural, Debug)]
pub struct Entry {
    pub pose: Pose,
    pub radius: i64,
    pub group: Group,
    pub item: MapItem,
}

impl Entry {
    /// The pose is in range and the radius is one a shape of the catalog
    /// can have, so bounding-box arithmetic on the entry cannot overflow.
    pub open spec fn wf(self) -> bool {
        self.pose.wf() && 0 <= self.radius <= MAX_RADIUS
    }
}

/// Some entry of `s` whose group interacts with `query_group` has a
/// bounding box intersecting the box of radius `r` at `p`.
pub open spec fn seq_blocked(s: Seq<Entry>, p: Pose, r: int, query_group: Group) -> bool {
    exists|i: int|
        0 <= i < s.len() && groups_interact(query_group, (#[trigger] s[i]).group)
            && aabb_overlap(s[i].pose, s[i].radius as int, p, r)
}

pub struct SpatialIndex {
    entries: Vec<Entry>,
    committed: usize,
}

impl SpatialIndex {
    /// All entries in handle order, committed or still pending.
    pub closed spec fn all(self) -> Seq<Entry> {
        self.entries@
    }

    /// The committed prefix: the entries that queries and snapshots see.
    pub closed spec fn visible(self) -> Seq<Entry> {
        self.entries@.take(self.committed as int)
    }

    /// The committed watermark never passes the end and every entry is
    /// well formed.
    pub closed spec fn wf(self) -> bool {
        &&& self.committed <= self.entries.len()
        &&& forall|i: int| 0 <= i < self.entries@.len() ==> (#[trigger] self.entries@[i]).wf()
    }

    /// An empty index: no entries, nothing committed.
    pub fn new() -> (s: SpatialIndex)
        ensures
            s.wf(),
            s.all() == Seq::<Entry>::empty(),
            s.visible() == Seq::<Entry>::empty(),
    {
        let s = SpatialIndex { entries: Vec::new(), committed: 0 };
        proof {
            assert(s.visible() =~= Seq::<Entry>::empty());
        }
        s
    }

    /// Store an entry under the next handle. The entry is pending: queries
    /// and snapshots do not see it until [`SpatialIndex::update`] runs.
    pub fn insert(&mut self, e: Entry) -> (h: usize)
        requires
            old(self).wf(),
            e.wf(),
        ensures
            final(self).wf(),
            final(self).all() == old(self).all().push(e),
            final(self).visible() == old(self).visible(),
            h as int == old(self).all().len(),
    {
        let h = self.entries.len();
        self.entries.push(e);
        proof {
            assert(self.visible() =~= old(self).visible());
        }
        h
    }

    /// Commit all pending entries, making them visible to subsequent
    /// queries and snapshots. Running it again with nothing pending
    /// changes nothing.
    pub fn update(&mut self)
        requires
            old(self).wf(),
        ensures
            final(self).wf(),
            final(self).all() == old(self).all(),
            final(self).visible() == final(self).all(),
    {
        self.committed = self.entries.len();
        proof {
            assert(self.visible() =~= self.all());
        }
    }

    /// The number of committed entries.
    pub fn committed_len(&self) -> (n: usize)
        requires
            self.wf(),
        ensures
            n as int == self.visible().len(),
    {
        self.committed
    }

    /// Read one committed entry.
    pub fn committed_entry(&self, i: usize) -> (e: &Entry)
        requires
            self.wf(),
            i < self.visible().len(),
        ensures
            *e == self.visible()[i as int],
    {
        &self.entries[i]
    }

    /// Does any committed entry seen by `query_group` have a bounding box
    /// intersecting the box of radius `r` at `p`?
    pub fn overlaps_any(&self, p: &Pose, r: i64, query_group: Group) -> (b: bool)
        requires
            self.wf(),
            p.wf(),
            0 <= r <= MAX_RADIUS,
        ensures
            b == seq_blocked(self.visible(), *p, r as int, query_group),
    {
        let n = self.committed;
        let mut i: usize = 0;
        while i < n
            invariant
                self.wf(),
                p.wf(),
                0 <= r <= MAX_RADIUS,
                n == self.committed,
                i <= n,
                forall|j: int|
                    0 <= j < i ==> !(groups_interact(query_group,
                        (#[trigger] self.visible()[j]).group)
                        && aabb_overlap(self.visible()[j].pose, self.visible()[j].radius as int,
                        *p, r as int)),
            decreases n - i,
        {
            let e = &self.entries[i];
            proof {
                assert(self.visible()[i as int] == self.entries@[i as int]);
            }
            let interacts = query_group == Group::Default && e.group == Group::Default;
            if interacts && boxes_overlap(&e.pose, e.radius, p, r) {
                return true;
            }
            i += 1;
        }
        false
    }
}

} // verus!
