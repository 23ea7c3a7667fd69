//! The mathematical model of snapshot extraction: per-kind record
//! sequences read off a sequence of index entries, in entry order, each
//! record combining the entry's current geometric pose with the payload's
//! non-geometric fields.

use vstd::prelude::*;

use crate::geometry::{Pose, Vector2};
use crate::index::{Entry, MapItem};
use crate::objects::{Ant, AntHill, SmellCloud, SugarHill};

verus! {

/// The colony-hill records of `s`, in entry order.
pub open spec fn anthills_of(s: Seq<Entry>) -> Seq<AntHill>
    decreases s.len(),
{
    if s.len() == 0 {
        Seq::empty()
    } else {
        let e = s.last();
        let rest = anthills_of(s.drop_last());
        match e.item {
            MapItem::AntHill { team } => rest.push(AntHill { pose: e.pose, team }),
            _ => rest,
        }
    }
}

/// The ant records of `s`, in entry order.
pub open spec fn ants_of(s: Seq<Entry>) -> Seq<Ant>
    decreases s.len(),
{
    if s.len() == 0 {
        Seq::empty()
    } else {
        let e = s.last();
        let rest = ants_of(s.drop_last());
        match e.item {
            MapItem::Ant { team, hp, velocity } => rest.push(
                Ant { pose: e.pose, team, hp, velocity },
            ),
            _ => rest,
        }
    }
}

/// The sugar-hill records of `s`, in entry order.
pub open spec fn sugar_hills_of(s: Seq<Entry>) -> Seq<SugarHill>
    decreases s.len(),
{
    if s.len() == 0 {
        Seq::empty()
    } else {
        let e = s.last();
        let rest = sugar_hills_of(s.drop_last());
        match e.item {
            MapItem::SugarHill { volume } => rest.push(SugarHill { pose: e.pose, volume }),
            _ => rest,
        }
    }
}

/// The raspberry poses of `s`, in entry order.
pub open spec fn raspberries_of(s: Seq<Entry>) -> Seq<Pose>
    decreases s.len(),
{
    if s.len() == 0 {
        Seq::empty()
    } else {
        let e = s.last();
        let rest = raspberries_of(s.drop_last());
        match e.item {
            MapItem::Raspberry => rest.push(e.pose),
            _ => rest,
        }
    }
}

/// The smell-cloud records of `s`, in entry order; the cloud's position is
/// the entry pose's translation.
pub open spec fn smell_clouds_of(s: Seq<Entry>) -> Seq<SmellCloud>
    decreases s.len(),
{
    if s.len() == 0 {
        Seq::empty()
    } else {
        let e = s.last();
        let rest = smell_clouds_of(s.drop_last());
        match e.item {
            MapItem::SmellCloud { team, code, age } => rest.push(
                SmellCloud { position: Vector2 { x: e.pose.x, y: e.pose.y }, code, age, team },
            ),
            _ => rest,
        }
    }
}

/// Snapshot completeness: the five per-kind sequences read off `s`
/// together hold exactly one record per entry of `s`, with no duplicates
/// and no omissions.
pub proof fn lemma_snapshot_partition(s: Seq<Entry>)
    ensures
        ants_of(s).len() + anthills_of(s).len() + raspberries_of(s).len() + sugar_hills_of(
            s,
        ).len() + smell_clouds_of(s).len() == s.len(),
    decreases s.len(),
{
    if s.len() > 0 {
        lemma_snapshot_partition(s.drop_last());
    }
}

} // verus!
