//! Choosing targets: the tower nearest to a point, a tower by id, and the
//! point each monster heads for.

use vstd::prelude::*;
use crate::entity::{Monster, MonsterKind, Tower};
use crate::geometry::{dist_sq, distance_sq, Vec2};

verus! {

/// Tower `i` is nearest to `p`, and no tower before it is as near.
pub open spec fn is_nearest(ts: Seq<Tower>, p: Vec2, i: int) -> bool {
    &&& 0 <= i < ts.len()
    &&& forall|j: int| 0 <= j < ts.len() ==> dist_sq(ts[i].pos, p) <= dist_sq(#[trigger] ts[j].pos, p)
    &&& forall|j: int| 0 <= j < i ==> dist_sq(ts[i].pos, p) < dist_sq(#[trigger] ts[j].pos, p)
}

/// The index of the tower nearest to `p` (the first of equally near ones), or
/// `None` when there is no tower.
pub open spec fn nearest_tower(ts: Seq<Tower>, p: Vec2) -> Option<int> {
    if ts.len() == 0 {
        None
    } else {
        Some(choose|i: int| is_nearest(ts, p, i))
    }
}

proof fn lemma_nearest_unique(ts: Seq<Tower>, p: Vec2, i: int)
    requires
        is_nearest(ts, p, i),
    ensures
        nearest_tower(ts, p) == Some(i),
{
    let k = choose|k: int| is_nearest(ts, p, k);
    assert(is_nearest(ts, p, k));
    if k < i {
        assert(dist_sq(ts[i].pos, p) < dist_sq(ts[k].pos, p));
        assert(dist_sq(ts[k].pos, p) <= dist_sq(ts[i].pos, p));
    } else if k > i {
        assert(dist_sq(ts[k].pos, p) < dist_sq(ts[i].pos, p));
        assert(dist_sq(ts[i].pos, p) <= dist_sq(ts[k].pos, p));
    }
}

/// `nearest_tower` computed by one pass over the towers.
pub fn nearest_tower_index(towers: &Vec<Tower>, p: Vec2) -> (r: Option<usize>)
    requires
        p.in_range(),
        forall|j: int| 0 <= j < towers@.len() ==> (#[trigger] towers@[j]).wf(),
    ensures
        r.is_some() == nearest_tower(towers@, p).is_some(),
        r.is_some() ==> nearest_tower(towers@, p) == Some(r.unwrap() as int),
        r.is_some() ==> is_nearest(towers@, p, r.unwrap() as int),
{
    if towers.len() == 0 {
        return None;
    }
    let mut best: usize = 0;
    let mut best_d: u128 = distance_sq(towers[0].pos, p);
    let mut i: usize = 1;
    while i < towers.len()
        invariant
            1 <= i <= towers@.len(),
            0 <= best < i,
            p.in_range(),
            forall|j: int| 0 <= j < towers@.len() ==> (#[trigger] towers@[j]).wf(),
            best_d == dist_sq(towers@[best as int].pos, p),
            forall|j: int| 0 <= j < i ==> best_d <= dist_sq(#[trigger] towers@[j].pos, p),
            forall|j: int| 0 <= j < best ==> best_d < dist_sq(#[trigger] towers@[j].pos, p),
        decreases towers@.len() - i,
    {
        let d = distance_sq(towers[i].pos, p);
        if d < best_d {
            best = i;
            best_d = d;
        }
        i = i + 1;
    }
    proof {
        lemma_nearest_unique(towers@, p, best as int);
    }
    Some(best)
}

/// Tower `i` has id `id`, and no tower before it does.
pub open spec fn is_first_with_id(ts: Seq<Tower>, id: u64, i: int) -> bool {
    &&& 0 <= i < ts.len()
    &&& ts[i].id == id
    &&& forall|j: int| 0 <= j < i ==> (#[trigger] ts[j]).id != id
}

/// The index of the tower with id `id`, or `None` when no tower has it.
pub open spec fn tower_index(ts: Seq<Tower>, id: u64) -> Option<int> {
    if exists|i: int| is_first_with_id(ts, id, i) {
        Some(choose|i: int| is_first_with_id(ts, id, i))
    } else {
        None
    }
}

/// `tower_index` computed by one pass over the towers.
pub fn find_tower(towers: &Vec<Tower>, id: u64) -> (r: Option<usize>)
    ensures
        r.is_some() == tower_index(towers@, id).is_some(),
        r.is_some() ==> tower_index(towers@, id) == Some(r.unwrap() as int),
{
    let mut i: usize = 0;
    while i < towers.len()
        invariant
            0 <= i <= towers@.len(),
            forall|j: int| 0 <= j < i ==> (#[trigger] towers@[j]).id != id,
        decreases towers@.len() - i,
    {
        if towers[i].id == id {
            proof {
                assert(is_first_with_id(towers@, id, i as int));
                let k = choose|k: int| is_first_with_id(towers@, id, k);
                assert(k == i) by {
                    if k < i {
                        assert(towers@[k].id != id);
                    } else if k > i {
                        assert(towers@[i as int].id != id);
                    }
                }
            }
            return Some(i);
        }
        i = i + 1;
    }
    None
}

/// The point monster `m` heads for: the player for a pursuer; for a seeker,
/// its tower while that tower stands, else the player.
pub open spec fn aim_point(m: Monster, ts: Seq<Tower>, player_pos: Vec2) -> Vec2 {
    match m.kind {
        MonsterKind::Pursuer => player_pos,
        MonsterKind::Seeker { target } => match target {
            Some(id) => match tower_index(ts, id) {
                Some(i) => ts[i].pos,
                None => player_pos,
            },
            None => player_pos,
        },
    }
}

pub fn aim(m: &Monster, towers: &Vec<Tower>, player_pos: Vec2) -> (r: Vec2)
    ensures
        r == aim_point(*m, towers@, player_pos),
{
    match m.kind {
        MonsterKind::Pursuer => player_pos,
        MonsterKind::Seeker { target } => match target {
            Some(id) => match find_tower(towers, id) {
                Some(i) => towers[i].pos,
                None => player_pos,
            },
            None => player_pos,
        },
    }
}

} // verus!
