//! The entity kinds of the simulation, their fixed parameters, and the rules
//! that concern one entity at a time: identifiers, hitboxes, movement, contact
//! damage and tower firing.

use vstd::prelude::*;
use crate::geometry::{
    dist_sq, distance_sq, heading, heading_spec, within_speed, Rect, Vec2, COORD_LIMIT,
    SPEED_LIMIT,
};

verus! {

/// Player movement per tick.
pub const PLAYER_MOVE_SPEED: i64 = 5000;
/// Offset of the player's hitbox from its position, on both axes.
pub const PLAYER_BOX_OFFSET: i64 = 5000;
pub const PLAYER_BOX_W: i64 = 35000;
pub const PLAYER_BOX_H: i64 = 41000;

/// Side of a tower's square hitbox.
pub const TOWER_SIZE: i64 = 16000;
pub const TOWER_COST: i32 = 30;
pub const TOWER_STRENGTH: u32 = 5;
pub const TOWER_HEALTH: i64 = 500;
/// Milliseconds a tower waits between two shots.
pub const TOWER_SHOT_COOLDOWN: u64 = 1000;
/// A tower fires only at a monster strictly closer than this.
pub const FIRE_RANGE: i64 = 150000;
/// `FIRE_RANGE` squared.
pub const FIRE_RANGE_SQ: u128 = 22_500_000_000;

pub const BULLET_SPEED: i64 = 1000;
pub const BULLET_W: i64 = 18000;
pub const BULLET_H: i64 = 16000;

pub const PURSUER_SPEED: i64 = 1000;
pub const PURSUER_W: i64 = 60000;
pub const PURSUER_H: i64 = 54000;
pub const PURSUER_DAMAGE: u32 = 5;
pub const PURSUER_COOLDOWN: u64 = 1000;
pub const PURSUER_HEALTH: i64 = 100;

pub const SEEKER_SPEED: i64 = 800;
pub const SEEKER_W: i64 = 51000;
pub const SEEKER_H: i64 = 54000;
pub const SEEKER_DAMAGE: u32 = 10;
pub const SEEKER_COOLDOWN: u64 = 1500;
pub const SEEKER_HEALTH: i64 = 60;

/// Issues identifiers in increasing order, never the same one twice.
pub struct IdAllocator {
    pub next: u64,
}

impl IdAllocator {
    pub fn new() -> (r: IdAllocator)
        ensures
            r.next == 1,
    {
        IdAllocator { next: 1 }
    }

    pub fn next_id(&mut self) -> (id: u64)
        requires
            old(self).next < u64::MAX,
        ensures
            id == old(self).next,
            final(self).next == old(self).next + 1,
    {
        let id = self.next;
        self.next = self.next + 1;
        id
    }
}

/// A coordinate kept within the world's coordinate range.
pub open spec fn clamp_coord(v: int) -> int {
    if v < -COORD_LIMIT {
        -COORD_LIMIT as int
    } else if v > COORD_LIMIT {
        COORD_LIMIT as int
    } else {
        v
    }
}

/// The point `p` moved by `v`, saturating at the edge of the coordinate range.
pub open spec fn step_spec(p: Vec2, v: Vec2) -> Vec2 {
    Vec2 { x: clamp_coord(p.x + v.x) as i64, y: clamp_coord(p.y + v.y) as i64 }
}

pub fn step(p: Vec2, v: Vec2) -> (r: Vec2)
    requires
        p.in_range(),
        within_speed(v, SPEED_LIMIT as int),
    ensures
        r == step_spec(p, v),
        r.in_range(),
{
    let x = p.x + v.x;
    let y = p.y + v.y;
    let x = if x < -COORD_LIMIT { -COORD_LIMIT } else if x > COORD_LIMIT { COORD_LIMIT } else { x };
    let y = if y < -COORD_LIMIT { -COORD_LIMIT } else if y > COORD_LIMIT { COORD_LIMIT } else { y };
    Vec2 { x, y }
}

/// `h` lowered by `d`, saturating at the smallest `i64`.
pub open spec fn lose(h: int, d: int) -> int {
    if h - d < i64::MIN {
        i64::MIN as int
    } else {
        h - d
    }
}

pub fn lose_health(h: i64, d: u32) -> (r: i64)
    ensures
        r == lose(h as int, d as int),
{
    if h < i64::MIN + d as i64 {
        i64::MIN
    } else {
        h - d as i64
    }
}

/// Whether an action last taken at `last` (never, if `None`) may be taken
/// again at `now`: strictly more than `cooldown` must have passed.
pub open spec fn cooled_down(last: Option<u64>, cooldown: u64, now: u64) -> bool {
    match last {
        None => true,
        Some(t) => now - t > cooldown,
    }
}

pub fn is_cooled_down(last: Option<u64>, cooldown: u64, now: u64) -> (r: bool)
    ensures
        r == cooled_down(last, cooldown, now),
{
    match last {
        None => true,
        Some(t) => now > t && now - t > cooldown,
    }
}

#[derive(Clone, Copy, Debug, PartialEq, Eq, Structural)]
pub struct Player {
    pub id: u64,
    pub pos: Vec2,
    /// The step taken in the last tick.
    pub velocity: Vec2,
    pub facing_right: bool,
    pub health: i64,
    pub max_health: i64,
}

/// Player health after a hit of `amount`: only a living player is hurt, and
/// health never drops below zero.
pub open spec fn damaged_health(h: int, amount: int) -> int {
    let lowered = if h > 0 { h - amount } else { h };
    if lowered < 0 {
        0
    } else {
        lowered
    }
}

impl Player {
    pub open spec fn wf(self) -> bool {
        &&& self.pos.in_range()
        &&& within_speed(self.velocity, PLAYER_MOVE_SPEED as int)
        &&& 0 <= self.health <= self.max_health
    }

    pub open spec fn hitbox_spec(self) -> Rect {
        Rect::at_spec(
            self.pos,
            PLAYER_BOX_OFFSET as int,
            PLAYER_BOX_OFFSET as int,
            PLAYER_BOX_W as int,
            PLAYER_BOX_H as int,
        )
    }

    pub fn new(id: u64, pos: Vec2, health: i64) -> (r: Player)
        requires
            pos.in_range(),
            health >= 0,
        ensures
            r.wf(),
            r.id == id,
            r.pos == pos,
            r.velocity == (Vec2 { x: 0, y: 0 }),
            r.facing_right,
            r.health == health,
            r.max_health == health,
    {
        Player { id, pos, velocity: Vec2 { x: 0, y: 0 }, facing_right: true, health, max_health: health }
    }

    pub fn hitbox(&self) -> (r: Rect)
        requires
            self.pos.in_range(),
        ensures
            r == self.hitbox_spec(),
            r.bounded(),
    {
        Rect::at(self.pos, PLAYER_BOX_OFFSET, PLAYER_BOX_OFFSET, PLAYER_BOX_W, PLAYER_BOX_H)
    }

    pub fn take_damage(&mut self, amount: u32)
        requires
            old(self).wf(),
        ensures
            final(self).wf(),
            *final(self) == (Player { health: damaged_health(old(self).health as int, amount as int) as i64, ..*old(self) }),
    {
        if self.health > 0 {
            self.health = self.health - amount as i64;
        }
        if self.health < 0 {
            self.health = 0;
        }
    }
}

/// A tower, placed by the player; it shoots at monsters that come near.
#[derive(Clone, Copy, Debug, PartialEq, Eq, Structural)]
pub struct Tower {
    pub id: u64,
    pub cost: i32,
    pub pos: Vec2,
    /// Damage carried by each bullet.
    pub strength: u32,
    pub health: i64,
    pub max_health: i64,
    pub shot_cooldown: u64,
    /// When the tower last fired; `None` before its first shot.
    pub last_shot_time: Option<u64>,
}

#[derive(Clone, Copy, Debug, PartialEq, Eq, Structural)]
pub struct Bullet {
    pub id: u64,
    pub pos: Vec2,
    pub velocity: Vec2,
    pub damage: u32,
}

impl Bullet {
    pub open spec fn wf(self) -> bool {
        self.pos.in_range() && within_speed(self.velocity, BULLET_SPEED as int)
    }

    pub open spec fn hitbox_spec(self) -> Rect {
        Rect::at_spec(self.pos, 0, 0, BULLET_W as int, BULLET_H as int)
    }

    pub fn hitbox(&self) -> (r: Rect)
        requires
            self.pos.in_range(),
        ensures
            r == self.hitbox_spec(),
            r.bounded(),
    {
        Rect::at(self.pos, 0, 0, BULLET_W, BULLET_H)
    }

    pub open spec fn advanced(self) -> Bullet {
        Bullet { pos: step_spec(self.pos, self.velocity), ..self }
    }

    /// Moves the bullet by its velocity.
    pub fn advance(&mut self)
        requires
            old(self).wf(),
        ensures
            *final(self) == old(self).advanced(),
            final(self).wf(),
    {
        self.pos = step(self.pos, self.velocity);
    }
}

impl Tower {
    pub open spec fn wf(self) -> bool {
        self.pos.in_range()
    }

    pub open spec fn hitbox_spec(self) -> Rect {
        Rect::at_spec(self.pos, 0, 0, TOWER_SIZE as int, TOWER_SIZE as int)
    }

    /// A new tower with id `id` at `pos`, which has not fired yet.
    pub open spec fn placed(id: u64, pos: Vec2) -> Tower {
        Tower {
            id,
            cost: TOWER_COST,
            pos,
            strength: TOWER_STRENGTH,
            health: TOWER_HEALTH,
            max_health: TOWER_HEALTH,
            shot_cooldown: TOWER_SHOT_COOLDOWN,
            last_shot_time: None,
        }
    }

    pub fn new(id: u64, pos: Vec2) -> (r: Tower)
        requires
            pos.in_range(),
        ensures
            r.wf(),
            r == Tower::placed(id, pos),
    {
        Tower {
            id,
            cost: TOWER_COST,
            pos,
            strength: TOWER_STRENGTH,
            health: TOWER_HEALTH,
            max_health: TOWER_HEALTH,
            shot_cooldown: TOWER_SHOT_COOLDOWN,
            last_shot_time: None,
        }
    }

    pub fn hitbox(&self) -> (r: Rect)
        requires
            self.pos.in_range(),
        ensures
            r == self.hitbox_spec(),
            r.bounded(),
    {
        Rect::at(self.pos, 0, 0, TOWER_SIZE, TOWER_SIZE)
    }

    pub open spec fn can_fire(self, now: u64) -> bool {
        cooled_down(self.last_shot_time, self.shot_cooldown, now)
    }

    pub open spec fn in_range_of(self, m: Monster) -> bool {
        dist_sq(self.pos, m.pos) < FIRE_RANGE_SQ
    }

    /// Monster `i` is the first of `ms` within firing range.
    pub open spec fn is_first_target(self, ms: Seq<Monster>, i: int) -> bool {
        &&& 0 <= i < ms.len()
        &&& self.in_range_of(ms[i])
        &&& forall|j: int| 0 <= j < i ==> !self.in_range_of(#[trigger] ms[j])
    }

    /// The first monster of `ms` within firing range, if any.
    pub open spec fn first_target(self, ms: Seq<Monster>) -> Option<int> {
        if exists|i: int| self.is_first_target(ms, i) {
            Some(choose|i: int| self.is_first_target(ms, i))
        } else {
            None
        }
    }

    /// The bullet this tower fires at `now` among monsters `ms`, with id `id`.
    pub open spec fn shot(self, ms: Seq<Monster>, now: u64, id: u64) -> Option<Bullet> {
        if self.can_fire(now) {
            match self.first_target(ms) {
                Some(i) => Some(
                    Bullet {
                        id,
                        pos: self.pos,
                        velocity: heading_spec(
                            Vec2 { x: (ms[i].pos.x - self.pos.x) as i64, y: (ms[i].pos.y - self.pos.y) as i64 },
                            BULLET_SPEED as int,
                        ),
                        damage: self.strength,
                    },
                ),
                None => None,
            }
        } else {
            None
        }
    }

    /// The tower after its firing decision at `now`.
    pub open spec fn after_shot(self, ms: Seq<Monster>, now: u64) -> Tower {
        if self.shot(ms, now, 0).is_some() {
            Tower { last_shot_time: Some(now), ..self }
        } else {
            self
        }
    }

    /// Fires at the first monster within range if the cooldown has passed,
    /// taking the bullet's id from `ids`.
    pub fn check_shoot(&mut self, now: u64, monsters: &Vec<Monster>, ids: &mut IdAllocator) -> (r: Option<Bullet>)
        requires
            old(self).wf(),
            old(ids).next < u64::MAX,
            forall|j: int| 0 <= j < monsters@.len() ==> (#[trigger] monsters@[j]).pos.in_range(),
        ensures
            r == old(self).shot(monsters@, now, old(ids).next),
            *final(self) == old(self).after_shot(monsters@, now),
            final(ids).next == old(ids).next + (if r.is_some() { 1int } else { 0 }),
            r.is_some() ==> r.unwrap().wf(),
    {
        if !is_cooled_down(self.last_shot_time, self.shot_cooldown, now) {
            return None;
        }
        let mut i: usize = 0;
        while i < monsters.len()
            invariant
                0 <= i <= monsters@.len(),
                *self == *old(self),
                *ids == *old(ids),
                self.wf(),
                self.can_fire(now),
                ids.next < u64::MAX,
                forall|j: int| 0 <= j < monsters@.len() ==> (#[trigger] monsters@[j]).pos.in_range(),
                forall|j: int| 0 <= j < i ==> !self.in_range_of(#[trigger] monsters@[j]),
            decreases monsters@.len() - i,
        {
            let m = monsters[i];
            if distance_sq(self.pos, m.pos) < FIRE_RANGE_SQ {
                proof {
                    assert(self.is_first_target(monsters@, i as int));
                    let k = choose|k: int| self.is_first_target(monsters@, k);
                    assert(k == i) by {
                        if k < i {
                            assert(!self.in_range_of(monsters@[k]));
                        } else if k > i {
                            assert(!self.in_range_of(monsters@[i as int]));
                        }
                    }
                }
                let d = Vec2 { x: m.pos.x - self.pos.x, y: m.pos.y - self.pos.y };
                let velocity = heading(d, BULLET_SPEED);
                let id = ids.next_id();
                let b = Bullet { id, pos: self.pos, velocity, damage: self.strength };
                self.last_shot_time = Some(now);
                return Some(b);
            }
            i = i + 1;
        }
        None
    }
}

/// A tower that has just fired does not fire again until strictly more than
/// its shot cooldown has passed, whatever monsters are around by then.
pub proof fn lemma_no_shot_within_cooldown(
    t: Tower,
    ms: Seq<Monster>,
    fired_at: u64,
    id: u64,
    later_ms: Seq<Monster>,
    now: u64,
    later_id: u64,
)
    requires
        t.shot(ms, fired_at, id).is_some(),
        now <= fired_at + t.shot_cooldown,
    ensures
        t.after_shot(ms, fired_at).last_shot_time == Some(fired_at),
        t.after_shot(ms, fired_at).shot(later_ms, now, later_id).is_none(),
{
}

/// The two kinds of monster: one hunts the player, the other a tower.
#[derive(Clone, Copy, Debug, PartialEq, Eq, Structural)]
pub enum MonsterKind {
    Pursuer,
    /// Heads for the tower with this id while it stands, else for the player.
    Seeker { target: Option<u64> },
}

#[derive(Clone, Copy, Debug, PartialEq, Eq, Structural)]
pub struct Monster {
    pub id: u64,
    pub kind: MonsterKind,
    pub health: i64,
    pub max_health: i64,
    pub pos: Vec2,
    pub velocity: Vec2,
    pub facing_right: bool,
    pub damage: u32,
    pub damage_cooldown: u64,
    /// When the monster last hurt the player. A new monster counts from time
    /// 0, the start of the session clock, so no monster hurts the player
    /// before its damage cooldown has passed in the session.
    pub last_damage_time: Option<u64>,
}

impl Monster {
    pub open spec fn wf(self) -> bool {
        self.pos.in_range() && within_speed(self.velocity, SPEED_LIMIT as int)
    }

    pub open spec fn speed_spec(self) -> int {
        match self.kind {
            MonsterKind::Pursuer => PURSUER_SPEED as int,
            MonsterKind::Seeker { .. } => SEEKER_SPEED as int,
        }
    }

    pub fn speed(&self) -> (r: i64)
        ensures
            r == self.speed_spec(),
    {
        match self.kind {
            MonsterKind::Pursuer => PURSUER_SPEED,
            MonsterKind::Seeker { .. } => SEEKER_SPEED,
        }
    }

    pub open spec fn hitbox_spec(self) -> Rect {
        match self.kind {
            MonsterKind::Pursuer => Rect::at_spec(self.pos, 0, 0, PURSUER_W as int, PURSUER_H as int),
            MonsterKind::Seeker { .. } => Rect::at_spec(self.pos, 0, 0, SEEKER_W as int, SEEKER_H as int),
        }
    }

    pub fn hitbox(&self) -> (r: Rect)
        requires
            self.pos.in_range(),
        ensures
            r == self.hitbox_spec(),
            r.bounded(),
    {
        match self.kind {
            MonsterKind::Pursuer => Rect::at(self.pos, 0, 0, PURSUER_W, PURSUER_H),
            MonsterKind::Seeker { .. } => Rect::at(self.pos, 0, 0, SEEKER_W, SEEKER_H),
        }
    }

    /// A new monster that hunts the player.
    pub open spec fn pursuer_spec(id: u64, pos: Vec2, velocity: Vec2) -> Monster {
        Monster {
            id,
            kind: MonsterKind::Pursuer,
            health: PURSUER_HEALTH,
            max_health: PURSUER_HEALTH,
            pos,
            velocity,
            facing_right: velocity.x > 0,
            damage: PURSUER_DAMAGE,
            damage_cooldown: PURSUER_COOLDOWN,
            last_damage_time: Some(0),
        }
    }

    /// A new monster that hunts the tower `target`.
    pub open spec fn seeker_spec(id: u64, pos: Vec2, velocity: Vec2, target: Option<u64>) -> Monster {
        Monster {
            id,
            kind: MonsterKind::Seeker { target },
            health: SEEKER_HEALTH,
            max_health: SEEKER_HEALTH,
            pos,
            velocity,
            facing_right: velocity.x > 0,
            damage: SEEKER_DAMAGE,
            damage_cooldown: SEEKER_COOLDOWN,
            last_damage_time: Some(0),
        }
    }

    /// A monster that hunts the player.
    pub fn pursuer(id: u64, pos: Vec2, velocity: Vec2) -> (r: Monster)
        requires
            pos.in_range(),
            within_speed(velocity, SPEED_LIMIT as int),
        ensures
            r.wf(),
            r == Monster::pursuer_spec(id, pos, velocity),
    {
        Monster {
            id,
            kind: MonsterKind::Pursuer,
            health: PURSUER_HEALTH,
            max_health: PURSUER_HEALTH,
            pos,
            velocity,
            facing_right: velocity.x > 0,
            damage: PURSUER_DAMAGE,
            damage_cooldown: PURSUER_COOLDOWN,
            last_damage_time: Some(0),
        }
    }

    /// A monster that hunts the tower `target`.
    pub fn seeker(id: u64, pos: Vec2, velocity: Vec2, target: Option<u64>) -> (r: Monster)
        requires
            pos.in_range(),
            within_speed(velocity, SPEED_LIMIT as int),
        ensures
            r.wf(),
            r == Monster::seeker_spec(id, pos, velocity, target),
    {
        Monster {
            id,
            kind: MonsterKind::Seeker { target },
            health: SEEKER_HEALTH,
            max_health: SEEKER_HEALTH,
            pos,
            velocity,
            facing_right: velocity.x > 0,
            damage: SEEKER_DAMAGE,
            damage_cooldown: SEEKER_COOLDOWN,
            last_damage_time: Some(0),
        }
    }

    pub open spec fn can_strike(self, now: u64) -> bool {
        cooled_down(self.last_damage_time, self.damage_cooldown, now)
    }
}

} // verus!
