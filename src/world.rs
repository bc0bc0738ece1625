//! The whole simulation state and the tick that advances it, phase by phase.
//!
//! Each phase is a method with an exact contract over `WorldModel`, the
//! mathematical view of a `World`; `World::tick` runs them in their fixed order.

use vstd::prelude::*;
use crate::entity::{
    damaged_health, is_cooled_down, lose, lose_health, step, step_spec, Bullet, IdAllocator,
    Monster, MonsterKind, Player, Tower, BULLET_SPEED, PLAYER_MOVE_SPEED, PURSUER_SPEED,
    SEEKER_SPEED,
};
use crate::geometry::{
    dist_sq, distance_sq, heading, heading_spec, overlaps_spec, within_speed, Rect, Vec2,
};
use crate::targeting::{aim, aim_point, nearest_tower, nearest_tower_index};

verus! {

/// Milliseconds between two pursuers.
pub const PURSUER_SPAWN_INTERVAL: u64 = 6000;
/// Milliseconds between two seekers.
pub const SEEKER_SPAWN_INTERVAL: u64 = 10000;

/// Where new monsters appear: the world's origin.
pub open spec fn spawn_point() -> Vec2 {
    Vec2 { x: 0, y: 0 }
}

/// The pursuer that appears with id `id`: it starts toward the player.
pub open spec fn pursuer_spawn(id: u64, player_pos: Vec2) -> Monster {
    Monster::pursuer_spec(id, spawn_point(), heading_spec(player_pos, PURSUER_SPEED as int))
}

/// The seeker that appears with id `id`: it hunts the tower nearest to the
/// spawn point, or starts toward the player when there is no tower.
pub open spec fn seeker_spawn(id: u64, ts: Seq<Tower>, player_pos: Vec2) -> Monster {
    match nearest_tower(ts, spawn_point()) {
        Some(i) => Monster::seeker_spec(id, spawn_point(), heading_spec(ts[i].pos, SEEKER_SPEED as int), Some(ts[i].id)),
        None => Monster::seeker_spec(id, spawn_point(), heading_spec(player_pos, SEEKER_SPEED as int), None),
    }
}

/// Whether a monster kind last spawned at `last` is due again at `now`.
pub open spec fn spawn_due(last: u64, interval: u64, now: u64) -> bool {
    now - last > interval
}

/// When each kind of monster last appeared.
#[derive(Clone, Copy, Debug, PartialEq, Eq, Structural)]
pub struct SpawnScheduler {
    pub last_pursuer: u64,
    pub last_seeker: u64,
}

pub struct World {
    pub player: Player,
    pub towers: Vec<Tower>,
    pub monsters: Vec<Monster>,
    pub bullets: Vec<Bullet>,
    pub spawner: SpawnScheduler,
    pub ids: IdAllocator,
    /// Size of the world; bullets live within the closed box `[0, width] x [0, height]`.
    pub width: i64,
    pub height: i64,
}

pub struct WorldModel {
    pub player: Player,
    pub towers: Seq<Tower>,
    pub monsters: Seq<Monster>,
    pub bullets: Seq<Bullet>,
    pub spawner: SpawnScheduler,
    pub next_id: u64,
    pub width: i64,
    pub height: i64,
}

impl View for World {
    type V = WorldModel;

    open spec fn view(&self) -> WorldModel {
        WorldModel {
            player: self.player,
            towers: self.towers@,
            monsters: self.monsters@,
            bullets: self.bullets@,
            spawner: self.spawner,
            next_id: self.ids.next,
            width: self.width,
            height: self.height,
        }
    }
}

/// Tower ids strictly increase along `ts` and are all below `bound`.
pub open spec fn towers_ordered(ts: Seq<Tower>, bound: u64) -> bool {
    &&& forall|i: int, j: int| 0 <= i < j < ts.len() ==> (#[trigger] ts[i]).id < (#[trigger] ts[j]).id
    &&& forall|i: int| 0 <= i < ts.len() ==> (#[trigger] ts[i]).id < bound
}

/// Monster ids strictly increase along `ms` and are all below `bound`.
pub open spec fn monsters_ordered(ms: Seq<Monster>, bound: u64) -> bool {
    &&& forall|i: int, j: int| 0 <= i < j < ms.len() ==> (#[trigger] ms[i]).id < (#[trigger] ms[j]).id
    &&& forall|i: int| 0 <= i < ms.len() ==> (#[trigger] ms[i]).id < bound
}

/// Bullet ids strictly increase along `bs` and are all below `bound`.
pub open spec fn bullets_ordered(bs: Seq<Bullet>, bound: u64) -> bool {
    &&& forall|i: int, j: int| 0 <= i < j < bs.len() ==> (#[trigger] bs[i]).id < (#[trigger] bs[j]).id
    &&& forall|i: int| 0 <= i < bs.len() ==> (#[trigger] bs[i]).id < bound
}

impl WorldModel {
    /// Every entity is well formed; in particular the player's health lies in
    /// `[0, max_health]`. Within each collection entities are kept in the
    /// order they were created, so ids strictly increase along it, and every
    /// id is below the next one to be issued: no id is ever given twice.
    pub open spec fn wf(self) -> bool {
        &&& self.player.wf()
        &&& forall|i: int| 0 <= i < self.towers.len() ==> (#[trigger] self.towers[i]).wf()
        &&& forall|i: int| 0 <= i < self.monsters.len() ==> (#[trigger] self.monsters[i]).wf()
        &&& forall|i: int| 0 <= i < self.bullets.len() ==> (#[trigger] self.bullets[i]).wf()
        &&& self.player.id < self.next_id
        &&& towers_ordered(self.towers, self.next_id)
        &&& monsters_ordered(self.monsters, self.next_id)
        &&& bullets_ordered(self.bullets, self.next_id)
    }
}

/// The bullets fired by towers `ts`, in tower order, the first taking id `next`.
pub open spec fn volley(ts: Seq<Tower>, ms: Seq<Monster>, now: u64, next: u64) -> Seq<Bullet>
    decreases ts.len(),
{
    if ts.len() == 0 {
        Seq::empty()
    } else {
        let pre = volley(ts.drop_last(), ms, now, next);
        match ts.last().shot(ms, now, (next + pre.len()) as u64) {
            Some(b) => pre.push(b),
            None => pre,
        }
    }
}

proof fn lemma_volley_len(ts: Seq<Tower>, ms: Seq<Monster>, now: u64, next: u64)
    ensures
        volley(ts, ms, now, next).len() <= ts.len(),
    decreases ts.len(),
{
    if ts.len() > 0 {
        lemma_volley_len(ts.drop_last(), ms, now, next);
    }
}

/// Phase one: every tower decides whether to fire.
pub open spec fn fire_phase(w: WorldModel, now: u64) -> WorldModel {
    let shots = volley(w.towers, w.monsters, now, w.next_id);
    WorldModel {
        towers: w.towers.map_values(|t: Tower| t.after_shot(w.monsters, now)),
        bullets: w.bullets + shots,
        next_id: (w.next_id + shots.len()) as u64,
        ..w
    }
}

impl World {
    /// Lets each tower, in order, fire at the first monster within range.
    pub fn fire_towers(&mut self, now: u64)
        requires
            old(self)@.wf(),
            old(self).ids.next + old(self).towers@.len() < u64::MAX,
        ensures
            final(self)@ == fire_phase(old(self)@, now),
            final(self)@.wf(),
    {
        let ghost w0 = self@;
        let mut i: usize = 0;
        while i < self.towers.len()
            invariant
                0 <= i <= self.towers@.len(),
                self.towers@.len() == w0.towers.len(),
                w0.wf(),
                w0.next_id + w0.towers.len() < u64::MAX,
                self.player == w0.player,
                self.monsters@ == w0.monsters,
                self.spawner == w0.spawner,
                self.width == w0.width,
                self.height == w0.height,
                forall|j: int| 0 <= j < i ==> self.towers@[j] == w0.towers[j].after_shot(w0.monsters, now),
                forall|j: int| i <= j < w0.towers.len() ==> self.towers@[j] == w0.towers[j],
                self.bullets@ == w0.bullets + volley(w0.towers.take(i as int), w0.monsters, now, w0.next_id),
                self.ids.next == w0.next_id + volley(w0.towers.take(i as int), w0.monsters, now, w0.next_id).len(),
                forall|j: int| 0 <= j < self.bullets@.len() ==> (#[trigger] self.bullets@[j]).wf(),
                forall|j: int| 0 <= j < w0.towers.len() ==> (#[trigger] self.towers@[j]).id == w0.towers[j].id,
                w0.next_id <= self.ids.next,
                bullets_ordered(self.bullets@, self.ids.next),
            decreases w0.towers.len() - i,
        {
            proof {
                lemma_volley_len(w0.towers.take(i as int), w0.monsters, now, w0.next_id);
                assert(w0.towers.take(i + 1).drop_last() =~= w0.towers.take(i as int));
            }
            let mut t = self.towers[i];
            let shot = t.check_shoot(now, &self.monsters, &mut self.ids);
            self.towers[i] = t;
            match shot {
                Some(b) => {
                    self.bullets.push(b);
                },
                None => {},
            }
            i = i + 1;
        }
        proof {
            assert(w0.towers.take(w0.towers.len() as int) =~= w0.towers);
            assert(self.towers@ =~= w0.towers.map_values(|t: Tower| t.after_shot(w0.monsters, now)));
            assert(towers_ordered(self.towers@, self.ids.next)) by {
                assert(forall|j: int| 0 <= j < w0.towers.len() ==> self.towers@[j].id == (#[trigger] w0.towers[j]).id);
            }
        }
    }
}


/// Phase two: a pursuer appears when its interval has passed, then a seeker
/// when its own has.
pub open spec fn spawn_phase(w: WorldModel, now: u64) -> WorldModel {
    let due_p = spawn_due(w.spawner.last_pursuer, PURSUER_SPAWN_INTERVAL, now);
    let due_s = spawn_due(w.spawner.last_seeker, SEEKER_SPAWN_INTERVAL, now);
    let ps = if due_p { seq![pursuer_spawn(w.next_id, w.player.pos)] } else { Seq::<Monster>::empty() };
    let n1 = w.next_id + ps.len();
    let ss = if due_s { seq![seeker_spawn(n1 as u64, w.towers, w.player.pos)] } else { Seq::<Monster>::empty() };
    WorldModel {
        monsters: w.monsters + ps + ss,
        spawner: SpawnScheduler {
            last_pursuer: if due_p { now } else { w.spawner.last_pursuer },
            last_seeker: if due_s { now } else { w.spawner.last_seeker },
        },
        next_id: (n1 + ss.len()) as u64,
        ..w
    }
}

impl World {
    /// Creates the monsters whose spawn interval has passed.
    pub fn spawn_monsters(&mut self, now: u64)
        requires
            old(self)@.wf(),
            old(self).ids.next + 2 < u64::MAX,
        ensures
            final(self)@ == spawn_phase(old(self)@, now),
            final(self)@.wf(),
    {
        let ghost w0 = self@;
        let origin = Vec2 { x: 0, y: 0 };
        let due_p = now > self.spawner.last_pursuer && now - self.spawner.last_pursuer > PURSUER_SPAWN_INTERVAL;
        if due_p {
            let id = self.ids.next_id();
            let velocity = heading(self.player.pos, PURSUER_SPEED);
            self.monsters.push(Monster::pursuer(id, origin, velocity));
            self.spawner.last_pursuer = now;
        }
        let ghost w1 = self@;
        let due_s = now > self.spawner.last_seeker && now - self.spawner.last_seeker > SEEKER_SPAWN_INTERVAL;
        if due_s {
            assert(self.towers@ == w0.towers);
            let id = self.ids.next_id();
            let m = match nearest_tower_index(&self.towers, origin) {
                Some(i) => {
                    let t = self.towers[i];
                    Monster::seeker(id, origin, heading(t.pos, SEEKER_SPEED), Some(t.id))
                },
                None => Monster::seeker(id, origin, heading(self.player.pos, SEEKER_SPEED), None),
            };
            self.monsters.push(m);
            self.spawner.last_seeker = now;
        }
        proof {
            let w2 = spawn_phase(w0, now);
            assert(self.monsters@ =~= w2.monsters);
        }
    }
}


/// Whether a point lies in the world `[0, w] x [0, h]`, its edges included.
pub open spec fn inside(p: Vec2, w: i64, h: i64) -> bool {
    0 <= p.x <= w && 0 <= p.y <= h
}

/// A bullet after one tick of flight, or `None` once it has left the world.
pub open spec fn flight(w: i64, h: i64) -> spec_fn(Bullet) -> Option<Bullet> {
    |b: Bullet|
        if inside(b.advanced().pos, w, h) {
            Some(b.advanced())
        } else {
            None
        }
}

/// Phase three: bullets move, and those that left the world are dropped.
pub open spec fn flight_phase(w: WorldModel) -> WorldModel {
    WorldModel { bullets: w.bullets.filter_map(flight(w.width, w.height)), ..w }
}

/// Squared distance from the player beyond which a monster vanishes.
pub const DESPAWN_RADIUS_SQ: u128 = 4_000_000_000_000;

/// A monster stays while it is near enough to the player and its health is
/// not negative.
pub open spec fn survival(player_pos: Vec2) -> spec_fn(Monster) -> bool {
    |m: Monster| dist_sq(m.pos, player_pos) <= DESPAWN_RADIUS_SQ && m.health >= 0
}

/// A tower stays while its health is not negative: like a monster, a tower
/// whose health has fallen below zero is destroyed and removed.
pub open spec fn standing() -> spec_fn(Tower) -> bool {
    |t: Tower| t.health >= 0
}

/// Phase four: far or dead monsters, and destroyed towers, are removed.
pub open spec fn cull_phase(w: WorldModel) -> WorldModel {
    WorldModel {
        monsters: w.monsters.filter(survival(w.player.pos)),
        towers: w.towers.filter(standing()),
        ..w
    }
}

impl World {
    /// Moves every bullet and drops those outside the world.
    pub fn fly_bullets(&mut self)
        requires
            old(self)@.wf(),
        ensures
            final(self)@ == flight_phase(old(self)@),
            final(self)@.wf(),
            forall|j: int| 0 <= j < final(self).bullets@.len()
                ==> inside((#[trigger] final(self).bullets@[j]).pos, final(self).width, final(self).height),
    {
        let ghost w0 = self@;
        let ghost f = flight(self.width, self.height);
        let mut kept: Vec<Bullet> = Vec::new();
        let mut i: usize = 0;
        while i < self.bullets.len()
            invariant
                0 <= i <= self.bullets@.len(),
                self@ == w0,
                w0.wf(),
                f == flight(w0.width, w0.height),
                kept@ == w0.bullets.take(i as int).filter_map(f),
                forall|j: int| 0 <= j < kept@.len() ==> (#[trigger] kept@[j]).wf(),
                forall|j: int| 0 <= j < kept@.len() ==> inside((#[trigger] kept@[j]).pos, w0.width, w0.height),
                bullets_ordered(kept@, w0.next_id),
                forall|a: int, k: int| 0 <= a < kept@.len() && i <= k < w0.bullets.len()
                    ==> (#[trigger] kept@[a]).id < (#[trigger] w0.bullets[k]).id,
            decreases w0.bullets.len() - i,
        {
            proof {
                assert(w0.bullets.take(i + 1).drop_last() =~= w0.bullets.take(i as int));
            }
            let mut b = self.bullets[i];
            b.advance();
            if 0 <= b.pos.x && b.pos.x <= self.width && 0 <= b.pos.y && b.pos.y <= self.height {
                kept.push(b);
            }
            i = i + 1;
        }
        proof {
            assert(w0.bullets.take(w0.bullets.len() as int) =~= w0.bullets);
        }
        assert(self.towers@ == w0.towers && self.monsters@ == w0.monsters);
        self.bullets = kept;
    }

    /// Removes monsters that are too far from the player or whose health is
    /// negative, and towers whose health is negative.
    pub fn cull(&mut self)
        requires
            old(self)@.wf(),
        ensures
            final(self)@ == cull_phase(old(self)@),
            final(self)@.wf(),
            forall|j: int| 0 <= j < final(self).monsters@.len() ==> (#[trigger] final(self).monsters@[j]).health >= 0,
            forall|j: int| 0 <= j < final(self).towers@.len() ==> (#[trigger] final(self).towers@[j]).health >= 0,
    {
        let ghost w0 = self@;
        let ghost keep = survival(self.player.pos);
        let ppos = self.player.pos;
        let mut kept: Vec<Monster> = Vec::new();
        let mut i: usize = 0;
        while i < self.monsters.len()
            invariant
                0 <= i <= self.monsters@.len(),
                self@ == w0,
                w0.wf(),
                ppos == w0.player.pos,
                keep == survival(w0.player.pos),
                kept@ == w0.monsters.take(i as int).filter(keep),
                forall|j: int| 0 <= j < kept@.len() ==> (#[trigger] kept@[j]).wf(),
                forall|j: int| 0 <= j < kept@.len() ==> (#[trigger] kept@[j]).health >= 0,
                monsters_ordered(kept@, w0.next_id),
                forall|a: int, k: int| 0 <= a < kept@.len() && i <= k < w0.monsters.len()
                    ==> (#[trigger] kept@[a]).id < (#[trigger] w0.monsters[k]).id,
            decreases w0.monsters.len() - i,
        {
            proof {
                assert(w0.monsters.take(i + 1).drop_last() =~= w0.monsters.take(i as int));
                reveal(Seq::filter);
            }
            let m = self.monsters[i];
            if distance_sq(m.pos, ppos) <= DESPAWN_RADIUS_SQ && m.health >= 0 {
                kept.push(m);
            }
            i = i + 1;
        }
        proof {
            assert(w0.monsters.take(w0.monsters.len() as int) =~= w0.monsters);
        }
        assert(self.towers@ == w0.towers && self.bullets@ == w0.bullets);
        self.monsters = kept;
        let ghost w1 = self@;
        let ghost stay = standing();
        let mut kept_t: Vec<Tower> = Vec::new();
        let mut i: usize = 0;
        while i < self.towers.len()
            invariant
                0 <= i <= self.towers@.len(),
                self@ == w1,
                w1.wf(),
                stay == standing(),
                kept_t@ == w1.towers.take(i as int).filter(stay),
                forall|j: int| 0 <= j < kept_t@.len() ==> (#[trigger] kept_t@[j]).wf(),
                forall|j: int| 0 <= j < kept_t@.len() ==> (#[trigger] kept_t@[j]).health >= 0,
                towers_ordered(kept_t@, w1.next_id),
                forall|a: int, k: int| 0 <= a < kept_t@.len() && i <= k < w1.towers.len()
                    ==> (#[trigger] kept_t@[a]).id < (#[trigger] w1.towers[k]).id,
            decreases w1.towers.len() - i,
        {
            proof {
                assert(w1.towers.take(i + 1).drop_last() =~= w1.towers.take(i as int));
                reveal(Seq::filter);
            }
            let t = self.towers[i];
            if t.health >= 0 {
                kept_t.push(t);
            }
            i = i + 1;
        }
        proof {
            assert(w1.towers.take(w1.towers.len() as int) =~= w1.towers);
        }
        assert(self.monsters@ == w1.monsters && self.bullets@ == w1.bullets);
        self.towers = kept_t;
    }
}


/// A monster after re-aiming at its target and taking one step toward it.
pub open spec fn moved(m: Monster, ts: Seq<Tower>, player_pos: Vec2) -> Monster {
    let target = aim_point(m, ts, player_pos);
    let v = heading_spec(
        Vec2 { x: (target.x - m.pos.x) as i64, y: (target.y - m.pos.y) as i64 },
        m.speed_spec(),
    );
    Monster { velocity: v, pos: step_spec(m.pos, v), ..m }
}

/// Health `h` after every bullet of `bs` that touches the box `hb` has hit.
pub open spec fn health_after_hits(h: int, hb: Rect, bs: Seq<Bullet>) -> int
    decreases bs.len(),
{
    if bs.len() == 0 {
        h
    } else {
        let h0 = health_after_hits(h, hb, bs.drop_last());
        if overlaps_spec(hb, bs.last().hitbox_spec()) {
            lose(h0, bs.last().damage as int)
        } else {
            h0
        }
    }
}

proof fn lemma_hits_range(h: int, hb: Rect, bs: Seq<Bullet>)
    requires
        i64::MIN <= h <= i64::MAX,
    ensures
        i64::MIN <= health_after_hits(h, hb, bs) <= h,
    decreases bs.len(),
{
    if bs.len() > 0 {
        lemma_hits_range(h, hb, bs.drop_last());
    }
}

/// Bullets that do not touch the box `hb`.
pub open spec fn missing(hb: Rect) -> spec_fn(Bullet) -> bool {
    |b: Bullet| !overlaps_spec(hb, b.hitbox_spec())
}

/// A tower after contact with monster `m`: a seeker touching it deals its
/// damage, every tick the two touch.
pub open spec fn rammed(m: Monster) -> spec_fn(Tower) -> Tower {
    |t: Tower|
        if m.kind is Seeker && overlaps_spec(m.hitbox_spec(), t.hitbox_spec()) {
            Tower { health: lose(t.health as int, m.damage as int) as i64, ..t }
        } else {
            t
        }
}

/// One monster's turn: it moves, is hit by the bullets touching it, which are
/// consumed, and rams the towers it touches.
pub open spec fn monster_turn(m: Monster, bs: Seq<Bullet>, ts: Seq<Tower>, player_pos: Vec2) -> (Monster, Seq<Bullet>, Seq<Tower>) {
    let mv = moved(m, ts, player_pos);
    let hb = mv.hitbox_spec();
    (
        Monster { health: health_after_hits(mv.health as int, hb, bs) as i64, ..mv },
        bs.filter(missing(hb)),
        ts.map_values(rammed(mv)),
    )
}

/// The turns of monsters `ms`, in order.
pub open spec fn monster_turns(ms: Seq<Monster>, bs: Seq<Bullet>, ts: Seq<Tower>, player_pos: Vec2) -> (Seq<Monster>, Seq<Bullet>, Seq<Tower>)
    decreases ms.len(),
{
    if ms.len() == 0 {
        (Seq::empty(), bs, ts)
    } else {
        let pre = monster_turns(ms.drop_last(), bs, ts, player_pos);
        let turn = monster_turn(ms.last(), pre.1, pre.2, player_pos);
        (pre.0.push(turn.0), turn.1, turn.2)
    }
}

/// The monsters' turns only consume bullets, never make new ones.
proof fn lemma_turns_keep_bullets(ms: Seq<Monster>, bs: Seq<Bullet>, ts: Seq<Tower>, player_pos: Vec2, b: Bullet)
    requires
        monster_turns(ms, bs, ts, player_pos).1.contains(b),
    ensures
        bs.contains(b),
    decreases ms.len(),
{
    if ms.len() > 0 {
        let pre = monster_turns(ms.drop_last(), bs, ts, player_pos);
        let hb = moved(ms.last(), pre.2, player_pos).hitbox_spec();
        pre.1.lemma_filter_contains_rev(missing(hb), b);
        lemma_turns_keep_bullets(ms.drop_last(), bs, ts, player_pos, b);
    }
}

/// Monsters whose health is not negative.
pub open spec fn alive() -> spec_fn(Monster) -> bool {
    |m: Monster| m.health >= 0
}

/// Phase five: every monster takes its turn; then the monsters killed in it
/// are removed.
pub open spec fn battle_phase(w: WorldModel) -> WorldModel {
    let turns = monster_turns(w.monsters, w.bullets, w.towers, w.player.pos);
    WorldModel { monsters: turns.0.filter(alive()), bullets: turns.1, towers: turns.2, ..w }
}

/// Applies to `m` the bullets that touch it and removes them.
fn absorb_hits(m: &mut Monster, bullets: &mut Vec<Bullet>, Ghost(bound): Ghost<u64>)
    requires
        old(m).wf(),
        forall|j: int| 0 <= j < old(bullets)@.len() ==> (#[trigger] old(bullets)@[j]).wf(),
        bullets_ordered(old(bullets)@, bound),
    ensures
        bullets_ordered(final(bullets)@, bound),
        *final(m) == (Monster { health: health_after_hits(old(m).health as int, old(m).hitbox_spec(), old(bullets)@) as i64, ..*old(m) }),
        final(bullets)@ == old(bullets)@.filter(missing(old(m).hitbox_spec())),
        forall|j: int| 0 <= j < final(bullets)@.len() ==> (#[trigger] final(bullets)@[j]).wf(),
{
    let ghost m0 = *m;
    let ghost bs0 = bullets@;
    let hb = m.hitbox();
    let ghost miss = missing(hb);
    let mut kept: Vec<Bullet> = Vec::new();
    let mut i: usize = 0;
    while i < bullets.len()
        invariant
            0 <= i <= bullets@.len(),
            bullets@ == bs0,
            m0.wf(),
            hb == m0.hitbox_spec(),
            hb.bounded(),
            miss == missing(hb),
            forall|j: int| 0 <= j < bs0.len() ==> (#[trigger] bs0[j]).wf(),
            *m == (Monster { health: health_after_hits(m0.health as int, hb, bs0.take(i as int)) as i64, ..m0 }),
            kept@ == bs0.take(i as int).filter(miss),
            forall|j: int| 0 <= j < kept@.len() ==> (#[trigger] kept@[j]).wf(),
            bullets_ordered(bs0, bound),
            bullets_ordered(kept@, bound),
            forall|a: int, k: int| 0 <= a < kept@.len() && i <= k < bs0.len()
                ==> (#[trigger] kept@[a]).id < (#[trigger] bs0[k]).id,
        decreases bs0.len() - i,
    {
        proof {
            assert(bs0.take(i + 1).drop_last() =~= bs0.take(i as int));
            reveal(Seq::filter);
            lemma_hits_range(m0.health as int, hb, bs0.take(i as int));
            lemma_hits_range(m0.health as int, hb, bs0.take(i + 1));
        }
        let b = bullets[i];
        if hb.overlaps(&b.hitbox()) {
            m.health = lose_health(m.health, b.damage);
        } else {
            kept.push(b);
        }
        i = i + 1;
    }
    proof {
        assert(bs0.take(bs0.len() as int) =~= bs0);
    }
    *bullets = kept;
}

/// Lets `m` ram every tower it touches.
fn ram_towers(m: &Monster, towers: &mut Vec<Tower>)
    requires
        m.wf(),
        forall|j: int| 0 <= j < old(towers)@.len() ==> (#[trigger] old(towers)@[j]).wf(),
    ensures
        final(towers)@ == old(towers)@.map_values(rammed(*m)),
        forall|j: int| 0 <= j < old(towers)@.len() ==> (#[trigger] final(towers)@[j]).id == old(towers)@[j].id,
        forall|j: int| 0 <= j < final(towers)@.len() ==> (#[trigger] final(towers)@[j]).wf(),
{
    let ghost ts0 = towers@;
    let hb = m.hitbox();
    let seeker = match m.kind {
        MonsterKind::Seeker { .. } => true,
        MonsterKind::Pursuer => false,
    };
    let mut i: usize = 0;
    while i < towers.len()
        invariant
            0 <= i <= towers@.len(),
            towers@.len() == ts0.len(),
            m.wf(),
            hb == m.hitbox_spec(),
            hb.bounded(),
            seeker == (m.kind is Seeker),
            forall|j: int| 0 <= j < ts0.len() ==> (#[trigger] ts0[j]).wf(),
            forall|j: int| 0 <= j < i ==> towers@[j] == rammed(*m)(ts0[j]),
            forall|j: int| i <= j < ts0.len() ==> towers@[j] == ts0[j],
        decreases ts0.len() - i,
    {
        assert(towers@[i as int] == ts0[i as int]);
        let mut t = towers[i];
        if seeker && hb.overlaps(&t.hitbox()) {
            t.health = lose_health(t.health, m.damage);
        }
        towers[i] = t;
        i = i + 1;
    }
    proof {
        assert(towers@ =~= ts0.map_values(rammed(*m)));
    }
}

impl World {
    /// Every monster, in order, re-aims, moves, takes the hits of the bullets
    /// touching it and rams the towers it touches; then the monsters whose
    /// health fell below zero are removed, so none of them reaches the player.
    pub fn advance_monsters(&mut self)
        requires
            old(self)@.wf(),
        ensures
            final(self)@ == battle_phase(old(self)@),
            final(self)@.wf(),
            forall|j: int| 0 <= j < final(self).monsters@.len() ==> (#[trigger] final(self).monsters@[j]).health >= 0,
    {
        let ghost w0 = self@;
        let ppos = self.player.pos;
        let mut done: Vec<Monster> = Vec::new();
        let mut i: usize = 0;
        while i < self.monsters.len()
            invariant
                0 <= i <= self.monsters@.len(),
                w0.wf(),
                ppos == w0.player.pos,
                self.player == w0.player,
                self.monsters@ == w0.monsters,
                self.spawner == w0.spawner,
                self.ids.next == w0.next_id,
                self.width == w0.width,
                self.height == w0.height,
                done@ == monster_turns(w0.monsters.take(i as int), w0.bullets, w0.towers, ppos).0,
                self.bullets@ == monster_turns(w0.monsters.take(i as int), w0.bullets, w0.towers, ppos).1,
                self.towers@ == monster_turns(w0.monsters.take(i as int), w0.bullets, w0.towers, ppos).2,
                forall|j: int| 0 <= j < done@.len() ==> (#[trigger] done@[j]).wf(),
                forall|j: int| 0 <= j < self.bullets@.len() ==> (#[trigger] self.bullets@[j]).wf(),
                forall|j: int| 0 <= j < self.towers@.len() ==> (#[trigger] self.towers@[j]).wf(),
                done@.len() == i,
                forall|j: int| 0 <= j < i ==> (#[trigger] done@[j]).id == w0.monsters[j].id,
                bullets_ordered(self.bullets@, w0.next_id),
                towers_ordered(self.towers@, w0.next_id),
            decreases w0.monsters.len() - i,
        {
            proof {
                assert(w0.monsters.take(i + 1).drop_last() =~= w0.monsters.take(i as int));
            }
            let mut m = self.monsters[i];
            let target = aim(&m, &self.towers, ppos);
            let v = heading(Vec2 { x: target.x - m.pos.x, y: target.y - m.pos.y }, m.speed());
            m.velocity = v;
            m.pos = step(m.pos, v);
            absorb_hits(&mut m, &mut self.bullets, Ghost(w0.next_id));
            let ghost ts_before = self.towers@;
            ram_towers(&m, &mut self.towers);
            proof {
                assert forall|a: int, b: int| 0 <= a < b < self.towers@.len() implies (#[trigger] self.towers@[a]).id
                    < (#[trigger] self.towers@[b]).id by {
                    assert(self.towers@[a].id == ts_before[a].id);
                    assert(self.towers@[b].id == ts_before[b].id);
                }
                assert forall|a: int| 0 <= a < self.towers@.len() implies (#[trigger] self.towers@[a]).id < w0.next_id by {
                    assert(self.towers@[a].id == ts_before[a].id);
                }
            }
            done.push(m);
            i = i + 1;
        }
        proof {
            assert(w0.monsters.take(w0.monsters.len() as int) =~= w0.monsters);
            assert(monsters_ordered(done@, w0.next_id)) by {
                assert(forall|j: int| 0 <= j < done@.len() ==> (#[trigger] done@[j]).id == w0.monsters[j].id);
            }
        }
        let ghost live = alive();
        let mut kept: Vec<Monster> = Vec::new();
        let mut i: usize = 0;
        while i < done.len()
            invariant
                0 <= i <= done@.len(),
                live == alive(),
                forall|j: int| 0 <= j < done@.len() ==> (#[trigger] done@[j]).wf(),
                kept@ == done@.take(i as int).filter(live),
                forall|j: int| 0 <= j < kept@.len() ==> (#[trigger] kept@[j]).wf(),
                forall|j: int| 0 <= j < kept@.len() ==> (#[trigger] kept@[j]).health >= 0,
                monsters_ordered(done@, w0.next_id),
                monsters_ordered(kept@, w0.next_id),
                forall|a: int, k: int| 0 <= a < kept@.len() && i <= k < done@.len()
                    ==> (#[trigger] kept@[a]).id < (#[trigger] done@[k]).id,
            decreases done@.len() - i,
        {
            proof {
                assert(done@.take(i + 1).drop_last() =~= done@.take(i as int));
                reveal(Seq::filter);
            }
            let m = done[i];
            if m.health >= 0 {
                kept.push(m);
            }
            i = i + 1;
        }
        proof {
            assert(done@.take(done@.len() as int) =~= done@);
        }
        self.monsters = kept;
    }
}


/// Whether monster `m` hurts a player whose hitbox is `phb` at `now`: they
/// touch and the monster's damage cooldown has passed.
pub open spec fn strikes(m: Monster, phb: Rect, now: u64) -> bool {
    overlaps_spec(m.hitbox_spec(), phb) && m.can_strike(now)
}

/// A monster after its contact with the player: one that strikes remembers when.
pub open spec fn after_contact(phb: Rect, now: u64) -> spec_fn(Monster) -> Monster {
    |m: Monster|
        if strikes(m, phb, now) {
            Monster { last_damage_time: Some(now), ..m }
        } else {
            m
        }
}

/// A monster that has just hurt the player does not hurt it again until
/// strictly more than its damage cooldown has passed, however long the two
/// keep touching.
pub proof fn lemma_one_strike_per_cooldown(m: Monster, phb: Rect, struck_at: u64, later_phb: Rect, now: u64)
    requires
        strikes(m, phb, struck_at),
        now <= struck_at + m.damage_cooldown,
    ensures
        after_contact(phb, struck_at)(m).last_damage_time == Some(struck_at),
        !strikes(after_contact(phb, struck_at)(m), later_phb, now),
        forall|bs: Seq<Bullet>, ts: Seq<Tower>, player_pos: Vec2|
            !strikes(#[trigger] monster_turn(after_contact(phb, struck_at)(m), bs, ts, player_pos).0, later_phb, now),
{
}

/// Player health `h` after the strikes of monsters `ms`, in order.
pub open spec fn health_after_contacts(h: int, ms: Seq<Monster>, phb: Rect, now: u64) -> int
    decreases ms.len(),
{
    if ms.len() == 0 {
        h
    } else {
        let h0 = health_after_contacts(h, ms.drop_last(), phb, now);
        if strikes(ms.last(), phb, now) {
            damaged_health(h0, ms.last().damage as int)
        } else {
            h0
        }
    }
}

proof fn lemma_contacts_range(h: int, ms: Seq<Monster>, phb: Rect, now: u64)
    requires
        0 <= h,
    ensures
        0 <= health_after_contacts(h, ms, phb, now) <= h,
    decreases ms.len(),
{
    if ms.len() > 0 {
        lemma_contacts_range(h, ms.drop_last(), phb, now);
    }
}

/// Phase six: monsters touching the player hurt it, each at most once per
/// its damage cooldown.
pub open spec fn contact_phase(w: WorldModel, now: u64) -> WorldModel {
    let phb = w.player.hitbox_spec();
    WorldModel {
        monsters: w.monsters.map_values(after_contact(phb, now)),
        player: Player { health: health_after_contacts(w.player.health as int, w.monsters, phb, now) as i64, ..w.player },
        ..w
    }
}

/// Factor by which a movement intent is enlarged before it is normalised, so
/// that the direction of a small intent such as `(1, 1)` is kept precisely.
pub const INTENT_SCALE: i64 = 1_000_000;
/// Largest absolute value of a movement intent's coordinates.
pub const INTENT_LIMIT: i64 = 1_000_000;

pub open spec fn valid_intent(intent: Vec2) -> bool {
    -INTENT_LIMIT <= intent.x <= INTENT_LIMIT && -INTENT_LIMIT <= intent.y <= INTENT_LIMIT
}

/// The player after one step in the direction of `intent` (normalised to the
/// player's speed); it faces the way it moved sideways, if it did.
pub open spec fn walked(p: Player, intent: Vec2) -> Player {
    let v = heading_spec(
        Vec2 { x: (intent.x * INTENT_SCALE) as i64, y: (intent.y * INTENT_SCALE) as i64 },
        PLAYER_MOVE_SPEED as int,
    );
    Player {
        velocity: v,
        pos: step_spec(p.pos, v),
        facing_right: if intent.x > 0 {
            true
        } else if intent.x < 0 {
            false
        } else {
            p.facing_right
        },
        ..p
    }
}

/// Phase seven: the player moves, then places a tower where it stands if asked.
pub open spec fn player_phase(w: WorldModel, intent: Vec2, place_tower: bool) -> WorldModel {
    let p = walked(w.player, intent);
    WorldModel {
        player: p,
        towers: if place_tower { w.towers.push(Tower::placed(w.next_id, p.pos)) } else { w.towers },
        next_id: if place_tower { (w.next_id + 1) as u64 } else { w.next_id },
        ..w
    }
}

/// One whole tick at time `now`, phase by phase.
pub open spec fn tick_spec(w: WorldModel, now: u64, intent: Vec2, place_tower: bool) -> WorldModel {
    let w1 = fire_phase(w, now);
    let w2 = spawn_phase(w1, now);
    let w3 = flight_phase(w2);
    let w4 = cull_phase(w3);
    let w5 = battle_phase(w4);
    let w6 = contact_phase(w5, now);
    player_phase(w6, intent, place_tower)
}

impl World {
    /// Lets every monster touching the player hurt it, if its cooldown allows.
    pub fn resolve_contacts(&mut self, now: u64)
        requires
            old(self)@.wf(),
        ensures
            final(self)@ == contact_phase(old(self)@, now),
            final(self)@.wf(),
    {
        let ghost w0 = self@;
        let phb = self.player.hitbox();
        let mut i: usize = 0;
        while i < self.monsters.len()
            invariant
                0 <= i <= self.monsters@.len(),
                self.monsters@.len() == w0.monsters.len(),
                w0.wf(),
                phb == w0.player.hitbox_spec(),
                phb.bounded(),
                self.player.wf(),
                self.player == (Player { health: health_after_contacts(w0.player.health as int, w0.monsters.take(i as int), phb, now) as i64, ..w0.player }),
                self.towers@ == w0.towers,
                self.bullets@ == w0.bullets,
                self.spawner == w0.spawner,
                self.ids.next == w0.next_id,
                self.width == w0.width,
                self.height == w0.height,
                forall|j: int| 0 <= j < i ==> self.monsters@[j] == after_contact(phb, now)(w0.monsters[j]),
                forall|j: int| i <= j < w0.monsters.len() ==> self.monsters@[j] == w0.monsters[j],
            decreases w0.monsters.len() - i,
        {
            proof {
                assert(w0.monsters.take(i + 1).drop_last() =~= w0.monsters.take(i as int));
                lemma_contacts_range(w0.player.health as int, w0.monsters.take(i as int), phb, now);
                lemma_contacts_range(w0.player.health as int, w0.monsters.take(i + 1), phb, now);
            }
            assert(self.monsters@[i as int] == w0.monsters[i as int]);
            let mut m = self.monsters[i];
            if m.hitbox().overlaps(&phb) && is_cooled_down(m.last_damage_time, m.damage_cooldown, now) {
                self.player.take_damage(m.damage);
                m.last_damage_time = Some(now);
                self.monsters[i] = m;
            }
            i = i + 1;
        }
        proof {
            assert(w0.monsters.take(w0.monsters.len() as int) =~= w0.monsters);
            assert(self.monsters@ =~= w0.monsters.map_values(after_contact(phb, now)));
        }
    }

    /// Moves the player in the direction of `intent` (the sum of the held
    /// movement keys, `-1`, `0` or `1` on each axis) and, if asked, places a
    /// tower where it then stands.
    pub fn move_player(&mut self, intent: Vec2, place_tower: bool)
        requires
            old(self)@.wf(),
            valid_intent(intent),
            old(self).ids.next < u64::MAX,
        ensures
            final(self)@ == player_phase(old(self)@, intent, place_tower),
            final(self)@.wf(),
    {
        let ghost w0 = self@;
        let v = heading(Vec2 { x: intent.x * INTENT_SCALE, y: intent.y * INTENT_SCALE }, PLAYER_MOVE_SPEED);
        self.player.velocity = v;
        self.player.pos = step(self.player.pos, v);
        if intent.x > 0 {
            self.player.facing_right = true;
        } else if intent.x < 0 {
            self.player.facing_right = false;
        }
        if place_tower {
            let id = self.ids.next_id();
            self.towers.push(Tower::new(id, self.player.pos));
        }
        proof {
            assert(self.towers@ =~= player_phase(w0, intent, place_tower).towers);
        }
    }

    /// One tick of the simulation at time `now` (milliseconds, read once by
    /// the caller): towers fire, monsters spawn, bullets fly and leave the
    /// world, far or dead monsters and destroyed towers vanish, monsters move
    /// and fight, monsters touching the player hurt it, and the player moves
    /// by `intent` and places a tower if `place_tower`.
    pub fn tick(&mut self, now: u64, intent: Vec2, place_tower: bool)
        requires
            old(self)@.wf(),
            valid_intent(intent),
            old(self).ids.next + old(self).towers@.len() + 3 < u64::MAX,
        ensures
            final(self)@ == tick_spec(old(self)@, now, intent, place_tower),
            final(self)@.wf(),
            0 <= final(self).player.health <= final(self).player.max_health,
            forall|j: int| 0 <= j < final(self).bullets@.len()
                ==> inside((#[trigger] final(self).bullets@[j]).pos, final(self).width, final(self).height),
            forall|j: int| 0 <= j < final(self).monsters@.len() ==> (#[trigger] final(self).monsters@[j]).health >= 0,
    {
        let ghost w0 = self@;
        proof {
            lemma_volley_len(w0.towers, w0.monsters, now, w0.next_id);
        }
        self.fire_towers(now);
        self.spawn_monsters(now);
        self.fly_bullets();
        let ghost w3 = self@;
        self.cull();
        let ghost w4 = self@;
        self.advance_monsters();
        let ghost w5 = self@;
        self.resolve_contacts(now);
        self.move_player(intent, place_tower);
        proof {
            assert forall|j: int| 0 <= j < self.bullets@.len() implies inside(
                #[trigger] self.bullets@[j].pos,
                self.width,
                self.height,
            ) by {
                let b = self.bullets@[j];
                assert(w5.bullets.contains(b));
                lemma_turns_keep_bullets(w4.monsters, w4.bullets, w4.towers, w4.player.pos, b);
                let k = choose|k: int| 0 <= k < w3.bullets.len() && w3.bullets[k] == b;
            }
            assert forall|j: int| 0 <= j < self.monsters@.len() implies (#[trigger] self.monsters@[j]).health >= 0 by {
                assert(self.monsters@[j].health == w5.monsters[j].health);
            }
        }
    }
}


impl World {
    /// A world of size `width` x `height` holding only the player, at `pos`
    /// with full health `health`; the spawn timers start at `start`.
    pub fn new(pos: Vec2, health: i64, width: i64, height: i64, start: u64) -> (r: World)
        requires
            pos.in_range(),
            health >= 0,
        ensures
            r@.wf(),
            r@ == (WorldModel {
                player: Player {
                    id: 1,
                    pos,
                    velocity: Vec2 { x: 0, y: 0 },
                    facing_right: true,
                    health,
                    max_health: health,
                },
                towers: Seq::empty(),
                monsters: Seq::empty(),
                bullets: Seq::empty(),
                spawner: SpawnScheduler { last_pursuer: start, last_seeker: start },
                next_id: 2,
                width,
                height,
            }),
    {
        let mut ids = IdAllocator::new();
        let id = ids.next_id();
        let r = World {
            player: Player::new(id, pos, health),
            towers: Vec::new(),
            monsters: Vec::new(),
            bullets: Vec::new(),
            spawner: SpawnScheduler { last_pursuer: start, last_seeker: start },
            ids,
            width,
            height,
        };
        proof {
            assert(r@.towers =~= Seq::<Tower>::empty());
            assert(r@.monsters =~= Seq::<Monster>::empty());
            assert(r@.bullets =~= Seq::<Bullet>::empty());
        }
        r
    }

    /// Places a new tower at `pos` and returns its id.
    pub fn place_tower(&mut self, pos: Vec2) -> (id: u64)
        requires
            old(self)@.wf(),
            pos.in_range(),
            old(self).ids.next < u64::MAX,
        ensures
            id == old(self).ids.next,
            final(self)@ == (WorldModel {
                towers: old(self)@.towers.push(Tower::placed(id, pos)),
                next_id: (id + 1) as u64,
                ..old(self)@
            }),
            final(self)@.wf(),
    {
        let id = self.ids.next_id();
        self.towers.push(Tower::new(id, pos));
        id
    }

    /// Adds a pursuer at `pos`, heading for the player, and returns its id.
    pub fn add_pursuer(&mut self, pos: Vec2) -> (id: u64)
        requires
            old(self)@.wf(),
            pos.in_range(),
            old(self).ids.next < u64::MAX,
        ensures
            id == old(self).ids.next,
            final(self)@ == (WorldModel {
                monsters: old(self)@.monsters.push(
                    Monster::pursuer_spec(
                        id,
                        pos,
                        heading_spec(
                            Vec2 {
                                x: (old(self).player.pos.x - pos.x) as i64,
                                y: (old(self).player.pos.y - pos.y) as i64,
                            },
                            PURSUER_SPEED as int,
                        ),
                    ),
                ),
                next_id: (id + 1) as u64,
                ..old(self)@
            }),
            final(self)@.wf(),
    {
        let id = self.ids.next_id();
        let ppos = self.player.pos;
        let v = heading(Vec2 { x: ppos.x - pos.x, y: ppos.y - pos.y }, PURSUER_SPEED);
        self.monsters.push(Monster::pursuer(id, pos, v));
        id
    }

    /// Adds a seeker at `pos` hunting the tower with id `target` (standing
    /// still until its first turn), and returns its id.
    pub fn add_seeker(&mut self, pos: Vec2, target: Option<u64>) -> (id: u64)
        requires
            old(self)@.wf(),
            pos.in_range(),
            old(self).ids.next < u64::MAX,
        ensures
            id == old(self).ids.next,
            final(self)@ == (WorldModel {
                monsters: old(self)@.monsters.push(Monster::seeker_spec(id, pos, Vec2 { x: 0, y: 0 }, target)),
                next_id: (id + 1) as u64,
                ..old(self)@
            }),
            final(self)@.wf(),
    {
        let id = self.ids.next_id();
        self.monsters.push(Monster::seeker(id, pos, Vec2 { x: 0, y: 0 }, target));
        id
    }

    /// Adds a bullet at `pos` flying with `velocity` and carrying `damage`,
    /// and returns its id.
    pub fn add_bullet(&mut self, pos: Vec2, velocity: Vec2, damage: u32) -> (id: u64)
        requires
            old(self)@.wf(),
            pos.in_range(),
            within_speed(velocity, BULLET_SPEED as int),
            old(self).ids.next < u64::MAX,
        ensures
            id == old(self).ids.next,
            final(self)@ == (WorldModel {
                bullets: old(self)@.bullets.push(Bullet { id, pos, velocity, damage }),
                next_id: (id + 1) as u64,
                ..old(self)@
            }),
            final(self)@.wf(),
    {
        let id = self.ids.next_id();
        self.bullets.push(Bullet { id, pos, velocity, damage });
        id
    }
}

} // verus!
