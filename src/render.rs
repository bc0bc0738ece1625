//! What the simulation asks a renderer to draw each tick: one sprite per
//! entity, with a health bar for entities that have lost health.

use vstd::prelude::*;
use crate::entity::{
    Bullet, Monster, MonsterKind, Player, Tower, PLAYER_BOX_W, PURSUER_W, SEEKER_W, TOWER_SIZE,
};
use crate::geometry::{Rect, Vec2, UNIT};
use crate::world::{World, WorldModel};

verus! {

/// Height of a health bar.
pub const HEALTH_BAR_HEIGHT: i64 = 3000;
/// How far above its entity a health bar is drawn.
pub const HEALTH_BAR_RISE: i64 = 8000;

#[derive(Clone, Copy, Debug, PartialEq, Eq, Structural)]
pub enum Sprite {
    Player,
    Tower,
    Pursuer,
    Seeker,
    Bullet,
}

/// A health bar: a background of `width` with a foreground of `filled`, both
/// starting at `(x, y)`.
#[derive(Clone, Copy, Debug, PartialEq, Eq, Structural)]
pub struct HealthBar {
    pub x: i64,
    pub y: i64,
    pub width: i64,
    pub filled: i64,
}

#[derive(Clone, Copy, Debug, PartialEq, Eq, Structural)]
pub struct DrawRequest {
    pub sprite: Sprite,
    pub pos: Vec2,
    /// The part of the sprite sheet to draw; `None` for the whole texture.
    pub source: Option<Rect>,
    pub flip_x: bool,
    pub health_bar: Option<HealthBar>,
}

/// The bar of an entity at `pos` whose hitbox is `width` wide: shown only
/// below full health, filled in proportion to the health left.
pub open spec fn bar_spec(pos: Vec2, width: int, health: int, max_health: int) -> Option<HealthBar> {
    if health < max_health {
        Some(
            HealthBar {
                x: pos.x,
                y: (pos.y - HEALTH_BAR_RISE) as i64,
                width: width as i64,
                filled: if health > 0 { (width * health / max_health) as i64 } else { 0 },
            },
        )
    } else {
        None
    }
}

fn health_bar(pos: Vec2, width: i64, health: i64, max_health: i64) -> (r: Option<HealthBar>)
    requires
        pos.in_range(),
        0 <= width <= 100 * UNIT,
    ensures
        r == bar_spec(pos, width as int, health as int, max_health as int),
{
    if health < max_health {
        let filled: i64 = if health > 0 {
            assert((width as i128) * (health as i128) <= 100000 * 0x7fff_ffff_ffff_ffff) by (nonlinear_arith)
                requires 0 <= width <= 100000, 0 < health <= 0x7fff_ffff_ffff_ffff,
            ;
            let f: i128 = (width as i128) * (health as i128) / (max_health as i128);
            assert(width * health <= width * max_health) by (nonlinear_arith)
                requires 0 <= width, 0 < health < max_health,
            ;
            assert(0 <= width * health) by (nonlinear_arith)
                requires 0 <= width, 0 < health,
            ;
            proof {
                vstd::arithmetic::div_mod::lemma_div_is_ordered(width * health, width * max_health, max_health as int);
                vstd::arithmetic::div_mod::lemma_div_by_multiple(width as int, max_health as int);
                vstd::arithmetic::div_mod::lemma_div_is_ordered(0, width * health, max_health as int);
            }
            f as i64
        } else {
            0
        };
        Some(HealthBar { x: pos.x, y: pos.y - HEALTH_BAR_RISE, width, filled })
    } else {
        None
    }
}

pub open spec fn tower_sprite_source() -> Rect {
    Rect { x: 64000, y: 112000, w: 16000, h: 16000 }
}

pub open spec fn player_sprite_source() -> Rect {
    Rect { x: 0, y: 0, w: 45000, h: 51000 }
}

pub open spec fn tower_request(t: Tower) -> DrawRequest {
    DrawRequest {
        sprite: Sprite::Tower,
        pos: t.pos,
        source: Some(tower_sprite_source()),
        flip_x: false,
        health_bar: bar_spec(t.pos, TOWER_SIZE as int, t.health as int, t.max_health as int),
    }
}

pub open spec fn bullet_request(b: Bullet) -> DrawRequest {
    DrawRequest { sprite: Sprite::Bullet, pos: b.pos, source: None, flip_x: false, health_bar: None }
}

pub open spec fn monster_request(m: Monster) -> DrawRequest {
    DrawRequest {
        sprite: match m.kind {
            MonsterKind::Pursuer => Sprite::Pursuer,
            MonsterKind::Seeker { .. } => Sprite::Seeker,
        },
        pos: m.pos,
        source: None,
        flip_x: !m.facing_right,
        health_bar: match m.kind {
            MonsterKind::Pursuer => bar_spec(m.pos, PURSUER_W as int, m.health as int, m.max_health as int),
            MonsterKind::Seeker { .. } => bar_spec(m.pos, SEEKER_W as int, m.health as int, m.max_health as int),
        },
    }
}

pub open spec fn player_request(p: Player) -> DrawRequest {
    DrawRequest {
        sprite: Sprite::Player,
        pos: p.pos,
        source: Some(player_sprite_source()),
        flip_x: !p.facing_right,
        health_bar: bar_spec(p.pos, PLAYER_BOX_W as int, p.health as int, p.max_health as int),
    }
}

/// Towers first, then bullets, then monsters, and the player last.
pub open spec fn scene(w: WorldModel) -> Seq<DrawRequest> {
    w.towers.map_values(|t: Tower| tower_request(t)) + w.bullets.map_values(|b: Bullet| bullet_request(b))
        + w.monsters.map_values(|m: Monster| monster_request(m)) + seq![player_request(w.player)]
}

impl World {
    /// The draw requests for the current state, in drawing order.
    pub fn draw_list(&self) -> (r: Vec<DrawRequest>)
        requires
            self@.wf(),
        ensures
            r@ == scene(self@),
    {
        let ghost w = self@;
        let mut out: Vec<DrawRequest> = Vec::new();
        let mut i: usize = 0;
        while i < self.towers.len()
            invariant
                0 <= i <= w.towers.len(),
                self@ == w,
                w.wf(),
                out@ == w.towers.take(i as int).map_values(|t: Tower| tower_request(t)),
            decreases w.towers.len() - i,
        {
            let t = self.towers[i];
            out.push(DrawRequest {
                sprite: Sprite::Tower,
                pos: t.pos,
                source: Some(Rect { x: 64000, y: 112000, w: 16000, h: 16000 }),
                flip_x: false,
                health_bar: health_bar(t.pos, TOWER_SIZE, t.health, t.max_health),
            });
            proof {
                assert(out@ =~= w.towers.take(i + 1).map_values(|t: Tower| tower_request(t)));
            }
            i = i + 1;
        }
        let ghost n0 = out@.len();
        let mut i: usize = 0;
        while i < self.bullets.len()
            invariant
                0 <= i <= w.bullets.len(),
                self@ == w,
                w.wf(),
                out@ == w.towers.map_values(|t: Tower| tower_request(t)) + w.bullets.take(i as int).map_values(|b: Bullet| bullet_request(b)),
            decreases w.bullets.len() - i,
        {
            let b = self.bullets[i];
            out.push(DrawRequest { sprite: Sprite::Bullet, pos: b.pos, source: None, flip_x: false, health_bar: None });
            proof {
                assert(out@ =~= w.towers.map_values(|t: Tower| tower_request(t)) + w.bullets.take(i + 1).map_values(|b: Bullet| bullet_request(b)));
            }
            i = i + 1;
        }
        let mut i: usize = 0;
        while i < self.monsters.len()
            invariant
                0 <= i <= w.monsters.len(),
                self@ == w,
                w.wf(),
                out@ == w.towers.map_values(|t: Tower| tower_request(t)) + w.bullets.map_values(|b: Bullet| bullet_request(b))
                    + w.monsters.take(i as int).map_values(|m: Monster| monster_request(m)),
            decreases w.monsters.len() - i,
        {
            let m = self.monsters[i];
            let (sprite, width) = match m.kind {
                MonsterKind::Pursuer => (Sprite::Pursuer, PURSUER_W),
                MonsterKind::Seeker { .. } => (Sprite::Seeker, SEEKER_W),
            };
            out.push(DrawRequest {
                sprite,
                pos: m.pos,
                source: None,
                flip_x: !m.facing_right,
                health_bar: health_bar(m.pos, width, m.health, m.max_health),
            });
            proof {
                assert(out@ =~= w.towers.map_values(|t: Tower| tower_request(t)) + w.bullets.map_values(|b: Bullet| bullet_request(b))
                    + w.monsters.take(i + 1).map_values(|m: Monster| monster_request(m)));
            }
            i = i + 1;
        }
        let p = self.player;
        out.push(DrawRequest {
            sprite: Sprite::Player,
            pos: p.pos,
            source: Some(Rect { x: 0, y: 0, w: 45000, h: 51000 }),
            flip_x: !p.facing_right,
            health_bar: health_bar(p.pos, PLAYER_BOX_W, p.health, p.max_health),
        });
        proof {
            assert(w.towers.take(w.towers.len() as int) =~= w.towers);
            assert(w.bullets.take(w.bullets.len() as int) =~= w.bullets);
            assert(w.monsters.take(w.monsters.len() as int) =~= w.monsters);
            assert(out@ =~= scene(w));
        }
        out
    }
}

} // verus!
