use td_survive::entity::{MonsterKind, TOWER_HEALTH};
use td_survive::geometry::Vec2;
use td_survive::world::World;

const U: i64 = 1000;

fn at(x: i64, y: i64) -> Vec2 {
    Vec2::new(x * U, y * U)
}

fn still() -> Vec2 {
    Vec2::new(0, 0)
}

fn arena(health: i64) -> World {
    World::new(at(240, 160), health, 480 * U, 320 * U, 0)
}

fn floor_sqrt(n: i64) -> i64 {
    let mut r = (n as f64).sqrt() as i64;
    while r * r > n {
        r -= 1;
    }
    while (r + 1) * (r + 1) <= n {
        r += 1;
    }
    r
}

#[test]
fn tower_fires_once_per_cooldown() {
    let mut w = arena(100);
    let tower = w.place_tower(at(160, 160));
    w.add_pursuer(at(300, 160));
    w.tick(0, still(), false);
    assert_eq!(w.bullets.len(), 1);
    assert_eq!(w.bullets[0].velocity, Vec2::new(1000, 0));
    assert_eq!(w.bullets[0].pos, Vec2::new(161 * U, 160 * U));
    assert_eq!(w.bullets[0].damage, 5);
    assert_eq!(w.towers[0].id, tower);
    assert_eq!(w.towers[0].last_shot_time, Some(0));

    // a second monster comes within range half a cooldown later
    w.add_pursuer(at(160, 300));
    w.tick(500, still(), false);
    assert_eq!(w.bullets.len(), 1);
    w.tick(1000, still(), false);
    assert_eq!(w.bullets.len(), 1);
    w.tick(1001, still(), false);
    assert_eq!(w.bullets.len(), 2);
    assert_eq!(w.bullets[1].velocity, Vec2::new(1000, 0));
    assert_eq!(w.towers[0].last_shot_time, Some(1001));
}

#[test]
fn bullet_hit_lowers_health_and_is_consumed() {
    let mut w = arena(100);
    w.add_bullet(at(160, 160), Vec2::new(1000, 0), 10);
    w.add_pursuer(at(176, 160));
    w.tick(0, still(), false);
    assert_eq!(w.monsters.len(), 1);
    assert_eq!(w.monsters[0].health, 90);
    assert_eq!(w.monsters[0].pos, Vec2::new(177 * U, 160 * U));
    assert!(w.bullets.is_empty());
}

#[test]
fn seeker_turns_to_player_when_its_tower_falls() {
    let mut w = arena(100);
    let tower = w.place_tower(at(450, 300));
    w.add_seeker(at(250, 100), Some(tower));
    w.tick(0, still(), false);
    assert_eq!(w.monsters[0].velocity, Vec2::new(565, 565));
    assert_eq!(w.monsters[0].pos, Vec2::new(250_565, 100_565));

    w.towers[0].health = -1;
    w.tick(16, still(), false);
    assert!(w.towers.is_empty());
    let (dx, dy) = (240_000 - 250_565, 160_000 - 100_565);
    let len = floor_sqrt(dx * dx + dy * dy);
    let expected = Vec2::new(-((-dx) * 800 / len), dy * 800 / len);
    assert_eq!(w.monsters[0].velocity, expected);
    assert!(w.monsters[0].velocity.x < 0 && w.monsters[0].velocity.y > 0);
    assert_eq!(w.monsters[0].kind, MonsterKind::Seeker { target: Some(tower) });
}

#[test]
fn contact_damage_respects_cooldown_and_floor() {
    let mut w = arena(7);
    w.add_pursuer(at(240, 160));
    assert_eq!(w.monsters[0].last_damage_time, Some(0));
    // a new monster counts from time 0, so it cannot hit within its first cooldown
    w.tick(0, still(), false);
    assert_eq!(w.player.health, 7);
    w.tick(1000, still(), false);
    assert_eq!(w.player.health, 7);
    assert_eq!(w.monsters[0].last_damage_time, Some(0));
    w.tick(1001, still(), false);
    assert_eq!(w.player.health, 2);
    assert_eq!(w.monsters[0].last_damage_time, Some(1001));
    w.tick(1500, still(), false);
    assert_eq!(w.player.health, 2);
    w.tick(2001, still(), false);
    assert_eq!(w.player.health, 2);
    w.tick(2002, still(), false);
    assert_eq!(w.player.health, 0);
    assert_eq!(w.monsters[0].last_damage_time, Some(2002));
    w.tick(3003, still(), false);
    assert_eq!(w.player.health, 0);
    assert!(w.player.health <= w.player.max_health);
}

#[test]
fn seeker_ramming_keeps_its_own_cooldown_clock() {
    let mut w = arena(100);
    let tower = w.place_tower(at(160, 160));
    w.add_seeker(at(160, 160), Some(tower));
    w.tick(0, still(), false);
    w.tick(16, still(), false);
    w.tick(32, still(), false);
    assert_eq!(w.towers[0].health, TOWER_HEALTH - 30);
    assert_eq!(w.monsters[0].last_damage_time, Some(0));
}

#[test]
fn bullets_leaving_the_world_are_removed() {
    let mut w = arena(100);
    w.add_bullet(Vec2::new(479_500, 100 * U), Vec2::new(1000, 0), 1);
    let kept = w.add_bullet(Vec2::new(478_000, 100 * U), Vec2::new(1000, 0), 1);
    let on_right_edge = w.add_bullet(Vec2::new(479_000, 100 * U), Vec2::new(1000, 0), 1);
    let on_top_edge = w.add_bullet(Vec2::new(100 * U, 1000), Vec2::new(0, -1000), 1);
    w.add_bullet(Vec2::new(200 * U, 500), Vec2::new(0, -1000), 1);
    w.tick(0, still(), false);
    assert_eq!(w.bullets.len(), 3);
    assert_eq!(w.bullets[0].id, kept);
    assert_eq!(w.bullets[0].pos, Vec2::new(479_000, 100 * U));
    assert_eq!(w.bullets[1].id, on_right_edge);
    assert_eq!(w.bullets[1].pos, Vec2::new(480_000, 100 * U));
    assert_eq!(w.bullets[2].id, on_top_edge);
    assert_eq!(w.bullets[2].pos, Vec2::new(100 * U, 0));
}

#[test]
fn monster_below_zero_is_removed_and_zero_survives() {
    let mut w = arena(100);
    w.add_pursuer(at(100, 100));
    w.add_bullet(at(110, 110), still(), 101);
    w.tick(0, still(), false);
    assert!(w.monsters.is_empty());
    assert!(w.bullets.is_empty());

    let mut w = arena(100);
    w.add_pursuer(at(100, 100));
    w.add_bullet(at(110, 110), still(), 100);
    w.tick(0, still(), false);
    assert_eq!(w.monsters.len(), 1);
    assert_eq!(w.monsters[0].health, 0);
    w.tick(16, still(), false);
    assert_eq!(w.monsters.len(), 1);
}

#[test]
fn seeker_rams_tower_every_tick() {
    let mut w = arena(100);
    let tower = w.place_tower(at(100, 250));
    w.add_seeker(at(100, 250), Some(tower));
    w.tick(0, still(), false);
    assert_eq!(w.towers[0].health, TOWER_HEALTH - 10);
    w.tick(16, still(), false);
    w.tick(32, still(), false);
    assert_eq!(w.towers[0].health, TOWER_HEALTH - 30);
}

#[test]
fn pursuer_spawns_after_its_interval() {
    let mut w = arena(100);
    w.tick(6000, still(), false);
    assert!(w.monsters.is_empty());
    w.tick(6001, still(), false);
    assert_eq!(w.monsters.len(), 1);
    let m = w.monsters[0];
    assert_eq!(m.kind, MonsterKind::Pursuer);
    assert_eq!(m.velocity, Vec2::new(832, 554));
    assert_eq!(m.pos, Vec2::new(832, 554));
    assert!(m.facing_right);
    assert_eq!(m.health, 100);
    assert_eq!(w.spawner.last_pursuer, 6001);
    let pursuers = |w: &World| w.monsters.iter().filter(|m| m.kind == MonsterKind::Pursuer).count();
    w.tick(12001, still(), false);
    assert_eq!(pursuers(&w), 1);
    w.tick(12002, still(), false);
    assert_eq!(pursuers(&w), 2);
}

#[test]
fn seeker_spawns_toward_nearest_tower() {
    let mut w = arena(100);
    w.place_tower(at(100, 100));
    let near = w.place_tower(at(50, 50));
    w.tick(10001, still(), false);
    assert_eq!(w.monsters.len(), 2);
    assert_eq!(w.monsters[0].kind, MonsterKind::Pursuer);
    let s = w.monsters[1];
    assert_eq!(s.kind, MonsterKind::Seeker { target: Some(near) });
    assert_eq!(s.velocity, Vec2::new(565, 565));
    assert_eq!(s.health, 60);
    // it already touches its tower
    assert_eq!(w.towers[1].health, TOWER_HEALTH - 10);
    assert_eq!(w.towers[0].health, TOWER_HEALTH);
}

#[test]
fn seeker_without_towers_heads_for_player() {
    let mut w = arena(100);
    w.tick(10001, still(), false);
    let s = w.monsters[1];
    assert_eq!(s.kind, MonsterKind::Seeker { target: None });
    assert_eq!(s.velocity, Vec2::new(665, 443));
}

#[test]
fn far_monsters_despawn() {
    let mut w = arena(100);
    w.add_seeker(at(2240, 160), None);
    w.add_seeker(at(2241, 160), None);
    w.tick(0, still(), false);
    assert_eq!(w.monsters.len(), 1);
    assert_eq!(w.monsters[0].pos, Vec2::new(2239_200, 160 * U));
}

#[test]
fn player_moves_diagonally_at_its_speed_and_places_tower() {
    let mut w = arena(100);
    w.tick(0, Vec2::new(-1, 1), true);
    assert_eq!(w.player.velocity, Vec2::new(-3535, 3535));
    assert_eq!(w.player.pos, Vec2::new(240 * U - 3535, 160 * U + 3535));
    assert!(!w.player.facing_right);
    assert_eq!(w.towers.len(), 1);
    assert_eq!(w.towers[0].pos, w.player.pos);
    w.tick(16, Vec2::new(0, -1), false);
    assert_eq!(w.player.velocity, Vec2::new(0, -5000));
    assert!(!w.player.facing_right);
    w.tick(32, Vec2::new(1, 0), false);
    assert!(w.player.facing_right);
}

#[test]
fn tower_targets_first_monster_in_range_not_nearest() {
    let mut w = arena(100);
    w.place_tower(at(160, 160));
    w.add_seeker(at(160, 300), None);
    w.add_seeker(at(200, 160), None);
    w.tick(0, still(), false);
    assert_eq!(w.bullets.len(), 1);
    assert_eq!(w.bullets[0].velocity, Vec2::new(0, 1000));
}

#[test]
fn ids_increase_and_are_not_reused() {
    let mut w = arena(100);
    assert_eq!(w.player.id, 1);
    let a = w.place_tower(at(10, 10));
    let b = w.add_pursuer(at(20, 20));
    let c = w.add_bullet(at(30, 30), still(), 1);
    assert_eq!((a, b, c), (2, 3, 4));
    assert_eq!(w.ids.next, 5);
}
