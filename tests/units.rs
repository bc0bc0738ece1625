use td_survive::entity::{lose_health, step, IdAllocator, Monster, Player, Tower};
use td_survive::geometry::{distance_sq, heading, isqrt, Rect, Vec2, COORD_LIMIT, SPEED_LIMIT};
use td_survive::render::{DrawRequest, HealthBar, Sprite};
use td_survive::targeting::{find_tower, nearest_tower_index};
use td_survive::world::World;

#[test]
fn integer_square_root() {
    assert_eq!(isqrt(0), 0);
    assert_eq!(isqrt(15), 3);
    assert_eq!(isqrt(16), 4);
    assert_eq!(isqrt(83_200_000_000), 288_444);
    assert_eq!(isqrt(u64::MAX as u128), 4_294_967_295);
}

#[test]
fn heading_scales_to_speed() {
    assert_eq!(heading(Vec2::new(3000, 4000), 1000), Vec2::new(600, 800));
    assert_eq!(heading(Vec2::new(-3000, -4000), 1000), Vec2::new(-600, -800));
    assert_eq!(heading(Vec2::new(0, 0), 1000), Vec2::new(0, 0));
    assert_eq!(heading(Vec2::new(0, -7), 800), Vec2::new(0, -800));
    assert_eq!(heading(Vec2::new(240_000, 160_000), 1000), Vec2::new(832, 554));
}

#[test]
fn squared_distance() {
    assert_eq!(distance_sq(Vec2::new(0, 0), Vec2::new(3, 4)), 25);
    assert_eq!(distance_sq(Vec2::new(-5, 7), Vec2::new(-5, 7)), 0);
}

#[test]
fn touching_boxes_overlap() {
    let a = Rect { x: 0, y: 0, w: 10, h: 10 };
    assert!(a.overlaps(&Rect { x: 10, y: 10, w: 5, h: 5 }));
    assert!(a.overlaps(&Rect { x: 2, y: 2, w: 1, h: 1 }));
    assert!(!a.overlaps(&Rect { x: 11, y: 0, w: 5, h: 5 }));
    assert!(!a.overlaps(&Rect { x: 0, y: -6, w: 5, h: 5 }));
}

#[test]
fn player_damage_is_floored_at_zero() {
    let mut p = Player::new(1, Vec2::new(0, 0), 3);
    p.take_damage(2);
    assert_eq!(p.health, 1);
    p.take_damage(5);
    assert_eq!(p.health, 0);
    p.take_damage(5);
    assert_eq!(p.health, 0);
    assert_eq!(p.max_health, 3);
}

#[test]
fn health_loss_saturates() {
    assert_eq!(lose_health(10, 3), 7);
    assert_eq!(lose_health(0, 3), -3);
    assert_eq!(lose_health(i64::MIN + 1, 5), i64::MIN);
}

#[test]
fn tower_shot_waits_for_cooldown() {
    let mut ids = IdAllocator::new();
    let mut t = Tower::new(ids.next_id(), Vec2::new(0, 0));
    let monsters = vec![Monster::pursuer(ids.next_id(), Vec2::new(0, 100_000), Vec2::new(0, 0))];
    let first = t.check_shoot(0, &monsters, &mut ids).unwrap();
    assert_eq!(first.id, 3);
    assert_eq!(first.velocity, Vec2::new(0, 1000));
    assert_eq!(t.check_shoot(1000, &monsters, &mut ids), None);
    assert!(t.check_shoot(1001, &monsters, &mut ids).is_some());
    assert_eq!(ids.next, 5);
}

#[test]
fn tower_ignores_monsters_out_of_range() {
    let mut ids = IdAllocator::new();
    let mut t = Tower::new(ids.next_id(), Vec2::new(0, 0));
    let monsters = vec![Monster::pursuer(ids.next_id(), Vec2::new(150_000, 0), Vec2::new(0, 0))];
    assert_eq!(t.check_shoot(0, &monsters, &mut ids), None);
    assert_eq!(t.last_shot_time, None);
    assert_eq!(ids.next, 3);
}

#[test]
fn nearest_tower_prefers_first_of_equals() {
    let towers = vec![
        Tower::new(7, Vec2::new(30_000, 40_000)),
        Tower::new(8, Vec2::new(40_000, 30_000)),
        Tower::new(9, Vec2::new(60_000, 0)),
    ];
    assert_eq!(nearest_tower_index(&towers, Vec2::new(0, 0)), Some(0));
    assert_eq!(nearest_tower_index(&towers, Vec2::new(60_000, 0)), Some(2));
    assert_eq!(nearest_tower_index(&Vec::new(), Vec2::new(0, 0)), None);
    assert_eq!(find_tower(&towers, 8), Some(1));
    assert_eq!(find_tower(&towers, 10), None);
}

#[test]
fn draw_list_orders_entities_and_shows_partial_health() {
    let mut w = World::new(Vec2::new(240_000, 160_000), 100, 480_000, 320_000, 0);
    w.place_tower(Vec2::new(160_000, 160_000));
    w.add_bullet(Vec2::new(10_000, 10_000), Vec2::new(0, 0), 1);
    w.add_pursuer(Vec2::new(20_000, 20_000));
    w.towers[0].health = 250;
    w.player.health = 0;
    let list = w.draw_list();
    assert_eq!(list.len(), 4);
    assert_eq!(
        list[0],
        DrawRequest {
            sprite: Sprite::Tower,
            pos: Vec2::new(160_000, 160_000),
            source: Some(Rect { x: 64_000, y: 112_000, w: 16_000, h: 16_000 }),
            flip_x: false,
            health_bar: Some(HealthBar { x: 160_000, y: 152_000, width: 16_000, filled: 8_000 }),
        }
    );
    assert_eq!(list[1].sprite, Sprite::Bullet);
    assert_eq!(list[1].health_bar, None);
    assert_eq!(list[2].sprite, Sprite::Pursuer);
    assert_eq!(list[2].health_bar, None);
    assert!(!list[2].flip_x);
    assert_eq!(list[3].sprite, Sprite::Player);
    assert_eq!(list[3].health_bar, Some(HealthBar { x: 240_000, y: 152_000, width: 35_000, filled: 0 }));
}

#[test]
fn movement_saturates_at_coordinate_limit() {
    assert_eq!(step(Vec2::new(COORD_LIMIT, 0), Vec2::new(1000, -1000)), Vec2::new(COORD_LIMIT, -1000));
    assert_eq!(step(Vec2::new(-COORD_LIMIT + 10, 5), Vec2::new(-1000, 0)), Vec2::new(-COORD_LIMIT, 5));
    assert_eq!(step(Vec2::new(7, 8), Vec2::new(-3, 2)), Vec2::new(4, 10));
}

#[test]
fn heading_at_largest_inputs() {
    let far = 2 * COORD_LIMIT;
    assert_eq!(heading(Vec2::new(far, 0), SPEED_LIMIT), Vec2::new(SPEED_LIMIT, 0));
    assert_eq!(heading(Vec2::new(-far, -far), SPEED_LIMIT), Vec2::new(-707_106, -707_106));
    assert_eq!(distance_sq(Vec2::new(-COORD_LIMIT, -COORD_LIMIT), Vec2::new(COORD_LIMIT, COORD_LIMIT)), 2 * (far as u128) * (far as u128));
}
