use gaminal::objects::bullet::{Bullet, BulletDirection};
use gaminal::objects::enemy::Enemy;
use gaminal::objects::game_object_trait::{footprints_collide, width_of, Footprint, GameObjectTrait};
use gaminal::objects::player::Player;
use gaminal::objects::wall::Wall;

#[test]
fn probe_in_larger_region_collides_both_ways_by_the_formula() {
    let a = (5, 5, 1, 1);
    let b = (5, 5, 3, 3);
    // a.y = 5 in 5..=8 and a.x = 5 in 5..=7
    assert!(footprints_collide(a, b));
    // b.y = 5 in 5..=6 and b.x = 5 in 5..=5
    assert!(footprints_collide(b, a));
}

#[test]
fn collision_is_not_symmetric() {
    let a = (6, 5, 1, 1);
    let b = (5, 5, 3, 3);
    assert!(footprints_collide(a, b));
    assert!(!footprints_collide(b, a));
}

#[test]
fn collision_rows_include_one_below_the_region() {
    let region = (10, 10, 3, 1);
    assert!(footprints_collide((10, 10, 1, 1), region));
    assert!(footprints_collide((10, 11, 1, 1), region));
    assert!(!footprints_collide((10, 12, 1, 1), region));
    assert!(!footprints_collide((10, 9, 1, 1), region));
}

#[test]
fn collision_columns_end_with_the_region() {
    let region = (10, 10, 3, 1);
    assert!(!footprints_collide((9, 10, 1, 1), region));
    assert!(footprints_collide((10, 10, 1, 1), region));
    assert!(footprints_collide((12, 10, 1, 1), region));
    assert!(!footprints_collide((13, 10, 1, 1), region));
}

#[test]
fn region_without_width_holds_nothing() {
    assert!(!footprints_collide((0, 0, 1, 1), (0, 0, 0, 1)));
    assert!(!footprints_collide((7, 3, 1, 1), (7, 3, 0, 1)));
}

#[test]
fn collision_does_not_overflow_at_the_edge() {
    let edge = (65535, 65535, 65535, 65535);
    assert!(footprints_collide(edge, edge));
    assert!(!footprints_collide((0, 0, 1, 1), edge));
}

#[test]
fn width_is_the_length_in_bytes() {
    assert_eq!(width_of("===".as_bytes()), 3);
    assert_eq!(width_of("".as_bytes()), 0);
    assert_eq!(width_of("\u{58e} ".as_bytes()), 3);
    assert_eq!(width_of("\u{1c1}".as_bytes()), 2);
}

#[test]
fn width_keeps_sixteen_bits_of_the_length() {
    let long = vec![b'x'; 65536 + 7];
    assert_eq!(width_of(&long), 7);
    let full = vec![b'x'; 65535];
    assert_eq!(width_of(&full), 65535);
}

#[test]
fn bullet_against_enemy_is_not_enemy_against_bullet() {
    let bullet = Bullet::new(6, 5, "|".to_string(), BulletDirection::Up);
    let enemy = Enemy::new(5, 5, 0, "\u{58e} ".to_string());
    assert_eq!(bullet.get_size(), (6, 5, 1, 1));
    assert_eq!(enemy.get_size(), (5, 5, 3, 1));
    assert!(bullet.is_collide(&enemy));
    assert!(!enemy.is_collide(&bullet));
}

#[test]
fn new_bullet_is_alive_where_it_was_put() {
    let bullet = Bullet::new(12, 7, "|".to_string(), BulletDirection::Down);
    assert!(bullet.is_alive());
    assert_eq!(bullet.get_position(), (12, 7));
    assert_eq!(bullet.get_model_bytes(), b"|");
    assert_eq!(*bullet.get_direction(), BulletDirection::Down);
}

#[test]
fn bullet_moves_where_it_is_told() {
    let mut bullet = Bullet::new(12, 7, "|".to_string(), BulletDirection::Up);
    bullet.move_object(12, 6);
    assert_eq!(bullet.get_position(), (12, 6));
    assert!(bullet.is_alive());
    assert_eq!(bullet.get_model_bytes(), b"|");
}

#[test]
fn destroyed_bullet_turns_blank_and_stays() {
    let mut bullet = Bullet::new(12, 7, "|".to_string(), BulletDirection::Up);
    bullet.destroy();
    assert!(!bullet.is_alive());
    assert_eq!(bullet.get_model_bytes(), b" ");
    assert_eq!(bullet.get_position(), (12, 7));
    bullet.destroy();
    assert!(!bullet.is_alive());
    assert_eq!(bullet.get_model_bytes(), b" ");
    assert_eq!(bullet.get_size(), (12, 7, 1, 1));
}

#[test]
fn bullet_going_up_wipes_the_row_below() {
    let bullet = Bullet::new(51, 28, "|".to_string(), BulletDirection::Up);
    let mut out = Vec::new();
    bullet.draw(&mut out);
    assert_eq!(out, b"\x1b[28;51H|\x1b[29;51H ".to_vec());
}

#[test]
fn bullet_going_down_wipes_the_row_above() {
    let bullet = Bullet::new(20, 5, "|".to_string(), BulletDirection::Down);
    let mut out = b"kept".to_vec();
    bullet.draw(&mut out);
    assert_eq!(out, b"kept\x1b[5;20H|\x1b[4;20H ".to_vec());
}

#[test]
fn new_enemy_has_its_row_and_one_life() {
    let enemy = Enemy::new(21, 3, 3, "\u{58e} ".to_string());
    assert!(enemy.is_alive());
    assert_eq!(enemy.get_line(), 3);
    assert_eq!(enemy.get_position(), (21, 3));
    assert_eq!(enemy.get_model_bytes(), &[0xd6, 0x8e, 0x20]);
}

#[test]
fn destroyed_enemy_loses_its_glyph() {
    let mut enemy = Enemy::new(21, 3, 3, "\u{58e} ".to_string());
    enemy.destroy();
    assert!(!enemy.is_alive());
    assert_eq!(enemy.get_model_bytes(), b"");
    assert_eq!(enemy.get_size(), (21, 3, 0, 1));
    enemy.destroy();
    assert!(!enemy.is_alive());
    assert_eq!(enemy.get_position(), (21, 3));
}

#[test]
fn enemy_moves_where_it_is_told() {
    let mut enemy = Enemy::new(21, 3, 3, "\u{58e} ".to_string());
    enemy.move_object(20, 4);
    assert_eq!(enemy.get_position(), (20, 4));
    assert_eq!(enemy.get_line(), 3);
}

#[test]
fn enemy_above_the_first_visible_row_draws_nothing() {
    let enemy = Enemy::new(21, 2, 2, "\u{58e} ".to_string());
    let mut out = Vec::new();
    enemy.draw(&mut out);
    assert!(out.is_empty());
}

#[test]
fn enemy_draws_a_blank_and_its_glyph() {
    let enemy = Enemy::new(21, 3, 3, "\u{58e} ".to_string());
    let mut out = Vec::new();
    enemy.draw(&mut out);
    assert_eq!(out, b" \x1b[3;21H \xd6\x8e ".to_vec());
}

#[test]
fn enemy_of_the_top_row_wipes_the_cell_above() {
    let enemy = Enemy::new(21, 4, 0, "\u{58e} ".to_string());
    let mut out = Vec::new();
    enemy.draw(&mut out);
    assert_eq!(out, b" \x1b[4;21H \xd6\x8e  \x1b[3;21H  ".to_vec());
}

#[test]
fn player_starts_with_three_lives() {
    let player = Player::new(49, 29, "===".to_string());
    assert_eq!(player.get_lives(), 3);
    assert!(player.is_alive());
    assert_eq!(player.get_position(), (49, 29));
    assert_eq!(player.get_size(), (49, 29, 3, 1));
    assert_eq!(player.get_model_bytes(), b"===");
}

#[test]
fn player_glyph_shrinks_with_each_life() {
    let mut player = Player::new(49, 29, "===".to_string());
    player.destroy();
    assert_eq!(player.get_lives(), 2);
    assert_eq!(player.get_model_bytes(), b" ==");
    assert!(player.is_alive());
    player.destroy();
    assert_eq!(player.get_lives(), 1);
    assert_eq!(player.get_model_bytes(), b" = ");
    assert!(player.is_alive());
    player.destroy();
    assert_eq!(player.get_lives(), 0);
    assert_eq!(player.get_model_bytes(), b"   ");
    assert!(!player.is_alive());
}

#[test]
fn dead_player_takes_no_more_hits() {
    let mut player = Player::new(49, 29, "===".to_string());
    for _ in 0..3 {
        player.destroy();
    }
    player.destroy();
    assert_eq!(player.get_lives(), 0);
    assert_eq!(player.get_model_bytes(), b"   ");
    assert_eq!(player.get_position(), (49, 29));
}

#[test]
fn player_draws_a_blank_before_the_glyph() {
    let mut player = Player::new(49, 29, "===".to_string());
    player.move_object(48, 29);
    let mut out = Vec::new();
    player.draw(&mut out);
    assert_eq!(out, b" \x1b[29;48H ===".to_vec());
}

#[test]
fn wall_stands_until_its_last_hit_point() {
    let mut wall = Wall::new(7, 25, 2, "=".to_string());
    assert!(wall.is_alive());
    wall.destroy();
    assert!(wall.is_alive());
    assert_eq!(wall.get_model_bytes(), b"=");
    wall.destroy();
    assert!(!wall.is_alive());
    assert_eq!(wall.get_model_bytes(), b" ");
    assert_eq!(wall.get_position(), (7, 25));
}

#[test]
fn fallen_wall_takes_no_more_hits() {
    let mut wall = Wall::new(7, 25, 1, "=".to_string());
    wall.destroy();
    wall.destroy();
    wall.destroy();
    assert!(!wall.is_alive());
    assert_eq!(wall.get_model_bytes(), b" ");
    assert_eq!(wall.get_size(), (7, 25, 1, 1));
}

#[test]
fn wall_without_hit_points_is_down_from_the_start() {
    let mut wall = Wall::new(7, 25, 0, "=".to_string());
    assert!(!wall.is_alive());
    wall.destroy();
    assert!(!wall.is_alive());
    assert_eq!(wall.get_model_bytes(), b"=");
}

#[test]
fn wall_does_not_move() {
    let mut wall = Wall::new(7, 25, 2, "=".to_string());
    wall.move_object(1, 1);
    assert_eq!(wall.get_position(), (7, 25));
    assert_eq!(wall.get_size(), (7, 25, 1, 1));
}

#[test]
fn wall_draws_its_glyph_at_its_cell() {
    let wall = Wall::new(100, 0, 1, "\u{1c1}".to_string());
    let mut out = Vec::new();
    wall.draw(&mut out);
    assert_eq!(out, b"\x1b[0;100H\xc7\x81".to_vec());
}
