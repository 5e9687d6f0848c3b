use gaminal::game::Game;
use gaminal::objects::game_object_trait::GameObjectTrait;

fn status(row: u16, left: usize, fps: i32, lives: usize) -> Vec<u8> {
    format!(
        "\x1b[{};1HEnemies left: {}, Total mem: {}, FPS: {}, lives: {}",
        row,
        left,
        std::mem::size_of::<Game>(),
        fps,
        lives
    )
    .into_bytes()
}

#[test]
fn frame_of_a_new_game_shows_ship_and_status() {
    let mut game = Game::new(100, 30);
    let mut out = Vec::new();
    game.draw(&mut out, 60);
    let mut expected = b" \x1b[29;49H ===".to_vec();
    expected.extend(status(35, 0, 60, 3));
    assert_eq!(out, expected);
}

#[test]
fn frame_is_appended_to_what_was_drawn() {
    let mut game = Game::new(60, 5);
    let mut out = b"\x1b[2J".to_vec();
    game.draw(&mut out, -1);
    let mut expected = b"\x1b[2J \x1b[4;29H ===".to_vec();
    expected.extend(status(10, 0, -1, 3));
    assert_eq!(out, expected);
}

#[test]
fn frame_draws_ship_enemies_walls_and_bullets_in_that_order() {
    let mut game = Game::new(62, 30);
    let mut out = Vec::new();
    game.start(&mut out);
    game.create_player_bullet();
    game.create_enemy_bullet_from(2);
    let mut frame = Vec::new();
    game.draw(&mut frame, 120);
    let mut expected = Vec::new();
    expected.extend_from_slice(b" \x1b[29;30H ===");
    // rows 0 to 2 are not shown yet
    expected.extend_from_slice(b" \x1b[3;3H \xd6\x8e ");
    expected.extend_from_slice(b" \x1b[4;2H \xd6\x8e ");
    expected.extend_from_slice(b" \x1b[5;1H \xd6\x8e ");
    for x in 2..62 {
        expected.extend(format!("\x1b[25;{}H=", x).bytes());
    }
    expected.extend_from_slice(b"\x1b[28;32H|\x1b[29;32H ");
    expected.extend_from_slice(b"\x1b[6;1H|\x1b[5;1H ");
    expected.extend(status(35, 6, 120, 3));
    assert_eq!(frame, expected);
}

#[test]
fn frame_shows_the_message_once_the_game_is_over() {
    let mut game = Game::new(100, 30);
    game.create_enemies();
    for _ in 0..3 {
        game.create_enemy_bullet_from(10);
        for _ in 0..25 {
            game.update_bullets();
        }
    }
    let mut sweep = Vec::new();
    game.draw(&mut sweep, 60);
    assert!(game.bullets().is_empty());
    let mut out = Vec::new();
    game.draw(&mut out, 60);
    assert!(out.starts_with(b" \x1b[29;49H    "));
    let mut end = status(35, 120, 60, 0);
    end.extend_from_slice(b"\x1b[15;34HGame Over! Want to try again? Y/N");
    assert!(out.ends_with(&end));
}

#[test]
fn largest_arena_is_drawn_on_sixteen_bit_coordinates() {
    let mut game = Game::new(32827, 65530);
    let mut out = Vec::new();
    game.draw(&mut out, 0);
    let mut expected = b" \x1b[65529;16412H ===".to_vec();
    expected.extend(status(65535, 0, 0, 3));
    assert_eq!(out, expected);
}

#[test]
fn frame_sweeps_spent_bullets_and_keeps_dead_enemies() {
    let mut game = Game::new(100, 30);
    game.create_enemies();
    game.create_player_bullet();
    for _ in 0..10 {
        game.update_bullets();
    }
    game.create_player_bullet();
    game.create_enemy_bullet_from(0);
    for _ in 0..12 {
        game.update_bullets();
    }
    // the first bullet has hit; the other two are in flight
    assert_eq!(game.bullets().len(), 3);
    assert!(!game.bullets()[0].is_alive());
    let mut out = Vec::new();
    game.draw(&mut out, 60);
    assert_eq!(game.bullets().len(), 2);
    assert_eq!(game.bullets()[0].get_position(), (51, 16));
    assert_eq!(game.bullets()[1].get_position(), (21, 16));
    assert_eq!(game.enemies().len(), 120);
    assert_eq!(game.enemies_left(), 119);
    assert!(!game.enemies()[109].is_alive());
}

#[test]
fn spent_bullet_is_drawn_blank_before_it_is_swept() {
    let mut game = Game::new(100, 30);
    for _ in 0..50 {
        let key: Option<Result<u8, std::io::Error>> = Some(Ok(b'z'));
        game.key_pressed(&key);
    }
    game.create_player_bullet();
    for _ in 0..27 {
        game.update_bullets();
    }
    assert!(!game.bullets()[0].is_alive());
    let mut out = Vec::new();
    game.draw(&mut out, 9);
    let mut expected = b" \x1b[29;3H ===\x1b[2;5H \x1b[3;5H ".to_vec();
    expected.extend(status(35, 0, 9, 3));
    assert_eq!(out, expected);
    assert!(game.bullets().is_empty());
}
