use gaminal::game::Game;
use gaminal::objects::game_object_trait::GameObjectTrait;

fn steer(game: &mut Game, column: u16) {
    loop {
        let (x, _) = game.player().get_position();
        if x == column {
            return;
        }
        let key: Option<Result<u8, std::io::Error>> =
            Some(Ok(if x > column { b'z' } else { b'x' }));
        game.key_pressed(&key);
    }
}

fn first_living(game: &Game) -> (u16, u16) {
    game.enemies().iter().find(|e| e.is_alive()).map(|e| e.get_position()).unwrap()
}

/// A game with the walls left out, played until two enemies are left and the
/// player is dead.
fn lost_game() -> Game {
    let mut game = Game::new(100, 30);
    let mut out = Vec::new();
    game.create_enemies();
    // three cycles of the swarm, with the ship parked where its bullets hit
    // nothing, bring every row down to where it may be hit and may fire
    steer(&mut game, 3);
    for _ in 0..30 {
        assert!(game.swarm_has_room());
        game.update_with(1500, usize::MAX);
    }
    for _ in 0..30 {
        game.update(0);
    }
    game.draw(&mut out, 60);
    assert_eq!(game.enemies_left(), 120);
    assert_eq!(first_living(&game), (21, 3));
    while game.enemies_left() > 2 {
        let left = game.enemies_left();
        let (x, _) = first_living(&game);
        steer(&mut game, x - 2);
        game.create_player_bullet();
        for _ in 0..30 {
            game.update(0);
        }
        game.draw(&mut out, 60);
        assert_eq!(game.enemies_left(), left - 1);
    }
    let (x, _) = first_living(&game);
    steer(&mut game, x);
    for _ in 0..3 {
        game.create_enemy_bullet_from(0);
        for _ in 0..30 {
            game.update(0);
        }
    }
    game
}

#[test]
fn counter_of_enemies_left_is_the_number_of_the_living() {
    let game = lost_game();
    assert_eq!(game.enemies_left(), 2);
    assert_eq!(game.enemies().iter().filter(|e| e.is_alive()).count(), 2);
    assert_eq!(game.enemies().len(), 120);
}

#[test]
fn restart_begins_a_full_round() {
    let mut game = lost_game();
    assert_eq!(game.enemies_left(), 2);
    assert_eq!(game.player().get_lives(), 0);
    assert!(game.is_game_over());
    assert!(!game.bullets().is_empty());
    game.set_start(true);
    game.set_speed(90);

    let mut out = Vec::new();
    game.restart(&mut out);

    assert_eq!(game.player().get_lives(), 3);
    assert_eq!(game.player().get_model_bytes(), b"===");
    assert_eq!(game.player().get_position(), (49, 29));
    assert!(game.bullets().is_empty());
    assert!(!game.is_game_over());
    assert_eq!(game.step(), 0);
    assert_eq!(game.enemies().len(), 120);
    assert_eq!(game.enemies_left(), 120);
    assert!(game.enemies().iter().all(|e| e.is_alive()));
    assert!(game.is_started());
    assert_eq!(game.get_speed(), 90);

    let mut first = Game::new(100, 30);
    let mut first_out = Vec::new();
    first.start(&mut first_out);
    assert_eq!(first.enemies_left(), game.enemies_left());
    let again: Vec<(u16, u16)> = game.enemies().iter().map(|e| e.get_position()).collect();
    let fresh: Vec<(u16, u16)> = first.enemies().iter().map(|e| e.get_position()).collect();
    assert_eq!(again, fresh);
    assert_eq!(out, first_out);
}

#[test]
fn restart_keeps_the_walls_and_adds_a_row() {
    let mut game = Game::new(100, 30);
    let mut out = Vec::new();
    game.start(&mut out);
    game.create_player_bullet();
    game.update_bullets();
    game.update_bullets();
    game.update_with(1500, 0);
    assert_eq!(game.step(), 1);
    game.restart(&mut out);
    assert_eq!(game.walls().len(), 196);
    assert_eq!(game.enemies().len(), 120);
    assert_eq!(game.enemies()[0].get_position(), (21, 0));
    assert!(game.bullets().is_empty());
    assert_eq!(game.step(), 0);
}
