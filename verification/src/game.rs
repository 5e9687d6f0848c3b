//! The engine: it owns the ship, the swarm, the bullets and the walls, and
//! moves them on when told how much time has passed.

use crate::laws::{
    deaths, law_update_counts_kills, law_update_flies_bullets, law_update_keeps_the_setting, ticked,
};
use crate::objects::bullet::{Bullet, BulletDirection};
use crate::objects::enemy::{Enemy, FIRST_VISIBLE_ROW};
use crate::objects::game_object_trait::{collides, GameObjectTrait};
use crate::objects::player::Player;
use crate::objects::wall::Wall;
use crate::random::random_below;
use crate::screen::{goto_code, lemma_append_twice, push_decimal, push_goto, push_signed_decimal, push_text, utf8};
use crate::state::{
    alive_count, arena_fits, border, can_shift, centred, enemy_at, enemy_bullet, first_hit, flying,
    game_over_text, horizontal_border, lattice, lattice_offset, lattice_row,
    lemma_alive_count_push, lemma_alive_count_same, lemma_alive_count_update, lemma_filter_next,
    lemma_first_hit, lemma_lattice_row_next, lemma_shooter_found, lemma_shooters_ends,
    player_bullet, qualifies, render_bullets, render_enemies, render_walls, shifted, shooters,
    standing, status_line, vertical_border, wall_row, GameView, BLOCK_LIVES, DEFAULT_SPEED,
    HEARTBEAT, LAST_STEP, LATTICE_ROWS,
};
use vstd::prelude::*;

verus! {

/// The error type of a failed read from the keyboard. Nothing is known of
/// such a value; the engine only tells it apart from a key.
#[verifier::external_type_specification]
#[verifier::external_body]
pub struct ExIoError(std::io::Error);

const GAME_OVER: &'static str = "Game Over! Want to try again? Y/N";

/// The message shown at the end is 33 bytes long.
proof fn lemma_game_over_text()
    ensures
        game_over_text().len() == 33,
        game_over_text() == utf8(GAME_OVER@),
{
    reveal_strlit("Game Over! Want to try again? Y/N");
    vstd::utf8::is_ascii_chars_encode_utf8("Game Over! Want to try again? Y/N"@);
}

/// A game: the arena, everything on its grid, and where the swarm is in its
/// cycle.
pub struct Game {
    width: u16,
    height: u16,
    game_over: bool,
    player: Player,
    enemies: Vec<Enemy>,
    bullets: Vec<Bullet>,
    walls: Vec<Wall>,
    is_started: bool,
    speed: u64,
    iter: i32,
    enemies_size: usize,
}

/// The key that a poll of the keyboard stands for, if it stands for one.
pub open spec fn key_of(key: Option<Result<u8, std::io::Error>>) -> Option<u8> {
    match key {
        Some(Ok(byte)) => Some(byte),
        _ => None,
    }
}

impl View for Game {
    type V = GameView;

    closed spec fn view(&self) -> GameView {
        GameView {
            width: self.width,
            height: self.height,
            game_over: self.game_over,
            player: self.player@,
            enemies: self.enemies@.map_values(|e: Enemy| e@),
            bullets: self.bullets@.map_values(|b: Bullet| b@),
            walls: self.walls@.map_values(|w: Wall| w@),
            started: self.is_started,
            speed: self.speed,
            step: self.iter,
            enemies_left: self.enemies_size,
        }
    }
}

impl Game {
    /// The view holds the views of what is stored, place by place.
    proof fn lemma_stored(&self)
        ensures
            self@.enemies.len() == self.enemies@.len(),
            self@.bullets.len() == self.bullets@.len(),
            self@.walls.len() == self.walls@.len(),
            forall|i: int|
                0 <= i < self.enemies@.len() ==> self@.enemies[i] == (#[trigger] self.enemies@[i])@,
            forall|i: int|
                0 <= i < self.bullets@.len() ==> self@.bullets[i] == (#[trigger] self.bullets@[i])@,
            forall|i: int|
                0 <= i < self.walls@.len() ==> self@.walls[i] == (#[trigger] self.walls@[i])@,
    {
    }

    /// A new game in an arena of the given size, with the ship in the
    /// middle of the row above the bottom border and nothing else on the
    /// grid.
    pub fn new(width: u16, height: u16) -> (game: Game)
        requires
            arena_fits(width, height),
        ensures
            game@ == GameView::fresh(width, height),
            game@.wf(),
    {
        let game = Game {
            width,
            height,
            game_over: false,
            player: Player::new(width / 2 - 1, height - 1, "===".to_string()),
            enemies: Vec::new(),
            bullets: Vec::new(),
            walls: Vec::new(),
            is_started: false,
            speed: DEFAULT_SPEED,
            iter: 0,
            enemies_size: 0,
        };
        proof {
            assert(game@.enemies =~= Seq::empty());
            assert(game@.bullets =~= Seq::empty());
            assert(game@.walls =~= Seq::empty());
            lemma_alive_count_push(Seq::empty(), enemy_at(0, 0));
        }
        game
    }

    /// Adds a fresh swarm: for each of the six rows, an enemy at every column
    /// of the lattice band that the row's pattern picks.
    pub fn create_enemies(&mut self)
        requires
            old(self)@.inv(),
        ensures
            final(self)@ == old(self)@.spawned(),
            final(self)@.inv(),
    {
        let center_point: u16 = self.width / 2 - 30;
        let end: u16 = center_point * 4;
        let ghost before = self@;
        let ghost offset = center_point as int;
        let mut i: u16 = 0;
        proof {
            assert(before.enemies + lattice(offset, 0) =~= before.enemies);
        }
        while i < LATTICE_ROWS
            invariant
                i <= LATTICE_ROWS,
                before.inv(),
                offset == lattice_offset(before.width),
                center_point == offset,
                end == 4 * offset,
                self@ == (GameView {
                    enemies: before.enemies + lattice(offset, i as int),
                    enemies_left: (before.enemies_left + lattice(offset, i as int).len()) as usize,
                    ..before
                }),
                self@.enemies_left == alive_count(self@.enemies),
                self@.enemies_left == before.enemies_left + lattice(offset, i as int).len(),
            decreases LATTICE_ROWS - i,
        {
            let mut j: u16 = center_point;
            proof {
                lemma_lattice_row_next(offset, offset, i as int);
                assert(before.enemies + lattice(offset, i as int) + lattice_row(
                    offset,
                    offset,
                    i as int,
                ) =~= before.enemies + lattice(offset, i as int));
            }
            while j < end
                invariant
                    i < LATTICE_ROWS,
                    before.inv(),
                    center_point == offset,
                    end == 4 * offset,
                    offset <= j <= end,
                    self@ == (GameView {
                        enemies: before.enemies + lattice(offset, i as int) + lattice_row(
                            offset,
                            j as int,
                            i as int,
                        ),
                        enemies_left: (before.enemies_left + lattice(offset, i as int).len()
                            + lattice_row(offset, j as int, i as int).len()) as usize,
                        ..before
                    }),
                    self@.enemies_left == alive_count(self@.enemies),
                    self@.enemies_left == before.enemies_left + lattice(offset, i as int).len()
                        + lattice_row(offset, j as int, i as int).len(),
                decreases end - j,
            {
                let ghost held = self@;
                proof {
                    lemma_lattice_row_next(offset, j as int, i as int);
                }
                if (j as u32 + i as u32) % 3 == 0 {
                    let enemy = Enemy::new(j, i, i, "\u{58e} ".to_string());
                    proof {
                        lemma_alive_count_push(held.enemies, enemy@);
                    }
                    self.enemies.push(enemy);
                    proof {
                        vstd::std_specs::vec::axiom_spec_len(&self.enemies);
                        assert(held.enemies.len() + 1 == self.enemies@.len());
                    }
                    self.enemies_size = self.enemies_size + 1;
                    proof {
                        assert(self@.enemies =~= held.enemies.push(enemy_at(j as int, i as int)));
                        assert(self@.enemies =~= before.enemies + lattice(offset, i as int)
                            + lattice_row(offset, j + 1, i as int));
                    }
                }
                j += 1;
            }
            i += 1;
            proof {
                assert(self@.enemies =~= before.enemies + lattice(offset, i as int));
            }
        }
    }

    /// Draws the border of the arena into `out` and adds a fresh inner
    /// wall. The border is only drawn: it is not stored, and nothing can
    /// hit it.
    pub fn create_window_bounds(&mut self, out: &mut Vec<u8>)
        requires
            old(self)@.inv(),
        ensures
            final(self)@ == old(self)@.walled(),
            final(self)@.inv(),
            final(out)@ == old(out)@ + border(old(self)@.width, old(self)@.height),
    {
        let ghost before = self@;
        let mut x: u16 = 2;
        proof {
            assert(before.walls + wall_row(2, before.height) =~= before.walls);
            assert(out@ =~= old(out)@ + horizontal_border(2, before.height));
        }
        while x < self.width
            invariant
                2 <= x <= self.width,
                before.inv(),
                self@ == (GameView { walls: before.walls + wall_row(x as int, before.height), ..before }),
                self@.inv(),
                out@ == old(out)@ + horizontal_border(x as int, before.height),
            decreases self.width - x,
        {
            let ghost held = self@;
            let top_wall = Wall::new(x, 1, 1, "=".to_string());
            top_wall.draw(out);
            let bottom_wall = Wall::new(x, self.height, 1, "=".to_string());
            bottom_wall.draw(out);
            let block = Wall::new(x, self.height - 5, BLOCK_LIVES, "=".to_string());
            self.walls.push(block);
            proof {
                assert(self@.walls =~= held.walls.push(block@));
                assert(self@.walls =~= before.walls + wall_row(x + 1, before.height));
                assert(out@ =~= old(out)@ + horizontal_border(x + 1, before.height));
            }
            x += 1;
        }
        let mut y: u16 = 0;
        proof {
            assert(out@ =~= old(out)@ + horizontal_border(before.width as int, before.height)
                + vertical_border(0, before.width));
        }
        while y < self.height
            invariant
                y <= self.height,
                before.inv(),
                self@ == before.walled(),
                out@ == old(out)@ + horizontal_border(before.width as int, before.height)
                    + vertical_border(y as int, before.width),
            decreases self.height - y,
        {
            let left_wall = Wall::new(2, y, 1, "\u{1c1}".to_string());
            left_wall.draw(out);
            let right_wall = Wall::new(self.width, y, 1, "\u{1c1}".to_string());
            right_wall.draw(out);
            proof {
                assert(out@ =~= old(out)@ + horizontal_border(before.width as int, before.height)
                    + vertical_border(y + 1, before.width));
            }
            y += 1;
        }
        proof {
            assert(out@ =~= old(out)@ + border(before.width, before.height));
        }
    }

    /// Populates the grid: a fresh swarm, the border drawn into `out`, and a
    /// fresh inner wall.
    pub fn start(&mut self, out: &mut Vec<u8>)
        requires
            old(self)@.wf(),
        ensures
            final(self)@ == old(self)@.spawned().walled(),
            final(self)@.wf(),
            final(out)@ == old(out)@ + border(old(self)@.width, old(self)@.height),
    {
        self.create_enemies();
        self.create_window_bounds(out);
    }

    /// Begins another round: the grid is cleared of enemies and bullets,
    /// the ship is replaced by a fresh one, the step counter goes back to 0,
    /// and the game is started as by `start`.
    pub fn restart(&mut self, out: &mut Vec<u8>)
        requires
            old(self)@.wf(),
        ensures
            final(self)@ == old(self)@.cleared().spawned().walled(),
            final(self)@.wf(),
            final(out)@ == old(out)@ + border(old(self)@.width, old(self)@.height),
    {
        self.enemies.clear();
        self.enemies_size = 0;
        self.bullets.clear();
        self.game_over = false;
        self.player = Player::new(self.width / 2 - 1, self.height - 1, "===".to_string());
        self.iter = 0;
        proof {
            assert(self@.enemies =~= Seq::empty());
            assert(self@.bullets =~= Seq::empty());
            lemma_alive_count_push(Seq::empty(), enemy_at(0, 0));
            assert(self@ == old(self)@.cleared());
        }
        self.start(out)
    }

    /// Whether a heartbeat can take place in this state.
    pub fn swarm_has_room(&self) -> (fits: bool)
        requires
            self@.wf(),
        ensures
            fits == self@.swarm_has_room(),
    {
        let step: i32 = self.iter + 1;
        let ghost next = GameView { step, ..self@ };
        let mut i: usize = 0;
        while i < self.enemies.len()
            invariant
                i <= self.enemies@.len(),
                self@.wf(),
                step == self@.step + 1,
                next == (GameView { step, ..self@ }),
                forall|k: int|
                    0 <= k < i ==> {
                        let e = #[trigger] self@.enemies[k];
                        &&& can_shift(e, step as int)
                        &&& qualifies(shifted(e, step as int)) ==> shifted(e, step as int).y
                            < u16::MAX
                    },
            decreases self.enemies@.len() - i,
        {
            proof {
                self.lemma_stored();
            }
            let (x, y) = self.enemies[i].get_position();
            let alive = self.enemies[i].is_alive();
            let ghost e = self@.enemies[i as int];
            let fits = if step <= 4 {
                x >= 1 && !(alive && y >= FIRST_VISIBLE_ROW && y == u16::MAX)
            } else if step <= 8 {
                x < u16::MAX && !(alive && y >= FIRST_VISIBLE_ROW && y == u16::MAX)
            } else if step == LAST_STEP {
                y < u16::MAX && !(alive && y + 1 >= FIRST_VISIBLE_ROW && y + 1 == u16::MAX)
            } else {
                !(alive && y >= FIRST_VISIBLE_ROW && y == u16::MAX)
            };
            if !fits {
                proof {
                    assert(next.enemies[i as int] == e);
                    assert(self@.stepped().enemies[i as int] == shifted(e, step as int));
                    if next.swarm_can_move() && self@.stepped().shooters_have_room() {
                        assert(can_shift(next.enemies[i as int], step as int));
                        assert(qualifies(self@.stepped().enemies[i as int])
                            ==> self@.stepped().enemies[i as int].y < u16::MAX);
                    }
                }
                return false;
            }
            i += 1;
        }
        proof {
            assert forall|k: int| 0 <= k < next.enemies.len() implies can_shift(
                #[trigger] next.enemies[k],
                next.step as int,
            ) by {
                assert(can_shift(self@.enemies[k], step as int));
            }
            assert forall|k: int|
                0 <= k < self@.stepped().enemies.len() && qualifies(
                    #[trigger] self@.stepped().enemies[k],
                ) implies self@.stepped().enemies[k].y < u16::MAX by {
                let e = self@.enemies[k];
                assert(qualifies(shifted(e, step as int)) ==> shifted(e, step as int).y
                    < u16::MAX);
            }
        }
        true
    }

    /// Whether the swarm can move at the current step.
    pub fn swarm_can_move(&self) -> (fits: bool)
        requires
            self@.inv(),
        ensures
            fits == self@.swarm_can_move(),
    {
        let mut i: usize = 0;
        while i < self.enemies.len()
            invariant
                i <= self.enemies@.len(),
                self@.inv(),
                forall|k: int| 0 <= k < i ==> can_shift(#[trigger] self@.enemies[k], self@.step as int),
            decreases self.enemies@.len() - i,
        {
            proof {
                self.lemma_stored();
            }
            let (x, y) = self.enemies[i].get_position();
            let fits = if self.iter == LAST_STEP {
                y < u16::MAX
            } else if self.iter <= 4 {
                x >= 1
            } else if self.iter <= 8 {
                x < u16::MAX
            } else {
                true
            };
            if !fits {
                assert(!can_shift(self@.enemies[i as int], self@.step as int));
                return false;
            }
            i += 1;
        }
        proof {
            self.lemma_stored();
        }
        true
    }

    /// Whether every enemy that may fire has a row below it.
    pub fn shooters_have_room(&self) -> (fits: bool)
        ensures
            fits == self@.shooters_have_room(),
    {
        let mut i: usize = 0;
        while i < self.enemies.len()
            invariant
                i <= self.enemies@.len(),
                forall|k: int|
                    0 <= k < i && qualifies(#[trigger] self@.enemies[k]) ==> self@.enemies[k].y
                        < u16::MAX,
            decreases self.enemies@.len() - i,
        {
            proof {
                self.lemma_stored();
            }
            let (_, y) = self.enemies[i].get_position();
            if self.enemies[i].is_alive() && y == u16::MAX {
                assert(qualifies(self@.enemies[i as int]));
                return false;
            }
            i += 1;
        }
        proof {
            self.lemma_stored();
        }
        true
    }

    /// Moves every enemy, dead or alive, with the swarm at the current step.
    pub fn update_enemies(&mut self)
        requires
            old(self)@.inv(),
            old(self)@.swarm_can_move(),
        ensures
            final(self)@ == old(self)@.swarm_moved(),
            final(self)@.inv(),
    {
        let ghost before = self@;
        let mut i: usize = 0;
        while i < self.enemies.len()
            invariant
                i <= self.enemies@.len(),
                before.inv(),
                before.swarm_can_move(),
                self@ == (GameView { enemies: self@.enemies, ..before }),
                self@.enemies.len() == before.enemies.len(),
                forall|k: int|
                    0 <= k < i ==> #[trigger] self@.enemies[k] == shifted(
                        before.enemies[k],
                        before.step as int,
                    ),
                forall|k: int|
                    i <= k < before.enemies.len() ==> #[trigger] self@.enemies[k]
                        == before.enemies[k],
            decreases self.enemies@.len() - i,
        {
            proof {
                self.lemma_stored();
            }
            let ghost held = self@;
            let (mut x, mut y) = self.enemies[i].get_position();
            assert(can_shift(before.enemies[i as int], before.step as int));
            if self.iter == LAST_STEP {
                y += 1;
            } else if 0 <= self.iter && self.iter <= 4 {
                x -= 1;
            } else if 5 <= self.iter && self.iter <= 8 {
                x += 1;
            }
            self.enemies[i].move_object(x, y);
            proof {
                self.lemma_stored();
                assert(self@.enemies =~= held.enemies.update(
                    i as int,
                    shifted(before.enemies[i as int], before.step as int),
                ));
            }
            i += 1;
        }
        proof {
            assert(self@.enemies =~= before.swarm_moved().enemies);
            lemma_alive_count_same(before.enemies, self@.enemies);
        }
    }

    /// Lets the player fire, if alive.
    pub fn create_player_bullet(&mut self)
        requires
            old(self)@.inv(),
        ensures
            final(self)@ == old(self)@.with_player_bullet(),
            final(self)@.inv(),
    {
        if self.player.is_alive() {
            let (x, y) = self.player.get_position();
            let bullet = Bullet::new(x + 2, y - 1, "|".to_string(), BulletDirection::Up);
            let ghost held = self@;
            self.bullets.push(bullet);
            proof {
                assert(self@.bullets =~= held.bullets.push(player_bullet(held.player)));
                assert(player_bullet(held.player).in_play(held.width, held.height));
                assert(self@ == held.with_player_bullet());
                assert forall|k: int| 0 <= k < self@.bullets.len() implies (
                #[trigger] self@.bullets[k]).in_play(self@.width, self@.height) by {
                    if k < held.bullets.len() {
                        assert(held.bullets[k].in_play(held.width, held.height));
                    }
                }
            }
        }
    }

    /// The number of enemies that may fire.
    pub fn count_shooters(&self) -> (count: usize)
        ensures
            count == shooters(self@.enemies).len(),
    {
        let mut count: usize = 0;
        let mut i: usize = 0;
        proof {
            lemma_shooters_ends(self@.enemies);
        }
        while i < self.enemies.len()
            invariant
                i <= self.enemies@.len(),
                count == shooters(self@.enemies.take(i as int)).len(),
                count <= i,
            decreases self.enemies@.len() - i,
        {
            proof {
                lemma_shooter_found(self@.enemies, i as int);
                self.lemma_stored();
            }
            let (_, y) = self.enemies[i].get_position();
            if y >= FIRST_VISIBLE_ROW && self.enemies[i].is_alive() {
                count += 1;
            }
            i += 1;
        }
        count
    }

    /// Lets the enemy at place `pick` among those that may fire do so. Where
    /// there is no such place, nobody fires.
    pub fn create_enemy_bullet_from(&mut self, pick: usize)
        requires
            old(self)@.inv(),
            old(self)@.shooters_have_room(),
        ensures
            final(self)@ == old(self)@.with_enemy_bullet(pick as int),
            final(self)@.inv(),
    {
        let ghost before = self@;
        let mut seen: usize = 0;
        let mut i: usize = 0;
        proof {
            lemma_shooters_ends(self@.enemies);
        }
        while i < self.enemies.len()
            invariant
                i <= self.enemies@.len(),
                self@ == before,
                before == old(self)@,
                before.inv(),
                before.shooters_have_room(),
                seen == shooters(before.enemies.take(i as int)).len(),
                seen <= pick,
                seen <= i,
            decreases self.enemies@.len() - i,
        {
            proof {
                lemma_shooter_found(before.enemies, i as int);
                self.lemma_stored();
            }
            let (x, y) = self.enemies[i].get_position();
            if y >= FIRST_VISIBLE_ROW && self.enemies[i].is_alive() {
                if seen == pick {
                    assert(qualifies(before.enemies[i as int]));
                    let bullet = Bullet::new(x, y + 1, "|".to_string(), BulletDirection::Down);
                    self.bullets.push(bullet);
                    proof {
                        assert(self@.bullets =~= before.bullets.push(
                            enemy_bullet(before.enemies[i as int]),
                        ));
                        assert(enemy_bullet(before.enemies[i as int]).in_play(before.width, before.height));
                    }
                    return ;
                }
                seen += 1;
            }
            i += 1;
        }
    }

    /// Lets one enemy fire, drawn by chance among those that may. Where
    /// none may, nobody fires.
    pub fn create_enemies_bullets(&mut self)
        requires
            old(self)@.inv(),
            old(self)@.shooters_have_room(),
        ensures
            final(self)@.inv(),
            shooters(old(self)@.enemies).len() == 0 ==> final(self)@ == old(self)@,
            shooters(old(self)@.enemies).len() > 0 ==> exists|pick: int|
                0 <= pick < shooters(old(self)@.enemies).len() && final(self)@
                    == #[trigger] old(self)@.with_enemy_bullet(pick),
    {
        let count = self.count_shooters();
        if count > 0 {
            let pick = random_below(count);
            self.create_enemy_bullet_from(pick);
            assert(self@ == old(self)@.with_enemy_bullet(pick as int));
        }
    }

    /// The first living enemy that bullet `k` lies in, or the number of
    /// enemies if there is none.
    fn find_target(&self, k: usize) -> (target: usize)
        requires
            k < self@.bullets.len(),
        ensures
            target == first_hit(self@.bullets[k as int].footprint(), self@.enemies, 0),
    {
        let ghost probe = self@.bullets[k as int].footprint();
        let mut i: usize = 0;
        while i < self.enemies.len()
            invariant
                i <= self.enemies@.len(),
                k < self@.bullets.len(),
                probe == self@.bullets[k as int].footprint(),
                first_hit(probe, self@.enemies, 0) == first_hit(probe, self@.enemies, i as int),
            decreases self.enemies@.len() - i,
        {
            proof {
                self.lemma_stored();
            }
            if self.enemies[i].is_alive() && self.bullets[k].is_collide(&self.enemies[i]) {
                return i;
            }
            i += 1;
        }
        proof {
            self.lemma_stored();
        }
        i
    }

    /// Tests bullet `k` against the enemies.
    fn strike_enemy(&mut self, k: usize)
        requires
            old(self)@.inv(),
            k < old(self)@.bullets.len(),
        ensures
            final(self)@ == old(self)@.after_enemy_strike(k as int),
            final(self)@.inv(),
            final(self)@.same_setting(old(self)@),
    {
        proof {
            self.lemma_stored();
        }
        if self.bullets[k].is_alive() {
            let target = self.find_target(k);
            if target < self.enemies.len() {
                let ghost held = self@;
                proof {
                    lemma_first_hit(held.bullets[k as int].footprint(), held.enemies, 0);
                    lemma_alive_count_update(
                        held.enemies,
                        target as int,
                        held.enemies[target as int].destroyed(),
                    );
                }
                self.enemies[target].destroy();
                self.bullets[k].destroy();
                self.enemies_size -= 1;
                proof {
                    self.lemma_stored();
                    assert(self@.enemies =~= held.enemies.update(
                        target as int,
                        held.enemies[target as int].destroyed(),
                    ));
                    assert(self@.bullets =~= held.bullets.update(
                        k as int,
                        held.bullets[k as int].destroyed(),
                    ));
                }
            }
        }
    }

    /// Tests bullet `k` against the player.
    fn strike_player(&mut self, k: usize)
        requires
            old(self)@.inv(),
            k < old(self)@.bullets.len(),
        ensures
            final(self)@ == old(self)@.after_player_strike(k as int),
            final(self)@.inv(),
            final(self)@.same_setting(old(self)@),
    {
        proof {
            self.lemma_stored();
        }
        if self.bullets[k].is_alive() && self.bullets[k].is_collide(&self.player) {
            let ghost held = self@;
            self.bullets[k].destroy();
            self.player.destroy();
            self.game_over = !self.player.is_alive();
            proof {
                self.lemma_stored();
                assert(self@.bullets =~= held.bullets.update(
                    k as int,
                    held.bullets[k as int].destroyed(),
                ));
            }
        }
    }

    /// Tests bullet `k` against every wall.
    fn strike_walls(&mut self, k: usize)
        requires
            old(self)@.inv(),
            k < old(self)@.bullets.len(),
        ensures
            final(self)@ == old(self)@.after_wall_strike(k as int),
            final(self)@.inv(),
            final(self)@.same_setting(old(self)@),
    {
        let ghost before = self@;
        let ghost probe = before.bullets[k as int].footprint();
        let mut j: usize = 0;
        while j < self.walls.len()
            invariant
                j <= self.walls@.len(),
                before == old(self)@,
                before.inv(),
                k < before.bullets.len(),
                probe == before.bullets[k as int].footprint(),
                self@ == (GameView { bullets: self@.bullets, walls: self@.walls, ..before }),
                self@.walls.len() == before.walls.len(),
                self@.bullets == if before.hits_wall(probe, j as int) {
                    before.bullets.update(k as int, before.bullets[k as int].destroyed())
                } else {
                    before.bullets
                },
                forall|i: int|
                    0 <= i < j ==> #[trigger] self@.walls[i] == if collides(
                        probe,
                        before.walls[i].footprint(),
                    ) {
                        before.walls[i].destroyed()
                    } else {
                        before.walls[i]
                    },
                forall|i: int|
                    j <= i < before.walls.len() ==> #[trigger] self@.walls[i] == before.walls[i],
            decreases self.walls@.len() - j,
        {
            proof {
                self.lemma_stored();
            }
            let ghost held = self@;
            if self.bullets[k].is_collide(&self.walls[j]) {
                self.bullets[k].destroy();
                self.walls[j].destroy();
                proof {
                    self.lemma_stored();
                    assert(collides(probe, before.walls[j as int].footprint()));
                    assert(before.hits_wall(probe, j + 1));
                    assert(self@.bullets =~= before.bullets.update(
                        k as int,
                        before.bullets[k as int].destroyed(),
                    ));
                    assert(self@.walls =~= held.walls.update(
                        j as int,
                        before.walls[j as int].destroyed(),
                    ));
                }
            } else {
                proof {
                    assert(!collides(probe, before.walls[j as int].footprint()));
                    assert(before.hits_wall(probe, j + 1) == before.hits_wall(probe, j as int));
                }
            }
            j += 1;
        }
        proof {
            assert(self@.walls =~= before.after_wall_strike(k as int).walls);
        }
    }

    /// The tick of bullet `k`.
    fn advance_bullet(&mut self, k: usize)
        requires
            old(self)@.inv(),
            k < old(self)@.bullets.len(),
        ensures
            final(self)@ == old(self)@.advance_bullet(k as int),
            final(self)@.inv(),
            final(self)@.same_setting(old(self)@),
    {
        proof {
            self.lemma_stored();
        }
        if self.bullets[k].is_alive() {
            let ghost before = self@;
            let (x, y) = self.bullets[k].get_position();
            match *self.bullets[k].get_direction() {
                BulletDirection::Up => {
                    if y >= 3 {
                        self.bullets[k].move_object(x, y - 1);
                    } else {
                        self.bullets[k].destroy()
                    }
                    proof {
                        self.lemma_stored();
                        assert(self@.bullets =~= before.bullets.update(
                            k as int,
                            before.flown(k as int),
                        ));
                    }
                    self.strike_enemy(k);
                },
                BulletDirection::Down => {
                    if y > self.height - 2 {
                        self.bullets[k].destroy();
                    } else {
                        self.bullets[k].move_object(x, y + 1);
                    }
                    proof {
                        self.lemma_stored();
                        assert(self@.bullets =~= before.bullets.update(
                            k as int,
                            before.flown(k as int),
                        ));
                    }
                    self.strike_player(k);
                },
            }
            self.strike_walls(k);
        }
    }

    /// The fast part of an update: every live bullet flies one cell and is
    /// tested against what it may hit.
    pub fn update_bullets(&mut self)
        requires
            old(self)@.inv(),
        ensures
            final(self)@ == old(self)@.advanced(),
            final(self)@.inv(),
            final(self)@.same_setting(old(self)@),
    {
        let ghost before = self@;
        let mut k: usize = 0;
        while k < self.bullets.len()
            invariant
                k <= self.bullets@.len(),
                before == old(self)@,
                self@ == before.advanced_to(k as int),
                self@.inv(),
                self@.same_setting(before),
            decreases self.bullets@.len() - k,
        {
            proof {
                self.lemma_stored();
            }
            self.advance_bullet(k);
            k += 1;
            proof {
                self.lemma_stored();
            }
        }
        proof {
            self.lemma_stored();
        }
    }

    /// Advances the game by one frame. `dt` is the time since the last
    /// heartbeat: once it has reached the threshold, the swarm moves one
    /// step and both sides fire, the enemy drawn by chance among those that
    /// may. In every frame each live bullet flies one cell and is tested
    /// against what it may hit.
    pub fn update(&mut self, dt: u128)
        requires
            old(self)@.wf(),
            dt >= HEARTBEAT ==> old(self)@.swarm_has_room(),
        ensures
            final(self)@.wf(),
            dt < HEARTBEAT ==> final(self)@ == old(self)@.advanced(),
            dt >= HEARTBEAT && old(self)@.picks() == 0 ==> final(self)@ == old(self)@.beat(
                0,
            ).advanced(),
            dt >= HEARTBEAT && old(self)@.picks() > 0 ==> exists|pick: int|
                0 <= pick < old(self)@.picks() && final(self)@ == #[trigger] old(self)@.beat(
                    pick,
                ).advanced(),
            final(self)@.same_setting(
                GameView {
                    step: old(self)@.next_step(dt) as i32,
                    bullets: final(self)@.bullets,
                    ..old(self)@
                },
            ),
            final(self)@.enemies_left + deaths(old(self)@.enemies, final(self)@.enemies) == old(
                self,
            )@.enemies_left,
            final(self)@.player.lives <= old(self)@.player.lives,
            old(self)@.bullets.len() <= final(self)@.bullets.len(),
            forall|k: int|
                0 <= k < old(self)@.bullets.len() ==> ticked(
                    old(self)@.bullets[k],
                    #[trigger] final(self)@.bullets[k],
                ),
    {
        if dt >= HEARTBEAT {
            self.begin_heartbeat();
            let ghost held = self@;
            self.create_enemies_bullets();
            let ghost pick = if shooters(held.enemies).len() == 0 {
                0
            } else {
                choose|pick: int|
                    0 <= pick < shooters(held.enemies).len() && self@
                        == #[trigger] held.with_enemy_bullet(pick)
            };
            assert(self@ == held.with_enemy_bullet(pick));
            let ghost fired = self@;
            if self.iter == LAST_STEP {
                self.iter = 0;
            }
            assert(self@ == fired.wound());
            assert(self@ == old(self)@.beat(pick));
            self.update_bullets();
            proof {
                assert(self@ == old(self)@.updated(dt, pick));
                law_update_keeps_the_setting(old(self)@, dt, pick);
                law_update_counts_kills(old(self)@, dt, pick);
                law_update_flies_bullets(old(self)@, dt, pick);
            }
        } else {
            self.update_bullets();
            proof {
                assert(self@ == old(self)@.updated(dt, 0));
                law_update_keeps_the_setting(old(self)@, dt, 0);
                law_update_counts_kills(old(self)@, dt, 0);
                law_update_flies_bullets(old(self)@, dt, 0);
            }
        }
    }

    /// Advances the game by one frame as `update` does, with the enemy that
    /// fires given instead of drawn: the one at place `pick` among those
    /// that may fire once the swarm has moved, or none where there is no
    /// such place.
    pub fn update_with(&mut self, dt: u128, pick: usize)
        requires
            old(self)@.wf(),
            dt >= HEARTBEAT ==> old(self)@.swarm_has_room(),
        ensures
            final(self)@ == old(self)@.updated(dt, pick as int),
            final(self)@.wf(),
    {
        if dt >= HEARTBEAT {
            self.begin_heartbeat();
            self.create_enemy_bullet_from(pick);
            let ghost fired = self@;
            if self.iter == LAST_STEP {
                self.iter = 0;
            }
            assert(self@ == fired.wound());
        }
        self.update_bullets();
    }

    /// The start of a heartbeat: the step counter goes up, the swarm moves
    /// and the player fires.
    fn begin_heartbeat(&mut self)
        requires
            old(self)@.wf(),
            old(self)@.swarm_has_room(),
        ensures
            final(self)@ == old(self)@.stepped().with_player_bullet(),
            final(self)@.inv(),
            final(self)@.shooters_have_room(),
    {
        self.iter += 1;
        proof {
            assert(self@ == (GameView { step: (old(self)@.step + 1) as i32, ..old(self)@ }));
        }
        self.update_enemies();
        self.create_player_bullet();
    }

    fn draw_player(&self, out: &mut Vec<u8>)
        requires
            self@.inv(),
        ensures
            final(out)@ == old(out)@ + self@.player.rendering(),
    {
        self.player.draw(out)
    }

    fn draw_enemies(&self, out: &mut Vec<u8>)
        ensures
            final(out)@ == old(out)@ + render_enemies(self@.enemies),
    {
        let mut i: usize = 0;
        proof {
            assert(self@.enemies.take(0) =~= Seq::empty());
            assert(out@ =~= old(out)@ + render_enemies(self@.enemies.take(0)));
        }
        while i < self.enemies.len()
            invariant
                i <= self.enemies@.len(),
                out@ == old(out)@ + render_enemies(self@.enemies.take(i as int)),
            decreases self.enemies@.len() - i,
        {
            proof {
                self.lemma_stored();
                assert(self@.enemies.take(i + 1).drop_last() =~= self@.enemies.take(i as int));
            }
            self.enemies[i].draw(out);
            i += 1;
            proof {
                assert(out@ =~= old(out)@ + render_enemies(self@.enemies.take(i as int)));
            }
        }
        proof {
            self.lemma_stored();
            assert(self@.enemies.take(i as int) =~= self@.enemies);
        }
    }

    fn draw_bullets(&self, out: &mut Vec<u8>)
        requires
            self@.inv(),
        ensures
            final(out)@ == old(out)@ + render_bullets(self@.bullets),
    {
        let mut i: usize = 0;
        proof {
            assert(self@.bullets.take(0) =~= Seq::empty());
            assert(out@ =~= old(out)@ + render_bullets(self@.bullets.take(0)));
        }
        while i < self.bullets.len()
            invariant
                i <= self.bullets@.len(),
                self@.inv(),
                out@ == old(out)@ + render_bullets(self@.bullets.take(i as int)),
            decreases self.bullets@.len() - i,
        {
            proof {
                self.lemma_stored();
                assert(self@.bullets.take(i + 1).drop_last() =~= self@.bullets.take(i as int));
                assert(self@.bullets[i as int].in_play(self@.width, self@.height));
            }
            self.bullets[i].draw(out);
            i += 1;
            proof {
                assert(out@ =~= old(out)@ + render_bullets(self@.bullets.take(i as int)));
            }
        }
        proof {
            self.lemma_stored();
            assert(self@.bullets.take(i as int) =~= self@.bullets);
        }
    }

    fn draw_walls(&self, out: &mut Vec<u8>)
        requires
            self@.inv(),
        ensures
            final(out)@ == old(out)@ + render_walls(self@.walls),
    {
        let mut i: usize = 0;
        proof {
            assert(self@.walls.take(0) =~= Seq::empty());
            assert(out@ =~= old(out)@ + render_walls(self@.walls.take(0)));
        }
        while i < self.walls.len()
            invariant
                i <= self.walls@.len(),
                self@.inv(),
                out@ == old(out)@ + render_walls(self@.walls.take(i as int)),
            decreases self.walls@.len() - i,
        {
            proof {
                self.lemma_stored();
                assert(self@.walls.take(i + 1).drop_last() =~= self@.walls.take(i as int));
                assert(self@.walls[i as int].x >= 2);
            }
            self.walls[i].draw(out);
            i += 1;
            proof {
                assert(out@ =~= old(out)@ + render_walls(self@.walls.take(i as int)));
            }
        }
        proof {
            self.lemma_stored();
            assert(self@.walls.take(i as int) =~= self@.walls);
        }
    }

    fn draw_message(&self, message: &str, out: &mut Vec<u8>)
        requires
            self@.inv(),
            utf8(message@).len() / 2 <= 30,
        ensures
            final(out)@ == old(out)@ + centred(self@.width, self@.height, utf8(message@)),
    {
        let half: usize = message.as_bytes().len() / 2;
        let x: u16 = self.width / 2 - half as u16;
        let y: u16 = self.height / 2;
        push_goto(out, x, y);
        push_text(out, message);
        proof {
            assert(final(out)@ =~= old(out)@ + centred(self@.width, self@.height, utf8(message@)));
        }
    }

    /// Takes the spent bullets out of storage.
    fn sweep_bullets(&mut self)
        requires
            old(self)@.inv(),
        ensures
            final(self)@ == (GameView {
                bullets: old(self)@.bullets.filter(flying()),
                ..old(self)@
            }),
            final(self)@.inv(),
    {
        let ghost before = self@;
        let ghost mut seen: int = 0;
        let mut i: usize = 0;
        proof {
            assert(before.bullets.take(0).filter(flying()) =~= Seq::empty()) by {
                reveal(Seq::filter);
            }
            assert(before.bullets.skip(0) =~= before.bullets);
            assert(before.bullets.take(0).filter(flying()) + before.bullets.skip(0)
                =~= before.bullets);
        }
        while i < self.bullets.len()
            invariant
                before == old(self)@,
                before.inv(),
                0 <= seen <= before.bullets.len(),
                i <= self.bullets@.len(),
                i == before.bullets.take(seen).filter(flying()).len(),
                self@ == (GameView {
                    bullets: before.bullets.take(seen).filter(flying()) + before.bullets.skip(seen),
                    ..before
                }),
                self@.inv(),
            decreases self.bullets@.len() - i,
        {
            proof {
                self.lemma_stored();
                lemma_filter_next(before.bullets, flying(), seen);
            }
            let ghost held = self@;
            if self.bullets[i].is_alive() {
                i += 1;
            } else {
                self.bullets.remove(i);
                proof {
                    self.lemma_stored();
                    assert(self@.bullets =~= held.bullets.remove(i as int));
                }
            }
            proof {
                seen = seen + 1;
                assert(self@.bullets =~= before.bullets.take(seen).filter(flying())
                    + before.bullets.skip(seen));
            }
        }
        proof {
            self.lemma_stored();
            assert(before.bullets.skip(seen) =~= Seq::empty());
            assert(before.bullets.take(seen) =~= before.bullets);
            assert(self@.bullets =~= before.bullets.filter(flying()));
        }
    }

    /// Takes the fallen walls out of storage.
    fn sweep_walls(&mut self)
        requires
            old(self)@.inv(),
        ensures
            final(self)@ == (GameView { walls: old(self)@.walls.filter(standing()), ..old(self)@ }),
            final(self)@.inv(),
    {
        let ghost before = self@;
        let ghost mut seen: int = 0;
        let mut i: usize = 0;
        proof {
            assert(before.walls.take(0).filter(standing()) =~= Seq::empty()) by {
                reveal(Seq::filter);
            }
            assert(before.walls.skip(0) =~= before.walls);
            assert(before.walls.take(0).filter(standing()) + before.walls.skip(0)
                =~= before.walls);
        }
        while i < self.walls.len()
            invariant
                before == old(self)@,
                before.inv(),
                0 <= seen <= before.walls.len(),
                i <= self.walls@.len(),
                i == before.walls.take(seen).filter(standing()).len(),
                self@ == (GameView {
                    walls: before.walls.take(seen).filter(standing()) + before.walls.skip(seen),
                    ..before
                }),
                self@.inv(),
            decreases self.walls@.len() - i,
        {
            proof {
                self.lemma_stored();
                lemma_filter_next(before.walls, standing(), seen);
            }
            let ghost held = self@;
            if self.walls[i].is_alive() {
                i += 1;
            } else {
                self.walls.remove(i);
                proof {
                    self.lemma_stored();
                    assert(self@.walls =~= held.walls.remove(i as int));
                }
            }
            proof {
                seen = seen + 1;
                assert(self@.walls =~= before.walls.take(seen).filter(standing())
                    + before.walls.skip(seen));
            }
        }
        proof {
            self.lemma_stored();
            assert(before.walls.skip(seen) =~= Seq::empty());
            assert(before.walls.take(seen) =~= before.walls);
            assert(self@.walls =~= before.walls.filter(standing()));
        }
    }

    /// Draws a frame into `out` and takes what the frame showed as spent
    /// out of storage. `fps` is the measured rate of frames, for the status
    /// line, which also shows the size of the engine in memory.
    pub fn draw(&mut self, out: &mut Vec<u8>, fps: i32)
        requires
            old(self)@.wf(),
        ensures
            final(out)@ == old(out)@ + old(self)@.frame(
                vstd::layout::size_of::<Game>() as usize,
                fps,
            ),
            final(self)@ == old(self)@.compacted(),
            final(self)@.wf(),
    {
        self.draw_frame(out, fps);
        self.sweep_bullets();
        self.sweep_walls();
    }

    /// Draws a frame into `out`: ship, enemies, walls, bullets, the status
    /// line and, if the game is over, the message.
    fn draw_frame(&self, out: &mut Vec<u8>, fps: i32)
        requires
            self@.wf(),
        ensures
            final(out)@ == old(out)@ + self@.frame(vstd::layout::size_of::<Game>() as usize, fps),
    {
        let ghost ship = self@.player.rendering();
        let ghost swarm = render_enemies(self@.enemies);
        let ghost blocks = render_walls(self@.walls);
        let ghost shots = render_bullets(self@.bullets);
        let ghost row = goto_code(1, (self@.height + 5) as u16);
        let ghost status = status_line(
            self@.enemies_left,
            vstd::layout::size_of::<Game>() as usize,
            fps,
            self@.player.lives,
        );
        let ghost message = if self@.game_over {
            centred(self@.width, self@.height, game_over_text())
        } else {
            Seq::empty()
        };
        self.draw_player(out);
        self.draw_enemies(out);
        proof {
            lemma_append_twice(old(out)@, ship, swarm);
        }
        self.draw_walls(out);
        proof {
            lemma_append_twice(old(out)@, ship + swarm, blocks);
        }
        self.draw_bullets(out);
        proof {
            lemma_append_twice(old(out)@, ship + swarm + blocks, shots);
        }
        self.draw_status(out, fps);
        proof {
            lemma_append_twice(old(out)@, ship + swarm + blocks + shots, row);
            lemma_append_twice(old(out)@, ship + swarm + blocks + shots + row, status);
        }
        if self.game_over {
            proof {
                lemma_game_over_text();
            }
            self.draw_message(GAME_OVER, out);
        } else {
            assert(out@ + message =~= out@);
        }
        proof {
            lemma_append_twice(
                old(out)@,
                ship + swarm + blocks + shots + row + status,
                message,
            );
        }
    }

    /// Writes the status line: enemies left, size in memory, frames per
    /// second, lives.
    fn draw_status(&self, out: &mut Vec<u8>, fps: i32)
        requires
            self@.inv(),
        ensures
            final(out)@ == old(out)@ + goto_code(1, (self@.height + 5) as u16) + status_line(
                self@.enemies_left,
                vstd::layout::size_of::<Game>() as usize,
                fps,
                self@.player.lives,
            ),
    {
        push_goto(out, 1, self.height + 5);
        push_text(out, "Enemies left: ");
        push_decimal(out, self.enemies_size as u64);
        push_text(out, ", Total mem: ");
        push_decimal(out, std::mem::size_of::<Game>() as u64);
        push_text(out, ", FPS: ");
        push_signed_decimal(out, fps);
        push_text(out, ", lives: ");
        push_decimal(out, self.player.get_lives() as u64);
        proof {
            assert(final(out)@ =~= old(out)@ + goto_code(1, (self@.height + 5) as u16)
                + status_line(
                self@.enemies_left,
                vstd::layout::size_of::<Game>() as usize,
                fps,
                self@.player.lives,
            ));
        }
    }

    /// The width of the arena.
    pub fn width(&self) -> (width: u16)
        ensures
            width == self@.width,
    {
        self.width
    }

    /// The height of the arena.
    pub fn height(&self) -> (height: u16)
        ensures
            height == self@.height,
    {
        self.height
    }

    /// Whether the player has lost the last life.
    pub fn is_game_over(&self) -> (over: bool)
        ensures
            over == self@.game_over,
    {
        self.game_over
    }

    /// The number of enemies left to destroy.
    pub fn enemies_left(&self) -> (left: usize)
        ensures
            left == self@.enemies_left,
    {
        self.enemies_size
    }

    /// The step of the swarm's cycle that the last heartbeat took.
    pub fn step(&self) -> (step: i32)
        ensures
            step == self@.step,
    {
        self.iter
    }

    /// The ship.
    pub fn player(&self) -> (player: &Player)
        ensures
            player@ == self@.player,
    {
        &self.player
    }

    /// The enemies in storage, dead ones among them.
    pub fn enemies(&self) -> (enemies: &Vec<Enemy>)
        ensures
            enemies@.len() == self@.enemies.len(),
            forall|i: int| 0 <= i < enemies@.len() ==> (#[trigger] enemies@[i])@ == self@.enemies[i],
    {
        &self.enemies
    }

    /// The bullets in storage.
    pub fn bullets(&self) -> (bullets: &Vec<Bullet>)
        ensures
            bullets@.len() == self@.bullets.len(),
            forall|i: int| 0 <= i < bullets@.len() ==> (#[trigger] bullets@[i])@ == self@.bullets[i],
    {
        &self.bullets
    }

    /// The blocks of inner wall in storage.
    pub fn walls(&self) -> (walls: &Vec<Wall>)
        ensures
            walls@.len() == self@.walls.len(),
            forall|i: int| 0 <= i < walls@.len() ==> (#[trigger] walls@[i])@ == self@.walls[i],
    {
        &self.walls
    }

    /// The number of frames a second the game asks to be run at.
    pub fn get_speed(&self) -> (speed: u64)
        ensures
            speed == self@.speed,
    {
        self.speed
    }

    /// Sets the number of frames a second the game asks to be run at.
    pub fn set_speed(&mut self, speed: u64)
        ensures
            final(self)@ == (GameView { speed, ..old(self)@ }),
    {
        self.speed = speed;
    }

    /// Marks the game as running or not. Nothing else changes: a paused
    /// game resumes where it stopped.
    pub fn set_start(&mut self, is_started: bool)
        ensures
            final(self)@ == (GameView { started: is_started, ..old(self)@ }),
    {
        self.is_started = is_started;
    }

    /// Whether the game is running.
    pub fn is_started(&self) -> (started: bool)
        ensures
            started == self@.started,
    {
        self.is_started
    }

    /// Steers the ship: `z` moves it one column left, `x` one column right,
    /// each only while the ship is more than three columns from that edge.
    /// Any other key, no key and a failed read do nothing.
    pub fn key_pressed(&mut self, key: &Option<Result<u8, std::io::Error>>)
        requires
            old(self)@.wf(),
        ensures
            final(self)@ == old(self)@.after_key(key_of(*key)),
            final(self)@.wf(),
    {
        let (x, y) = self.player.get_position();
        match key {
            Some(Ok(byte)) => {
                if *byte == 122u8 {
                    if x > 3 {
                        self.player.move_object(x - 1, y);
                    }
                } else if *byte == 120u8 {
                    if x < self.width - 3 {
                        self.player.move_object(x + 1, y);
                    }
                }
            },
            _ => {},
        }
    }
}

} // verus!
