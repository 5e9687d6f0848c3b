//! The state of a game as plain values, and what each operation of the
//! engine makes of it.
//!
//! Everything here is mathematics: the engine's contracts say that the state
//! after a call is one of these functions of the state before it.

use crate::objects::bullet::{BulletDirection, BulletView};
use crate::objects::enemy::{EnemyView, FIRST_VISIBLE_ROW};
use crate::objects::game_object_trait::collides;
use crate::objects::player::{damaged_glyph, PlayerView, FULL_LIVES};
use crate::objects::wall::WallView;
use crate::screen::{decimal, goto_code, signed_decimal, utf8};
use vstd::prelude::*;

verus! {

/// Time units between two heartbeats.
pub const HEARTBEAT: u128 = 1500;

/// The step at which the swarm descends and the counter starts over.
pub const LAST_STEP: i32 = 10;

/// Rows of the lattice the swarm is laid out in.
pub const LATTICE_ROWS: u16 = 6;

/// Hit points of a block of the inner wall.
pub const BLOCK_LIVES: u16 = 2;

/// Ticks per second the engine asks for unless told otherwise.
pub const DEFAULT_SPEED: u64 = 120;

/// Whether the engine can lay out an arena of this size: the lattice starts
/// at column `width / 2 - 30` and ends before four times that, the inner
/// wall stands five rows above the bottom, the status line five rows below
/// it, and all of these are sixteen-bit coordinates.
pub open spec fn arena_fits(width: u16, height: u16) -> bool {
    &&& 60 <= width
    &&& (width / 2 - 30) * 4 <= u16::MAX
    &&& 5 <= height
    &&& height + 5 <= u16::MAX
}

/// Decides `arena_fits`.
pub fn arena_fits_in(width: u16, height: u16) -> (fits: bool)
    ensures
        fits == arena_fits(width, height),
{
    60 <= width && width / 2 - 30 <= u16::MAX / 4 && 5 <= height && height <= u16::MAX - 5
}

/// The column at which the lattice starts.
pub open spec fn lattice_offset(width: u16) -> int {
    width / 2 - 30
}

/// The glyph of a living enemy.
pub open spec fn enemy_glyph() -> Seq<u8> {
    utf8("\u{58e} "@)
}

/// The glyph of a bullet in flight.
pub open spec fn bullet_glyph() -> Seq<u8> {
    utf8("|"@)
}

/// The glyph of the ship with `lives` lives left.
pub open spec fn ship_glyph(lives: usize) -> Seq<u8> {
    if lives >= FULL_LIVES {
        utf8("==="@)
    } else {
        damaged_glyph(lives)
    }
}

/// The glyph of a stretch of horizontal wall.
pub open spec fn wall_glyph() -> Seq<u8> {
    utf8("="@)
}

/// The glyph of a stretch of the side borders.
pub open spec fn side_glyph() -> Seq<u8> {
    utf8("\u{1c1}"@)
}

/// The columns `from .. to` in rising order.
pub open spec fn columns(from: int, to: int) -> Seq<int> {
    Seq::new((to - from) as nat, |k: int| from + k)
}

/// The columns of `from .. to` that hold an enemy of row `row`: every third
/// one, shifted by the row.
pub open spec fn lattice_columns(from: int, to: int, row: int) -> Seq<int> {
    columns(from, to).filter(on_lattice(row))
}

/// The test for a column to hold an enemy of row `row`.
pub open spec fn on_lattice(row: int) -> spec_fn(int) -> bool {
    |j: int| (j + row) % 3 == 0
}

/// A fresh enemy of row `row` at column `j`.
pub open spec fn enemy_at(j: int, row: int) -> EnemyView {
    EnemyView { x: j as u16, y: row as u16, glyph: enemy_glyph(), alive: true, line: row as u16 }
}

/// The enemies of one row of the lattice, for the columns `from .. to`.
pub open spec fn lattice_row(from: int, to: int, row: int) -> Seq<EnemyView> {
    lattice_columns(from, to, row).map_values(|j: int| enemy_at(j, row))
}

/// Taking one more column into a row of the lattice adds an enemy there if
/// the column is on the lattice, and nothing otherwise.
pub proof fn lemma_lattice_row_next(from: int, to: int, row: int)
    requires
        from <= to,
    ensures
        lattice_row(from, to + 1, row) == if (to + row) % 3 == 0 {
            lattice_row(from, to, row).push(enemy_at(to, row))
        } else {
            lattice_row(from, to, row)
        },
        lattice_row(from, from, row) == Seq::<EnemyView>::empty(),
{
    assert(columns(from, to + 1) =~= columns(from, to).push(to));
    columns(from, to).lemma_filter_push(to, on_lattice(row));
    if (to + row) % 3 == 0 {
        assert(lattice_row(from, to + 1, row) =~= lattice_row(from, to, row).push(
            enemy_at(to, row),
        ));
    }
    assert(columns(from, from) =~= Seq::<int>::empty());
    assert(Seq::<int>::empty().filter(on_lattice(row)) =~= Seq::<int>::empty()) by {
        reveal(Seq::filter);
    }
    assert(lattice_row(from, from, row) =~= Seq::<EnemyView>::empty());
}

/// The first `rows` rows of the lattice that starts at column `offset`, row
/// after row.
pub open spec fn lattice(offset: int, rows: int) -> Seq<EnemyView>
    decreases rows,
{
    if rows <= 0 {
        Seq::empty()
    } else {
        lattice(offset, rows - 1) + lattice_row(offset, 4 * offset, rows - 1)
    }
}

/// The blocks of the inner wall for the columns `2 .. to`.
pub open spec fn wall_row(to: int, height: u16) -> Seq<WallView> {
    Seq::new(
        (to - 2) as nat,
        |k: int|
            WallView {
                x: (2 + k) as u16,
                y: (height - 5) as u16,
                lives: BLOCK_LIVES,
                glyph: wall_glyph(),
            },
    )
}

/// A piece of border: the cursor movement to its cell, then its glyph.
pub open spec fn border_piece(x: u16, y: u16, glyph: Seq<u8>) -> Seq<u8> {
    goto_code(x, y) + glyph
}

/// The top and bottom borders for the columns `2 .. to`: for each column the
/// piece on row 1, then the piece on row `height`.
pub open spec fn horizontal_border(to: int, height: u16) -> Seq<u8>
    decreases to,
{
    if to <= 2 {
        Seq::empty()
    } else {
        horizontal_border(to - 1, height) + border_piece((to - 1) as u16, 1, wall_glyph())
            + border_piece((to - 1) as u16, height, wall_glyph())
    }
}

/// The side borders for the rows `0 .. to`: for each row the piece at column
/// 2, then the piece at column `width`.
pub open spec fn vertical_border(to: int, width: u16) -> Seq<u8>
    decreases to,
{
    if to <= 0 {
        Seq::empty()
    } else {
        vertical_border(to - 1, width) + border_piece(2, (to - 1) as u16, side_glyph())
            + border_piece(width, (to - 1) as u16, side_glyph())
    }
}

/// The bytes that draw the border of an arena: top and bottom, then the
/// sides.
pub open spec fn border(width: u16, height: u16) -> Seq<u8> {
    horizontal_border(width as int, height) + vertical_border(height as int, width)
}

/// The bytes that draw the enemies, in the order they are stored.
pub open spec fn render_enemies(enemies: Seq<EnemyView>) -> Seq<u8>
    decreases enemies.len(),
{
    if enemies.len() == 0 {
        Seq::empty()
    } else {
        render_enemies(enemies.drop_last()) + enemies.last().rendering()
    }
}

/// The bytes that draw the walls, in the order they are stored.
pub open spec fn render_walls(walls: Seq<WallView>) -> Seq<u8>
    decreases walls.len(),
{
    if walls.len() == 0 {
        Seq::empty()
    } else {
        render_walls(walls.drop_last()) + walls.last().rendering()
    }
}

/// The bytes that draw the bullets, in the order they are stored.
pub open spec fn render_bullets(bullets: Seq<BulletView>) -> Seq<u8>
    decreases bullets.len(),
{
    if bullets.len() == 0 {
        Seq::empty()
    } else {
        render_bullets(bullets.drop_last()) + bullets.last().rendering()
    }
}

/// The text of the status line: the enemies left, the size of the engine in
/// memory, the frames per second and the lives left.
pub open spec fn status_line(enemies_left: usize, mem: usize, fps: i32, lives: usize) -> Seq<u8> {
    utf8("Enemies left: "@) + decimal(enemies_left as nat) + utf8(", Total mem: "@) + decimal(
        mem as nat,
    ) + utf8(", FPS: "@) + signed_decimal(fps as int) + utf8(", lives: "@) + decimal(lives as nat)
}

/// The text shown over the arena once the game is over.
pub open spec fn game_over_text() -> Seq<u8> {
    utf8("Game Over! Want to try again? Y/N"@)
}

/// A message centred in the arena: the cursor goes to the middle row, half
/// the message's length left of the middle column.
pub open spec fn centred(width: u16, height: u16, message: Seq<u8>) -> Seq<u8> {
    goto_code((width / 2 - message.len() / 2) as u16, height / 2) + message
}

/// The test for a bullet to be in flight.
pub open spec fn flying() -> spec_fn(BulletView) -> bool {
    |b: BulletView| b.alive
}

/// The test for a wall to stand.
pub open spec fn standing() -> spec_fn(WallView) -> bool {
    |w: WallView| w.alive()
}

/// Filtering one more element keeps it if it passes the test.
pub proof fn lemma_filter_next<A>(s: Seq<A>, keep: spec_fn(A) -> bool, i: int)
    requires
        0 <= i < s.len(),
    ensures
        s.take(i + 1).filter(keep) == if keep(s[i]) {
            s.take(i).filter(keep).push(s[i])
        } else {
            s.take(i).filter(keep)
        },
        s.take(0).filter(keep) == Seq::<A>::empty(),
        s.take(s.len() as int) == s,
{
    assert(s.take(i + 1) =~= s.take(i).push(s[i]));
    s.take(i).lemma_filter_push(s[i], keep);
    assert(s.take(0).filter(keep) =~= Seq::<A>::empty()) by {
        reveal(Seq::filter);
    }
    assert(s.take(s.len() as int) =~= s);
}

/// How far the swarm moves at a step, as `(dx, dy)`: left during steps 0 to
/// 4, right during 5 to 8, not at all at 9, and down at 10.
pub open spec fn swarm_shift(step: int) -> (int, int) {
    if 0 <= step <= 4 {
        (-1, 0)
    } else if 5 <= step <= 8 {
        (1, 0)
    } else if step == LAST_STEP {
        (0, 1)
    } else {
        (0, 0)
    }
}

/// Whether the enemy stays on sixteen-bit coordinates when it moves with the
/// swarm at `step`.
pub open spec fn can_shift(e: EnemyView, step: int) -> bool {
    &&& 0 <= e.x + swarm_shift(step).0 <= u16::MAX
    &&& 0 <= e.y + swarm_shift(step).1 <= u16::MAX
}

/// The enemy after moving with the swarm at `step`.
pub open spec fn shifted(e: EnemyView, step: int) -> EnemyView {
    e.moved((e.x + swarm_shift(step).0) as u16, (e.y + swarm_shift(step).1) as u16)
}

/// Whether an enemy may fire: it is alive and has reached the first visible
/// row.
pub open spec fn qualifies(e: EnemyView) -> bool {
    e.alive && e.y >= FIRST_VISIBLE_ROW
}

/// The enemies that may fire, in the order they are stored.
pub open spec fn shooters(enemies: Seq<EnemyView>) -> Seq<EnemyView> {
    enemies.filter(may_fire())
}

/// `qualifies` as a test to filter by.
pub open spec fn may_fire() -> spec_fn(EnemyView) -> bool {
    |e: EnemyView| qualifies(e)
}

/// The test for an enemy to be alive.
pub open spec fn living() -> spec_fn(EnemyView) -> bool {
    |e: EnemyView| e.alive
}

/// The number of enemies that are alive.
pub open spec fn alive_count(enemies: Seq<EnemyView>) -> nat {
    enemies.filter(living()).len()
}

/// One more enemy raises the number of the living by one if it is alive.
pub proof fn lemma_alive_count_push(enemies: Seq<EnemyView>, e: EnemyView)
    ensures
        alive_count(enemies.push(e)) == alive_count(enemies) + if e.alive {
            1nat
        } else {
            0nat
        },
        alive_count(enemies) <= enemies.len(),
        alive_count(Seq::empty()) == 0,
{
    enemies.lemma_filter_push(e, living());
    enemies.lemma_filter_len(living());
    assert(Seq::<EnemyView>::empty().filter(living()).len() == 0) by {
        reveal(Seq::filter);
    }
}

/// Replacing one enemy changes the number of the living by what the two
/// differ in.
pub proof fn lemma_alive_count_update(enemies: Seq<EnemyView>, i: int, e: EnemyView)
    requires
        0 <= i < enemies.len(),
    ensures
        alive_count(enemies.update(i, e)) + (if enemies[i].alive {
            1nat
        } else {
            0nat
        }) == alive_count(enemies) + (if e.alive {
            1nat
        } else {
            0nat
        }),
    decreases enemies.len(),
{
    let front = enemies.drop_last();
    assert(enemies =~= front.push(enemies.last()));
    lemma_alive_count_push(front, enemies.last());
    if i == enemies.len() - 1 {
        assert(enemies.update(i, e) =~= front.push(e));
        lemma_alive_count_push(front, e);
    } else {
        assert(enemies.update(i, e) =~= front.update(i, e).push(enemies.last()));
        lemma_alive_count_push(front.update(i, e), enemies.last());
        lemma_alive_count_update(front, i, e);
    }
}

/// Two swarms whose members agree, place by place, on being alive have the
/// same number of living.
pub proof fn lemma_alive_count_same(a: Seq<EnemyView>, b: Seq<EnemyView>)
    requires
        a.len() == b.len(),
        forall|i: int| 0 <= i < a.len() ==> a[i].alive == b[i].alive,
    ensures
        alive_count(a) == alive_count(b),
    decreases a.len(),
{
    if a.len() == 0 {
        assert(a =~= b);
    } else {
        assert(a =~= a.drop_last().push(a.last()));
        assert(b =~= b.drop_last().push(b.last()));
        lemma_alive_count_push(a.drop_last(), a.last());
        lemma_alive_count_push(b.drop_last(), b.last());
        lemma_alive_count_same(a.drop_last(), b.drop_last());
    }
}

/// Among the enemies that may fire, the one that comes after `shooters` of
/// the first `i` enemies is enemy `i`, if that one may fire.
pub proof fn lemma_shooter_found(enemies: Seq<EnemyView>, i: int)
    requires
        0 <= i < enemies.len(),
    ensures
        shooters(enemies.take(i + 1)) == if qualifies(enemies[i]) {
            shooters(enemies.take(i)).push(enemies[i])
        } else {
            shooters(enemies.take(i))
        },
        shooters(enemies.take(i)).len() <= shooters(enemies).len(),
        qualifies(enemies[i]) ==> shooters(enemies.take(i)).len() < shooters(enemies).len()
            && shooters(enemies)[shooters(enemies.take(i)).len() as int] == enemies[i],
{
    let head = enemies.take(i + 1);
    let tail = enemies.skip(i + 1);
    assert(head =~= enemies.take(i).push(enemies[i]));
    enemies.take(i).lemma_filter_push(enemies[i], may_fire());
    assert(enemies =~= head + tail);
    Seq::filter_distributes_over_add(head, tail, may_fire());
}

/// None of no enemies may fire, and the enemies taken whole are all of
/// them.
pub proof fn lemma_shooters_ends(enemies: Seq<EnemyView>)
    ensures
        shooters(enemies.take(0)).len() == 0,
        shooters(enemies.take(enemies.len() as int)) == shooters(enemies),
{
    assert(enemies.take(0).filter(may_fire()).len() == 0) by {
        reveal(Seq::filter);
    }
    assert(enemies.take(enemies.len() as int) =~= enemies);
}

/// The bullet an enemy fires: one cell below it, going down.
pub open spec fn enemy_bullet(e: EnemyView) -> BulletView {
    BulletView {
        x: e.x,
        y: (e.y + 1) as u16,
        glyph: bullet_glyph(),
        alive: true,
        direction: BulletDirection::Down,
    }
}

/// The bullet the player fires: two columns to the right of the ship's
/// corner and one row above it, going up.
pub open spec fn player_bullet(p: PlayerView) -> BulletView {
    BulletView {
        x: (p.x + 2) as u16,
        y: (p.y - 1) as u16,
        glyph: bullet_glyph(),
        alive: true,
        direction: BulletDirection::Up,
    }
}

/// The ship as it enters an arena: full lives, in the middle of the row
/// above the bottom border.
pub open spec fn fresh_player(width: u16, height: u16) -> PlayerView {
    PlayerView {
        x: (width / 2 - 1) as u16,
        y: (height - 1) as u16,
        lives: FULL_LIVES,
        glyph: ship_glyph(FULL_LIVES),
    }
}

/// The index of the first living enemy at or after `from` in whose region
/// the probe lies, or the number of enemies if there is none.
pub open spec fn first_hit(probe: (u16, u16, u16, u16), enemies: Seq<EnemyView>, from: int) -> int
    decreases enemies.len() - from,
{
    if from < 0 || from >= enemies.len() {
        enemies.len() as int
    } else if enemies[from].alive && collides(probe, enemies[from].footprint()) {
        from
    } else {
        first_hit(probe, enemies, from + 1)
    }
}

/// What `first_hit` finds is a living enemy that the probe lies in, and
/// none before it is one.
pub proof fn lemma_first_hit(probe: (u16, u16, u16, u16), enemies: Seq<EnemyView>, from: int)
    requires
        0 <= from,
    ensures
        first_hit(probe, enemies, from) <= enemies.len(),
        first_hit(probe, enemies, from) < enemies.len() ==> from <= first_hit(probe, enemies, from)
            && enemies[first_hit(probe, enemies, from)].alive && collides(
            probe,
            enemies[first_hit(probe, enemies, from)].footprint(),
        ),
        forall|i: int|
            from <= i < first_hit(probe, enemies, from) ==> !((#[trigger] enemies[i]).alive
                && collides(probe, enemies[i].footprint())),
    decreases enemies.len() - from,
{
    if from < enemies.len() && !(enemies[from].alive && collides(probe, enemies[from].footprint())) {
        lemma_first_hit(probe, enemies, from + 1);
    }
}

/// The state of a game.
pub struct GameView {
    pub width: u16,
    pub height: u16,
    pub game_over: bool,
    pub player: PlayerView,
    pub enemies: Seq<EnemyView>,
    pub bullets: Seq<BulletView>,
    pub walls: Seq<WallView>,
    pub started: bool,
    pub speed: u64,
    pub step: i32,
    pub enemies_left: usize,
}

impl GameView {
    /// What holds of a game at every moment, also in the middle of a
    /// heartbeat: the arena fits, the counter of enemies left is the number
    /// of living enemies, the game is over exactly when the player has no
    /// life left, the ship shows its lives and stays on its row between the
    /// side margins, every bullet is in play, and every block of the inner
    /// wall stands on its row between the side borders.
    pub open spec fn inv(self) -> bool {
        &&& arena_fits(self.width, self.height)
        &&& 0 <= self.step <= LAST_STEP
        &&& self.enemies_left == alive_count(self.enemies)
        &&& self.game_over == !self.player.alive()
        &&& self.player.lives <= FULL_LIVES
        &&& self.player.glyph == ship_glyph(self.player.lives)
        &&& 3 <= self.player.x <= self.width - 3
        &&& self.player.y == self.height - 1
        &&& forall|k: int|
            0 <= k < self.bullets.len() ==> (#[trigger] self.bullets[k]).in_play(
                self.width,
                self.height,
            )
        &&& forall|j: int|
            0 <= j < self.walls.len() ==> 2 <= (#[trigger] self.walls[j]).x < self.width
                && self.walls[j].y == self.height - 5
    }

    /// What holds of a game between two calls: `inv`, and the step counter
    /// has been wound back if it reached its last step.
    pub open spec fn wf(self) -> bool {
        &&& self.inv()
        &&& self.step < LAST_STEP
    }

    /// A new game in an arena of the given size: nothing on the grid but the
    /// ship, not started, at the default speed.
    pub open spec fn fresh(width: u16, height: u16) -> GameView {
        GameView {
            width,
            height,
            game_over: false,
            player: fresh_player(width, height),
            enemies: Seq::empty(),
            bullets: Seq::empty(),
            walls: Seq::empty(),
            started: false,
            speed: DEFAULT_SPEED,
            step: 0,
            enemies_left: 0,
        }
    }

    /// The game with a fresh swarm added to the enemies it holds, and
    /// counted among those left.
    pub open spec fn spawned(self) -> GameView {
        let swarm = lattice(lattice_offset(self.width), LATTICE_ROWS as int);
        GameView {
            enemies: self.enemies + swarm,
            enemies_left: (self.enemies_left + swarm.len()) as usize,
            ..self
        }
    }

    /// The game with a fresh inner wall added to the walls it holds: one
    /// block for each column from 2 up to the right border.
    pub open spec fn walled(self) -> GameView {
        GameView { walls: self.walls + wall_row(self.width as int, self.height), ..self }
    }

    /// The game with the grid cleared for another round: no enemies, no
    /// bullets, a fresh ship, the step counter at 0, and not over. Walls
    /// stay as they are.
    pub open spec fn cleared(self) -> GameView {
        GameView {
            enemies: Seq::empty(),
            bullets: Seq::empty(),
            game_over: false,
            player: fresh_player(self.width, self.height),
            step: 0,
            enemies_left: 0,
            ..self
        }
    }

    /// Whether every enemy that may fire has a row below it to fire into.
    pub open spec fn shooters_have_room(self) -> bool {
        forall|i: int|
            0 <= i < self.enemies.len() && qualifies(#[trigger] self.enemies[i])
                ==> self.enemies[i].y < u16::MAX
    }

    /// Whether every enemy stays on the coordinates when the swarm moves at
    /// the current step.
    pub open spec fn swarm_can_move(self) -> bool {
        forall|i: int|
            0 <= i < self.enemies.len() ==> can_shift(#[trigger] self.enemies[i], self.step as int)
    }

    /// The game after every enemy, dead or alive, has moved with the swarm
    /// at the current step.
    pub open spec fn swarm_moved(self) -> GameView {
        GameView { enemies: self.enemies.map_values(|e: EnemyView| shifted(e, self.step as int)), ..self }
    }

    /// The game after the player has fired, which a dead player does not.
    pub open spec fn with_player_bullet(self) -> GameView {
        if self.player.alive() {
            GameView { bullets: self.bullets.push(player_bullet(self.player)), ..self }
        } else {
            self
        }
    }

    /// The game after the enemy at place `pick` among those that may fire
    /// has fired. Where there is no such place, nobody fires.
    pub open spec fn with_enemy_bullet(self, pick: int) -> GameView {
        if 0 <= pick < shooters(self.enemies).len() {
            GameView { bullets: self.bullets.push(enemy_bullet(shooters(self.enemies)[pick])), ..self }
        } else {
            self
        }
    }

    /// The game after the step counter has gone up by one and the swarm has
    /// moved at that step.
    pub open spec fn stepped(self) -> GameView {
        (GameView { step: (self.step + 1) as i32, ..self }).swarm_moved()
    }

    /// The game with a step counter that has reached the last step wound
    /// back to 0.
    pub open spec fn wound(self) -> GameView {
        GameView { step: if self.step == LAST_STEP { 0 } else { self.step }, ..self }
    }

    /// Whether a heartbeat can take place: every enemy stays on the
    /// coordinates when the swarm moves at the next step, and every enemy
    /// that may fire afterwards has a row below it.
    pub open spec fn swarm_has_room(self) -> bool {
        &&& (GameView { step: (self.step + 1) as i32, ..self }).swarm_can_move()
        &&& self.stepped().shooters_have_room()
    }

    /// The step counter after an update: one further in the cycle if a
    /// heartbeat was due, and as it was otherwise.
    pub open spec fn next_step(self, dt: u128) -> int {
        if dt < HEARTBEAT {
            self.step as int
        } else if self.step + 1 == LAST_STEP {
            0
        } else {
            self.step + 1
        }
    }

    /// The number of enemies to pick from in a heartbeat: those that may
    /// fire once the swarm has moved.
    pub open spec fn picks(self) -> nat {
        shooters(self.stepped().enemies).len()
    }

    /// The slow part of an update: the step counter goes up by one, the
    /// swarm moves at that step, the player fires, the picked enemy fires,
    /// and a counter that has reached the last step starts over.
    pub open spec fn beat(self, pick: int) -> GameView {
        self.stepped().with_player_bullet().with_enemy_bullet(pick).wound()
    }

    /// Whether two states agree on what the flight of bullets leaves alone:
    /// the arena, the step counter, speed and started flag, the position of
    /// the ship, and how many enemies, bullets and walls are stored.
    pub open spec fn same_setting(self, other: GameView) -> bool {
        &&& self.width == other.width
        &&& self.height == other.height
        &&& self.step == other.step
        &&& self.speed == other.speed
        &&& self.started == other.started
        &&& self.player.x == other.player.x
        &&& self.player.y == other.player.y
        &&& self.enemies.len() == other.enemies.len()
        &&& self.bullets.len() == other.bullets.len()
        &&& self.walls.len() == other.walls.len()
    }

    /// The game with bullet `k` replaced.
    pub open spec fn with_bullet(self, k: int, b: BulletView) -> GameView {
        GameView { bullets: self.bullets.update(k, b), ..self }
    }

    /// Bullet `k` after its flight of one tick. A bullet going up moves one
    /// row up while it is on row 3 or below, and is spent above that. A
    /// bullet going down is spent once it is past row `height - 2`, and
    /// moves one row down before that.
    pub open spec fn flown(self, k: int) -> BulletView {
        let b = self.bullets[k];
        match b.direction {
            BulletDirection::Up => if b.y >= 3 {
                b.moved(b.x, (b.y - 1) as u16)
            } else {
                b.destroyed()
            },
            BulletDirection::Down => if b.y > self.height - 2 {
                b.destroyed()
            } else {
                b.moved(b.x, (b.y + 1) as u16)
            },
        }
    }

    /// The game after bullet `k`, if alive, has been tested against the
    /// enemies: the first living enemy it lies in is destroyed with it, and
    /// the counter of enemies left goes down by one.
    pub open spec fn after_enemy_strike(self, k: int) -> GameView {
        let b = self.bullets[k];
        let i = first_hit(b.footprint(), self.enemies, 0);
        if b.alive && i < self.enemies.len() {
            GameView {
                bullets: self.bullets.update(k, b.destroyed()),
                enemies: self.enemies.update(i, self.enemies[i].destroyed()),
                enemies_left: (self.enemies_left - 1) as usize,
                ..self
            }
        } else {
            self
        }
    }

    /// The game after bullet `k`, if alive, has been tested against the
    /// player: if it lies in the ship, it is spent, the player takes one
    /// hit, and the game is over exactly if that was the last life.
    pub open spec fn after_player_strike(self, k: int) -> GameView {
        let b = self.bullets[k];
        if b.alive && collides(b.footprint(), self.player.footprint()) {
            let player = self.player.destroyed();
            GameView {
                bullets: self.bullets.update(k, b.destroyed()),
                player,
                game_over: !player.alive(),
                ..self
            }
        } else {
            self
        }
    }

    /// Whether the probe lies in one of the first `n` walls.
    pub open spec fn hits_wall(self, probe: (u16, u16, u16, u16), n: int) -> bool {
        exists|j: int| 0 <= j < n && j < self.walls.len() && collides(probe, (#[trigger] self.walls[j]).footprint())
    }

    /// The game after bullet `k`, dead or alive, has been tested against
    /// every wall: each wall it lies in takes one hit, and if there is one,
    /// the bullet is spent.
    pub open spec fn after_wall_strike(self, k: int) -> GameView {
        let probe = self.bullets[k].footprint();
        GameView {
            bullets: if self.hits_wall(probe, self.walls.len() as int) {
                self.bullets.update(k, self.bullets[k].destroyed())
            } else {
                self.bullets
            },
            walls: self.walls.map_values(
                |w: WallView|
                    if collides(probe, w.footprint()) {
                        w.destroyed()
                    } else {
                        w
                    },
            ),
            ..self
        }
    }

    /// The game after the tick of bullet `k`. A spent bullet is passed
    /// over. A live one flies; then one going up is tested against the
    /// enemies and one going down against the player; then, even if it has
    /// been spent on the way, it is tested against the walls.
    pub open spec fn advance_bullet(self, k: int) -> GameView {
        let b = self.bullets[k];
        if !b.alive {
            self
        } else {
            let flown = self.with_bullet(k, self.flown(k));
            let struck = match b.direction {
                BulletDirection::Up => flown.after_enemy_strike(k),
                BulletDirection::Down => flown.after_player_strike(k),
            };
            struck.after_wall_strike(k)
        }
    }

    /// The game after the ticks of the first `n` bullets, in the order they
    /// are stored.
    pub open spec fn advanced_to(self, n: int) -> GameView
        decreases n,
    {
        if n <= 0 {
            self
        } else {
            self.advanced_to(n - 1).advance_bullet(n - 1)
        }
    }

    /// The fast part of an update: the tick of every bullet.
    pub open spec fn advanced(self) -> GameView {
        self.advanced_to(self.bullets.len() as int)
    }

    /// The game after an update: a heartbeat if the time since the last one
    /// has reached the threshold, then the tick of every bullet.
    pub open spec fn updated(self, dt: u128, pick: int) -> GameView {
        if dt >= HEARTBEAT {
            self.beat(pick).advanced()
        } else {
            self.advanced()
        }
    }

    /// The bytes of a frame: the ship, the enemies, the walls and the
    /// bullets, each as it draws itself; then the status line, five rows
    /// below the arena; then, if the game is over, the message in the
    /// middle. `mem` and `fps` are the figures for the status line.
    pub open spec fn frame(self, mem: usize, fps: i32) -> Seq<u8> {
        self.player.rendering() + render_enemies(self.enemies) + render_walls(self.walls)
            + render_bullets(self.bullets) + goto_code(1, (self.height + 5) as u16) + status_line(
            self.enemies_left,
            mem,
            fps,
            self.player.lives,
        ) + if self.game_over {
            centred(self.width, self.height, game_over_text())
        } else {
            Seq::empty()
        }
    }

    /// The game after a frame was drawn: spent bullets and fallen walls
    /// are gone from storage, in the order the others were in. Dead
    /// enemies stay.
    pub open spec fn compacted(self) -> GameView {
        GameView {
            bullets: self.bullets.filter(flying()),
            walls: self.walls.filter(standing()),
            ..self
        }
    }

    /// The game after a key: `z` moves the ship one column left unless its
    /// corner is within three columns of the left edge, `x` one column right
    /// unless it is within three columns of the right edge; nothing else
    /// does anything.
    pub open spec fn after_key(self, key: Option<u8>) -> GameView {
        if key == Some(122u8) && self.player.x > 3 {
            GameView { player: self.player.moved((self.player.x - 1) as u16, self.player.y), ..self }
        } else if key == Some(120u8) && self.player.x < self.width - 3 {
            GameView { player: self.player.moved((self.player.x + 1) as u16, self.player.y), ..self }
        } else {
            self
        }
    }
}

} // verus!
