//! What the rules of the engine add up to.
//!
//! The engine's contracts say that a call turns the state into a given
//! function of it. The laws here say what those functions do to the things a
//! player cares about: kills are counted, bullets fly straight, lives only
//! fall, the swarm keeps its cycle.

use crate::objects::bullet::{BulletDirection, BulletView};
use crate::objects::enemy::EnemyView;
use crate::objects::game_object_trait::collides;
use crate::objects::player::FULL_LIVES;
use crate::state::{
    alive_count, can_shift, columns, enemy_at, enemy_bullet, first_hit, fresh_player, lattice, lattice_columns, lattice_offset, lattice_row,
    lemma_alive_count_push, lemma_alive_count_same, lemma_alive_count_update, lemma_first_hit,
    may_fire, on_lattice, qualifies, shifted, ship_glyph, shooters, GameView, HEARTBEAT,
    LAST_STEP, LATTICE_ROWS,
};
use vstd::prelude::*;

verus! {

/// What a tick of bullets may do to an enemy: nothing, or destroy it if it
/// was alive.
pub open spec fn kept_or_shot(before: EnemyView, after: EnemyView) -> bool {
    after == before || (before.alive && after == before.destroyed())
}

/// The number of places at which an enemy was alive before and is not after.
pub open spec fn deaths(before: Seq<EnemyView>, after: Seq<EnemyView>) -> nat
    decreases before.len(),
{
    if before.len() == 0 || before.len() != after.len() {
        0
    } else {
        deaths(before.drop_last(), after.drop_last()) + if before.last().alive
            && !after.last().alive {
            1nat
        } else {
            0nat
        }
    }
}

/// What a tick does to a bullet: a spent one is left as it is; one that is
/// still in flight afterwards has moved exactly one row, up or down as its
/// direction says, in its column.
pub open spec fn ticked(before: BulletView, after: BulletView) -> bool {
    &&& after.x == before.x
    &&& after.direction == before.direction
    &&& !before.alive ==> after == before
    &&& after.alive ==> before.alive && after.glyph == before.glyph && after.y == match before.direction {
        BulletDirection::Up => before.y - 1,
        BulletDirection::Down => before.y + 1,
    }
}

/// Where no enemy comes back to life, the living before are the living
/// after and the dead between.
proof fn lemma_deaths_count(a: Seq<EnemyView>, b: Seq<EnemyView>)
    requires
        a.len() == b.len(),
        forall|i: int| 0 <= i < a.len() ==> (#[trigger] b[i]).alive ==> a[i].alive,
    ensures
        alive_count(a) == alive_count(b) + deaths(a, b),
    decreases a.len(),
{
    if a.len() == 0 {
        assert(a =~= b);
    } else {
        assert(a =~= a.drop_last().push(a.last()));
        assert(b =~= b.drop_last().push(b.last()));
        lemma_alive_count_push(a.drop_last(), a.last());
        lemma_alive_count_push(b.drop_last(), b.last());
        assert(b[a.len() - 1].alive ==> a[a.len() - 1].alive);
        assert forall|i: int| 0 <= i < a.drop_last().len() && (
        #[trigger] b.drop_last()[i]).alive implies a.drop_last()[i].alive by {
            assert(b[i].alive ==> a[i].alive);
        }
        lemma_deaths_count(a.drop_last(), b.drop_last());
    }
}

/// The tick of one bullet keeps the invariant and the setting, touches no
/// other bullet, and at most destroys enemies and takes lives.
pub proof fn lemma_advance_bullet(g: GameView, k: int)
    requires
        g.inv(),
        0 <= k < g.bullets.len(),
    ensures
        ({
            let h = g.advance_bullet(k);
            &&& h.inv()
            &&& h.same_setting(g)
            &&& forall|i: int|
                0 <= i < g.enemies.len() ==> kept_or_shot(g.enemies[i], #[trigger] h.enemies[i])
            &&& forall|j: int|
                0 <= j < g.bullets.len() && j != k ==> #[trigger] h.bullets[j] == g.bullets[j]
            &&& ticked(g.bullets[k], h.bullets[k])
            &&& h.player == g.player || (g.bullets[k].direction == BulletDirection::Down
                && h.player == g.player.destroyed())
        }),
{
    let b = g.bullets[k];
    if b.alive {
        let flown = g.with_bullet(k, g.flown(k));
        assert(flown.inv());
        let struck = match b.direction {
            BulletDirection::Up => flown.after_enemy_strike(k),
            BulletDirection::Down => flown.after_player_strike(k),
        };
        let probe = flown.bullets[k].footprint();
        lemma_first_hit(probe, flown.enemies, 0);
        let target = first_hit(probe, flown.enemies, 0);
        if b.direction == BulletDirection::Up && flown.bullets[k].alive && target
            < flown.enemies.len() {
            lemma_alive_count_update(flown.enemies, target, flown.enemies[target].destroyed());
            lemma_alive_count_push(flown.enemies, flown.enemies[target]);
        }
        assert(struck.inv());
        let h = struck.after_wall_strike(k);
        assert(h == g.advance_bullet(k));
        assert(h.inv());
        assert forall|i: int| 0 <= i < g.enemies.len() implies kept_or_shot(
            g.enemies[i],
            #[trigger] h.enemies[i],
        ) by {}
    }
}

/// The ticks of the first `n` bullets keep the invariant and the setting,
/// leave the later bullets alone, and at most destroy enemies and take
/// lives.
pub proof fn lemma_advanced_to(g: GameView, n: int)
    requires
        g.inv(),
        0 <= n <= g.bullets.len(),
    ensures
        ({
            let h = g.advanced_to(n);
            &&& h.inv()
            &&& h.same_setting(g)
            &&& forall|i: int|
                0 <= i < g.enemies.len() ==> kept_or_shot(g.enemies[i], #[trigger] h.enemies[i])
            &&& forall|j: int| 0 <= j < n ==> ticked(g.bullets[j], #[trigger] h.bullets[j])
            &&& forall|j: int| n <= j < g.bullets.len() ==> #[trigger] h.bullets[j] == g.bullets[j]
            &&& h.player.lives <= g.player.lives
        }),
    decreases n,
{
    if n > 0 {
        lemma_advanced_to(g, n - 1);
        let m = g.advanced_to(n - 1);
        lemma_advance_bullet(m, n - 1);
        let h = m.advance_bullet(n - 1);
        assert forall|i: int| 0 <= i < g.enemies.len() implies kept_or_shot(
            g.enemies[i],
            #[trigger] h.enemies[i],
        ) by {
            assert(kept_or_shot(g.enemies[i], m.enemies[i]));
            assert(kept_or_shot(m.enemies[i], h.enemies[i]));
        }
        assert forall|j: int| 0 <= j < n implies ticked(g.bullets[j], #[trigger] h.bullets[j]) by {
            if j < n - 1 {
                assert(ticked(g.bullets[j], m.bullets[j]));
                assert(h.bullets[j] == m.bullets[j]);
            } else {
                assert(m.bullets[j] == g.bullets[j]);
            }
        }
    }
}

/// A heartbeat keeps a game well formed. It leaves the bullets that were
/// stored where they were, and the ship as it was.
pub proof fn lemma_beat(g: GameView, pick: int)
    requires
        g.wf(),
        g.swarm_has_room(),
    ensures
        ({
            let h = g.beat(pick);
            &&& h.wf()
            &&& h.player == g.player
            &&& h.enemies_left == g.enemies_left
            &&& h.enemies.len() == g.enemies.len()
            &&& g.bullets.len() <= h.bullets.len() <= g.bullets.len() + 2
            &&& forall|k: int| 0 <= k < g.bullets.len() ==> #[trigger] h.bullets[k] == g.bullets[k]
        }),
{
    let stepped = g.stepped();
    assert forall|i: int| 0 <= i < g.enemies.len() implies g.enemies[i].alive
        == stepped.enemies[i].alive by {}
    lemma_alive_count_same(g.enemies, stepped.enemies);
    assert(stepped.inv());
    let armed = stepped.with_player_bullet();
    assert(armed.inv());
    let fired = armed.with_enemy_bullet(pick);
    let crew = shooters(armed.enemies);
    if 0 <= pick < crew.len() {
        armed.enemies.lemma_filter_pred(may_fire(), pick);
        assert(crew.contains(crew[pick]));
        armed.enemies.lemma_filter_contains_rev(may_fire(), crew[pick]);
        let i = choose|i: int| 0 <= i < armed.enemies.len() && armed.enemies[i] == crew[pick];
        assert(qualifies(stepped.enemies[i]) ==> stepped.enemies[i].y < u16::MAX);
        assert(enemy_bullet(crew[pick]).in_play(g.width, g.height));
    }
    assert(fired.inv());
}

/// Kills are counted: over the tick of every bullet, an enemy is either left
/// as it was or goes from alive to destroyed, and the counter of enemies
/// left falls by exactly the number of enemies that died.
pub proof fn law_kills_are_counted(g: GameView)
    requires
        g.inv(),
    ensures
        g.advanced().inv(),
        g.advanced().enemies.len() == g.enemies.len(),
        forall|i: int|
            0 <= i < g.enemies.len() ==> kept_or_shot(g.enemies[i], #[trigger] g.advanced().enemies[i]),
        g.advanced().enemies_left + deaths(g.enemies, g.advanced().enemies) == g.enemies_left,
{
    lemma_advanced_to(g, g.bullets.len() as int);
    assert forall|i: int| 0 <= i < g.enemies.len() && (
    #[trigger] g.advanced().enemies[i]).alive implies g.enemies[i].alive by {
        assert(kept_or_shot(g.enemies[i], g.advanced().enemies[i]));
    }
    lemma_deaths_count(g.enemies, g.advanced().enemies);
}

/// The same over a whole update: whether or not a heartbeat takes place, no
/// enemy is added, removed or brought back to life, and the counter of
/// enemies left falls by exactly the number of enemies that died.
pub proof fn law_update_counts_kills(g: GameView, dt: u128, pick: int)
    requires
        g.wf(),
        dt >= HEARTBEAT ==> g.swarm_has_room(),
    ensures
        g.updated(dt, pick).enemies.len() == g.enemies.len(),
        forall|i: int|
            0 <= i < g.enemies.len() ==> (#[trigger] g.updated(dt, pick).enemies[i]).alive
                ==> g.enemies[i].alive,
        g.updated(dt, pick).enemies_left + deaths(g.enemies, g.updated(dt, pick).enemies)
            == g.enemies_left,
        g.updated(dt, pick).enemies_left == alive_count(g.updated(dt, pick).enemies),
{
    let h = g.updated(dt, pick);
    if dt >= HEARTBEAT {
        lemma_beat(g, pick);
        let b = g.beat(pick);
        lemma_advanced_to(b, b.bullets.len() as int);
        assert forall|i: int| 0 <= i < g.enemies.len() && (
        #[trigger] h.enemies[i]).alive implies g.enemies[i].alive by {
            assert(kept_or_shot(b.enemies[i], h.enemies[i]));
            assert(b.enemies[i] == shifted(g.enemies[i], g.step + 1));
        }
    } else {
        lemma_advanced_to(g, g.bullets.len() as int);
        assert forall|i: int| 0 <= i < g.enemies.len() && (
        #[trigger] h.enemies[i]).alive implies g.enemies[i].alive by {
            assert(kept_or_shot(g.enemies[i], h.enemies[i]));
        }
    }
    lemma_deaths_count(g.enemies, h.enemies);
}

/// One hit, one kill, one count: when a live bullet is tested against the
/// enemies and lies in a living one, the first such enemy is dead
/// afterwards, every other enemy is as it was, the bullet is spent, and the
/// counter of enemies left is lower by exactly one.
pub proof fn law_enemy_hit(g: GameView, k: int)
    requires
        g.inv(),
        0 <= k < g.bullets.len(),
        g.bullets[k].alive,
        first_hit(g.bullets[k].footprint(), g.enemies, 0) < g.enemies.len(),
    ensures
        ({
            let h = g.after_enemy_strike(k);
            let target = first_hit(g.bullets[k].footprint(), g.enemies, 0);
            &&& 0 <= target
            &&& g.enemies[target].alive
            &&& !h.enemies[target].alive
            &&& h.enemies_left == g.enemies_left - 1
            &&& !h.bullets[k].alive
            &&& forall|i: int|
                0 <= i < g.enemies.len() && i != target ==> #[trigger] h.enemies[i] == g.enemies[i]
        }),
{
    let target = first_hit(g.bullets[k].footprint(), g.enemies, 0);
    lemma_first_hit(g.bullets[k].footprint(), g.enemies, 0);
    lemma_alive_count_update(g.enemies, target, g.enemies[target].destroyed());
    lemma_alive_count_push(g.enemies, g.enemies[target]);
}

/// Bullets fly straight, one row a tick: over the tick of every bullet, none
/// is added or removed, a spent bullet is left as it is, and a bullet that
/// is still in flight afterwards is exactly one row further up or down, as
/// its direction says, in the same column.
pub proof fn law_bullets_fly_one_row(g: GameView)
    requires
        g.inv(),
    ensures
        g.advanced().bullets.len() == g.bullets.len(),
        forall|k: int|
            0 <= k < g.bullets.len() ==> ticked(g.bullets[k], #[trigger] g.advanced().bullets[k]),
{
    lemma_advanced_to(g, g.bullets.len() as int);
}

/// The same over a whole update: whether or not a heartbeat takes place,
/// every bullet that was stored before is afterwards where one tick takes
/// it, and the game is still well formed.
pub proof fn law_update_flies_bullets(g: GameView, dt: u128, pick: int)
    requires
        g.wf(),
        dt >= HEARTBEAT ==> g.swarm_has_room(),
    ensures
        g.updated(dt, pick).wf(),
        g.bullets.len() <= g.updated(dt, pick).bullets.len(),
        forall|k: int|
            0 <= k < g.bullets.len() ==> ticked(g.bullets[k], #[trigger] g.updated(dt, pick).bullets[k]),
{
    if dt >= HEARTBEAT {
        lemma_beat(g, pick);
        let b = g.beat(pick);
        lemma_advanced_to(b, b.bullets.len() as int);
        assert forall|k: int| 0 <= k < g.bullets.len() implies ticked(
            g.bullets[k],
            #[trigger] g.updated(dt, pick).bullets[k],
        ) by {
            assert(b.bullets[k] == g.bullets[k]);
            assert(ticked(b.bullets[k], b.advanced().bullets[k]));
        }
    } else {
        lemma_advanced_to(g, g.bullets.len() as int);
    }
}

/// A hit costs one life: when a live bullet is tested against the player and
/// lies in the ship, a living player has exactly one life less afterwards
/// and shows the glyph of what is left, and the game is over exactly if no
/// life is left. When the bullet does not lie in the ship, or is spent,
/// player and game are as they were.
pub proof fn law_player_hit(g: GameView, k: int)
    requires
        g.inv(),
        0 <= k < g.bullets.len(),
    ensures
        ({
            let h = g.after_player_strike(k);
            if g.bullets[k].alive && collides(g.bullets[k].footprint(), g.player.footprint()) {
                &&& h.player.lives == if g.player.lives > 0 {
                    g.player.lives - 1
                } else {
                    0
                }
                &&& h.player.glyph == ship_glyph(h.player.lives)
                &&& h.game_over == (h.player.lives == 0)
                &&& !h.bullets[k].alive
                &&& h.inv()
            } else {
                h == g
            }
        }),
{
}

/// Lives only fall, and the game is over when they are gone: a new game
/// starts with three lives and is not over; in every state the engine can
/// be in, the game is over exactly when the player has no life left, and
/// the ship shows the glyph of its lives; and over the tick of every bullet
/// the lives do not rise.
pub proof fn law_lives_only_fall(g: GameView)
    requires
        g.inv(),
    ensures
        GameView::fresh(g.width, g.height).player.lives == FULL_LIVES,
        !GameView::fresh(g.width, g.height).game_over,
        g.game_over == (g.player.lives == 0),
        g.player.glyph == ship_glyph(g.player.lives),
        g.advanced().player.lives <= g.player.lives,
        g.advanced().game_over == (g.advanced().player.lives == 0),
        g.advanced().player.glyph == ship_glyph(g.advanced().player.lives),
{
    lemma_advanced_to(g, g.bullets.len() as int);
}

/// The swarm's cycle: an enemy that moves with the swarm goes one column
/// left at steps 0 to 4, one column right at steps 5 to 8, stays at step 9
/// and goes one row down at step 10. Nothing else about it changes.
pub proof fn law_swarm_cycle(e: EnemyView, step: int)
    requires
        0 <= step <= LAST_STEP,
        can_shift(e, step),
    ensures
        0 <= step <= 4 ==> shifted(e, step) == e.moved((e.x - 1) as u16, e.y) && e.x >= 1,
        5 <= step <= 8 ==> shifted(e, step) == e.moved((e.x + 1) as u16, e.y) && e.x < u16::MAX,
        step == 9 ==> shifted(e, step) == e,
        step == LAST_STEP ==> shifted(e, step) == e.moved(e.x, (e.y + 1) as u16) && e.y < u16::MAX,
{
}

/// The step counter goes round: a heartbeat moves every enemy with the
/// swarm at the step after the current one, and leaves the counter at that
/// step, or at 0 if that step was the last.
pub proof fn law_step_counter(g: GameView, pick: int)
    requires
        g.wf(),
        g.swarm_has_room(),
    ensures
        g.beat(pick).step == if g.step + 1 == LAST_STEP {
            0
        } else {
            g.step + 1
        },
        g.beat(pick).enemies.len() == g.enemies.len(),
        forall|i: int|
            0 <= i < g.enemies.len() ==> #[trigger] g.beat(pick).enemies[i] == shifted(
                g.enemies[i],
                g.step + 1,
            ),
{
}

/// An update leaves the arena, the speed and the started flag alone, keeps
/// the ship where it is, stores no enemy or wall more or less, and takes the
/// step counter one step further in its cycle exactly if a heartbeat was
/// due.
pub proof fn law_update_keeps_the_setting(g: GameView, dt: u128, pick: int)
    requires
        g.wf(),
        dt >= HEARTBEAT ==> g.swarm_has_room(),
    ensures
        g.updated(dt, pick).same_setting(
            GameView {
                step: g.next_step(dt) as i32,
                bullets: g.updated(dt, pick).bullets,
                ..g
            },
        ),
        g.updated(dt, pick).player.lives <= g.player.lives,
{
    if dt >= HEARTBEAT {
        lemma_beat(g, pick);
        let b = g.beat(pick);
        lemma_advanced_to(b, b.bullets.len() as int);
    } else {
        lemma_advanced_to(g, g.bullets.len() as int);
    }
}

/// The lattice holds exactly the columns of its band that the row's pattern
/// picks: a column holds an enemy of a row exactly if it lies in the band and
/// column plus row is a multiple of three.
pub proof fn law_lattice_columns(from: int, to: int, row: int, j: int)
    requires
        from <= to,
    ensures
        lattice_columns(from, to, row).contains(j) <==> from <= j < to && (j + row) % 3 == 0,
{
    let band = columns(from, to);
    let held = lattice_columns(from, to, row);
    if held.contains(j) {
        let i = choose|i: int| 0 <= i < held.len() && held[i] == j;
        band.lemma_filter_pred(on_lattice(row), i);
        band.lemma_filter_contains_rev(on_lattice(row), j);
    }
    if from <= j < to && (j + row) % 3 == 0 {
        assert(band[j - from] == j);
        band.lemma_filter_contains(on_lattice(row), j - from);
    }
}

/// A band of three times `n` columns holds `n` enemies of a row.
proof fn lemma_band_count(from: int, n: int, row: int)
    requires
        0 <= n,
    ensures
        lattice_columns(from, from + 3 * n, row).len() == n,
        lattice_row(from, from + 3 * n, row).len() == n,
    decreases n,
{
    if n == 0 {
        assert(columns(from, from) =~= Seq::<int>::empty());
        assert(Seq::<int>::empty().filter(on_lattice(row)).len() == 0) by {
            reveal(Seq::filter);
        }
    } else {
        let to = from + 3 * (n - 1);
        lemma_band_count(from, n - 1, row);
        assert(columns(from, to + 1) =~= columns(from, to).push(to));
        assert(columns(from, to + 2) =~= columns(from, to + 1).push(to + 1));
        assert(columns(from, to + 3) =~= columns(from, to + 2).push(to + 2));
        columns(from, to).lemma_filter_push(to, on_lattice(row));
        columns(from, to + 1).lemma_filter_push(to + 1, on_lattice(row));
        columns(from, to + 2).lemma_filter_push(to + 2, on_lattice(row));
    }
}

/// The size of a swarm: each of the six rows of the lattice that starts at
/// column `offset` holds `offset` enemies, every one of them alive.
pub proof fn law_lattice_size(offset: int)
    requires
        0 <= offset,
    ensures
        lattice(offset, LATTICE_ROWS as int).len() == 6 * offset,
        forall|row: int|
            0 <= row < LATTICE_ROWS ==> (#[trigger] lattice_row(offset, 4 * offset, row)).len()
                == offset,
        alive_count(lattice(offset, LATTICE_ROWS as int)) == 6 * offset,
{
    reveal_with_fuel(lattice, 7);
    assert forall|row: int| 0 <= row < LATTICE_ROWS implies (#[trigger] lattice_row(
        offset,
        4 * offset,
        row,
    )).len() == offset by {
        lemma_band_count(offset, offset, row);
    }
    assert(lattice_row(offset, 4 * offset, 0).len() == offset);
    assert(lattice_row(offset, 4 * offset, 1).len() == offset);
    assert(lattice_row(offset, 4 * offset, 2).len() == offset);
    assert(lattice_row(offset, 4 * offset, 3).len() == offset);
    assert(lattice_row(offset, 4 * offset, 4).len() == offset);
    assert(lattice_row(offset, 4 * offset, 5).len() == offset);
    let swarm = lattice(offset, LATTICE_ROWS as int);
    assert forall|i: int| 0 <= i < swarm.len() implies (#[trigger] swarm[i]).alive by {}
    lemma_all_alive(swarm);
}

/// Where every enemy is alive, the living are all of them.
proof fn lemma_all_alive(enemies: Seq<EnemyView>)
    requires
        forall|i: int| 0 <= i < enemies.len() ==> (#[trigger] enemies[i]).alive,
    ensures
        alive_count(enemies) == enemies.len(),
    decreases enemies.len(),
{
    if enemies.len() == 0 {
        assert(enemies =~= Seq::empty());
        lemma_alive_count_push(enemies, enemy_at(0, 0));
    } else {
        assert(enemies =~= enemies.drop_last().push(enemies.last()));
        lemma_alive_count_push(enemies.drop_last(), enemies.last());
        lemma_all_alive(enemies.drop_last());
    }
}

/// A restart is a first start: whatever the state, the round that a restart
/// begins has the enemies, the counter of enemies left, the ship and the
/// step counter of a new game that was started once, no bullets, and is not
/// over.
pub proof fn law_restart_is_first_start(g: GameView)
    requires
        g.wf(),
    ensures
        ({
            let again = g.cleared().spawned().walled();
            let first = GameView::fresh(g.width, g.height).spawned().walled();
            &&& again.enemies == first.enemies
            &&& again.enemies == lattice(lattice_offset(g.width), LATTICE_ROWS as int)
            &&& again.enemies_left == first.enemies_left
            &&& again.player == fresh_player(g.width, g.height)
            &&& again.player.lives == FULL_LIVES
            &&& again.bullets.len() == 0
            &&& again.step == 0
            &&& !again.game_over
        }),
{
    let swarm = lattice(lattice_offset(g.width), LATTICE_ROWS as int);
    assert(Seq::<EnemyView>::empty() + swarm =~= swarm);
}

} // verus!
