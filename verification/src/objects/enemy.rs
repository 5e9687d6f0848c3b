//! A member of the swarm: one life, and the row of the lattice it belongs to.

use crate::objects::game_object_trait::{glyph_width, width_of, Footprint, GameObjectTrait};
use crate::screen::{goto_code, push_bytes, push_goto, utf8};
use vstd::prelude::*;

verus! {

/// An enemy: where it is, what it looks like, whether it is alive, and the
/// row of the lattice it was spawned in.
#[derive(Clone, Debug)]
pub struct Enemy {
    x: u16,
    y: u16,
    model: String,
    is_alive: bool,
    line: u16,
}

/// What an enemy is, as plain values.
pub struct EnemyView {
    pub x: u16,
    pub y: u16,
    pub glyph: Seq<u8>,
    pub alive: bool,
    pub line: u16,
}

/// The first row on which an enemy is shown, and from which it may fire.
pub const FIRST_VISIBLE_ROW: u16 = 3;

impl EnemyView {
    /// The cells the enemy takes up: from its position, as wide as its
    /// glyph.
    pub open spec fn footprint(self) -> (u16, u16, u16, u16) {
        (self.x, self.y, glyph_width(self.glyph), 1)
    }

    /// The enemy at another position.
    pub open spec fn moved(self, x: u16, y: u16) -> EnemyView {
        EnemyView { x, y, ..self }
    }

    /// The enemy once shot: it stays where it is and loses its glyph.
    pub open spec fn destroyed(self) -> EnemyView {
        EnemyView { alive: false, glyph: Seq::empty(), ..self }
    }

    /// An enemy above the first visible row draws nothing. Below it, a blank
    /// and the glyph go to its cell, and an enemy of the top row of the
    /// lattice also wipes the cell above.
    pub open spec fn rendering(self) -> Seq<u8> {
        if self.y >= FIRST_VISIBLE_ROW {
            let body = utf8(" "@) + goto_code(self.x, self.y) + utf8(" "@) + self.glyph;
            if self.line == 0 {
                body + utf8(" "@) + goto_code(self.x, (self.y - 1) as u16) + utf8(" "@) + utf8(" "@)
            } else {
                body
            }
        } else {
            Seq::empty()
        }
    }
}

impl View for Enemy {
    type V = EnemyView;

    closed spec fn view(&self) -> EnemyView {
        EnemyView {
            x: self.x,
            y: self.y,
            glyph: utf8(self.model@),
            alive: self.is_alive,
            line: self.line,
        }
    }
}

impl Enemy {
    /// A living enemy of row `line` at `(x, y)`, shown as `model`.
    pub fn new(x: u16, y: u16, line: u16, model: String) -> (enemy: Enemy)
        ensures
            enemy@ == (EnemyView { x, y, glyph: utf8(model@), alive: true, line }),
    {
        Enemy { x, y, model, is_alive: true, line }
    }

    /// The row of the lattice the enemy was spawned in.
    pub fn get_line(&self) -> (line: u16)
        ensures
            line == self@.line,
    {
        self.line
    }
}

impl Footprint for Enemy {
    open spec fn footprint(&self) -> (u16, u16, u16, u16) {
        self@.footprint()
    }

    open spec fn glyph(&self) -> Seq<u8> {
        self@.glyph
    }

    fn get_size(&self) -> (size: (u16, u16, u16, u16)) {
        (self.x, self.y, width_of(self.model.as_str().as_bytes()), 1)
    }
}

impl GameObjectTrait for Enemy {
    open spec fn lives(&self) -> nat {
        if self@.alive { 1 } else { 0 }
    }

    open spec fn movable(&self) -> bool {
        true
    }

    open spec fn drawable(&self) -> bool {
        true
    }

    open spec fn rendering(&self) -> Seq<u8> {
        self@.rendering()
    }

    fn get_position(&self) -> (position: (u16, u16))
        ensures
            position == (self@.x, self@.y),
    {
        (self.x, self.y)
    }

    fn get_model_bytes(&self) -> (bytes: &[u8]) {
        self.model.as_str().as_bytes()
    }

    fn move_object(&mut self, x: u16, y: u16)
        ensures
            final(self)@ == old(self)@.moved(x, y),
    {
        self.x = x;
        self.y = y;
    }

    fn is_alive(&self) -> (alive: bool) {
        self.is_alive
    }

    fn destroy(&mut self)
        ensures
            final(self)@ == old(self)@.destroyed(),
    {
        self.is_alive = false;
        self.model = String::new();
        assert(utf8(Seq::<char>::empty()) =~= Seq::<u8>::empty());
    }

    fn draw(&self, out: &mut Vec<u8>) {
        if self.y >= FIRST_VISIBLE_ROW {
            push_bytes(out, " ".as_bytes());
            push_goto(out, self.x, self.y);
            push_bytes(out, " ".as_bytes());
            push_bytes(out, self.get_model_bytes());
            if self.get_line() == 0 {
                push_bytes(out, " ".as_bytes());
                push_goto(out, self.x, self.y - 1);
                push_bytes(out, " ".as_bytes());
                push_bytes(out, " ".as_bytes());
            }
        }
        assert(final(out)@ =~= old(out)@ + self@.rendering());
    }
}

} // verus!
