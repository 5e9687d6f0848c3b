//! A projectile of one cell that travels up or down.

use crate::objects::game_object_trait::{glyph_width, width_of, Footprint, GameObjectTrait};
use crate::screen::{goto_code, push_bytes, push_goto, utf8};
use vstd::prelude::*;

verus! {

/// Which way a bullet travels: up when the player fired it, down when an
/// enemy did.
#[derive(Debug, Clone, Copy, PartialEq, Eq, Structural)]
pub enum BulletDirection {
    Up,
    Down,
}

/// A bullet: where it is, what it looks like, whether it is still in flight,
/// and which way it goes.
pub struct Bullet {
    x: u16,
    y: u16,
    model: String,
    is_exists: bool,
    direction: BulletDirection,
}

/// What a bullet is, as plain values.
pub struct BulletView {
    pub x: u16,
    pub y: u16,
    pub glyph: Seq<u8>,
    pub alive: bool,
    pub direction: BulletDirection,
}

/// The glyph a spent bullet is drawn with: one blank, which wipes its cell.
pub open spec fn blank() -> Seq<u8> {
    utf8(" "@)
}

impl BulletView {
    /// The cell the bullet is at, as wide as its glyph.
    pub open spec fn footprint(self) -> (u16, u16, u16, u16) {
        (self.x, self.y, glyph_width(self.glyph), 1)
    }

    /// The bullet at another position.
    pub open spec fn moved(self, x: u16, y: u16) -> BulletView {
        BulletView { x, y, ..self }
    }

    /// The bullet once spent: it stays where it is and turns blank.
    pub open spec fn destroyed(self) -> BulletView {
        BulletView { alive: false, glyph: blank(), ..self }
    }

    /// The row the bullet came from, which drawing wipes.
    pub open spec fn trail(self) -> int {
        match self.direction {
            BulletDirection::Up => self.y + 1,
            BulletDirection::Down => self.y - 1,
        }
    }

    /// The trail is a row of the screen, and no cursor movement goes to
    /// (0, 0).
    pub open spec fn drawable(self) -> bool {
        &&& 0 <= self.trail() <= u16::MAX
        &&& self.x != 0 || (self.y != 0 && self.trail() != 0)
    }

    /// Where the engine keeps its bullets in an arena of the given size. One
    /// going up is between the side borders, from the row above the ship up
    /// to row 2. One going down is on row 4 or below, under the enemy that
    /// fired it.
    pub open spec fn in_play(self, width: u16, height: u16) -> bool {
        match self.direction {
            BulletDirection::Up => 5 <= self.x < width && 2 <= self.y <= height - 2,
            BulletDirection::Down => 4 <= self.y,
        }
    }

    /// The glyph at the bullet's cell, then a blank over its trail.
    pub open spec fn rendering(self) -> Seq<u8> {
        goto_code(self.x, self.y) + self.glyph + goto_code(self.x, self.trail() as u16) + blank()
    }
}

impl View for Bullet {
    type V = BulletView;

    closed spec fn view(&self) -> BulletView {
        BulletView {
            x: self.x,
            y: self.y,
            glyph: utf8(self.model@),
            alive: self.is_exists,
            direction: self.direction,
        }
    }
}

impl Bullet {
    /// A bullet in flight at `(x, y)`, shown as `model`.
    pub fn new(x: u16, y: u16, model: String, direction: BulletDirection) -> (bullet: Bullet)
        ensures
            bullet@ == (BulletView { x, y, glyph: utf8(model@), alive: true, direction }),
    {
        Bullet { x, y, model, is_exists: true, direction }
    }

    /// The way the bullet goes.
    pub fn get_direction(&self) -> (direction: &BulletDirection)
        ensures
            *direction == self@.direction,
    {
        &self.direction
    }
}

impl Footprint for Bullet {
    open spec fn footprint(&self) -> (u16, u16, u16, u16) {
        self@.footprint()
    }

    open spec fn glyph(&self) -> Seq<u8> {
        self@.glyph
    }

    fn get_size(&self) -> (size: (u16, u16, u16, u16)) {
        (self.x, self.y, width_of(self.model.as_str().as_bytes()), 1)
    }
}

impl GameObjectTrait for Bullet {
    open spec fn lives(&self) -> nat {
        if self@.alive { 1 } else { 0 }
    }

    open spec fn movable(&self) -> bool {
        true
    }

    open spec fn drawable(&self) -> bool {
        self@.drawable()
    }

    open spec fn rendering(&self) -> Seq<u8> {
        self@.rendering()
    }

    fn get_position(&self) -> (position: (u16, u16))
        ensures
            position == (self@.x, self@.y),
    {
        (self.x, self.y)
    }

    fn get_model_bytes(&self) -> (bytes: &[u8]) {
        self.model.as_str().as_bytes()
    }

    fn move_object(&mut self, x: u16, y: u16)
        ensures
            final(self)@ == old(self)@.moved(x, y),
    {
        self.x = x;
        self.y = y;
    }

    fn is_alive(&self) -> (alive: bool) {
        self.is_exists
    }

    fn destroy(&mut self)
        ensures
            final(self)@ == old(self)@.destroyed(),
    {
        self.is_exists = false;
        self.model = " ".to_string();
    }

    fn draw(&self, out: &mut Vec<u8>) {
        push_goto(out, self.x, self.y);
        push_bytes(out, self.get_model_bytes());
        match self.direction {
            BulletDirection::Up => {
                push_goto(out, self.x, self.y + 1);
            },
            BulletDirection::Down => {
                push_goto(out, self.x, self.y - 1);
            },
        }
        push_bytes(out, " ".as_bytes());
        assert(final(out)@ =~= old(out)@ + self@.rendering());
    }
}

} // verus!
