//! A segment of a barrier, which stands until its hit points are used up.

use crate::objects::game_object_trait::{glyph_width, width_of, Footprint, GameObjectTrait};
use crate::screen::{goto_code, push_bytes, push_goto, utf8};
use vstd::prelude::*;

verus! {

/// A block of wall: where it stands, how many hits it can still take, and
/// what it looks like.
#[derive(Clone, Debug)]
pub struct Wall {
    x: u16,
    y: u16,
    lives: u16,
    model: String,
}

/// What a wall is, as plain values.
pub struct WallView {
    pub x: u16,
    pub y: u16,
    pub lives: u16,
    pub glyph: Seq<u8>,
}

impl WallView {
    /// The cells the block takes up: from its position, as wide as its
    /// glyph.
    pub open spec fn footprint(self) -> (u16, u16, u16, u16) {
        (self.x, self.y, glyph_width(self.glyph), 1)
    }

    /// A wall stands while hit points are left.
    pub open spec fn alive(self) -> bool {
        self.lives > 0
    }

    /// The wall after one hit: a standing one loses exactly one hit point,
    /// and turns blank with its last; a fallen one is left as it is.
    pub open spec fn destroyed(self) -> WallView {
        if self.lives > 1 {
            WallView { lives: (self.lives - 1) as u16, ..self }
        } else if self.lives == 1 {
            WallView { lives: 0, glyph: utf8(" "@), ..self }
        } else {
            self
        }
    }

    /// The cursor movement to the wall's cell, then the glyph.
    pub open spec fn rendering(self) -> Seq<u8> {
        goto_code(self.x, self.y) + self.glyph
    }
}

impl View for Wall {
    type V = WallView;

    closed spec fn view(&self) -> WallView {
        WallView { x: self.x, y: self.y, lives: self.lives, glyph: utf8(self.model@) }
    }
}

impl Wall {
    /// A block at `(x, y)` that takes `lives` hits, shown as `model`.
    pub fn new(x: u16, y: u16, lives: u16, model: String) -> (wall: Wall)
        ensures
            wall@ == (WallView { x, y, lives, glyph: utf8(model@) }),
    {
        Wall { x, y, lives, model }
    }
}

impl Footprint for Wall {
    open spec fn footprint(&self) -> (u16, u16, u16, u16) {
        self@.footprint()
    }

    open spec fn glyph(&self) -> Seq<u8> {
        self@.glyph
    }

    fn get_size(&self) -> (size: (u16, u16, u16, u16)) {
        (self.x, self.y, width_of(self.model.as_str().as_bytes()), 1)
    }
}

impl GameObjectTrait for Wall {
    open spec fn lives(&self) -> nat {
        self@.lives as nat
    }

    open spec fn movable(&self) -> bool {
        false
    }

    open spec fn drawable(&self) -> bool {
        self@.x != 0 || self@.y != 0
    }

    open spec fn rendering(&self) -> Seq<u8> {
        self@.rendering()
    }

    fn get_position(&self) -> (position: (u16, u16))
        ensures
            position == (self@.x, self@.y),
    {
        (self.x, self.y)
    }

    fn get_model_bytes(&self) -> (bytes: &[u8]) {
        self.model.as_str().as_bytes()
    }

    /// A wall does not move: the request is dropped.
    fn move_object(&mut self, x: u16, y: u16)
        ensures
            final(self)@ == old(self)@,
    {
    }

    fn is_alive(&self) -> (alive: bool) {
        self.lives > 0
    }

    fn destroy(&mut self)
        ensures
            final(self)@ == old(self)@.destroyed(),
    {
        if self.lives > 0 {
            self.lives -= 1;
            if self.lives == 0 {
                self.model = " ".to_string();
            }
        }
    }

    fn draw(&self, out: &mut Vec<u8>) {
        push_goto(out, self.x, self.y);
        push_bytes(out, self.get_model_bytes());
        assert(final(out)@ =~= old(out)@ + self@.rendering());
    }
}

} // verus!
