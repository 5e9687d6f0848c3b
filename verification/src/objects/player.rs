//! The ship the user steers: three lives, and a glyph that shrinks with them.

use crate::objects::game_object_trait::{glyph_width, width_of, Footprint, GameObjectTrait};
use crate::screen::{goto_code, push_bytes, push_goto, utf8};
use vstd::prelude::*;

verus! {

/// The ship: where it is, how many lives it has left, and what it looks
/// like.
#[derive(Clone)]
pub struct Player {
    x: u16,
    y: u16,
    live: usize,
    model: String,
}

/// What a player is, as plain values.
pub struct PlayerView {
    pub x: u16,
    pub y: u16,
    pub lives: usize,
    pub glyph: Seq<u8>,
}

/// The number of lives a player starts with.
pub const FULL_LIVES: usize = 3;

/// The glyph of a ship that has been hit and has `lives` lives left.
pub open spec fn damaged_glyph(lives: usize) -> Seq<u8> {
    if lives == 2 {
        utf8(" =="@)
    } else if lives == 1 {
        utf8(" = "@)
    } else {
        utf8("   "@)
    }
}

impl PlayerView {
    /// The cells the ship takes up: from its position, as wide as its
    /// glyph.
    pub open spec fn footprint(self) -> (u16, u16, u16, u16) {
        (self.x, self.y, glyph_width(self.glyph), 1)
    }

    /// A player is alive while lives are left.
    pub open spec fn alive(self) -> bool {
        self.lives > 0
    }

    /// The player at another position.
    pub open spec fn moved(self, x: u16, y: u16) -> PlayerView {
        PlayerView { x, y, ..self }
    }

    /// The player after one hit: a living one loses exactly one life and
    /// takes the glyph of what is left; a dead one is left as it is.
    pub open spec fn destroyed(self) -> PlayerView {
        if self.lives > 0 {
            let lives = (self.lives - 1) as usize;
            PlayerView { lives, glyph: damaged_glyph(lives), ..self }
        } else {
            self
        }
    }

    /// A blank, the cursor movement to the ship's cell, a blank and the
    /// glyph.
    pub open spec fn rendering(self) -> Seq<u8> {
        utf8(" "@) + goto_code(self.x, self.y) + utf8(" "@) + self.glyph
    }
}

impl View for Player {
    type V = PlayerView;

    closed spec fn view(&self) -> PlayerView {
        PlayerView { x: self.x, y: self.y, lives: self.live, glyph: utf8(self.model@) }
    }
}

impl Player {
    /// A ship with full lives at `(x, y)`, shown as `model`.
    pub fn new(x: u16, y: u16, model: String) -> (player: Player)
        ensures
            player@ == (PlayerView { x, y, lives: FULL_LIVES, glyph: utf8(model@) }),
    {
        Player { x, y, live: 3, model }
    }

    /// The lives the player has left.
    pub fn get_lives(&self) -> (lives: usize)
        ensures
            lives == self@.lives,
    {
        self.live
    }
}

impl Footprint for Player {
    open spec fn footprint(&self) -> (u16, u16, u16, u16) {
        self@.footprint()
    }

    open spec fn glyph(&self) -> Seq<u8> {
        self@.glyph
    }

    fn get_size(&self) -> (size: (u16, u16, u16, u16)) {
        (self.x, self.y, width_of(self.model.as_str().as_bytes()), 1)
    }
}

impl GameObjectTrait for Player {
    open spec fn lives(&self) -> nat {
        self@.lives as nat
    }

    open spec fn movable(&self) -> bool {
        true
    }

    open spec fn drawable(&self) -> bool {
        self@.x != 0 || self@.y != 0
    }

    open spec fn rendering(&self) -> Seq<u8> {
        self@.rendering()
    }

    fn get_position(&self) -> (position: (u16, u16))
        ensures
            position == (self@.x, self@.y),
    {
        (self.x, self.y)
    }

    fn get_model_bytes(&self) -> (bytes: &[u8]) {
        self.model.as_str().as_bytes()
    }

    fn move_object(&mut self, x: u16, y: u16)
        ensures
            final(self)@ == old(self)@.moved(x, y),
    {
        self.x = x;
        self.y = y;
    }

    fn is_alive(&self) -> (alive: bool) {
        self.live > 0
    }

    fn destroy(&mut self)
        ensures
            final(self)@ == old(self)@.destroyed(),
    {
        if self.live > 0 {
            self.live -= 1;
            let model = if self.live == 2 {
                " =="
            } else if self.live == 1 {
                " = "
            } else {
                "   "
            };
            self.model = model.to_string();
        }
    }

    fn draw(&self, out: &mut Vec<u8>) {
        push_bytes(out, " ".as_bytes());
        push_goto(out, self.x, self.y);
        push_bytes(out, " ".as_bytes());
        push_bytes(out, self.get_model_bytes());
        assert(final(out)@ =~= old(out)@ + self@.rendering());
    }
}

} // verus!
