//! What every object on the grid can do.

use vstd::prelude::*;

verus! {

/// The width a glyph takes in a footprint: its length in bytes, as far as
/// sixteen bits hold it.
pub open spec fn glyph_width(glyph: Seq<u8>) -> u16 {
    (glyph.len() % 0x1_0000) as u16
}

/// Whether a probe at the top-left corner of `a` lies in the region of `b`.
///
/// Footprints are `(x, y, width, height)`. Only the corner of `a` is looked
/// at: its row must be one of `b.y ..= b.y + b.height` and its column one of
/// `b.x ..= b.x + b.width - 1`. The test is not symmetric, and a region of
/// width 0 holds nothing.
pub open spec fn collides(a: (u16, u16, u16, u16), b: (u16, u16, u16, u16)) -> bool {
    &&& b.1 <= a.1 <= b.1 + b.3
    &&& b.0 <= a.0 <= b.0 + b.2 - 1
}

/// Decides `collides` on two footprints.
pub fn footprints_collide(a: (u16, u16, u16, u16), b: (u16, u16, u16, u16)) -> (hit: bool)
    ensures
        hit == collides(a, b),
{
    a.1 >= b.1 && a.1 as u32 <= b.1 as u32 + b.3 as u32 && a.0 >= b.0 && (a.0 as u32) < b.0 as u32
        + b.2 as u32
}

/// The width of a glyph given as bytes.
pub fn width_of(bytes: &[u8]) -> (width: u16)
    ensures
        width == glyph_width(bytes@),
{
    let n: usize = bytes.len();
    (n % 0x1_0000) as u16
}

/// Something that takes up a rectangle of the grid.
pub trait Footprint {
    /// The rectangle `(x, y, width, height)` the object takes up.
    spec fn footprint(&self) -> (u16, u16, u16, u16);

    /// The bytes the object is shown as.
    spec fn glyph(&self) -> Seq<u8>;

    /// The footprint: the position, the width of the glyph, and a height
    /// of 1.
    fn get_size(&self) -> (size: (u16, u16, u16, u16))
        ensures
            size == self.footprint(),
            size.2 == glyph_width(self.glyph()),
            size.3 == 1,
    ;
}

/// The capability shared by player, enemies, bullets and walls.
pub trait GameObjectTrait: Footprint {
    /// The lives the object has left. It is alive while this is not 0.
    spec fn lives(&self) -> nat;

    /// Whether the object goes where it is told to move.
    spec fn movable(&self) -> bool;

    /// Whether the object can be drawn: every cursor position that its
    /// drawing visits exists.
    spec fn drawable(&self) -> bool;

    /// The bytes that drawing the object appends.
    spec fn rendering(&self) -> Seq<u8>;

    /// The column and row of the object's corner.
    fn get_position(&self) -> (position: (u16, u16))
        ensures
            position.0 == self.footprint().0,
            position.1 == self.footprint().1,
    ;

    /// The bytes the object is shown as.
    fn get_model_bytes(&self) -> (bytes: &[u8])
        ensures
            bytes@ == self.glyph(),
    ;

    /// Puts a movable object at `(x, y)` and leaves any other where it is.
    /// Lives and glyph stay as they are. Bounds are the caller's business.
    fn move_object(&mut self, x: u16, y: u16)
        ensures
            final(self).lives() == old(self).lives(),
            final(self).glyph() == old(self).glyph(),
            final(self).footprint() == if old(self).movable() {
                (x, y, old(self).footprint().2, old(self).footprint().3)
            } else {
                old(self).footprint()
            },
            final(self).movable() == old(self).movable(),
    ;

    /// Whether the object has life left.
    fn is_alive(&self) -> (alive: bool)
        ensures
            alive == (self.lives() > 0),
    ;

    /// Takes one life from a living object and leaves a dead one as it is.
    /// The object stays where it is.
    fn destroy(&mut self)
        ensures
            final(self).footprint().0 == old(self).footprint().0,
            final(self).footprint().1 == old(self).footprint().1,
            final(self).lives() == if old(self).lives() > 0 {
                old(self).lives() - 1
            } else {
                0
            },
            final(self).movable() == old(self).movable(),
    ;

    /// Appends what shows the object at its place.
    fn draw(&self, out: &mut Vec<u8>)
        requires
            self.drawable(),
        ensures
            final(out)@ == old(out)@ + self.rendering(),
    ;

    /// Whether this object, taken as a probe at its own position, lies in
    /// the region of `object`.
    fn is_collide<T: Footprint>(&self, object: &T) -> (hit: bool)
        ensures
            hit == collides(self.footprint(), object.footprint()),
    {
        footprints_collide(self.get_size(), object.get_size())
    }
}

} // verus!
