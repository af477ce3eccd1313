use vstd::prelude::*;

verus! {

/// A pair of signed coordinates. Nothing bounds them: a position may lie
/// outside any grid or well.
#[derive(Clone, Copy, Debug)]
pub struct Pos {
    pub x: isize,
    pub y: isize,
}

impl Pos {
    /// The position `(x, y)`.
    pub fn new(x: isize, y: isize) -> (r: Self)
        ensures
            r.x == x,
            r.y == y,
    {
        Pos { x: x, y: y }
    }
}

} // verus!
