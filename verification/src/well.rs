use vstd::prelude::*;
use vstd::string::StringExecFns;
use crate::cells::{
    before, empty_glyph, fits_cells, full_glyph, imprint_cells, in_well, is_leading_empty_rows,
    render_row, render_rows, row_empty, solid, with_cell, within_well,
};
use crate::piece::Piece;
use crate::pos::Pos;

verus! {

/// The playfield: 10 cells wide, 20 high, holding the cells that are locked.
///
/// Its view is the set of locked cells, all of them inside the well. To a
/// piece everything outside the well is solid, above the top edge too.
#[derive(Debug)]
pub struct Well {
    grid: [[bool; 10]; 20],
}

impl View for Well {
    type V = Set<(int, int)>;

    closed spec fn view(&self) -> Set<(int, int)> {
        Set::new(|c: (int, int)| in_well(c.0, c.1) && self.grid[c.1][c.0])
    }
}

/// The position `(dx, dy)` away from `pos`, or `None` where a coordinate of
/// it cannot be represented.
fn shifted(pos: Pos, dx: isize, dy: isize) -> (r: Option<Pos>)
    ensures
        r == if isize::MIN <= pos.x + dx <= isize::MAX && isize::MIN <= pos.y + dy <= isize::MAX {
            Some(Pos { x: (pos.x + dx) as isize, y: (pos.y + dy) as isize })
        } else {
            None
        },
{
    match (pos.x.checked_add(dx), pos.y.checked_add(dy)) {
        (Some(x), Some(y)) => Some(Pos::new(x, y)),
        _ => None,
    }
}

impl Well {
    /// The empty well.
    pub fn new() -> (r: Self)
        ensures
            r@ == Set::<(int, int)>::empty(),
    {
        Well { grid: [[false; 10]; 20] }
    }

    /// No well holds a cell outside its 10x20 field.
    pub proof fn lemma_within_well(&self)
        ensures
            within_well(self@),
    {
    }

    /// Whether `pos` lies inside the well.
    pub fn in_bounds(&self, pos: Pos) -> (r: bool)
        ensures
            r == in_well(pos.x as int, pos.y as int),
    {
        0 <= pos.x && pos.x < 10 && 0 <= pos.y && pos.y < 20
    }

    /// Whether a cell is solid: locked, or outside the well on any side.
    pub fn get(&self, pos: Pos) -> (r: bool)
        ensures
            r == solid(self@, pos.x as int, pos.y as int),
    {
        !self.in_bounds(pos) || self.grid[pos.y as usize][pos.x as usize]
    }

    /// Writes a cell; a position outside the well is ignored.
    pub fn set(&mut self, pos: Pos, value: bool)
        ensures
            final(self)@ == if in_well(pos.x as int, pos.y as int) {
                with_cell(old(self)@, pos.x as int, pos.y as int, value)
            } else {
                old(self)@
            },
    {
        if self.in_bounds(pos) {
            self.grid[pos.y as usize][pos.x as usize] = value;
        }
    }

    /// Where a new piece enters: three columns in, and as far up as the
    /// piece has empty rows at its top, so that its first occupied row is
    /// row 0 of the well.
    pub fn get_spawn_pos(&self, piece: &Piece) -> (r: Pos)
        requires
            piece.wf(),
        ensures
            r.x == 3,
            is_leading_empty_rows(piece.cells(), -r.y),
    {
        let mut empty_top_rows: isize = 0;
        let mut found = false;
        while empty_top_rows < 4 && !found
            invariant
                piece.wf(),
                0 <= empty_top_rows <= 4,
                forall|y: int| 0 <= y < empty_top_rows ==> row_empty(piece.cells(), y),
                found ==> empty_top_rows < 4 && !row_empty(piece.cells(), empty_top_rows as int),
            decreases 4 - empty_top_rows + if found { 0int } else { 1int },
        {
            let mut x: isize = 0;
            while x < 4 && !found
                invariant
                    piece.wf(),
                    0 <= empty_top_rows < 4,
                    0 <= x <= 4,
                    !found ==> forall|k: int|
                        0 <= k < x ==> !piece.cells().contains((k, empty_top_rows as int)),
                    found ==> !row_empty(piece.cells(), empty_top_rows as int),
                decreases 4 - x + if found { 0int } else { 1int },
            {
                if piece.get(Pos::new(x, empty_top_rows)) {
                    found = true;
                } else {
                    x += 1;
                }
            }
            if !found {
                empty_top_rows += 1;
            }
        }
        Pos::new(3, -empty_top_rows)
    }

    /// Whether the piece, with the corner of its domain at `pos`, overlaps
    /// nothing solid: no locked cell, and nothing outside the well.
    pub fn fits(&self, pos: Pos, piece: &Piece) -> (r: bool)
        requires
            piece.wf(),
        ensures
            r == fits_cells(self@, piece.cells(), pos.x as int, pos.y as int),
            r ==> forall|dx: int, dy: int| #[trigger]
                piece.cells().contains((dx, dy)) ==> in_well(pos.x + dx, pos.y + dy),
    {
        let mut dy: isize = 0;
        while dy < 4
            invariant
                piece.wf(),
                0 <= dy <= 4,
                forall|a: int, b: int|
                    #[trigger] piece.cells().contains((a, b)) && before((a, b), 0, dy as int)
                        ==> !solid(self@, pos.x + a, pos.y + b),
            decreases 4 - dy,
        {
            let mut dx: isize = 0;
            while dx < 4
                invariant
                    piece.wf(),
                    0 <= dy < 4,
                    0 <= dx <= 4,
                    forall|a: int, b: int|
                        #[trigger] piece.cells().contains((a, b)) && before(
                            (a, b),
                            dx as int,
                            dy as int,
                        ) ==> !solid(self@, pos.x + a, pos.y + b),
                decreases 4 - dx,
            {
                let blocked = match shifted(pos, dx, dy) {
                    Some(well_pos) => self.get(well_pos),
                    None => true,
                };
                if blocked && piece.get(Pos::new(dx, dy)) {
                    return false;
                }
                dx += 1;
            }
            dy += 1;
        }
        true
    }

    /// Locks the piece's occupied cells into the well at `pos`. Cells that
    /// fall outside the well are dropped, and no locked cell is freed.
    pub fn imprint(&mut self, pos: Pos, piece: &Piece)
        requires
            piece.wf(),
        ensures
            final(self)@ == imprint_cells(old(self)@, piece.cells(), pos.x as int, pos.y as int),
            old(self)@.subset_of(final(self)@),
    {
        let ghost start = self@;
        let ghost cells = piece.cells();
        let mut dy: isize = 0;
        while dy < 4
            invariant
                piece.wf(),
                cells == piece.cells(),
                0 <= dy <= 4,
                self@ == start.union(
                    Set::new(
                        |c: (int, int)|
                            in_well(c.0, c.1) && before((c.0 - pos.x, c.1 - pos.y), 0, dy as int)
                                && cells.contains((c.0 - pos.x, c.1 - pos.y)),
                    ),
                ),
            decreases 4 - dy,
        {
            let mut dx: isize = 0;
            while dx < 4
                invariant
                    piece.wf(),
                    cells == piece.cells(),
                    0 <= dy < 4,
                    0 <= dx <= 4,
                    self@ == start.union(
                        Set::new(
                            |c: (int, int)|
                                in_well(c.0, c.1) && before(
                                    (c.0 - pos.x, c.1 - pos.y),
                                    dx as int,
                                    dy as int,
                                ) && cells.contains((c.0 - pos.x, c.1 - pos.y)),
                        ),
                    ),
                decreases 4 - dx,
            {
                if piece.get(Pos::new(dx, dy)) {
                    match shifted(pos, dx, dy) {
                        Some(well_pos) => {
                            self.set(well_pos, true);
                        },
                        None => {},
                    }
                }
                dx += 1;
            }
            dy += 1;
        }
    }

    /// The well as text: a three-character glyph per cell, one line per row,
    /// top row first.
    pub fn draw(&self) -> (r: String)
        ensures
            r@ == render_rows(self@, 10, 20, full_glyph(), empty_glyph()),
    {
        let mut out = String::new();
        let mut y: isize = 0;
        while y < 20
            invariant
                0 <= y <= 20,
                out@ == render_rows(self@, 10, y as nat, full_glyph(), empty_glyph()),
            decreases 20 - y,
        {
            let ghost done = out@;
            let mut x: isize = 0;
            while x < 10
                invariant
                    0 <= y < 20,
                    0 <= x <= 10,
                    out@ == done + render_row(self@, y as int, x as nat, full_glyph(), empty_glyph()),
                decreases 10 - x,
            {
                let tile = if self.get(Pos::new(x, y)) {
                    "[ ]"
                } else {
                    " . "
                };
                proof {
                    reveal_strlit("[ ]");
                    reveal_strlit(" . ");
                }
                out.append(tile);
                x += 1;
            }
            proof {
                reveal_strlit("\n");
            }
            out.append("\n");
            y += 1;
        }
        out
    }
}

} // verus!
