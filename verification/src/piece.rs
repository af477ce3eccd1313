use vstd::prelude::*;
use vstd::string::StringExecFns;
use crate::cells::{
    before, build_states, ccw_cells, cells_of_tiles, empty_glyph, full_glyph, in_grid,
    lemma_build_states_len, lemma_step_index_cases, render_row, render_rows, step_index,
    trans_cells, with_cell, within_grid,
};
use crate::pos::Pos;

verus! {

/// Side length of a grid.
pub const PIECE_SIZE: usize = 4;

/// A 4x4 occupancy pattern: one rotation state of a piece.
///
/// Its view is the set of occupied cells, all of them inside the domain.
#[derive(Clone, Copy, Debug)]
pub struct Grid {
    grid: [[bool; 4]; 4],
}

impl View for Grid {
    type V = Set<(int, int)>;

    closed spec fn view(&self) -> Set<(int, int)> {
        Set::new(|c: (int, int)| in_grid(c.0, c.1) && self.grid[c.1][c.0])
    }
}

impl Grid {
    /// The empty grid.
    pub fn new() -> (r: Self)
        ensures
            r@ == Set::<(int, int)>::empty(),
    {
        Grid { grid: [[false; 4]; 4] }
    }

    /// No grid holds a cell outside the 4x4 domain.
    pub proof fn lemma_within_grid(&self)
        ensures
            within_grid(self@),
    {
    }

    /// Whether `pos` lies inside the 4x4 domain.
    pub fn in_bounds(&self, pos: Pos) -> (r: bool)
        ensures
            r == in_grid(pos.x as int, pos.y as int),
    {
        0 <= pos.x && pos.x < 4 && 0 <= pos.y && pos.y < 4
    }

    /// Reads a cell; every position outside the domain reads as empty.
    pub fn get(&self, pos: Pos) -> (r: bool)
        ensures
            r == self@.contains((pos.x as int, pos.y as int)),
    {
        self.in_bounds(pos) && self.grid[pos.y as usize][pos.x as usize]
    }

    /// Writes a cell; a position outside the domain is ignored.
    pub fn set(&mut self, pos: Pos, value: bool)
        ensures
            final(self)@ == if in_grid(pos.x as int, pos.y as int) {
                with_cell(old(self)@, pos.x as int, pos.y as int, value)
            } else {
                old(self)@
            },
    {
        if self.in_bounds(pos) {
            self.grid[pos.y as usize][pos.x as usize] = value;
        }
    }

    /// Quarter turn counter-clockwise about the centre of the grid.
    pub fn ccw(&self) -> (r: Self)
        ensures
            r@ == ccw_cells(self@),
    {
        let mut new_map = Grid::new();
        let mut y: isize = 0;
        while y < 4
            invariant
                0 <= y <= 4,
                new_map@ == Set::new(
                    |c: (int, int)|
                        in_grid(c.0, c.1) && before(c, 0, y as int) && self@.contains(
                            (3 - c.1, c.0),
                        ),
                ),
            decreases 4 - y,
        {
            let mut x: isize = 0;
            while x < 4
                invariant
                    0 <= y < 4,
                    0 <= x <= 4,
                    new_map@ == Set::new(
                        |c: (int, int)|
                            in_grid(c.0, c.1) && before(c, x as int, y as int) && self@.contains(
                                (3 - c.1, c.0),
                            ),
                    ),
                decreases 4 - x,
            {
                let pos = Pos::new(x, y);
                let pos0 = Pos::new(3 - y, x);
                new_map.set(pos, self.get(pos0));
                x += 1;
            }
            y += 1;
        }
        proof {
            self.lemma_within_grid();
        }
        new_map
    }

    /// Shift by `offset` (x first, then y). Cells pushed past an edge are
    /// dropped, and nothing wraps around.
    pub fn trans(&self, offset: [isize; 2]) -> (r: Self)
        ensures
            r@ == trans_cells(self@, offset[0] as int, offset[1] as int),
    {
        let mut new_map = Grid::new();
        let ox = offset[0];
        let oy = offset[1];
        proof {
            self.lemma_within_grid();
        }
        let mut y: isize = 0;
        while y < 4
            invariant
                0 <= y <= 4,
                within_grid(self@),
                new_map@ == Set::new(
                    |c: (int, int)|
                        in_grid(c.0, c.1) && before(c, 0, y as int) && self@.contains(
                            (c.0 - ox, c.1 - oy),
                        ),
                ),
            decreases 4 - y,
        {
            let mut x: isize = 0;
            while x < 4
                invariant
                    0 <= y < 4,
                    0 <= x <= 4,
                    within_grid(self@),
                    new_map@ == Set::new(
                        |c: (int, int)|
                            in_grid(c.0, c.1) && before(c, x as int, y as int) && self@.contains(
                                (c.0 - ox, c.1 - oy),
                            ),
                    ),
                decreases 4 - x,
            {
                let pos = Pos::new(x, y);
                let value = if x - 3 <= ox && ox <= x && y - 3 <= oy && oy <= y {
                    self.get(Pos::new(x - ox, y - oy))
                } else {
                    false
                };
                new_map.set(pos, value);
                x += 1;
            }
            y += 1;
        }
        new_map
    }

    /// The grid as text: a three-character glyph per cell, one line per row,
    /// top row first.
    pub fn draw(&self) -> (r: String)
        ensures
            r@ == render_rows(self@, 4, 4, full_glyph(), empty_glyph()),
    {
        let mut out = String::new();
        let mut y: isize = 0;
        while y < 4
            invariant
                0 <= y <= 4,
                out@ == render_rows(self@, 4, y as nat, full_glyph(), empty_glyph()),
            decreases 4 - y,
        {
            let ghost done = out@;
            let mut x: isize = 0;
            while x < 4
                invariant
                    0 <= y < 4,
                    0 <= x <= 4,
                    out@ == done + render_row(self@, y as int, x as nat, full_glyph(), empty_glyph()),
                decreases 4 - x,
            {
                let tile = if self.get(Pos::new(x, y)) {
                    "[ ]"
                } else {
                    " . "
                };
                proof {
                    reveal_strlit("[ ]");
                    reveal_strlit(" . ");
                }
                out.append(tile);
                x += 1;
            }
            proof {
                reveal_strlit("\n");
            }
            out.append("\n");
            y += 1;
        }
        out
    }
}

/// What a piece is, mathematically: its rotation states in order, and the
/// index of the current one.
pub struct PieceView {
    pub states: Seq<Set<(int, int)>>,
    pub index: int,
}

/// The offsets of a slice as pairs of integers.
pub open spec fn offsets_of(offsets: Seq<[isize; 2]>) -> Seq<(int, int)> {
    Seq::new(offsets.len(), |i: int| (offsets[i][0] as int, offsets[i][1] as int))
}

/// One shape in all its rotation states, with the state it is in now.
#[derive(Debug)]
pub struct Piece {
    maps: Vec<Grid>,
    rot: usize,
}

impl View for Piece {
    type V = PieceView;

    closed spec fn view(&self) -> PieceView {
        PieceView {
            states: Seq::new(self.maps.len() as nat, |i: int| self.maps[i]@),
            index: self.rot as int,
        }
    }
}

impl Piece {
    /// A piece has at least one state, its index names one of them, and
    /// every state lies inside the 4x4 domain.
    pub open spec fn wf(&self) -> bool {
        &&& 0 <= self@.index < self@.states.len()
        &&& forall|i: int| 0 <= i < self@.states.len() ==> within_grid(#[trigger] self@.states[i])
    }

    /// The occupied cells of the current state.
    pub open spec fn cells(&self) -> Set<(int, int)> {
        self@.states[self@.index]
    }

    /// Builds the cycle of states from a base grid: each offset adds the
    /// previous state turned counter-clockwise and then shifted by it.
    pub fn new(map0: Grid, offsets: &[[isize; 2]]) -> (r: Self)
        ensures
            r@.states == build_states(map0@, offsets_of(offsets@)),
            r@.index == 0,
            r.wf(),
    {
        let mut map = map0;
        let mut maps: Vec<Grid> = Vec::new();
        maps.push(map);
        let ghost offs = offsets_of(offsets@);
        let mut i: usize = 0;
        while i < offsets.len()
            invariant
                0 <= i <= offsets.len(),
                offs == offsets_of(offsets@),
                maps.len() == i + 1,
                map == maps[i as int],
                Seq::new(maps.len() as nat, |k: int| maps[k]@) == build_states(
                    map0@,
                    offs.take(i as int),
                ),
            decreases offsets.len() - i,
        {
            let offset = offsets[i];
            map = map.ccw().trans(offset);
            maps.push(map);
            assert(offs.take(i + 1).drop_last() =~= offs.take(i as int));
            i += 1;
        }
        let r = Piece { maps: maps, rot: 0 };
        proof {
            assert(offs.take(i as int) =~= offs);
            assert forall|k: int| 0 <= k < r@.states.len() implies within_grid(
                #[trigger] r@.states[k],
            ) by {
                r.maps[k].lemma_within_grid();
            }
        }
        r
    }

    /// The number of rotation states.
    pub fn len(&self) -> (r: usize)
        ensures
            r == self@.states.len(),
    {
        self.maps.len()
    }

    /// The grid of the current state.
    pub fn get_map(&self) -> (r: &Grid)
        requires
            self.wf(),
        ensures
            r@ == self.cells(),
    {
        &self.maps[self.rot]
    }

    /// Reads a cell of the current state; outside the domain it is empty.
    pub fn get(&self, pos: Pos) -> (r: bool)
        requires
            self.wf(),
        ensures
            r == self.cells().contains((pos.x as int, pos.y as int)),
    {
        self.get_map().get(pos)
    }

    /// Steps to the next state counter-clockwise if `ccw` holds, else to the
    /// previous one; the states themselves stay as they are.
    pub fn rot(&mut self, ccw: bool)
        requires
            old(self).wf(),
        ensures
            final(self).wf(),
            final(self)@.states == old(self)@.states,
            final(self)@.index == step_index(
                old(self)@.index,
                old(self)@.states.len() as int,
                ccw,
            ),
    {
        let len: usize = self.maps.len();
        let ghost index = self.rot as int;
        if ccw {
            self.rot = if self.rot + 1 == len {
                0
            } else {
                self.rot + 1
            };
        } else {
            self.rot = if self.rot == 0 {
                len - 1
            } else {
                self.rot - 1
            };
        }
        proof {
            lemma_step_index_cases(index, len as int);
        }
    }

    /// The current state as text.
    pub fn draw(&self) -> (r: String)
        requires
            self.wf(),
        ensures
            r@ == render_rows(self.cells(), 4, 4, full_glyph(), empty_glyph()),
    {
        self.get_map().draw()
    }
}

/// The seven shapes.
#[derive(Debug)]
pub enum Name {
    O,
    S,
    Z,
    J,
    L,
    T,
    I,
}

impl Name {
    /// The base pattern of the shape, as row-major indices into the grid.
    pub open spec fn base_tiles(&self) -> Seq<int> {
        match self {
            Name::O => seq![1, 2, 5, 6],
            Name::S => seq![5, 6, 8, 9],
            Name::Z => seq![4, 5, 9, 10],
            Name::J => seq![4, 5, 6, 10],
            Name::L => seq![4, 5, 6, 8],
            Name::T => seq![4, 5, 6, 9],
            Name::I => seq![4, 5, 6, 7],
        }
    }

    /// The shifts that follow each quarter turn when the states are built.
    pub open spec fn turn_offsets(&self) -> Seq<(int, int)> {
        match self {
            Name::O => seq![],
            Name::S => seq![(-1, -1)],
            Name::Z => seq![(0, -1)],
            Name::J => seq![(0, -1), (0, 0), (-1, -1)],
            Name::L => seq![(0, -1), (0, 0), (-1, -1)],
            Name::T => seq![(0, -1), (0, 0), (-1, -1)],
            Name::I => seq![(1, 0)],
        }
    }

    /// How many distinct orientations the shape has.
    pub open spec fn orientation_count(&self) -> int {
        match self {
            Name::O => 1,
            Name::S | Name::Z | Name::I => 2,
            Name::J | Name::L | Name::T => 4,
        }
    }

    /// The piece of this shape, in its first state.
    pub fn to_piece(&self) -> (r: Piece)
        ensures
            r.wf(),
            r@.index == 0,
            r@.states == build_states(cells_of_tiles(self.base_tiles()), self.turn_offsets()),
            r@.states.len() == self.orientation_count(),
    {
        let mut map = Grid::new();
        let tiles: [usize; 4] = match self {
            Name::O => [1, 2, 5, 6],
            Name::S => [5, 6, 8, 9],
            Name::Z => [4, 5, 9, 10],
            Name::J => [4, 5, 6, 10],
            Name::L => [4, 5, 6, 8],
            Name::T => [4, 5, 6, 9],
            Name::I => [4, 5, 6, 7],
        };
        let mut offsets: Vec<[isize; 2]> = Vec::new();
        match self {
            Name::O => {},
            Name::S => {
                offsets.push([-1, -1]);
            },
            Name::Z => {
                offsets.push([0, -1]);
            },
            Name::J | Name::L | Name::T => {
                offsets.push([0, -1]);
                offsets.push([0, 0]);
                offsets.push([-1, -1]);
            },
            Name::I => {
                offsets.push([1, 0]);
            },
        }
        let ghost base = self.base_tiles();
        assert(offsets_of(offsets@) =~= self.turn_offsets());

        let mut i: usize = 0;
        while i < 4
            invariant
                0 <= i <= 4,
                base.len() == 4,
                forall|k: int| 0 <= k < 4 ==> 0 <= #[trigger] tiles[k] < 16 && tiles[k] == base[k],
                map@ == cells_of_tiles(base.take(i as int)),
            decreases 4 - i,
        {
            let tile = tiles[i];
            let x = tile % PIECE_SIZE;
            let y = tile / PIECE_SIZE;
            map.set(Pos::new(x as isize, y as isize), true);
            assert(base.take(i + 1).drop_last() =~= base.take(i as int));
            i += 1;
        }
        proof {
            assert(base.take(4) =~= base);
            lemma_build_states_len(cells_of_tiles(base), self.turn_offsets());
        }
        Piece::new(map, offsets.as_slice())
    }

    /// The seven shapes in their fixed order.
    pub fn all() -> (r: Vec<Name>)
        ensures
            r@ == seq![Name::O, Name::S, Name::Z, Name::J, Name::L, Name::T, Name::I],
    {
        let mut names: Vec<Name> = Vec::new();
        names.push(Name::O);
        names.push(Name::S);
        names.push(Name::Z);
        names.push(Name::J);
        names.push(Name::L);
        names.push(Name::T);
        names.push(Name::I);
        names
    }
}

} // verus!
