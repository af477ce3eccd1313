//! The same geometry with a grid packed into sixteen bits: bit `4 * y + x`
//! of the word stands for the cell `(x, y)`.

use vstd::prelude::*;
use vstd::string::StringExecFns;
use crate::cells::{
    before, build_states, ccw_cells, cells_of_tiles, in_grid, lemma_build_states_len,
    lemma_step_index_cases, render_row, render_rows, step_index, trans_cells, with_cell,
    within_grid,
};
use crate::piece::{Name, PieceView};

verus! {

/// Whether bit `bit` of `map` is set.
pub open spec fn bit_on(map: u16, bit: u16) -> bool {
    map & (1u16 << bit) != 0
}

/// The cells that a packed word marks as occupied.
pub open spec fn cells_of_bits(map: u16) -> Set<(int, int)> {
    Set::new(|c: (int, int)| in_grid(c.0, c.1) && bit_on(map, (4 * c.1 + c.0) as u16))
}

/// The glyph of an occupied cell in the narrow rendering.
pub open spec fn narrow_full_glyph() -> Seq<char> {
    seq!['[', ']']
}

/// The glyph of an empty cell in the narrow rendering.
pub open spec fn narrow_empty_glyph() -> Seq<char> {
    seq!['-', '-']
}

/// The offsets of a slice as pairs of integers.
pub open spec fn packed_offsets_of(offsets: Seq<[i16; 2]>) -> Seq<(int, int)> {
    Seq::new(offsets.len(), |i: int| (offsets[i][0] as int, offsets[i][1] as int))
}

/// Setting or clearing bit `b` changes bit `b` and no other.
proof fn lemma_bit_update(m: u16, b: u16, k: u16)
    requires
        b < 16,
        k < 16,
    ensures
        bit_on(m | (1u16 << b), k) == (k == b || bit_on(m, k)),
        bit_on(m & !(1u16 << b), k) == (k != b && bit_on(m, k)),
{
    assert(((m | (1u16 << b)) & (1u16 << k) != 0) == (k == b || (m & (1u16 << k) != 0)))
        by (bit_vector)
        requires
            b < 16,
            k < 16,
    ;
    assert(((m & !(1u16 << b)) & (1u16 << k) != 0) == (k != b && (m & (1u16 << k) != 0)))
        by (bit_vector)
        requires
            b < 16,
            k < 16,
    ;
}

/// A 4x4 occupancy pattern in one 16-bit word.
///
/// Its view is the set of occupied cells, as for an unpacked grid.
#[derive(Clone, Copy, Debug)]
pub struct PieceMap {
    map: u16,
}

impl View for PieceMap {
    type V = Set<(int, int)>;

    closed spec fn view(&self) -> Set<(int, int)> {
        cells_of_bits(self.map)
    }
}

impl PieceMap {
    /// The empty grid.
    pub fn new() -> (r: Self)
        ensures
            r@ == Set::<(int, int)>::empty(),
    {
        assert(forall|b: u16| 0u16 & (1u16 << b) == 0u16) by (bit_vector);
        PieceMap { map: 0 }
    }

    /// No grid holds a cell outside the 4x4 domain.
    pub proof fn lemma_within_grid(&self)
        ensures
            within_grid(self@),
    {
    }

    /// Reads the cell that bit `bit` stands for.
    pub fn get_bit(&self, bit: u16) -> (r: bool)
        requires
            bit < 16,
        ensures
            r == self@.contains((bit as int % 4, bit as int / 4)),
    {
        self.map & (1 << bit) != 0
    }

    /// The bit that stands for the cell `(x, y)`.
    pub fn pos_bit(&self, x: u16, y: u16) -> (r: u16)
        requires
            4 * y + x <= u16::MAX,
        ensures
            r == 4 * y + x,
    {
        4 * y + x
    }

    /// Writes the cell that bit `bit` stands for.
    pub fn set_bit(&mut self, bit: u16, on: bool)
        requires
            bit < 16,
        ensures
            final(self)@ == with_cell(old(self)@, bit as int % 4, bit as int / 4, on),
    {
        let mask: u16 = 1u16 << bit;
        if on {
            self.map = self.map | mask;
        } else {
            self.map = self.map & !mask;
        }
        proof {
            let before_map = old(self).map;
            assert forall|c: (int, int)| in_grid(c.0, c.1) implies bit_on(
                self.map,
                (4 * c.1 + c.0) as u16,
            ) == (if on {
                4 * c.1 + c.0 == bit || bit_on(before_map, (4 * c.1 + c.0) as u16)
            } else {
                4 * c.1 + c.0 != bit && bit_on(before_map, (4 * c.1 + c.0) as u16)
            }) by {
                lemma_bit_update(before_map, bit, (4 * c.1 + c.0) as u16);
            }
        }
    }

    /// Replaces the whole grid by the cells that `map` marks.
    pub fn set_map(&mut self, map: u16)
        ensures
            final(self)@ == cells_of_bits(map),
    {
        self.map = map;
    }

    /// Quarter turn counter-clockwise about the centre of the grid.
    pub fn ccw(&self) -> (r: Self)
        ensures
            r@ == ccw_cells(self@),
    {
        let mut new_map = PieceMap::new();
        let mut bit: u16 = 0;
        while bit < 16
            invariant
                bit <= 16,
                new_map@ == Set::new(
                    |c: (int, int)|
                        in_grid(c.0, c.1) && 4 * c.1 + c.0 < bit && self@.contains((3 - c.1, c.0)),
                ),
            decreases 16 - bit,
        {
            let bit0: u16 = (15 - bit) / 4 + (bit % 4) * 4;
            let value = self.get_bit(bit0);
            new_map.set_bit(bit, value);
            bit += 1;
        }
        new_map
    }

    /// Shift by `offset` (x first, then y). Cells pushed past an edge are
    /// dropped, and nothing wraps around.
    pub fn trans(&self, offset: [i16; 2]) -> (r: Self)
        ensures
            r@ == trans_cells(self@, offset[0] as int, offset[1] as int),
    {
        let mut new_map = PieceMap::new();
        let ox: i16 = offset[0];
        let oy: i16 = offset[1];
        let mut y: i16 = 0;
        while y < 4
            invariant
                0 <= y <= 4,
                new_map@ == Set::new(
                    |c: (int, int)|
                        in_grid(c.0, c.1) && before(c, 0, y as int) && self@.contains(
                            (c.0 - ox, c.1 - oy),
                        ),
                ),
            decreases 4 - y,
        {
            let mut x: i16 = 0;
            while x < 4
                invariant
                    0 <= y < 4,
                    0 <= x <= 4,
                    new_map@ == Set::new(
                        |c: (int, int)|
                            in_grid(c.0, c.1) && before(c, x as int, y as int) && self@.contains(
                                (c.0 - ox, c.1 - oy),
                            ),
                    ),
                decreases 4 - x,
            {
                let value = if x - 3 <= ox && ox <= x && y - 3 <= oy && oy <= y {
                    let x0: i16 = x - ox;
                    let y0: i16 = y - oy;
                    self.get_bit(self.pos_bit(x0 as u16, y0 as u16))
                } else {
                    false
                };
                new_map.set_bit(self.pos_bit(x as u16, y as u16), value);
                x += 1;
            }
            y += 1;
        }
        new_map
    }

    /// The grid as text: a two-character glyph per cell, one line per row,
    /// top row first.
    pub fn draw(&self) -> (r: String)
        ensures
            r@ == render_rows(self@, 4, 4, narrow_full_glyph(), narrow_empty_glyph()),
    {
        let mut out = String::new();
        let mut bit: u16 = 0;
        let ghost on = narrow_full_glyph();
        let ghost off = narrow_empty_glyph();
        while bit < 16
            invariant
                bit <= 16,
                on == narrow_full_glyph(),
                off == narrow_empty_glyph(),
                out@ == render_rows(self@, 4, (bit / 4) as nat, on, off) + render_row(
                    self@,
                    (bit / 4) as int,
                    (bit % 4) as nat,
                    on,
                    off,
                ),
            decreases 16 - bit,
        {
            let tile = if self.get_bit(bit) {
                "[]"
            } else {
                "--"
            };
            proof {
                reveal_strlit("[]");
                reveal_strlit("--");
            }
            out.append(tile);
            if bit % 4 == 3 {
                proof {
                    reveal_strlit("\n");
                }
                out.append("\n");
            }
            bit += 1;
        }
        out
    }
}

/// One shape in all its rotation states, each packed into a word, with the
/// state it is in now.
#[derive(Debug)]
pub struct Piece {
    maps: Vec<PieceMap>,
    rot: usize,
}

impl View for Piece {
    type V = PieceView;

    closed spec fn view(&self) -> PieceView {
        PieceView {
            states: Seq::new(self.maps.len() as nat, |i: int| self.maps[i]@),
            index: self.rot as int,
        }
    }
}

impl Piece {
    /// A piece has at least one state, its index names one of them, and
    /// every state lies inside the 4x4 domain.
    pub open spec fn wf(&self) -> bool {
        &&& 0 <= self@.index < self@.states.len()
        &&& forall|i: int| 0 <= i < self@.states.len() ==> within_grid(#[trigger] self@.states[i])
    }

    /// The occupied cells of the current state.
    pub open spec fn cells(&self) -> Set<(int, int)> {
        self@.states[self@.index]
    }

    /// Builds the cycle of states from a base grid: each offset adds the
    /// previous state turned counter-clockwise and then shifted by it.
    pub fn new(map0: PieceMap, offsets: &[[i16; 2]]) -> (r: Self)
        ensures
            r@.states == build_states(map0@, packed_offsets_of(offsets@)),
            r@.index == 0,
            r.wf(),
    {
        let mut map = map0;
        let mut maps: Vec<PieceMap> = Vec::new();
        maps.push(map);
        let ghost offs = packed_offsets_of(offsets@);
        let mut i: usize = 0;
        while i < offsets.len()
            invariant
                0 <= i <= offsets.len(),
                offs == packed_offsets_of(offsets@),
                maps.len() == i + 1,
                map == maps[i as int],
                Seq::new(maps.len() as nat, |k: int| maps[k]@) == build_states(
                    map0@,
                    offs.take(i as int),
                ),
            decreases offsets.len() - i,
        {
            let offset = offsets[i];
            map = map.ccw().trans(offset);
            maps.push(map);
            assert(offs.take(i + 1).drop_last() =~= offs.take(i as int));
            i += 1;
        }
        let r = Piece { maps: maps, rot: 0 };
        proof {
            assert(offs.take(i as int) =~= offs);
            assert forall|k: int| 0 <= k < r@.states.len() implies within_grid(
                #[trigger] r@.states[k],
            ) by {
                r.maps[k].lemma_within_grid();
            }
        }
        r
    }

    /// The number of rotation states.
    pub fn len(&self) -> (r: usize)
        ensures
            r == self@.states.len(),
    {
        self.maps.len()
    }

    /// The grid of the current state.
    pub fn get_map(&self) -> (r: &PieceMap)
        requires
            self.wf(),
        ensures
            r@ == self.cells(),
    {
        &self.maps[self.rot]
    }

    /// Steps to the next state counter-clockwise if `ccw` holds, else to the
    /// previous one; the states themselves stay as they are.
    pub fn rot(&mut self, ccw: bool)
        requires
            old(self).wf(),
        ensures
            final(self).wf(),
            final(self)@.states == old(self)@.states,
            final(self)@.index == step_index(
                old(self)@.index,
                old(self)@.states.len() as int,
                ccw,
            ),
    {
        let len: usize = self.maps.len();
        let ghost index = self.rot as int;
        if ccw {
            self.rot = if self.rot + 1 == len {
                0
            } else {
                self.rot + 1
            };
        } else {
            self.rot = if self.rot == 0 {
                len - 1
            } else {
                self.rot - 1
            };
        }
        proof {
            lemma_step_index_cases(index, len as int);
        }
    }

    /// The current state as text, in the narrow rendering.
    pub fn draw(&self) -> (r: String)
        requires
            self.wf(),
        ensures
            r@ == render_rows(self.cells(), 4, 4, narrow_full_glyph(), narrow_empty_glyph()),
    {
        self.get_map().draw()
    }
}

/// The seven shapes, for packed pieces.
#[derive(Debug)]
pub enum PieceName {
    O,
    S,
    Z,
    J,
    L,
    T,
    I,
}

impl PieceName {
    /// The shape that this name stands for.
    pub open spec fn shape(&self) -> Name {
        match self {
            PieceName::O => Name::O,
            PieceName::S => Name::S,
            PieceName::Z => Name::Z,
            PieceName::J => Name::J,
            PieceName::L => Name::L,
            PieceName::T => Name::T,
            PieceName::I => Name::I,
        }
    }

    /// The piece of this shape, in its first state.
    pub fn to_piece(&self) -> (r: Piece)
        ensures
            r.wf(),
            r@.index == 0,
            r@.states == build_states(
                cells_of_tiles(self.shape().base_tiles()),
                self.shape().turn_offsets(),
            ),
            r@.states.len() == self.shape().orientation_count(),
    {
        let mut map = PieceMap::new();
        let bits: [u16; 4] = match self {
            PieceName::O => [1, 2, 5, 6],
            PieceName::S => [5, 6, 8, 9],
            PieceName::Z => [4, 5, 9, 10],
            PieceName::J => [4, 5, 6, 10],
            PieceName::L => [4, 5, 6, 8],
            PieceName::T => [4, 5, 6, 9],
            PieceName::I => [4, 5, 6, 7],
        };
        let mut offsets: Vec<[i16; 2]> = Vec::new();
        match self {
            PieceName::O => {},
            PieceName::S => {
                offsets.push([-1, -1]);
            },
            PieceName::Z => {
                offsets.push([0, -1]);
            },
            PieceName::J | PieceName::L | PieceName::T => {
                offsets.push([0, -1]);
                offsets.push([0, 0]);
                offsets.push([-1, -1]);
            },
            PieceName::I => {
                offsets.push([1, 0]);
            },
        }
        let ghost base = self.shape().base_tiles();
        assert(packed_offsets_of(offsets@) =~= self.shape().turn_offsets());

        let mut i: usize = 0;
        while i < 4
            invariant
                0 <= i <= 4,
                base.len() == 4,
                forall|k: int| 0 <= k < 4 ==> 0 <= #[trigger] bits[k] < 16 && bits[k] == base[k],
                map@ == cells_of_tiles(base.take(i as int)),
            decreases 4 - i,
        {
            let bit: u16 = bits[i];
            map.set_bit(bit, true);
            assert(base.take(i + 1).drop_last() =~= base.take(i as int));
            i += 1;
        }
        proof {
            assert(base.take(4) =~= base);
            lemma_build_states_len(cells_of_tiles(base), self.shape().turn_offsets());
        }
        Piece::new(map, offsets.as_slice())
    }

    /// The seven shapes in their fixed order.
    pub fn all() -> (r: Vec<PieceName>)
        ensures
            r@ == seq![
                PieceName::O,
                PieceName::S,
                PieceName::Z,
                PieceName::J,
                PieceName::L,
                PieceName::T,
                PieceName::I,
            ],
    {
        let mut names: Vec<PieceName> = Vec::new();
        names.push(PieceName::O);
        names.push(PieceName::S);
        names.push(PieceName::Z);
        names.push(PieceName::J);
        names.push(PieceName::L);
        names.push(PieceName::T);
        names.push(PieceName::I);
        names
    }
}

} // verus!
