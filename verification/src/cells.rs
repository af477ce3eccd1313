//! The mathematical model: sets of occupied `(x, y)` cells and the
//! transforms, placement rules and text rendering defined on them.

use vstd::prelude::*;
use vstd::arithmetic::div_mod::{
    lemma_add_mod_noop_right, lemma_mod_multiples_vanish, lemma_small_mod,
};

verus! {

/// Whether `(x, y)` lies inside the 4x4 domain of a grid.
pub open spec fn in_grid(x: int, y: int) -> bool {
    0 <= x < 4 && 0 <= y < 4
}

/// Whether `(x, y)` lies inside the 10x20 well.
pub open spec fn in_well(x: int, y: int) -> bool {
    0 <= x < 10 && 0 <= y < 20
}

/// Whether every cell of `s` lies inside the 4x4 domain.
pub open spec fn within_grid(s: Set<(int, int)>) -> bool {
    forall|x: int, y: int| #[trigger] s.contains((x, y)) ==> in_grid(x, y)
}

/// Whether every cell of `s` lies inside the well.
pub open spec fn within_well(s: Set<(int, int)>) -> bool {
    forall|x: int, y: int| #[trigger] s.contains((x, y)) ==> in_well(x, y)
}

/// `s` with the cell `(x, y)` made occupied or empty.
pub open spec fn with_cell(s: Set<(int, int)>, x: int, y: int, value: bool) -> Set<(int, int)> {
    if value {
        s.insert((x, y))
    } else {
        s.remove((x, y))
    }
}

/// Quarter turn counter-clockwise about the centre of the 4x4 domain:
/// the new cell `(x, y)` holds what `(3 - y, x)` held.
pub open spec fn ccw_cells(s: Set<(int, int)>) -> Set<(int, int)> {
    Set::new(|c: (int, int)| s.contains((3 - c.1, c.0)))
}

/// Shift by `(dx, dy)` inside the 4x4 domain: the new cell `(x, y)` holds
/// what `(x - dx, y - dy)` held; what leaves the domain is dropped.
pub open spec fn trans_cells(s: Set<(int, int)>, dx: int, dy: int) -> Set<(int, int)> {
    Set::new(|c: (int, int)| in_grid(c.0, c.1) && s.contains((c.0 - dx, c.1 - dy)))
}

/// Whether `c` comes before `(x, y)` when the cells are walked row by row.
pub open spec fn before(c: (int, int), x: int, y: int) -> bool {
    c.1 < y || (c.1 == y && c.0 < x)
}

/// The rotation states of a piece: the base pattern, then for each offset in
/// turn the previous state turned a quarter counter-clockwise and after that
/// shifted by the offset.
pub open spec fn build_states(base: Set<(int, int)>, offsets: Seq<(int, int)>) -> Seq<
    Set<(int, int)>,
>
    decreases offsets.len(),
{
    if offsets.len() == 0 {
        seq![base]
    } else {
        let earlier = build_states(base, offsets.drop_last());
        let step = offsets.last();
        earlier.push(trans_cells(ccw_cells(earlier.last()), step.0, step.1))
    }
}

/// A piece has one state more than it has offsets.
pub proof fn lemma_build_states_len(base: Set<(int, int)>, offsets: Seq<(int, int)>)
    ensures
        build_states(base, offsets).len() == offsets.len() + 1,
    decreases offsets.len(),
{
    if offsets.len() > 0 {
        lemma_build_states_len(base, offsets.drop_last());
    }
}

/// The cells named by row-major indices into the 4x4 domain: index `4 * y + x`
/// names `(x, y)`.
pub open spec fn cells_of_tiles(tiles: Seq<int>) -> Set<(int, int)>
    decreases tiles.len(),
{
    if tiles.len() == 0 {
        Set::empty()
    } else {
        cells_of_tiles(tiles.drop_last()).insert((tiles.last() % 4, tiles.last() / 4))
    }
}

/// The index after one rotation step among `count` states: forward by one,
/// or by `count - 1`, which is one step back.
pub open spec fn step_index(index: int, count: int, forward: bool) -> int {
    (index + if forward { 1 } else { count - 1 }) % count
}

/// The glyph of an occupied cell.
pub open spec fn full_glyph() -> Seq<char> {
    seq!['[', ' ', ']']
}

/// The glyph of an empty cell.
pub open spec fn empty_glyph() -> Seq<char> {
    seq![' ', '.', ' ']
}

/// The first `n` cells of row `y`, one glyph each.
pub open spec fn render_row(s: Set<(int, int)>, y: int, n: nat, on: Seq<char>, off: Seq<char>) -> Seq<char>
    decreases n,
{
    if n == 0 {
        Seq::empty()
    } else {
        render_row(s, y, (n - 1) as nat, on, off) + if s.contains((n - 1, y)) { on } else { off }
    }
}

/// The first `n` rows of a field `width` cells wide, top to bottom, each
/// followed by a line feed.
pub open spec fn render_rows(s: Set<(int, int)>, width: nat, n: nat, on: Seq<char>, off: Seq<char>) -> Seq<char>
    decreases n,
{
    if n == 0 {
        Seq::empty()
    } else {
        render_rows(s, width, (n - 1) as nat, on, off) + render_row(s, n - 1, width, on, off)
            + seq!['\n']
    }
}

/// Whether the well cell `(x, y)` blocks a piece: everything outside the
/// well does, and inside it the occupied cells do.
pub open spec fn solid(well: Set<(int, int)>, x: int, y: int) -> bool {
    !in_well(x, y) || well.contains((x, y))
}

/// Whether `piece`, with its domain's corner at `(px, py)`, is clear of every
/// solid cell of `well`.
pub open spec fn fits_cells(well: Set<(int, int)>, piece: Set<(int, int)>, px: int, py: int) -> bool {
    forall|dx: int, dy: int| #[trigger] piece.contains((dx, dy)) ==> !solid(well, px + dx, py + dy)
}

/// `well` after `piece` has been merged into it at `(px, py)`; cells of the
/// piece that fall outside the well are dropped.
pub open spec fn imprint_cells(well: Set<(int, int)>, piece: Set<(int, int)>, px: int, py: int) -> Set<
    (int, int),
> {
    well.union(Set::new(|c: (int, int)| in_well(c.0, c.1) && piece.contains((c.0 - px, c.1 - py))))
}

/// Whether row `y` of a grid holds no occupied cell.
pub open spec fn row_empty(s: Set<(int, int)>, y: int) -> bool {
    forall|x: int| 0 <= x < 4 ==> !s.contains((x, y))
}

/// Whether `n` is the number of empty rows at the top of a grid: the rows
/// above row `n` are empty, and row `n` is not, unless all four are.
pub open spec fn is_leading_empty_rows(s: Set<(int, int)>, n: int) -> bool {
    &&& 0 <= n <= 4
    &&& forall|y: int| 0 <= y < n ==> row_empty(s, y)
    &&& n == 4 || !row_empty(s, n)
}

/// A step forward wraps from the last state to the first, and a step
/// backward from the first to the last.
pub proof fn lemma_step_index_cases(index: int, count: int)
    requires
        0 <= index < count,
    ensures
        step_index(index, count, true) == if index + 1 == count {
            0
        } else {
            index + 1
        },
        step_index(index, count, false) == if index == 0 {
            count - 1
        } else {
            index - 1
        },
{
    if index + 1 == count {
        assert((index + 1) % count == 0) by (nonlinear_arith)
            requires
                index + 1 == count,
                count > 0,
        ;
    } else {
        lemma_small_mod((index + 1) as nat, count as nat);
    }
    if index == 0 {
        lemma_small_mod((count - 1) as nat, count as nat);
    } else {
        lemma_mod_multiples_vanish(1, index - 1, count);
        lemma_small_mod((index - 1) as nat, count as nat);
        assert(count * 1 + (index - 1) == index + (count - 1));
    }
}

/// The index after `n` rotation steps in one direction.
pub open spec fn step_index_n(index: int, count: int, forward: bool, n: nat) -> int
    decreases n,
{
    if n == 0 {
        index
    } else {
        step_index(step_index_n(index, count, forward, (n - 1) as nat), count, forward)
    }
}

/// After `n` steps the index has moved by `n` times the step, modulo the
/// number of states.
proof fn lemma_step_index_n(index: int, count: int, forward: bool, n: nat)
    requires
        0 <= index < count,
    ensures
        step_index_n(index, count, forward, n) == (index + n * (if forward {
            1
        } else {
            count - 1
        })) % count,
    decreases n,
{
    let step = if forward { 1 } else { count - 1 };
    if n == 0 {
        lemma_small_mod(index as nat, count as nat);
    } else {
        lemma_step_index_n(index, count, forward, (n - 1) as nat);
        let sofar = index + (n - 1) * step;
        lemma_add_mod_noop_right(step, sofar, count);
        assert(sofar + step == index + n * step) by (nonlinear_arith)
            requires
                sofar == index + (n - 1) * step,
        ;
    }
}

/// Stepping a piece as many times as it has states, all forward or all
/// backward, brings the index back to where it was.
pub proof fn lemma_full_cycle_returns(index: int, count: int, forward: bool)
    requires
        0 <= index < count,
    ensures
        step_index_n(index, count, forward, count as nat) == index,
{
    let step = if forward { 1 } else { count - 1 };
    lemma_step_index_n(index, count, forward, count as nat);
    lemma_mod_multiples_vanish(step, index, count);
    lemma_small_mod(index as nat, count as nat);
}

/// Four quarter turns give back the pattern they started from, cell by
/// cell.
pub proof fn lemma_four_turns_identity(s: Set<(int, int)>)
    ensures
        ccw_cells(ccw_cells(ccw_cells(ccw_cells(s)))) == s,
{
}

/// A piece does not fit where one of its occupied cells would lie outside
/// the well: left of it, right of it, below its floor or above its top,
/// whatever the well holds.
pub proof fn lemma_cell_outside_never_fits(
    well: Set<(int, int)>,
    piece: Set<(int, int)>,
    px: int,
    py: int,
    dx: int,
    dy: int,
)
    requires
        piece.contains((dx, dy)),
        !in_well(px + dx, py + dy),
    ensures
        !fits_cells(well, piece, px, py),
{
}

/// Merging the same piece at the same place a second time changes nothing.
pub proof fn lemma_imprint_idempotent(
    well: Set<(int, int)>,
    piece: Set<(int, int)>,
    px: int,
    py: int,
)
    ensures
        imprint_cells(imprint_cells(well, piece, px, py), piece, px, py) == imprint_cells(
            well,
            piece,
            px,
            py,
        ),
{
}

/// Merging a piece keeps every cell that was locked and keeps the locked
/// cells inside the well.
pub proof fn lemma_imprint_grows(well: Set<(int, int)>, piece: Set<(int, int)>, px: int, py: int)
    requires
        within_well(well),
    ensures
        well.subset_of(imprint_cells(well, piece, px, py)),
        within_well(imprint_cells(well, piece, px, py)),
{
}

} // verus!
