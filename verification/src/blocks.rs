//! The field grid: fixed-size cell storage with bounds-checked access, plus
//! the line-clear and garbage-row operations on it.
//!
//! The grid is `FIELD_WIDTH` columns by `FIELD_MAX_HEIGHT` rows; only the
//! bottom `FIELD_HEIGHT` rows are visible, the band above them catches
//! pieces and garbage pushed past the top. Row 0 is the bottom row.

use vstd::prelude::*;
use crate::block::{spec_block_of, Block};
use crate::mino::{Angle, Mino};
use crate::position::Position;
use crate::shape::{lemma_cells_in_box, spec_cells, Shape};

verus! {

pub const FIELD_WIDTH: i8 = 10;
pub const FIELD_HEIGHT: i8 = 20;
/// Blocks pushed above this height are lost; losing a filled one ends the game.
pub const FIELD_MAX_HEIGHT: i8 = 40;

/// Cell storage, indexed `[row][column]` from the bottom-left corner.
pub struct Blocks {
    rows: Vec<Vec<Block>>,
}

impl View for Blocks {
    type V = Seq<Seq<Block>>;

    closed spec fn view(&self) -> Seq<Seq<Block>> {
        self.rows@.map_values(|r: Vec<Block>| r@)
    }
}

/// The shape every grid keeps: `FIELD_MAX_HEIGHT` rows of `FIELD_WIDTH` cells.
pub open spec fn grid_wf(g: Seq<Seq<Block>>) -> bool {
    &&& g.len() == FIELD_MAX_HEIGHT
    &&& forall|y: int| 0 <= y < g.len() ==> (#[trigger] g[y]).len() == FIELD_WIDTH
}

pub open spec fn spec_in_bounds(x: int, y: int) -> bool {
    0 <= x < FIELD_WIDTH && 0 <= y < FIELD_MAX_HEIGHT
}

pub open spec fn row_full(r: Seq<Block>) -> bool {
    forall|x: int| 0 <= x < FIELD_WIDTH ==> (#[trigger] r[x]) != Block::Empty
}

pub open spec fn row_empty(r: Seq<Block>) -> bool {
    forall|x: int| 0 <= x < FIELD_WIDTH ==> (#[trigger] r[x]) == Block::Empty
}

pub open spec fn spec_empty_row() -> Seq<Block> {
    Seq::new(FIELD_WIDTH as nat, |x: int| Block::Empty)
}

pub open spec fn spec_empty_grid() -> Seq<Seq<Block>> {
    Seq::new(FIELD_MAX_HEIGHT as nat, |y: int| spec_empty_row())
}

/// Whether every footprint cell of a piece at `pos` maps to an in-bounds
/// empty cell of `g`.
pub open spec fn spec_can_place(g: Seq<Seq<Block>>, shape: Shape, angle: Angle, pos: Position) -> bool {
    forall|i: int|
        0 <= i < 4 ==> {
            let c = #[trigger] spec_cells(shape, angle)[i];
            spec_in_bounds(pos.x + c.0, pos.y + c.1) && g[pos.y + c.1][pos.x + c.0] == Block::Empty
        }
}

/// Whether `(x, y)` is one of the 4 footprint cells of a piece at `pos`.
pub open spec fn footprint_contains(shape: Shape, angle: Angle, pos: Position, x: int, y: int) -> bool {
    exists|i: int|
        0 <= i < 4 && {
            let c = #[trigger] spec_cells(shape, angle)[i];
            pos.x + c.0 == x && pos.y + c.1 == y
        }
}

/// The grid after committing a piece: its footprint cells take the shape's
/// colour, all other cells keep their value.
pub open spec fn spec_place(g: Seq<Seq<Block>>, shape: Shape, angle: Angle, pos: Position) -> Seq<
    Seq<Block>,
> {
    Seq::new(
        g.len(),
        |y: int|
            Seq::new(
                g[y].len(),
                |x: int|
                    if footprint_contains(shape, angle, pos, x, y) {
                        spec_block_of(shape)
                    } else {
                        g[y][x]
                    },
            ),
    )
}

/// A placeable piece's anchor sits within 3 cells of the grid on every side.
pub proof fn lemma_can_place_bounds(g: Seq<Seq<Block>>, shape: Shape, angle: Angle, pos: Position)
    requires
        spec_can_place(g, shape, angle, pos),
    ensures
        -3 <= pos.x < FIELD_WIDTH,
        -3 <= pos.y < FIELD_MAX_HEIGHT,
{
    lemma_cells_in_box(shape, angle);
    let c = spec_cells(shape, angle)[0];
    assert(spec_in_bounds(pos.x + c.0, pos.y + c.1));
}

/// One footprint cell written into the grid.
pub open spec fn place_step(g: Seq<Seq<Block>>, shape: Shape, pos: Position, c: (int, int)) -> Seq<
    Seq<Block>,
> {
    g.update(pos.y + c.1, g[pos.y + c.1].update(pos.x + c.0, spec_block_of(shape)))
}

/// The grid after writing the first `k` footprint cells.
pub open spec fn place_prefix(
    g: Seq<Seq<Block>>,
    shape: Shape,
    angle: Angle,
    pos: Position,
    k: int,
) -> Seq<Seq<Block>>
    decreases k,
{
    if k <= 0 {
        g
    } else {
        place_step(
            place_prefix(g, shape, angle, pos, k - 1),
            shape,
            pos,
            spec_cells(shape, angle)[k - 1],
        )
    }
}

/// Whether `(x, y)` is among the first `k` footprint cells of a piece at `pos`.
pub open spec fn partial_footprint(
    shape: Shape,
    angle: Angle,
    pos: Position,
    k: int,
    x: int,
    y: int,
) -> bool {
    exists|i: int|
        0 <= i < k && {
            let c = #[trigger] spec_cells(shape, angle)[i];
            pos.x + c.0 == x && pos.y + c.1 == y
        }
}

/// Writing the first `k` footprint cells touches exactly those cells.
proof fn lemma_place_prefix(g: Seq<Seq<Block>>, shape: Shape, angle: Angle, pos: Position, k: int)
    requires
        grid_wf(g),
        spec_can_place(g, shape, angle, pos),
        0 <= k <= 4,
    ensures
        place_prefix(g, shape, angle, pos, k).len() == g.len(),
        forall|y: int|
            0 <= y < g.len() ==> (#[trigger] place_prefix(g, shape, angle, pos, k)[y]).len()
                == g[y].len(),
        forall|x: int, y: int|
            spec_in_bounds(x, y) ==> #[trigger] place_prefix(g, shape, angle, pos, k)[y][x] == (
            if partial_footprint(shape, angle, pos, k, x, y) {
                spec_block_of(shape)
            } else {
                g[y][x]
            }),
    decreases k,
{
    if k > 0 {
        lemma_place_prefix(g, shape, angle, pos, k - 1);
        let p = place_prefix(g, shape, angle, pos, k - 1);
        let c = spec_cells(shape, angle)[k - 1];
        assert(spec_in_bounds(pos.x + c.0, pos.y + c.1));
        assert forall|x: int, y: int| spec_in_bounds(x, y) implies #[trigger] place_prefix(
            g,
            shape,
            angle,
            pos,
            k,
        )[y][x] == (if partial_footprint(shape, angle, pos, k, x, y) {
            spec_block_of(shape)
        } else {
            g[y][x]
        }) by {
            if pos.x + c.0 == x && pos.y + c.1 == y {
                assert(partial_footprint(shape, angle, pos, k, x, y));
            } else {
                assert(place_prefix(g, shape, angle, pos, k)[y][x] == p[y][x]);
                assert(partial_footprint(shape, angle, pos, k, x, y) == partial_footprint(
                    shape,
                    angle,
                    pos,
                    k - 1,
                    x,
                    y,
                )) by {
                    if partial_footprint(shape, angle, pos, k, x, y) {
                        let i = choose|i: int|
                            0 <= i < k && {
                                let c = #[trigger] spec_cells(shape, angle)[i];
                                pos.x + c.0 == x && pos.y + c.1 == y
                            };
                        assert(i < k - 1);
                    }
                }
            }
        }
    }
}

impl Default for Blocks {
    fn default() -> (r: Self)
        ensures
            r.wf(),
            r@ =~~= spec_empty_grid(),
    {
        Blocks::new()
    }
}

impl Blocks {
    pub open spec fn wf(&self) -> bool {
        grid_wf(self@)
    }

    /// A fully empty grid.
    pub fn new() -> (r: Blocks)
        ensures
            r.wf(),
            r@ =~~= spec_empty_grid(),
    {
        let mut rows: Vec<Vec<Block>> = Vec::new();
        let mut y: usize = 0;
        while y < FIELD_MAX_HEIGHT as usize
            invariant
                rows@.len() == y,
                y <= FIELD_MAX_HEIGHT,
                forall|i: int| 0 <= i < y ==> (#[trigger] rows@[i])@ =~= spec_empty_row(),
            decreases FIELD_MAX_HEIGHT - y,
        {
            let mut row: Vec<Block> = Vec::new();
            let mut x: usize = 0;
            while x < FIELD_WIDTH as usize
                invariant
                    row@.len() == x,
                    x <= FIELD_WIDTH,
                    forall|i: int| 0 <= i < x ==> (#[trigger] row@[i]) == Block::Empty,
                decreases FIELD_WIDTH - x,
            {
                row.push(Block::Empty);
                x += 1;
            }
            assert(row@ =~= spec_empty_row());
            rows.push(row);
            y += 1;
        }
        Blocks { rows }
    }

    /// Bounds-checked read: `None` outside the grid.
    pub fn get(&self, pos: Position) -> (r: Option<Block>)
        requires
            self.wf(),
        ensures
            r.is_some() == spec_in_bounds(pos.x as int, pos.y as int),
            spec_in_bounds(pos.x as int, pos.y as int) ==> r == Some(self@[pos.y as int][pos.x as int]),
    {
        if 0 <= pos.x && pos.x < FIELD_WIDTH && 0 <= pos.y && pos.y < FIELD_MAX_HEIGHT {
            proof {
                assert(self@[pos.y as int] == self.rows@[pos.y as int]@);
            }
            Some(self.rows[pos.y as usize][pos.x as usize])
        } else {
            None
        }
    }

    /// True iff every footprint cell of the piece is in bounds and empty.
    pub fn can_place_mino(&self, mino_pos: Position, shape: Shape, angle: Angle) -> (r: bool)
        requires
            self.wf(),
        ensures
            r == spec_can_place(self@, shape, angle, mino_pos),
    {
        let cells = shape.blocks(angle);
        let mut i: usize = 0;
        while i < 4
            invariant
                self.wf(),
                cells@.len() == 4,
                i <= 4,
                forall|j: int|
                    0 <= j < 4 ==> (#[trigger] cells@[j]).x == spec_cells(shape, angle)[j].0
                        && cells@[j].y == spec_cells(shape, angle)[j].1,
                forall|j: int|
                    0 <= j < i ==> {
                        let c = #[trigger] spec_cells(shape, angle)[j];
                        spec_in_bounds(mino_pos.x + c.0, mino_pos.y + c.1) && self@[mino_pos.y
                            + c.1][mino_pos.x + c.0] == Block::Empty
                    },
            decreases 4 - i,
        {
            let x: i16 = mino_pos.x as i16 + cells[i].x as i16;
            let y: i16 = mino_pos.y as i16 + cells[i].y as i16;
            if !(0 <= x && x < FIELD_WIDTH as i16 && 0 <= y && y < FIELD_MAX_HEIGHT as i16) {
                return false;
            }
            if !matches!(self.rows[y as usize][x as usize], Block::Empty) {
                return false;
            }
            i += 1;
        }
        true
    }

    /// Commits the piece: writes its colour into every footprint cell.
    pub fn place_mino(&mut self, mino: &Mino)
        requires
            old(self).wf(),
            spec_can_place(old(self)@, mino.shape, mino.angle, mino.pos),
        ensures
            final(self).wf(),
            final(self)@ =~~= spec_place(old(self)@, mino.shape, mino.angle, mino.pos),
    {
        let cells = mino.shape.blocks(mino.angle);
        let ghost g0 = self@;
        let mut i: usize = 0;
        while i < 4
            invariant
                grid_wf(g0),
                cells@.len() == 4,
                i <= 4,
                spec_can_place(g0, mino.shape, mino.angle, mino.pos),
                forall|j: int|
                    0 <= j < 4 ==> (#[trigger] cells@[j]).x == spec_cells(mino.shape, mino.angle)[j].0
                        && cells@[j].y == spec_cells(mino.shape, mino.angle)[j].1,
                self@ == place_prefix(g0, mino.shape, mino.angle, mino.pos, i as int),
            decreases 4 - i,
        {
            let ghost c = spec_cells(mino.shape, mino.angle)[i as int];
            proof {
                lemma_place_prefix(g0, mino.shape, mino.angle, mino.pos, i as int);
                assert(spec_in_bounds(mino.pos.x + c.0, mino.pos.y + c.1));
            }
            let x: i16 = mino.pos.x as i16 + cells[i].x as i16;
            let y: i16 = mino.pos.y as i16 + cells[i].y as i16;
            let ghost pre = self@;
            proof {
                assert(pre[y as int] == self.rows@[y as int]@);
            }
            let row = &mut self.rows[y as usize];
            row.set(x as usize, Block::from_shape(mino.shape));
            proof {
                assert(self@ =~~= place_step(pre, mino.shape, mino.pos, c));
            }
            i += 1;
        }
        proof {
            lemma_place_prefix(g0, mino.shape, mino.angle, mino.pos, 4);
            assert forall|y: int| 0 <= y < g0.len() implies (#[trigger] self@[y]) =~= spec_place(
                g0,
                mino.shape,
                mino.angle,
                mino.pos,
            )[y] by {
                assert forall|x: int| 0 <= x < g0[y].len() implies self@[y][x] == spec_place(
                    g0,
                    mino.shape,
                    mino.angle,
                    mino.pos,
                )[y][x] by {
                    assert(spec_in_bounds(x, y));
                    assert(partial_footprint(mino.shape, mino.angle, mino.pos, 4, x, y)
                        == footprint_contains(mino.shape, mino.angle, mino.pos, x, y));
                }
            }
        }
    }

    /// True iff every cell of the grid is empty; used for perfect-clear
    /// detection.
    pub fn is_empty(&self) -> (r: bool)
        requires
            self.wf(),
        ensures
            r == forall|y: int| 0 <= y < self@.len() ==> row_empty(#[trigger] self@[y]),
    {
        let mut y: usize = 0;
        while y < FIELD_MAX_HEIGHT as usize
            invariant
                self.wf(),
                y <= FIELD_MAX_HEIGHT,
                forall|i: int| 0 <= i < y ==> row_empty(#[trigger] self@[i]),
            decreases FIELD_MAX_HEIGHT - y,
        {
            let mut x: usize = 0;
            while x < FIELD_WIDTH as usize
                invariant
                    self.wf(),
                    y < FIELD_MAX_HEIGHT,
                    x <= FIELD_WIDTH,
                    forall|i: int| 0 <= i < x ==> (#[trigger] self@[y as int][i]) == Block::Empty,
                decreases FIELD_WIDTH - x,
            {
                if !matches!(self.rows[y][x], Block::Empty) {
                    assert(!row_empty(self@[y as int]));
                    return false;
                }
                x += 1;
            }
            assert(row_empty(self@[y as int]));
            y += 1;
        }
        true
    }
}

/// Row indices sent to `clear_lines`: strictly descending, all on the grid.
#[derive(Debug)]
pub struct Lines(pub Vec<u8>);

/// Garbage rows waiting to enter a grid, each given by its hole column.
/// The last entry becomes the bottom row.
#[derive(Debug)]
pub struct Garbages(pub Vec<u8>);

impl View for Lines {
    type V = Seq<int>;

    open spec fn view(&self) -> Seq<int> {
        self.0@.map_values(|v: u8| v as int)
    }
}

impl View for Garbages {
    type V = Seq<int>;

    open spec fn view(&self) -> Seq<int> {
        self.0@.map_values(|v: u8| v as int)
    }
}

pub open spec fn lines_wf(ls: Seq<int>) -> bool {
    &&& forall|i: int| 0 <= i < ls.len() ==> 0 <= #[trigger] ls[i] < FIELD_MAX_HEIGHT
    &&& forall|i: int, j: int| 0 <= i < j < ls.len() ==> ls[i] > ls[j]
}

pub open spec fn holes_wf(hs: Seq<int>) -> bool {
    forall|i: int| 0 <= i < hs.len() ==> 0 <= #[trigger] hs[i] < FIELD_WIDTH
}

impl Lines {
    pub open spec fn wf(&self) -> bool {
        lines_wf(self@)
    }

    pub fn len(&self) -> (r: usize)
        ensures
            r == self@.len(),
    {
        self.0.len()
    }

    pub fn is_empty(&self) -> (r: bool)
        ensures
            r == (self@.len() == 0),
    {
        self.0.is_empty()
    }

    /// Whether `y` is one of the listed rows.
    pub fn contains(&self, y: u8) -> (r: bool)
        ensures
            r == self@.contains(y as int),
    {
        let mut i: usize = 0;
        while i < self.0.len()
            invariant
                i <= self.0.len(),
                forall|j: int| 0 <= j < i ==> #[trigger] self@[j] != y as int,
            decreases self.0.len() - i,
        {
            if self.0[i] == y {
                assert(self@[i as int] == y as int);
                return true;
            }
            i += 1;
        }
        false
    }
}

impl Garbages {
    pub open spec fn wf(&self) -> bool {
        holes_wf(self@)
    }

    pub fn len(&self) -> (r: usize)
        ensures
            r == self@.len(),
    {
        self.0.len()
    }

    pub fn is_empty(&self) -> (r: bool)
        ensures
            r == (self@.len() == 0),
    {
        self.0.is_empty()
    }
}

/// Full rows of `g` with index in `[lo, hi)`, listed in descending order.
pub open spec fn filled_desc(g: Seq<Seq<Block>>, lo: int, hi: int) -> Seq<int>
    decreases hi - lo,
{
    if hi <= lo {
        Seq::empty()
    } else if row_full(g[hi - 1]) {
        seq![hi - 1] + filled_desc(g, lo, hi - 1)
    } else {
        filled_desc(g, lo, hi - 1)
    }
}

/// The full rows of the whole grid, in descending order.
pub open spec fn spec_filled_rows(g: Seq<Seq<Block>>) -> Seq<int> {
    filled_desc(g, 0, FIELD_MAX_HEIGHT as int)
}

/// Peeling `filled_desc` at its lower bound instead of its upper one.
proof fn lemma_filled_desc_peel_lo(g: Seq<Seq<Block>>, lo: int, hi: int)
    requires
        lo < hi,
    ensures
        filled_desc(g, lo, hi) =~= filled_desc(g, lo + 1, hi) + (if row_full(g[lo]) {
            seq![lo]
        } else {
            Seq::<int>::empty()
        }),
    decreases hi - lo,
{
    if lo < hi - 1 {
        lemma_filled_desc_peel_lo(g, lo, hi - 1);
        if row_full(g[hi - 1]) {
            assert(filled_desc(g, lo, hi) =~= seq![hi - 1] + filled_desc(g, lo, hi - 1));
            assert(filled_desc(g, lo + 1, hi) =~= seq![hi - 1] + filled_desc(g, lo + 1, hi - 1));
        }
    } else {
        assert(filled_desc(g, lo, lo) =~= Seq::<int>::empty());
        assert(filled_desc(g, lo + 1, hi) =~= Seq::<int>::empty());
        if row_full(g[lo]) {
            assert(filled_desc(g, lo, hi) =~= seq![lo] + filled_desc(g, lo, lo));
            assert(filled_desc(g, lo, hi) =~= seq![lo] + Seq::<int>::empty());
        }
    }
}

/// `filled_desc` lists exactly the full rows of its range, descending.
pub proof fn lemma_filled_desc_props(g: Seq<Seq<Block>>, lo: int, hi: int)
    requires
        lo <= hi,
    ensures
        forall|j: int|
            0 <= j < filled_desc(g, lo, hi).len() ==> lo <= #[trigger] filled_desc(g, lo, hi)[j]
                < hi && row_full(g[filled_desc(g, lo, hi)[j]]),
        forall|j: int, k: int|
            0 <= j < k < filled_desc(g, lo, hi).len() ==> filled_desc(g, lo, hi)[j] > filled_desc(
                g,
                lo,
                hi,
            )[k],
        forall|y: int| lo <= y < hi && row_full(g[y]) ==> filled_desc(g, lo, hi).contains(y),
        forall|y: int|
            #[trigger] filled_desc(g, lo, hi).contains(y) ==> lo <= y < hi && row_full(g[y]),
    decreases hi - lo,
{
    if lo < hi {
        lemma_filled_desc_props(g, lo, hi - 1);
        assert forall|y: int| lo <= y < hi && row_full(g[y]) implies filled_desc(
            g,
            lo,
            hi,
        ).contains(y) by {
            if y < hi - 1 {
                assert(filled_desc(g, lo, hi - 1).contains(y));
                let j = choose|j: int|
                    0 <= j < filled_desc(g, lo, hi - 1).len() && #[trigger] filled_desc(
                        g,
                        lo,
                        hi - 1,
                    )[j] == y;
                if row_full(g[hi - 1]) {
                    assert(filled_desc(g, lo, hi)[j + 1] == y);
                } else {
                    assert(filled_desc(g, lo, hi)[j] == y);
                }
            } else {
                assert(filled_desc(g, lo, hi)[0] == y);
            }
            assert(filled_desc(g, lo, hi).contains(y));
        }
        assert forall|y: int| #[trigger] filled_desc(g, lo, hi).contains(y) implies lo <= y < hi
            && row_full(g[y]) by {
            let j = choose|j: int|
                0 <= j < filled_desc(g, lo, hi).len() && #[trigger] filled_desc(g, lo, hi)[j] == y;
            if row_full(g[hi - 1]) && j >= 1 {
                assert(filled_desc(g, lo, hi - 1)[j - 1] == y);
                assert(filled_desc(g, lo, hi - 1).contains(y));
            } else if !row_full(g[hi - 1]) {
                assert(filled_desc(g, lo, hi - 1).contains(y));
            }
        }
    }
}

/// A strictly descending list of rows on the grid has at most one entry
/// per row.
pub proof fn lemma_lines_len(ls: Seq<int>)
    requires
        lines_wf(ls),
    ensures
        ls.len() <= FIELD_MAX_HEIGHT,
    decreases ls.len(),
{
    if ls.len() > 0 {
        lemma_lines_len_bound(ls);
    }
}

proof fn lemma_lines_len_bound(ls: Seq<int>)
    requires
        lines_wf(ls),
        ls.len() > 0,
    ensures
        ls.len() <= ls[0] + 1,
    decreases ls.len(),
{
    if ls.len() > 1 {
        let tail = ls.drop_first();
        assert(forall|i: int| 0 <= i < tail.len() ==> #[trigger] tail[i] == ls[i + 1]);
        lemma_lines_len_bound(tail);
        assert(tail[0] == ls[1] && ls[1] < ls[0]);
    }
}

/// The rows of `g` below `y` whose index is not listed in `lines`, in order.
pub open spec fn kept_rows(g: Seq<Seq<Block>>, lines: Seq<int>, y: int) -> Seq<Seq<Block>>
    decreases y,
{
    if y <= 0 {
        Seq::empty()
    } else if lines.contains(y - 1) {
        kept_rows(g, lines, y - 1)
    } else {
        kept_rows(g, lines, y - 1) + seq![g[y - 1]]
    }
}

proof fn lemma_kept_rows_len(g: Seq<Seq<Block>>, lines: Seq<int>, y: int)
    requires
        y >= 0,
    ensures
        kept_rows(g, lines, y).len() <= y,
    decreases y,
{
    if y > 0 {
        lemma_kept_rows_len(g, lines, y - 1);
    }
}

/// Every kept row is one of the grid's rows, so it has the grid's width.
proof fn lemma_kept_rows_width(g: Seq<Seq<Block>>, lines: Seq<int>, y: int)
    requires
        grid_wf(g),
        0 <= y <= g.len(),
    ensures
        forall|j: int|
            0 <= j < kept_rows(g, lines, y).len() ==> (#[trigger] kept_rows(g, lines, y)[j]).len()
                == FIELD_WIDTH,
    decreases y,
{
    if y > 0 {
        lemma_kept_rows_width(g, lines, y - 1);
        assert(g[y - 1].len() == FIELD_WIDTH);
        assert forall|j: int| 0 <= j < kept_rows(g, lines, y).len() implies (
        #[trigger] kept_rows(g, lines, y)[j]).len() == FIELD_WIDTH by {
            if !lines.contains(y - 1) && j == kept_rows(g, lines, y).len() - 1 {
                assert(kept_rows(g, lines, y)[j] == g[y - 1]);
            } else {
                assert(kept_rows(g, lines, y)[j] == kept_rows(g, lines, y - 1)[j]);
            }
        }
    }
}

/// The grid after removing the listed rows: the rows not listed slide down,
/// keeping their order, and the top fills with empty rows.
pub open spec fn spec_collapse(g: Seq<Seq<Block>>, lines: Seq<int>) -> Seq<Seq<Block>> {
    let kept = kept_rows(g, lines, FIELD_MAX_HEIGHT as int);
    if kept.len() <= FIELD_MAX_HEIGHT {
        kept + Seq::new((FIELD_MAX_HEIGHT - kept.len()) as nat, |i: int| spec_empty_row())
    } else {
        kept
    }
}

impl Blocks {
    /// True iff every cell of row `y` is occupied.
    fn row_is_full(&self, y: usize) -> (r: bool)
        requires
            self.wf(),
            y < FIELD_MAX_HEIGHT as usize,
        ensures
            r == row_full(self@[y as int]),
    {
        let mut x: usize = 0;
        while x < FIELD_WIDTH as usize
            invariant
                self.wf(),
                y < FIELD_MAX_HEIGHT,
                x <= FIELD_WIDTH,
                forall|i: int| 0 <= i < x ==> (#[trigger] self@[y as int][i]) != Block::Empty,
            decreases FIELD_WIDTH - x,
        {
            if matches!(self.rows[y][x], Block::Empty) {
                assert(!row_full(self@[y as int]));
                return false;
            }
            x += 1;
        }
        true
    }

    /// True iff every cell of row `y` is empty.
    fn row_is_empty(&self, y: usize) -> (r: bool)
        requires
            self.wf(),
            y < FIELD_MAX_HEIGHT as usize,
        ensures
            r == row_empty(self@[y as int]),
    {
        let mut x: usize = 0;
        while x < FIELD_WIDTH as usize
            invariant
                self.wf(),
                y < FIELD_MAX_HEIGHT,
                x <= FIELD_WIDTH,
                forall|i: int| 0 <= i < x ==> (#[trigger] self@[y as int][i]) == Block::Empty,
            decreases FIELD_WIDTH - x,
        {
            if !matches!(self.rows[y][x], Block::Empty) {
                assert(!row_empty(self@[y as int]));
                return false;
            }
            x += 1;
        }
        true
    }

    /// The indices of all fully occupied rows, top row first.
    pub fn get_filled_lines(&self) -> (r: Lines)
        requires
            self.wf(),
        ensures
            r@ == spec_filled_rows(self@),
            r.wf(),
    {
        let ghost g = self@;
        let mut out: Vec<u8> = Vec::new();
        let mut y: usize = FIELD_MAX_HEIGHT as usize;
        while y > 0
            invariant
                self.wf(),
                g == self@,
                y <= FIELD_MAX_HEIGHT,
                out@.map_values(|v: u8| v as int) == filled_desc(g, y as int, FIELD_MAX_HEIGHT as int),
            decreases y,
        {
            proof {
                lemma_filled_desc_peel_lo(g, y - 1, FIELD_MAX_HEIGHT as int);
            }
            let ghost pre = out@;
            if self.row_is_full(y - 1) {
                out.push((y - 1) as u8);
                proof {
                    assert(out@.map_values(|v: u8| v as int) =~= pre.map_values(|v: u8| v as int)
                        + seq![(y - 1) as int]);
                }
            }
            y -= 1;
        }
        proof {
            lemma_filled_desc_props(g, 0, FIELD_MAX_HEIGHT as int);
        }
        Lines(out)
    }

    /// Removes the given rows; rows above each removed row slide down one
    /// step and the vacated top rows become empty.
    pub fn clear_lines(&mut self, full_filled_lines: &Lines)
        requires
            old(self).wf(),
            full_filled_lines.wf(),
        ensures
            final(self).wf(),
            final(self)@ =~~= spec_collapse(old(self)@, full_filled_lines@),
    {
        let ghost g = self@;
        let ghost ls = full_filled_lines@;
        let mut out: Vec<Vec<Block>> = Vec::new();
        let mut y: usize = 0;
        while y < FIELD_MAX_HEIGHT as usize
            invariant
                self.wf(),
                g == self@,
                y <= FIELD_MAX_HEIGHT,
                ls == full_filled_lines@,
                out@.map_values(|r: Vec<Block>| r@) == kept_rows(g, ls, y as int),
            decreases FIELD_MAX_HEIGHT - y,
        {
            let ghost pre = out@;
            if !full_filled_lines.contains(y as u8) {
                proof {
                    assert(self@[y as int] == self.rows@[y as int]@);
                }
                out.push(self.rows[y].clone());
                proof {
                    assert(out@.map_values(|r: Vec<Block>| r@) =~= pre.map_values(
                        |r: Vec<Block>| r@,
                    ) + seq![g[y as int]]);
                }
            }
            y += 1;
        }
        proof {
            lemma_kept_rows_len(g, ls, FIELD_MAX_HEIGHT as int);
            lemma_kept_rows_width(g, ls, FIELD_MAX_HEIGHT as int);
        }
        while out.len() < FIELD_MAX_HEIGHT as usize
            invariant
                out@.map_values(|r: Vec<Block>| r@).len() <= FIELD_MAX_HEIGHT,
                kept_rows(g, ls, FIELD_MAX_HEIGHT as int).len() <= out@.len(),
                out@.map_values(|r: Vec<Block>| r@) =~= kept_rows(g, ls, FIELD_MAX_HEIGHT as int)
                    + Seq::new(
                    (out@.len() - kept_rows(g, ls, FIELD_MAX_HEIGHT as int).len()) as nat,
                    |i: int| spec_empty_row(),
                ),
            decreases FIELD_MAX_HEIGHT - out.len(),
        {
            let ghost pre = out@;
            out.push(Self::empty_row_vec());
            proof {
                assert(out@.map_values(|r: Vec<Block>| r@) =~= pre.map_values(|r: Vec<Block>| r@)
                    + seq![spec_empty_row()]);
                assert(out@.map_values(|r: Vec<Block>| r@) =~= kept_rows(
                    g,
                    ls,
                    FIELD_MAX_HEIGHT as int,
                ) + Seq::new(
                    (out@.len() - kept_rows(g, ls, FIELD_MAX_HEIGHT as int).len()) as nat,
                    |i: int| spec_empty_row(),
                ));
            }
        }
        self.rows = out;
        proof {
            lemma_kept_rows_width(g, ls, FIELD_MAX_HEIGHT as int);
            assert(self@ == out@.map_values(|r: Vec<Block>| r@));
        }
    }

    /// One fully empty row.
    fn empty_row_vec() -> (r: Vec<Block>)
        ensures
            r@ =~= spec_empty_row(),
    {
        let mut row: Vec<Block> = Vec::new();
        let mut x: usize = 0;
        while x < FIELD_WIDTH as usize
            invariant
                row@.len() == x,
                x <= FIELD_WIDTH,
                forall|i: int| 0 <= i < x ==> (#[trigger] row@[i]) == Block::Empty,
            decreases FIELD_WIDTH - x,
        {
            row.push(Block::Empty);
            x += 1;
        }
        row
    }
}

/// One garbage row: occupied everywhere but the hole column.
pub open spec fn garbage_row(hole: int) -> Seq<Block> {
    Seq::new(
        FIELD_WIDTH as nat,
        |x: int| if x == hole { Block::Empty } else { Block::Garbage },
    )
}

/// The grid after garbage rows enter from below: the old rows slide up by
/// the row count, the top rows fall off, and the new rows sit at the bottom
/// with the last listed hole lowest.
pub open spec fn spec_push_garbage(g: Seq<Seq<Block>>, holes: Seq<int>) -> Seq<Seq<Block>> {
    Seq::new(
        FIELD_MAX_HEIGHT as nat,
        |y: int|
            if y < holes.len() {
                garbage_row(holes[holes.len() - 1 - y])
            } else {
                g[y - holes.len()]
            },
    )
}

/// Whether pushing `n` garbage rows would discard a non-empty row.
pub open spec fn spec_garbage_overflow(g: Seq<Seq<Block>>, n: int) -> bool {
    exists|y: int| FIELD_MAX_HEIGHT - n <= y < FIELD_MAX_HEIGHT && !row_empty(#[trigger] g[y])
}

impl Blocks {
    /// Pushes the garbage rows in from below. Fails, changing nothing, iff a
    /// non-empty row would be pushed off the top: the game-over signal.
    pub fn add_garbages(&mut self, garbages: &Garbages) -> (r: Result<(), ()>)
        requires
            old(self).wf(),
            garbages.wf(),
            garbages@.len() <= FIELD_MAX_HEIGHT as int,
        ensures
            final(self).wf(),
            r.is_err() == spec_garbage_overflow(old(self)@, garbages@.len() as int),
            r.is_err() ==> final(self)@ == old(self)@,
            r.is_ok() ==> final(self)@ =~~= spec_push_garbage(old(self)@, garbages@),
    {
        let ghost g = self@;
        let ghost holes = garbages@;
        let n = garbages.0.len();
        let mut y: usize = FIELD_MAX_HEIGHT as usize - n;
        while y < FIELD_MAX_HEIGHT as usize
            invariant
                self.wf(),
                g == self@,
                g == old(self)@,
                holes == garbages@,
                n == holes.len(),
                FIELD_MAX_HEIGHT as usize - n <= y <= FIELD_MAX_HEIGHT as usize,
                forall|i: int| FIELD_MAX_HEIGHT - n <= i < y ==> row_empty(#[trigger] g[i]),
            decreases FIELD_MAX_HEIGHT - y,
        {
            if !self.row_is_empty(y) {
                assert(spec_garbage_overflow(g, n as int));
                return Err(());
            }
            y += 1;
        }
        assert(!spec_garbage_overflow(g, n as int));
        let mut out: Vec<Vec<Block>> = Vec::new();
        let mut i: usize = 0;
        while i < n
            invariant
                self.wf(),
                g == self@,
                holes == garbages@,
                n == holes.len(),
                n <= FIELD_MAX_HEIGHT as usize,
                holes_wf(holes),
                i <= n,
                out@.len() == i,
                forall|j: int|
                    0 <= j < i ==> (#[trigger] out@[j])@ =~= garbage_row(holes[n - 1 - j]),
            decreases n - i,
        {
            assert(0 <= holes[n - 1 - i as int] < FIELD_WIDTH);
            let hole = garbages.0[n - 1 - i];
            out.push(Self::garbage_row_vec(hole));
            i += 1;
        }
        let mut y2: usize = 0;
        while y2 < FIELD_MAX_HEIGHT as usize - n
            invariant
                self.wf(),
                g == self@,
                holes == garbages@,
                n == holes.len(),
                n <= FIELD_MAX_HEIGHT as usize,
                y2 <= FIELD_MAX_HEIGHT as usize - n,
                out@.len() == n + y2,
                forall|j: int|
                    0 <= j < n ==> (#[trigger] out@[j])@ =~= garbage_row(holes[n - 1 - j]),
                forall|j: int| 0 <= j < y2 ==> (#[trigger] out@[n + j])@ =~= g[j],
            decreases FIELD_MAX_HEIGHT - n - y2,
        {
            proof {
                assert(g[y2 as int] == self.rows@[y2 as int]@);
            }
            out.push(self.rows[y2].clone());
            y2 += 1;
        }
        self.rows = out;
        proof {
            assert(self@ == out@.map_values(|r: Vec<Block>| r@));
            assert forall|y: int| 0 <= y < FIELD_MAX_HEIGHT implies #[trigger] self@[y]
                =~= spec_push_garbage(g, holes)[y] by {
                assert(self@[y] == out@[y]@);
                if y < n {
                    assert(out@[y]@ =~= garbage_row(holes[n - y - 1]));
                } else {
                    let j = y - n;
                    assert(out@[n + j]@ =~= g[j]);
                }
            }
            assert(self@ =~~= spec_push_garbage(g, holes));
        }
        Ok(())
    }

    /// One garbage row with its hole at the given column.
    fn garbage_row_vec(hole: u8) -> (r: Vec<Block>)
        ensures
            r@ =~= garbage_row(hole as int),
    {
        let mut row: Vec<Block> = Vec::new();
        let mut x: usize = 0;
        while x < FIELD_WIDTH as usize
            invariant
                row@.len() == x,
                x <= FIELD_WIDTH,
                forall|i: int|
                    0 <= i < x ==> (#[trigger] row@[i]) == (if i == hole as int {
                        Block::Empty
                    } else {
                        Block::Garbage
                    }),
            decreases FIELD_WIDTH - x,
        {
            if x == hole as usize {
                row.push(Block::Empty);
            } else {
                row.push(Block::Garbage);
            }
            x += 1;
        }
        row
    }
}

impl Garbages {
    /// `amount` garbage rows. The first hole column is drawn uniformly; each
    /// later row keeps the previous hole seven times out of ten and redraws
    /// it uniformly otherwise.
    pub fn from_amount(amount: u8) -> (r: Garbages)
        ensures
            r@.len() == amount as int,
            r.wf(),
    {
        let mut rng = crate::rng::new_rng();
        let mut holes: Vec<u8> = Vec::new();
        let mut i: usize = 0;
        while i < amount as usize
            invariant
                holes@.len() == i,
                i <= amount as usize,
                forall|j: int| 0 <= j < i ==> 0 <= #[trigger] holes@[j] < FIELD_WIDTH as u8,
            decreases amount as usize - i,
        {
            let h: u8 = if holes.len() == 0 {
                crate::rng::rand_below(&mut rng, FIELD_WIDTH as u8)
            } else {
                let keep = crate::rng::rand_below(&mut rng, 10) < 7;
                if keep {
                    holes[holes.len() - 1]
                } else {
                    crate::rng::rand_below(&mut rng, FIELD_WIDTH as u8)
                }
            };
            holes.push(h);
            i += 1;
        }
        let r = Garbages(holes);
        assert forall|j: int| 0 <= j < r@.len() implies 0 <= #[trigger] r@[j] < FIELD_WIDTH by {}
        r
    }
}

/// The rows of `g` below `y` that are not full, in their original order.
pub open spec fn nonfull_rows(g: Seq<Seq<Block>>, y: int) -> Seq<Seq<Block>>
    decreases y,
{
    if y <= 0 {
        Seq::empty()
    } else if row_full(g[y - 1]) {
        nonfull_rows(g, y - 1)
    } else {
        nonfull_rows(g, y - 1) + seq![g[y - 1]]
    }
}

proof fn lemma_kept_is_nonfull(g: Seq<Seq<Block>>, y: int)
    requires
        grid_wf(g),
        0 <= y <= FIELD_MAX_HEIGHT as int,
    ensures
        kept_rows(g, spec_filled_rows(g), y) =~= nonfull_rows(g, y),
    decreases y,
{
    lemma_filled_desc_props(g, 0, FIELD_MAX_HEIGHT as int);
    if y > 0 {
        lemma_kept_is_nonfull(g, y - 1);
        assert(spec_filled_rows(g).contains(y - 1) == row_full(g[y - 1]));
    }
}

/// `collapse` of exactly the full rows removes them and no others: what
/// remains is the non-full rows of the old grid, in their original order,
/// under freshly emptied rows.
pub proof fn lemma_collapse_removes_filled(g: Seq<Seq<Block>>)
    requires
        grid_wf(g),
    ensures
        spec_collapse(g, spec_filled_rows(g)).len() == FIELD_MAX_HEIGHT,
        nonfull_rows(g, FIELD_MAX_HEIGHT as int).len() <= FIELD_MAX_HEIGHT,
        forall|j: int|
            0 <= j < nonfull_rows(g, FIELD_MAX_HEIGHT as int).len() ==> #[trigger] spec_collapse(
                g,
                spec_filled_rows(g),
            )[j] == nonfull_rows(g, FIELD_MAX_HEIGHT as int)[j],
        forall|j: int|
            nonfull_rows(g, FIELD_MAX_HEIGHT as int).len() <= j < FIELD_MAX_HEIGHT
                ==> #[trigger] spec_collapse(g, spec_filled_rows(g))[j] == spec_empty_row(),
{
    let ls = spec_filled_rows(g);
    lemma_kept_is_nonfull(g, FIELD_MAX_HEIGHT as int);
    lemma_kept_rows_len(g, ls, FIELD_MAX_HEIGHT as int);
}

/// `kept_rows` with a single listed row: below it everything is kept in
/// place, above it everything slides into the gap.
proof fn lemma_kept_single(g: Seq<Seq<Block>>, r: int, y: int)
    requires
        0 <= r < g.len(),
        0 <= y <= g.len(),
    ensures
        y <= r ==> kept_rows(g, seq![r], y) =~= g.take(y),
        y > r ==> kept_rows(g, seq![r], y) =~= g.take(r) + g.subrange(r + 1, y),
    decreases y,
{
    assert(seq![r][0] == r);
    if y > 0 {
        lemma_kept_single(g, r, y - 1);
        if y - 1 == r {
            assert(seq![r].contains(y - 1));
            assert(kept_rows(g, seq![r], y) == kept_rows(g, seq![r], y - 1));
            assert(kept_rows(g, seq![r], y) =~= g.take(r) + g.subrange(r + 1, y));
        } else {
            assert(!seq![r].contains(y - 1)) by {
                if seq![r].contains(y - 1) {
                    let j = choose|j: int| 0 <= j < 1 && #[trigger] seq![r][j] == y - 1;
                    assert(j == 0);
                }
            }
            assert(kept_rows(g, seq![r], y) == kept_rows(g, seq![r], y - 1) + seq![g[y - 1]]);
            if y - 1 < r {
                assert(g.take(y) =~= g.take(y - 1) + seq![g[y - 1]]);
                assert(kept_rows(g, seq![r], y) =~= g.take(y));
            } else {
                assert(g.subrange(r + 1, y) =~= g.subrange(r + 1, y - 1) + seq![g[y - 1]]);
                assert(kept_rows(g, seq![r], y) =~= (g.take(r) + g.subrange(r + 1, y - 1)) + seq![
                    g[y - 1],
                ]);
                assert(kept_rows(g, seq![r], y) =~= g.take(r) + g.subrange(r + 1, y));
            }
        }
    }
}

/// The single-line clear, in full: when exactly one row of the grid is
/// full, the collapse removes exactly that row, the rows below it keep
/// their contents, every row above it slides down one place with its
/// order kept, and the vacated top row comes back empty.
pub proof fn lemma_single_line_clear(g: Seq<Seq<Block>>, r: int)
    requires
        grid_wf(g),
        spec_filled_rows(g) =~= seq![r],
    ensures
        0 <= r < FIELD_MAX_HEIGHT,
        spec_collapse(g, spec_filled_rows(g)).len() == FIELD_MAX_HEIGHT,
        forall|y: int|
            0 <= y < r ==> #[trigger] spec_collapse(g, spec_filled_rows(g))[y] == g[y],
        forall|y: int|
            r <= y < FIELD_MAX_HEIGHT - 1 ==> #[trigger] spec_collapse(g, spec_filled_rows(g))[y]
                == g[y + 1],
        spec_collapse(g, spec_filled_rows(g))[FIELD_MAX_HEIGHT - 1] == spec_empty_row(),
{
    let lines = spec_filled_rows(g);
    assert(seq![r][0] == r);
    assert(lines.contains(r));
    lemma_filled_desc_props(g, 0, FIELD_MAX_HEIGHT as int);
    assert(0 <= r < FIELD_MAX_HEIGHT);
    lemma_kept_single(g, r, FIELD_MAX_HEIGHT as int);
    let kept = kept_rows(g, lines, FIELD_MAX_HEIGHT as int);
    assert(kept_rows(g, seq![r], FIELD_MAX_HEIGHT as int) == kept);
    assert(kept =~= g.take(r) + g.subrange(r + 1, FIELD_MAX_HEIGHT as int));
    assert(kept.len() == FIELD_MAX_HEIGHT - 1);
    let out = spec_collapse(g, lines);
    assert(out.len() == FIELD_MAX_HEIGHT);
    assert forall|y: int| 0 <= y < r implies #[trigger] out[y] == g[y] by {
        assert(out[y] == kept[y]);
        assert(kept[y] == g.take(r)[y]);
    }
    assert forall|y: int| r <= y < FIELD_MAX_HEIGHT - 1 implies #[trigger] out[y] == g[y + 1] by {
        assert(out[y] == kept[y]);
        assert(kept[y] == g.subrange(r + 1, FIELD_MAX_HEIGHT as int)[y - r]);
    }
    assert(out[FIELD_MAX_HEIGHT - 1] == spec_empty_row());
}

/// Splitting the range of `filled_desc` at `mid` splits its result.
proof fn lemma_filled_desc_split(g: Seq<Seq<Block>>, lo: int, mid: int, hi: int)
    requires
        lo <= mid <= hi,
    ensures
        filled_desc(g, lo, hi) =~= filled_desc(g, mid, hi) + filled_desc(g, lo, mid),
    decreases hi - mid,
{
    if mid < hi {
        lemma_filled_desc_split(g, lo, mid, hi - 1);
    }
}

/// Above the pushed rows, the full rows of the pushed grid are the full
/// rows of the old grid shifted up by the push count.
proof fn lemma_filled_desc_shift(g: Seq<Seq<Block>>, holes: Seq<int>, lo: int, hi: int)
    requires
        grid_wf(g),
        0 <= holes.len() <= FIELD_MAX_HEIGHT as int,
        holes.len() <= lo <= hi <= FIELD_MAX_HEIGHT as int,
    ensures
        filled_desc(spec_push_garbage(g, holes), lo, hi) =~= filled_desc(
            g,
            lo - holes.len(),
            hi - holes.len(),
        ).map_values(|y: int| y + holes.len()),
    decreases hi - lo,
{
    let n = holes.len() as int;
    if lo < hi {
        lemma_filled_desc_shift(g, holes, lo, hi - 1);
        assert(spec_push_garbage(g, holes)[hi - 1] == g[hi - 1 - n]);
    }
}

/// Pushing garbage couples with nothing that a later collapse does: a pushed
/// row is never full (it has a hole), every surviving old row keeps its
/// contents exactly, and the full rows of the pushed grid are precisely the
/// surviving full rows of the old grid, shifted up by the push count.
pub proof fn lemma_push_then_collapse(g: Seq<Seq<Block>>, holes: Seq<int>)
    requires
        grid_wf(g),
        holes_wf(holes),
        0 <= holes.len() <= FIELD_MAX_HEIGHT as int,
    ensures
        grid_wf(spec_push_garbage(g, holes)),
        forall|y: int|
            0 <= y < holes.len() ==> !row_full(#[trigger] spec_push_garbage(g, holes)[y]),
        forall|y: int|
            holes.len() <= y < FIELD_MAX_HEIGHT as int ==> #[trigger] spec_push_garbage(g, holes)[y]
                == g[y - holes.len()],
        spec_filled_rows(spec_push_garbage(g, holes)) =~= filled_desc(
            g,
            0,
            FIELD_MAX_HEIGHT - holes.len(),
        ).map_values(|y: int| y + holes.len()),
{
    let n = holes.len() as int;
    let p = spec_push_garbage(g, holes);
    assert forall|y: int| 0 <= y < n implies !row_full(#[trigger] p[y]) by {
        let hole = holes[n - 1 - y];
        assert(p[y] == garbage_row(hole));
        assert(garbage_row(hole)[hole] == Block::Empty);
    }
    lemma_filled_desc_split(p, 0, n, FIELD_MAX_HEIGHT as int);
    lemma_filled_desc_props(p, 0, n);
    assert(filled_desc(p, 0, n) =~= Seq::<int>::empty()) by {
        if filled_desc(p, 0, n).len() > 0 {
            assert(row_full(p[filled_desc(p, 0, n)[0]]));
        }
    }
    lemma_filled_desc_shift(g, holes, n, FIELD_MAX_HEIGHT as int);
}

} // verus!
