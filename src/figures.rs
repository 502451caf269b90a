//! The seven piece shapes and the block representation of a piece.

use crate::random::random_below;
use vstd::prelude::*;

verus! {

/// One of the seven four-block piece shapes.
#[derive(Debug, Clone, Copy, PartialEq, Eq, Structural)]
pub enum Figure {
    Cube,
    Line,
    Base,
    LeftZig,
    RightZig,
    RightL,
    LeftL,
}

/// A point of a piece or of the field: `x` is the column, `y` the row.
#[derive(Clone, Copy, Debug, PartialEq)]
pub struct Point<T> {
    pub x: T,
    pub y: T,
}

impl Figure {
    /// The 4×4 layout of the shape, row by row; `true` marks a block.
    pub open spec fn pattern(self) -> Seq<bool> {
        let o = false;
        let x = true;
        match self {
            Figure::Cube => seq![
                o, o, o, o,
                o, x, x, o,
                o, x, x, o,
                o, o, o, o,
            ],
            Figure::Line => seq![
                o, o, o, o,
                o, o, o, o,
                x, x, x, x,
                o, o, o, o,
            ],
            Figure::Base => seq![
                o, o, o, o,
                o, o, x, o,
                o, x, x, x,
                o, o, o, o,
            ],
            Figure::LeftZig => seq![
                o, o, o, o,
                o, x, x, o,
                o, o, x, x,
                o, o, o, o,
            ],
            Figure::RightZig => seq![
                o, o, o, o,
                o, x, x, o,
                x, x, o, o,
                o, o, o, o,
            ],
            Figure::RightL => seq![
                o, x, o, o,
                o, x, o, o,
                o, x, x, o,
                o, o, o, o,
            ],
            Figure::LeftL => seq![
                o, o, x, o,
                o, o, x, o,
                o, x, x, o,
                o, o, o, o,
            ],
        }
    }

    /// The shapes in the order in which a random draw numbers them.
    pub open spec fn at_index(i: int) -> Figure {
        if i == 0 {
            Figure::Cube
        } else if i == 1 {
            Figure::Line
        } else if i == 2 {
            Figure::Base
        } else if i == 3 {
            Figure::LeftZig
        } else if i == 4 {
            Figure::RightZig
        } else if i == 5 {
            Figure::LeftL
        } else {
            Figure::RightL
        }
    }

    /// The shape numbered `i`.
    pub fn from_index(i: usize) -> (f: Figure)
        requires
            i < 7,
        ensures
            f == Figure::at_index(i as int),
    {
        if i == 0 {
            Figure::Cube
        } else if i == 1 {
            Figure::Line
        } else if i == 2 {
            Figure::Base
        } else if i == 3 {
            Figure::LeftZig
        } else if i == 4 {
            Figure::RightZig
        } else if i == 5 {
            Figure::LeftL
        } else {
            Figure::RightL
        }
    }

    /// A shape drawn uniformly from the seven.
    pub fn random() -> (f: Figure)
        ensures
            exists|i: int| 0 <= i < 7 && f == Figure::at_index(i),
    {
        Figure::from_index(random_below(7))
    }

    /// The shape's 4×4 layout.
    pub fn layout(self) -> (r: [bool; 16])
        ensures
            r@ == self.pattern(),
    {
        let o = false;
        let x = true;
        let r = match self {
            Figure::Cube => [
                o, o, o, o,
                o, x, x, o,
                o, x, x, o,
                o, o, o, o,
            ],
            Figure::Line => [
                o, o, o, o,
                o, o, o, o,
                x, x, x, x,
                o, o, o, o,
            ],
            Figure::Base => [
                o, o, o, o,
                o, o, x, o,
                o, x, x, x,
                o, o, o, o,
            ],
            Figure::LeftZig => [
                o, o, o, o,
                o, x, x, o,
                o, o, x, x,
                o, o, o, o,
            ],
            Figure::RightZig => [
                o, o, o, o,
                o, x, x, o,
                x, x, o, o,
                o, o, o, o,
            ],
            Figure::RightL => [
                o, x, o, o,
                o, x, o, o,
                o, x, x, o,
                o, o, o, o,
            ],
            Figure::LeftL => [
                o, o, x, o,
                o, o, x, o,
                o, x, x, o,
                o, o, o, o,
            ],
        };
        assert(r@ =~= self.pattern());
        r
    }
}


/// The least integer that is not below `a / 4`.
pub open spec fn ceil_quarter(a: int) -> int {
    (a + 3) / 4
}

/// Mathematical model of a piece: its block offsets as `(x, y)` pairs and its
/// rotation center, given in quarter units (four times the pivot, that is the
/// sum of the block coordinates it was built from).
pub struct FigureModel {
    pub blocks: Seq<(int, int)>,
    pub center: (int, int),
}

/// One block turned a quarter about the pivot `center / 4`, each coordinate
/// rounded up: `(-(y - cy) + cx, (x - cx) + cy)`.
pub open spec fn turn_point(p: (int, int), center: (int, int)) -> (int, int) {
    (ceil_quarter(center.0 + center.1 - 4 * p.1), ceil_quarter(4 * p.0 - center.0 + center.1))
}

impl FigureModel {
    /// The piece after one rotation: every block turned, the pivot kept.
    pub open spec fn turned(self) -> FigureModel {
        FigureModel {
            blocks: self.blocks.map_values(|p: (int, int)| turn_point(p, self.center)),
            center: self.center,
        }
    }

    /// The piece after `k` rotations.
    pub open spec fn turned_times(self, k: nat) -> FigureModel
        decreases k,
    {
        if k == 0 {
            self
        } else {
            self.turned_times((k - 1) as nat).turned()
        }
    }

    /// The set of cells the blocks cover.
    pub open spec fn cells(self) -> Set<(int, int)> {
        self.blocks.to_set()
    }

    /// The smallest row among the four blocks.
    pub open spec fn top_row(self) -> int {
        vstd::math::min(
            vstd::math::min(self.blocks[0].1, self.blocks[1].1),
            vstd::math::min(self.blocks[2].1, self.blocks[3].1),
        )
    }
}

/// The set cells among the first `n` cells of a 4×4 layout, in row-major
/// order, each as `(column, row)`.
pub open spec fn filled_cells(layout: Seq<bool>, n: nat) -> Seq<(int, int)>
    decreases n,
{
    if n == 0 {
        Seq::empty()
    } else {
        let i = n - 1;
        let before = filled_cells(layout, (n - 1) as nat);
        if layout[i] {
            before.push((i % 4, i / 4))
        } else {
            before
        }
    }
}

/// The piece that a 4×4 layout with four set cells describes: those cells,
/// and their sum as the center in quarter units.
pub open spec fn layout_model(layout: Seq<bool>) -> FigureModel {
    let b = filled_cells(layout, 16);
    FigureModel {
        blocks: b,
        center: (b[0].0 + b[1].0 + b[2].0 + b[3].0, b[0].1 + b[1].1 + b[2].1 + b[3].1),
    }
}

/// The unrotated piece of a shape.
pub open spec fn shape_model(f: Figure) -> FigureModel {
    layout_model(f.pattern())
}

/// A turn is a translation composed with a quarter turn: `(s - y, x + d)`.
proof fn lemma_turn_point_shift(p: (int, int), c: (int, int))
    ensures
        turn_point(p, c) == (ceil_quarter(c.0 + c.1) - p.1, p.0 + ceil_quarter(c.1 - c.0)),
{
}

/// Closed form of up to four rotations of a piece.
proof fn lemma_turned_times_closed(m: FigureModel, k: nat)
    requires
        k <= 4,
    ensures
        m.turned_times(k).center == m.center,
        m.turned_times(k).blocks.len() == m.blocks.len(),
        forall|i: int|
            0 <= i < m.blocks.len() ==> #[trigger] m.turned_times(k).blocks[i] == {
                let s = ceil_quarter(m.center.0 + m.center.1);
                let d = ceil_quarter(m.center.1 - m.center.0);
                let (x, y) = m.blocks[i];
                if k == 0 {
                    (x, y)
                } else if k == 1 {
                    (s - y, x + d)
                } else if k == 2 {
                    (s - d - x, s + d - y)
                } else if k == 3 {
                    (y - d, s - x)
                } else {
                    (x, y)
                }
            },
    decreases k,
{
    if k > 0 {
        lemma_turned_times_closed(m, (k - 1) as nat);
        let prev = m.turned_times((k - 1) as nat);
        assert forall|i: int| 0 <= i < m.blocks.len() implies #[trigger] prev.turned().blocks[i]
            == turn_point(prev.blocks[i], m.center) by {
            lemma_turn_point_shift(prev.blocks[i], m.center);
        }
    }
}

/// Four rotations bring every piece back to its blocks, in their order.
pub proof fn lemma_four_turns_restore(m: FigureModel)
    ensures
        m.turned_times(4) == m,
{
    lemma_turned_times_closed(m, 4);
    assert(m.turned_times(4).blocks =~= m.blocks);
}


/// Cells of a layout lie on the 4×4 board, in strictly increasing row-major
/// order, and their number grows with the cells scanned.
proof fn lemma_filled_cells_ordered(layout: Seq<bool>, n: nat)
    requires
        n <= layout.len(),
    ensures
        filled_cells(layout, n).len() <= n,
        forall|j: int|
            0 <= j < filled_cells(layout, n).len() ==> {
                let (x, y) = #[trigger] filled_cells(layout, n)[j];
                0 <= x < 4 && 0 <= y && y * 4 + x < n
            },
        forall|j: int, k: int|
            0 <= j < k < filled_cells(layout, n).len() ==> {
                let (xj, yj) = #[trigger] filled_cells(layout, n)[j];
                let (xk, yk) = #[trigger] filled_cells(layout, n)[k];
                yj * 4 + xj < yk * 4 + xk
            },
    decreases n,
{
    if n > 0 {
        lemma_filled_cells_ordered(layout, (n - 1) as nat);
    }
}

/// Scanning more cells never finds fewer set ones.
proof fn lemma_filled_cells_grow(layout: Seq<bool>, m: nat, n: nat)
    requires
        m <= n,
    ensures
        filled_cells(layout, m).len() <= filled_cells(layout, n).len(),
    decreases n,
{
    if m < n {
        lemma_filled_cells_grow(layout, m, (n - 1) as nat);
    }
}

/// The blocks of each shape, as its layout gives them.
proof fn lemma_shape_cells(f: Figure)
    ensures
        filled_cells(f.pattern(), 16) == match f {
            Figure::Cube => seq![(1int, 1int), (2, 1), (1, 2), (2, 2)],
            Figure::Line => seq![(0int, 2int), (1, 2), (2, 2), (3, 2)],
            Figure::Base => seq![(2int, 1int), (1, 2), (2, 2), (3, 2)],
            Figure::LeftZig => seq![(1int, 1int), (2, 1), (2, 2), (3, 2)],
            Figure::RightZig => seq![(1int, 1int), (2, 1), (0, 2), (1, 2)],
            Figure::RightL => seq![(1int, 0int), (1, 1), (1, 2), (2, 2)],
            Figure::LeftL => seq![(2int, 0int), (2, 1), (1, 2), (2, 2)],
        },
{
    reveal_with_fuel(filled_cells, 17);
    let c = filled_cells(f.pattern(), 16);
    match f {
        Figure::Cube => assert(c =~= seq![(1int, 1int), (2, 1), (1, 2), (2, 2)]),
        Figure::Line => assert(c =~= seq![(0int, 2int), (1, 2), (2, 2), (3, 2)]),
        Figure::Base => assert(c =~= seq![(2int, 1int), (1, 2), (2, 2), (3, 2)]),
        Figure::LeftZig => assert(c =~= seq![(1int, 1int), (2, 1), (2, 2), (3, 2)]),
        Figure::RightZig => assert(c =~= seq![(1int, 1int), (2, 1), (0, 2), (1, 2)]),
        Figure::RightL => assert(c =~= seq![(1int, 0int), (1, 1), (1, 2), (2, 2)]),
        Figure::LeftL => assert(c =~= seq![(2int, 0int), (2, 1), (1, 2), (2, 2)]),
    }
}

/// One, two or three rotations move every shape but the cube off the cells
/// it covered: the set of covered cells changes.
pub proof fn lemma_turns_move_asymmetric_shapes(f: Figure, k: nat)
    requires
        f != Figure::Cube,
        1 <= k <= 3,
    ensures
        shape_model(f).turned_times(k).cells() != shape_model(f).cells(),
{
    let m = shape_model(f);
    lemma_shape_cells(f);
    lemma_turned_times_closed(m, k);
    let t = m.turned_times(k);
    let w: int = if f == Figure::Base && k == 1 {
        3
    } else if (f == Figure::Base || f == Figure::RightZig) && k == 3 {
        1
    } else {
        0
    };
    assert(t.cells().contains(t.blocks[w]));
    assert(!m.cells().contains(t.blocks[w]));
}

/// The cube is the exception: every rotation keeps the cells it covers.
pub proof fn lemma_cube_turns_in_place(k: nat)
    requires
        k <= 4,
    ensures
        shape_model(Figure::Cube).turned_times(k).cells() == shape_model(Figure::Cube).cells(),
{
    let m = shape_model(Figure::Cube);
    lemma_shape_cells(Figure::Cube);
    lemma_turned_times_closed(m, k);
    let t = m.turned_times(k);
    assert forall|p: (int, int)| t.cells().contains(p) implies m.cells().contains(p) by {
        let i = choose|i: int| 0 <= i < 4 && t.blocks[i] == p;
        assert(m.blocks.contains(p));
    }
    assert forall|p: (int, int)| m.cells().contains(p) implies t.cells().contains(p) by {
        let i = choose|i: int| 0 <= i < 4 && m.blocks[i] == p;
        let image = if k == 1 {
            seq![2int, 0, 3, 1]
        } else if k == 2 {
            seq![3int, 2, 1, 0]
        } else if k == 3 {
            seq![1int, 3, 0, 2]
        } else {
            seq![0int, 1, 2, 3]
        };
        assert(t.blocks[image[i]] == p);
    }
    assert(t.cells() =~= m.cells());
}

/// View of a block as a pair of integers.
pub open spec fn point_model(p: Point<i32>) -> (int, int) {
    (p.x as int, p.y as int)
}

/// The block representation of a piece: four block offsets and the
/// rotation pivot. The pivot is fixed when the piece is built from a layout
/// and kept through rotations.
#[derive(Clone, Copy)]
pub struct FigureRepr {
    /// block coordinates
    blocks: [Point<i32>; 4],
    /// rotation center, in quarter units: the sum of the initial block coordinates
    center: Point<i32>,
    /// the blocks the piece was built with
    origin: Ghost<Seq<(int, int)>>,
    /// rotations applied since, modulo four
    turns: Ghost<nat>,
}

impl View for FigureRepr {
    type V = FigureModel;

    closed spec fn view(&self) -> FigureModel {
        FigureModel {
            blocks: self.blocks@.map_values(|p: Point<i32>| point_model(p)),
            center: (self.center.x as int, self.center.y as int),
        }
    }
}

impl FigureRepr {
    /// The piece as it was built, before any rotation.
    spec fn origin_model(self) -> FigureModel {
        FigureModel { blocks: self.origin@, center: self@.center }
    }

    #[verifier::type_invariant]
    spec fn well_formed(self) -> bool {
        let o = self.origin@;
        &&& o.len() == 4
        &&& forall|i: int| 0 <= i < 4 ==> 0 <= #[trigger] o[i].0 < 4 && 0 <= o[i].1 < 4
        &&& self@.center == (o[0].0 + o[1].0 + o[2].0 + o[3].0, o[0].1 + o[1].1 + o[2].1 + o[3].1)
        &&& self.turns@ < 4
        &&& self@ == self.origin_model().turned_times(self.turns@)
        &&& self@.blocks.no_duplicates()
    }

    /// Builds the piece described by a 4×4 layout, scanned in row-major order.
    /// The layout must hold exactly four set cells.
    pub fn from_layout(layout: [bool; 16]) -> (r: FigureRepr)
        requires
            filled_cells(layout@, 16).len() == 4,
        ensures
            r@ == layout_model(layout@),
    {
        let mut found: Vec<Point<i32>> = Vec::new();
        let mut idx: usize = 0;
        while idx < 16
            invariant
                idx <= 16,
                filled_cells(layout@, 16).len() == 4,
                found@.map_values(|p: Point<i32>| point_model(p)) == filled_cells(layout@, idx as nat),
            decreases 16 - idx,
        {
            proof {
                lemma_filled_cells_ordered(layout@, idx as nat);
                lemma_filled_cells_grow(layout@, (idx + 1) as nat, 16);
            }
            if layout[idx] {
                let p = Point { x: (idx % 4) as i32, y: (idx / 4) as i32 };
                found.push(p);
                assert(found@.map_values(|p: Point<i32>| point_model(p)) =~= filled_cells(
                    layout@,
                    (idx + 1) as nat,
                ));
            }
            idx = idx + 1;
        }
        proof {
            lemma_filled_cells_ordered(layout@, 16);
        }
        let ghost cells = filled_cells(layout@, 16);
        assert(found@.len() == 4);
        assert(forall|i: int| 0 <= i < 4 ==> point_model(found@[i]) == cells[i]);
        assert(forall|i: int| 0 <= i < 4 ==> 0 <= #[trigger] cells[i].0 < 4 && 0 <= cells[i].1 < 4);
        let blocks = [found[0], found[1], found[2], found[3]];
        assert(forall|i: int| 0 <= i < 4 ==> point_model(#[trigger] blocks@[i]) == cells[i]);
        let cx = blocks[0].x + blocks[1].x + blocks[2].x + blocks[3].x;
        let cy = blocks[0].y + blocks[1].y + blocks[2].y + blocks[3].y;
        assert(blocks@.map_values(|p: Point<i32>| point_model(p)) =~= cells);
        assert(cells.no_duplicates()) by {
            assert forall|j: int, k: int| 0 <= j < cells.len() && 0 <= k < cells.len() && j != k
                implies cells[j] != cells[k] by {
                if j < k {
                    assert(cells[j].1 * 4 + cells[j].0 < cells[k].1 * 4 + cells[k].0);
                } else {
                    assert(cells[k].1 * 4 + cells[k].0 < cells[j].1 * 4 + cells[j].0);
                }
            }
        }
        let r = FigureRepr {
            blocks,
            center: Point { x: cx, y: cy },
            origin: Ghost(cells),
            turns: Ghost(0),
        };
        assert(r@.blocks =~= cells);
        assert(r@ == layout_model(layout@));
        r
    }

    /// Every block offset and the center stay small.
    proof fn lemma_bounded(self)
        requires
            self.well_formed(),
        ensures
            0 <= self.center.x <= 12,
            0 <= self.center.y <= 12,
            forall|i: int|
                0 <= i < 4 ==> -12 <= #[trigger] self.blocks@[i].x <= 12 && -12 <= self.blocks@[i].y
                    <= 12,
    {
        let o = self.origin_model();
        lemma_turned_times_closed(o, self.turns@);
        assert forall|i: int| 0 <= i < 4 implies -12 <= #[trigger] self.blocks@[i].x <= 12 && -12
            <= self.blocks@[i].y <= 12 by {
            assert(self@.blocks[i] == point_model(self.blocks@[i]));
            assert(0 <= o.blocks[i].0 < 4 && 0 <= o.blocks[i].1 < 4);
        }
    }

    /// Blocks turned by `(s - y, x + d)` make a well-formed piece: the same one
    /// turned once more.
    proof fn lemma_turn_step(self, blocks: [Point<i32>; 4], next: nat)
        requires
            self.well_formed(),
            next == if self.turns@ == 3 { 0 } else { self.turns@ + 1 },
            forall|i: int|
                0 <= i < 4 ==> point_model(#[trigger] blocks@[i]) == (
                    ceil_quarter(self@.center.0 + self@.center.1) - self@.blocks[i].1,
                    self@.blocks[i].0 + ceil_quarter(self@.center.1 - self@.center.0),
                ),
        ensures
            ({
                let r = FigureRepr { blocks, center: self.center, origin: self.origin, turns: Ghost(next) };
                r.well_formed() && r@ == self@.turned()
            }),
    {
        let r = FigureRepr { blocks, center: self.center, origin: self.origin, turns: Ghost(next) };
        let old_view = self@;
        let new_blocks = r@.blocks;
        assert forall|i: int| 0 <= i < 4 implies #[trigger] new_blocks[i] == turn_point(
            old_view.blocks[i],
            old_view.center,
        ) by {
            lemma_turn_point_shift(old_view.blocks[i], old_view.center);
        }
        assert(new_blocks =~= old_view.turned().blocks);
        let o = self.origin_model();
        if self.turns@ == 3 {
            lemma_four_turns_restore(o);
        }
        assert(o.turned_times((self.turns@ + 1) as nat) == old_view.turned());
        assert(new_blocks.no_duplicates()) by {
            assert forall|j: int, k: int| 0 <= j < 4 && 0 <= k < 4 && j != k implies new_blocks[j]
                != new_blocks[k] by {
                assert(old_view.blocks[j] != old_view.blocks[k]);
            }
        }
    }

    /// Builds the unrotated piece of a shape from its layout.
    pub fn new(figure: Figure) -> (r: FigureRepr)
        ensures
            r@ == shape_model(figure),
    {
        proof {
            lemma_shape_cells(figure);
        }
        FigureRepr::from_layout(figure.layout())
    }

    /// Rotates the piece a quarter turn about its pivot, rounding each new
    /// coordinate up; the pivot stays where it is.
    pub fn rotate(&mut self)
        ensures
            final(self)@ == old(self)@.turned(),
    {
        proof {
            use_type_invariant(&*self);
            self.lemma_bounded();
        }
        let cx = self.center.x;
        let cy = self.center.y;
        let s = ceil_div4(cx + cy);
        let d = ceil_div4(cy - cx);
        let b = self.blocks;
        assert(0 <= s <= 7 && -4 <= d <= 4);
        assert(forall|i: int| 0 <= i < 4 ==> -12 <= (#[trigger] b@[i]).x <= 12 && -12 <= b@[i].y <= 12);
        let blocks = [
            Point { x: s - b[0].y, y: b[0].x + d },
            Point { x: s - b[1].y, y: b[1].x + d },
            Point { x: s - b[2].y, y: b[2].x + d },
            Point { x: s - b[3].y, y: b[3].x + d },
        ];
        let next: Ghost<nat> = Ghost(if self.turns@ == 3 { 0 } else { self.turns@ + 1 });
        proof {
            self.lemma_turn_step(blocks, next@);
        }
        *self = FigureRepr { blocks, center: self.center, origin: self.origin, turns: next };
    }

    /// The pivot's column, rounded up.
    pub fn center_x(&self) -> (r: isize)
        ensures
            r == ceil_quarter(self@.center.0),
            0 <= r <= 3,
    {
        proof {
            use_type_invariant(self);
        }
        ceil_div4(self.center.x) as isize
    }

    /// The smallest row offset among the blocks.
    pub fn min_y(&self) -> (r: isize)
        ensures
            r == self@.top_row(),
            -12 <= r <= 12,
    {
        proof {
            use_type_invariant(self);
            self.lemma_bounded();
        }
        let b = self.blocks;
        assert(self@.blocks[0] == point_model(b@[0]) && self@.blocks[1] == point_model(b@[1]));
        assert(self@.blocks[2] == point_model(b@[2]) && self@.blocks[3] == point_model(b@[3]));
        let mut m = b[0].y;
        if b[1].y < m {
            m = b[1].y;
        }
        if b[2].y < m {
            m = b[2].y;
        }
        if b[3].y < m {
            m = b[3].y;
        }
        m as isize
    }

    /// The four block offsets.
    pub fn blocks(&self) -> (r: [Point<i32>; 4])
        ensures
            r@.map_values(|p: Point<i32>| point_model(p)) == self@.blocks,
            self@.blocks.len() == 4,
    {
        self.blocks
    }
}

/// `ceil(a / 4)` on a small integer.
fn ceil_div4(a: i32) -> (r: i32)
    requires
        -1000 <= a <= 1000,
    ensures
        r == ceil_quarter(a as int),
{
    (((a + 1003) as u32) / 4) as i32 - 250
}

} // verus!
