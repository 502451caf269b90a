//! The playing field: settled blocks, the falling piece, and the moves,
//! landing and row clearing that change them.

use crate::figures::{Figure, FigureModel, FigureRepr, Point, point_model, shape_model, ceil_quarter};
use crate::random::random_below;
use vstd::prelude::*;

verus! {

broadcast use vstd::seq_lib::group_filter_ensures;

/// The falling piece: its blocks and the field position `(row, col)` of its
/// origin. Row 0 is the top row.
#[derive(Clone, Copy)]
pub struct FigureInGlass {
    pub figure: FigureRepr,
    pub position: (isize, isize),
}

/// Model of the falling piece.
pub struct ActiveModel {
    pub figure: FigureModel,
    pub position: (int, int),
}

/// Model of a field: its size, its rows of cells (`true` = occupied) from
/// top to bottom, and the falling piece if there is one.
pub struct GlassModel {
    pub width: nat,
    pub height: nat,
    pub grid: Seq<Seq<bool>>,
    pub active: Option<ActiveModel>,
}

/// Field cell `(row, col)` of block `i` of a piece whose origin is at `pos`.
pub open spec fn block_cell(fig: FigureModel, pos: (int, int), i: int) -> (int, int) {
    (pos.0 + fig.blocks[i].1, pos.1 + fig.blocks[i].0)
}

/// Whether one of the first `n` blocks of the piece lies on `(row, col)`.
pub open spec fn covers(fig: FigureModel, pos: (int, int), n: int, row: int, col: int) -> bool {
    exists|i: int| 0 <= i < n && #[trigger] block_cell(fig, pos, i) == (row, col)
}

/// Whether every cell of a row is occupied.
pub open spec fn is_full(row: Seq<bool>) -> bool {
    forall|c: int| 0 <= c < row.len() ==> #[trigger] row[c]
}

/// A row of `width` empty cells.
pub open spec fn empty_row(width: nat) -> Seq<bool> {
    Seq::new(width, |c: int| false)
}

impl ActiveModel {
    /// The model of a falling piece.
    pub open spec fn of(a: FigureInGlass) -> ActiveModel {
        ActiveModel { figure: a.figure@, position: (a.position.0 as int, a.position.1 as int) }
    }
}

impl GlassModel {
    /// Whether `(row, col)` is a cell of the field.
    pub open spec fn in_field(self, row: int, col: int) -> bool {
        0 <= row < self.height && 0 <= col < self.width
    }

    /// Every block of the piece lies inside the field.
    pub open spec fn inside(self, fig: FigureModel, pos: (int, int)) -> bool {
        forall|i: int| 0 <= i < 4 ==> self.in_cells(#[trigger] block_cell(fig, pos, i))
    }

    /// Whether a `(row, col)` pair is a cell of the field.
    pub open spec fn in_cells(self, cell: (int, int)) -> bool {
        self.in_field(cell.0, cell.1)
    }

    /// The collision test: every block of the piece lies inside the field on
    /// a free cell.
    pub open spec fn fits(self, fig: FigureModel, pos: (int, int)) -> bool {
        forall|i: int| 0 <= i < 4 ==> self.free(#[trigger] block_cell(fig, pos, i))
    }

    /// A cell inside the field that holds no settled block.
    pub open spec fn free(self, cell: (int, int)) -> bool {
        self.in_field(cell.0, cell.1) && !self.grid[cell.0][cell.1]
    }

    /// The same field with `fig` at `pos` as its falling piece.
    pub open spec fn with_active(self, fig: FigureModel, pos: (int, int)) -> GlassModel {
        GlassModel { active: Some(ActiveModel { figure: fig, position: pos }), ..self }
    }

    /// Placing a piece: it becomes the falling piece if it fits, else nothing
    /// changes. The flag tells which.
    pub open spec fn placed(self, fig: FigureModel, pos: (int, int)) -> (GlassModel, bool) {
        if self.fits(fig, pos) {
            (self.with_active(fig, pos), true)
        } else {
            (self, false)
        }
    }
}

/// A one-cell move of the falling piece.
#[derive(Clone, Copy, Debug, PartialEq, Eq, Structural)]
pub enum MoveDirection {
    Left,
    Right,
    Down,
}

/// Whether a position can be written as a pair of `isize`.
pub open spec fn in_isize(pos: (int, int)) -> bool {
    isize::MIN <= pos.0 <= isize::MAX && isize::MIN <= pos.1 <= isize::MAX
}

impl MoveDirection {
    /// The position `(row, col)` one cell away in this direction.
    pub open spec fn moved(self, pos: (int, int)) -> (int, int) {
        match self {
            MoveDirection::Left => (pos.0, pos.1 - 1),
            MoveDirection::Right => (pos.0, pos.1 + 1),
            MoveDirection::Down => (pos.0 + 1, pos.1),
        }
    }

    /// Whether the moved position can be represented.
    pub fn can_change_pos(self, position: (isize, isize)) -> (r: bool)
        ensures
            r == in_isize(self.moved((position.0 as int, position.1 as int))),
    {
        match self {
            MoveDirection::Left => position.1 > isize::MIN,
            MoveDirection::Right => position.1 < isize::MAX,
            MoveDirection::Down => position.0 < isize::MAX,
        }
    }

    /// The position `(row, col)` one cell away: left and right change the
    /// column, down adds one to the row.
    pub fn change_pos(self, position: (isize, isize)) -> (r: (isize, isize))
        requires
            in_isize(self.moved((position.0 as int, position.1 as int))),
        ensures
            (r.0 as int, r.1 as int) == self.moved((position.0 as int, position.1 as int)),
    {
        let (row, col) = position;
        match self {
            MoveDirection::Left => (row, col - 1),
            MoveDirection::Right => (row, col + 1),
            MoveDirection::Down => (row + 1, col),
        }
    }
}

impl GlassModel {
    /// Moving the falling piece one cell: it moves if the shifted piece fits,
    /// else nothing changes. Without a falling piece nothing happens.
    pub open spec fn relocated(self, direction: MoveDirection) -> (GlassModel, bool) {
        match self.active {
            None => (self, false),
            Some(a) => {
                let p = direction.moved(a.position);
                if in_isize(p) && self.fits(a.figure, p) {
                    (self.with_active(a.figure, p), true)
                } else {
                    (self, false)
                }
            },
        }
    }

    /// Rotating the falling piece in place: it turns if the turned piece fits
    /// at the same position, else nothing changes.
    pub open spec fn rotated(self) -> (GlassModel, bool) {
        match self.active {
            None => (self, false),
            Some(a) => {
                let f = a.figure.turned();
                if self.fits(f, a.position) {
                    (self.with_active(f, a.position), true)
                } else {
                    (self, false)
                }
            },
        }
    }
}

/// The grid with every in-field cell under one of the first `n` blocks of
/// the piece marked occupied.
pub open spec fn marked(grid: Seq<Seq<bool>>, fig: FigureModel, pos: (int, int), n: int) -> Seq<
    Seq<bool>,
> {
    Seq::new(
        grid.len(),
        |r: int| Seq::new(grid[r].len(), |c: int| grid[r][c] || covers(fig, pos, n, r, c)),
    )
}

impl GlassModel {
    /// Landing the falling piece: its blocks that lie in the field become
    /// settled, and no piece is falling any more.
    pub open spec fn frozen(self) -> GlassModel {
        match self.active {
            None => self,
            Some(a) => GlassModel {
                grid: marked(self.grid, a.figure, a.position, 4),
                active: None,
                ..self
            },
        }
    }
}

/// The test that keeps a row through clearing: it has a free cell.
pub open spec fn not_full() -> spec_fn(Seq<bool>) -> bool {
    |row: Seq<bool>| !is_full(row)
}

/// The grid after clearing: the rows that are not full keep their order and
/// sink to the bottom, and empty rows fill the top in place of the full ones.
pub open spec fn cleared_grid(grid: Seq<Seq<bool>>, width: nat) -> Seq<Seq<bool>> {
    let kept = grid.filter(not_full());
    Seq::new((grid.len() - kept.len()) as nat, |i: int| empty_row(width)) + kept
}

impl GlassModel {
    /// The field with every full row removed.
    pub open spec fn cleared(self) -> GlassModel {
        GlassModel { grid: cleared_grid(self.grid, self.width), ..self }
    }
}

impl GlassModel {
    /// Where a new piece enters: its top block on row 0 and its pivot column,
    /// rounded up, on the middle column.
    pub open spec fn spawn_position(self, fig: FigureModel) -> (int, int) {
        (-fig.top_row(), (self.width / 2) as int - ceil_quarter(fig.center.0))
    }

    /// Bringing in the piece of shape `f` turned `turns` times. The flag is
    /// the end of the game: the piece does not fit where it enters.
    pub open spec fn spawned(self, f: Figure, turns: nat) -> (GlassModel, bool) {
        let fig = shape_model(f).turned_times(turns);
        let (g, placed) = self.placed(fig, self.spawn_position(fig));
        (g, !placed)
    }

    /// One tick of gravity: the falling piece moves down if it can; else it
    /// lands and the next piece (shape `f` turned `turns` times) comes in.
    /// Full rows are then cleared. The flag is the end of the game.
    pub open spec fn progressed(self, f: Figure, turns: nat) -> (GlassModel, bool) {
        let (moved, ok) = self.relocated(MoveDirection::Down);
        if ok {
            (moved.cleared(), false)
        } else {
            let (g, over) = self.frozen().spawned(f, turns);
            (g.cleared(), over)
        }
    }
}

/// The field: a `width` × `height` grid of cells and at most one falling
/// piece.
pub struct Glass {
    width: usize,
    height: usize,
    rows: Vec<Vec<bool>>,
    figure: Option<FigureInGlass>,
}

impl View for Glass {
    type V = GlassModel;

    closed spec fn view(&self) -> GlassModel {
        GlassModel {
            width: self.width as nat,
            height: self.height as nat,
            grid: self.rows@.map_values(|r: Vec<bool>| r@),
            active: match self.figure {
                Some(a) => Some(ActiveModel::of(a)),
                None => None,
            },
        }
    }
}

impl Glass {
    /// The grid has `height` rows of `width` cells, and the falling piece, if
    /// any, lies inside the field.
    pub closed spec fn well_formed(&self) -> bool {
        &&& self.rows@.len() == self.height
        &&& forall|r: int| 0 <= r < self.height ==> (#[trigger] self.rows@[r])@.len() == self.width
        &&& match self.figure {
            Some(a) => self@.inside(a.figure@, (a.position.0 as int, a.position.1 as int)),
            None => true,
        }
    }

    /// An empty field of the given size, with no falling piece.
    pub fn new(width: usize, height: usize) -> (g: Glass)
        ensures
            g@.width == width,
            g@.height == height,
            g@.grid == Seq::new(height as nat, |r: int| empty_row(width as nat)),
            g@.active is None,
            g.well_formed(),
    {
        let mut rows: Vec<Vec<bool>> = Vec::new();
        let mut r: usize = 0;
        while r < height
            invariant
                r <= height,
                rows@.len() == r,
                forall|i: int| 0 <= i < r ==> (#[trigger] rows@[i])@ == empty_row(width as nat),
            decreases height - r,
        {
            let row: Vec<bool> = vec![false; width];
            assert(row@ =~= empty_row(width as nat));
            rows.push(row);
            r = r + 1;
        }
        let g = Glass { width, height, rows, figure: None };
        assert(g@.grid =~= Seq::new(height as nat, |r: int| empty_row(width as nat)));
        g
    }

    /// The number of columns.
    pub fn width(&self) -> (r: usize)
        ensures
            r == self@.width,
    {
        self.width
    }

    /// The number of rows.
    pub fn height(&self) -> (r: usize)
        ensures
            r == self@.height,
    {
        self.height
    }

    /// Whether the cell at `(row, col)` holds a settled block.
    pub fn is_filled(&self, row: usize, col: usize) -> (r: bool)
        requires
            self.well_formed(),
            row < self@.height,
            col < self@.width,
        ensures
            r == self@.grid[row as int][col as int],
    {
        self.rows[row][col]
    }

    /// The collision test of `figure` with its origin at `(row, col)`.
    pub fn fit_glass(&self, figure: &FigureRepr, position: (isize, isize)) -> (r: bool)
        requires
            self.well_formed(),
        ensures
            r == self@.fits(figure@, (position.0 as int, position.1 as int)),
    {
        let (row, col) = position;
        let b = figure.blocks();
        let ghost pos = (row as int, col as int);
        let mut i: usize = 0;
        while i < 4
            invariant
                i <= 4,
                pos == (row as int, col as int),
                position == (row, col),
                self.rows@.len() == self.height,
                forall|r: int| 0 <= r < self.height ==> (#[trigger] self.rows@[r])@.len() == self.width,
                b@.map_values(|p: Point<i32>| point_model(p)) == figure@.blocks,
                forall|j: int| 0 <= j < i ==> self@.free(#[trigger] block_cell(figure@, pos, j)),
            decreases 4 - i,
        {
            let ghost cell = block_cell(figure@, pos, i as int);
            assert(point_model(b@[i as int]) == figure@.blocks[i as int]);
            let glass_row = row as i128 + b[i].y as i128;
            let glass_col = col as i128 + b[i].x as i128;
            assert(glass_row == cell.0 && glass_col == cell.1);
            if glass_row < 0 || glass_row >= self.height as i128 || glass_col < 0 || glass_col
                >= self.width as i128 {
                assert(!self@.in_field(cell.0, cell.1));
                return false;
            }
            if self.rows[glass_row as usize][glass_col as usize] {
                assert(self@.grid[cell.0][cell.1]);
                return false;
            }
            i = i + 1;
        }
        true
    }

    /// Makes `figure` at `(row, col)` the falling piece if it fits there;
    /// otherwise changes nothing. Returns whether it was placed.
    pub fn place(&mut self, figure: FigureRepr, position: (isize, isize)) -> (r: bool)
        requires
            old(self).well_formed(),
        ensures
            final(self).well_formed(),
            (final(self)@, r) == old(self)@.placed(figure@, (position.0 as int, position.1 as int)),
    {
        if !self.fit_glass(&figure, position) {
            false
        } else {
            self.figure = Some(FigureInGlass { figure, position });
            true
        }
    }

    /// Marks one cell occupied.
    fn set_cell(&mut self, row: usize, col: usize)
        requires
            old(self).well_formed(),
            row < old(self)@.height,
            col < old(self)@.width,
        ensures
            final(self).well_formed(),
            final(self)@ == (GlassModel {
                grid: old(self)@.grid.update(row as int, old(self)@.grid[row as int].update(col as int, true)),
                ..old(self)@
            }),
    {
        let mut line = self.rows[row].clone();
        assert(line@ =~= self.rows@[row as int]@);
        line.set(col, true);
        self.rows.set(row, line);
        proof {
            assert(self@.grid =~= old(self)@.grid.update(
                row as int,
                old(self)@.grid[row as int].update(col as int, true),
            ));
        }
    }

    /// Lands the falling piece: each of its blocks that lies in the field
    /// marks its cell occupied, and no piece is falling afterwards.
    pub fn freeze_figure(&mut self)
        requires
            old(self).well_formed(),
        ensures
            final(self).well_formed(),
            final(self)@ == old(self)@.frozen(),
    {
        let taken = self.figure.take();
        if let Some(active) = taken {
            let b = active.figure.blocks();
            let ghost fig = active.figure@;
            let ghost pos = (active.position.0 as int, active.position.1 as int);
            let ghost grid0 = old(self)@.grid;
            assert(marked(grid0, fig, pos, 0) =~~= grid0);
            let mut i: usize = 0;
            while i < 4
                invariant
                    i <= 4,
                    self.well_formed(),
                    b@.map_values(|p: Point<i32>| point_model(p)) == fig.blocks,
                    pos == (active.position.0 as int, active.position.1 as int),
                    self@ == (GlassModel { grid: marked(grid0, fig, pos, i as int), active: None, ..old(self)@ }),
                    grid0 == old(self)@.grid,
                    grid0.len() == old(self)@.height,
                    forall|r: int| 0 <= r < grid0.len() ==> (#[trigger] grid0[r]).len() == old(self)@.width,
                decreases 4 - i,
            {
                assert(point_model(b@[i as int]) == fig.blocks[i as int]);
                let glass_row = active.position.0 as i128 + b[i].y as i128;
                let glass_col = active.position.1 as i128 + b[i].x as i128;
                let ghost before = self@.grid;
                if 0 <= glass_row && glass_row < self.height as i128 && 0 <= glass_col && glass_col
                    < self.width as i128 {
                    self.set_cell(glass_row as usize, glass_col as usize);
                }
                proof {
                    assert(block_cell(fig, pos, i as int) == (glass_row as int, glass_col as int));
                    assert forall|r: int, c: int|
                        0 <= r < grid0.len() && 0 <= c < grid0[r].len() implies (covers(
                        fig,
                        pos,
                        i + 1,
                        r,
                        c,
                    ) <==> covers(fig, pos, i as int, r, c) || (r, c) == (
                        glass_row as int,
                        glass_col as int,
                    )) by {
                        if covers(fig, pos, i + 1, r, c) {
                            let j = choose|j: int|
                                0 <= j < i + 1 && #[trigger] block_cell(fig, pos, j) == (r, c);
                            if j < i {
                                assert(covers(fig, pos, i as int, r, c));
                            }
                        }
                        if covers(fig, pos, i as int, r, c) {
                            let j = choose|j: int|
                                0 <= j < i && #[trigger] block_cell(fig, pos, j) == (r, c);
                            assert(covers(fig, pos, i + 1, r, c));
                        }
                    }
                    assert(self@.grid =~~= marked(grid0, fig, pos, i + 1));
                }
                i = i + 1;
            }
        }
    }

    /// Whether every cell of a row is occupied.
    fn row_is_full(&self, r: usize) -> (b: bool)
        requires
            self.well_formed(),
            r < self@.height,
        ensures
            b == is_full(self@.grid[r as int]),
    {
        let row = &self.rows[r];
        assert(row@ == self@.grid[r as int]);
        let mut c: usize = 0;
        while c < row.len()
            invariant
                row@ == self@.grid[r as int],
                c <= row@.len(),
                forall|j: int| 0 <= j < c ==> row@[j],
            decreases row@.len() - c,
        {
            if !row[c] {
                return false;
            }
            c = c + 1;
        }
        true
    }

    /// Removes every full row: the rows above each one drop down, and empty
    /// rows come in at the top, so stacked full rows all go in one call.
    pub fn clean_filled_rows(&mut self)
        requires
            old(self).well_formed(),
        ensures
            final(self).well_formed(),
            final(self)@ == old(self)@.cleared(),
    {
        let ghost grid = self@.grid;
        let mut kept: Vec<Vec<bool>> = Vec::new();
        let mut r: usize = 0;
        while r < self.height
            invariant
                self.well_formed(),
                self@ == old(self)@,
                grid == self@.grid,
                r <= self@.height,
                kept@.map_values(|v: Vec<bool>| v@) == grid.take(r as int).filter(not_full()),
                forall|i: int| 0 <= i < kept@.len() ==> (#[trigger] kept@[i])@.len() == self@.width,
            decreases self@.height - r,
        {
            proof {
                assert(grid.take(r + 1) =~= grid.take(r as int).push(grid[r as int]));
                grid.take(r as int).lemma_filter_push(grid[r as int], not_full());
            }
            if !self.row_is_full(r) {
                let line = self.rows[r].clone();
                assert(line@ =~= self.rows@[r as int]@);
                kept.push(line);
                assert(kept@.map_values(|v: Vec<bool>| v@) =~= grid.take(r + 1).filter(not_full()));
            }
            r = r + 1;
        }
        assert(grid.take(self@.height as int) =~= grid);
        let ghost kept_view = kept@.map_values(|v: Vec<bool>| v@);
        let fresh = self.height - kept.len();
        let mut rows: Vec<Vec<bool>> = Vec::new();
        while rows.len() < fresh
            invariant
                rows@.len() <= fresh,
                forall|i: int| 0 <= i < rows@.len() ==> (#[trigger] rows@[i])@ == empty_row(self@.width),
            decreases fresh - rows@.len(),
        {
            let line: Vec<bool> = vec![false; self.width];
            assert(line@ =~= empty_row(self@.width));
            rows.push(line);
        }
        rows.append(&mut kept);
        self.rows = rows;
        proof {
            assert(self@.grid =~= cleared_grid(grid, self@.width));
        }
    }

    /// Brings in the piece of shape `figure` turned `turns` times, with its top
    /// block on row 0 and its pivot on the middle column. Returns `true`, the
    /// end of the game, when it does not fit there; the field is then
    /// unchanged.
    pub fn spawn_figure(&mut self, figure: Figure, turns: u32) -> (r: bool)
        requires
            old(self).well_formed(),
        ensures
            final(self).well_formed(),
            (final(self)@, r) == old(self)@.spawned(figure, turns as nat),
    {
        let mut repr = FigureRepr::new(figure);
        let mut t: u32 = 0;
        while t < turns
            invariant
                t <= turns,
                repr@ == shape_model(figure).turned_times(t as nat),
            decreases turns - t,
        {
            repr.rotate();
            t = t + 1;
        }
        let row = 0 - repr.min_y();
        let col = (self.width / 2) as isize - repr.center_x();
        !self.place(repr, (row, col))
    }

    /// Brings in a random shape with a random number (0 to 3) of turns.
    /// Returns `true`, the end of the game, when it does not fit.
    pub fn next_figure(&mut self) -> (r: bool)
        requires
            old(self).well_formed(),
        ensures
            final(self).well_formed(),
            exists|f: Figure, turns: nat| turns < 4 && (final(self)@, r) == old(self)@.spawned(f, turns),
    {
        let figure = Figure::random();
        let turns = random_below(4) as u32;
        self.spawn_figure(figure, turns)
    }

    /// One tick of gravity with the given next piece: the falling piece moves
    /// down if it can; else it lands and the next piece comes in. Full rows
    /// are cleared either way. Returns `true` when the game is over.
    pub fn make_progress_with(&mut self, figure: Figure, turns: u32) -> (r: bool)
        requires
            old(self).well_formed(),
        ensures
            final(self).well_formed(),
            (final(self)@, r) == old(self)@.progressed(figure, turns as nat),
    {
        let over = if self.relocate_figure(MoveDirection::Down) {
            false
        } else {
            self.freeze_figure();
            self.spawn_figure(figure, turns)
        };
        self.clean_filled_rows();
        over
    }

    /// One tick of gravity; a random piece comes in when the falling one
    /// lands. Returns `true` when the game is over.
    pub fn make_progress(&mut self) -> (r: bool)
        requires
            old(self).well_formed(),
        ensures
            final(self).well_formed(),
            exists|f: Figure, turns: nat| turns < 4 && (final(self)@, r) == old(self)@.progressed(f, turns),
    {
        let ghost g0 = self@;
        if self.relocate_figure(MoveDirection::Down) {
            self.clean_filled_rows();
            assert((self@, false) == g0.progressed(Figure::Cube, 0));
            false
        } else {
            self.freeze_figure();
            let ghost g1 = self@;
            let over = self.next_figure();
            let ghost (f, t) = choose|f: Figure, t: nat| t < 4 && (self@, over) == g1.spawned(f, t);
            self.clean_filled_rows();
            assert((self@, over) == g0.progressed(f, t));
            over
        }
    }

    /// The falling piece, if there is one.
    pub fn figure(&self) -> (r: Option<FigureInGlass>)
        ensures
            r matches Some(a) ==> self@.active == Some(ActiveModel::of(a)),
            r is None ==> self@.active is None,
    {
        self.figure
    }

    /// The field cells of the falling piece's blocks, each as a point with
    /// `x` the column and `y` the row.
    pub fn figure_coordinates(&self) -> (r: Option<[Point<usize>; 4]>)
        requires
            self.well_formed(),
        ensures
            r is None <==> self@.active is None,
            r matches Some(cells) ==> forall|i: int|
                0 <= i < 4 ==> block_cell(self@.active.unwrap().figure, self@.active.unwrap().position, i)
                    == ((#[trigger] cells@[i]).y as int, cells@[i].x as int),
    {
        match self.figure {
            None => None,
            Some(active) => {
                let b = active.figure.blocks();
                let ghost fig = active.figure@;
                let ghost pos = (active.position.0 as int, active.position.1 as int);
                let mut cells: Vec<Point<usize>> = Vec::new();
                let mut i: usize = 0;
                while i < 4
                    invariant
                        i <= 4,
                        cells@.len() == i,
                        b@.map_values(|p: Point<i32>| point_model(p)) == fig.blocks,
                        pos == (active.position.0 as int, active.position.1 as int),
                        self@.inside(fig, pos),
                        forall|j: int| 0 <= j < i ==> block_cell(fig, pos, j) == ((#[trigger] cells@[j]).y as int, cells@[j].x as int),
                    decreases 4 - i,
                {
                    assert(point_model(b@[i as int]) == fig.blocks[i as int]);
                    assert(self@.in_cells(block_cell(fig, pos, i as int)));
                    let row = (active.position.0 as i128 + b[i].y as i128) as usize;
                    let col = (active.position.1 as i128 + b[i].x as i128) as usize;
                    cells.push(Point { x: col, y: row });
                    i = i + 1;
                }
                Some([cells[0], cells[1], cells[2], cells[3]])
            },
        }
    }

    /// Turns the falling piece a quarter if the turned piece fits where it
    /// stands; no other position is tried. Returns whether it turned.
    pub fn rotate_figure(&mut self) -> (r: bool)
        requires
            old(self).well_formed(),
        ensures
            final(self).well_formed(),
            (final(self)@, r) == old(self)@.rotated(),
    {
        match self.figure {
            Some(active) => {
                let mut figure = active.figure;
                figure.rotate();
                self.place(figure, active.position)
            },
            None => false,
        }
    }

    /// Moves the falling piece one cell if it fits there. Returns whether it
    /// moved.
    pub fn relocate_figure(&mut self, direction: MoveDirection) -> (r: bool)
        requires
            old(self).well_formed(),
        ensures
            final(self).well_formed(),
            (final(self)@, r) == old(self)@.relocated(direction),
    {
        match self.figure {
            Some(active) => {
                if !direction.can_change_pos(active.position) {
                    return false;
                }
                let new_position = direction.change_pos(active.position);
                self.place(active.figure, new_position)
            },
            None => false,
        }
    }
}

/// Placing a piece succeeds exactly when the collision test lets it fit.
pub proof fn lemma_place_iff_fit(g: GlassModel, fig: FigureModel, pos: (int, int))
    ensures
        g.placed(fig, pos).1 == g.fits(fig, pos),
{
}

/// After a successful placement a piece is falling; after a failed one on a
/// field without a falling piece, none is.
pub proof fn lemma_place_sets_active(g: GlassModel, fig: FigureModel, pos: (int, int))
    ensures
        g.placed(fig, pos).1 ==> g.placed(fig, pos).0.active == Some(
            ActiveModel { figure: fig, position: pos },
        ),
        !g.placed(fig, pos).1 && g.active is None ==> g.placed(fig, pos).0.active is None,
{
}

/// A piece placed and landed occupies its cells: placing it again at the
/// same position fails. If the first placement failed, landing can only fill
/// cells, so the second fails too.
pub proof fn lemma_frozen_piece_blocks_itself(g: Glass, fig: FigureModel, pos: (int, int))
    requires
        g.well_formed(),
    ensures
        !g@.placed(fig, pos).0.frozen().placed(fig, pos).1,
{
    let m = g@;
    let (g1, ok) = m.placed(fig, pos);
    let g2 = g1.frozen();
    if ok {
        let cell = block_cell(fig, pos, 0);
        assert(m.free(cell));
        assert(covers(fig, pos, 4, cell.0, cell.1));
        assert(g2.grid[cell.0][cell.1]);
        assert(!g2.free(block_cell(fig, pos, 0)));
    } else {
        let i = choose|i: int| 0 <= i < 4 && !m.free(#[trigger] block_cell(fig, pos, i));
        let cell = block_cell(fig, pos, i);
        if m.in_field(cell.0, cell.1) {
            assert(m.grid[cell.0][cell.1]);
            if let Some(a) = m.active {
                assert(g2.grid == marked(m.grid, a.figure, a.position, 4));
                assert(g2.grid[cell.0][cell.1]);
            }
        }
        assert(!g2.free(block_cell(fig, pos, i)));
    }
}

} // verus!
