//! Marching squares: from the densities at a cell's corners to the line
//! segments of the contour through the cell.
//!
//! The contour is described by topology alone. A segment names the two cell
//! edges that it joins; where on an edge its end lies is a matter of the two
//! corner densities of that edge, which the segment's cell carries along.

use vstd::prelude::*;
use vstd::seq_lib::lemma_seq_concat_contains_all_elements;
use crate::density::{
    above_zero, at_or_above_iso, is_above_zero, is_at_or_above_iso, is_density, EMPTY,
};
use crate::field::{VoxelMap, Grid};

verus! {

/// A corner of a cell, in the order in which the case index counts them.
#[derive(Clone, Copy, Debug, PartialEq, Eq, Structural)]
pub enum Corner {
    /// The cell's own sample, `(x, y)`.
    BottomLeft,
    /// `(x + 1, y)`.
    BottomRight,
    /// `(x + 1, y + 1)`.
    TopRight,
    /// `(x, y + 1)`.
    TopLeft,
}

/// An edge of a cell.
#[derive(Clone, Copy, Debug, PartialEq, Eq, Structural)]
pub enum Edge {
    /// From bottom left to top left.
    Left,
    /// From top left to top right.
    Top,
    /// From bottom right to top right.
    Right,
    /// From bottom left to bottom right.
    Bottom,
}

/// A piece of contour inside one cell, joining a point on one edge to a
/// point on another.
#[derive(Clone, Copy, Debug, PartialEq, Eq, Structural)]
pub struct Segment {
    /// The edge on which the segment starts.
    pub from: Edge,
    /// The edge on which the segment ends.
    pub to: Edge,
}

/// One square of the grid with the densities at its four corners.
#[derive(Clone, Copy, Debug, PartialEq, Eq, Structural)]
pub struct Cell {
    /// Column of the bottom-left corner.
    pub x: i32,
    /// Row of the bottom-left corner.
    pub y: i32,
    /// Density at the bottom-left corner.
    pub v0: u32,
    /// Density at the bottom-right corner.
    pub v1: u32,
    /// Density at the top-right corner.
    pub v2: u32,
    /// Density at the top-left corner.
    pub v3: u32,
}

/// What the contour gives out for drawing.
#[derive(Clone, Copy, Debug, PartialEq, Eq, Structural)]
pub enum Emission {
    /// A marker at the cell's bottom-left corner, which holds more than
    /// empty space.
    Marker(Cell),
    /// A segment of the contour through the cell.
    Line(Cell, Segment),
}

impl Corner {
    /// Weight of the corner in the case index: one, two, four, eight.
    pub open spec fn weight(self) -> int {
        match self {
            Corner::BottomLeft => 1,
            Corner::BottomRight => 2,
            Corner::TopRight => 4,
            Corner::TopLeft => 8,
        }
    }

    /// How far the corner lies from the cell's own sample, in columns and rows.
    pub open spec fn offset(self) -> (int, int) {
        match self {
            Corner::BottomLeft => (0, 0),
            Corner::BottomRight => (1, 0),
            Corner::TopRight => (1, 1),
            Corner::TopLeft => (0, 1),
        }
    }

    /// Computes `offset`.
    pub fn grid_offset(self) -> (step: (i32, i32))
        ensures
            step.0 == self.offset().0,
            step.1 == self.offset().1,
    {
        match self {
            Corner::BottomLeft => (0, 0),
            Corner::BottomRight => (1, 0),
            Corner::TopRight => (1, 1),
            Corner::TopLeft => (0, 1),
        }
    }
}

impl Edge {
    /// The two corners that the edge joins, in the order in which a point
    /// is placed between them: the first is where the edge starts.
    pub open spec fn ends(self) -> (Corner, Corner) {
        match self {
            Edge::Left => (Corner::BottomLeft, Corner::TopLeft),
            Edge::Top => (Corner::TopLeft, Corner::TopRight),
            Edge::Right => (Corner::BottomRight, Corner::TopRight),
            Edge::Bottom => (Corner::BottomLeft, Corner::BottomRight),
        }
    }

    /// Computes `ends`.
    pub fn corners(self) -> (pair: (Corner, Corner))
        ensures
            pair == self.ends(),
    {
        match self {
            Edge::Left => (Corner::BottomLeft, Corner::TopLeft),
            Edge::Top => (Corner::TopLeft, Corner::TopRight),
            Edge::Right => (Corner::BottomRight, Corner::TopRight),
            Edge::Bottom => (Corner::BottomLeft, Corner::BottomRight),
        }
    }
}

/// The segment from `from` to `to`.
pub open spec fn seg(from: Edge, to: Edge) -> Segment {
    Segment { from, to }
}

/// The table of marching squares: the segments of a cell by its case index.
/// Cases five and ten, where only two opposite corners are solid, give two
/// segments; no attempt is made to tell which pair of corners is connected.
pub open spec fn case_segments(case: int) -> Seq<Segment> {
    if case == 1 {
        seq![seg(Edge::Left, Edge::Bottom)]
    } else if case == 2 {
        seq![seg(Edge::Bottom, Edge::Right)]
    } else if case == 3 {
        seq![seg(Edge::Left, Edge::Right)]
    } else if case == 4 {
        seq![seg(Edge::Right, Edge::Top)]
    } else if case == 5 {
        seq![seg(Edge::Left, Edge::Bottom), seg(Edge::Top, Edge::Right)]
    } else if case == 6 {
        seq![seg(Edge::Bottom, Edge::Top)]
    } else if case == 7 {
        seq![seg(Edge::Left, Edge::Top)]
    } else if case == 8 {
        seq![seg(Edge::Left, Edge::Top)]
    } else if case == 9 {
        seq![seg(Edge::Bottom, Edge::Top)]
    } else if case == 10 {
        seq![seg(Edge::Left, Edge::Top), seg(Edge::Right, Edge::Bottom)]
    } else if case == 11 {
        seq![seg(Edge::Right, Edge::Top)]
    } else if case == 12 {
        seq![seg(Edge::Left, Edge::Right)]
    } else if case == 13 {
        seq![seg(Edge::Bottom, Edge::Right)]
    } else if case == 14 {
        seq![seg(Edge::Left, Edge::Bottom)]
    } else {
        seq![]
    }
}

/// Looks up the table. Every `case` is accepted; those that are no case
/// index of a cell with a contour through it, zero and fifteen among them,
/// give no segment.
pub fn segments_for_case(case: u8) -> (segments: Vec<Segment>)
    ensures
        segments@ == case_segments(case as int),
{
    let segments = match case {
        1 => vec![Segment { from: Edge::Left, to: Edge::Bottom }],
        2 => vec![Segment { from: Edge::Bottom, to: Edge::Right }],
        3 => vec![Segment { from: Edge::Left, to: Edge::Right }],
        4 => vec![Segment { from: Edge::Right, to: Edge::Top }],
        5 => vec![
            Segment { from: Edge::Left, to: Edge::Bottom },
            Segment { from: Edge::Top, to: Edge::Right },
        ],
        6 => vec![Segment { from: Edge::Bottom, to: Edge::Top }],
        7 => vec![Segment { from: Edge::Left, to: Edge::Top }],
        8 => vec![Segment { from: Edge::Left, to: Edge::Top }],
        9 => vec![Segment { from: Edge::Bottom, to: Edge::Top }],
        10 => vec![
            Segment { from: Edge::Left, to: Edge::Top },
            Segment { from: Edge::Right, to: Edge::Bottom },
        ],
        11 => vec![Segment { from: Edge::Right, to: Edge::Top }],
        12 => vec![Segment { from: Edge::Left, to: Edge::Right }],
        13 => vec![Segment { from: Edge::Bottom, to: Edge::Right }],
        14 => vec![Segment { from: Edge::Left, to: Edge::Bottom }],
        _ => Vec::new(),
    };
    assert(segments@ =~= case_segments(case as int));
    segments
}

impl Cell {
    /// The density at a corner.
    pub open spec fn density(self, corner: Corner) -> u32 {
        match corner {
            Corner::BottomLeft => self.v0,
            Corner::BottomRight => self.v1,
            Corner::TopRight => self.v2,
            Corner::TopLeft => self.v3,
        }
    }

    /// Whether a corner is solid: at or above the iso level.
    pub open spec fn solid(self, corner: Corner) -> bool {
        at_or_above_iso(self.density(corner))
    }

    /// What a corner adds to the case index: its weight if solid, else nothing.
    pub open spec fn share(self, corner: Corner) -> int {
        if self.solid(corner) {
            corner.weight()
        } else {
            0
        }
    }

    /// The case index: the sum of the weights of the solid corners.
    pub open spec fn case(self) -> int {
        self.share(Corner::BottomLeft) + self.share(Corner::BottomRight) + self.share(
            Corner::TopRight,
        ) + self.share(Corner::TopLeft)
    }

    /// Whether the contour crosses an edge: one end is solid, the other not.
    pub open spec fn crosses(self, edge: Edge) -> bool {
        self.solid(edge.ends().0) != self.solid(edge.ends().1)
    }

    /// The segments of the contour through the cell.
    pub open spec fn contour(self) -> Seq<Segment> {
        case_segments(self.case())
    }

    /// What the cell gives out: the marker, where asked for and due, then
    /// its segments in the table's order.
    pub open spec fn emissions(self, markers: bool) -> Seq<Emission> {
        let mark = if markers && above_zero(self.v0) {
            seq![Emission::Marker(self)]
        } else {
            seq![]
        };
        mark + Seq::new(self.contour().len(), |i: int| Emission::Line(self, self.contour()[i]))
    }

    /// Reads the density at a corner.
    pub fn density_at(&self, corner: Corner) -> (density: u32)
        ensures
            density == self.density(corner),
    {
        match corner {
            Corner::BottomLeft => self.v0,
            Corner::BottomRight => self.v1,
            Corner::TopRight => self.v2,
            Corner::TopLeft => self.v3,
        }
    }

    /// Computes the case index, a number below sixteen.
    pub fn case_index(&self) -> (case: u8)
        ensures
            case == self.case(),
            case < 16,
    {
        let mut case: u8 = 0;
        if is_at_or_above_iso(self.v0) {
            case = case + 1;
        }
        if is_at_or_above_iso(self.v1) {
            case = case + 2;
        }
        if is_at_or_above_iso(self.v2) {
            case = case + 4;
        }
        if is_at_or_above_iso(self.v3) {
            case = case + 8;
        }
        case
    }

    /// The segments of the contour through the cell, in the table's order.
    pub fn segments(&self) -> (segments: Vec<Segment>)
        ensures
            segments@ == self.contour(),
    {
        segments_for_case(self.case_index())
    }

    /// Appends to `out` what the cell gives out.
    pub fn emit(&self, markers: bool, out: &mut Vec<Emission>)
        ensures
            final(out)@ == old(out)@ + self.emissions(markers),
    {
        if markers && is_above_zero(self.v0) {
            out.push(Emission::Marker(*self));
        }
        let ghost start = out@;
        let segments = self.segments();
        let mut i: usize = 0;
        while i < segments.len()
            invariant
                i <= segments.len(),
                segments@ == self.contour(),
                out@ == start + Seq::new(
                    i as nat,
                    |k: int| Emission::Line(*self, self.contour()[k]),
                ),
            decreases segments.len() - i,
        {
            out.push(Emission::Line(*self, segments[i]));
            i = i + 1;
        }
        assert(out@ =~= old(out)@ + self.emissions(markers));
    }
}

/// The cell whose bottom-left corner is sample `(x, y)` of the grid. Corners
/// beyond the grid read as empty space.
pub open spec fn cell_at(grid: Grid, x: int, y: int) -> Cell {
    Cell {
        x: x as i32,
        y: y as i32,
        v0: grid.density(x, y),
        v1: grid.density(x + 1, y),
        v2: grid.density(x + 1, y + 1),
        v3: grid.density(x, y + 1),
    }
}

/// What the first `cells` cells of row `y` give out, left to right.
pub open spec fn row_emissions(grid: Grid, y: int, cells: int, markers: bool) -> Seq<Emission>
    decreases cells,
{
    if cells <= 0 {
        seq![]
    } else {
        row_emissions(grid, y, cells - 1, markers) + cell_at(grid, cells - 1, y).emissions(markers)
    }
}

/// What the first `rows` rows of cells give out, bottom to top. A row of
/// cells is one shorter than a row of samples: each cell needs a sample to
/// its right.
pub open spec fn rows_emissions(grid: Grid, rows: int, markers: bool) -> Seq<Emission>
    decreases rows,
{
    if rows <= 0 {
        seq![]
    } else {
        rows_emissions(grid, rows - 1, markers) + row_emissions(
            grid,
            rows - 1,
            grid.width - 1,
            markers,
        )
    }
}

/// What the whole grid gives out. There is one row of cells fewer than rows
/// of samples: each cell needs a sample above it.
pub open spec fn grid_emissions(grid: Grid, markers: bool) -> Seq<Emission> {
    rows_emissions(grid, grid.height - 1, markers)
}

/// Reads the four corners of the cell at `(x, y)`. Any `(x, y)` is
/// accepted: a corner beyond the field reads as empty space.
pub fn sample_cell(field: &VoxelMap, x: i32, y: i32) -> (cell: Cell)
    ensures
        field@.wf(),
        cell == cell_at(field@, x as int, y as int),
        is_density(cell.v0) && is_density(cell.v1) && is_density(cell.v2) && is_density(cell.v3),
{
    let v0 = field.get_density(x, y);
    let right = x < i32::MAX;
    let above = y < i32::MAX;
    let v1 = if right {
        field.get_density(x + 1, y)
    } else {
        EMPTY
    };
    let v2 = if right && above {
        field.get_density(x + 1, y + 1)
    } else {
        EMPTY
    };
    let v3 = if above {
        field.get_density(x, y + 1)
    } else {
        EMPTY
    };
    Cell { x, y, v0, v1, v2, v3 }
}

/// Scans the field cell by cell, row by row from the bottom, each row from
/// the left, and collects what the cells give out: the segments of the
/// contour and, where `markers` is set, a marker for each cell whose own
/// sample is above zero.
pub fn extract_contour(field: &VoxelMap, markers: bool) -> (out: Vec<Emission>)
    ensures
        field@.wf(),
        out@ == grid_emissions(field@, markers),
{
    let columns: i32 = (field.width() - 1) as i32;
    let rows: i32 = (field.height() - 1) as i32;
    let mut out: Vec<Emission> = Vec::new();
    let mut y: i32 = 0;
    while y < rows
        invariant
            0 <= y <= rows,
            0 <= columns,
            columns == field@.width - 1,
            rows == field@.height - 1,
            out@ == rows_emissions(field@, y as int, markers),
        decreases rows - y,
    {
        let ghost below = out@;
        let mut x: i32 = 0;
        while x < columns
            invariant
                0 <= x <= columns,
                0 <= y < rows,
                columns == field@.width - 1,
                out@ == below + row_emissions(field@, y as int, x as int, markers),
            decreases columns - x,
        {
            let cell = sample_cell(field, x, y);
            let ghost before = row_emissions(field@, y as int, x as int, markers);
            cell.emit(markers, &mut out);
            assert(out@ =~= below + (before + cell.emissions(markers)));
            x = x + 1;
        }
        y = y + 1;
    }
    out
}

/// How many ends of the given segments lie on `edge`.
pub open spec fn ends_on(segments: Seq<Segment>, edge: Edge) -> int
    decreases segments.len(),
{
    if segments.len() == 0 {
        0
    } else {
        let last = segments.last();
        ends_on(segments.drop_last(), edge) + (if last.from == edge {
            1int
        } else {
            0int
        }) + (if last.to == edge {
            1int
        } else {
            0int
        })
    }
}

/// The case index is a number of four bits, one for each corner: the bit of
/// a corner's weight is set exactly when the corner is solid.
pub proof fn lemma_case_bits(cell: Cell)
    ensures
        0 <= cell.case() < 16,
        (cell.case() as u8) & 1 != 0 <==> cell.solid(Corner::BottomLeft),
        (cell.case() as u8) & 2 != 0 <==> cell.solid(Corner::BottomRight),
        (cell.case() as u8) & 4 != 0 <==> cell.solid(Corner::TopRight),
        (cell.case() as u8) & 8 != 0 <==> cell.solid(Corner::TopLeft),
{
    let c = cell.case() as u8;
    assert(c < 16 ==> ((c & 1 != 0) <==> c % 2 == 1) && ((c & 2 != 0) <==> (c / 2) % 2 == 1) && ((c
        & 4 != 0) <==> (c / 4) % 2 == 1) && ((c & 8 != 0) <==> c / 8 == 1)) by (bit_vector);
}

/// A cell whose corners are all on one side of the iso level has case index
/// zero or fifteen and no segment; every other cell has one segment or two.
pub proof fn lemma_uniform_cell_has_no_segment(cell: Cell)
    ensures
        cell.case() == 0 <==> (forall|corner: Corner| !cell.solid(corner)),
        cell.case() == 15 <==> (forall|corner: Corner| cell.solid(corner)),
        (cell.case() == 0 || cell.case() == 15) <==> cell.contour().len() == 0,
        cell.contour().len() <= 2,
        forall|markers: bool, i: int|
            0 <= i < cell.emissions(markers).len() && (cell.case() == 0 || cell.case() == 15)
                ==> #[trigger] cell.emissions(markers)[i] is Marker,
{
    if forall|corner: Corner| !cell.solid(corner) {
        assert(!cell.solid(Corner::BottomLeft) && !cell.solid(Corner::BottomRight) && !cell.solid(
            Corner::TopRight,
        ) && !cell.solid(Corner::TopLeft));
    }
    if forall|corner: Corner| cell.solid(corner) {
        assert(cell.solid(Corner::BottomLeft) && cell.solid(Corner::BottomRight) && cell.solid(
            Corner::TopRight,
        ) && cell.solid(Corner::TopLeft));
    }
}

/// Every segment joins two different edges, and the contour crosses both:
/// each has one solid end and one that is not. So a point placed on such an
/// edge at the iso level lies between the edge's corners.
pub proof fn lemma_segments_join_crossed_edges(cell: Cell, i: int)
    requires
        0 <= i < cell.contour().len(),
    ensures
        cell.crosses(cell.contour()[i].from),
        cell.crosses(cell.contour()[i].to),
        cell.contour()[i].from != cell.contour()[i].to,
{
}

/// Every edge that the contour crosses is the end of exactly one segment of
/// the cell, and no other edge is the end of any.
pub proof fn lemma_crossed_edges_are_joined(cell: Cell, edge: Edge)
    ensures
        ends_on(cell.contour(), edge) == (if cell.crosses(edge) {
            1int
        } else {
            0int
        }),
{
    let segments = cell.contour();
    reveal_with_fuel(ends_on, 3);
    if segments.len() == 1 {
        assert(segments.drop_last().len() == 0);
    } else if segments.len() == 2 {
        assert(segments.drop_last().len() == 1);
        assert(segments.drop_last().drop_last().len() == 0);
        assert(segments.drop_last().last() == segments[0]);
    }
}

/// Whether the scan visits the cell at `(x, y)`: the cell has a sample to
/// its right and one above it.
pub open spec fn scanned(grid: Grid, x: int, y: int) -> bool {
    0 <= x < grid.width - 1 && 0 <= y < grid.height - 1
}

/// A row gives out what its cells give out, and nothing else.
proof fn lemma_row_emits_its_cells(grid: Grid, y: int, cells: int, markers: bool, e: Emission)
    ensures
        row_emissions(grid, y, cells, markers).contains(e) <==> exists|x: int|
            0 <= x < cells && #[trigger] cell_at(grid, x, y).emissions(markers).contains(e),
    decreases cells,
{
    if cells > 0 {
        let before = row_emissions(grid, y, cells - 1, markers);
        let last = cell_at(grid, cells - 1, y).emissions(markers);
        lemma_row_emits_its_cells(grid, y, cells - 1, markers, e);
        lemma_seq_concat_contains_all_elements(before, last, e);
    }
}

/// The first rows give out what their cells give out, and nothing else.
proof fn lemma_rows_emit_their_cells(grid: Grid, rows: int, markers: bool, e: Emission)
    ensures
        rows_emissions(grid, rows, markers).contains(e) <==> exists|x: int, y: int|
            0 <= x < grid.width - 1 && 0 <= y < rows && #[trigger] cell_at(grid, x, y).emissions(
                markers,
            ).contains(e),
    decreases rows,
{
    if rows > 0 {
        let below = rows_emissions(grid, rows - 1, markers);
        let top = row_emissions(grid, rows - 1, grid.width - 1, markers);
        lemma_rows_emit_their_cells(grid, rows - 1, markers, e);
        lemma_row_emits_its_cells(grid, rows - 1, grid.width - 1, markers, e);
        lemma_seq_concat_contains_all_elements(below, top, e);
        if top.contains(e) {
            let x = choose|x: int|
                0 <= x < grid.width - 1 && #[trigger] cell_at(grid, x, rows - 1).emissions(
                    markers,
                ).contains(e);
            assert(cell_at(grid, x, rows - 1).emissions(markers).contains(e));
        }
    }
}

/// The grid gives out exactly what its scanned cells give out: a marker or
/// a line is there if and only if some scanned cell gives it out.
pub proof fn lemma_grid_emits_its_cells(grid: Grid, markers: bool, e: Emission)
    ensures
        grid_emissions(grid, markers).contains(e) <==> exists|x: int, y: int|
            scanned(grid, x, y) && #[trigger] cell_at(grid, x, y).emissions(markers).contains(e),
{
    lemma_rows_emit_their_cells(grid, grid.height - 1, markers, e);
}

/// A scanned cell with corners on both sides of the iso level has its
/// segments among what the grid gives out.
pub proof fn lemma_mixed_cell_is_drawn(grid: Grid, x: int, y: int, markers: bool, i: int)
    requires
        scanned(grid, x, y),
        0 <= i < cell_at(grid, x, y).contour().len(),
    ensures
        grid_emissions(grid, markers).contains(
            Emission::Line(cell_at(grid, x, y), cell_at(grid, x, y).contour()[i]),
        ),
{
    let cell = cell_at(grid, x, y);
    let e = Emission::Line(cell, cell.contour()[i]);
    let marks = cell.emissions(markers).len() - cell.contour().len();
    assert(cell.emissions(markers)[marks + i] == e);
    assert(cell_at(grid, x, y).emissions(markers).contains(e));
    lemma_grid_emits_its_cells(grid, markers, e);
}

/// A row of cells reads its own row of samples and the one above, and no
/// other: two grids of one width that agree on these two rows give out the
/// same for the row.
pub proof fn lemma_row_reads_two_rows(a: Grid, b: Grid, y: int, cells: int, markers: bool)
    requires
        a.width == b.width,
        forall|x: int| #[trigger] a.density(x, y) == b.density(x, y),
        forall|x: int| #[trigger] a.density(x, y + 1) == b.density(x, y + 1),
    ensures
        row_emissions(a, y, cells, markers) == row_emissions(b, y, cells, markers),
    decreases cells,
{
    if cells > 0 {
        lemma_row_reads_two_rows(a, b, y, cells - 1, markers);
        assert(cell_at(a, cells - 1, y) == cell_at(b, cells - 1, y));
    }
}

/// In a grid whose samples are all solid, or none of them, there is no
/// contour: nothing is given out but markers, and without markers nothing.
pub proof fn lemma_uniform_grid_has_no_contour(grid: Grid, markers: bool)
    requires
        grid.wf(),
        (forall|x: int, y: int|
            grid.in_bounds(x, y) ==> at_or_above_iso(#[trigger] grid.density(x, y))) || (forall|
            x: int,
            y: int,
        | grid.in_bounds(x, y) ==> !at_or_above_iso(#[trigger] grid.density(x, y))),
    ensures
        forall|i: int|
            0 <= i < grid_emissions(grid, markers).len() ==> #[trigger] grid_emissions(
                grid,
                markers,
            )[i] is Marker,
        !markers ==> grid_emissions(grid, markers).len() == 0,
{
    let all = grid_emissions(grid, markers);
    assert forall|i: int| 0 <= i < all.len() implies #[trigger] all[i] is Marker by {
        let e = all[i];
        assert(all.contains(e));
        lemma_grid_emits_its_cells(grid, markers, e);
        let (x, y) = choose|x: int, y: int|
            scanned(grid, x, y) && #[trigger] cell_at(grid, x, y).emissions(markers).contains(e);
        let cell = cell_at(grid, x, y);
        assert(grid.in_bounds(x, y) && grid.in_bounds(x + 1, y) && grid.in_bounds(x + 1, y + 1)
            && grid.in_bounds(x, y + 1));
        lemma_uniform_cell_has_no_segment(cell);
        assert(cell.case() == 0 || cell.case() == 15);
        let given = cell.emissions(markers);
        let k = choose|k: int| 0 <= k < given.len() && given[k] == e;
        assert(given[k] is Marker);
    }
    if !markers && all.len() > 0 {
        assert(all[0] is Marker);
        let e = all[0];
        assert(all.contains(e));
        lemma_grid_emits_its_cells(grid, markers, e);
        let (x, y) = choose|x: int, y: int|
            scanned(grid, x, y) && #[trigger] cell_at(grid, x, y).emissions(markers).contains(e);
        let cell = cell_at(grid, x, y);
        let given = cell.emissions(markers);
        let k = choose|k: int| 0 <= k < given.len() && given[k] == e;
        assert(given[k] == Emission::Line(cell, cell.contour()[k]));
    }
}

} // verus!
