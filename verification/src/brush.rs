//! The sculpting brush: the samples of a field within a disc.
//!
//! The brush is a disc, not a square, and it is uniform: every sample that
//! it touches is to change by the same amount. This module finds the
//! samples; what is written to them is the caller's affair.

use vstd::prelude::*;
use crate::field::{VoxelMap, Grid};

verus! {

/// Radius of the brush that the editor sculpts with, in grid steps.
pub const BRUSH_RADIUS: i32 = 4;

/// What a stroke of the brush does to the samples that it touches.
#[derive(Clone, Copy, Debug, PartialEq, Eq, Structural)]
pub enum Stroke {
    /// Takes density away.
    Dig,
    /// Adds density.
    Fill,
}

/// The stroke that the two buttons ask for: none while neither is held, and
/// digging while both are.
pub open spec fn stroke_of(dig: bool, fill: bool) -> Option<Stroke> {
    if dig {
        Some(Stroke::Dig)
    } else if fill {
        Some(Stroke::Fill)
    } else {
        None
    }
}

/// Decides the stroke from the state of the dig and fill buttons.
pub fn stroke_for(dig: bool, fill: bool) -> (stroke: Option<Stroke>)
    ensures
        stroke == stroke_of(dig, fill),
{
    if dig {
        Some(Stroke::Dig)
    } else if fill {
        Some(Stroke::Fill)
    } else {
        None
    }
}

/// Whether the offset `(dx, dy)` lies within `radius` of the centre, by
/// Euclidean distance.
pub open spec fn in_disc(dx: int, dy: int, radius: int) -> bool {
    dx * dx + dy * dy <= radius * radius
}

/// Whether the brush at `(gx, gy)` touches the sample `(x, y)`: the sample
/// is in the grid, no further than `radius` from the centre.
pub open spec fn touches(grid: Grid, gx: int, gy: int, radius: int, x: int, y: int) -> bool {
    &&& radius >= 0
    &&& grid.in_bounds(x, y)
    &&& in_disc(x - gx, y - gy, radius)
}

/// The touched samples among the first `count` of the row at offset `dy`,
/// left to right. The row starts at offset `-radius`.
pub open spec fn brush_row(
    grid: Grid,
    gx: int,
    gy: int,
    radius: int,
    dy: int,
    count: int,
) -> Seq<(i32, i32)>
    decreases count,
{
    if count <= 0 {
        seq![]
    } else {
        let before = brush_row(grid, gx, gy, radius, dy, count - 1);
        let x = gx - radius + count - 1;
        if touches(grid, gx, gy, radius, x, gy + dy) {
            before.push((x as i32, (gy + dy) as i32))
        } else {
            before
        }
    }
}

/// The touched samples in the first `count` rows, bottom to top. The rows
/// start at offset `-radius`, and each spans the offsets from `-radius` to
/// `radius`.
pub open spec fn brush_rows(grid: Grid, gx: int, gy: int, radius: int, count: int) -> Seq<
    (i32, i32),
>
    decreases count,
{
    if count <= 0 {
        seq![]
    } else {
        brush_rows(grid, gx, gy, radius, count - 1) + brush_row(
            grid,
            gx,
            gy,
            radius,
            count - 1 - radius,
            2 * radius + 1,
        )
    }
}

/// The samples that the brush at `(gx, gy)` touches, row by row from the
/// bottom, each row from the left. A negative radius touches nothing.
pub open spec fn brush(grid: Grid, gx: int, gy: int, radius: int) -> Seq<(i32, i32)> {
    brush_rows(grid, gx, gy, radius, 2 * radius + 1)
}

/// Lists the samples of `field` that a brush of `radius` grid steps touches
/// when centred on `(gx, gy)`. The centre may lie anywhere, in the field or
/// not; samples that would fall outside the field are left out.
pub fn brush_cells(field: &VoxelMap, gx: i32, gy: i32, radius: i32) -> (cells: Vec<(i32, i32)>)
    ensures
        field@.wf(),
        cells@ == brush(field@, gx as int, gy as int, radius as int),
{
    let width: i64 = field.width() as i64;
    let height: i64 = field.height() as i64;
    let mut cells: Vec<(i32, i32)> = Vec::new();
    if radius < 0 {
        return cells;
    }
    let r: i64 = radius as i64;
    proof {
        lemma_square_bound(r as int, r as int);
    }
    let limit: i64 = r * r;
    let mut dy: i64 = -r;
    while dy <= r
        invariant
            0 <= r <= i32::MAX,
            limit == r * r,
            -r <= dy <= r + 1,
            width == field@.width,
            height == field@.height,
            r == radius,
            cells@ == brush_rows(field@, gx as int, gy as int, r as int, dy + r),
        decreases r + 1 - dy,
    {
        let ghost below = cells@;
        let y: i64 = gy as i64 + dy;
        let mut dx: i64 = -r;
        while dx <= r
            invariant
                0 <= r <= i32::MAX,
                limit == r * r,
                -r <= dy <= r,
                -r <= dx <= r + 1,
                y == gy + dy,
                width == field@.width,
                height == field@.height,
                cells@ == below + brush_row(
                    field@,
                    gx as int,
                    gy as int,
                    r as int,
                    dy as int,
                    dx + r,
                ),
            decreases r + 1 - dx,
        {
            proof {
                lemma_square_bound(dx as int, r as int);
                lemma_square_bound(dy as int, r as int);
            }
            let x: i64 = gx as i64 + dx;
            if dx * dx + dy * dy <= limit && 0 <= x && x < width && 0 <= y && y < height {
                cells.push((x as i32, y as i32));
            }
            dx = dx + 1;
        }
        dy = dy + 1;
    }
    cells
}

/// An offset within the radius has a square within the radius's square.
proof fn lemma_square_bound(d: int, r: int)
    requires
        -r <= d <= r,
        r <= i32::MAX,
    ensures
        0 <= d * d <= r * r,
        r * r <= 0x3FFF_FFFF_0000_0001,
{
    assert(0 <= d * d <= r * r) by (nonlinear_arith)
        requires
            -r <= d <= r,
    ;
    assert(r * r <= 0x7FFF_FFFF * 0x7FFF_FFFF) by (nonlinear_arith)
        requires
            0 <= r <= 0x7FFF_FFFF,
    ;
}

/// An offset inside the disc is no longer than the radius in either
/// direction.
proof fn lemma_disc_in_square(dx: int, dy: int, radius: int)
    requires
        radius >= 0,
        in_disc(dx, dy, radius),
    ensures
        -radius <= dx <= radius,
        -radius <= dy <= radius,
{
    assert(-radius <= dx <= radius && -radius <= dy <= radius) by (nonlinear_arith)
        requires
            radius >= 0,
            dx * dx + dy * dy <= radius * radius,
    ;
}

/// Whether `a` comes before `b` when samples are read row by row from the
/// bottom, each row from the left.
pub open spec fn reads_before(a: (i32, i32), b: (i32, i32)) -> bool {
    a.1 < b.1 || (a.1 == b.1 && a.0 < b.0)
}

/// What a part of a brush row holds: touched samples of that row, from the
/// columns that the part spans, each once and from left to right.
proof fn lemma_brush_row(grid: Grid, gx: int, gy: int, radius: int, dy: int, count: int)
    requires
        grid.wf(),
    ensures
        forall|k: int|
            0 <= k < brush_row(grid, gx, gy, radius, dy, count).len() ==> {
                let c = #[trigger] brush_row(grid, gx, gy, radius, dy, count)[k];
                &&& c.1 == gy + dy
                &&& gx - radius <= c.0 < gx - radius + count
                &&& touches(grid, gx, gy, radius, c.0 as int, c.1 as int)
            },
        forall|i: int, j: int|
            0 <= i < j < brush_row(grid, gx, gy, radius, dy, count).len() ==> (#[trigger] brush_row(
                grid,
                gx,
                gy,
                radius,
                dy,
                count,
            )[i]).0 < (#[trigger] brush_row(grid, gx, gy, radius, dy, count)[j]).0,
        forall|x: i32, y: i32|
            y == gy + dy && gx - radius <= x < gx - radius + count && touches(
                grid,
                gx,
                gy,
                radius,
                x as int,
                y as int,
            ) ==> #[trigger] brush_row(grid, gx, gy, radius, dy, count).contains((x, y)),
    decreases count,
{
    let row = brush_row(grid, gx, gy, radius, dy, count);
    if count > 0 {
        let before = brush_row(grid, gx, gy, radius, dy, count - 1);
        lemma_brush_row(grid, gx, gy, radius, dy, count - 1);
        let x = gx - radius + count - 1;
        assert forall|u: i32, v: i32|
            v == gy + dy && gx - radius <= u < gx - radius + count && touches(
                grid,
                gx,
                gy,
                radius,
                u as int,
                v as int,
            ) implies #[trigger] row.contains((u, v)) by {
            if u == x {
                assert(row[row.len() - 1] == (u, v));
            } else {
                assert(before.contains((u, v)));
                let k = choose|k: int| 0 <= k < before.len() && before[k] == (u, v);
                assert(row[k] == (u, v));
            }
        }
    }
}

/// What the first rows of a brush hold: touched samples of those rows, each
/// once, in reading order.
proof fn lemma_brush_rows(grid: Grid, gx: int, gy: int, radius: int, count: int)
    requires
        grid.wf(),
        radius >= 0,
    ensures
        forall|k: int|
            0 <= k < brush_rows(grid, gx, gy, radius, count).len() ==> {
                let c = #[trigger] brush_rows(grid, gx, gy, radius, count)[k];
                &&& gy - radius <= c.1 < gy - radius + count
                &&& touches(grid, gx, gy, radius, c.0 as int, c.1 as int)
            },
        forall|i: int, j: int|
            0 <= i < j < brush_rows(grid, gx, gy, radius, count).len() ==> reads_before(
                #[trigger] brush_rows(grid, gx, gy, radius, count)[i],
                #[trigger] brush_rows(grid, gx, gy, radius, count)[j],
            ),
        forall|x: i32, y: i32|
            gy - radius <= y < gy - radius + count && touches(
                grid,
                gx,
                gy,
                radius,
                x as int,
                y as int,
            ) ==> #[trigger] brush_rows(grid, gx, gy, radius, count).contains((x, y)),
    decreases count,
{
    let rows = brush_rows(grid, gx, gy, radius, count);
    if count > 0 {
        let below = brush_rows(grid, gx, gy, radius, count - 1);
        let dy = count - 1 - radius;
        let top = brush_row(grid, gx, gy, radius, dy, 2 * radius + 1);
        lemma_brush_rows(grid, gx, gy, radius, count - 1);
        lemma_brush_row(grid, gx, gy, radius, dy, 2 * radius + 1);
        assert forall|k: int| 0 <= k < rows.len() implies {
            let c = #[trigger] rows[k];
            &&& gy - radius <= c.1 < gy - radius + count
            &&& touches(grid, gx, gy, radius, c.0 as int, c.1 as int)
        } by {
            if k >= below.len() {
                assert(rows[k] == top[k - below.len()]);
            } else {
                assert(rows[k] == below[k]);
            }
        }
        assert forall|i: int, j: int| 0 <= i < j < rows.len() implies reads_before(
            #[trigger] rows[i],
            #[trigger] rows[j],
        ) by {
            if j < below.len() {
                assert(rows[i] == below[i] && rows[j] == below[j]);
            } else if i >= below.len() {
                assert(rows[i] == top[i - below.len()] && rows[j] == top[j - below.len()]);
            } else {
                assert(rows[i] == below[i] && rows[j] == top[j - below.len()]);
            }
        }
        assert forall|x: i32, y: i32|
            gy - radius <= y < gy - radius + count && touches(
                grid,
                gx,
                gy,
                radius,
                x as int,
                y as int,
            ) implies #[trigger] rows.contains((x, y)) by {
            if y == gy + dy {
                lemma_disc_in_square(x - gx, y - gy, radius);
                assert(top.contains((x, y)));
                let k = choose|k: int| 0 <= k < top.len() && top[k] == (x, y);
                assert(rows[below.len() + k] == (x, y));
            } else {
                assert(below.contains((x, y)));
                let k = choose|k: int| 0 <= k < below.len() && below[k] == (x, y);
                assert(rows[k] == (x, y));
            }
        }
    }
}

/// The brush holds exactly the samples that it touches: those of the grid
/// that lie within the radius of the centre.
pub proof fn lemma_brush_holds_what_it_touches(
    grid: Grid,
    gx: int,
    gy: int,
    radius: int,
    x: i32,
    y: i32,
)
    requires
        grid.wf(),
    ensures
        brush(grid, gx, gy, radius).contains((x, y)) <==> touches(
            grid,
            gx,
            gy,
            radius,
            x as int,
            y as int,
        ),
{
    let all = brush(grid, gx, gy, radius);
    if radius >= 0 {
        lemma_brush_rows(grid, gx, gy, radius, 2 * radius + 1);
        if touches(grid, gx, gy, radius, x as int, y as int) {
            lemma_disc_in_square(x - gx, y - gy, radius);
        }
        if all.contains((x, y)) {
            let k = choose|k: int| 0 <= k < all.len() && all[k] == (x, y);
            assert(touches(grid, gx, gy, radius, all[k].0 as int, all[k].1 as int));
        }
    } else {
        assert(all.len() == 0);
    }
}

/// The brush holds its samples in reading order, row by row from the bottom
/// and each row from the left, so that none occurs twice.
pub proof fn lemma_brush_reads_in_order(grid: Grid, gx: int, gy: int, radius: int, i: int, j: int)
    requires
        grid.wf(),
        0 <= i < j < brush(grid, gx, gy, radius).len(),
    ensures
        reads_before(brush(grid, gx, gy, radius)[i], brush(grid, gx, gy, radius)[j]),
        brush(grid, gx, gy, radius)[i] != brush(grid, gx, gy, radius)[j],
{
    if radius >= 0 {
        lemma_brush_rows(grid, gx, gy, radius, 2 * radius + 1);
    }
}

} // verus!
