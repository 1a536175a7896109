//! The density field: a rectangular grid of densities, stored row by row.

use vstd::prelude::*;
use crate::density::{clamp_density, clamped, is_density, is_number, EMPTY, SOLID};

verus! {

/// The mathematical content of a density field.
pub struct Grid {
    /// Samples per row.
    pub width: nat,
    /// Number of rows.
    pub height: nat,
    /// The densities, row by row: sample `(x, y)` is `cells[y * width + x]`.
    pub cells: Seq<u32>,
}

impl Grid {
    /// A grid has at least one sample, as many cells as its dimensions say,
    /// dimensions that signed 32-bit coordinates can reach, and a density in
    /// every cell.
    pub open spec fn wf(self) -> bool {
        &&& 0 < self.width <= i32::MAX
        &&& 0 < self.height <= i32::MAX
        &&& self.cells.len() == self.width * self.height
        &&& forall|i: int| 0 <= i < self.cells.len() ==> is_density(#[trigger] self.cells[i])
    }

    /// Whether `(x, y)` names a sample of the grid.
    pub open spec fn in_bounds(self, x: int, y: int) -> bool {
        0 <= x < self.width && 0 <= y < self.height
    }

    /// Position of sample `(x, y)` in `cells`.
    pub open spec fn index(self, x: int, y: int) -> int {
        y * self.width + x
    }

    /// The density at `(x, y)`; outside the grid is empty space.
    pub open spec fn density(self, x: int, y: int) -> u32 {
        if self.in_bounds(x, y) {
            self.cells[self.index(x, y)]
        } else {
            EMPTY
        }
    }

    /// The grid of the given dimensions with every sample solid.
    pub open spec fn solid(width: nat, height: nat) -> Grid {
        Grid { width, height, cells: Seq::new(width * height, |i: int| SOLID) }
    }

    /// The grid after one write: where `(x, y)` is a sample and `target`
    /// stands for a number, that sample holds the number clamped into the
    /// range of densities; otherwise nothing has changed.
    pub open spec fn modified(self, x: int, y: int, target: u32) -> Grid {
        if self.in_bounds(x, y) && is_number(target) {
            Grid { cells: self.cells.update(self.index(x, y), clamped(target)), ..self }
        } else {
            self
        }
    }

    /// The number that the last of the given writes to `(x, y)` carries, if
    /// any of them names `(x, y)` and carries a number.
    pub open spec fn written(writes: Seq<(i32, i32, u32)>, x: int, y: int) -> Option<u32>
        decreases writes.len(),
    {
        if writes.len() == 0 {
            None
        } else {
            let w = writes.last();
            if w.0 == x && w.1 == y && is_number(w.2) {
                Some(w.2)
            } else {
                Self::written(writes.drop_last(), x, y)
            }
        }
    }

    /// The grid after a sequence of writes, applied first to last.
    pub open spec fn modified_all(self, writes: Seq<(i32, i32, u32)>) -> Grid
        decreases writes.len(),
    {
        if writes.len() == 0 {
            self
        } else {
            let w = writes.last();
            self.modified_all(writes.drop_last()).modified(w.0 as int, w.1 as int, w.2)
        }
    }
}

/// Why a field could not be made.
#[derive(Clone, Copy, Debug, PartialEq, Eq, Structural)]
pub enum FieldError {
    /// A dimension was zero.
    ZeroDimension,
    /// A dimension is beyond what a signed 32-bit coordinate reaches, or the
    /// cells would not fit in memory.
    TooLarge,
}

/// Most cells that a field can hold: four bytes each, within the largest
/// allocation.
pub open spec fn max_cells() -> int {
    isize::MAX / 4
}

/// Whether a field of the given dimensions can be made: neither is zero,
/// signed 32-bit coordinates reach every sample, and the cells fit in memory.
pub open spec fn fits(width: int, height: int) -> bool {
    &&& 0 < width <= i32::MAX
    &&& 0 < height <= i32::MAX
    &&& width * height <= max_cells()
}

/// On every machine a field of up to half a billion cells fits: the largest
/// allocation is no less than what 31 bits can count.
pub proof fn lemma_small_fields_fit(width: int, height: int)
    requires
        0 < width <= i32::MAX,
        0 < height <= i32::MAX,
        width * height <= 0x1FFF_FFFF,
    ensures
        fits(width, height),
{
    assert(isize::MAX >= 0x7FFF_FFFF);
}

/// A rectangular grid of densities with fixed dimensions.
pub struct VoxelMap {
    width: usize,
    height: usize,
    values: Vec<u32>,
}

impl View for VoxelMap {
    type V = Grid;

    closed spec fn view(&self) -> Grid {
        Grid { width: self.width as nat, height: self.height as nat, cells: self.values@ }
    }
}

/// A sample of a grid has its position among the grid's cells.
proof fn lemma_index_in_range(width: int, height: int, x: int, y: int)
    requires
        0 <= x < width,
        0 <= y < height,
    ensures
        0 <= y * width,
        0 <= y * width + x < width * height,
{
    assert(y * width <= (height - 1) * width) by (nonlinear_arith)
        requires
            0 <= y <= height - 1,
            0 <= width,
    ;
    assert((height - 1) * width == height * width - width) by (nonlinear_arith);
    assert(width * height == height * width) by (nonlinear_arith);
    assert(0 <= y * width) by (nonlinear_arith)
        requires
            0 <= y,
            0 <= width,
    ;
}

/// Puts `density` at position `at`.
fn store(values: &mut Vec<u32>, at: usize, density: u32)
    requires
        at < old(values).len(),
    ensures
        final(values)@ == old(values)@.update(at as int, density),
    no_unwind
{
    values[at] = density;
}

impl VoxelMap {
    #[verifier::type_invariant]
    spec fn inv(self) -> bool {
        self@.wf()
    }

    /// Makes a field of `width` by `height` samples, all solid.
    ///
    /// Fails with `ZeroDimension` exactly when a dimension is zero, and with
    /// `TooLarge` exactly when neither is zero and the field does not fit.
    pub fn new(width: usize, height: usize) -> (made: Result<VoxelMap, FieldError>)
        ensures
            match made {
                Ok(field) => fits(width as int, height as int) && field@ == Grid::solid(
                    width as nat,
                    height as nat,
                ) && field@.wf(),
                Err(FieldError::ZeroDimension) => width == 0 || height == 0,
                Err(FieldError::TooLarge) => width > 0 && height > 0 && !fits(
                    width as int,
                    height as int,
                ),
            },
    {
        if width == 0 || height == 0 {
            return Err(FieldError::ZeroDimension);
        }
        let limit: usize = 0x7FFF_FFFF;
        if width > limit || height > limit {
            return Err(FieldError::TooLarge);
        }
        let most: usize = (isize::MAX as usize) / 4;
        if height > most / width {
            proof {
                assert(width * height > max_cells()) by (nonlinear_arith)
                    requires
                        width > 0,
                        height > most / width,
                        most == max_cells(),
                ;
            }
            return Err(FieldError::TooLarge);
        }
        proof {
            assert(width * height <= max_cells()) by (nonlinear_arith)
                requires
                    width > 0,
                    height <= most / width,
                    most == max_cells(),
            ;
        }
        let values: Vec<u32> = vec![SOLID; width * height];
        proof {
            assert(values@ =~= Seq::new((width as nat) * (height as nat), |i: int| SOLID));
        }
        Ok(VoxelMap { width, height, values })
    }

    /// Samples per row.
    pub fn width(&self) -> (w: usize)
        ensures
            self@.wf(),
            w == self@.width,
            0 < w <= i32::MAX,
    {
        proof {
            use_type_invariant(self);
        }
        self.width
    }

    /// Number of rows.
    pub fn height(&self) -> (h: usize)
        ensures
            self@.wf(),
            h == self@.height,
            0 < h <= i32::MAX,
    {
        proof {
            use_type_invariant(self);
        }
        self.height
    }

    /// Whether `(x, y)` names a sample of the field.
    pub fn in_bounds(&self, x: i32, y: i32) -> (inside: bool)
        ensures
            self@.wf(),
            inside == self@.in_bounds(x as int, y as int),
    {
        proof {
            use_type_invariant(self);
        }
        x >= 0 && y >= 0 && (x as usize) < self.width && (y as usize) < self.height
    }

    /// The density at `(x, y)`. A coordinate outside the field is no error:
    /// it reads as empty space.
    pub fn get_density(&self, x: i32, y: i32) -> (density: u32)
        ensures
            self@.wf(),
            density == self@.density(x as int, y as int),
            !self@.in_bounds(x as int, y as int) ==> density == EMPTY,
            is_density(density),
    {
        proof {
            use_type_invariant(self);
        }
        if !self.in_bounds(x, y) {
            return EMPTY;
        }
        proof {
            lemma_index_in_range(self.width as int, self.height as int, x as int, y as int);
            assert(self.values.len() == self.width * self.height);
        }
        self.values[(y as usize) * self.width + (x as usize)]
    }

    /// Writes the density at `(x, y)`. `target` is the pattern of the number
    /// that the caller wants there, in range or not: for a change by some
    /// amount, the sum of the sample's density and the amount. The field
    /// stores it clamped into the range of densities. A coordinate outside
    /// the field, or a pattern that stands for no number, is no error: the
    /// field stays as it is.
    pub fn modify_density(&mut self, x: i32, y: i32, target: u32)
        ensures
            final(self)@ == old(self)@.modified(x as int, y as int, target),
            final(self)@.wf(),
            !old(self)@.in_bounds(x as int, y as int) ==> final(self)@ == old(self)@,
    {
        proof {
            use_type_invariant(&*self);
        }
        if !self.in_bounds(x, y) {
            return ;
        }
        match clamp_density(target) {
            Some(density) => {
                proof {
                    lemma_index_in_range(
                        self.width as int,
                        self.height as int,
                        x as int,
                        y as int,
                    );
                    assert(self.values.len() == self.width * self.height);
                }
                let at: usize = (y as usize) * self.width + (x as usize);
                store(&mut self.values, at, density);
            },
            None => {},
        }
    }

    /// Makes the given writes one after another, first to last, each as
    /// `modify_density` does: `(x, y, target)` writes `target` at `(x, y)`.
    pub fn modify_all(&mut self, writes: &Vec<(i32, i32, u32)>)
        ensures
            final(self)@ == old(self)@.modified_all(writes@),
            final(self)@.wf(),
    {
        proof {
            use_type_invariant(&*self);
        }
        let mut i: usize = 0;
        while i < writes.len()
            invariant
                i <= writes.len(),
                self@.wf(),
                self@ == old(self)@.modified_all(writes@.take(i as int)),
            decreases writes.len() - i,
        {
            let (x, y, target) = writes[i];
            self.modify_density(x, y, target);
            proof {
                assert(writes@.take(i + 1).drop_last() =~= writes@.take(i as int));
            }
            i = i + 1;
        }
        proof {
            assert(writes@.take(i as int) =~= writes@);
        }
    }
}

/// However many writes a field takes, every sample stays a density and the
/// dimensions stay what they were.
pub proof fn lemma_writes_keep_densities(grid: Grid, writes: Seq<(i32, i32, u32)>)
    requires
        grid.wf(),
    ensures
        grid.modified_all(writes).wf(),
        grid.modified_all(writes).width == grid.width,
        grid.modified_all(writes).height == grid.height,
        forall|x: int, y: int| is_density(#[trigger] grid.modified_all(writes).density(x, y)),
    decreases writes.len(),
{
    if writes.len() > 0 {
        let before = grid.modified_all(writes.drop_last());
        lemma_writes_keep_densities(grid, writes.drop_last());
        let w = writes.last();
        lemma_write_keeps_densities(before, w.0 as int, w.1 as int, w.2);
    }
    let after = grid.modified_all(writes);
    assert forall|x: int, y: int| is_density(#[trigger] after.density(x, y)) by {
        if after.in_bounds(x, y) {
            lemma_index_in_range(after.width as int, after.height as int, x, y);
        }
    }
}

/// After a sequence of writes a sample of the grid holds what the last write
/// to it carried, clamped; a sample to which no number was written holds
/// what it held before.
pub proof fn lemma_last_write_wins(grid: Grid, writes: Seq<(i32, i32, u32)>, x: int, y: int)
    requires
        grid.wf(),
        grid.in_bounds(x, y),
    ensures
        grid.modified_all(writes).density(x, y) == (match Grid::written(writes, x, y) {
            Some(target) => clamped(target),
            None => grid.density(x, y),
        }),
    decreases writes.len(),
{
    if writes.len() > 0 {
        let before = grid.modified_all(writes.drop_last());
        let w = writes.last();
        lemma_last_write_wins(grid, writes.drop_last(), x, y);
        lemma_writes_keep_densities(grid, writes.drop_last());
        if before.in_bounds(w.0 as int, w.1 as int) && is_number(w.2) {
            lemma_write_is_local(before, w.0 as int, w.1 as int, w.2, x, y);
        }
    }
}

/// One write keeps every sample a density and the dimensions what they were.
pub proof fn lemma_write_keeps_densities(grid: Grid, x: int, y: int, target: u32)
    requires
        grid.wf(),
    ensures
        grid.modified(x, y, target).wf(),
        grid.modified(x, y, target).width == grid.width,
        grid.modified(x, y, target).height == grid.height,
{
    if grid.in_bounds(x, y) {
        lemma_index_in_range(grid.width as int, grid.height as int, x, y);
    }
}

/// A write outside the field changes nothing.
pub proof fn lemma_write_outside_is_noop(grid: Grid, x: int, y: int, target: u32)
    requires
        !grid.in_bounds(x, y),
    ensures
        grid.modified(x, y, target) == grid,
{
}

/// A write changes the sample it names and no other.
pub proof fn lemma_write_is_local(grid: Grid, x: int, y: int, target: u32, u: int, v: int)
    requires
        grid.wf(),
        grid.in_bounds(x, y),
        is_number(target),
    ensures
        grid.modified(x, y, target).density(x, y) == clamped(target),
        (u != x || v != y) ==> grid.modified(x, y, target).density(u, v) == grid.density(u, v),
{
    lemma_index_in_range(grid.width as int, grid.height as int, x, y);
    if grid.in_bounds(u, v) && (u != x || v != y) {
        lemma_index_in_range(grid.width as int, grid.height as int, u, v);
        lemma_index_injective(grid.width as int, x, y, u, v);
    }
}

/// Distinct samples of one grid have distinct positions.
proof fn lemma_index_injective(width: int, x: int, y: int, u: int, v: int)
    requires
        0 <= x < width,
        0 <= u < width,
        x != u || y != v,
    ensures
        y * width + x != v * width + u,
{
    if y < v {
        assert(v * width >= (y + 1) * width) by (nonlinear_arith)
            requires
                v >= y + 1,
                width > 0,
        ;
        assert((y + 1) * width == y * width + width) by (nonlinear_arith);
    } else if v < y {
        assert(y * width >= (v + 1) * width) by (nonlinear_arith)
            requires
                y >= v + 1,
                width > 0,
        ;
        assert((v + 1) * width == v * width + width) by (nonlinear_arith);
    }
}

} // verus!
