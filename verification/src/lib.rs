//! A density field and the marching-squares contour over it.
//!
//! A field is a rectangular grid of densities, each between empty and solid.
//! A brush changes the densities within a disc, and the contour at the iso
//! level, half way between empty and solid, is found cell by cell from a
//! table of sixteen cases.
//!
//! The library holds every density as the 32-bit pattern of a
//! single-precision number and does no arithmetic on the numbers: it
//! compares and clamps patterns, which is exact. A caller who wants to change
//! a density by some amount reads the pattern, adds in floating point, and
//! hands the pattern of the sum to the field, which clamps it. A caller who
//! wants to draw the contour gets each segment as the two cell edges that it
//! joins, with the densities at the cell's corners, and places the ends on
//! the edges itself.
//!
//! - [`density`]: the patterns, their order, clamping.
//! - [`field`]: the grid, bounds-safe reading and writing.
//! - [`brush`]: the samples within a disc, and the choice of stroke.
//! - [`contour`]: case index, table of segments, the scan of the field.

pub mod brush;
pub mod contour;
pub mod density;
pub mod field;
