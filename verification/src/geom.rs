//! Positions and lengths on the map, in whole millimetres.

use vstd::prelude::*;
use crate::time::clamp_i64;

verus! {

/// A length.
#[derive(Clone, Copy, Debug, PartialEq, Eq, Structural)]
pub struct Distance {
    pub mm: i64,
}

/// A point of the map.
#[derive(Clone, Copy, Debug, PartialEq, Eq, Structural)]
pub struct Pt2D {
    pub x: i64,
    pub y: i64,
}

/// The box that holds the map; `min_x <= max_x` and `min_y <= max_y` in
/// every box that describes one.
#[derive(Clone, Copy, Debug, PartialEq, Eq, Structural)]
pub struct Bounds {
    pub min_x: i64,
    pub min_y: i64,
    pub max_x: i64,
    pub max_y: i64,
}

/// How many cells of side `dx` it takes to cover a length of `span`,
/// counting a cell that is only partly used.
pub open spec fn spec_cells_across(span: int, dx: int) -> int
    recommends
        dx > 0,
{
    if span <= 0 {
        0
    } else {
        (span + dx - 1) / dx
    }
}

/// The index, along one axis, of the cell of side `dx` that holds the
/// coordinate `at` when the first cell starts at `origin`; a coordinate beyond
/// either end of a row of `cells` cells counts for the cell at that end.
pub open spec fn spec_cell_index(at: int, origin: int, dx: int, cells: int) -> int
    recommends
        dx > 0,
        cells > 0,
{
    let raw = (at - origin) / dx;
    if raw < 0 {
        0
    } else if raw >= cells {
        cells - 1
    } else {
        raw
    }
}

impl Distance {
    pub fn millimeters(mm: i64) -> (d: Distance)
        ensures
            d.mm == mm,
    {
        Distance { mm }
    }

    pub fn meters(m: i64) -> (d: Distance)
        ensures
            d.mm == clamp_i64(m * 1000),
    {
        let wide: i128 = (m as i128) * 1000;
        if wide < -9223372036854775808i128 {
            Distance { mm: i64::MIN }
        } else if wide > 9223372036854775807i128 {
            Distance { mm: i64::MAX }
        } else {
            Distance { mm: wide as i64 }
        }
    }

    pub fn inner_millimeters(&self) -> (mm: i64)
        ensures
            mm == self.mm,
    {
        self.mm
    }
}

impl Pt2D {
    pub fn new(x: i64, y: i64) -> (p: Pt2D)
        ensures
            p.x == x,
            p.y == y,
    {
        Pt2D { x, y }
    }
}

impl Bounds {
    /// The extent along x; zero for a box turned inside out.
    pub open spec fn spec_width(&self) -> int {
        if self.max_x >= self.min_x {
            self.max_x - self.min_x
        } else {
            0
        }
    }

    /// The extent along y; zero for a box turned inside out.
    pub open spec fn spec_height(&self) -> int {
        if self.max_y >= self.min_y {
            self.max_y - self.min_y
        } else {
            0
        }
    }

    pub fn width(&self) -> (w: u64)
        ensures
            w == self.spec_width(),
    {
        if self.max_x >= self.min_x {
            ((self.max_x as i128) - (self.min_x as i128)) as u64
        } else {
            0
        }
    }

    pub fn height(&self) -> (h: u64)
        ensures
            h == self.spec_height(),
    {
        if self.max_y >= self.min_y {
            ((self.max_y as i128) - (self.min_y as i128)) as u64
        } else {
            0
        }
    }
}

/// Computes [`spec_cell_index`].
pub fn cell_index(at: i64, origin: i64, dx: i64, cells: usize) -> (i: usize)
    requires
        dx > 0,
        cells > 0,
    ensures
        i == spec_cell_index(at as int, origin as int, dx as int, cells as int),
        i < cells,
{
    let diff: i128 = (at as i128) - (origin as i128);
    if diff < 0 {
        assert(diff / (dx as i128) < 0) by (nonlinear_arith)
            requires
                diff < 0,
                dx > 0,
        ;
        0
    } else {
        let raw: i128 = diff / (dx as i128);
        assert(0 <= raw <= diff) by (nonlinear_arith)
            requires
                diff >= 0,
                dx > 0,
                raw == diff / (dx as i128),
        ;
        if raw >= cells as i128 {
            cells - 1
        } else {
            raw as usize
        }
    }
}

/// Computes [`spec_cells_across`].
pub fn cells_across(span: u64, dx: i64) -> (n: u64)
    requires
        dx > 0,
    ensures
        n == spec_cells_across(span as int, dx as int),
{
    if span == 0 {
        0
    } else {
        let wide: u128 = (span as u128) + (dx as u128) - 1;
        let q: u128 = wide / (dx as u128);
        assert(q <= span) by (nonlinear_arith)
            requires
                q == (span + dx - 1) / (dx as int),
                dx > 0,
                span > 0,
        ;
        q as u64
    }
}

} // verus!
