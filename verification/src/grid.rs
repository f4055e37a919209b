//! The concentration field: a grid of cells over the map.
//!
//! A cell holds a concentration in millionths of a unit, as a whole number,
//! so every step of the field is exact integer arithmetic. Cells are stored
//! row by row.

use vstd::prelude::*;
use crate::geom::{cell_index, spec_cell_index, Bounds, Distance, Pt2D};
use crate::time::Duration;

verus! {

/// What one unit of concentration is worth in a cell.
pub const CELL_UNIT: u64 = 1000000;

/// Why a diffusion step was refused.
#[derive(Clone, Copy, Debug, PartialEq, Eq, Structural)]
pub enum DiffuseError {
    /// The step is too long for the cell size: a cell would keep none of
    /// its content, or less.
    Unstable,
    /// The step runs back in time, or the cells are too large to compute with.
    OutOfRange,
}

/// A `width` by `height` field of cells.
#[derive(Clone, Debug)]
pub struct Grid {
    data: Vec<u64>,
    width: usize,
    height: usize,
}

impl View for Grid {
    type V = Seq<u64>;

    /// The cells, row by row.
    closed spec fn view(&self) -> Seq<u64> {
        self.data@
    }
}

impl Grid {
    /// There is one cell for each place of the grid.
    pub closed spec fn wf(&self) -> bool {
        self.data@.len() == self.width * self.height
    }

    pub closed spec fn spec_width(&self) -> usize {
        self.width
    }

    pub closed spec fn spec_height(&self) -> usize {
        self.height
    }

    /// The cell in column `x` of row `y`.
    pub open spec fn cell(&self, x: int, y: int) -> u64
        recommends
            0 <= x < self.spec_width(),
            0 <= y < self.spec_height(),
    {
        self@[y * self.spec_width() + x]
    }

    /// A grid whose cells all hold `default`.
    pub fn new(width: usize, height: usize, default: u64) -> (grid: Grid)
        requires
            width * height <= usize::MAX,
        ensures
            grid.wf(),
            grid.spec_width() == width,
            grid.spec_height() == height,
            grid@ == Seq::new((width * height) as nat, |i: int| default),
    {
        let n = width * height;
        let mut data: Vec<u64> = Vec::new();
        let mut i: usize = 0;
        while i < n
            invariant
                i <= n,
                data@ == Seq::new(i as nat, |k: int| default),
            decreases n - i,
        {
            data.push(default);
            i += 1;
        }
        Grid { data, width, height }
    }

    /// A grid of empty cells.
    pub fn zero(width: usize, height: usize) -> (grid: Grid)
        requires
            width * height <= usize::MAX,
        ensures
            grid.wf(),
            grid.spec_width() == width,
            grid.spec_height() == height,
            grid@ == Seq::new((width * height) as nat, |i: int| 0u64),
    {
        Grid::new(width, height, 0)
    }

    #[verifier::when_used_as_spec(spec_width)]
    pub fn width(&self) -> (w: usize)
        ensures
            w == self.spec_width(),
    {
        self.width
    }

    #[verifier::when_used_as_spec(spec_height)]
    pub fn height(&self) -> (h: usize)
        ensures
            h == self.spec_height(),
    {
        self.height
    }

    /// A grid has as many cells as its width and height say.
    pub proof fn lemma_len(&self)
        requires
            self.wf(),
        ensures
            self@.len() == self.spec_width() * self.spec_height(),
    {
    }

    /// The place of cell `(x, y)` among the cells.
    fn idx(&self, x: usize, y: usize) -> (i: usize)
        requires
            self.wf(),
            x < self.spec_width(),
            y < self.spec_height(),
        ensures
            i == y * self.spec_width() + x,
            i < self@.len(),
    {
        proof {
            lemma_index_in_range(x as int, y as int, self.width as int, self.height as int);
            assert(self.width * self.height == self.data.len());
        }
        y * self.width + x
    }

    /// The cell `(x, y)`, or `None` beyond the edge of the grid.
    pub fn get(&self, x: usize, y: usize) -> (c: Option<u64>)
        requires
            self.wf(),
        ensures
            c == if x < self.spec_width() && y < self.spec_height() {
                Some(self.cell(x as int, y as int))
            } else {
                None
            },
    {
        if x >= self.width || y >= self.height {
            None
        } else {
            let i = self.idx(x, y);
            Some(self.data[i])
        }
    }

    /// The cell `(x, y)` of a grid that has one.
    pub fn index(&self, x: usize, y: usize) -> (c: u64)
        requires
            self.wf(),
            x < self.spec_width(),
            y < self.spec_height(),
        ensures
            c == self.cell(x as int, y as int),
    {
        let i = self.idx(x, y);
        self.data[i]
    }

    /// Writes `value` into the cell `(x, y)` of a grid that has one.
    pub fn set(&mut self, x: usize, y: usize, value: u64)
        requires
            old(self).wf(),
            x < old(self).spec_width(),
            y < old(self).spec_height(),
        ensures
            final(self).wf(),
            final(self).spec_width() == old(self).spec_width(),
            final(self).spec_height() == old(self).spec_height(),
            final(self)@ == old(self)@.update(y * old(self).spec_width() + x, value),
    {
        let i = self.idx(x, y);
        self.data.set(i, value);
    }

    /// The least and the greatest content of a cell; of a grid without
    /// cells, the greatest and the least that a cell can hold.
    pub fn min_max(&self) -> (r: (u64, u64))
        ensures
            forall|i: int| 0 <= i < self@.len() ==> r.0 <= #[trigger] self@[i] <= r.1,
            self@.len() > 0 ==> self@.contains(r.0) && self@.contains(r.1),
            self@.len() == 0 ==> r == (u64::MAX, 0u64),
    {
        let mut min: u64 = u64::MAX;
        let mut max: u64 = 0;
        let mut i: usize = 0;
        while i < self.data.len()
            invariant
                i <= self.data@.len(),
                forall|k: int| 0 <= k < i ==> min <= #[trigger] self.data@[k] <= max,
                i > 0 ==> self.data@.contains(min) && self.data@.contains(max),
                i == 0 ==> min == u64::MAX && max == 0,
            decreases self.data@.len() - i,
        {
            let c = self.data[i];
            if i == 0 || c < min {
                min = c;
            }
            if i == 0 || c > max {
                max = c;
            }
            assert(self.data@[i as int] == c);
            i += 1;
        }
        (min, max)
    }

    /// Empties every cell that holds less than `min`.
    pub fn absorb(&mut self, min: u64)
        requires
            old(self).wf(),
        ensures
            final(self).wf(),
            final(self).spec_width() == old(self).spec_width(),
            final(self).spec_height() == old(self).spec_height(),
            final(self)@.len() == old(self)@.len(),
            forall|i: int|
                0 <= i < old(self)@.len() ==> #[trigger] final(self)@[i] == if old(self)@[i] < min {
                    0
                } else {
                    old(self)@[i]
                },
            forall|i: int| 0 <= i < final(self)@.len() ==> final(self)@[i] == 0 || #[trigger] final(self)@[i] >= min,
    {
        let n = self.data.len();
        let mut i: usize = 0;
        while i < n
            invariant
                i <= n,
                n == self.data@.len(),
                self.data@.len() == old(self).data@.len(),
                self.width == old(self).width,
                self.height == old(self).height,
                forall|k: int|
                    0 <= k < i ==> #[trigger] self.data@[k] == if old(self).data@[k] < min {
                        0
                    } else {
                        old(self).data@[k]
                    },
                forall|k: int| i <= k < n ==> self.data@[k] == old(self).data@[k],
            decreases n - i,
        {
            if self.data[i] < min {
                self.data.set(i, 0);
            }
            i += 1;
        }
    }
}

/// The largest square of a cell side, in square millimetres, that a
/// diffusion step can compute with.
pub const MAX_SIDE_SQUARED: u64 = 18446744073709;

/// The common denominator of the weights of a diffusion step on cells of side `dx`.
pub open spec fn spec_den(dx: Distance) -> int {
    dx.mm * dx.mm * 1000000
}

/// The weight, over [`spec_den`], of each of the four neighbours of a cell in
/// a step of `dt` with diffusivity `kappa`, in square millimetres per
/// millisecond.
pub open spec fn spec_side(kappa: u64, dt: Duration) -> int {
    dt.ms * kappa * 1000000
}

/// The weight, over [`spec_den`], of a cell's own content in a step of `dt`
/// with diffusivity `kappa` and a decay of `decay` millionths per millisecond.
pub open spec fn spec_center(kappa: u64, decay: u64, dx: Distance, dt: Duration) -> int {
    spec_den(dx) - 4 * spec_side(kappa, dt) - dt.ms * decay * (dx.mm * dx.mm)
}

/// The step does not run back in time and the weights fit the machine.
pub open spec fn spec_in_range(dx: Distance, dt: Duration) -> bool {
    dt.ms >= 0 && spec_den(dx) <= u64::MAX
}

/// Every cell keeps a positive share of its content.
pub open spec fn spec_stable(kappa: u64, decay: u64, dx: Distance, dt: Duration) -> bool {
    spec_center(kappa, decay, dx, dt) > 0
}

/// The content, after one diffusion step, of the cell at place `i` of the
/// `w` by `h` cells `old`: a cell on the edge keeps its content, and a cell
/// inside gets `center / den` of its own and `side / den` of each of its four
/// neighbours', rounded down.
pub open spec fn spec_diffused(old: Seq<u64>, w: int, h: int, i: int, center: int, side: int, den: int) -> int
    recommends
        0 < w,
        0 <= i < w * h,
        0 < den,
{
    let x = i % w;
    let y = i / w;
    if 0 < x && x + 1 < w && 0 < y && y + 1 < h {
        (old[i] * center + side * (old[i + 1] + old[i - 1] + old[i + w] + old[i - w])) / den
    } else {
        old[i] as int
    }
}

/// What one source adds to its cell in a step of `dt` when it gives off
/// `mag_per_sec` millionths of a unit per second; nothing in a step that
/// runs back in time.
pub open spec fn spec_dose(dt: Duration, mag_per_sec: u64) -> int {
    if dt.ms <= 0 {
        0
    } else {
        dt.ms * mag_per_sec / 1000
    }
}

/// The sum of a cell and a dose, stopped at the most that a cell can hold.
pub open spec fn spec_filled(c: u64, dose: int) -> u64 {
    if c + dose > u64::MAX {
        u64::MAX
    } else {
        (c + dose) as u64
    }
}

/// The place, among `w` by `h` cells, of the cell that holds `p`; cells have
/// side `dx` and the first one starts at the low corner of `bounds`. A point
/// outside the grid counts for the nearest cell.
pub open spec fn spec_place(p: Pt2D, bounds: Bounds, dx: Distance, w: int, h: int) -> int
    recommends
        dx.mm > 0,
        0 < w,
        0 < h,
{
    spec_cell_index(p.y as int, bounds.min_y as int, dx.mm as int, h) * w + spec_cell_index(
        p.x as int,
        bounds.min_x as int,
        dx.mm as int,
        w,
    )
}

/// The cells `cells` after every source in `positions` has left `dose` in
/// its cell, one after the other.
pub open spec fn spec_with_sources(
    cells: Seq<u64>,
    w: int,
    h: int,
    positions: Seq<Pt2D>,
    bounds: Bounds,
    dx: Distance,
    dose: int,
) -> Seq<u64>
    decreases positions.len(),
{
    if positions.len() == 0 || w <= 0 || h <= 0 {
        cells
    } else {
        let before = spec_with_sources(cells, w, h, positions.drop_last(), bounds, dx, dose);
        let i = spec_place(positions.last(), bounds, dx, w, h);
        before.update(i, spec_filled(before[i], dose))
    }
}

/// The weights of a diffusion step: the cell's own, each neighbour's, and
/// their common denominator.
fn weights(kappa: u64, decay: u64, dx: Distance, dt: Duration) -> (r: Result<(u64, u64, u64), DiffuseError>)
    ensures
        match r {
            Ok((center, side, den)) => {
                &&& spec_in_range(dx, dt)
                &&& spec_stable(kappa, decay, dx, dt)
                &&& center == spec_center(kappa, decay, dx, dt)
                &&& side == spec_side(kappa, dt)
                &&& den == spec_den(dx)
            },
            Err(DiffuseError::Unstable) => spec_in_range(dx, dt) && !spec_stable(kappa, decay, dx, dt),
            Err(DiffuseError::OutOfRange) => !spec_in_range(dx, dt),
        },
{
    let side_mm: i128 = dx.mm as i128;
    assert(0 <= side_mm * side_mm <= 0x4000_0000_0000_0000_0000_0000_0000_0000) by (nonlinear_arith)
        requires
            -0x8000_0000_0000_0000 <= side_mm <= 0x8000_0000_0000_0000,
    ;
    let sq: i128 = side_mm * side_mm;
    if dt.ms < 0 || sq > MAX_SIDE_SQUARED as i128 {
        return Err(DiffuseError::OutOfRange);
    }
    let den: u128 = (sq as u128) * 1000000;
    let t: u128 = dt.ms as u128;
    assert(t * kappa <= 0x8000_0000_0000_0000 * 0x1_0000_0000_0000_0000) by (nonlinear_arith)
        requires
            0 <= t <= 0x8000_0000_0000_0000,
            0 <= kappa <= 0x1_0000_0000_0000_0000,
    ;
    assert(t * decay <= 0x8000_0000_0000_0000 * 0x1_0000_0000_0000_0000) by (nonlinear_arith)
        requires
            0 <= t <= 0x8000_0000_0000_0000,
            0 <= decay <= 0x1_0000_0000_0000_0000,
    ;
    let p: u128 = t * (kappa as u128);
    let q: u128 = t * (decay as u128);
    assert(spec_side(kappa, dt) == p * 1000000);
    assert(dt.ms * decay * (dx.mm * dx.mm) == q * sq) by (nonlinear_arith)
        requires
            q == dt.ms * decay,
            sq == dx.mm * dx.mm,
    ;
    if den == 0 || p > den || q > den {
        proof {
            assert(q * sq >= 0) by (nonlinear_arith)
                requires
                    sq >= 0,
                    q >= 0,
            ;
            if sq >= 1 {
                assert(q * sq >= q) by (nonlinear_arith)
                    requires
                        sq >= 1,
                        q >= 0,
                ;
            }
        }
        return Err(DiffuseError::Unstable);
    }
    let side: u128 = p * 1000000;
    assert(q * sq <= 0x1_0000_0000_0000_0000 * 18446744073709) by (nonlinear_arith)
        requires
            0 <= q <= 0x1_0000_0000_0000_0000,
            0 <= sq <= 18446744073709,
    ;
    let loss: u128 = q * (sq as u128);
    let total: u128 = 4 * side + loss;
    if total >= den {
        return Err(DiffuseError::Unstable);
    }
    Ok(((den - total) as u64, side as u64, den as u64))
}

/// Whether a grid can take a diffusion step with these settings, and if
/// not, why not.
pub fn check_step(kappa: u64, decay: u64, dx: Distance, dt: Duration) -> (r: Result<(), DiffuseError>)
    ensures
        match r {
            Ok(()) => spec_in_range(dx, dt) && spec_stable(kappa, decay, dx, dt),
            Err(DiffuseError::Unstable) => spec_in_range(dx, dt) && !spec_stable(kappa, decay, dx, dt),
            Err(DiffuseError::OutOfRange) => !spec_in_range(dx, dt),
        },
{
    match weights(kappa, decay, dx, dt) {
        Ok(_) => Ok(()),
        Err(e) => Err(e),
    }
}

/// A cell's new content is no more than the largest of the five that go into it.
proof fn lemma_mix_fits(c: int, sum: int, center: int, side: int, den: int)
    requires
        0 <= c <= u64::MAX,
        0 <= sum <= 4 * u64::MAX,
        0 <= center,
        0 <= side,
        center + 4 * side <= den,
        0 < den <= u64::MAX,
    ensures
        0 <= c * center,
        0 <= side * sum,
        c * center + side * sum <= u64::MAX * u64::MAX,
        0 <= (c * center + side * sum) / den <= u64::MAX,
{
    let m = u64::MAX as int;
    assert(0 <= c * center <= m * center) by (nonlinear_arith)
        requires
            0 <= c <= m,
            0 <= center,
    ;
    assert(0 <= side * sum <= m * (4 * side)) by (nonlinear_arith)
        requires
            0 <= sum <= 4 * m,
            0 <= side,
    ;
    assert(m * center + m * (4 * side) == m * (center + 4 * side)) by (nonlinear_arith);
    assert(m * (center + 4 * side) <= m * den) by (nonlinear_arith)
        requires
            center + 4 * side <= den,
            0 <= m,
    ;
    assert(m * den <= m * m) by (nonlinear_arith)
        requires
            den <= m,
            0 <= m,
    ;
    let total = c * center + side * sum;
    assert(0 <= total / den <= m) by (nonlinear_arith)
        requires
            0 <= total <= m * den,
            0 < den,
    ;
}

impl Grid {
    /// Lets every source in `walkers` leave its dose for a step of `dt` in
    /// the cell that holds it. A source outside the grid counts for the nearest
    /// cell, and a cell that is full stays full. A grid without cells is left
    /// as it is.
    pub fn add_sources(
        &mut self,
        walkers: &Vec<Pt2D>,
        bounds: &Bounds,
        dx: Distance,
        dt: Duration,
        mag_per_sec: u64,
    )
        requires
            old(self).wf(),
            dx.mm > 0,
        ensures
            final(self).wf(),
            final(self).spec_width() == old(self).spec_width(),
            final(self).spec_height() == old(self).spec_height(),
            final(self)@ == spec_with_sources(
                old(self)@,
                old(self).spec_width() as int,
                old(self).spec_height() as int,
                walkers@,
                *bounds,
                dx,
                spec_dose(dt, mag_per_sec),
            ),
            final(self)@.len() == old(self)@.len(),
            walkers@.len() == 0 ==> final(self)@ == old(self)@,
    {
        let w = self.width;
        let h = self.height;
        let ghost dose_spec = spec_dose(dt, mag_per_sec);
        if w == 0 || h == 0 {
            return ;
        }
        let dose: u128 = if dt.ms <= 0 {
            0
        } else {
            assert(dt.ms * mag_per_sec <= 0x8000_0000_0000_0000 * 0x1_0000_0000_0000_0000)
                by (nonlinear_arith)
                requires
                    0 <= dt.ms <= 0x8000_0000_0000_0000,
                    0 <= mag_per_sec <= 0x1_0000_0000_0000_0000,
            ;
            assert(0 <= dt.ms * mag_per_sec) by (nonlinear_arith)
                requires
                    0 <= dt.ms,
                    0 <= mag_per_sec,
            ;
            (dt.ms as u128) * (mag_per_sec as u128) / 1000
        };
        assert(dose == dose_spec);
        assert(dose <= 0x8000_0000_0000_0000_0000_0000_0000_0000);
        let mut k: usize = 0;
        while k < walkers.len()
            invariant
                k <= walkers.len(),
                self.wf(),
                self.width == w,
                self.height == h,
                w == old(self).width,
                h == old(self).height,
                0 < w,
                0 < h,
                dx.mm > 0,
                dose == dose_spec,
                dose <= 0x8000_0000_0000_0000_0000_0000_0000_0000,
                self.data@.len() == old(self).data@.len(),
                self.data@ == spec_with_sources(
                    old(self).data@,
                    w as int,
                    h as int,
                    walkers@.take(k as int),
                    *bounds,
                    dx,
                    dose_spec,
                ),
            decreases walkers.len() - k,
        {
            let p = walkers[k];
            let ix = cell_index(p.x, bounds.min_x, dx.mm, w);
            let iy = cell_index(p.y, bounds.min_y, dx.mm, h);
            let i = self.idx(ix, iy);
            proof {
                let upto = walkers@.take(k as int + 1);
                assert(upto.drop_last() == walkers@.take(k as int));
                assert(upto.last() == p);
                assert(i == spec_place(p, *bounds, dx, w as int, h as int));
            }
            let c = self.data[i];
            let filled: u64 = if (c as u128) + dose > 18446744073709551615u128 {
                u64::MAX
            } else {
                ((c as u128) + dose) as u64
            };
            self.data.set(i, filled);
            k += 1;
        }
        assert(walkers@.take(walkers.len() as int) == walkers@);
    }

    /// Takes one diffusion step of `dt` on cells of side `dx`, with
    /// diffusivity `kappa` in square millimetres per millisecond and a decay
    /// of `decay` millionths per millisecond.
    ///
    /// Every cell inside the grid gets a share of its own content and of that
    /// of its four neighbours as they were before the step; the cells on the
    /// edge keep theirs. The step is refused, and the grid left as it is, where
    /// a cell would keep none of its own content or less, and where the step
    /// runs back in time or the cell side is beyond what can be computed with.
    pub fn diffuse(&mut self, kappa: u64, decay: u64, dx: Distance, dt: Duration) -> (r: Result<
        (),
        DiffuseError,
    >)
        requires
            old(self).wf(),
        ensures
            final(self).wf(),
            final(self).spec_width() == old(self).spec_width(),
            final(self).spec_height() == old(self).spec_height(),
            final(self)@.len() == old(self)@.len(),
            match r {
                Ok(()) => {
                    &&& spec_in_range(dx, dt)
                    &&& spec_stable(kappa, decay, dx, dt)
                    &&& forall|i: int|
                        0 <= i < old(self)@.len() ==> #[trigger] final(self)@[i] == spec_diffused(
                            old(self)@,
                            old(self).spec_width() as int,
                            old(self).spec_height() as int,
                            i,
                            spec_center(kappa, decay, dx, dt),
                            spec_side(kappa, dt),
                            spec_den(dx),
                        )
                },
                Err(DiffuseError::Unstable) => {
                    &&& spec_in_range(dx, dt)
                    &&& !spec_stable(kappa, decay, dx, dt)
                    &&& final(self)@ == old(self)@
                },
                Err(DiffuseError::OutOfRange) => {
                    &&& !spec_in_range(dx, dt)
                    &&& final(self)@ == old(self)@
                },
            },
            kappa == 0 && decay == 0 ==> final(self)@ == old(self)@,
    {
        let (center, side, den) = match weights(kappa, decay, dx, dt) {
            Ok(found) => found,
            Err(e) => {
                return Err(e);
            },
        };
        let n = self.data.len();
        let w = self.width;
        let h = self.height;
        let cpy = self.data.clone();
        assert(cpy@ == self.data@);
        let mut i: usize = 0;
        while i < n
            invariant
                i <= n,
                n == self.data@.len(),
                n == w * h,
                self.width == w,
                self.height == h,
                w == old(self).width,
                h == old(self).height,
                cpy@ == old(self).data@,
                cpy@.len() == n,
                0 < center,
                0 <= side,
                center + 4 * side <= den,
                0 < den,
                forall|k: int|
                    0 <= k < i ==> #[trigger] self.data@[k] == spec_diffused(
                        cpy@,
                        w as int,
                        h as int,
                        k,
                        center as int,
                        side as int,
                        den as int,
                    ),
                forall|k: int| i <= k < n ==> self.data@[k] == cpy@[k],
            decreases n - i,
        {
            assert(w > 0) by (nonlinear_arith)
                requires
                    i < n,
                    n == w * h,
                    0 <= i,
            ;
            let x = i % w;
            let y = i / w;
            if x >= 1 && x + 1 < w && y >= 1 && y + 1 < h {
                proof {
                    vstd::arithmetic::div_mod::lemma_fundamental_div_mod(i as int, w as int);
                    assert(w * y == y * w) by (nonlinear_arith);
                    assert((y + 1) * w == y * w + w) by (nonlinear_arith);
                    assert((y - 1) * w == y * w - w) by (nonlinear_arith);
                    lemma_index_in_range(x as int, y as int + 1, w as int, h as int);
                    lemma_index_in_range(x as int, y as int - 1, w as int, h as int);
                }
                let sum: u128 = (cpy[i + 1] as u128) + (cpy[i - 1] as u128) + (cpy[i + w] as u128) + (cpy[i
                    - w] as u128);
                proof {
                    lemma_mix_fits(cpy@[i as int] as int, sum as int, center as int, side as int, den as int);
                }
                let total: u128 = (cpy[i] as u128) * (center as u128) + (side as u128) * sum;
                let mixed: u128 = total / (den as u128);
                self.data.set(i, mixed as u64);
            }
            i += 1;
        }
        proof {
            if kappa == 0 && decay == 0 {
                assert forall|k: int| 0 <= k < n implies self.data@[k] == cpy@[k] by {
                    lemma_still_field(cpy@, w as int, h as int, k, dx, dt);
                }
                assert(self.data@ =~= cpy@);
            }
        }
        Ok(())
    }
}

/// Without diffusion and without decay a step leaves every cell as it is.
pub proof fn lemma_still_field(old: Seq<u64>, w: int, h: int, i: int, dx: Distance, dt: Duration)
    requires
        spec_stable(0, 0, dx, dt),
    ensures
        spec_diffused(old, w, h, i, spec_center(0, 0, dx, dt), spec_side(0, dt), spec_den(dx)) == old[i],
{
    let den = spec_den(dx);
    assert(dt.ms * 0 * 1000000 == 0) by (nonlinear_arith);
    assert(dt.ms * 0 * (dx.mm * dx.mm) == 0) by (nonlinear_arith);
    assert(spec_side(0, dt) == 0);
    assert(spec_center(0, 0, dx, dt) == den);
    let c = old[i] as int;
    let sum = old[i + 1] + old[i - 1] + old[i + w] + old[i - w];
    assert(0 * sum == 0) by (nonlinear_arith);
    assert((c * den + 0) / den == c) by (nonlinear_arith)
        requires
            den > 0,
    ;
}

/// A step that would leave a cell exactly none of its own content is not
/// stable.
pub proof fn lemma_boundary_is_unstable(kappa: u64, decay: u64, dx: Distance, dt: Duration)
    requires
        spec_center(kappa, decay, dx, dt) == 0,
    ensures
        !spec_stable(kappa, decay, dx, dt),
{
}

/// In a grid of `w` by `h` cells stored row by row, the cell `(x, y)` has a
/// place of its own among the `w * h`.
pub proof fn lemma_index_in_range(x: int, y: int, w: int, h: int)
    requires
        0 <= x < w,
        0 <= y < h,
    ensures
        0 <= y * w,
        0 <= y * w + x < w * h,
{
    assert(y * w + x < w * h) by (nonlinear_arith)
        requires
            0 <= x < w,
            0 <= y < h,
    {
        assert((y + 1) * w <= h * w);
    }
    assert(0 <= y * w) by (nonlinear_arith)
        requires
            0 <= y,
            0 <= w,
    ;
}

} // verus!
