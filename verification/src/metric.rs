//! The two inputs of the pair-energy term: toroidal squared pixel distance
//! and squared color distance.
//!
//! The energy of a pixel pair is a function of exactly these two
//! quantities (and the color mode's dimensionality), so their symmetry in
//! the pair carries over to the energy itself.

use vstd::prelude::*;
use crate::color::ColorMode;
use crate::texture::NoiseTexture;

verus! {

/// Toroidal distance along one axis: the shorter way around between two
/// coordinates of a grid of side `size`.
pub open spec fn spec_wrapped_delta(size: int, a: int, b: int) -> int {
    let d = if a >= b { a - b } else { b - a };
    if d > size / 2 {
        size - d
    } else {
        d
    }
}

/// Squared toroidal distance between pixel indices `first` and `second`
/// of a grid of side `size` (`index = y * size + x`).
pub open spec fn spec_dist_sqr(size: int, first: int, second: int) -> int {
    let dx = spec_wrapped_delta(size, first % size, second % size);
    let dy = spec_wrapped_delta(size, first / size, second / size);
    dx * dx + dy * dy
}

/// Absolute difference of two channel bytes.
pub open spec fn spec_byte_delta(a: u8, b: u8) -> int {
    if a >= b {
        a - b
    } else {
        b - a
    }
}

/// Squared color distance of two pixels under a color mode: the sum of
/// the squared channel differences over the channels the mode activates.
/// The color distance itself is the square root of this value, except in
/// `Gray` mode, where it is the plain channel difference — the root of
/// the one square.
pub open spec fn spec_color_dist_sqr(p: (u8, u8, u8), q: (u8, u8, u8), mode: ColorMode) -> int {
    let d0 = spec_byte_delta(p.0, q.0);
    let d1 = spec_byte_delta(p.1, q.1);
    let d2 = spec_byte_delta(p.2, q.2);
    match mode {
        ColorMode::Gray => d0 * d0,
        ColorMode::Rg => d0 * d0 + d1 * d1,
        ColorMode::Rgb => d0 * d0 + d1 * d1 + d2 * d2,
    }
}

/// The wrapped axis delta is symmetric in its two coordinates and never
/// exceeds half the grid side.
pub proof fn lemma_wrapped_delta_symmetric_bounded(size: int, a: int, b: int)
    requires
        1 <= size,
        0 <= a < size,
        0 <= b < size,
    ensures
        spec_wrapped_delta(size, a, b) == spec_wrapped_delta(size, b, a),
        0 <= spec_wrapped_delta(size, a, b) <= size / 2,
{
}

/// Toroidal squared pixel distance is symmetric in the pixel pair and
/// bounded by twice the square of half the grid side.
pub proof fn lemma_dist_sqr_symmetric_bounded(size: int, first: int, second: int)
    requires
        1 <= size,
        0 <= first < size * size,
        0 <= second < size * size,
    ensures
        spec_dist_sqr(size, first, second) == spec_dist_sqr(size, second, first),
        0 <= spec_dist_sqr(size, first, second) <= 2 * ((size / 2) * (size / 2)),
{
    let x1 = first % size;
    let x2 = second % size;
    let y1 = first / size;
    let y2 = second / size;
    vstd::arithmetic::div_mod::lemma_multiply_divide_lt(first, size, size);
    vstd::arithmetic::div_mod::lemma_multiply_divide_lt(second, size, size);
    vstd::arithmetic::div_mod::lemma_div_pos_is_pos(first, size);
    vstd::arithmetic::div_mod::lemma_div_pos_is_pos(second, size);
    lemma_wrapped_delta_symmetric_bounded(size, x1, x2);
    lemma_wrapped_delta_symmetric_bounded(size, y1, y2);
    let dx = spec_wrapped_delta(size, x1, x2);
    let dy = spec_wrapped_delta(size, y1, y2);
    assert(dx * dx <= (size / 2) * (size / 2)) by (nonlinear_arith)
        requires 0 <= dx <= size / 2;
    assert(dy * dy <= (size / 2) * (size / 2)) by (nonlinear_arith)
        requires 0 <= dy <= size / 2;
}

/// Squared color distance is symmetric in the pixel pair, whatever the
/// color mode.
pub proof fn lemma_color_dist_sqr_symmetric(p: (u8, u8, u8), q: (u8, u8, u8), mode: ColorMode)
    ensures
        spec_color_dist_sqr(p, q, mode) == spec_color_dist_sqr(q, p, mode),
{
}

/// Both inputs of the pair-energy term are symmetric in the pixel pair:
/// `energy(i, j)` is a function of the toroidal squared distance and the
/// squared color distance alone, so it equals `energy(j, i)`.
pub proof fn lemma_energy_inputs_symmetric(
    t: NoiseTexture,
    size: int,
    i: int,
    j: int,
    mode: ColorMode,
)
    requires
        1 <= size,
        0 <= i < size * size,
        0 <= j < size * size,
    ensures
        spec_dist_sqr(size, i, j) == spec_dist_sqr(size, j, i),
        spec_color_dist_sqr(t.pixel(i), t.pixel(j), mode)
            == spec_color_dist_sqr(t.pixel(j), t.pixel(i), mode),
{
    lemma_dist_sqr_symmetric_bounded(size, i, j);
    lemma_color_dist_sqr_symmetric(t.pixel(i), t.pixel(j), mode);
}

/// Toroidal squared distance between two pixel indices of a square grid
/// of side `size`.
pub fn pixel_distance_sqr(size: usize, first: usize, second: usize) -> (d: usize)
    requires
        1 <= size,
        size * size <= usize::MAX,
        first < size * size,
        second < size * size,
    ensures
        d == spec_dist_sqr(size as int, first as int, second as int),
{
    let x1 = first % size;
    let x2 = second % size;
    let y1 = first / size;
    let y2 = second / size;
    proof {
        vstd::arithmetic::div_mod::lemma_multiply_divide_lt(first as int, size as int, size as int);
        vstd::arithmetic::div_mod::lemma_multiply_divide_lt(second as int, size as int, size as int);
    }

    let mut x = if x1 >= x2 { x1 - x2 } else { x2 - x1 };
    let mut y = if y1 >= y2 { y1 - y2 } else { y2 - y1 };

    if x > size / 2 {
        x = size - x;
    }
    if y > size / 2 {
        y = size - y;
    }

    proof {
        assert(x * x <= size * size && y * y <= size * size
            && x * x + y * y <= size * size) by (nonlinear_arith)
            requires 1 <= size, 0 <= x <= size / 2, 0 <= y <= size / 2;
    }
    x * x + y * y
}

impl NoiseTexture {
    /// Squared color distance between two of this texture's pixels under
    /// a color mode.
    pub fn color_distance_sqr(&self, first: usize, second: usize, mode: &ColorMode) -> (d: u32)
        requires
            self.wf(),
            first < self.side() * self.side(),
            second < self.side() * self.side(),
        ensures
            d == spec_color_dist_sqr(
                self.pixel(first as int),
                self.pixel(second as int),
                *mode,
            ),
            d <= 3 * 255 * 255,
    {
        let p0 = self.channel(first, 0);
        let p1 = self.channel(first, 1);
        let p2 = self.channel(first, 2);
        let q0 = self.channel(second, 0);
        let q1 = self.channel(second, 1);
        let q2 = self.channel(second, 2);
        let d0 = (if p0 >= q0 { p0 - q0 } else { q0 - p0 }) as u32;
        let d1 = (if p1 >= q1 { p1 - q1 } else { q1 - p1 }) as u32;
        let d2 = (if p2 >= q2 { p2 - q2 } else { q2 - p2 }) as u32;
        proof {
            assert(d0 * d0 <= 255 * 255 && d1 * d1 <= 255 * 255 && d2 * d2 <= 255 * 255)
                by (nonlinear_arith)
                requires 0 <= d0 <= 255, 0 <= d1 <= 255, 0 <= d2 <= 255;
        }
        match mode {
            ColorMode::Gray => d0 * d0,
            ColorMode::Rg => d0 * d0 + d1 * d1,
            ColorMode::Rgb => d0 * d0 + d1 * d1 + d2 * d2,
        }
    }
}

} // verus!
