use crate::axis::UNIT;
use crate::error::GradientError;
use crate::geometry::{
    lemma_nearest_quotient_bounds, nearest_quotient, rounded_quotient, ImageSize,
};
use crate::raster::{count_set, lemma_count_set_zero, Mask};
use vstd::prelude::*;

verus! {

/// Fewest strong-gradient pixels for which a dominant direction is estimated.
pub const MIN_STRONG_PIXELS: usize = 10;

/// The derivatives of an image along x and along y, one pair of whole numbers
/// per pixel, stored row by row.
#[derive(Debug)]
pub struct GradientField {
    size: ImageSize,
    gx: Vec<i32>,
    gy: Vec<i32>,
}

/// The mean of the doubled-angle unit vectors of the strong gradients, in
/// millionths. Half the angle of this vector is the dominant angle.
#[derive(Debug, Clone, Copy, PartialEq, Eq, Structural)]
pub struct MeanVector {
    pub cos: i32,
    pub sin: i32,
}

/// Square of the gradient magnitude of a pixel with derivatives `gx`, `gy`.
pub open spec fn magnitude_squared(gx: int, gy: int) -> int {
    gx * gx + gy * gy
}

/// The greatest squared magnitude among the first `n` pixels, 0 for none.
pub open spec fn peak_magnitude_squared(gx: Seq<i32>, gy: Seq<i32>, n: nat) -> int
    decreases n,
{
    if n == 0 {
        0
    } else {
        let rest = peak_magnitude_squared(gx, gy, (n - 1) as nat);
        let m = magnitude_squared(gx[n - 1] as int, gy[n - 1] as int);
        if m > rest {
            m
        } else {
            rest
        }
    }
}

/// Whether a magnitude exceeds one tenth of the peak magnitude, both given
/// squared: `|g| > 0.1 * |peak|` is `100 * |g|^2 > |peak|^2`.
pub open spec fn is_strong(m: int, peak: int) -> bool {
    100 * m > peak
}

/// The pixels whose gradient magnitude exceeds one tenth of the greatest
/// magnitude in the image.
pub open spec fn strong_pixels(gx: Seq<i32>, gy: Seq<i32>) -> Seq<bool> {
    Seq::new(
        gx.len(),
        |i: int|
            is_strong(
                magnitude_squared(gx[i] as int, gy[i] as int),
                peak_magnitude_squared(gx, gy, gx.len()),
            ),
    )
}

/// The integer nearest to `n / d`, a half rounding away from zero. Meant for
/// `d > 0`.
pub open spec fn round_ratio(n: int, d: int) -> int {
    if n >= 0 {
        nearest_quotient(n, d)
    } else {
        -nearest_quotient(-n, d)
    }
}

/// The cosine of twice the angle of the gradient `(gx, gy)`, in millionths:
/// `(gx^2 - gy^2) / (gx^2 + gy^2)`, and 0 where there is no gradient.
pub open spec fn doubled_cos(gx: int, gy: int) -> int {
    if magnitude_squared(gx, gy) == 0 {
        0
    } else {
        round_ratio(UNIT * (gx * gx - gy * gy), magnitude_squared(gx, gy))
    }
}

/// The sine of twice the angle of the gradient `(gx, gy)`, in millionths:
/// `2 * gx * gy / (gx^2 + gy^2)`, and 0 where there is no gradient.
pub open spec fn doubled_sin(gx: int, gy: int) -> int {
    if magnitude_squared(gx, gy) == 0 {
        0
    } else {
        round_ratio(UNIT * (2 * gx * gy), magnitude_squared(gx, gy))
    }
}

/// Sum of `doubled_cos` over those of the first `n` pixels that `mask`
/// selects.
pub open spec fn doubled_cos_sum(gx: Seq<i32>, gy: Seq<i32>, mask: Seq<bool>, n: nat) -> int
    decreases n,
{
    if n == 0 {
        0
    } else {
        doubled_cos_sum(gx, gy, mask, (n - 1) as nat) + if mask[n - 1] {
            doubled_cos(gx[n - 1] as int, gy[n - 1] as int)
        } else {
            0
        }
    }
}

/// Sum of `doubled_sin` over those of the first `n` pixels that `mask`
/// selects.
pub open spec fn doubled_sin_sum(gx: Seq<i32>, gy: Seq<i32>, mask: Seq<bool>, n: nat) -> int
    decreases n,
{
    if n == 0 {
        0
    } else {
        doubled_sin_sum(gx, gy, mask, (n - 1) as nat) + if mask[n - 1] {
            doubled_sin(gx[n - 1] as int, gy[n - 1] as int)
        } else {
            0
        }
    }
}

/// The circular mean of the doubled gradient angles over the strong pixels:
/// the mean of their doubled-angle unit vectors. There is none where fewer
/// than `MIN_STRONG_PIXELS` pixels are strong.
pub open spec fn spec_circular_mean(gx: Seq<i32>, gy: Seq<i32>) -> Option<MeanVector> {
    let strong = strong_pixels(gx, gy);
    let count = count_set(strong, gx.len());
    if count < MIN_STRONG_PIXELS {
        None
    } else {
        Some(
            MeanVector {
                cos: round_ratio(doubled_cos_sum(gx, gy, strong, gx.len()), count as int) as i32,
                sin: round_ratio(doubled_sin_sum(gx, gy, strong, gx.len()), count as int) as i32,
            },
        )
    }
}

/// The peak is at least every squared magnitude it covers, and never negative.
pub proof fn lemma_peak_is_upper_bound(gx: Seq<i32>, gy: Seq<i32>, n: nat)
    ensures
        peak_magnitude_squared(gx, gy, n) >= 0,
        forall|i: int|
            0 <= i < n ==> #[trigger] magnitude_squared(gx[i] as int, gy[i] as int)
                <= peak_magnitude_squared(gx, gy, n),
    decreases n,
{
    if n > 0 {
        lemma_peak_is_upper_bound(gx, gy, (n - 1) as nat);
    }
}

/// The peak over at least one pixel is the squared magnitude of one of them.
pub proof fn lemma_peak_is_attained(gx: Seq<i32>, gy: Seq<i32>, n: nat)
    requires
        n > 0,
    ensures
        exists|i: int|
            0 <= i < n && #[trigger] magnitude_squared(gx[i] as int, gy[i] as int)
                == peak_magnitude_squared(gx, gy, n),
    decreases n,
{
    let m = magnitude_squared(gx[n - 1] as int, gy[n - 1] as int);
    if n == 1 {
        assert(peak_magnitude_squared(gx, gy, 0) == 0);
        lemma_magnitude_bounds(gx[n - 1] as int, gy[n - 1] as int);
        assert(magnitude_squared(gx[0] as int, gy[0] as int) == peak_magnitude_squared(
            gx,
            gy,
            n,
        ));
    } else {
        lemma_peak_is_attained(gx, gy, (n - 1) as nat);
        if m > peak_magnitude_squared(gx, gy, (n - 1) as nat) {
            assert(magnitude_squared(gx[n - 1] as int, gy[n - 1] as int)
                == peak_magnitude_squared(gx, gy, n));
        } else {
            let i = choose|i: int|
                0 <= i < n - 1 && #[trigger] magnitude_squared(gx[i] as int, gy[i] as int)
                    == peak_magnitude_squared(gx, gy, (n - 1) as nat);
            assert(magnitude_squared(gx[i] as int, gy[i] as int) == peak_magnitude_squared(
                gx,
                gy,
                n,
            ));
        }
    }
}

/// An image without any gradient has no strong pixel.
pub proof fn lemma_no_gradient_no_strong_pixel(gx: Seq<i32>, gy: Seq<i32>)
    requires
        forall|i: int| 0 <= i < gx.len() ==> gx[i] == 0 && gy[i] == 0,
    ensures
        count_set(strong_pixels(gx, gy), gx.len()) == 0,
        spec_circular_mean(gx, gy) is None,
{
    let n = gx.len();
    lemma_peak_is_upper_bound(gx, gy, n);
    let strong = strong_pixels(gx, gy);
    assert forall|i: int| 0 <= i < n implies !strong[i] by {
        assert(magnitude_squared(gx[i] as int, gy[i] as int) == 0);
    }
    lemma_count_set_zero(strong, n);
}

/// A squared magnitude is never negative, and vanishes only without gradient.
pub proof fn lemma_magnitude_bounds(gx: int, gy: int)
    ensures
        magnitude_squared(gx, gy) >= 0,
        magnitude_squared(gx, gy) == 0 <==> gx == 0 && gy == 0,
        -magnitude_squared(gx, gy) <= gx * gx - gy * gy <= magnitude_squared(gx, gy),
        -magnitude_squared(gx, gy) <= 2 * gx * gy <= magnitude_squared(gx, gy),
{
    assert(gx * gx >= 0 && (gx * gx == 0 <==> gx == 0)) by (nonlinear_arith);
    assert(gy * gy >= 0 && (gy * gy == 0 <==> gy == 0)) by (nonlinear_arith);
    assert(gx * gx + gy * gy - 2 * gx * gy == (gx - gy) * (gx - gy)) by (nonlinear_arith);
    assert(gx * gx + gy * gy + 2 * gx * gy == (gx + gy) * (gx + gy)) by (nonlinear_arith);
    assert((gx - gy) * (gx - gy) >= 0) by (nonlinear_arith);
    assert((gx + gy) * (gx + gy) >= 0) by (nonlinear_arith);
}

/// A rounded ratio lies within one half of the exact ratio, on either side
/// of zero.
pub proof fn lemma_round_ratio_bounds(n: int, d: int)
    requires
        d > 0,
    ensures
        (2 * round_ratio(n, d) - 1) * d <= 2 * n <= (2 * round_ratio(n, d) + 1) * d,
{
    let q = round_ratio(n, d);
    if n >= 0 {
        lemma_nearest_quotient_bounds(n, d);
    } else {
        let p = nearest_quotient(-n, d);
        lemma_nearest_quotient_bounds(-n, d);
        assert((2 * q + 1) * d == -((2 * p - 1) * d)) by (nonlinear_arith)
            requires
                q == -p,
        ;
        assert((2 * q - 1) * d == -((2 * p + 1) * d)) by (nonlinear_arith)
            requires
                q == -p,
        ;
    }
}

/// The rounded ratio of a numerator within `k` times the denominator lies
/// within `k`.
pub proof fn lemma_round_ratio_within(n: int, d: int, k: int)
    requires
        d > 0,
        k >= 0,
        -k * d <= n <= k * d,
    ensures
        -k <= round_ratio(n, d) <= k,
{
    let q = round_ratio(n, d);
    lemma_round_ratio_bounds(n, d);
    assert(q <= k) by (nonlinear_arith)
        requires
            (2 * q - 1) * d <= 2 * n,
            n <= k * d,
            d > 0,
    ;
    assert(q >= -k) by (nonlinear_arith)
        requires
            2 * n <= (2 * q + 1) * d,
            -k * d <= n,
            d > 0,
    ;
}

/// A doubled-angle vector has components within the unit.
pub proof fn lemma_doubled_angle_within_unit(gx: int, gy: int)
    ensures
        -UNIT <= doubled_cos(gx, gy) <= UNIT,
        -UNIT <= doubled_sin(gx, gy) <= UNIT,
{
    let m = magnitude_squared(gx, gy);
    lemma_magnitude_bounds(gx, gy);
    if m != 0 {
        let c = gx * gx - gy * gy;
        let s = 2 * gx * gy;
        assert(-UNIT * m <= UNIT * c <= UNIT * m) by (nonlinear_arith)
            requires
                -m <= c <= m,
        ;
        assert(-UNIT * m <= UNIT * s <= UNIT * m) by (nonlinear_arith)
            requires
                -m <= s <= m,
        ;
        lemma_round_ratio_within(UNIT * c, m, UNIT as int);
        lemma_round_ratio_within(UNIT * s, m, UNIT as int);
    }
}

/// A gradient and its negation describe the same edge: they have the same
/// doubled-angle vector.
pub proof fn lemma_doubled_angle_ignores_sign(gx: int, gy: int)
    ensures
        doubled_cos(-gx, -gy) == doubled_cos(gx, gy),
        doubled_sin(-gx, -gy) == doubled_sin(gx, gy),
{
    assert((-gx) * (-gx) == gx * gx) by (nonlinear_arith);
    assert((-gy) * (-gy) == gy * gy) by (nonlinear_arith);
    assert(2 * (-gx) * (-gy) == 2 * gx * gy) by (nonlinear_arith);
}

/// The sums of doubled-angle vectors lie within the unit times the number of
/// pixels summed.
pub proof fn lemma_doubled_sums_within(gx: Seq<i32>, gy: Seq<i32>, mask: Seq<bool>, n: nat)
    ensures
        -UNIT * count_set(mask, n) <= doubled_cos_sum(gx, gy, mask, n) <= UNIT * count_set(mask, n),
        -UNIT * count_set(mask, n) <= doubled_sin_sum(gx, gy, mask, n) <= UNIT * count_set(mask, n),
    decreases n,
{
    if n > 0 {
        lemma_doubled_sums_within(gx, gy, mask, (n - 1) as nat);
        lemma_doubled_angle_within_unit(gx[n - 1] as int, gy[n - 1] as int);
    }
}

/// A circular mean, where there is one, is the rounded mean of the doubled-
/// angle vectors, and its components lie within the unit.
pub proof fn lemma_circular_mean_within_unit(gx: Seq<i32>, gy: Seq<i32>)
    requires
        spec_circular_mean(gx, gy) is Some,
    ensures
        -UNIT <= spec_circular_mean(gx, gy)->Some_0.cos <= UNIT,
        -UNIT <= spec_circular_mean(gx, gy)->Some_0.sin <= UNIT,
        spec_circular_mean(gx, gy)->Some_0.cos == round_ratio(
            doubled_cos_sum(gx, gy, strong_pixels(gx, gy), gx.len()),
            count_set(strong_pixels(gx, gy), gx.len()) as int,
        ),
        spec_circular_mean(gx, gy)->Some_0.sin == round_ratio(
            doubled_sin_sum(gx, gy, strong_pixels(gx, gy), gx.len()),
            count_set(strong_pixels(gx, gy), gx.len()) as int,
        ),
{
    let strong = strong_pixels(gx, gy);
    let count = count_set(strong, gx.len()) as int;
    lemma_doubled_sums_within(gx, gy, strong, gx.len());
    lemma_round_ratio_within(doubled_cos_sum(gx, gy, strong, gx.len()), count, UNIT as int);
    lemma_round_ratio_within(doubled_sin_sum(gx, gy, strong, gx.len()), count, UNIT as int);
}

impl GradientField {
    /// Width and height.
    pub closed spec fn spec_size(&self) -> ImageSize {
        self.size
    }

    /// The derivatives along x, row by row.
    pub closed spec fn gx(&self) -> Seq<i32> {
        self.gx@
    }

    /// The derivatives along y, row by row.
    pub closed spec fn gy(&self) -> Seq<i32> {
        self.gy@
    }

    /// The grid has pixels, and one derivative along each axis for each.
    #[verifier::type_invariant]
    pub open spec fn wf(&self) -> bool {
        &&& !self.spec_size().is_empty()
        &&& self.gx().len() == self.spec_size().area()
        &&& self.gy().len() == self.spec_size().area()
    }

    /// Takes over the two derivative buffers of an image of the given size.
    ///
    /// A size without pixels is rejected with `EmptyImage`, a buffer whose
    /// length is not one value per pixel with `InvalidInput`.
    pub fn new(size: ImageSize, gx: Vec<i32>, gy: Vec<i32>) -> (r: Result<
        GradientField,
        GradientError,
    >)
        ensures
            size.is_empty() ==> r is Err && r->Err_0 == GradientError::EmptyImage,
            !size.is_empty() && (gx@.len() != size.area() || gy@.len() != size.area()) ==> r is Err
                && r->Err_0 == GradientError::InvalidInput,
            !size.is_empty() && gx@.len() == size.area() && gy@.len() == size.area() ==> r is Ok
                && r->Ok_0.wf() && r->Ok_0.spec_size() == size && r->Ok_0.gx() == gx@
                && r->Ok_0.gy() == gy@,
    {
        if size.width == 0 || size.height == 0 {
            return Err(GradientError::EmptyImage);
        }
        let cells: u128 = size.cell_count() as u128;
        if gx.len() as u128 != cells || gy.len() as u128 != cells {
            return Err(GradientError::InvalidInput);
        }
        Ok(GradientField { size, gx, gy })
    }

    /// Width and height.
    #[verifier::when_used_as_spec(spec_size)]
    pub fn size(&self) -> (s: ImageSize)
        ensures
            s == self.spec_size(),
    {
        self.size
    }

    /// Number of pixels.
    pub fn len(&self) -> (n: usize)
        ensures
            n == self.spec_size().area(),
            n == self.gx().len(),
            n == self.gy().len(),
    {
        proof {
            use_type_invariant(self);
        }
        self.gx.len()
    }

    /// The derivatives along x and y of pixel `i`, counted row by row.
    pub fn at(&self, i: usize) -> (g: (i32, i32))
        requires
            i < self.spec_size().area(),
        ensures
            g.0 == self.gx()[i as int],
            g.1 == self.gy()[i as int],
    {
        proof {
            use_type_invariant(self);
        }
        (self.gx[i], self.gy[i])
    }
}

/// Square of the gradient magnitude of a pixel with derivatives `gx`, `gy`.
pub fn squared_magnitude(gx: i32, gy: i32) -> (m: u64)
    ensures
        m == magnitude_squared(gx as int, gy as int),
{
    let x: i64 = gx as i64;
    let y: i64 = gy as i64;
    assert(0 <= x * x <= 0x4000_0000_0000_0000) by (nonlinear_arith)
        requires
            -0x8000_0000 <= x <= 0x8000_0000,
    ;
    assert(0 <= y * y <= 0x4000_0000_0000_0000) by (nonlinear_arith)
        requires
            -0x8000_0000 <= y <= 0x8000_0000,
    ;
    let xx: i64 = x * x;
    let yy: i64 = y * y;
    (xx as u64) + (yy as u64)
}

/// The integer nearest to `n / d`, a half rounding away from zero.
fn rounded_ratio(n: i128, d: i128) -> (q: i128)
    requires
        d > 0,
        -0x1000_0000_0000_0000_0000_0000_0000_0000 <= n <= 0x1000_0000_0000_0000_0000_0000_0000_0000,
        d <= 0x1000_0000_0000_0000_0000_0000_0000_0000,
    ensures
        q == round_ratio(n as int, d as int),
{
    if n >= 0 {
        let q: u128 = rounded_quotient(n as u128, d as u128);
        proof {
            let k = n as int;
            assert(-k * d <= k <= k * d) by (nonlinear_arith)
                requires
                    k >= 0,
                    d >= 1,
            ;
            lemma_round_ratio_within(n as int, d as int, k);
        }
        q as i128
    } else {
        let q: u128 = rounded_quotient((-n) as u128, d as u128);
        proof {
            let k = -(n as int);
            assert(-k * d <= -k <= k * d) by (nonlinear_arith)
                requires
                    k > 0,
                    d >= 1,
            ;
            lemma_round_ratio_within(n as int, d as int, k);
        }
        -(q as i128)
    }
}

/// The doubled-angle unit vector of the gradient `(gx, gy)`, in millionths:
/// the cosine and the sine of twice its angle, and `(0, 0)` where there is no
/// gradient.
pub fn doubled_angle(gx: i32, gy: i32) -> (v: (i32, i32))
    ensures
        v.0 == doubled_cos(gx as int, gy as int),
        v.1 == doubled_sin(gx as int, gy as int),
        -UNIT <= v.0 <= UNIT,
        -UNIT <= v.1 <= UNIT,
{
    let m: u64 = squared_magnitude(gx, gy);
    if m == 0 {
        proof {
            lemma_doubled_angle_within_unit(gx as int, gy as int);
        }
        return (0, 0);
    }
    let x: i128 = gx as i128;
    let y: i128 = gy as i128;
    proof {
        lemma_magnitude_bounds(gx as int, gy as int);
        lemma_doubled_angle_within_unit(gx as int, gy as int);
        assert(0 <= x * x <= 0x4000_0000_0000_0000) by (nonlinear_arith)
            requires
                -0x8000_0000 <= x <= 0x8000_0000,
        ;
        assert(0 <= y * y <= 0x4000_0000_0000_0000) by (nonlinear_arith)
            requires
                -0x8000_0000 <= y <= 0x8000_0000,
        ;
        assert(-0x4000_0000_0000_0000 <= x * y <= 0x4000_0000_0000_0000) by (nonlinear_arith)
            requires
                -0x8000_0000 <= x <= 0x8000_0000,
                -0x8000_0000 <= y <= 0x8000_0000,
        ;
        assert(2 * x * y == 2 * (x * y)) by (nonlinear_arith);
    }
    let c: i128 = x * x - y * y;
    let s: i128 = 2 * (x * y);
    let cos: i128 = rounded_ratio((UNIT as i128) * c, m as i128);
    let sin: i128 = rounded_ratio((UNIT as i128) * s, m as i128);
    (cos as i32, sin as i32)
}

/// Selects the pixels whose gradient magnitude exceeds one tenth of the
/// greatest magnitude in the image.
pub fn strong_gradient_mask(field: &GradientField) -> (mask: Mask)
    ensures
        mask.wf(),
        mask.size() == field.size(),
        mask@ == strong_pixels(field.gx(), field.gy()),
{
    proof {
        use_type_invariant(field);
    }
    let n = field.len();
    let mut peak: u64 = 0;
    let mut i: usize = 0;
    while i < n
        invariant
            i <= n,
            field.wf(),
            n == field.gx().len(),
            n == field.gy().len(),
            peak == peak_magnitude_squared(field.gx(), field.gy(), i as nat),
        decreases n - i,
    {
        let g = field.at(i);
        let m = squared_magnitude(g.0, g.1);
        if m > peak {
            peak = m;
        }
        i += 1;
    }
    let mut bits: Vec<bool> = Vec::new();
    let mut j: usize = 0;
    while j < n
        invariant
            j <= n,
            field.wf(),
            n == field.gx().len(),
            n == field.gy().len(),
            peak == peak_magnitude_squared(field.gx(), field.gy(), n as nat),
            bits@.len() == j,
            forall|k: int| 0 <= k < j ==> bits@[k] == strong_pixels(field.gx(), field.gy())[k],
        decreases n - j,
    {
        let g = field.at(j);
        let m = squared_magnitude(g.0, g.1);
        bits.push(100 * (m as u128) > peak as u128);
        j += 1;
    }
    assert(bits@ =~= strong_pixels(field.gx(), field.gy()));
    Mask::of_cells(field.size(), bits)
}

/// The circular mean of the doubled gradient angles over the strong pixels
/// of an image: the mean of their doubled-angle unit vectors, in millionths.
///
/// `None` where fewer than `MIN_STRONG_PIXELS` pixels are strong: such an
/// image has no dominant direction.
pub fn circular_mean(field: &GradientField) -> (r: Option<MeanVector>)
    ensures
        r == spec_circular_mean(field.gx(), field.gy()),
        r is None <==> count_set(strong_pixels(field.gx(), field.gy()), field.gx().len())
            < MIN_STRONG_PIXELS,
        r is Some ==> -UNIT <= r->Some_0.cos <= UNIT && -UNIT <= r->Some_0.sin <= UNIT,
{
    proof {
        use_type_invariant(field);
    }
    let strong = strong_gradient_mask(field);
    let n = field.len();
    let mut count: usize = 0;
    let mut cos_sum: i128 = 0;
    let mut sin_sum: i128 = 0;
    let mut i: usize = 0;
    while i < n
        invariant
            i <= n,
            field.wf(),
            strong.wf(),
            n == field.gx().len(),
            n == field.gy().len(),
            n == strong@.len(),
            count == count_set(strong@, i as nat),
            count <= i,
            cos_sum == doubled_cos_sum(field.gx(), field.gy(), strong@, i as nat),
            sin_sum == doubled_sin_sum(field.gx(), field.gy(), strong@, i as nat),
            -1_000_000 * count <= cos_sum <= 1_000_000 * count,
            -1_000_000 * count <= sin_sum <= 1_000_000 * count,
        decreases n - i,
    {
        if strong.is_set(i) {
            let g = field.at(i);
            let v = doubled_angle(g.0, g.1);
            cos_sum += v.0 as i128;
            sin_sum += v.1 as i128;
            count += 1;
        }
        i += 1;
    }
    if count < MIN_STRONG_PIXELS {
        return None;
    }
    proof {
        lemma_round_ratio_within(cos_sum as int, count as int, UNIT as int);
        lemma_round_ratio_within(sin_sum as int, count as int, UNIT as int);
    }
    let cos: i128 = rounded_ratio(cos_sum, count as i128);
    let sin: i128 = rounded_ratio(sin_sum, count as i128);
    Some(MeanVector { cos: cos as i32, sin: sin as i32 })
}

} // verus!
