use crate::error::GradientError;
use vstd::prelude::*;

verus! {

/// Width, in pixels, of the working image that every input is scaled to.
pub const WORKING_WIDTH: u32 = 100;

/// Width and height of an image or of a grid derived from it, in pixels.
#[derive(Debug, Clone, Copy, PartialEq, Eq, Structural)]
pub struct ImageSize {
    pub width: u32,
    pub height: u32,
}

/// Width and height of the working image. The height of a very tall, narrow
/// input exceeds 32 bits, so it is kept in 64.
#[derive(Debug, Clone, Copy, PartialEq, Eq, Structural)]
pub struct WorkingSize {
    pub width: u32,
    pub height: u64,
}

impl ImageSize {
    /// Whether the image holds no pixel at all.
    pub open spec fn is_empty(self) -> bool {
        self.width == 0 || self.height == 0
    }

    /// Number of pixels.
    pub open spec fn area(self) -> nat {
        self.width as nat * self.height as nat
    }

    /// Number of pixels.
    pub fn cell_count(&self) -> (n: u64)
        ensures
            n == self.area(),
            self.is_empty() <==> n == 0,
    {
        assert(self.width as nat * self.height as nat <= 0xFFFF_FFFF * 0xFFFF_FFFF)
            by (nonlinear_arith)
            requires
                self.width <= 0xFFFF_FFFF,
                self.height <= 0xFFFF_FFFF,
        ;
        assert(self.width as nat * self.height as nat == 0 <==> self.width == 0 || self.height
            == 0) by (nonlinear_arith);
        (self.width as u64) * (self.height as u64)
    }
}

/// The integer nearest to `n / d`, a half rounding up. Meant for `n >= 0` and
/// `d > 0`.
pub open spec fn nearest_quotient(n: int, d: int) -> int {
    (n + d / 2) / d
}

/// `nearest_quotient(n, d)` lies within one half of the exact quotient:
/// `q - 1/2 <= n / d < q + 1/2`, written without fractions.
pub proof fn lemma_nearest_quotient_bounds(n: int, d: int)
    requires
        n >= 0,
        d > 0,
    ensures
        nearest_quotient(n, d) >= 0,
        (2 * nearest_quotient(n, d) - 1) * d <= 2 * n,
        2 * n < (2 * nearest_quotient(n, d) + 1) * d,
{
    let q = nearest_quotient(n, d);
    let a = n + d / 2;
    vstd::arithmetic::div_mod::lemma_fundamental_div_mod(a, d);
    vstd::arithmetic::div_mod::lemma_mod_bound(a, d);
    vstd::arithmetic::div_mod::lemma_div_pos_is_pos(a, d);
    assert(a == d * q + a % d);
    assert(d * q == q * d) by (nonlinear_arith);
    assert((2 * q - 1) * d == 2 * (q * d) - d) by (nonlinear_arith);
    assert((2 * q + 1) * d == 2 * (q * d) + d) by (nonlinear_arith);
}

/// An integer within one half of `n / d` in the sense of
/// `lemma_nearest_quotient_bounds` is `nearest_quotient(n, d)`: the rounding
/// has one answer.
pub proof fn lemma_nearest_quotient_unique(n: int, d: int, q: int)
    requires
        n >= 0,
        d > 0,
        (2 * q - 1) * d <= 2 * n,
        2 * n < (2 * q + 1) * d,
    ensures
        q == nearest_quotient(n, d),
{
    let a = n + d / 2;
    assert((2 * q - 1) * d == 2 * (q * d) - d) by (nonlinear_arith);
    assert((2 * q + 1) * d == 2 * (q * d) + d) by (nonlinear_arith);
    let r = a - q * d;
    assert(0 <= r < d);
    assert(a == q * d + r);
    vstd::arithmetic::div_mod::lemma_fundamental_div_mod_converse(a, d, q, r);
}

/// The nearest integer to `v * d / d` is `v`.
pub proof fn lemma_nearest_quotient_exact(v: int, d: int)
    requires
        v >= 0,
        d > 0,
    ensures
        nearest_quotient(v * d, d) == v,
{
    assert(v * d >= 0) by (nonlinear_arith)
        requires
            v >= 0,
            d > 0,
    ;
    assert((2 * v - 1) * d <= 2 * (v * d) < (2 * v + 1) * d) by (nonlinear_arith)
        requires
            d > 0,
    ;
    lemma_nearest_quotient_unique(v * d, d, v);
}

/// The integer nearest to `n / d`, a half rounding up.
pub(crate) fn rounded_quotient(n: u128, d: u128) -> (q: u128)
    requires
        d > 0,
        n + d <= u128::MAX,
    ensures
        q == nearest_quotient(n as int, d as int),
{
    (n + d / 2) / d
}

/// The size of the working image for a decoded image of size `(w, h)`:
/// `WORKING_WIDTH` wide, and as high as keeps the aspect ratio,
/// `100 * h / w` rounded to the nearest integer.
pub open spec fn spec_working_size(decoded: ImageSize) -> WorkingSize {
    WorkingSize {
        width: WORKING_WIDTH,
        height: nearest_quotient(
            WORKING_WIDTH as int * decoded.height as int,
            decoded.width as int,
        ) as u64,
    }
}

/// Validates the outcome of decoding and gives the size that the image is
/// scaled to. `None` stands for data that could not be decoded.
///
/// Undecodable data is rejected with `Decode`, an image without pixels with
/// `EmptyImage`; every other size has a working size.
pub fn working_size(decoded: Option<ImageSize>) -> (r: Result<WorkingSize, GradientError>)
    ensures
        decoded is None ==> r == Err::<WorkingSize, GradientError>(GradientError::Decode),
        decoded is Some && decoded->Some_0.is_empty() ==> r == Err::<WorkingSize, GradientError>(
            GradientError::EmptyImage,
        ),
        decoded is Some && !decoded->Some_0.is_empty() ==> r == Ok::<WorkingSize, GradientError>(
            spec_working_size(decoded->Some_0),
        ),
        r is Ok ==> r->Ok_0.width == WORKING_WIDTH && r->Ok_0.height == nearest_quotient(
            100 * decoded->Some_0.height as int,
            decoded->Some_0.width as int,
        ),
{
    let size = match decoded {
        None => {
            return Err(GradientError::Decode);
        },
        Some(size) => size,
    };
    if size.width == 0 || size.height == 0 {
        return Err(GradientError::EmptyImage);
    }
    let n: u128 = (WORKING_WIDTH as u128) * (size.height as u128);
    let q: u128 = rounded_quotient(n, size.width as u128);
    proof {
        lemma_nearest_quotient_bounds(n as int, size.width as int);
        // 2 * n >= (2q - 1) * d  and d >= 1 give  q <= n + 1
        assert(q <= n + 1) by (nonlinear_arith)
            requires
                (2 * q - 1) * size.width <= 2 * n,
                size.width >= 1,
                q >= 0,
        ;
    }
    Ok(WorkingSize { width: WORKING_WIDTH, height: q as u64 })
}

} // verus!
