use crate::axis::{DominantAxis, UNIT};
use crate::error::GradientError;
use crate::geometry::ImageSize;
use crate::raster::{
    count_set, greatest, is_maximum, is_minimum, least, lemma_count_set_zero,
    lemma_extremes_exist, Mask, ScalarField,
};
use vstd::prelude::*;

verus! {

/// The position along the direction `(dx, dy)` of the pixel with index `i`
/// in a grid `width` wide: `x * dx + y * dy` for the pixel's column `x` and
/// row `y`.
pub open spec fn projection(width: int, dx: int, dy: int, i: int) -> int {
    (i % width) * dx + (i / width) * dy
}

/// The projection of every pixel of a grid onto an axis, row by row.
pub open spec fn projected(size: ImageSize, axis: DominantAxis) -> Seq<i64> {
    Seq::new(
        size.area(),
        |i: int| projection(size.width as int, axis.dx() as int, axis.dy() as int, i) as i64,
    )
}

/// Whether a projection `t` lies in the low band of the range `[lo, hi]`:
/// `t <= lo + 0.15 * (hi - lo)`, written without fractions.
pub open spec fn in_start_band(t: int, lo: int, hi: int) -> bool {
    20 * (t - lo) <= 3 * (hi - lo)
}

/// Whether a projection `t` lies in the high band of the range `[lo, hi]`:
/// `t >= hi - 0.15 * (hi - lo)`, written without fractions.
pub open spec fn in_end_band(t: int, lo: int, hi: int) -> bool {
    20 * (hi - t) <= 3 * (hi - lo)
}

/// The cells of a field in the low band of its range.
pub open spec fn start_band(field: Seq<i64>) -> Seq<bool> {
    Seq::new(
        field.len(),
        |i: int| in_start_band(field[i] as int, least(field) as int, greatest(field) as int),
    )
}

/// The cells of a field in the high band of its range.
pub open spec fn end_band(field: Seq<i64>) -> Seq<bool> {
    Seq::new(
        field.len(),
        |i: int| in_end_band(field[i] as int, least(field) as int, greatest(field) as int),
    )
}

/// Neither band of a field with at least one cell is empty: the low band
/// holds a cell of least value, the high band one of greatest value.
pub proof fn lemma_bands_not_empty(field: Seq<i64>)
    requires
        field.len() > 0,
    ensures
        is_minimum(field, least(field)),
        is_maximum(field, greatest(field)),
        count_set(start_band(field), field.len()) > 0,
        count_set(end_band(field), field.len()) > 0,
{
    lemma_extremes_exist(field, field.len());
    let lo = least(field);
    let hi = greatest(field);
    let i = choose|i: int| 0 <= i < field.len() && field[i] == lo;
    let j = choose|j: int| 0 <= j < field.len() && field[j] == hi;
    assert(lo <= field[j]);
    assert(start_band(field)[i]);
    assert(end_band(field)[j]);
    lemma_count_set_zero(start_band(field), field.len());
    lemma_count_set_zero(end_band(field), field.len());
}

/// The two bands leave the middle 70% of the range out: where the field is
/// not constant, no cell lies in both, and a cell in the low band lies below
/// every cell in the high band.
pub proof fn lemma_bands_are_apart(field: Seq<i64>, i: int, j: int)
    requires
        0 <= i < field.len(),
        0 <= j < field.len(),
        least(field) < greatest(field),
        start_band(field)[i],
        end_band(field)[j],
    ensures
        field[i] < field[j],
        !end_band(field)[i],
        !start_band(field)[j],
{
}

/// Projects every pixel of a grid of the given size onto `axis`.
///
/// A size without pixels is rejected with `EmptyImage`.
pub fn project(size: ImageSize, axis: &DominantAxis) -> (r: Result<ScalarField, GradientError>)
    ensures
        size.is_empty() ==> r is Err && r->Err_0 == GradientError::EmptyImage,
        !size.is_empty() ==> r is Ok && r->Ok_0.wf() && r->Ok_0.size() == size && r->Ok_0@
            == projected(size, *axis),
        r is Ok ==> forall|i: int|
            0 <= i < size.area() ==> #[trigger] r->Ok_0@[i] == (i % size.width as int) * axis.dx()
                + (i / size.width as int) * axis.dy(),
{
    proof {
        use_type_invariant(axis);
    }
    if size.width == 0 || size.height == 0 {
        return Err(GradientError::EmptyImage);
    }
    Ok(projection_field(size, axis))
}

/// The projection of every pixel of a grid that has pixels.
pub(crate) fn projection_field(size: ImageSize, axis: &DominantAxis) -> (field: ScalarField)
    requires
        !size.is_empty(),
    ensures
        field.wf(),
        field.size() == size,
        field@ == projected(size, *axis),
        forall|i: int|
            0 <= i < size.area() ==> #[trigger] field@[i] == (i % size.width as int) * axis.dx() + (
            i / size.width as int) * axis.dy(),
{
    proof {
        use_type_invariant(axis);
    }
    let dx: i64 = axis.dx() as i64;
    let dy: i64 = axis.dy() as i64;
    let ghost w = size.width as int;
    let mut values: Vec<i64> = Vec::new();
    let mut y: u32 = 0;
    while y < size.height
        invariant
            y <= size.height,
            w == size.width,
            w > 0,
            dx == axis.dx(),
            dy == axis.dy(),
            -UNIT <= dx <= UNIT,
            -UNIT <= dy <= UNIT,
            values@.len() == y * w,
            forall|k: int|
                0 <= k < values@.len() ==> #[trigger] values@[k] == projection(
                    w,
                    dx as int,
                    dy as int,
                    k,
                ),
        decreases size.height - y,
    {
        let mut x: u32 = 0;
        while x < size.width
            invariant
                x <= size.width,
                y < size.height,
                w == size.width,
                w > 0,
                dx == axis.dx(),
                dy == axis.dy(),
                -UNIT <= dx <= UNIT,
                -UNIT <= dy <= UNIT,
                values@.len() == y * w + x,
                forall|k: int|
                    0 <= k < values@.len() ==> #[trigger] values@[k] == projection(
                        w,
                        dx as int,
                        dy as int,
                        k,
                    ),
            decreases size.width - x,
        {
            proof {
                lemma_cell_coordinates(w, x as int, y as int);
                lemma_product_bound(x as int, dx as int);
                lemma_product_bound(y as int, dy as int);
            }
            let t: i64 = (x as i64) * dx + (y as i64) * dy;
            values.push(t);
            x += 1;
        }
        proof {
            assert(y * w + w == (y + 1) * w) by (nonlinear_arith);
        }
        y += 1;
    }
    proof {
        assert(values@.len() == size.area()) by (nonlinear_arith)
            requires
                values@.len() == y * w,
                y == size.height,
                w == size.width,
                size.area() == size.width as nat * size.height as nat,
        ;
        assert forall|k: int| 0 <= k < size.area() implies #[trigger] values@[k] == projected(
            size,
            *axis,
        )[k] by {
            lemma_projection_fits(size, k, dx as int, dy as int);
        }
        assert(values@ =~= projected(size, *axis));
        assert forall|i: int| 0 <= i < size.area() implies #[trigger] values@[i] == (i
            % size.width as int) * axis.dx() + (i / size.width as int) * axis.dy() by {
            lemma_projection_fits(size, i, dx as int, dy as int);
        }
    }
    ScalarField::of_cells(size, values)
}

/// The cell in column `x` of row `y` has index `y * width + x`, and the index
/// gives both back.
pub proof fn lemma_cell_coordinates(width: int, x: int, y: int)
    requires
        0 <= x < width,
        0 <= y,
    ensures
        (y * width + x) % width == x,
        (y * width + x) / width == y,
{
    vstd::arithmetic::div_mod::lemma_fundamental_div_mod_converse(y * width + x, width, y, x);
}

/// A 32-bit coordinate times a direction component stays far inside 64 bits.
proof fn lemma_product_bound(c: int, d: int)
    requires
        0 <= c <= 0xFFFF_FFFF,
        -UNIT <= d <= UNIT,
    ensures
        -0xFFFF_FFFF * UNIT <= c * d <= 0xFFFF_FFFF * UNIT,
{
    assert(-0xFFFF_FFFF * 1_000_000 <= c * d <= 0xFFFF_FFFF * 1_000_000) by (nonlinear_arith)
        requires
            0 <= c <= 0xFFFF_FFFF,
            -1_000_000 <= d <= 1_000_000,
    ;
}

/// The projection of a cell of the grid fits in 64 bits.
proof fn lemma_projection_fits(size: ImageSize, i: int, dx: int, dy: int)
    requires
        0 <= i < size.area(),
        -UNIT <= dx <= UNIT,
        -UNIT <= dy <= UNIT,
    ensures
        projection(size.width as int, dx, dy, i) as i64 == projection(size.width as int, dx, dy, i),
        0 <= i % size.width as int <= 0xFFFF_FFFF,
        0 <= i / size.width as int <= 0xFFFF_FFFF,
{
    let w = size.width as int;
    let h = size.height as int;
    assert(w > 0) by (nonlinear_arith)
        requires
            0 <= i < w * h,
            w >= 0,
            h >= 0,
    ;
    vstd::arithmetic::div_mod::lemma_mod_bound(i, w);
    vstd::arithmetic::div_mod::lemma_fundamental_div_mod(i, w);
    vstd::arithmetic::div_mod::lemma_div_pos_is_pos(i, w);
    assert(i / w < h) by (nonlinear_arith)
        requires
            i == w * (i / w) + i % w,
            0 <= i % w,
            i < w * h,
            w > 0,
    ;
    lemma_product_bound(i % w, dx);
    lemma_product_bound(i / w, dy);
}

/// Splits a field into its two extreme bands: the cells within the lowest
/// 15% of the range of its values, and those within the highest 15%.
pub fn extreme_bands(field: &ScalarField) -> (r: (Mask, Mask))
    ensures
        r.0.wf(),
        r.1.wf(),
        r.0.size() == field.size(),
        r.1.size() == field.size(),
        r.0@ == start_band(field@),
        r.1@ == end_band(field@),
{
    proof {
        use_type_invariant(field);
    }
    let (lo, hi) = field.min_max();
    let n = field.len();
    let span: i128 = 3 * ((hi as i128) - (lo as i128));
    let mut low: Vec<bool> = Vec::new();
    let mut high: Vec<bool> = Vec::new();
    let mut i: usize = 0;
    while i < n
        invariant
            i <= n,
            field.wf(),
            n == field@.len(),
            lo == least(field@),
            hi == greatest(field@),
            span == 3 * (hi - lo),
            low@.len() == i,
            high@.len() == i,
            forall|k: int| 0 <= k < i ==> low@[k] == start_band(field@)[k],
            forall|k: int| 0 <= k < i ==> high@[k] == end_band(field@)[k],
        decreases n - i,
    {
        let t: i128 = field.value_at(i) as i128;
        low.push(20 * (t - (lo as i128)) <= span);
        high.push(20 * ((hi as i128) - t) <= span);
        i += 1;
    }
    assert(low@ =~= start_band(field@));
    assert(high@ =~= end_band(field@));
    let size = field.size();
    (Mask::of_cells(size, low), Mask::of_cells(size, high))
}

} // verus!
