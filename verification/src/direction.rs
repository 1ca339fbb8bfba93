use crate::axis::{
    compass_angle, is_unit_direction, DominantAxis, EIGHTH_TURN, QUARTER_TURN, UNIT,
};
use crate::error::{GradientError, Stage};
use crate::estimator::MeanVector;
use vstd::prelude::*;

verus! {

/// What the trigonometry outside this crate derives from a circular mean: the
/// unit direction at half its angle, in millionths, and the mathematical
/// angle of that direction (counter-clockwise from +x, y pointing up), in
/// millionths of a degree.
#[derive(Debug, Clone, Copy, PartialEq, Eq, Structural)]
pub struct Direction {
    pub dx: i32,
    pub dy: i32,
    pub cartesian: i32,
}

/// How far the doubled direction may point away from the mean vector, as a
/// cross product per unit of the mean's components: what rounding the
/// direction to millionths can make.
pub const HALF_ANGLE_TOLERANCE: i64 = 2_000_000;

/// The absolute value of `v`.
pub open spec fn absolute(v: int) -> int {
    if v < 0 {
        -v
    } else {
        v
    }
}

/// Whether `(dx, dy)`, in millionths, lies at half the angle of `mean`, up to
/// rounding. Its doubled direction `(dx^2 - dy^2, 2 * dx * dy)` points the
/// way of `mean`: their cross product all but vanishes and their dot product
/// is not negative. Of the two directions that do so, it is the one to the
/// right (`dx >= 0`), upwards (`dy <= 0`) where `mean.sin` is negative and
/// downwards else. The half angle of the zero vector is zero.
pub open spec fn is_half_angle(mean: MeanVector, dx: int, dy: int) -> bool {
    let a = dx * dx - dy * dy;
    let b = 2 * (dx * dy);
    let c = mean.cos as int;
    let s = mean.sin as int;
    let span = absolute(c) + absolute(s);
    &&& dx >= 0
    &&& (s >= 0 ==> dy >= 0)
    &&& (s < 0 ==> dy <= 0)
    &&& (span == 0 ==> dx == UNIT && dy == 0)
    &&& a * c + b * s >= 0
    &&& -HALF_ANGLE_TOLERANCE * span <= a * s - b * c <= HALF_ANGLE_TOLERANCE * span
}

/// Whether the mathematical angle `cartesian`, in millionths of a degree,
/// lies in the octant of the direction `(dx, dy)`, a direction to the right.
/// The angle is measured with y pointing up, so a direction that runs
/// downwards in the image has an angle below zero, and one that runs upwards
/// an angle above; a direction that is flatter than the diagonal has an angle
/// within an eighth of a turn of zero, and a steeper one an angle beyond.
/// Components within two millionths of the diagonal may round to either side
/// of it, and decide nothing.
pub open spec fn is_in_octant(dx: int, dy: int, cartesian: int) -> bool {
    &&& -QUARTER_TURN <= cartesian <= QUARTER_TURN
    &&& (dy > 0 ==> cartesian <= 0)
    &&& (dy < 0 ==> cartesian >= 0)
    &&& (dx >= absolute(dy) + 2 ==> -EIGHTH_TURN <= cartesian <= EIGHTH_TURN)
    &&& (absolute(dy) >= dx + 2 ==> cartesian <= -EIGHTH_TURN || cartesian >= EIGHTH_TURN)
}

/// Whether `d` is what trigonometry derives from `mean`: a unit direction at
/// half the angle of `mean`, with an angle in its octant.
pub open spec fn is_derived_from(d: Direction, mean: MeanVector) -> bool {
    &&& is_unit_direction(d.dx as int, d.dy as int)
    &&& is_half_angle(mean, d.dx as int, d.dy as int)
    &&& is_in_octant(d.dx as int, d.dy as int, d.cartesian as int)
}

/// The axis to work with for a circular mean and the direction derived from
/// it: the flat axis where there is no mean, the axis of the direction where
/// that is derived from the mean, and none where it is not.
pub open spec fn spec_resolve_axis(mean: Option<MeanVector>, d: Direction) -> Option<
    DominantAxis,
> {
    match mean {
        None => Some(DominantAxis::flat()),
        Some(m) => if is_derived_from(d, m) {
            Some(DominantAxis::spec_from_direction(d.dx, d.dy, d.cartesian))
        } else {
            None
        },
    }
}

/// Whether `(dx, dy)`, in millionths, lies at half the angle of `mean`, up to
/// rounding.
pub fn half_angle_fits(mean: MeanVector, dx: i32, dy: i32) -> (fits: bool)
    ensures
        fits == is_half_angle(mean, dx as int, dy as int),
{
    let x: i128 = dx as i128;
    let y: i128 = dy as i128;
    let c: i128 = mean.cos as i128;
    let s: i128 = mean.sin as i128;
    proof {
        lemma_product_within(x as int, x as int);
        lemma_product_within(y as int, y as int);
        lemma_product_within(x as int, y as int);
    }
    let a: i128 = x * x - y * y;
    let b: i128 = 2 * (x * y);
    proof {
        lemma_wide_product_within(a as int, c as int);
        lemma_wide_product_within(b as int, s as int);
        lemma_wide_product_within(a as int, s as int);
        lemma_wide_product_within(b as int, c as int);
    }
    let span: i128 = (if c < 0 {
        -c
    } else {
        c
    }) + (if s < 0 {
        -s
    } else {
        s
    });
    let dot: i128 = a * c + b * s;
    let cross: i128 = a * s - b * c;
    assert(0 <= HALF_ANGLE_TOLERANCE * span <= 2_000_000 * 0x1_0000_0000) by (nonlinear_arith)
        requires
            0 <= span <= 0x1_0000_0000,
            HALF_ANGLE_TOLERANCE == 2_000_000,
    ;
    let slack: i128 = (HALF_ANGLE_TOLERANCE as i128) * span;
    dx >= 0 && (s < 0 || dy >= 0) && (s >= 0 || dy <= 0) && (span != 0 || (dx == UNIT && dy == 0))
        && dot >= 0 && -slack <= cross && cross <= slack
}

/// Whether the angle of `d` lies in the octant of its direction.
pub fn octant_fits(d: Direction) -> (fits: bool)
    ensures
        fits == is_in_octant(d.dx as int, d.dy as int, d.cartesian as int),
{
    let quarter: i64 = QUARTER_TURN as i64;
    let eighth: i64 = EIGHTH_TURN as i64;
    let dx: i64 = d.dx as i64;
    let dy: i64 = d.dy as i64;
    let c: i64 = d.cartesian as i64;
    let steep: i64 = if dy < 0 {
        -dy
    } else {
        dy
    };
    -quarter <= c && c <= quarter && (dy <= 0 || c <= 0) && (dy >= 0 || c >= 0) && (dx < steep + 2
        || (-eighth <= c && c <= eighth)) && (steep < dx + 2 || c <= -eighth || c >= eighth)
}

/// The product of two 32-bit values lies within 62 bits.
proof fn lemma_product_within(x: int, y: int)
    requires
        -0x8000_0000 <= x <= 0x8000_0000,
        -0x8000_0000 <= y <= 0x8000_0000,
    ensures
        -0x4000_0000_0000_0000 <= x * y <= 0x4000_0000_0000_0000,
{
    assert(-0x4000_0000_0000_0000 <= x * y <= 0x4000_0000_0000_0000) by (nonlinear_arith)
        requires
            -0x8000_0000 <= x <= 0x8000_0000,
            -0x8000_0000 <= y <= 0x8000_0000,
    ;
}

/// The product of a 64-bit value and a 32-bit value lies within 96 bits.
proof fn lemma_wide_product_within(x: int, y: int)
    requires
        -0x1_0000_0000_0000_0000 <= x <= 0x1_0000_0000_0000_0000,
        -0x8000_0000 <= y <= 0x8000_0000,
    ensures
        -0x8000_0000_0000_0000_0000_0000 <= x * y <= 0x8000_0000_0000_0000_0000_0000,
{
    assert(-0x8000_0000_0000_0000_0000_0000 <= x * y <= 0x8000_0000_0000_0000_0000_0000)
        by (nonlinear_arith)
        requires
            -0x1_0000_0000_0000_0000 <= x <= 0x1_0000_0000_0000_0000,
            -0x8000_0000 <= y <= 0x8000_0000,
    ;
}

/// The axis to work with for a circular mean and the direction derived from
/// it by trigonometry. Without a mean the image is flat, and the direction
/// is not looked at.
///
/// A direction that is no unit direction, does not lie at half the angle of
/// the mean, or has an angle outside its octant, is rejected with
/// `PrimitiveFailure(Stage::Direction)`.
pub fn resolve_axis(mean: Option<MeanVector>, direction: Direction) -> (r: Result<
    DominantAxis,
    GradientError,
>)
    ensures
        spec_resolve_axis(mean, direction) is None ==> r is Err && r->Err_0
            == GradientError::PrimitiveFailure(Stage::Direction),
        spec_resolve_axis(mean, direction) is Some ==> r is Ok && r->Ok_0 == spec_resolve_axis(
            mean,
            direction,
        )->Some_0 && r->Ok_0.wf(),
        mean is None ==> r is Ok && r->Ok_0.is_flat(),
        mean is Some && r is Ok ==> r->Ok_0.dx() == direction.dx && r->Ok_0.dy() == direction.dy
            && r->Ok_0.angle() == compass_angle(direction.cartesian as int) && r->Ok_0.angle()
            <= 2 * QUARTER_TURN,
{
    let m = match mean {
        None => {
            return Ok(DominantAxis::flat());
        },
        Some(m) => m,
    };
    match DominantAxis::from_direction(direction.dx, direction.dy, direction.cartesian) {
        Some(axis) => {
            if octant_fits(direction) && half_angle_fits(m, direction.dx, direction.dy) {
                Ok(axis)
            } else {
                Err(GradientError::PrimitiveFailure(Stage::Direction))
            }
        },
        None => Err(GradientError::PrimitiveFailure(Stage::Direction)),
    }
}

} // verus!
