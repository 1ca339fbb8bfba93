use vstd::prelude::*;

verus! {

/// The length of a unit vector: its components are given in millionths.
pub const UNIT: i32 = 1_000_000;

/// A full turn, in millionths of a degree.
pub const FULL_TURN: u32 = 360_000_000;

/// A quarter turn, in millionths of a degree.
pub const QUARTER_TURN: u32 = 90_000_000;

/// An eighth of a turn, in millionths of a degree.
pub const EIGHTH_TURN: u32 = 45_000_000;

/// How far `dx^2 + dy^2` may lie from `UNIT^2`: what a rounding error of
/// up to one millionth in each component can make.
pub const UNIT_TOLERANCE: i64 = 3_000_000;

/// The orientation that sums up the strong gradients of an image: a unit
/// direction in image coordinates (x to the right, y downwards), in
/// millionths, and the compass angle shown for it (0 pointing up, growing
/// clockwise), in millionths of a degree.
#[derive(Debug, Clone, Copy)]
pub struct DominantAxis {
    dx: i32,
    dy: i32,
    angle: u32,
}

/// Whether `(dx, dy)`, in millionths, has length one up to rounding, each
/// component within `[-1, 1]`.
pub open spec fn is_unit_direction(dx: int, dy: int) -> bool {
    &&& -UNIT <= dx <= UNIT
    &&& -UNIT <= dy <= UNIT
    &&& -UNIT_TOLERANCE <= dx * dx + dy * dy - UNIT * UNIT <= UNIT_TOLERANCE
}

/// The compass angle for a mathematical angle, both in millionths of a
/// degree: a quarter turn less the angle, brought into one full turn.
pub open spec fn compass_angle(cartesian: int) -> int {
    (QUARTER_TURN - cartesian) % (FULL_TURN as int)
}

/// A compass angle lies within one full turn, and angles a full turn apart
/// have the same compass angle.
pub proof fn lemma_compass_angle_range(cartesian: int)
    ensures
        0 <= compass_angle(cartesian) < FULL_TURN,
        compass_angle(cartesian + FULL_TURN) == compass_angle(cartesian),
{
}

/// The compass angle for a mathematical angle, both in millionths of a degree.
pub fn compass_from_cartesian(cartesian: i32) -> (angle: u32)
    ensures
        angle == compass_angle(cartesian as int),
        angle < FULL_TURN,
{
    // Seven full turns lift every 32-bit angle above zero before the remainder.
    let lifted: i64 = 7 * (FULL_TURN as i64) + (QUARTER_TURN as i64) - (cartesian as i64);
    let r: i64 = lifted % (FULL_TURN as i64);
    r as u32
}

impl DominantAxis {
    /// Horizontal component of the direction, in millionths.
    pub closed spec fn spec_dx(&self) -> i32 {
        self.dx
    }

    /// Vertical component of the direction, in millionths.
    pub closed spec fn spec_dy(&self) -> i32 {
        self.dy
    }

    /// Compass angle, in millionths of a degree.
    pub closed spec fn spec_angle(&self) -> u32 {
        self.angle
    }

    /// The direction has unit length and the angle lies within a full turn.
    #[verifier::type_invariant]
    pub open spec fn wf(&self) -> bool {
        &&& is_unit_direction(self.dx() as int, self.dy() as int)
        &&& self.angle() < FULL_TURN
    }

    /// Whether this is the axis of an image without a dominant direction.
    pub open spec fn is_flat(&self) -> bool {
        &&& self.dx() == UNIT
        &&& self.dy() == 0
        &&& self.angle() == QUARTER_TURN
    }

    /// The axis of an image without a dominant direction.
    pub closed spec fn spec_flat() -> DominantAxis {
        DominantAxis { dx: UNIT, dy: 0, angle: QUARTER_TURN }
    }

    /// The axis of an image without a dominant direction: the dominant angle
    /// is zero, so the direction runs along x, to the right, which the compass
    /// shows as a quarter turn.
    #[verifier::when_used_as_spec(spec_flat)]
    pub fn flat() -> (axis: DominantAxis)
        ensures
            axis == DominantAxis::spec_flat(),
            axis.wf(),
            axis.is_flat(),
            axis.angle() == compass_angle(0),
    {
        assert(is_unit_direction(UNIT as int, 0)) by (nonlinear_arith);
        DominantAxis { dx: UNIT, dy: 0, angle: QUARTER_TURN }
    }

    /// The flat axis is a unit direction along x, shown as a quarter turn.
    pub proof fn lemma_flat_axis()
        ensures
            DominantAxis::flat().wf(),
            DominantAxis::flat().is_flat(),
            DominantAxis::flat().angle() == compass_angle(0),
    {
        assert(is_unit_direction(UNIT as int, 0)) by (nonlinear_arith);
    }

    /// The axis with direction `(dx, dy)` and the compass angle for the
    /// mathematical angle `cartesian`.
    pub closed spec fn spec_from_direction(dx: i32, dy: i32, cartesian: i32) -> DominantAxis {
        DominantAxis { dx, dy, angle: compass_angle(cartesian as int) as u32 }
    }

    /// The axis with direction `(dx, dy)`, in millionths, whose mathematical
    /// angle (counter-clockwise from +x, y pointing up) is `cartesian`
    /// millionths of a degree.
    ///
    /// `None` where `(dx, dy)` is no unit direction.
    pub fn from_direction(dx: i32, dy: i32, cartesian: i32) -> (r: Option<DominantAxis>)
        ensures
            r is Some <==> is_unit_direction(dx as int, dy as int),
            r is Some ==> r->Some_0 == DominantAxis::spec_from_direction(dx, dy, cartesian),
            r is Some ==> r->Some_0.wf() && r->Some_0.dx() == dx && r->Some_0.dy() == dy
                && r->Some_0.angle() == compass_angle(cartesian as int),
    {
        if dx < -UNIT || dx > UNIT || dy < -UNIT || dy > UNIT {
            return None;
        }
        let x: i64 = dx as i64;
        let y: i64 = dy as i64;
        assert(0 <= x * x <= 1_000_000_000_000) by (nonlinear_arith)
            requires
                -1_000_000 <= x <= 1_000_000,
        ;
        assert(0 <= y * y <= 1_000_000_000_000) by (nonlinear_arith)
            requires
                -1_000_000 <= y <= 1_000_000,
        ;
        let excess: i64 = x * x + y * y - 1_000_000_000_000;
        if excess < -UNIT_TOLERANCE || excess > UNIT_TOLERANCE {
            return None;
        }
        Some(DominantAxis { dx, dy, angle: compass_from_cartesian(cartesian) })
    }

    /// Horizontal component of the direction, in millionths.
    #[verifier::when_used_as_spec(spec_dx)]
    pub fn dx(&self) -> (v: i32)
        ensures
            v == self.spec_dx(),
    {
        self.dx
    }

    /// Vertical component of the direction, in millionths.
    #[verifier::when_used_as_spec(spec_dy)]
    pub fn dy(&self) -> (v: i32)
        ensures
            v == self.spec_dy(),
    {
        self.dy
    }

    /// Compass angle, in millionths of a degree.
    #[verifier::when_used_as_spec(spec_angle)]
    pub fn angle(&self) -> (v: u32)
        ensures
            v == self.spec_angle(),
    {
        self.angle
    }
}

} // verus!
