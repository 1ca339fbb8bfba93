use gradient_hex::direction::{half_angle_fits, octant_fits};
use gradient_hex::{resolve_axis, Direction, GradientError, MeanVector, Stage, QUARTER_TURN, UNIT};

fn toward(cos: i32, sin: i32) -> MeanVector {
    MeanVector { cos, sin }
}

#[test]
fn half_angle_of_the_four_main_means() {
    // mean along +x: angle 0
    assert!(half_angle_fits(toward(1_000_000, 0), 1_000_000, 0));
    // mean along -x: angle 180, half of it 90
    assert!(half_angle_fits(toward(-1_000_000, 0), 0, 1_000_000));
    // mean along +y: angle 90, half of it 45
    assert!(half_angle_fits(toward(0, 1_000_000), 707_107, 707_107));
    // mean along -y: angle -90, half of it -45
    assert!(half_angle_fits(toward(0, -1_000_000), 707_107, -707_107));
}

#[test]
fn half_angle_does_not_depend_on_the_length_of_the_mean() {
    assert!(half_angle_fits(toward(3, 0), 1_000_000, 0));
    assert!(half_angle_fits(toward(0, 1), 707_107, 707_107));
    assert!(half_angle_fits(toward(-2, -2), 382_683, -923_880));
    assert!(half_angle_fits(toward(-500_000, -500_000), 382_683, -923_880));
    // the angle of (3, 4) is 53.13 degrees, half of it 26.57
    assert!(half_angle_fits(toward(300_000, 400_000), 894_427, 447_214));
    assert!(half_angle_fits(toward(3, 4), 894_427, 447_214));
}

#[test]
fn half_angle_of_no_mean_is_zero() {
    assert!(half_angle_fits(toward(0, 0), 1_000_000, 0));
    assert!(!half_angle_fits(toward(0, 0), 0, 1_000_000));
    assert!(!half_angle_fits(toward(0, 0), 707_107, 707_107));
    assert!(!half_angle_fits(toward(0, 0), 1_000_000, 1));
}

#[test]
fn half_angle_rejects_the_opposite_direction() {
    assert!(!half_angle_fits(toward(1_000_000, 0), -1_000_000, 0));
    assert!(!half_angle_fits(toward(-1_000_000, 0), 0, -1_000_000));
    assert!(!half_angle_fits(toward(0, 1_000_000), -707_107, -707_107));
    assert!(!half_angle_fits(toward(0, -1_000_000), -707_107, 707_107));
}

#[test]
fn half_angle_rejects_the_full_angle_and_the_crossing_direction() {
    // the direction of the mean itself, not of half its angle
    assert!(!half_angle_fits(toward(0, 1_000_000), 0, 1_000_000));
    assert!(!half_angle_fits(toward(-1_000_000, 0), 1_000_000, 0));
    // a quarter turn off: the doubled direction points the other way
    assert!(!half_angle_fits(toward(1_000_000, 0), 0, 1_000_000));
    assert!(!half_angle_fits(toward(0, 1_000_000), 707_107, -707_107));
}

#[test]
fn half_angle_allows_a_millionth_of_rounding() {
    // cross product 2 * 10^12, as much as the slack
    assert!(half_angle_fits(toward(1_000_000, 0), 1_000_000, 1));
    // cross product 4 * 10^12
    assert!(!half_angle_fits(toward(1_000_000, 0), 1_000_000, 2));
    // cross products 1.41 * 10^12 and 2.83 * 10^12
    assert!(half_angle_fits(toward(0, 1_000_000), 707_107, 707_108));
    assert!(!half_angle_fits(toward(0, 1_000_000), 707_106, 707_108));
    // downwards is for a mean with a positive sine only
    assert!(!half_angle_fits(toward(1_000_000, 0), 1_000_000, -1));
    assert!(half_angle_fits(toward(1_000_000, -1), 1_000_000, -1));
    assert!(half_angle_fits(toward(1_000_000, -1), 1_000_000, 0));
    assert!(!half_angle_fits(toward(1_000_000, -1), 1_000_000, 1));
}

#[test]
fn half_angle_of_the_widest_values_does_not_overflow() {
    assert!(!half_angle_fits(toward(i32::MAX, i32::MIN), i32::MAX, i32::MIN));
    assert!(!half_angle_fits(toward(i32::MIN, i32::MIN), i32::MIN, i32::MIN));
    assert!(half_angle_fits(toward(i32::MAX, 0), i32::MAX, 0));
}

#[test]
fn no_mean_resolves_to_the_flat_axis() {
    let anything = Direction { dx: 0, dy: 0, cartesian: 123 };
    let axis = resolve_axis(None, anything).unwrap();
    assert_eq!((axis.dx(), axis.dy(), axis.angle()), (1_000_000, 0, 90_000_000));
    let other = Direction { dx: 0, dy: 1_000_000, cartesian: -90_000_000 };
    let again = resolve_axis(None, other).unwrap();
    assert_eq!((again.dx(), again.dy(), again.angle()), (UNIT, 0, QUARTER_TURN));
}

#[test]
fn a_mean_resolves_to_the_direction_at_half_its_angle() {
    let down = Direction { dx: 0, dy: 1_000_000, cartesian: -90_000_000 };
    let axis = resolve_axis(Some(toward(-1_000_000, 0)), down).unwrap();
    assert_eq!((axis.dx(), axis.dy(), axis.angle()), (0, 1_000_000, 180_000_000));
    let falling = Direction { dx: 707_107, dy: 707_107, cartesian: -45_000_000 };
    let diagonal = resolve_axis(Some(toward(0, 250_000)), falling).unwrap();
    assert_eq!((diagonal.dx(), diagonal.dy(), diagonal.angle()), (707_107, 707_107, 135_000_000));
}

#[test]
fn a_direction_off_the_half_angle_is_a_primitive_failure() {
    let failure = GradientError::PrimitiveFailure(Stage::Direction);
    let down = Direction { dx: 0, dy: 1_000_000, cartesian: -90_000_000 };
    assert_eq!(resolve_axis(Some(toward(1_000_000, 0)), down).unwrap_err(), failure);
    let left = Direction { dx: -1_000_000, dy: 0, cartesian: 180_000_000 };
    assert_eq!(resolve_axis(Some(toward(1_000_000, 0)), left).unwrap_err(), failure);
}

#[test]
fn an_angle_outside_the_octant_is_a_primitive_failure() {
    let failure = GradientError::PrimitiveFailure(Stage::Direction);
    let mean = Some(toward(-1_000_000, 0));
    // downwards in the image is below the x axis
    let mirrored = Direction { dx: 0, dy: 1_000_000, cartesian: 90_000_000 };
    assert_eq!(resolve_axis(mean, mirrored).unwrap_err(), failure);
    let beyond = Direction { dx: 0, dy: 1_000_000, cartesian: -90_000_001 };
    assert_eq!(resolve_axis(mean, beyond).unwrap_err(), failure);
    let turned = Direction { dx: 0, dy: 1_000_000, cartesian: 270_000_000 };
    assert_eq!(resolve_axis(mean, turned).unwrap_err(), failure);
    let fitting = Direction { dx: 0, dy: 1_000_000, cartesian: -90_000_000 };
    assert!(resolve_axis(mean, fitting).is_ok());
    // upwards is above it
    let up = Some(toward(0, -1_000_000));
    let below = Direction { dx: 707_107, dy: -707_107, cartesian: -45_000_000 };
    assert_eq!(resolve_axis(up, below).unwrap_err(), failure);
    let above = Direction { dx: 707_107, dy: -707_107, cartesian: 45_000_000 };
    assert_eq!(resolve_axis(up, above).unwrap().angle(), 45_000_000);
    // a flat direction has an angle within an eighth of a turn of zero
    let along = Some(toward(1_000_000, 0));
    for cartesian in [-45_000_000, -1, 0, 1, 45_000_000] {
        assert!(resolve_axis(along, Direction { dx: 1_000_000, dy: 0, cartesian }).is_ok());
    }
    for cartesian in [-90_000_000, -45_000_001, 45_000_001, 90_000_000] {
        assert!(resolve_axis(along, Direction { dx: 1_000_000, dy: 0, cartesian }).is_err());
    }
    // a steep one has an angle beyond
    let steep = Direction { dx: 0, dy: 1_000_000, cartesian: -44_999_999 };
    assert_eq!(resolve_axis(mean, steep).unwrap_err(), failure);
}

#[test]
fn the_diagonal_may_round_to_either_octant() {
    assert!(octant_fits(Direction { dx: 707_107, dy: 707_107, cartesian: -45_000_000 }));
    assert!(octant_fits(Direction { dx: 707_107, dy: 707_107, cartesian: -44_999_960 }));
    assert!(octant_fits(Direction { dx: 707_107, dy: 707_107, cartesian: -45_000_040 }));
    assert!(octant_fits(Direction { dx: 707_107, dy: 707_108, cartesian: -44_999_960 }));
    assert!(octant_fits(Direction { dx: 707_108, dy: 707_107, cartesian: -45_000_040 }));
    assert!(!octant_fits(Direction { dx: 707_108, dy: 707_107, cartesian: 45_000_040 }));
    // two millionths apart, the octant is decided
    assert!(!octant_fits(Direction { dx: 707_108, dy: 707_106, cartesian: -45_000_040 }));
    assert!(octant_fits(Direction { dx: 707_108, dy: 707_106, cartesian: -44_999_960 }));
    assert!(!octant_fits(Direction { dx: 707_109, dy: 707_105, cartesian: -45_000_001 }));
    assert!(octant_fits(Direction { dx: 707_109, dy: 707_105, cartesian: -45_000_000 }));
    assert!(!octant_fits(Direction { dx: 707_105, dy: -707_109, cartesian: 44_999_999 }));
    assert!(octant_fits(Direction { dx: 707_105, dy: -707_109, cartesian: 45_000_000 }));
}

#[test]
fn octant_of_the_widest_values_does_not_overflow() {
    assert!(!octant_fits(Direction { dx: i32::MIN, dy: i32::MIN, cartesian: i32::MIN }));
    assert!(!octant_fits(Direction { dx: i32::MAX, dy: i32::MIN, cartesian: i32::MAX }));
    assert!(octant_fits(Direction { dx: i32::MAX, dy: i32::MIN, cartesian: 90_000_000 }));
}

#[test]
fn a_direction_of_another_length_is_a_primitive_failure() {
    let failure = GradientError::PrimitiveFailure(Stage::Direction);
    let none = Direction { dx: 0, dy: 0, cartesian: 0 };
    assert_eq!(resolve_axis(Some(toward(1_000_000, 0)), none).unwrap_err(), failure);
    let short = Direction { dx: 500_000, dy: 0, cartesian: 0 };
    assert_eq!(resolve_axis(Some(toward(1_000_000, 0)), short).unwrap_err(), failure);
    let long = Direction { dx: 2_000_000, dy: 0, cartesian: 0 };
    assert_eq!(resolve_axis(Some(toward(1_000_000, 0)), long).unwrap_err(), failure);
}
