use loopfuse::entity::Velocity;
use loopfuse::entity::pos_mean2;
use loopfuse::entity::pos_mean3;
use loopfuse::entity::vel_mean2;
use loopfuse::entity::vel_mean3;
use loopfuse::geometry::Point;

fn p(x: i32, y: i32) -> Point {
    Point { x, y }
}

fn v(x: i32, y: i32) -> Velocity {
    Velocity { x, y }
}

#[test]
fn velocity_means_are_exact() {
    assert_eq!(vel_mean2(v(100, 0), v(300, 200)), v(200, 100));
    assert_eq!(vel_mean3(v(30, 3), v(60, 6), v(90, 12)), v(60, 7));
}

#[test]
fn velocity_means_round_toward_negative_infinity() {
    // Euclidean division: an odd negative sum rounds down.
    assert_eq!(vel_mean2(v(-1, 1), v(-2, 2)), v(-2, 1));
    assert_eq!(vel_mean3(v(-1, 0), v(-1, 0), v(0, 0)), v(-1, 0));
}

#[test]
fn position_means_are_exact() {
    assert_eq!(pos_mean2(p(0, 0), p(10000, 5000)), p(5000, 2500));
    assert_eq!(pos_mean3(p(0, 0), p(3000, 0), p(6000, 3)), p(3000, 1));
}

#[test]
fn extreme_velocities_average_without_overflow() {
    assert_eq!(
        vel_mean2(v(i32::MAX, i32::MIN), v(i32::MAX, i32::MIN)),
        v(i32::MAX, i32::MIN)
    );
    assert_eq!(vel_mean2(v(i32::MAX, 0), v(i32::MIN, 0)), v(-1, 0));
}
