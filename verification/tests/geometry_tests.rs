use loopfuse::geometry::Point;
use loopfuse::geometry::centroid;
use loopfuse::geometry::contains_point;
use loopfuse::geometry::crossing_point;
use loopfuse::geometry::intersect_segments;

fn p(x: i32, y: i32) -> Point {
    Point { x, y }
}

#[test]
fn intersect_finds_first_crossing_of_alpha_trail() {
    // An "alpha" shaped trail: the last segment crosses the first one.
    let pts: Vec<Point> = vec![p(0, 0), p(10000, 0), p(10000, 10000), p(5000, -5000)];
    assert_eq!(intersect_segments(&pts), Some((0, 2)));
    let cp = crossing_point(pts[0], pts[1], pts[2], pts[3]);
    assert_eq!(cp, p(6666, 0));
}

#[test]
fn intersect_none_on_open_square() {
    let pts: Vec<Point> = vec![p(0, 0), p(20000, 0), p(20000, 20000), p(0, 20000)];
    assert_eq!(intersect_segments(&pts), None);
}

#[test]
fn intersect_none_on_short_trails() {
    let pts: Vec<Point> = vec![p(0, 0), p(10000, 0), p(5000, 5000)];
    assert_eq!(intersect_segments(&pts), None);
    let two: Vec<Point> = vec![p(0, 0), p(10000, 0)];
    assert_eq!(intersect_segments(&two), None);
}

#[test]
fn intersect_ignores_endpoint_touch() {
    // The last segment ends exactly on the first segment: endpoint touching
    // is not a proper crossing.
    let pts: Vec<Point> = vec![p(0, 0), p(10000, 0), p(10000, 10000), p(5000, 0)];
    assert_eq!(intersect_segments(&pts), None);
}

#[test]
fn contains_point_square() {
    let square: Vec<Point> = vec![p(0, 0), p(20000, 0), p(20000, 20000), p(0, 20000)];
    assert!(contains_point(&square, p(5000, 5000)));
    assert!(contains_point(&square, p(19999, 19999)));
    assert!(!contains_point(&square, p(25000, 5000)));
    assert!(!contains_point(&square, p(-1, 5000)));
}

#[test]
fn contains_point_concave_polygon() {
    // A U-shaped (concave) ring: the notch is outside.
    let u: Vec<Point> = vec![
        p(0, 0),
        p(30000, 0),
        p(30000, 20000),
        p(20000, 20000),
        p(20000, 5000),
        p(10000, 5000),
        p(10000, 20000),
        p(0, 20000),
    ];
    assert!(contains_point(&u, p(5000, 10000)));
    assert!(contains_point(&u, p(25000, 10000)));
    assert!(!contains_point(&u, p(15000, 10000)));
}

#[test]
fn centroid_exact_mean() {
    let pts: Vec<Point> = vec![p(0, 0), p(10000, 0), p(5000, 6000)];
    assert_eq!(centroid(&pts), p(5000, 2000));
}

#[test]
fn centroid_rounds_toward_negative_infinity() {
    // Euclidean division: 5 / 2 rounds down to 2, -5 / 2 rounds down to -3.
    let a: Vec<Point> = vec![p(0, 0), p(5, 0)];
    assert_eq!(centroid(&a), p(2, 0));
    let b: Vec<Point> = vec![p(-5, 0), p(0, 0)];
    assert_eq!(centroid(&b), p(-3, 0));
}
