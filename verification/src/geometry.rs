//! Exact integer geometry: line-segment crossing, the first self-intersection
//! of a polyline, and point-in-polygon containment.
//!
//! Coordinates are fixed-point integers (`i32`), so every test is computed
//! exactly in `i128` intermediates and no degenerate float comparison can
//! occur.

use vstd::prelude::*;

verus! {

/// A 2D coordinate in fixed-point world units.
#[derive(Clone, Copy, PartialEq, Eq, Structural, Debug)]
pub struct Point {
    pub x: i32,
    pub y: i32,
}

/// Twice the signed area of the triangle `(o, a, b)`: positive when `b` lies
/// to the left of the directed line `o -> a`.
pub open spec fn orient2d(o: Point, a: Point, b: Point) -> int {
    (a.x - o.x) * (b.y - o.y) - (a.y - o.y) * (b.x - o.x)
}

/// Exact orientation test, computed in `i128`.
pub fn orient(o: Point, a: Point, b: Point) -> (r: i128)
    ensures
        r == orient2d(o, a, b),
        -0x20_0000_0000_0000_0000 <= r <= 0x20_0000_0000_0000_0000,
{
    let ox = o.x as i128;
    let oy = o.y as i128;
    let ax = a.x as i128;
    let ay = a.y as i128;
    let bx = b.x as i128;
    let by = b.y as i128;
    proof {
        lemma_mul_i33_bounds(ax - ox, by - oy);
        lemma_mul_i33_bounds(ay - oy, bx - ox);
    }
    (ax - ox) * (by - oy) - (ay - oy) * (bx - ox)
}

/// Whether the open segments `a-b` and `c-d` cross properly: they share a
/// point that is interior to both. Touching at an endpoint, or collinear
/// overlap, is not a crossing; a drawn trail that merely grazes itself does
/// not close.
pub open spec fn segments_cross(a: Point, b: Point, c: Point, d: Point) -> bool {
    let o1 = orient2d(c, d, a);
    let o2 = orient2d(c, d, b);
    let o3 = orient2d(a, b, c);
    let o4 = orient2d(a, b, d);
    ((o1 > 0 && o2 < 0) || (o1 < 0 && o2 > 0)) && ((o3 > 0 && o4 < 0) || (o3 < 0 && o4 > 0))
}

/// Exact proper-crossing test for the segments `a-b` and `c-d`.
pub fn segments_cross_at(a: Point, b: Point, c: Point, d: Point) -> (r: bool)
    ensures
        r == segments_cross(a, b, c, d),
{
    let o1 = orient(c, d, a);
    let o2 = orient(c, d, b);
    let o3 = orient(a, b, c);
    let o4 = orient(a, b, d);
    ((o1 > 0 && o2 < 0) || (o1 < 0 && o2 > 0)) && ((o3 > 0 && o4 < 0) || (o3 < 0 && o4 > 0))
}

/// Where the crossing segments `a-b` and `c-d` meet, as exact mathematical
/// coordinates rounded down to the integer grid. The crossing parameter along
/// `a-b` is the ratio `num / den` of two orientation values, so the point is
/// `a + (num / den) * (b - a)`, with each coordinate offset divided
/// (Euclidean) after the exact integer multiplication.
pub open spec fn crossing_point_spec(a: Point, b: Point, c: Point, d: Point) -> (int, int) {
    let o1 = orient2d(c, d, a);
    let o2 = orient2d(c, d, b);
    let num = if o1 >= 0 { o1 } else { -o1 };
    let den = if o1 >= 0 { o1 - o2 } else { o2 - o1 };
    (a.x + (num * (b.x - a.x)) / den, a.y + (num * (b.y - a.y)) / den)
}

/// The crossing point as a `Point`; meaningful only when the segments cross
/// properly, which keeps both rounded coordinates inside the segments'
/// bounding box and hence in range.
pub open spec fn crossing_point_of(a: Point, b: Point, c: Point, d: Point) -> Point {
    Point {
        x: crossing_point_spec(a, b, c, d).0 as i32,
        y: crossing_point_spec(a, b, c, d).1 as i32,
    }
}

/// Computes the crossing point of two properly crossing segments.
pub fn crossing_point(a: Point, b: Point, c: Point, d: Point) -> (p: Point)
    requires
        segments_cross(a, b, c, d),
    ensures
        p.x == crossing_point_spec(a, b, c, d).0,
        p.y == crossing_point_spec(a, b, c, d).1,
        p == crossing_point_of(a, b, c, d),
{
    let o1 = orient(c, d, a);
    let o2 = orient(c, d, b);
    let num: i128 = if o1 >= 0 { o1 } else { -o1 };
    let den: i128 = if o1 >= 0 { o1 - o2 } else { o2 - o1 };
    assert(0 < num < den);
    let dx = b.x as i128 - a.x as i128;
    let dy = b.y as i128 - a.y as i128;
    proof {
        lemma_mul_abs_bound(num as int, dx as int, 0x40_0000_0000_0000_0000, 0x1_0000_0000);
        lemma_mul_abs_bound(num as int, dy as int, 0x40_0000_0000_0000_0000, 0x1_0000_0000);
    }
    let offx = div_euclid_i128(num * dx, den);
    let offy = div_euclid_i128(num * dy, den);
    proof {
        lemma_scaled_offset_bounded(num as int, den as int, dx as int);
        lemma_scaled_offset_bounded(num as int, den as int, dy as int);
    }
    Point { x: (a.x as i128 + offx) as i32, y: (a.y as i128 + offy) as i32 }
}

/// Result of scanning a polyline's segment pairs for a proper crossing,
/// starting at the pair `(i, j)` and walking the fixed scan order: the second
/// segment index `j` ascends, and for each `j` the first index `i` ascends
/// through `0 .. j - 1`. Adjacent segments (`i == j - 1`) share an endpoint
/// and are never a crossing pair, so they are skipped.
///
/// The scan order is a documented tie-break: among several self-crossings the
/// one that closes at the earliest segment `j`, with the earliest partner
/// `i`, wins. Closing at the earliest `j` is what makes the retained loop
/// free of further crossings among its own recorded segments.
pub open spec fn scan_from(points: Seq<Point>, j: int, i: int) -> Option<(int, int)>
    decreases points.len() - j, j - i,
{
    if j < 1 || i < 0 || j > points.len() - 2 {
        None
    } else if i >= j - 1 {
        scan_from(points, j + 1, 0)
    } else if segments_cross(points[i], points[i + 1], points[j], points[j + 1]) {
        Some((i, j))
    } else {
        scan_from(points, j, i + 1)
    }
}

/// The first pairwise self-crossing of the polyline, by the fixed scan order.
pub open spec fn first_crossing(points: Seq<Point>) -> Option<(int, int)> {
    scan_from(points, 1, 0)
}

/// Whether `(p, q)` is a pair of non-adjacent segment indices of the
/// polyline, with `p` before `q`.
pub open spec fn valid_pair(points: Seq<Point>, p: int, q: int) -> bool {
    0 <= p && p + 1 < q && q + 1 < points.len()
}

/// Whether the pair `(p, q)` is visited at or after the scan state `(j, i)`.
pub open spec fn pair_at_or_after(p: int, q: int, j: int, i: int) -> bool {
    q > j || (q == j && p >= i)
}

/// What the scan's answer means: a `Some` names a properly crossing pair and
/// every pair the scan visited earlier does not cross; a `None` says no pair
/// from the given state onward crosses.
pub proof fn lemma_scan_from_characterizes(points: Seq<Point>, j: int, i: int)
    requires
        1 <= j,
        0 <= i < j,
    ensures
        match scan_from(points, j, i) {
            Some((a, b)) => {
                &&& valid_pair(points, a, b)
                &&& pair_at_or_after(a, b, j, i)
                &&& segments_cross(points[a], points[a + 1], points[b], points[b + 1])
                &&& forall|p: int, q: int|
                    valid_pair(points, p, q) && pair_at_or_after(p, q, j, i) && !pair_at_or_after(
                        p,
                        q,
                        b,
                        a,
                    ) ==> !segments_cross(points[p], points[p + 1], points[q], points[q + 1])
            },
            None => forall|p: int, q: int|
                valid_pair(points, p, q) && pair_at_or_after(p, q, j, i) ==> !segments_cross(
                    points[p],
                    points[p + 1],
                    points[q],
                    points[q + 1],
                ),
        },
    decreases points.len() - j, j - i,
{
    if j > points.len() - 2 {
    } else if i >= j - 1 {
        lemma_scan_from_characterizes(points, j + 1, 0);
    } else if segments_cross(points[i], points[i + 1], points[j], points[j + 1]) {
    } else {
        lemma_scan_from_characterizes(points, j, i + 1);
    }
}

/// Returns the first pairwise self-crossing of the polyline, excluding
/// crossings at shared endpoints of adjacent segments, together with the two
/// segment indices; `None` when the polyline never properly crosses itself.
pub fn intersect_segments(points: &Vec<Point>) -> (r: Option<(usize, usize)>)
    ensures
        match r {
            Some((i, j)) => first_crossing(points@) == Some((i as int, j as int)),
            None => first_crossing(points@) is None,
        },
{
    let n = points.len();
    if n < 4 {
        assert(first_crossing(points@) is None) by {
            reveal_with_fuel(scan_from, 3);
        }
        return None;
    }
    let mut j: usize = 1;
    while j + 1 < n
        invariant
            1 <= j <= n - 1,
            n == points@.len(),
            scan_from(points@, 1, 0) == scan_from(points@, j as int, 0),
        decreases n - j,
    {
        let mut i: usize = 0;
        while i + 1 < j
            invariant
                1 <= j,
                j + 1 < n,
                0 <= i < j,
                n == points@.len(),
                scan_from(points@, 1, 0) == scan_from(points@, j as int, i as int),
            decreases j - i,
        {
            if segments_cross_at(points[i], points[i + 1], points[j], points[j + 1]) {
                return Some((i, j));
            }
            i = i + 1;
        }
        assert(scan_from(points@, j as int, i as int) == scan_from(points@, j as int + 1, 0));
        j = j + 1;
    }
    assert(scan_from(points@, j as int, 0) is None);
    None
}

/// Whether the polygon edge `a -> b` crosses the horizontal ray that runs
/// from `p` toward `+x`, in the even-odd ray-casting sense. The edge counts
/// when it spans `p`'s height (bottom vertex inclusive, top exclusive) and
/// meets the ray strictly to the right of `p`; the comparison is done with
/// the exact cross product `orient2d(a, b, p)` instead of a division.
pub open spec fn edge_crosses_ray(a: Point, b: Point, p: Point) -> bool {
    ((a.y > p.y) != (b.y > p.y)) && (if b.y > a.y {
        orient2d(a, b, p) > 0
    } else {
        orient2d(a, b, p) < 0
    })
}

/// Parity of ray crossings among the polygon's first `k` edges, where edge
/// `k` runs from vertex `k` to vertex `k + 1` (wrapping to vertex `0`: the
/// ring is closed by an implicit edge from the last point back to the
/// first).
pub open spec fn crossings_upto(poly: Seq<Point>, p: Point, k: int) -> bool
    decreases k,
{
    if k <= 0 {
        false
    } else {
        crossings_upto(poly, p, k - 1) != edge_crosses_ray(
            poly[k - 1],
            poly[if k == poly.len() { 0int } else { k }],
            p,
        )
    }
}

/// Even-odd containment of `p` in the (possibly non-convex) polygon ring:
/// true when the ray from `p` crosses an odd number of edges. A point on the
/// boundary gets the fixed answer this parity rule yields; game logic never
/// distinguishes boundary from interior.
pub open spec fn point_in_polygon(poly: Seq<Point>, p: Point) -> bool {
    crossings_upto(poly, p, poly.len() as int)
}

/// Exact even-odd containment test of `p` against the polygon ring.
pub fn contains_point(poly: &Vec<Point>, p: Point) -> (r: bool)
    ensures
        r == point_in_polygon(poly@, p),
{
    let n = poly.len();
    let mut inside = false;
    let mut k: usize = 0;
    while k < n
        invariant
            k <= n,
            n == poly@.len(),
            inside == crossings_upto(poly@, p, k as int),
        decreases n - k,
    {
        let a = poly[k];
        let b = poly[if k + 1 == n {
            0
        } else {
            k + 1
        }];
        let side = orient(a, b, p);
        let crosses = ((a.y > p.y) != (b.y > p.y)) && (if b.y > a.y {
            side > 0
        } else {
            side < 0
        });
        inside = inside != crosses;
        k = k + 1;
    }
    inside
}

/// Sum of the x coordinates of a point sequence.
pub open spec fn sum_x(s: Seq<Point>) -> int
    decreases s.len(),
{
    if s.len() == 0 {
        0
    } else {
        sum_x(s.drop_last()) + s.last().x
    }
}

/// Sum of the y coordinates of a point sequence.
pub open spec fn sum_y(s: Seq<Point>) -> int
    decreases s.len(),
{
    if s.len() == 0 {
        0
    } else {
        sum_y(s.drop_last()) + s.last().y
    }
}

/// The mean position of a non-empty point sequence, each coordinate divided
/// (Euclidean) by the count.
pub open spec fn spec_centroid(s: Seq<Point>) -> (int, int) {
    (sum_x(s) / s.len() as int, sum_y(s) / s.len() as int)
}

/// Computes the mean position of a non-empty set of points.
pub fn centroid(points: &Vec<Point>) -> (c: Point)
    requires
        points@.len() > 0,
    ensures
        c.x == spec_centroid(points@).0,
        c.y == spec_centroid(points@).1,
{
    let n = points.len();
    let mut sx: i128 = 0;
    let mut sy: i128 = 0;
    let mut k: usize = 0;
    while k < n
        invariant
            k <= n,
            n == points@.len(),
            sx == sum_x(points@.take(k as int)),
            sy == sum_y(points@.take(k as int)),
            -(k as int) * 0x8000_0000 <= sx <= (k as int) * 0x7fff_ffff,
            -(k as int) * 0x8000_0000 <= sy <= (k as int) * 0x7fff_ffff,
        decreases n - k,
    {
        let p = points[k];
        proof {
            assert(points@.take(k as int + 1).drop_last() =~= points@.take(k as int));
            assert(points@.take(k as int + 1).last() == points@[k as int]);
        }
        sx = sx + p.x as i128;
        sy = sy + p.y as i128;
        k = k + 1;
    }
    proof {
        assert(points@.take(n as int) =~= points@);
    }
    let cx = div_euclid_i128(sx, n as i128);
    let cy = div_euclid_i128(sy, n as i128);
    proof {
        lemma_div_between(sx as int, n as int, -0x8000_0000, 0x7fff_ffff);
        lemma_div_between(sy as int, n as int, -0x8000_0000, 0x7fff_ffff);
    }
    Point { x: cx as i32, y: cy as i32 }
}

/// When `n * lo <= s <= n * hi` with positive `n`, the quotient `s / n` lies
/// between `lo` and `hi`.
pub(crate) proof fn lemma_div_between(s: int, n: int, lo: int, hi: int)
    requires
        n > 0,
        n * lo <= s <= n * hi,
    ensures
        lo <= s / n <= hi,
{
    vstd::arithmetic::div_mod::lemma_div_is_ordered(n * lo, s, n);
    vstd::arithmetic::div_mod::lemma_div_is_ordered(s, n * hi, n);
    assert((n * lo) / n == lo) by {
        vstd::arithmetic::div_mod::lemma_div_multiples_vanish(lo, n);
    }
    assert((n * hi) / n == hi) by {
        vstd::arithmetic::div_mod::lemma_div_multiples_vanish(hi, n);
    }
}

/// Euclidean division with a positive divisor.
pub(crate) fn div_euclid_i128(n: i128, d: i128) -> (r: i128)
    requires
        d > 0,
    ensures
        r == n as int / d as int,
{
    proof {
        lemma_div_euclid_in_range(n as int, d as int);
    }
    n.checked_div_euclid(d).unwrap()
}

/// Euclidean division by a positive divisor never leaves the interval
/// between the dividend and zero.
proof fn lemma_div_euclid_in_range(n: int, d: int)
    requires
        d > 0,
    ensures
        n >= 0 ==> 0 <= n / d <= n,
        n < 0 ==> n <= n / d <= 0,
{
    if n >= 0 {
        vstd::arithmetic::div_mod::lemma_div_pos_is_pos(n, d);
        vstd::arithmetic::div_mod::lemma_div_nonincreasing(n, d);
    } else {
        assert(d * n <= n) by (nonlinear_arith)
            requires
                n < 0,
                d > 0,
        ;
        vstd::arithmetic::div_mod::lemma_div_is_ordered(d * n, n, d);
        assert((d * n) / d == n) by {
            vstd::arithmetic::div_mod::lemma_div_multiples_vanish(n, d);
        }
        vstd::arithmetic::div_mod::lemma_div_is_ordered(n, 0, d);
        assert(0int / d == 0) by {
            vstd::arithmetic::div_mod::lemma_div_of0(d);
        }
    }
}

/// With `0 < num < den`, the scaled offset `(num * delta) / den` stays
/// between `0` and `delta`.
proof fn lemma_scaled_offset_bounded(num: int, den: int, delta: int)
    requires
        0 < num < den,
    ensures
        delta >= 0 ==> 0 <= (num * delta) / den <= delta,
        delta < 0 ==> delta <= (num * delta) / den <= 0,
{
    if delta >= 0 {
        assert(0 <= num * delta <= den * delta) by (nonlinear_arith)
            requires
                0 < num < den,
                delta >= 0,
        ;
        vstd::arithmetic::div_mod::lemma_div_pos_is_pos(num * delta, den);
        vstd::arithmetic::div_mod::lemma_div_is_ordered(num * delta, den * delta, den);
        assert((den * delta) / den == delta) by {
            vstd::arithmetic::div_mod::lemma_div_multiples_vanish(delta, den);
        }
    } else {
        assert(den * delta <= num * delta <= 0) by (nonlinear_arith)
            requires
                0 < num < den,
                delta < 0,
        ;
        vstd::arithmetic::div_mod::lemma_div_is_ordered(den * delta, num * delta, den);
        vstd::arithmetic::div_mod::lemma_div_is_ordered(num * delta, 0, den);
        assert((den * delta) / den == delta) by {
            vstd::arithmetic::div_mod::lemma_div_multiples_vanish(delta, den);
        }
        assert(0int / den == 0) by {
            vstd::arithmetic::div_mod::lemma_div_of0(den);
        }
    }
}

/// The product of values bounded in magnitude by `ba` and `bb` is bounded in
/// magnitude by `ba * bb`.
proof fn lemma_mul_abs_bound(a: int, b: int, ba: int, bb: int)
    requires
        -ba <= a <= ba,
        -bb <= b <= bb,
    ensures
        -(ba * bb) <= a * b <= ba * bb,
{
    assert(-(ba * bb) <= a * b <= ba * bb) by (nonlinear_arith)
        requires
            -ba <= a <= ba,
            -bb <= b <= bb,
    ;
}

/// The product of two values below `2^34` in magnitude stays far inside
/// `i128`.
proof fn lemma_mul_i33_bounds(a: int, b: int)
    requires
        -0x4_0000_0000 <= a <= 0x4_0000_0000,
        -0x4_0000_0000 <= b <= 0x4_0000_0000,
    ensures
        -0x10_0000_0000_0000_0000 <= a * b <= 0x10_0000_0000_0000_0000,
{
    lemma_mul_abs_bound(a, b, 0x4_0000_0000, 0x4_0000_0000);
}

} // verus!
