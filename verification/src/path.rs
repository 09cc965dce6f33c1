//! Trail recording and loop closure.
//!
//! A `Path` accumulates the points a drawing pen passes through. Each tick
//! the open path is scanned for its first self-crossing; when one is found
//! the path is replaced by the closed loop it encloses, and the two tails
//! outside the loop may be kept as a remainder to resume drawing from later.

use vstd::prelude::*;

use crate::geometry::Point;
use crate::geometry::crossing_point;
use crate::geometry::crossing_point_of;
use crate::geometry::first_crossing;
use crate::geometry::intersect_segments;
use crate::geometry::lemma_scan_from_characterizes;
use crate::geometry::segments_cross;
use crate::geometry::valid_pair;

verus! {

/// What a closure scan did to a path.
#[derive(Clone, Copy, PartialEq, Eq, Structural, Debug)]
pub enum CloseOutcome {
    /// No self-crossing: the path is unchanged and still open.
    Open,
    /// Closed into a loop; the trail outside the loop was a negligible stub
    /// and was dropped.
    ClosedNoRemainder,
    /// Closed into a loop, and the larger trail outside the loop was kept
    /// for possible later resumption.
    ClosedWithRemainder,
}

/// An ordered trail of points drawn by one pen, possibly closed into a loop,
/// with an optional saved remainder trail.
#[derive(Clone, PartialEq, Eq, Debug)]
pub struct Path {
    /// The pen (controlling agent) that drew this path.
    pub pen: u64,
    /// The recorded points, tail-appended while open; replaced wholesale by
    /// the loop on closure or by the remainder on a swap.
    pub points: Vec<Point>,
    /// A saved alternate trail to restore if the loop's containment later
    /// becomes empty.
    pub remainder: Option<Vec<Point>>,
    /// Whether the point sequence has been closed into a loop.
    pub closed: bool,
}

/// The loop a crossing at segments `(i, j)` closes: the points from vertex
/// `i` up to vertex `j - 1`, with the crossing point appended as the closing
/// vertex.
pub open spec fn closed_loop_of(points: Seq<Point>, i: int, j: int) -> Seq<Point> {
    points.subrange(i, j).push(
        crossing_point_of(points[i], points[i + 1], points[j], points[j + 1]),
    )
}

/// The trail outside the loop: the head before segment `i` stitched to the
/// tail from vertex `j` on.
pub open spec fn remainder_of(points: Seq<Point>, i: int, j: int) -> Seq<Point> {
    points.subrange(0, i) + points.subrange(j, points.len() as int)
}

impl Path {
    /// Structural well-formedness: a path always holds at least its starting
    /// point, and a saved remainder is never empty.
    pub open spec fn wf(&self) -> bool {
        &&& self.points@.len() >= 1
        &&& (self.remainder matches Some(r) ==> r@.len() >= 1)
    }

    /// Starts a path for `pen`, seeded with the pen's current position.
    pub fn new(pen: u64, start: Point) -> (p: Path)
        ensures
            p.wf(),
            p.pen == pen,
            p.points@ =~= seq![start],
            p.remainder is None,
            !p.closed,
    {
        let mut points: Vec<Point> = Vec::new();
        points.push(start);
        Path { pen, points, remainder: None, closed: false }
    }

    /// Records the pen's current position. A point is appended only when the
    /// path is still open and the position differs from the last recorded
    /// point, so a stationary pen never creates a zero-length segment.
    /// Returns the previous tail point when a point was appended: the new
    /// trail segment to register as a physical obstacle.
    pub fn record_point(&mut self, pos: Point) -> (seg: Option<Point>)
        requires
            old(self).wf(),
        ensures
            final(self).wf(),
            final(self).pen == old(self).pen,
            final(self).remainder == old(self).remainder,
            final(self).closed == old(self).closed,
            old(self).closed ==> *final(self) == *old(self) && seg is None,
            !old(self).closed && pos == old(self).points@.last() ==> *final(self) == *old(self)
                && seg is None,
            !old(self).closed && pos != old(self).points@.last() ==> final(self).points@
                == old(self).points@.push(pos) && seg == Some(old(self).points@.last()),
    {
        if self.closed {
            return None;
        }
        let last = self.points[self.points.len() - 1];
        if pos == last {
            None
        } else {
            self.points.push(pos);
            Some(last)
        }
    }

    /// Swaps the saved remainder back in as the live point sequence, if one
    /// exists. Returns whether a swap happened; the closed marker is left
    /// for the caller to clear, as the loop's evaluator decides whether the
    /// path resumes.
    pub fn swap_remainder(&mut self) -> (r: bool)
        requires
            old(self).wf(),
        ensures
            final(self).wf(),
            match old(self).remainder {
                None => !r && *final(self) == *old(self),
                Some(rem) => {
                    &&& r
                    &&& final(self).points == rem
                    &&& final(self).remainder is None
                    &&& final(self).pen == old(self).pen
                    &&& final(self).closed == old(self).closed
                },
            },
    {
        match self.remainder.take() {
            None => false,
            Some(rem) => {
                self.points = rem;
                true
            },
        }
    }

    /// Scans the open trail for its first self-crossing. When one is found
    /// between segments `i` and `j`, the path's points are replaced by the
    /// closed loop (vertices `i .. j` plus the crossing point) and marked
    /// closed; the stitched trail outside the loop is kept as the remainder
    /// only when it is strictly longer than the loop, favoring a real
    /// continuation over a negligible stub.
    pub fn try_close(&mut self) -> (r: CloseOutcome)
        requires
            old(self).wf(),
            !old(self).closed,
        ensures
            final(self).wf(),
            final(self).pen == old(self).pen,
            match first_crossing(old(self).points@) {
                None => *final(self) == *old(self) && r == CloseOutcome::Open,
                Some((i, j)) => {
                    &&& final(self).closed
                    &&& final(self).points@ == closed_loop_of(old(self).points@, i, j)
                    &&& if remainder_of(old(self).points@, i, j).len() > closed_loop_of(
                        old(self).points@,
                        i,
                        j,
                    ).len() {
                        &&& final(self).remainder matches Some(rem) && rem@ == remainder_of(
                            old(self).points@,
                            i,
                            j,
                        )
                        &&& r == CloseOutcome::ClosedWithRemainder
                    } else {
                        &&& final(self).remainder == old(self).remainder
                        &&& r == CloseOutcome::ClosedNoRemainder
                    }
                },
            },
    {
        let ghost before = self.points@;
        match intersect_segments(&self.points) {
            None => CloseOutcome::Open,
            Some((i, j)) => {
                proof {
                    lemma_scan_from_characterizes(before, 1, 0);
                }
                let n = self.points.len();
                let pt = crossing_point(
                    self.points[i],
                    self.points[i + 1],
                    self.points[j],
                    self.points[j + 1],
                );
                let mut loop_points: Vec<Point> = Vec::new();
                let mut k: usize = i;
                while k < j
                    invariant
                        i <= k <= j < n,
                        n == before.len(),
                        self.points@ == before,
                        loop_points@ =~= before.subrange(i as int, k as int),
                    decreases j - k,
                {
                    loop_points.push(self.points[k]);
                    k = k + 1;
                }
                loop_points.push(pt);
                let mut rem: Vec<Point> = Vec::new();
                k = 0;
                while k < i
                    invariant
                        k <= i < n,
                        n == before.len(),
                        self.points@ == before,
                        rem@ =~= before.subrange(0, k as int),
                    decreases i - k,
                {
                    rem.push(self.points[k]);
                    k = k + 1;
                }
                k = j;
                while k < n
                    invariant
                        j <= k <= n,
                        n == before.len(),
                        self.points@ == before,
                        rem@ =~= before.subrange(0, i as int) + before.subrange(
                            j as int,
                            k as int,
                        ),
                    decreases n - k,
                {
                    rem.push(self.points[k]);
                    k = k + 1;
                }
                self.points = loop_points;
                self.closed = true;
                assert(self.points@ =~= closed_loop_of(before, i as int, j as int));
                assert(rem@ =~= remainder_of(before, i as int, j as int));
                if rem.len() > self.points.len() {
                    self.remainder = Some(rem);
                    CloseOutcome::ClosedWithRemainder
                } else {
                    CloseOutcome::ClosedNoRemainder
                }
            },
        }
    }
}

/// A pen's drawing state: whether the pen is currently drawing, and which
/// path entity it is appending to. A pen has at most one active path;
/// starting a new stroke while one exists appends to it rather than creating
/// a second.
#[derive(Clone, Copy, PartialEq, Eq, Structural, Debug)]
pub struct DrawPath {
    /// Whether drawing is currently active.
    pub active: bool,
    /// The pen's current path entity, if one exists.
    pub path: Option<u64>,
}

impl Default for DrawPath {
    /// A pen starts idle, with no path.
    fn default() -> (d: DrawPath)
        ensures
            !d.active,
            d.path is None,
    {
        DrawPath { active: false, path: None }
    }
}

impl DrawPath {
    /// Whether drawing is currently active.
    pub fn active(&self) -> (r: bool)
        ensures
            r == self.active,
    {
        self.active
    }

    /// The pen's current path entity, if any.
    pub fn path(&self) -> (r: Option<u64>)
        ensures
            r == self.path,
    {
        self.path
    }

    /// Begins drawing; an existing path is kept and appended to.
    pub fn activate(&mut self)
        ensures
            final(self).active,
            final(self).path == old(self).path,
    {
        self.active = true;
    }

    /// Stops drawing and forgets the current path.
    pub fn deactivate(&mut self)
        ensures
            !final(self).active,
            final(self).path is None,
    {
        self.active = false;
        self.path = None;
    }

    /// Whether `path` is this pen's current path.
    pub fn is_active_path(&self, path: u64) -> (r: bool)
        ensures
            r == (self.path == Some(path)),
    {
        match self.path {
            Some(e) => e == path,
            None => false,
        }
    }
}

/// When a crossing closes a loop, the loop and the stitched remainder
/// together carry every point of the before trail exactly once: their
/// lengths sum to the before's length plus one, the crossing point being
/// the one vertex they share conceptually.
pub proof fn lemma_remainder_conservation(points: Seq<Point>, i: int, j: int)
    requires
        first_crossing(points) == Some((i, j)),
    ensures
        closed_loop_of(points, i, j).len() + remainder_of(points, i, j).len() - 1 == points.len(),
{
    lemma_scan_from_characterizes(points, 1, 0);
}

/// The part of the trail a closed loop keeps is itself crossing-free:
/// rescanning the loop's recorded vertices (the before segments `i` up to
/// `j - 1`, before the synthesized closing vertex) finds no further
/// self-crossing. This holds because the scan closes at the earliest
/// possible second segment.
pub proof fn lemma_loop_body_crossing_free(points: Seq<Point>, i: int, j: int)
    requires
        first_crossing(points) == Some((i, j)),
    ensures
        first_crossing(points.subrange(i, j)) is None,
        first_crossing(closed_loop_of(points, i, j).drop_last()) is None,
{
    assert(closed_loop_of(points, i, j).drop_last() =~= points.subrange(i, j));
    lemma_scan_from_characterizes(points, 1, 0);
    let s = points.subrange(i, j);
    if first_crossing(s) is Some {
        let (a, b) = first_crossing(s).unwrap();
        lemma_scan_from_characterizes(s, 1, 0);
        assert(valid_pair(s, a, b));
        assert(segments_cross(s[a], s[a + 1], s[b], s[b + 1]));
        assert(s[a] == points[i + a] && s[a + 1] == points[i + a + 1] && s[b] == points[i + b]
            && s[b + 1] == points[i + b + 1]);
        assert(valid_pair(points, i + a, i + b));
        assert(!segments_cross(
            points[i + a],
            points[i + a + 1],
            points[i + b],
            points[i + b + 1],
        ));
    }
}

} // verus!
