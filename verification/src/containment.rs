//! Containment query: which live entities lie inside a closed loop.

use vstd::prelude::*;

use crate::entity::CapturedEntity;
use crate::geometry::Point;
use crate::geometry::contains_point;
use crate::geometry::point_in_polygon;

verus! {

/// Returns a snapshot of every entity whose center lies inside the polygon
/// formed by the loop's points (ring closed implicitly from the last point
/// back to the first), in the enumeration order given. Pure query; nothing
/// is mutated.
pub fn find_contained(loop_points: &Vec<Point>, entities: &Vec<CapturedEntity>) -> (r: Vec<
    CapturedEntity,
>)
    ensures
        r@ == entities@.filter(|e: CapturedEntity| point_in_polygon(loop_points@, e.pos)),
{
    let n = entities.len();
    let mut inside: Vec<CapturedEntity> = Vec::new();
    let mut k: usize = 0;
    while k < n
        invariant
            k <= n,
            n == entities@.len(),
            inside@ =~= entities@.take(k as int).filter(
                |e: CapturedEntity| point_in_polygon(loop_points@, e.pos),
            ),
        decreases n - k,
    {
        let e = entities[k];
        proof {
            reveal(Seq::filter);
            assert(entities@.take(k as int + 1).drop_last() =~= entities@.take(k as int));
        }
        if contains_point(loop_points, e.pos) {
            inside.push(e);
        }
        k = k + 1;
    }
    proof {
        assert(entities@.take(n as int) =~= entities@);
    }
    inside
}

/// An element is kept by `filter` exactly when the sequence holds it and the
/// predicate accepts it.
proof fn lemma_filter_membership<A>(s: Seq<A>, pred: spec_fn(A) -> bool, x: A)
    ensures
        s.filter(pred).contains(x) <==> s.contains(x) && pred(x),
    decreases s.len(),
{
    reveal(Seq::filter);
    if s.len() > 0 {
        lemma_filter_membership(s.drop_last(), pred, x);
        if s.contains(x) && pred(x) && x != s.last() {
            let i = choose|i: int| 0 <= i < s.len() && s[i] == x;
            assert(s.drop_last()[i] == x);
        }
        if s.drop_last().contains(x) {
            let i = choose|i: int| 0 <= i < s.drop_last().len() && s.drop_last()[i] == x;
            assert(s[i] == x);
        }
        if s.filter(pred) == s.drop_last().filter(pred).push(s.last()) && s.filter(pred).contains(
            x,
        ) && x != s.last() {
            let i = choose|i: int| 0 <= i < s.filter(pred).len() && s.filter(pred)[i] == x;
            assert(s.drop_last().filter(pred)[i] == x);
        }
    }
}

/// Containment is order-independent: for a fixed loop and fixed entity
/// positions, two enumerations holding the same entities yield the same set
/// of contained entities.
pub proof fn lemma_containment_order_independent(
    loop_points: Seq<Point>,
    a: Seq<CapturedEntity>,
    b: Seq<CapturedEntity>,
)
    requires
        a.to_set() == b.to_set(),
    ensures
        a.filter(|e: CapturedEntity| point_in_polygon(loop_points, e.pos)).to_set() == b.filter(
            |e: CapturedEntity| point_in_polygon(loop_points, e.pos),
        ).to_set(),
{
    let pred = |e: CapturedEntity| point_in_polygon(loop_points, e.pos);
    assert forall|x: CapturedEntity| #[trigger] a.filter(pred).to_set().contains(x) implies b.filter(
        pred,
    ).to_set().contains(x) by {
        lemma_filter_membership(a, pred, x);
        assert(b.to_set().contains(x));
        lemma_filter_membership(b, pred, x);
    }
    assert forall|x: CapturedEntity| #[trigger] b.filter(pred).to_set().contains(x) implies a.filter(
        pred,
    ).to_set().contains(x) by {
        lemma_filter_membership(b, pred, x);
        assert(a.to_set().contains(x));
        lemma_filter_membership(a, pred, x);
    }
    assert(a.filter(pred).to_set() =~= b.filter(pred).to_set());
}

} // verus!
