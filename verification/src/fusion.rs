//! Fusion resolution: partitioning a capture's entities into combine groups
//! and an explode set.
//!
//! The pool is processed most-recent-first: the last captured entity is
//! popped and resolved before earlier ones, a documented tie-break. A popped
//! entity first looks for its complement (earliest in the remaining pool),
//! then, if it is a primary, for the other two primaries; finding both forms
//! a triple, finding one degrades gracefully to a pair, finding none routes
//! the entity to the explode set. Un-pairable entities always explode; the
//! resolver itself never fails.

use vstd::multiset::Multiset;
use vstd::prelude::*;

use crate::category::EnemyType;
use crate::category::lemma_complement_pairs_combine;
use crate::category::lemma_distinct_primaries_combine;
use crate::category::spec_complement;
use crate::category::spec_is_primary;
use crate::category::spec_pair_combine;
use crate::entity::CapturedEntity;
use crate::entity::Velocity;
use crate::entity::pos_mean2;
use crate::entity::pos_mean3;
use crate::entity::spec_pos_mean2;
use crate::entity::spec_pos_mean3;
use crate::entity::spec_vel_mean2;
use crate::entity::spec_vel_mean3;
use crate::entity::vel_mean2;
use crate::entity::vel_mean3;
use crate::geometry::Point;

verus! {

/// A group of 2 or 3 captured entities destined to merge into one output
/// entity of a derived category, with the mean of their velocities.
#[derive(Clone, PartialEq, Eq, Debug)]
pub struct Combine {
    /// The member entities.
    pub entities: Vec<u64>,
    /// The category of the entity the group fuses into.
    pub new_type: EnemyType,
    /// The arithmetic mean of the members' velocities.
    pub velocity: Velocity,
}

/// The mathematical model of a combine group.
#[verifier::ext_equal]
pub struct CombineModel {
    /// The member entities.
    pub entities: Seq<u64>,
    /// The category of the entity the group fuses into.
    pub new_type: EnemyType,
    /// The arithmetic mean of the members' velocities.
    pub velocity: Velocity,
}

impl View for Combine {
    type V = CombineModel;

    open spec fn view(&self) -> CombineModel {
        CombineModel {
            entities: self.entities@,
            new_type: self.new_type,
            velocity: self.velocity,
        }
    }
}

/// The model of a resolved capture: the combine groups in the order they
/// were formed, and the entities that explode instead.
#[verifier::ext_equal]
pub struct ResolutionModel {
    /// The combine groups, in formation order.
    pub combines: Seq<CombineModel>,
    /// The entities that failed to pair, in the order they were popped.
    pub explode: Seq<u64>,
}

/// The predicate "is the complement of `t`".
pub open spec fn complement_pred(t: EnemyType) -> spec_fn(EnemyType) -> bool {
    |x: EnemyType| spec_complement(t) == Some(x)
}

/// The predicate "is `a` or `b`".
pub open spec fn either_pred(a: EnemyType, b: EnemyType) -> spec_fn(EnemyType) -> bool {
    |x: EnemyType| x == a || x == b
}

/// The earliest index in the pool whose category satisfies `pred`.
pub open spec fn first_idx(s: Seq<CapturedEntity>, pred: spec_fn(EnemyType) -> bool) -> Option<
    int,
>
    decreases s.len(),
{
    if s.len() == 0 {
        None
    } else if pred(s[0].typ) {
        Some(0)
    } else {
        match first_idx(s.drop_first(), pred) {
            None => None,
            Some(i) => Some(i + 1),
        }
    }
}

/// What `first_idx` answers: a `Some` is the earliest satisfying index, a
/// `None` says nothing satisfies.
pub proof fn lemma_first_idx_char(s: Seq<CapturedEntity>, pred: spec_fn(EnemyType) -> bool)
    ensures
        match first_idx(s, pred) {
            Some(i) => 0 <= i < s.len() && pred(s[i].typ) && forall|m: int|
                0 <= m < i ==> !pred(s[m].typ),
            None => forall|m: int| 0 <= m < s.len() ==> !pred(s[m].typ),
        },
    decreases s.len(),
{
    if s.len() > 0 && !pred(s[0].typ) {
        lemma_first_idx_char(s.drop_first(), pred);
        match first_idx(s.drop_first(), pred) {
            Some(i) => {
                assert(s.drop_first()[i] == s[i + 1]);
                assert forall|m: int| 0 <= m < i + 1 implies !pred(s[m].typ) by {
                    if m > 0 {
                        assert(!pred(s.drop_first()[m - 1].typ));
                        assert(s.drop_first()[m - 1] == s[m]);
                    }
                }
            },
            None => {
                assert forall|m: int| 0 <= m < s.len() implies !pred(s[m].typ) by {
                    if m > 0 {
                        assert(!pred(s.drop_first()[m - 1].typ));
                        assert(s.drop_first()[m - 1] == s[m]);
                    }
                }
            },
        }
    }
}

/// The converse: positional knowledge of the earliest satisfying index pins
/// `first_idx`.
pub proof fn lemma_first_idx_from_position(
    s: Seq<CapturedEntity>,
    pred: spec_fn(EnemyType) -> bool,
    i: int,
)
    requires
        0 <= i < s.len(),
        pred(s[i].typ),
        forall|m: int| 0 <= m < i ==> !pred(s[m].typ),
    ensures
        first_idx(s, pred) == Some(i),
    decreases s.len(),
{
    if i > 0 {
        assert(s.drop_first()[i - 1] == s[i]);
        assert forall|m: int| 0 <= m < i - 1 implies !pred(s.drop_first()[m].typ) by {
            assert(s.drop_first()[m] == s[m + 1]);
        }
        lemma_first_idx_from_position(s.drop_first(), pred, i - 1);
    }
}

/// The converse for absence: nothing satisfies, so `first_idx` is `None`.
pub proof fn lemma_first_idx_none(s: Seq<CapturedEntity>, pred: spec_fn(EnemyType) -> bool)
    requires
        forall|m: int| 0 <= m < s.len() ==> !pred(s[m].typ),
    ensures
        first_idx(s, pred) is None,
    decreases s.len(),
{
    if s.len() > 0 {
        assert forall|m: int| 0 <= m < s.drop_first().len() implies !pred(
            s.drop_first()[m].typ,
        ) by {
            assert(s.drop_first()[m] == s[m + 1]);
        }
        lemma_first_idx_none(s.drop_first(), pred);
    }
}

/// The other two primaries a given primary needs for a triple, in the fixed
/// search order.
pub open spec fn spec_required_pair(t: EnemyType) -> (EnemyType, EnemyType) {
    match t {
        EnemyType::Red => (EnemyType::Blue, EnemyType::Green),
        EnemyType::Blue => (EnemyType::Red, EnemyType::Green),
        EnemyType::Green => (EnemyType::Red, EnemyType::Blue),
        _ => (t, t),
    }
}

/// The sequence with the entry at `i` removed; an out-of-range index (which
/// the resolver never produces) removes nothing, keeping the function total.
pub open spec fn remove_at(s: Seq<CapturedEntity>, i: int) -> Seq<CapturedEntity> {
    if 0 <= i < s.len() {
        s.remove(i)
    } else {
        s
    }
}

/// The resolved partition of a capture pool. Entities are popped from the
/// end; each popped entity forms a complement pair, a primary triple, a
/// degraded primary pair, or explodes, exactly as the resolver executes it.
pub open spec fn spec_resolve(pool: Seq<CapturedEntity>) -> ResolutionModel
    decreases pool.len(),
{
    if pool.len() == 0 {
        ResolutionModel { combines: Seq::empty(), explode: Seq::empty() }
    } else {
        let e = pool.last();
        let rest = pool.drop_last();
        match first_idx(rest, complement_pred(e.typ)) {
            Some(ci) => {
                let comp = rest[ci];
                let g = CombineModel {
                    entities: seq![e.entity, comp.entity],
                    new_type: spec_pair_combine(e.typ, comp.typ).unwrap(),
                    velocity: spec_vel_mean2(e.vel, comp.vel),
                };
                let tail = spec_resolve(remove_at(rest, ci));
                ResolutionModel { combines: seq![g] + tail.combines, explode: tail.explode }
            },
            None => {
                if !spec_is_primary(e.typ) {
                    let tail = spec_resolve(rest);
                    ResolutionModel {
                        combines: tail.combines,
                        explode: seq![e.entity] + tail.explode,
                    }
                } else {
                    let r1 = spec_required_pair(e.typ).0;
                    let r2 = spec_required_pair(e.typ).1;
                    match first_idx(rest, either_pred(r1, r2)) {
                        None => {
                            let tail = spec_resolve(rest);
                            ResolutionModel {
                                combines: tail.combines,
                                explode: seq![e.entity] + tail.explode,
                            }
                        },
                        Some(i1) => {
                            let f1 = rest[i1];
                            let rest2 = remove_at(rest, i1);
                            let r3 = if f1.typ == r1 {
                                r2
                            } else {
                                r1
                            };
                            match first_idx(rest2, either_pred(r3, r3)) {
                                None => {
                                    let g = CombineModel {
                                        entities: seq![e.entity, f1.entity],
                                        new_type: spec_pair_combine(e.typ, f1.typ).unwrap(),
                                        velocity: spec_vel_mean2(e.vel, f1.vel),
                                    };
                                    let tail = spec_resolve(rest2);
                                    ResolutionModel {
                                        combines: seq![g] + tail.combines,
                                        explode: tail.explode,
                                    }
                                },
                                Some(i2) => {
                                    let f2 = rest2[i2];
                                    let g = CombineModel {
                                        entities: seq![e.entity, f1.entity, f2.entity],
                                        new_type: EnemyType::White,
                                        velocity: spec_vel_mean3(e.vel, f1.vel, f2.vel),
                                    };
                                    let tail = spec_resolve(remove_at(rest2, i2));
                                    ResolutionModel {
                                        combines: seq![g] + tail.combines,
                                        explode: tail.explode,
                                    }
                                },
                            }
                        },
                    }
                }
            },
        }
    }
}

/// Every entity a pool holds, as a multiset of identities.
pub open spec fn pool_ids(pool: Seq<CapturedEntity>) -> Multiset<u64> {
    pool.map_values(|e: CapturedEntity| e.entity).to_multiset()
}

/// All member entities of a sequence of combine groups, as one multiset.
pub open spec fn group_members(combines: Seq<CombineModel>) -> Multiset<u64>
    decreases combines.len(),
{
    if combines.len() == 0 {
        Multiset::empty()
    } else {
        combines.first().entities.to_multiset().add(group_members(combines.drop_first()))
    }
}

/// Removing one pool entry removes exactly its identity from the pool's
/// multiset.
proof fn lemma_pool_ids_remove(s: Seq<CapturedEntity>, i: int)
    requires
        0 <= i < s.len(),
    ensures
        pool_ids(s) =~= pool_ids(remove_at(s, i)).insert(s[i].entity),
{
    broadcast use vstd::seq_lib::group_to_multiset_ensures;
    broadcast use vstd::multiset::group_multiset_axioms;

    let f = |e: CapturedEntity| e.entity;
    let ms = s.map_values(f);
    assert(remove_at(s, i).map_values(f) =~= ms.remove(i));
    assert(ms.contains(ms[i]));
    assert(ms.to_multiset().count(ms[i]) > 0);
    assert(pool_ids(s) =~= pool_ids(remove_at(s, i)).insert(s[i].entity));
}

/// Dropping the last pool entry removes exactly its identity from the
/// pool's multiset.
proof fn lemma_pool_ids_drop_last(s: Seq<CapturedEntity>)
    requires
        s.len() > 0,
    ensures
        pool_ids(s) =~= pool_ids(s.drop_last()).insert(s.last().entity),
{
    broadcast use vstd::seq_lib::group_to_multiset_ensures;
    broadcast use vstd::multiset::group_multiset_axioms;

    let f = |e: CapturedEntity| e.entity;
    assert(s.map_values(f) =~= s.drop_last().map_values(f).push(f(s.last())));
}

/// Prepending a group adds exactly its members to the collected multiset.
proof fn lemma_group_members_cons(g: CombineModel, rest: Seq<CombineModel>)
    ensures
        group_members(seq![g] + rest) =~= g.entities.to_multiset().add(group_members(rest)),
{
    assert((seq![g] + rest).first() == g);
    assert((seq![g] + rest).drop_first() =~= rest);
}

/// Fusion conserves entities: every captured entity lands in exactly one
/// combine group or in the explode set, with no duplication and no loss, so
/// the group sizes and the explode set together count the whole input. Each
/// combine group holds two or three entities.
#[verifier::rlimit(100)]
pub proof fn lemma_fusion_conserves_entities(pool: Seq<CapturedEntity>)
    ensures
        group_members(spec_resolve(pool).combines).add(spec_resolve(pool).explode.to_multiset())
            =~= pool_ids(pool),
        group_members(spec_resolve(pool).combines).len() + spec_resolve(pool).explode.len()
            == pool.len(),
        forall|k: int| 0 <= k < spec_resolve(pool).combines.len() ==> 2 <= (
        #[trigger] spec_resolve(pool).combines[k]).entities.len() <= 3,
    decreases pool.len(),
{
    broadcast use vstd::seq_lib::group_to_multiset_ensures;
    broadcast use vstd::multiset::group_multiset_axioms;

    if pool.len() == 0 {
        assert(pool.map_values(|e: CapturedEntity| e.entity) =~= Seq::<u64>::empty());
    } else {
        let e = pool.last();
        let rest = pool.drop_last();
        lemma_pool_ids_drop_last(pool);
        lemma_first_idx_char(rest, complement_pred(e.typ));
        match first_idx(rest, complement_pred(e.typ)) {
            Some(ci) => {
                let comp = rest[ci];
                let g = spec_resolve(pool).combines.first();
                let tail = spec_resolve(remove_at(rest, ci));
                lemma_fusion_conserves_entities(remove_at(rest, ci));
                lemma_pool_ids_remove(rest, ci);
                lemma_group_members_cons(g, tail.combines);
                assert(g.entities =~= Seq::<u64>::empty().push(e.entity).push(comp.entity));
                assert(g.entities.to_multiset() =~= Multiset::<u64>::empty().insert(
                    e.entity,
                ).insert(comp.entity));
                assert(group_members(spec_resolve(pool).combines).add(
                    spec_resolve(pool).explode.to_multiset(),
                ) =~= pool_ids(pool));
            },
            None => {
                if !spec_is_primary(e.typ) {
                    lemma_fusion_conserves_entities(rest);
                    assert(spec_resolve(pool).explode =~= seq![e.entity] + spec_resolve(
                        rest,
                    ).explode);
                    assert((seq![e.entity] + spec_resolve(rest).explode).drop_first()
                        =~= spec_resolve(rest).explode);
                    assert((seq![e.entity] + spec_resolve(rest).explode).to_multiset()
                        =~= spec_resolve(rest).explode.to_multiset().insert(e.entity)) by {
                        lemma_cons_to_multiset(e.entity, spec_resolve(rest).explode);
                    }
                    assert(group_members(spec_resolve(pool).combines).add(
                        spec_resolve(pool).explode.to_multiset(),
                    ) =~= pool_ids(pool));
                } else {
                    let r1 = spec_required_pair(e.typ).0;
                    let r2 = spec_required_pair(e.typ).1;
                    lemma_first_idx_char(rest, either_pred(r1, r2));
                    match first_idx(rest, either_pred(r1, r2)) {
                        None => {
                            lemma_fusion_conserves_entities(rest);
                            assert((seq![e.entity] + spec_resolve(rest).explode).to_multiset()
                                =~= spec_resolve(rest).explode.to_multiset().insert(e.entity)) by {
                                lemma_cons_to_multiset(e.entity, spec_resolve(rest).explode);
                            }
                            assert(group_members(spec_resolve(pool).combines).add(
                                spec_resolve(pool).explode.to_multiset(),
                            ) =~= pool_ids(pool));
                        },
                        Some(i1) => {
                            let f1 = rest[i1];
                            let rest2 = remove_at(rest, i1);
                            lemma_pool_ids_remove(rest, i1);
                            let r3 = if f1.typ == r1 {
                                r2
                            } else {
                                r1
                            };
                            lemma_first_idx_char(rest2, either_pred(r3, r3));
                            match first_idx(rest2, either_pred(r3, r3)) {
                                None => {
                                    let g = spec_resolve(pool).combines.first();
                                    let tail = spec_resolve(rest2);
                                    lemma_fusion_conserves_entities(rest2);
                                    lemma_group_members_cons(g, tail.combines);
                                    assert(g.entities =~= Seq::<u64>::empty().push(
                                        e.entity,
                                    ).push(f1.entity));
                                    assert(g.entities.to_multiset()
                                        =~= Multiset::<u64>::empty().insert(e.entity).insert(
                                        f1.entity,
                                    ));
                                    assert(group_members(spec_resolve(pool).combines).add(
                                        spec_resolve(pool).explode.to_multiset(),
                                    ) =~= pool_ids(pool));
                                },
                                Some(i2) => {
                                    let f2 = rest2[i2];
                                    let g = spec_resolve(pool).combines.first();
                                    let tail = spec_resolve(remove_at(rest2, i2));
                                    lemma_fusion_conserves_entities(remove_at(rest2, i2));
                                    lemma_pool_ids_remove(rest2, i2);
                                    lemma_group_members_cons(g, tail.combines);
                                    assert(g.entities =~= Seq::<u64>::empty().push(
                                        e.entity,
                                    ).push(f1.entity).push(f2.entity));
                                    assert(g.entities.to_multiset()
                                        =~= Multiset::<u64>::empty().insert(e.entity).insert(
                                        f1.entity,
                                    ).insert(f2.entity));
                                    assert(group_members(spec_resolve(pool).combines).add(
                                        spec_resolve(pool).explode.to_multiset(),
                                    ) =~= pool_ids(pool));
                                },
                            }
                        },
                    }
                }
            },
        }
    }
}

/// Prepending one element to a sequence inserts it into the sequence's
/// multiset.
proof fn lemma_cons_to_multiset(x: u64, s: Seq<u64>)
    ensures
        (seq![x] + s).to_multiset() =~= s.to_multiset().insert(x),
    decreases s.len(),
{
    broadcast use vstd::seq_lib::group_to_multiset_ensures;
    broadcast use vstd::multiset::group_multiset_axioms;

    if s.len() == 0 {
        assert(seq![x] + s =~= Seq::<u64>::empty().push(x));
        assert(s.to_multiset() =~= Multiset::<u64>::empty());
    } else {
        lemma_cons_to_multiset(x, s.drop_last());
        assert(seq![x] + s =~= (seq![x] + s.drop_last()).push(s.last()));
        assert(s =~= s.drop_last().push(s.last()));
        assert((seq![x] + s).to_multiset() =~= s.to_multiset().insert(x));
    }
}

/// Finds the earliest pool entry whose category is `a` or `b`.
fn find_first_of2(pool: &Vec<CapturedEntity>, a: EnemyType, b: EnemyType) -> (r: Option<usize>)
    ensures
        match r {
            Some(i) => i < pool@.len() && (pool@[i as int].typ == a || pool@[i as int].typ == b)
                && forall|m: int|
                0 <= m < i ==> !(pool@[m].typ == a || pool@[m].typ == b),
            None => forall|m: int|
                0 <= m < pool@.len() ==> !(pool@[m].typ == a || pool@[m].typ == b),
        },
{
    let n = pool.len();
    let mut k: usize = 0;
    while k < n
        invariant
            k <= n,
            n == pool@.len(),
            forall|m: int| 0 <= m < k ==> !(pool@[m].typ == a || pool@[m].typ == b),
        decreases n - k,
    {
        let t = pool[k].typ;
        if t == a || t == b {
            return Some(k);
        }
        k = k + 1;
    }
    None
}

/// Runs the group-formation algorithm on a pool of captured entities,
/// popping the most recently captured first. Returns the combine groups in
/// formation order and the explode set in pop order, exactly as
/// `spec_resolve` describes.
pub fn resolve_groups(surrounded: Vec<CapturedEntity>) -> (r: (Vec<Combine>, Vec<u64>))
    ensures
        r.0@.map_values(|c: Combine| c@) == spec_resolve(surrounded@).combines,
        r.1@ == spec_resolve(surrounded@).explode,
{
    let ghost pool0 = surrounded@;
    let mut pool = surrounded;
    let mut combines: Vec<Combine> = Vec::new();
    let mut explode: Vec<u64> = Vec::new();
    while pool.len() > 0
        invariant
            spec_resolve(pool0).combines =~= combines@.map_values(|c: Combine| c@)
                + spec_resolve(pool@).combines,
            spec_resolve(pool0).explode =~= explode@ + spec_resolve(pool@).explode,
        decreases pool@.len(),
    {
        let ghost pool_before = pool@;
        let e = pool.pop().unwrap();
        assert(pool@ == pool_before.drop_last());
        assert(e == pool_before.last());
        let copt = e.typ.complement();
        let comp_idx = match copt {
            Some(c) => {
                let r = find_first_of2(&pool, c, c);
                proof {
                    match r {
                        Some(i) => lemma_first_idx_from_position(
                            pool@,
                            complement_pred(e.typ),
                            i as int,
                        ),
                        None => lemma_first_idx_none(pool@, complement_pred(e.typ)),
                    }
                }
                r
            },
            None => {
                proof {
                    lemma_first_idx_none(pool@, complement_pred(e.typ));
                }
                None
            },
        };
        match comp_idx {
            Some(ci) => {
                let comp = pool.remove(ci);
                proof {
                    lemma_complement_pairs_combine(e.typ, comp.typ);
                }
                let mut members: Vec<u64> = Vec::new();
                members.push(e.entity);
                members.push(comp.entity);
                let g = Combine {
                    entities: members,
                    new_type: e.typ.pair_combine(comp.typ).unwrap(),
                    velocity: vel_mean2(e.vel, comp.vel),
                };
                assert(g@ == spec_resolve(pool_before).combines[0]);
                let ghost combines_before = combines@;
                combines.push(g);
                assert(combines@.map_values(|c: Combine| c@) =~= combines_before.map_values(
                    |c: Combine| c@,
                ).push(g@));
            },
            None => {
                if !e.typ.is_primary() {
                    explode.push(e.entity);
                } else {
                    let req = required_pair(e.typ);
                    let s1 = find_first_of2(&pool, req.0, req.1);
                    proof {
                        match s1 {
                            Some(i) => lemma_first_idx_from_position(
                                pool@,
                                either_pred(req.0, req.1),
                                i as int,
                            ),
                            None => lemma_first_idx_none(pool@, either_pred(req.0, req.1)),
                        }
                    }
                    match s1 {
                        None => {
                            explode.push(e.entity);
                        },
                        Some(i1) => {
                            let f1 = pool.remove(i1);
                            let r3 = if f1.typ == req.0 {
                                req.1
                            } else {
                                req.0
                            };
                            let s2 = find_first_of2(&pool, r3, r3);
                            proof {
                                match s2 {
                                    Some(i) => lemma_first_idx_from_position(
                                        pool@,
                                        either_pred(r3, r3),
                                        i as int,
                                    ),
                                    None => lemma_first_idx_none(pool@, either_pred(r3, r3)),
                                }
                            }
                            match s2 {
                                None => {
                                    proof {
                                        lemma_distinct_primaries_combine(e.typ, f1.typ);
                                    }
                                    let mut members: Vec<u64> = Vec::new();
                                    members.push(e.entity);
                                    members.push(f1.entity);
                                    let g = Combine {
                                        entities: members,
                                        new_type: e.typ.pair_combine(f1.typ).unwrap(),
                                        velocity: vel_mean2(e.vel, f1.vel),
                                    };
                                    assert(g@ == spec_resolve(pool_before).combines[0]);
                                    let ghost combines_before = combines@;
                                    combines.push(g);
                                    assert(combines@.map_values(|c: Combine| c@)
                                        =~= combines_before.map_values(|c: Combine| c@).push(g@));
                                },
                                Some(i2) => {
                                    let f2 = pool.remove(i2);
                                    let mut members: Vec<u64> = Vec::new();
                                    members.push(e.entity);
                                    members.push(f1.entity);
                                    members.push(f2.entity);
                                    let g = Combine {
                                        entities: members,
                                        new_type: EnemyType::White,
                                        velocity: vel_mean3(e.vel, f1.vel, f2.vel),
                                    };
                                    assert(g@ == spec_resolve(pool_before).combines[0]);
                                    let ghost combines_before = combines@;
                                    combines.push(g);
                                    assert(combines@.map_values(|c: Combine| c@)
                                        =~= combines_before.map_values(|c: Combine| c@).push(g@));
                                },
                            }
                        },
                    }
                }
            },
        }
    }
    (combines, explode)
}

/// What evaluating a closed loop decided.
#[derive(PartialEq, Eq, Debug)]
pub enum CaptureOutcome {
    /// An empty loop that is not the pen's active stroke: its closed marker
    /// was removed so the trail can continue evolving as an ordinary open
    /// path.
    BackgroundReopened,
    /// The pen's empty loop had a saved remainder: the remainder was swapped
    /// in and the loop reopened for continued drawing.
    Reopened,
    /// Drawing was deactivated: the pen's empty loop had no remainder, or
    /// exactly one entity was captured, which is not a valid capture.
    Deactivated,
    /// Two or more entities were captured and resolved into combine groups
    /// and an explode set, ready to start an animation session.
    Resolved {
        /// The combine groups, in formation order.
        combines: Vec<Combine>,
        /// The entities that failed to pair.
        explode: Vec<u64>,
    },
}

/// Evaluates a freshly closed (or freshly changed) loop against the live
/// entities: finds the contained entities and dispatches on their count.
/// Zero contained abandons the loop: the pen's own stroke resumes from its
/// remainder if one was kept, otherwise drawing is deactivated, and a loop
/// that is not the pen's stroke has its closed marker removed so it can
/// continue evolving. One contained entity deactivates drawing
/// unconditionally. Two or more run the group-formation algorithm; path and
/// pen are then left as they are, and the result seeds an animation
/// session.
pub fn check_areas(
    path: &mut crate::path::Path,
    pen: &mut crate::path::DrawPath,
    path_id: u64,
    entities: &Vec<CapturedEntity>,
) -> (r: CaptureOutcome)
    requires
        old(path).wf(),
        old(path).closed,
    ensures
        final(path).wf(),
        ({
            let contained = entities@.filter(
                |e: CapturedEntity| crate::geometry::point_in_polygon(old(path).points@, e.pos),
            );
            if contained.len() == 0 {
                if old(pen).path == Some(path_id) {
                    match old(path).remainder {
                        Some(rem) => {
                            &&& r == CaptureOutcome::Reopened
                            &&& final(path).points == rem
                            &&& final(path).remainder is None
                            &&& !final(path).closed
                            &&& final(path).pen == old(path).pen
                            &&& *final(pen) == *old(pen)
                        },
                        None => {
                            &&& r == CaptureOutcome::Deactivated
                            &&& *final(path) == *old(path)
                            &&& !final(pen).active
                            &&& final(pen).path is None
                        },
                    }
                } else {
                    &&& r == CaptureOutcome::BackgroundReopened
                    &&& !final(path).closed
                    &&& final(path).points == old(path).points
                    &&& final(path).remainder == old(path).remainder
                    &&& final(path).pen == old(path).pen
                    &&& *final(pen) == *old(pen)
                }
            } else if contained.len() == 1 {
                &&& r == CaptureOutcome::Deactivated
                &&& *final(path) == *old(path)
                &&& !final(pen).active
                &&& final(pen).path is None
            } else {
                &&& r matches CaptureOutcome::Resolved { combines, explode }
                    && combines@.map_values(|c: Combine| c@) == spec_resolve(contained).combines
                    && explode@ == spec_resolve(contained).explode
                &&& *final(path) == *old(path)
                &&& *final(pen) == *old(pen)
            }
        }),
{
    let contained = crate::containment::find_contained(&path.points, entities);
    if contained.len() == 0 {
        if pen.is_active_path(path_id) {
            if path.swap_remainder() {
                path.closed = false;
                CaptureOutcome::Reopened
            } else {
                pen.deactivate();
                CaptureOutcome::Deactivated
            }
        } else {
            path.closed = false;
            CaptureOutcome::BackgroundReopened
        }
    } else if contained.len() == 1 {
        pen.deactivate();
        CaptureOutcome::Deactivated
    } else {
        let groups = resolve_groups(contained);
        CaptureOutcome::Resolved { combines: groups.0, explode: groups.1 }
    }
}

/// Whether some entity of the pool has the given category.
pub open spec fn pool_has(s: Seq<CapturedEntity>, t: EnemyType) -> bool {
    exists|i: int| 0 <= i < s.len() && (#[trigger] s[i]).typ == t
}

impl EnemyType {
    /// Directly checks whether a whole containment set fuses into a single
    /// entity; `None` when it cannot combine. Two entities combine by the
    /// pair table; three combine only as the full set of primaries, into the
    /// terminal category. The fused entity sits at the members' mean
    /// position with their mean velocity.
    pub fn check_combine(enemies: &Vec<CapturedEntity>) -> (r: Option<(EnemyType, Point, Velocity)>)
        ensures
            r == {
                let s = enemies@;
                if s.len() == 2 {
                    match spec_pair_combine(s[0].typ, s[1].typ) {
                        Some(t) => Some(
                            (
                                t,
                                spec_pos_mean2(s[0].pos, s[1].pos),
                                spec_vel_mean2(s[0].vel, s[1].vel),
                            ),
                        ),
                        None => None::<(EnemyType, Point, Velocity)>,
                    }
                } else if s.len() == 3 {
                    if pool_has(s, EnemyType::Red) && pool_has(s, EnemyType::Green) && pool_has(
                        s,
                        EnemyType::Blue,
                    ) {
                        Some(
                            (
                                EnemyType::White,
                                spec_pos_mean3(s[0].pos, s[1].pos, s[2].pos),
                                spec_vel_mean3(s[0].vel, s[1].vel, s[2].vel),
                            ),
                        )
                    } else {
                        None::<(EnemyType, Point, Velocity)>
                    }
                } else {
                    None::<(EnemyType, Point, Velocity)>
                }
            },
    {
        if enemies.len() == 2 {
            let a = enemies[0];
            let b = enemies[1];
            match a.typ.pair_combine(b.typ) {
                Some(t) => Some((t, pos_mean2(a.pos, b.pos), vel_mean2(a.vel, b.vel))),
                None => None,
            }
        } else if enemies.len() == 3 {
            let a = enemies[0];
            let b = enemies[1];
            let c = enemies[2];
            let has_red = a.typ == EnemyType::Red || b.typ == EnemyType::Red || c.typ
                == EnemyType::Red;
            let has_green = a.typ == EnemyType::Green || b.typ == EnemyType::Green || c.typ
                == EnemyType::Green;
            let has_blue = a.typ == EnemyType::Blue || b.typ == EnemyType::Blue || c.typ
                == EnemyType::Blue;
            proof {
                lemma_pool_has_three(enemies@, EnemyType::Red);
                lemma_pool_has_three(enemies@, EnemyType::Green);
                lemma_pool_has_three(enemies@, EnemyType::Blue);
            }
            if has_red && has_green && has_blue {
                Some(
                    (
                        EnemyType::White,
                        pos_mean3(a.pos, b.pos, c.pos),
                        vel_mean3(a.vel, b.vel, c.vel),
                    ),
                )
            } else {
                None
            }
        } else {
            None
        }
    }
}

/// In a pool of three, having a category means one of the three entries has
/// it.
proof fn lemma_pool_has_three(s: Seq<CapturedEntity>, t: EnemyType)
    requires
        s.len() == 3,
    ensures
        pool_has(s, t) <==> (s[0].typ == t || s[1].typ == t || s[2].typ == t),
{
    if pool_has(s, t) {
        let i = choose|i: int| 0 <= i < s.len() && (#[trigger] s[i]).typ == t;
        assert(i == 0 || i == 1 || i == 2);
    }
}

/// The other two primaries a given primary needs for a triple.
fn required_pair(t: EnemyType) -> (r: (EnemyType, EnemyType))
    ensures
        r == spec_required_pair(t),
{
    match t {
        EnemyType::Red => (EnemyType::Blue, EnemyType::Green),
        EnemyType::Blue => (EnemyType::Red, EnemyType::Green),
        EnemyType::Green => (EnemyType::Red, EnemyType::Blue),
        _ => (t, t),
    }
}

} // verus!
