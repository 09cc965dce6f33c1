//! The capture animation state machine.
//!
//! One independent session runs per resolved capture of two or more
//! entities; several may run concurrently. A session is a strict linear
//! machine: `Initialize` disables collision on every involved entity and
//! computes the convergence center; `MoveToCenter` waits out a fixed
//! timeout while the caller eases the entities toward their targets (the
//! timeout, not arrival, gates the transition); `Eject` re-enables
//! collision on the explode set and scatters it with fresh random
//! velocities, clearing every existing path when anything scatters; `Done`
//! despawns each group's members and spawns the fused results. Each phase
//! variant owns exactly the data that phase needs, and a transition
//! consumes the old phase, so a phase-mismatched call is ruled out by the
//! `requires` on each step rather than discovered at run time.
//!
//! The session decides; the caller performs. Each step returns the effect
//! data (entities to disable, ejection velocities, spawns and despawns) for
//! the surrounding world to apply. Easing positions toward the center and
//! placing the per-entity target points on the convergence circle involve
//! transcendental arithmetic and stay with the caller.

use vstd::prelude::*;

use rand::Rng;

use crate::category::EnemyType;
use crate::entity::Velocity;
use crate::fusion::Combine;
use crate::fusion::CombineModel;
use crate::geometry::Point;
use crate::geometry::spec_centroid;

verus! {

/// How long the convergence phase lasts, in milliseconds.
pub const MOVE_TIMEOUT_MS: u64 = 500;

/// Magnitude bound for each component of a scatter velocity, in fixed-point
/// world units per second.
pub const EJECT_SPEED: i32 = 1_000_000;

/// An animation session for one resolved capture, in one of its phases.
#[derive(PartialEq, Eq, Debug)]
pub enum AnimateCombining {
    /// Entry phase: the resolved groups and explode set, not yet touched.
    Initialize {
        /// The combine groups of this capture.
        combines: Vec<Combine>,
        /// The entities that will scatter instead of fusing.
        explode: Vec<u64>,
    },
    /// Convergence phase: entities ease toward the center until the timeout
    /// elapses.
    MoveToCenter {
        /// The centroid the entities converge on.
        center: Point,
        /// The combine groups of this capture.
        combines: Vec<Combine>,
        /// The entities that will scatter instead of fusing.
        explode: Vec<u64>,
        /// How much of the timeout has elapsed, in milliseconds.
        elapsed_ms: u64,
    },
    /// Scatter phase: the explode set is re-enabled and flung outward.
    Eject {
        /// The centroid the entities converged on.
        center: Point,
        /// The combine groups of this capture.
        combines: Vec<Combine>,
        /// The entities that will scatter instead of fusing.
        explode: Vec<u64>,
    },
    /// Terminal phase: groups fuse into their results and the session ends.
    Done {
        /// The centroid, where fused results appear.
        center: Point,
        /// The combine groups of this capture.
        combines: Vec<Combine>,
    },
}

/// The members of all combine groups, flattened in order.
pub open spec fn flatten_members(combines: Seq<CombineModel>) -> Seq<u64>
    decreases combines.len(),
{
    if combines.len() == 0 {
        Seq::empty()
    } else {
        combines.first().entities + flatten_members(combines.drop_first())
    }
}

/// The entities a session touches, in the fixed enumeration order used for
/// target assignment: every group member in group order, then the explode
/// set.
pub open spec fn involved_of(combines: Seq<CombineModel>, explode: Seq<u64>) -> Seq<u64> {
    flatten_members(combines) + explode
}

/// Appending a group extends the flattened members at the tail.
proof fn lemma_flatten_push(s: Seq<CombineModel>, c: CombineModel)
    ensures
        flatten_members(s.push(c)) =~= flatten_members(s) + c.entities,
    decreases s.len(),
{
    if s.len() == 0 {
        assert(s.push(c).drop_first() =~= Seq::<CombineModel>::empty());
        assert(flatten_members(Seq::<CombineModel>::empty()) =~= Seq::<u64>::empty());
        assert(flatten_members(s.push(c)) =~= c.entities);
        assert(flatten_members(s) + c.entities =~= c.entities);
    } else {
        assert(s.push(c).drop_first() =~= s.drop_first().push(c));
        lemma_flatten_push(s.drop_first(), c);
        assert(s.push(c).first() == s.first());
        assert(flatten_members(s.push(c)) =~= s.first().entities + (flatten_members(s.drop_first())
            + c.entities));
        assert(s.first().entities + (flatten_members(s.drop_first()) + c.entities) =~= (
        s.first().entities + flatten_members(s.drop_first())) + c.entities);
    }
}

/// Flattens the members of all combine groups, in order.
pub fn flatten_groups(combines: &Vec<Combine>) -> (r: Vec<u64>)
    ensures
        r@ == flatten_members(combines@.map_values(|c: Combine| c@)),
{
    let n = combines.len();
    let mut out: Vec<u64> = Vec::new();
    let mut k: usize = 0;
    while k < n
        invariant
            k <= n,
            n == combines@.len(),
            out@ =~= flatten_members(combines@.take(k as int).map_values(|c: Combine| c@)),
        decreases n - k,
    {
        let g = &combines[k];
        let m = g.entities.len();
        let mut i: usize = 0;
        while i < m
            invariant
                i <= m,
                k < n,
                n == combines@.len(),
                m == combines@[k as int].entities@.len(),
                g == combines@[k as int],
                out@ =~= flatten_members(combines@.take(k as int).map_values(|c: Combine| c@))
                    + combines@[k as int].entities@.take(i as int),
            decreases m - i,
        {
            out.push(g.entities[i]);
            i = i + 1;
        }
        proof {
            assert(combines@.take(k as int + 1).map_values(|c: Combine| c@) =~= combines@.take(
                k as int,
            ).map_values(|c: Combine| c@).push(combines@[k as int]@));
            lemma_flatten_push(
                combines@.take(k as int).map_values(|c: Combine| c@),
                combines@[k as int]@,
            );
            assert(combines@[k as int].entities@.take(m as int) =~= combines@[k as int].entities@);
        }
        k = k + 1;
    }
    proof {
        assert(combines@.take(n as int) =~= combines@);
    }
    out
}

/// Relies on rand::Rng::gen_range through rand::thread_rng: returns a draw
/// from `low..high`; the function panics only on an empty range, which the
/// precondition excludes. Nothing more is assumed of the draw.
#[verifier::external_body]
fn rand_range_i32(low: i32, high: i32) -> (r: i32)
    requires
        low < high,
    ensures
        low <= r < high,
{
    rand::thread_rng().gen_range(low..high)
}

/// The effects of the scatter phase, for the caller to apply.
#[derive(PartialEq, Eq, Debug)]
pub struct EjectEffects {
    /// Each explode-set entity, in order, with its fresh scatter velocity;
    /// collision must be re-enabled on each.
    pub ejections: Vec<(u64, Velocity)>,
    /// Whether every currently-existing path must be cleared: true exactly
    /// when something scattered, since exploding entities contaminate the
    /// play field and invalidate in-progress drawings.
    pub clear_paths: bool,
}

/// One entity to spawn when a combine group fuses.
#[derive(Clone, Copy, PartialEq, Eq, Structural, Debug)]
pub struct SpawnCommand {
    /// The fused entity's category.
    pub new_type: EnemyType,
    /// Where it appears: the session's center.
    pub position: Point,
    /// Its starting velocity: the group's averaged velocity.
    pub velocity: Velocity,
}

/// The effects of the terminal phase, for the caller to apply.
#[derive(PartialEq, Eq, Debug)]
pub struct DoneEffects {
    /// Every combine-group member, to despawn.
    pub despawn: Vec<u64>,
    /// One spawn per combine group.
    pub spawns: Vec<SpawnCommand>,
    /// Whether a terminal-category fusion occurred, which requests a fresh
    /// wave of entities.
    pub fresh_wave: bool,
}

/// Whether any group fuses into the terminal category.
pub open spec fn any_terminal(combines: Seq<CombineModel>) -> bool {
    exists|k: int| 0 <= k < combines.len() && (#[trigger] combines[k]).new_type is White
}

impl AnimateCombining {
    /// The entities this session touches, in target-assignment order, while
    /// the session still tracks its explode set.
    pub fn involved(&self) -> (r: Vec<u64>)
        requires
            !(self is Done),
        ensures
            r@ == match self {
                AnimateCombining::Initialize { combines, explode } => involved_of(
                    combines@.map_values(|c: Combine| c@),
                    explode@,
                ),
                AnimateCombining::MoveToCenter { combines, explode, .. } => involved_of(
                    combines@.map_values(|c: Combine| c@),
                    explode@,
                ),
                AnimateCombining::Eject { combines, explode, .. } => involved_of(
                    combines@.map_values(|c: Combine| c@),
                    explode@,
                ),
                AnimateCombining::Done { .. } => Seq::<u64>::empty(),
            },
    {
        let (combines, explode) = match self {
            AnimateCombining::Initialize { combines, explode } => (combines, explode),
            AnimateCombining::MoveToCenter { combines, explode, .. } => (combines, explode),
            AnimateCombining::Eject { combines, explode, .. } => (combines, explode),
            AnimateCombining::Done { .. } => vstd::pervasive::unreached(),
        };
        let mut out = flatten_groups(combines);
        let n = explode.len();
        let mut k: usize = 0;
        while k < n
            invariant
                k <= n,
                n == explode@.len(),
                out@ =~= flatten_members(combines@.map_values(|c: Combine| c@)) + explode@.take(
                    k as int,
                ),
            decreases n - k,
        {
            out.push(explode[k]);
            k = k + 1;
        }
        proof {
            assert(explode@.take(n as int) =~= explode@);
        }
        out
    }

    /// Consumes the entry phase and begins convergence on `center`.
    pub fn transition_to_move_to_center(self, center: Point) -> (r: Self)
        requires
            self is Initialize,
        ensures
            r is MoveToCenter,
            r->MoveToCenter_center == center,
            r->MoveToCenter_combines == self->Initialize_combines,
            r->MoveToCenter_explode == self->Initialize_explode,
            r->MoveToCenter_elapsed_ms == 0,
    {
        match self {
            AnimateCombining::Initialize { combines, explode } => AnimateCombining::MoveToCenter {
                center,
                combines,
                explode,
                elapsed_ms: 0,
            },
            _ => vstd::pervasive::unreached(),
        }
    }

    /// Consumes the convergence phase and begins the scatter phase.
    pub fn transition_to_eject(self) -> (r: Self)
        requires
            self is MoveToCenter,
        ensures
            r is Eject,
            r->Eject_center == self->MoveToCenter_center,
            r->Eject_combines == self->MoveToCenter_combines,
            r->Eject_explode == self->MoveToCenter_explode,
    {
        match self {
            AnimateCombining::MoveToCenter { center, combines, explode, .. } => {
                AnimateCombining::Eject { center, combines, explode }
            },
            _ => vstd::pervasive::unreached(),
        }
    }

    /// Consumes the scatter phase and reaches the terminal phase.
    pub fn transition_to_done(self) -> (r: Self)
        requires
            self is Eject,
        ensures
            r is Done,
            r->Done_center == self->Eject_center,
            r->Done_combines == self->Eject_combines,
    {
        match self {
            AnimateCombining::Eject { center, combines, .. } => AnimateCombining::Done {
                center,
                combines,
            },
            _ => vstd::pervasive::unreached(),
        }
    }

    /// Advances the entry phase: computes the centroid of the involved
    /// entities' current positions (supplied by the caller in
    /// target-assignment order) and moves to convergence. The caller must
    /// disable collision on every involved entity and distribute its target
    /// points on the convergence circle around the returned center.
    pub fn initialize_step(self, positions: &Vec<Point>) -> (r: Self)
        requires
            self is Initialize,
            positions@.len() > 0,
        ensures
            r is MoveToCenter,
            r->MoveToCenter_center == (Point {
                x: spec_centroid(positions@).0 as i32,
                y: spec_centroid(positions@).1 as i32,
            }),
            r->MoveToCenter_combines == self->Initialize_combines,
            r->MoveToCenter_explode == self->Initialize_explode,
            r->MoveToCenter_elapsed_ms == 0,
    {
        let center = crate::geometry::centroid(positions);
        self.transition_to_move_to_center(center)
    }

    /// Advances the convergence phase by one tick of `delta_ms`
    /// milliseconds. The fixed timeout is the sole authority for moving on:
    /// once the elapsed time reaches it the session enters the scatter
    /// phase, whether or not every entity has arrived.
    pub fn move_to_center_step(self, delta_ms: u64) -> (r: Self)
        requires
            self is MoveToCenter,
        ensures
            self->MoveToCenter_elapsed_ms + delta_ms >= MOVE_TIMEOUT_MS ==> {
                &&& r is Eject
                &&& r->Eject_center == self->MoveToCenter_center
                &&& r->Eject_combines == self->MoveToCenter_combines
                &&& r->Eject_explode == self->MoveToCenter_explode
            },
            self->MoveToCenter_elapsed_ms + delta_ms < MOVE_TIMEOUT_MS ==> {
                &&& r is MoveToCenter
                &&& r->MoveToCenter_center == self->MoveToCenter_center
                &&& r->MoveToCenter_combines == self->MoveToCenter_combines
                &&& r->MoveToCenter_explode == self->MoveToCenter_explode
                &&& r->MoveToCenter_elapsed_ms == self->MoveToCenter_elapsed_ms + delta_ms
            },
    {
        match self {
            AnimateCombining::MoveToCenter { center, combines, explode, elapsed_ms } => {
                if delta_ms >= MOVE_TIMEOUT_MS || elapsed_ms >= MOVE_TIMEOUT_MS - delta_ms {
                    AnimateCombining::Eject { center, combines, explode }
                } else {
                    AnimateCombining::MoveToCenter {
                        center,
                        combines,
                        explode,
                        elapsed_ms: elapsed_ms + delta_ms,
                    }
                }
            },
            _ => vstd::pervasive::unreached(),
        }
    }

    /// Advances the scatter phase: every explode-set entity gets collision
    /// re-enabled and a fresh random velocity of large magnitude, and if
    /// anything scattered, every existing path must be cleared. The session
    /// then reaches the terminal phase unconditionally.
    pub fn eject_step(self) -> (r: (Self, EjectEffects))
        requires
            self is Eject,
        ensures
            r.0 is Done,
            r.0->Done_center == self->Eject_center,
            r.0->Done_combines == self->Eject_combines,
            r.1.ejections@.len() == self->Eject_explode@.len(),
            forall|k: int|
                0 <= k < r.1.ejections@.len() ==> (#[trigger] r.1.ejections@[k]).0
                    == self->Eject_explode@[k] && -EJECT_SPEED <= r.1.ejections@[k].1.x
                    < EJECT_SPEED && -EJECT_SPEED <= r.1.ejections@[k].1.y < EJECT_SPEED,
            r.1.clear_paths == (self->Eject_explode@.len() > 0),
    {
        match self {
            AnimateCombining::Eject { center, combines, explode } => {
                let n = explode.len();
                let mut ejections: Vec<(u64, Velocity)> = Vec::new();
                let mut k: usize = 0;
                while k < n
                    invariant
                        k <= n,
                        n == explode@.len(),
                        ejections@.len() == k,
                        forall|m: int|
                            0 <= m < k ==> (#[trigger] ejections@[m]).0 == explode@[m]
                                && -EJECT_SPEED <= ejections@[m].1.x < EJECT_SPEED && -EJECT_SPEED
                                <= ejections@[m].1.y < EJECT_SPEED,
                    decreases n - k,
                {
                    let vx = rand_range_i32(-EJECT_SPEED, EJECT_SPEED);
                    let vy = rand_range_i32(-EJECT_SPEED, EJECT_SPEED);
                    ejections.push((explode[k], Velocity { x: vx, y: vy }));
                    k = k + 1;
                }
                let clear_paths = n > 0;
                let next = AnimateCombining::Done { center, combines };
                (next, EjectEffects { ejections, clear_paths })
            },
            _ => vstd::pervasive::unreached(),
        }
    }

    /// Consumes the terminal phase: every group's members despawn, one
    /// entity of each group's resultant category spawns at the center with
    /// the group's averaged velocity, and a terminal-category fusion
    /// requests a fresh wave of entities.
    pub fn done_step(self) -> (r: DoneEffects)
        requires
            self is Done,
        ensures
            r.despawn@ == flatten_members(self->Done_combines@.map_values(|c: Combine| c@)),
            r.spawns@.len() == self->Done_combines@.len(),
            forall|k: int|
                0 <= k < r.spawns@.len() ==> #[trigger] r.spawns@[k] == (SpawnCommand {
                    new_type: self->Done_combines@[k].new_type,
                    position: self->Done_center,
                    velocity: self->Done_combines@[k].velocity,
                }),
            r.fresh_wave == any_terminal(self->Done_combines@.map_values(|c: Combine| c@)),
    {
        match self {
            AnimateCombining::Done { center, combines } => {
                let despawn = flatten_groups(&combines);
                let n = combines.len();
                let mut spawns: Vec<SpawnCommand> = Vec::new();
                let mut fresh_wave = false;
                let mut k: usize = 0;
                while k < n
                    invariant
                        k <= n,
                        n == combines@.len(),
                        spawns@.len() == k,
                        forall|m: int|
                            0 <= m < k ==> #[trigger] spawns@[m] == (SpawnCommand {
                                new_type: combines@[m].new_type,
                                position: center,
                                velocity: combines@[m].velocity,
                            }),
                        fresh_wave == exists|m: int|
                            0 <= m < k && (#[trigger] combines@[m]).new_type is White,
                    decreases n - k,
                {
                    let g = &combines[k];
                    spawns.push(
                        SpawnCommand { new_type: g.new_type, position: center, velocity: g.velocity },
                    );
                    if g.new_type == EnemyType::White {
                        fresh_wave = true;
                    }
                    k = k + 1;
                }
                proof {
                    let models = combines@.map_values(|c: Combine| c@);
                    assert(forall|m: int| 0 <= m < n ==> #[trigger] models[m] == combines@[m]@);
                    if fresh_wave {
                        let m = choose|m: int|
                            0 <= m < n && (#[trigger] combines@[m]).new_type is White;
                        assert(models[m].new_type is White);
                    }
                    if any_terminal(models) {
                        let m = choose|m: int|
                            0 <= m < models.len() && (#[trigger] models[m]).new_type is White;
                        assert(combines@[m].new_type is White);
                    }
                }
                DoneEffects { despawn, spawns, fresh_wave }
            },
            _ => vstd::pervasive::unreached(),
        }
    }
}

} // verus!
