use loopfuse::category::EnemyType;
use loopfuse::category::EnemyType::Blue;
use loopfuse::category::EnemyType::Cyan;
use loopfuse::category::EnemyType::Green;
use loopfuse::category::EnemyType::Purple;
use loopfuse::category::EnemyType::Red;
use loopfuse::category::EnemyType::White;
use loopfuse::category::EnemyType::Yellow;
use loopfuse::containment::find_contained;
use loopfuse::entity::CapturedEntity;
use loopfuse::entity::Velocity;
use loopfuse::fusion::CaptureOutcome;
use loopfuse::fusion::resolve_groups;
use loopfuse::fusion::check_areas;
use loopfuse::geometry::Point;
use loopfuse::path::DrawPath;
use loopfuse::path::Path;

fn p(x: i32, y: i32) -> Point {
    Point { x, y }
}

fn v(x: i32, y: i32) -> Velocity {
    Velocity { x, y }
}

fn ent(id: u64, typ: EnemyType, pos: Point, vel: Velocity) -> CapturedEntity {
    CapturedEntity { entity: id, typ, pos, vel }
}

fn closed_square(pen: u64) -> Path {
    Path {
        pen,
        points: vec![p(0, 0), p(20000, 0), p(20000, 20000), p(0, 20000)],
        remainder: None,
        closed: true,
    }
}

#[test]
fn pair_combine_follows_the_fixed_table() {
    assert_eq!(Red.pair_combine(Green), Some(Yellow));
    assert_eq!(Green.pair_combine(Red), Some(Yellow));
    assert_eq!(Red.pair_combine(Blue), Some(Purple));
    assert_eq!(Green.pair_combine(Blue), Some(Cyan));
    assert_eq!(Red.pair_combine(Cyan), Some(White));
    assert_eq!(Green.pair_combine(Purple), Some(White));
    assert_eq!(Blue.pair_combine(Yellow), Some(White));
    // Identical or unlisted pairs never combine.
    assert_eq!(Red.pair_combine(Red), None);
    assert_eq!(Yellow.pair_combine(Cyan), None);
    assert_eq!(White.pair_combine(Red), None);
    assert_eq!(Purple.pair_combine(Red), None);
}

#[test]
fn complement_pairs_are_mutual_and_symmetric() {
    let all: [EnemyType; 7] = [Red, Green, Blue, Purple, Yellow, Cyan, White];
    for a in all {
        match a.complement() {
            Some(b) => {
                assert_eq!(b.complement(), Some(a));
                assert_eq!(a.pair_combine(b), b.pair_combine(a));
                assert_eq!(a.pair_combine(b), Some(White));
            }
            None => assert_eq!(a, White),
        }
    }
}

#[test]
fn primaries_are_exactly_red_green_blue() {
    assert!(Red.is_primary());
    assert!(Green.is_primary());
    assert!(Blue.is_primary());
    assert!(!Purple.is_primary());
    assert!(!Yellow.is_primary());
    assert!(!Cyan.is_primary());
    assert!(!White.is_primary());
}

#[test]
fn check_combine_pairs_and_triples() {
    let two: Vec<CapturedEntity> = vec![
        ent(1, Red, p(0, 0), v(100, 0)),
        ent(2, Green, p(10000, 0), v(300, 200)),
    ];
    assert_eq!(
        EnemyType::check_combine(&two),
        Some((Yellow, p(5000, 0), v(200, 100)))
    );
    let clash: Vec<CapturedEntity> = vec![
        ent(1, Red, p(0, 0), v(0, 0)),
        ent(2, Red, p(10000, 0), v(0, 0)),
    ];
    assert_eq!(EnemyType::check_combine(&clash), None);
    let three: Vec<CapturedEntity> = vec![
        ent(1, Red, p(0, 0), v(30, 0)),
        ent(2, Green, p(3000, 0), v(60, 0)),
        ent(3, Blue, p(6000, 0), v(90, 0)),
    ];
    assert_eq!(
        EnemyType::check_combine(&three),
        Some((White, p(3000, 0), v(60, 0)))
    );
    let three_dup: Vec<CapturedEntity> = vec![
        ent(1, Red, p(0, 0), v(0, 0)),
        ent(2, Green, p(0, 0), v(0, 0)),
        ent(3, Green, p(0, 0), v(0, 0)),
    ];
    assert_eq!(EnemyType::check_combine(&three_dup), None);
    let one: Vec<CapturedEntity> = vec![ent(1, Red, p(0, 0), v(0, 0))];
    assert_eq!(EnemyType::check_combine(&one), None);
    let none: Vec<CapturedEntity> = Vec::new();
    assert_eq!(EnemyType::check_combine(&none), None);
}

#[test]
fn containment_is_order_independent() {
    let square: Vec<Point> = vec![p(0, 0), p(20000, 0), p(20000, 20000), p(0, 20000)];
    let a = ent(1, EnemyType::Red, p(5000, 5000), v(0, 0));
    let b = ent(2, EnemyType::Blue, p(15000, 15000), v(0, 0));
    let c = ent(3, EnemyType::Green, p(25000, 5000), v(0, 0));
    let one_order: Vec<CapturedEntity> = vec![a, b, c];
    let other_order: Vec<CapturedEntity> = vec![c, b, a];
    let mut r1: Vec<u64> = find_contained(&square, &one_order)
        .iter()
        .map(|e| e.entity)
        .collect();
    let mut r2: Vec<u64> = find_contained(&square, &other_order)
        .iter()
        .map(|e| e.entity)
        .collect();
    r1.sort();
    r2.sort();
    assert_eq!(r1, vec![1, 2]);
    assert_eq!(r1, r2);
}

#[test]
fn fusion_conserves_entities_on_mixed_pool() {
    let pool: Vec<CapturedEntity> = vec![
        ent(1, Red, p(0, 0), v(0, 0)),
        ent(2, Red, p(0, 0), v(0, 0)),
        ent(3, Cyan, p(0, 0), v(0, 0)),
        ent(4, Yellow, p(0, 0), v(0, 0)),
        ent(5, Green, p(0, 0), v(0, 0)),
        ent(6, Blue, p(0, 0), v(0, 0)),
    ];
    let (combines, explode) = resolve_groups(pool);
    let group_total: usize = combines.iter().map(|g| g.entities.len()).sum();
    assert_eq!(group_total + explode.len(), 6);
    let mut seen: Vec<u64> = Vec::new();
    for g in &combines {
        assert!(g.entities.len() == 2 || g.entities.len() == 3);
        seen.extend(g.entities.iter().copied());
    }
    seen.extend(explode.iter().copied());
    seen.sort();
    assert_eq!(seen, vec![1, 2, 3, 4, 5, 6]);
}

#[test]
fn resolver_pops_most_recent_first() {
    // Two Reds and one Cyan: the most recently captured Red wins the Cyan.
    let pool: Vec<CapturedEntity> = vec![
        ent(1, Red, p(0, 0), v(0, 0)),
        ent(2, Cyan, p(0, 0), v(0, 0)),
        ent(3, Red, p(0, 0), v(0, 0)),
    ];
    let (combines, explode) = resolve_groups(pool);
    assert_eq!(combines.len(), 1);
    assert_eq!(combines[0].entities, vec![3, 2]);
    assert_eq!(explode, vec![1]);
}

#[test]
fn resolver_empty_pool_yields_nothing() {
    let (combines, explode) = resolve_groups(Vec::new());
    assert!(combines.is_empty());
    assert!(explode.is_empty());
}

#[test]
fn two_capture_scenario_forms_terminal_pair() {
    let mut path = closed_square(1);
    let mut pen = DrawPath { active: true, path: Some(50) };
    let entities: Vec<CapturedEntity> = vec![
        ent(1, Red, p(5000, 5000), v(100, 0)),
        ent(2, Cyan, p(15000, 15000), v(300, 200)),
        ent(3, Red, p(25000, 25000), v(0, 0)),
    ];
    match check_areas(&mut path, &mut pen, 50, &entities) {
        CaptureOutcome::Resolved { combines, explode } => {
            assert_eq!(combines.len(), 1);
            assert_eq!(combines[0].entities, vec![2, 1]);
            assert_eq!(combines[0].new_type, White);
            assert_eq!(combines[0].velocity, v(200, 100));
            assert!(explode.is_empty());
        }
        other => panic!("expected a resolved capture, got {:?}", other),
    }
    // Path and pen are untouched; the animation session takes over.
    assert!(path.closed);
    assert!(pen.active);
}

#[test]
fn abandon_scenario_deactivates_on_single_capture() {
    let mut path = closed_square(1);
    let mut pen = DrawPath { active: true, path: Some(50) };
    let entities: Vec<CapturedEntity> = vec![ent(1, Red, p(5000, 5000), v(0, 0))];
    assert_eq!(
        check_areas(&mut path, &mut pen, 50, &entities),
        CaptureOutcome::Deactivated
    );
    assert!(!pen.active);
    assert_eq!(pen.path, None);
    assert!(path.closed);
}

#[test]
fn triple_primary_scenario_forms_terminal_triple() {
    let mut path = closed_square(1);
    let mut pen = DrawPath { active: true, path: Some(50) };
    let entities: Vec<CapturedEntity> = vec![
        ent(1, Red, p(2000, 2000), v(30, 0)),
        ent(2, Green, p(10000, 10000), v(60, 0)),
        ent(3, Blue, p(18000, 18000), v(90, 0)),
    ];
    match check_areas(&mut path, &mut pen, 50, &entities) {
        CaptureOutcome::Resolved { combines, explode } => {
            assert_eq!(combines.len(), 1);
            assert_eq!(combines[0].entities, vec![3, 1, 2]);
            assert_eq!(combines[0].new_type, White);
            assert_eq!(combines[0].velocity, v(60, 0));
            assert!(explode.is_empty());
        }
        other => panic!("expected a resolved capture, got {:?}", other),
    }
}

#[test]
fn partial_capture_scenario_explodes_both() {
    let mut path = closed_square(1);
    let mut pen = DrawPath { active: true, path: Some(50) };
    let entities: Vec<CapturedEntity> = vec![
        ent(1, Red, p(5000, 5000), v(0, 0)),
        ent(2, Yellow, p(15000, 15000), v(0, 0)),
    ];
    match check_areas(&mut path, &mut pen, 50, &entities) {
        CaptureOutcome::Resolved { combines, explode } => {
            assert!(combines.is_empty());
            assert_eq!(explode, vec![2, 1]);
        }
        other => panic!("expected a resolved capture, got {:?}", other),
    }
}

#[test]
fn empty_capture_on_pens_path_resumes_from_remainder() {
    let remainder: Vec<Point> = vec![p(30000, 30000), p(40000, 30000)];
    let mut path = Path {
        pen: 1,
        points: vec![p(0, 0), p(20000, 0), p(20000, 20000), p(0, 20000)],
        remainder: Some(remainder.clone()),
        closed: true,
    };
    let mut pen = DrawPath { active: true, path: Some(50) };
    let entities: Vec<CapturedEntity> = Vec::new();
    assert_eq!(
        check_areas(&mut path, &mut pen, 50, &entities),
        CaptureOutcome::Reopened
    );
    assert!(!path.closed);
    assert_eq!(path.points, remainder);
    assert!(path.remainder.is_none());
    assert!(pen.active);
}

#[test]
fn empty_capture_without_remainder_deactivates() {
    let mut path = closed_square(1);
    let mut pen = DrawPath { active: true, path: Some(50) };
    let entities: Vec<CapturedEntity> = Vec::new();
    assert_eq!(
        check_areas(&mut path, &mut pen, 50, &entities),
        CaptureOutcome::Deactivated
    );
    assert!(!pen.active);
    assert!(path.closed);
}

#[test]
fn empty_capture_on_background_loop_removes_closed_marker() {
    let mut path = closed_square(1);
    let points_before = path.points.clone();
    let mut pen = DrawPath { active: true, path: Some(99) };
    let entities: Vec<CapturedEntity> = Vec::new();
    assert_eq!(
        check_areas(&mut path, &mut pen, 50, &entities),
        CaptureOutcome::BackgroundReopened
    );
    // The loop reopens so it can continue evolving; its trail and the pen
    // are untouched.
    assert!(!path.closed);
    assert_eq!(path.points, points_before);
    assert!(path.remainder.is_none());
    assert!(pen.active);
    assert_eq!(pen.path, Some(99));
}
