use loopfuse::animation::AnimateCombining;
use loopfuse::animation::EJECT_SPEED;
use loopfuse::animation::MOVE_TIMEOUT_MS;
use loopfuse::animation::SpawnCommand;
use loopfuse::category::EnemyType;
use loopfuse::entity::Velocity;
use loopfuse::fusion::Combine;
use loopfuse::geometry::Point;
use loopfuse::registry::LivePaths;

fn p(x: i32, y: i32) -> Point {
    Point { x, y }
}

fn v(x: i32, y: i32) -> Velocity {
    Velocity { x, y }
}

fn pair_group(a: u64, b: u64, new_type: EnemyType, velocity: Velocity) -> Combine {
    Combine { entities: vec![a, b], new_type, velocity }
}

#[test]
fn involved_lists_groups_then_explode() {
    let session = AnimateCombining::Initialize {
        combines: vec![
            pair_group(1, 2, EnemyType::White, v(0, 0)),
            pair_group(3, 4, EnemyType::Yellow, v(0, 0)),
        ],
        explode: vec![9, 8],
    };
    assert_eq!(session.involved(), vec![1, 2, 3, 4, 9, 8]);
}

#[test]
fn initialize_step_centers_on_the_centroid() {
    let session = AnimateCombining::Initialize {
        combines: vec![pair_group(1, 2, EnemyType::White, v(0, 0))],
        explode: Vec::new(),
    };
    let positions: Vec<Point> = vec![p(2000, 2000), p(8000, 4000)];
    match session.initialize_step(&positions) {
        AnimateCombining::MoveToCenter { center, combines, explode, elapsed_ms } => {
            assert_eq!(center, p(5000, 3000));
            assert_eq!(combines.len(), 1);
            assert!(explode.is_empty());
            assert_eq!(elapsed_ms, 0);
        }
        other => panic!("expected the convergence phase, got {:?}", other),
    }
}

#[test]
fn timeout_gates_the_move_phase() {
    let mut session = AnimateCombining::Initialize {
        combines: vec![pair_group(1, 2, EnemyType::White, v(0, 0))],
        explode: Vec::new(),
    };
    let positions: Vec<Point> = vec![p(0, 0), p(10000, 0)];
    session = session.initialize_step(&positions);
    session = session.move_to_center_step(200);
    match &session {
        AnimateCombining::MoveToCenter { elapsed_ms, .. } => assert_eq!(*elapsed_ms, 200),
        other => panic!("expected the convergence phase, got {:?}", other),
    }
    session = session.move_to_center_step(MOVE_TIMEOUT_MS - 201);
    match &session {
        AnimateCombining::MoveToCenter { elapsed_ms, .. } => {
            assert_eq!(*elapsed_ms, MOVE_TIMEOUT_MS - 1)
        }
        other => panic!("expected the convergence phase, got {:?}", other),
    }
    session = session.move_to_center_step(1);
    match &session {
        AnimateCombining::Eject { center, .. } => assert_eq!(*center, p(5000, 0)),
        other => panic!("expected the scatter phase, got {:?}", other),
    }
}

#[test]
fn eject_scatters_explode_set_and_clears_paths() {
    let session = AnimateCombining::Eject {
        center: p(0, 0),
        combines: Vec::new(),
        explode: vec![7, 8, 9],
    };
    let (next, effects) = session.eject_step();
    assert!(matches!(next, AnimateCombining::Done { .. }));
    assert!(effects.clear_paths);
    assert_eq!(effects.ejections.len(), 3);
    let ids: Vec<u64> = effects.ejections.iter().map(|e| e.0).collect();
    assert_eq!(ids, vec![7, 8, 9]);
    for (_, vel) in &effects.ejections {
        assert!(vel.x >= -EJECT_SPEED && vel.x < EJECT_SPEED);
        assert!(vel.y >= -EJECT_SPEED && vel.y < EJECT_SPEED);
    }
    // A scatter invalidates every in-progress drawing.
    let mut live = LivePaths::default();
    live.on_path_created(1);
    live.on_path_created(2);
    if effects.clear_paths {
        live.clear();
    }
    assert_eq!(live.len(), 0);
}

#[test]
fn eject_without_explosions_keeps_paths() {
    let session = AnimateCombining::Eject {
        center: p(0, 0),
        combines: vec![pair_group(1, 2, EnemyType::White, v(0, 0))],
        explode: Vec::new(),
    };
    let (_, effects) = session.eject_step();
    assert!(!effects.clear_paths);
    assert!(effects.ejections.is_empty());
}

#[test]
fn done_spawns_results_and_requests_wave_on_terminal() {
    let session = AnimateCombining::Done {
        center: p(4000, 4000),
        combines: vec![
            pair_group(1, 2, EnemyType::Yellow, v(10, 20)),
            pair_group(3, 4, EnemyType::White, v(-30, 0)),
        ],
    };
    let effects = session.done_step();
    assert_eq!(effects.despawn, vec![1, 2, 3, 4]);
    assert_eq!(
        effects.spawns,
        vec![
            SpawnCommand { new_type: EnemyType::Yellow, position: p(4000, 4000), velocity: v(10, 20) },
            SpawnCommand { new_type: EnemyType::White, position: p(4000, 4000), velocity: v(-30, 0) },
        ]
    );
    assert!(effects.fresh_wave);
}

#[test]
fn done_without_terminal_fusion_requests_no_wave() {
    let session = AnimateCombining::Done {
        center: p(0, 0),
        combines: vec![pair_group(1, 2, EnemyType::Purple, v(0, 0))],
    };
    let effects = session.done_step();
    assert!(!effects.fresh_wave);
    assert_eq!(effects.despawn, vec![1, 2]);
}

#[test]
fn full_session_for_a_two_capture() {
    // The 2-capture scenario run through every phase: Red and its
    // complement fuse into the terminal category and a fresh wave follows.
    let combines = vec![pair_group(2, 1, EnemyType::White, v(200, 100))];
    let mut session = AnimateCombining::Initialize { combines, explode: Vec::new() };
    assert_eq!(session.involved(), vec![2, 1]);
    let positions: Vec<Point> = vec![p(15000, 15000), p(5000, 5000)];
    session = session.initialize_step(&positions);
    session = session.move_to_center_step(MOVE_TIMEOUT_MS);
    let (session, effects) = session.eject_step();
    assert!(effects.ejections.is_empty());
    assert!(!effects.clear_paths);
    let done = session.done_step();
    assert_eq!(done.despawn, vec![2, 1]);
    assert_eq!(done.spawns.len(), 1);
    assert_eq!(done.spawns[0].new_type, EnemyType::White);
    assert_eq!(done.spawns[0].position, p(10000, 10000));
    assert_eq!(done.spawns[0].velocity, v(200, 100));
    assert!(done.fresh_wave);
}
