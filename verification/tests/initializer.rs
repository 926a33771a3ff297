use il2cpp_bridge_rs::initializer::{InitStep, Initializer};
use il2cpp_bridge_rs::startup::InitState;

fn step_name(s: &InitStep<u32>) -> String {
    match s {
        InitStep::RunNow(c) => format!("run {}", c),
        InitStep::Queued => "queued".to_string(),
        InitStep::StartWorker => "start".to_string(),
    }
}

#[test]
fn first_call_starts_worker_and_records_target() {
    let mut init: Initializer<u32> = Initializer::new();
    let (s, recorded) = init.call("GameAssembly", 1);
    assert_eq!(step_name(&s), "start");
    assert!(recorded);
    let (s, recorded) = init.call("UnityFramework", 2);
    assert_eq!(step_name(&s), "queued");
    assert!(!recorded);
    assert_eq!(init.target.as_deref(), Some("GameAssembly"));
    assert_eq!(init.queued, vec![1, 2]);
    assert!(matches!(init.state, InitState::Running));
}

#[test]
fn success_runs_queue_in_order_then_runs_at_once() {
    let mut init: Initializer<u32> = Initializer::new();
    init.call("GameAssembly", 1);
    init.call("GameAssembly", 2);
    init.call("GameAssembly", 3);
    assert_eq!(init.worker_ended(true), vec![1, 2, 3]);
    assert!(init.queued.is_empty());
    assert!(matches!(init.state, InitState::Done));
    let (s, _) = init.call("GameAssembly", 4);
    assert_eq!(step_name(&s), "run 4");
    assert!(init.queued.is_empty());
}

#[test]
fn failure_drops_queue_and_allows_retry() {
    let mut init: Initializer<u32> = Initializer::new();
    init.call("GameAssembly", 1);
    init.call("GameAssembly", 2);
    assert!(init.worker_ended(false).is_empty());
    assert!(init.queued.is_empty());
    assert!(matches!(init.state, InitState::Idle));
    let (s, recorded) = init.call("Other", 3);
    assert_eq!(step_name(&s), "start");
    assert!(!recorded);
    assert_eq!(init.worker_ended(true), vec![3]);
    assert_eq!(init.target.as_deref(), Some("GameAssembly"));
}
