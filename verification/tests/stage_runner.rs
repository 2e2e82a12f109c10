use case_crawler::error::FetchError;
use case_crawler::limiter::Limiter;
use case_crawler::stage::StageRunner;

#[test]
fn every_input_gets_exactly_one_outcome() {
    let limiter = Limiter::new(5);
    let inputs: Vec<u64> = vec![10, 20, 30, 40];
    let mut runner: StageRunner<u64, u64> = StageRunner::new(inputs, limiter);
    assert_eq!(runner.input_len(), 4);
    let mut launched: Vec<usize> = Vec::new();
    while runner.can_launch() {
        launched.push(runner.launch());
    }
    assert_eq!(launched, vec![0, 1, 2, 3]);
    runner.record_success(0, 100);
    runner.record_failure(1, FetchError::Transport);
    runner.record_success(2, 300);
    runner.record_failure(3, FetchError::RemoteStatus(404));
    assert!(runner.done());
    let (result, limiter_back) = runner.finish();
    assert_eq!(result.successes.len() + result.failures.len(), 4);
    assert_eq!(result.successes, vec![(0, 100), (2, 300)]);
    assert_eq!(
        result.failures,
        vec![(1, FetchError::Transport), (3, FetchError::RemoteStatus(404))]
    );
    assert!(limiter_back.is_idle());
}

#[test]
fn admission_never_exceeds_the_limit() {
    let limiter = Limiter::new(2);
    let inputs: Vec<u64> = vec![1, 2, 3, 4, 5];
    let mut runner: StageRunner<u64, u64> = StageRunner::new(inputs, limiter);
    let a = runner.launch();
    assert!(runner.can_launch());
    let b = runner.launch();
    // both slots are taken: a third launch is refused until one settles
    assert!(!runner.can_launch());
    runner.record_success(a, 11);
    assert!(runner.can_launch());
    let c = runner.launch();
    assert!(!runner.can_launch());
    runner.record_failure(b, FetchError::BadResponse);
    runner.record_success(c, 33);
    assert!(runner.can_launch());
    let d = runner.launch();
    let e = runner.launch();
    runner.record_success(d, 44);
    runner.record_success(e, 55);
    assert!(runner.done());
    let (result, _) = runner.finish();
    assert_eq!(result.successes.len(), 4);
    assert_eq!(result.failures.len(), 1);
}

#[test]
fn an_empty_stage_is_complete_at_once() {
    let limiter = Limiter::new(3);
    let inputs: Vec<String> = Vec::new();
    let runner: StageRunner<String, Vec<u64>> = StageRunner::new(inputs, limiter);
    assert!(!runner.can_launch());
    assert!(runner.done());
    let (result, limiter_back) = runner.finish();
    assert!(result.successes.is_empty());
    assert!(result.failures.is_empty());
    assert!(limiter_back.is_idle());
}

#[test]
fn items_are_handed_out_and_tracked_by_index() {
    let limiter = Limiter::new(4);
    let inputs: Vec<String> = vec!["Alaska".to_string(), "Texas".to_string()];
    let mut runner: StageRunner<String, Vec<u64>> = StageRunner::new(inputs, limiter);
    let i = runner.launch();
    assert_eq!(runner.item(i), "Alaska");
    assert!(runner.is_running(i));
    assert!(!runner.is_running(1));
    runner.record_success(i, vec![7]);
    assert!(!runner.is_running(i));
}

#[test]
fn limiter_slots_are_counted() {
    let mut limiter = Limiter::new(2);
    assert!(limiter.is_idle());
    assert!(limiter.has_free_slot());
    limiter.acquire();
    assert!(!limiter.is_idle());
    assert!(limiter.has_free_slot());
    limiter.acquire();
    assert!(!limiter.has_free_slot());
    limiter.release();
    assert!(limiter.has_free_slot());
    limiter.release();
    assert!(limiter.is_idle());
}
