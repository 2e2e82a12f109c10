use case_crawler::error::FetchError;
use case_crawler::limiter::Limiter;
use case_crawler::pipeline::{assemble_output, combine_identifiers, start_run};
use case_crawler::stage::StageRunner;

fn search_stub(partition: &str) -> Result<Vec<u64>, FetchError> {
    match partition {
        "Alaska" => Ok(vec![1, 2]),
        _ => Err(FetchError::Transport),
    }
}

fn fetch_stub(id: u64) -> Result<String, FetchError> {
    if id == 2 {
        Err(FetchError::BadResponse)
    } else {
        Ok(format!("body-{id}"))
    }
}

#[test]
fn discovery_failure_is_fatal_and_alone() {
    let limiter = Limiter::new(5);
    let run = start_run(Err(FetchError::Transport), limiter);
    match run {
        Err(e) => assert!(matches!(e, FetchError::Transport)),
        Ok(_) => panic!("a failed discovery must not set a stage up"),
    }
}

#[test]
fn failed_partition_is_reported_and_the_rest_reach_stage_two() {
    let limiter = Limiter::new(5);
    let discovery = Ok(vec!["Alaska".to_string(), "Texas".to_string()]);
    let mut stage_one = match start_run(discovery, limiter) {
        Ok(s) => s,
        Err(_) => panic!("discovery succeeded"),
    };
    while stage_one.can_launch() {
        let i = stage_one.launch();
        let partition = stage_one.item(i).clone();
        match search_stub(&partition) {
            Ok(ids) => stage_one.record_success(i, ids),
            Err(e) => stage_one.record_failure(i, e),
        }
    }
    assert!(stage_one.done());
    let (stage_one_result, limiter) = stage_one.finish();
    let (ids, failed_partitions) = combine_identifiers(stage_one_result);
    assert_eq!(ids, vec![1, 2]);
    assert_eq!(failed_partitions.len(), 1);
    assert_eq!(failed_partitions[0].0, "Texas");
    assert!(matches!(failed_partitions[0].1, FetchError::Transport));

    // the surviving identifiers go on to the body stage unchanged
    let mut stage_two: StageRunner<u64, String> = StageRunner::new(ids, limiter);
    assert_eq!(stage_two.input_len(), 2);
    while stage_two.can_launch() {
        let i = stage_two.launch();
        let id = *stage_two.item(i);
        stage_two.record_success(i, format!("body-{id}"));
    }
    let (stage_two_result, _) = stage_two.finish();
    let output = assemble_output(stage_two_result, failed_partitions);
    assert_eq!(
        output.bodies,
        vec!["body-1".to_string(), "body-2".to_string()]
    );
    assert!(output.failed_identifiers.is_empty());
    assert_eq!(output.failed_partitions.len(), 1);
}

#[test]
fn one_bad_record_leaves_its_siblings_untouched() {
    let limiter = Limiter::new(5);
    let ids: Vec<u64> = vec![1, 2, 3];
    let mut stage_two: StageRunner<u64, String> = StageRunner::new(ids, limiter);
    while stage_two.can_launch() {
        let i = stage_two.launch();
        let id = *stage_two.item(i);
        match fetch_stub(id) {
            Ok(body) => stage_two.record_success(i, body),
            Err(e) => stage_two.record_failure(i, e),
        }
    }
    assert!(stage_two.done());
    let (result, _) = stage_two.finish();
    let output = assemble_output(result, Vec::new());
    assert_eq!(
        output.bodies,
        vec!["body-1".to_string(), "body-3".to_string()]
    );
    assert_eq!(
        output.failed_identifiers,
        vec![(2, FetchError::BadResponse)]
    );
    assert!(output.failed_partitions.is_empty());
}

#[test]
fn an_empty_partition_list_makes_a_trivial_successful_run() {
    let limiter = Limiter::new(5);
    let discovery: Result<Vec<String>, FetchError> = Ok(Vec::new());
    let stage_one = match start_run(discovery, limiter) {
        Ok(s) => s,
        Err(_) => panic!("discovery succeeded"),
    };
    assert!(stage_one.done());
    let (stage_one_result, limiter) = stage_one.finish();
    let (ids, failed_partitions) = combine_identifiers(stage_one_result);
    assert!(ids.is_empty());
    assert!(failed_partitions.is_empty());
    let stage_two: StageRunner<u64, String> = StageRunner::new(ids, limiter);
    assert!(stage_two.done());
    let (stage_two_result, _) = stage_two.finish();
    let output = assemble_output(stage_two_result, failed_partitions);
    assert!(output.bodies.is_empty());
    assert!(output.failed_identifiers.is_empty());
    assert!(output.failed_partitions.is_empty());
}

#[test]
fn batch_order_within_a_partition_is_preserved() {
    let limiter = Limiter::new(2);
    let discovery = Ok(vec!["North".to_string(), "South".to_string()]);
    let mut stage_one = match start_run(discovery, limiter) {
        Ok(s) => s,
        Err(_) => panic!("discovery succeeded"),
    };
    let a = stage_one.launch();
    let b = stage_one.launch();
    // completions may arrive in any order across partitions
    stage_one.record_success(b, vec![30, 31]);
    stage_one.record_success(a, vec![10, 11, 12]);
    let (result, _) = stage_one.finish();
    let (ids, failed) = combine_identifiers(result);
    assert_eq!(ids, vec![30, 31, 10, 11, 12]);
    assert!(failed.is_empty());
}
