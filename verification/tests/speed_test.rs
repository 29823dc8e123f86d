use dns_manager::executor::{AsyncExecutor, SpeedTestState};
use dns_manager::providers::get_dns_providers;
use dns_manager::speedtest::{average_ping, rank_results, ranks_first, SpeedTestResult};

fn result(name: &str, avg: Option<u64>) -> SpeedTestResult {
    SpeedTestResult {
        provider: name.to_string(),
        primary_ping: None,
        secondary_ping: None,
        avg_ping: avg,
    }
}

fn names(results: &[SpeedTestResult]) -> Vec<&str> {
    results.iter().map(|r| r.provider.as_str()).collect()
}

#[test]
fn the_mean_of_the_samples_that_are_present() {
    // 10 ms alone, none at all, and 10 ms with 20 ms.
    assert_eq!(average_ping(Some(10_000), None), Some(10_000_000));
    assert_eq!(average_ping(None, Some(10_000)), Some(10_000_000));
    assert_eq!(average_ping(None, None), None);
    assert_eq!(average_ping(Some(10_000), Some(20_000)), Some(15_000_000));
}

#[test]
fn the_mean_is_exact_and_never_overflows() {
    assert_eq!(average_ping(Some(1), Some(2)), Some(1_500));
    assert_eq!(average_ping(Some(0), Some(0)), Some(0));
    assert_eq!(average_ping(Some(0), None), Some(0));
    assert_eq!(average_ping(Some(u32::MAX), Some(u32::MAX)), Some(u32::MAX as u64 * 1000));
    assert_eq!(average_ping(Some(u32::MAX), Some(0)), Some(u32::MAX as u64 * 500));
}

#[test]
fn a_measured_result_holds_its_samples_and_their_mean() {
    let r = SpeedTestResult::measured("Quad9".to_string(), Some(12_000), None);
    assert_eq!(r.provider, "Quad9");
    assert_eq!(r.primary_ping, Some(12_000));
    assert_eq!(r.secondary_ping, None);
    assert_eq!(r.avg_ping, Some(12_000_000));
    let none = SpeedTestResult::measured("x".to_string(), None, None);
    assert_eq!(none.avg_ping, None);
}

#[test]
fn absent_averages_rank_last() {
    let ranked = rank_results(vec![result("a", None), result("b", Some(5_000_000)), result("c", Some(1_000_000))]);
    let avgs: Vec<Option<u64>> = ranked.iter().map(|r| r.avg_ping).collect();
    assert_eq!(avgs, vec![Some(1_000_000), Some(5_000_000), None]);
    assert_eq!(names(&ranked), vec!["c", "b", "a"]);
}

#[test]
fn equal_averages_keep_their_order() {
    let ranked = rank_results(vec![
        result("n1", None),
        result("a", Some(7)),
        result("n2", None),
        result("b", Some(7)),
        result("c", Some(3)),
        result("d", Some(7)),
        result("n3", None),
    ]);
    assert_eq!(names(&ranked), vec!["c", "a", "b", "d", "n1", "n2", "n3"]);
}

#[test]
fn ranking_nothing_and_one() {
    assert!(rank_results(Vec::new()).is_empty());
    let one = rank_results(vec![result("only", None)]);
    assert_eq!(names(&one), vec!["only"]);
}

#[test]
fn the_order_of_averages() {
    assert!(ranks_first(Some(1), Some(2)));
    assert!(!ranks_first(Some(2), Some(2)));
    assert!(!ranks_first(Some(3), Some(2)));
    assert!(ranks_first(Some(u64::MAX), None));
    assert!(!ranks_first(None, Some(0)));
    assert!(!ranks_first(None, None));
}

#[test]
fn a_test_runs_from_idle_to_completed() {
    let providers = get_dns_providers();
    let mut executor = AsyncExecutor::new();
    assert!(matches!(executor.get_speed_test_state(), SpeedTestState::Idle));
    assert!(executor.start_speed_test(&providers));
    assert!(matches!(
        executor.get_speed_test_state(),
        SpeedTestState::Running { progress: 0, total: 6 }
    ));
    let samples: [(Option<u32>, Option<u32>); 6] = [
        (Some(30_000), Some(10_000)),
        (None, None),
        (Some(5_000), None),
        (None, Some(20_000)),
        (Some(20_000), Some(20_000)),
        (None, None),
    ];
    for (i, provider) in providers.iter().enumerate() {
        let next = executor.next_probe().unwrap();
        assert_eq!(next.name, provider.name);
        assert_eq!(next.primary, provider.primary);
        assert_eq!(next.secondary, provider.secondary);
        executor.record_result(samples[i].0, samples[i].1);
        if i < 5 {
            match executor.get_speed_test_state() {
                SpeedTestState::Running { progress, total } => {
                    assert_eq!((progress, total), (i + 1, 6));
                }
                other => panic!("unexpected: {:?}", other),
            }
        }
    }
    match executor.get_speed_test_state() {
        SpeedTestState::Completed(results) => {
            assert_eq!(
                names(&results),
                vec!["Quad9", "Cloudflare", "OpenDNS", "AdGuard", "Google", "CleanBrowsing"]
            );
            assert_eq!(results[0].avg_ping, Some(5_000_000));
            assert_eq!(results[1].avg_ping, Some(20_000_000));
            assert_eq!(results[1].primary_ping, Some(30_000));
            assert_eq!(results[1].secondary_ping, Some(10_000));
            assert_eq!(results[4].avg_ping, None);
        }
        other => panic!("unexpected: {:?}", other),
    }
    // Polling again gives the same.
    assert!(matches!(executor.get_speed_test_state(), SpeedTestState::Completed(_)));
    assert!(executor.next_probe().is_none());
    executor.reset_speed_test();
    assert!(matches!(executor.get_speed_test_state(), SpeedTestState::Idle));
}

#[test]
fn starting_while_running_changes_nothing() {
    let providers = get_dns_providers();
    let mut executor = AsyncExecutor::new();
    assert!(executor.start_speed_test(&providers));
    executor.record_result(Some(1), Some(2));
    assert!(!executor.start_speed_test(&Vec::new()));
    assert_eq!(executor.next_probe().unwrap().name, "Google");
    assert!(!executor.start_speed_test(&providers));
    assert!(matches!(
        executor.get_speed_test_state(),
        SpeedTestState::Running { progress: 1, total: 6 }
    ));
}

#[test]
fn a_test_of_no_service_is_complete_at_once() {
    let mut executor = AsyncExecutor::new();
    assert!(executor.start_speed_test(&Vec::new()));
    match executor.get_speed_test_state() {
        SpeedTestState::Completed(results) => assert!(results.is_empty()),
        other => panic!("unexpected: {:?}", other),
    }
}

#[test]
fn results_are_ignored_unless_a_test_runs() {
    let mut executor = AsyncExecutor::new();
    assert!(executor.next_probe().is_none());
    executor.record_result(Some(1), None);
    assert!(matches!(executor.get_speed_test_state(), SpeedTestState::Idle));
    executor.fail("nothing runs".to_string());
    assert!(matches!(executor.get_speed_test_state(), SpeedTestState::Idle));
}

#[test]
fn a_running_test_can_fail_and_be_started_again() {
    let providers = get_dns_providers();
    let mut executor = AsyncExecutor::new();
    executor.start_speed_test(&providers);
    executor.record_result(Some(1), None);
    executor.fail("worker lost".to_string());
    match executor.get_speed_test_state() {
        SpeedTestState::Failed(reason) => assert_eq!(reason, "worker lost"),
        other => panic!("unexpected: {:?}", other),
    }
    assert!(executor.next_probe().is_none());
    executor.record_result(Some(1), None);
    assert!(matches!(executor.get_speed_test_state(), SpeedTestState::Failed(_)));
    assert!(executor.start_speed_test(&providers));
    assert!(matches!(
        executor.get_speed_test_state(),
        SpeedTestState::Running { progress: 0, total: 6 }
    ));
}

#[test]
fn every_result_of_a_run_holds_the_mean_of_its_samples() {
    let providers = get_dns_providers();
    let samples: [(Option<u32>, Option<u32>); 6] = [
        (Some(7), Some(8)),
        (None, Some(9_000)),
        (None, None),
        (Some(60_000_000), Some(1)),
        (Some(3), None),
        (Some(0), Some(0)),
    ];
    let mut executor = AsyncExecutor::new();
    executor.start_speed_test(&providers);
    for sample in samples {
        executor.record_result(sample.0, sample.1);
    }
    let results = match executor.get_speed_test_state() {
        SpeedTestState::Completed(results) => results,
        other => panic!("unexpected: {:?}", other),
    };
    assert_eq!(results.len(), 6);
    for r in &results {
        let at = providers.iter().position(|p| p.name == r.provider).unwrap();
        assert_eq!((r.primary_ping, r.secondary_ping), samples[at]);
        assert_eq!(r.avg_ping, average_ping(r.primary_ping, r.secondary_ping));
        assert_eq!(r.avg_ping.is_none(), r.primary_ping.is_none() && r.secondary_ping.is_none());
        match (r.primary_ping, r.secondary_ping, r.avg_ping) {
            (Some(p), Some(s), Some(avg)) => assert_eq!(avg * 2, 1000 * (p as u64 + s as u64)),
            (Some(x), None, Some(avg)) | (None, Some(x), Some(avg)) => assert_eq!(avg, 1000 * x as u64),
            (None, None, None) => {}
            other => panic!("unexpected: {:?}", other),
        }
    }
    assert_eq!(
        names(&results),
        vec!["CleanBrowsing", "AdGuard", "Cloudflare", "Google", "OpenDNS", "Quad9"]
    );
}

#[test]
fn a_new_test_takes_the_services_it_is_given() {
    let all = get_dns_providers();
    let two: Vec<_> = all.iter().skip(2).take(2).cloned().collect();
    let mut executor = AsyncExecutor::new();
    assert!(executor.start_speed_test(&all));
    executor.fail("stopped".to_string());
    assert!(executor.start_speed_test(&two));
    assert_eq!(executor.next_probe().unwrap().name, "Quad9");
    executor.record_result(None, None);
    assert_eq!(executor.next_probe().unwrap().name, "OpenDNS");
    executor.record_result(Some(4), Some(6));
    match executor.get_speed_test_state() {
        SpeedTestState::Completed(results) => {
            assert_eq!(names(&results), vec!["OpenDNS", "Quad9"]);
            assert_eq!(results[0].avg_ping, Some(5_000));
        }
        other => panic!("unexpected: {:?}", other),
    }
}
