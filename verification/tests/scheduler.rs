use dns_manager::scheduler::{advance, should_switch, DNSSchedule, DnsScheduler, SchedulerAction};

fn slot(name: &str) -> DNSSchedule {
    DNSSchedule {
        name: name.to_string(),
        primary: "1.1.1.1".to_string(),
        secondary: "1.0.0.1".to_string(),
    }
}

fn rotation() -> Vec<DNSSchedule> {
    vec![slot("a"), slot("b"), slot("c")]
}

#[test]
fn a_switch_is_due_at_first_and_after_the_interval() {
    assert!(should_switch(0, None, 60));
    assert!(should_switch(5, None, u64::MAX));
    assert!(!should_switch(100, Some(50), 60));
    assert!(should_switch(110, Some(50), 60));
    assert!(should_switch(111, Some(50), 60));
    assert!(should_switch(50, Some(50), 0));
    assert!(!should_switch(49, Some(50), 0));
    assert!(!should_switch(0, Some(u64::MAX), 1));
    assert!(should_switch(u64::MAX, Some(0), u64::MAX));
}

#[test]
fn three_advances_of_a_rotation_of_three_come_back() {
    let r = rotation();
    let mut index = 0;
    let mut seen = Vec::new();
    for _ in 0..3 {
        let (next, entry) = advance(&r, index).unwrap();
        seen.push(entry.name);
        index = next;
    }
    assert_eq!(index, 0);
    assert_eq!(seen, vec!["a", "b", "c"]);
}

#[test]
fn every_start_comes_back_after_a_full_round() {
    for len in 1..6usize {
        let r: Vec<DNSSchedule> = (0..len).map(|i| slot(&i.to_string())).collect();
        for start in 0..len {
            let mut index = start;
            for _ in 0..len {
                index = advance(&r, index).unwrap().0;
            }
            assert_eq!(index, start);
        }
    }
}

#[test]
fn an_empty_rotation_gives_nothing() {
    assert!(advance(&Vec::new(), 0).is_none());
    assert!(advance(&Vec::new(), usize::MAX).is_none());
    let mut scheduler = DnsScheduler::new(Vec::new(), 60);
    assert!(matches!(scheduler.tick(0), SchedulerAction::Disabled));
    assert!(matches!(scheduler.tick(1_000), SchedulerAction::Disabled));
    assert_eq!(scheduler.current_index, 0);
    assert_eq!(scheduler.last_switch, None);
}

#[test]
fn an_index_past_the_end_wraps_round() {
    let r = rotation();
    let (next, entry) = advance(&r, 5).unwrap();
    assert_eq!((next, entry.name.as_str()), (0, "c"));
    let (next, entry) = advance(&r, usize::MAX).unwrap();
    assert_eq!(entry.name, r[usize::MAX % 3].name);
    assert_eq!(next, (usize::MAX % 3 + 1) % 3);
}

#[test]
fn the_scheduler_switches_at_once_and_then_by_the_interval() {
    let mut scheduler = DnsScheduler::new(rotation(), 60);
    match scheduler.tick(1_000) {
        SchedulerAction::Switch(entry) => assert_eq!(entry.name, "a"),
        other => panic!("unexpected: {:?}", other),
    }
    assert_eq!((scheduler.current_index, scheduler.last_switch), (1, Some(1_000)));
    assert!(matches!(scheduler.tick(1_059), SchedulerAction::Wait));
    assert_eq!((scheduler.current_index, scheduler.last_switch), (1, Some(1_000)));
    match scheduler.tick(1_060) {
        SchedulerAction::Switch(entry) => assert_eq!(entry.name, "b"),
        other => panic!("unexpected: {:?}", other),
    }
    match scheduler.tick(2_000) {
        SchedulerAction::Switch(entry) => assert_eq!(entry.name, "c"),
        other => panic!("unexpected: {:?}", other),
    }
    assert_eq!((scheduler.current_index, scheduler.last_switch), (0, Some(2_000)));
    assert_eq!(scheduler.rotation.len(), 3);
}
