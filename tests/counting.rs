use forever_bot::{after, before, ping_reply, CommandCounter};

#[test]
fn counter_starts_empty() {
    let counter = CommandCounter::new();
    assert_eq!(counter.len(), 0);
    assert_eq!(counter.get("ping"), None);
    assert_eq!(counter.count("ping"), 0);
}

#[test]
fn before_permits_and_counts_once() {
    let mut counter = CommandCounter::new();
    assert!(before(&mut counter, "ping"));
    assert_eq!(counter.get("ping"), Some(1));
    assert_eq!(counter.len(), 1);
}

#[test]
fn ping_three_times() {
    let mut counter = CommandCounter::new();
    let mut replies = Vec::new();
    for _ in 0..3 {
        assert!(before(&mut counter, "ping"));
        replies.push(ping_reply().to_string());
        assert_eq!(after("ping", &Ok(())), None);
    }
    assert_eq!(replies, vec!["Pong!", "Pong!", "Pong!"]);
    assert_eq!(counter.get("ping"), Some(3));
    assert_eq!(counter.len(), 1);
}

#[test]
fn interleaved_invocations_count_exactly() {
    let mut counter = CommandCounter::new();
    let names = ["ping", "help", "ping", "stats", "ping", "help", "ping"];
    for name in names.iter() {
        before(&mut counter, name);
    }
    assert_eq!(counter.count("ping"), 4);
    assert_eq!(counter.count("help"), 2);
    assert_eq!(counter.count("stats"), 1);
    assert_eq!(counter.len(), 3);
}

#[test]
fn other_names_are_untouched() {
    let mut counter = CommandCounter::new();
    before(&mut counter, "b");
    before(&mut counter, "b");
    for _ in 0..50 {
        before(&mut counter, "a");
    }
    assert_eq!(counter.get("b"), Some(2));
    assert_eq!(counter.get("a"), Some(50));
    assert_eq!(counter.get("c"), None);
}

#[test]
fn names_differing_in_case_are_distinct() {
    let mut counter = CommandCounter::new();
    before(&mut counter, "Ping");
    before(&mut counter, "ping");
    before(&mut counter, "ping");
    assert_eq!(counter.get("Ping"), Some(1));
    assert_eq!(counter.get("ping"), Some(2));
    assert_eq!(counter.len(), 2);
}

#[test]
fn body_sees_raised_count_and_after_leaves_it() {
    let mut counter = CommandCounter::new();
    before(&mut counter, "ping");
    before(&mut counter, "ping");
    assert_eq!(counter.count("ping"), 2);
    let line = after("ping", &Err("send failed".to_string()));
    assert!(line.is_some());
    assert_eq!(counter.count("ping"), 2);
}
