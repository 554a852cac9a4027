use sigstat::event_logging::{EnqueueOutcome, EventLogger, StatsigEvent};
use sigstat::instance_store::InstanceStore;
use sigstat::runtime::StatsigRuntime;
use sigstat::statsig::Statsig;

fn event(name: &str) -> StatsigEvent {
    StatsigEvent {
        event_name: name.to_string(),
        value: None,
        metadata: Vec::new(),
        time: 0,
    }
}

#[test]
fn exposure_burst_forwards_at_most_one() {
    // A burst of identical exposures within the TTL: exactly one reaches
    // the queue, the rest are deduplicated.
    let mut logger = EventLogger::new(100);
    let n = 25;
    let mut added = 0;
    for _ in 0..n {
        match logger.enqueue_exposure("g|r1|true|u1".to_string(), event("exposure")) {
            EnqueueOutcome::Added => added += 1,
            EnqueueOutcome::Deduped => {}
            EnqueueOutcome::Dropped => panic!("queue should not be full"),
        }
    }
    assert_eq!(added, 1);
    assert_eq!(logger.get_deduped_count(), (n - 1) as u64);
    let batch = logger.take_batch();
    assert_eq!(batch.len(), 1);
}

#[test]
fn dedup_resets_with_ttl() {
    let mut logger = EventLogger::new(100);
    assert!(matches!(
        logger.enqueue_exposure("k".to_string(), event("e")),
        EnqueueOutcome::Added
    ));
    logger.reset_dedup().unwrap();
    assert!(matches!(
        logger.enqueue_exposure("k".to_string(), event("e")),
        EnqueueOutcome::Added
    ));
    assert_eq!(logger.take_batch().len(), 2);
}

#[test]
fn full_queue_drops_and_counts() {
    // Backpressure: a full queue silently drops new events and bumps the
    // counter; the logger never blocks.
    let mut logger = EventLogger::new(3);
    assert!(logger.enqueue_event(event("a")));
    assert!(logger.enqueue_event(event("b")));
    assert!(logger.enqueue_event(event("c")));
    assert!(!logger.enqueue_event(event("d")));
    assert!(!logger.enqueue_event(event("e")));
    assert_eq!(logger.get_dropped_event_count(), 2);
    assert_eq!(logger.take_batch().len(), 3);
    assert!(logger.enqueue_event(event("f")));
}

#[test]
fn flush_threshold() {
    let mut logger = EventLogger::new(2);
    assert!(!logger.should_flush());
    logger.enqueue_event(event("a"));
    assert!(!logger.should_flush());
    logger.enqueue_event(event("b"));
    assert!(logger.should_flush());
    logger.on_flush_result(true);
    let _ = logger.take_batch();
    assert!(!logger.should_flush());
}

#[test]
fn runtime_tracks_and_clears_tasks() {
    let mut rt = StatsigRuntime::get_runtime();
    let a = rt.spawn("specs_sync").unwrap();
    let b = rt.spawn("event_flush").unwrap();
    assert_ne!(a, b);
    assert_eq!(rt.get_num_active_tasks(), 2);

    rt.task_completed(a);
    assert_eq!(rt.get_num_active_tasks(), 1);

    rt.shutdown();
    assert_eq!(rt.get_num_active_tasks(), 0);

    // Spawns after shutdown are no-ops.
    assert!(rt.spawn("late").is_none());
    assert_eq!(rt.get_num_active_tasks(), 0);
}

#[test]
fn runtime_awaits_by_tag_and_id() {
    let mut rt = StatsigRuntime::get_runtime();
    let a = rt.spawn("bg").unwrap();
    let _b = rt.spawn("bg").unwrap();
    let _c = rt.spawn("other").unwrap();

    assert!(rt.await_join_handle("bg", a).is_ok());
    assert_eq!(rt.get_num_active_tasks(), 2);
    assert!(rt.await_join_handle("bg", a).is_err());

    rt.remove_tasks_with_tag("bg");
    assert_eq!(rt.get_num_active_tasks(), 1);
}

#[test]
fn shutdown_with_timeout_leaves_no_active_tasks() {
    // After shutdown_with_timeout returns Ok, no background task is
    // active.
    let mut statsig = Statsig::new("secret-key", None);
    let _ = statsig.runtime.spawn("specs_sync");
    let _ = statsig.runtime.spawn("event_flush");
    assert!(statsig.runtime.get_num_active_tasks() > 0);

    statsig.shutdown_with_timeout(1000).unwrap();
    assert_eq!(statsig.runtime.get_num_active_tasks(), 0);
}

#[test]
fn instance_store_handles() {
    let mut store: InstanceStore<u32> = InstanceStore::new("stsg_opt".to_string());
    let h1 = store.add(10).unwrap();
    let h2 = store.add(20).unwrap();
    assert_ne!(h1, h2);
    assert_eq!(h1, "stsg_opt_0".to_string());
    assert_eq!(h2, "stsg_opt_1".to_string());
    assert_eq!(store.get(&h1), Some(&10));
    assert_eq!(store.get(&h2), Some(&20));

    store.remove(&h1);
    assert_eq!(store.get(&h1), None);
    assert_eq!(store.len(), 1);

    // A released id is never handed out again.
    let h3 = store.add(30).unwrap();
    assert_eq!(h3, "stsg_opt_2".to_string());
}

#[test]
fn instance_store_capacity() {
    let mut store: InstanceStore<u32> = InstanceStore::new("stsg_usr".to_string());
    for i in 0..400 {
        assert!(store.add(i).is_some());
    }
    assert!(store.add(999).is_none());
}
