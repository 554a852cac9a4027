use sigstat::spec_store::{SpecStore, SpecsSource, SpecsUpdate};
use sigstat::statsig::Statsig;

fn payload_with_time(time: u64) -> String {
    format!(
        "{{\"has_updates\": true, \"time\": {}, \"feature_gates\": {{}}, \"dynamic_configs\": {{}}, \"layer_configs\": {{}}}}",
        time
    )
}

#[test]
fn http_sync_monotonicity() {
    // Seed lcut=100, deliver lcut=90 from Network: ignored; deliver
    // lcut=200: applied. Final lcut=200.
    let mut statsig = Statsig::new("secret-key", None);
    statsig.apply_network_payload(payload_with_time(100), 1).unwrap();
    assert_eq!(statsig.store.lcut, Some(100));

    statsig.apply_network_payload(payload_with_time(90), 2).unwrap();
    assert_eq!(statsig.store.lcut, Some(100));

    statsig.apply_network_payload(payload_with_time(200), 3).unwrap();
    assert_eq!(statsig.store.lcut, Some(200));
}

#[test]
fn lcut_reaches_max_of_increasing_sequence() {
    let mut store = SpecStore::new();
    let times = [5u64, 17, 100, 101, 4000];
    for t in times {
        let update = SpecsUpdate {
            data: payload_with_time(t),
            source: SpecsSource::Network,
            received_at: t,
        };
        store.apply_update(update).unwrap();
    }
    assert_eq!(store.lcut, Some(4000));
}

#[test]
fn equal_lcut_is_applied() {
    let mut store = SpecStore::new();
    let u1 = SpecsUpdate {
        data: payload_with_time(100),
        source: SpecsSource::Network,
        received_at: 1,
    };
    store.apply_update(u1).unwrap();
    let u2 = SpecsUpdate {
        data: payload_with_time(100),
        source: SpecsSource::Bootstrap,
        received_at: 2,
    };
    store.apply_update(u2).unwrap();
    assert_eq!(store.lcut, Some(100));
    assert_eq!(store.source, SpecsSource::Bootstrap);
}

#[test]
fn parse_failure_retains_ruleset() {
    let mut store = SpecStore::new();
    store
        .apply_update(SpecsUpdate {
            data: payload_with_time(50),
            source: SpecsSource::Network,
            received_at: 1,
        })
        .unwrap();
    let before_lcut = store.lcut;

    let bad = SpecsUpdate {
        data: "this is not json".to_string(),
        source: SpecsSource::Network,
        received_at: 2,
    };
    let r = store.apply_update(bad);
    assert!(r.is_err());
    assert_eq!(store.lcut, before_lcut);
    assert_eq!(store.parse_failure_count, 1);
}

#[test]
fn no_updates_payload_moves_source_only() {
    let mut store = SpecStore::new();
    store
        .apply_update(SpecsUpdate {
            data: payload_with_time(75),
            source: SpecsSource::Network,
            received_at: 1,
        })
        .unwrap();

    let nu = SpecsUpdate {
        data: "{\"has_updates\": false}".to_string(),
        source: SpecsSource::Network,
        received_at: 2,
    };
    store.apply_update(nu).unwrap();
    assert_eq!(store.lcut, Some(75));
    assert_eq!(store.source, SpecsSource::NetworkNotModified);
}

#[test]
fn specs_info_reports_lcut_and_source() {
    let mut store = SpecStore::new();
    let info = store.get_current_specs_info();
    assert_eq!(info.lcut, None);
    assert_eq!(info.source, SpecsSource::Uninitialized);

    store
        .apply_update(SpecsUpdate {
            data: payload_with_time(9),
            source: SpecsSource::Network,
            received_at: 1,
        })
        .unwrap();
    let info = store.get_current_specs_info();
    assert_eq!(info.lcut, Some(9));
    assert_eq!(info.source, SpecsSource::Network);
}
