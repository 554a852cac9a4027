use sigstat::spec_store::{SpecStore, SpecsSource};
use sigstat::specs_adapter::{
    construct_specs_url, StatsigBootstrapSpecsAdapter, StatsigHttpSpecsAdapter,
    StreamingRetryState,
};

#[test]
fn test_manually_sync_specs() {
    let test_data =
        "{\"feature_gates\": {}, \"dynamic_configs\": {}, \"layer_configs\": {}}".to_string();

    let mut adapter = StatsigBootstrapSpecsAdapter::new(test_data.clone());
    let mut listener = SpecStore::new();

    adapter.start(&mut listener, 1000).unwrap();

    let update = listener.last_update.as_ref().unwrap();
    assert_eq!(update.source, SpecsSource::Bootstrap);
    assert_eq!(update.data, test_data);
}

#[test]
fn test_set_data() {
    let mut adapter = StatsigBootstrapSpecsAdapter::new("".to_string());
    let mut listener = SpecStore::new();

    adapter.start(&mut listener, 1000).unwrap();

    let test_data = "{\"some\": \"value\"}".to_string();
    let result = adapter.set_data(test_data.clone(), &mut listener, 1001);
    assert_eq!(result.is_err(), false);

    let update = listener.last_update.as_ref().unwrap();
    assert_eq!(update.source, SpecsSource::Bootstrap);
    assert_eq!(update.data, test_data);
}

#[test]
fn push_before_start_fails() {
    let adapter = StatsigBootstrapSpecsAdapter::new("{}".to_string());
    let mut listener = SpecStore::new();
    let r = adapter.push_update(&mut listener, 0);
    assert!(r.is_err());
    assert!(listener.last_update.is_none());
}

#[test]
fn specs_url_construction() {
    assert_eq!(
        construct_specs_url("secret-key", None),
        "https://api.statsigcdn.com/v2/download_config_specs/secret-key.json".to_string()
    );
    let base = "https://example.test/specs".to_string();
    assert_eq!(
        construct_specs_url("k", Some(&base)),
        "https://example.test/specs/k.json".to_string()
    );
}

#[test]
fn http_request_url_carries_since_time() {
    let adapter = StatsigHttpSpecsAdapter::new("secret-key", None, Some(5000));
    assert_eq!(
        adapter.build_request_url(Some(123)),
        "https://api.statsigcdn.com/v2/download_config_specs/secret-key.json?sinceTime=123"
            .to_string()
    );
    assert_eq!(
        adapter.build_request_url(None),
        "https://api.statsigcdn.com/v2/download_config_specs/secret-key.json".to_string()
    );
}

#[test]
fn http_fetch_result_delivery() {
    let adapter = StatsigHttpSpecsAdapter::new("secret-key", None, None);
    let mut listener = SpecStore::new();

    let miss = adapter.process_fetch_result(None, &mut listener, 7);
    assert!(miss.is_err());
    assert!(listener.last_update.is_none());

    let body = "{\"has_updates\": true, \"time\": 42}".to_string();
    let hit = adapter.process_fetch_result(Some(body.clone()), &mut listener, 8);
    assert!(hit.is_ok());
    let update = listener.last_update.as_ref().unwrap();
    assert_eq!(update.source, SpecsSource::Network);
    assert_eq!(update.data, body);
    assert_eq!(listener.lcut, Some(42));
}

#[test]
fn grpc_backoff_doubles_to_cap_and_resets() {
    let mut state = StreamingRetryState::new();
    assert_eq!(state.on_stream_failure(), Some(3000));
    assert_eq!(state.on_stream_failure(), Some(6000));
    assert_eq!(state.on_stream_failure(), Some(12000));
    assert_eq!(state.on_stream_failure(), Some(24000));
    assert_eq!(state.on_stream_failure(), Some(48000));
    assert_eq!(state.on_stream_failure(), Some(60000));
    assert_eq!(state.on_stream_failure(), Some(60000));

    state.on_message_received();
    assert_eq!(state.on_stream_failure(), Some(3000));
}
