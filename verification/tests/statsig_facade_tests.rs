use sigstat::errors::StatsigErr;
use sigstat::json::JsonValue;
use sigstat::statsig::{Statsig, StatsigOptions};
use sigstat::user::StatsigUser;

fn one_gate_payload() -> String {
    let head = "{\"has_updates\": true, \"time\": 1, \"feature_gates\": {\"g\": {\"type\": \"feature_gate\", \"salt\": \"test_salt\", \"enabled\": true, \"defaultValue\": false, \"idType\": \"userID\", \"rules\": [{\"name\": \"rule one\", \"passPercentage\": 100, \"returnValue\": true, \"id\": \"rule_1\", \"conditions\": [\"c_public\"], \"idType\": \"userID\"}]}}, ";
    let tail = "\"dynamic_configs\": {}, \"layer_configs\": {}, \"condition_map\": {\"c_public\": {\"type\": \"public\", \"idType\": \"userID\"}}}";
    format!("{}{}", head, tail)
}

#[test]
fn options_defaults() {
    let options = StatsigOptions::new();
    assert!(options.environment.is_none());
    assert!(options.specs_url.is_none());
    assert!(options.specs_sync_interval_ms.is_none());
    assert!(options.event_logging_max_queue_size.is_none());
    assert!(!options.disable_all_logging);
    assert!(!options.disable_network);
}

#[test]
fn uninitialized_evaluation_degrades() {
    let mut statsig = Statsig::new("secret-key", None);
    statsig.initialize(None).unwrap();
    let user = StatsigUser::with_user_id("u1".to_string());
    assert!(!statsig.check_gate_at(&user, &"g".to_string(), 0));
    let gate = statsig.get_feature_gate(&user, &"g".to_string());
    assert_eq!(gate.details.reason, "Unrecognized".to_string());
}

#[test]
fn custom_events_flow_to_flush() {
    let mut statsig = Statsig::new("secret-key", None);
    assert!(statsig.log_event_with_number("purchase", Some(3), Vec::new()));
    assert!(statsig.log_event_with_number("view", None, Vec::new()));
    let batch = statsig.flush_events();
    assert_eq!(batch.len(), 2);
    assert_eq!(batch[0].event_name, "purchase".to_string());
    assert!(matches!(batch[0].value, Some(JsonValue::Int(3))));
    assert!(batch[1].value.is_none());
}

#[test]
fn disabled_logging_drops_events() {
    let mut options = StatsigOptions::new();
    options.disable_all_logging = true;
    let mut statsig = Statsig::new("secret-key", Some(options));
    assert!(!statsig.log_event_with_number("purchase", None, Vec::new()));
    assert_eq!(statsig.flush_events().len(), 0);
}

#[test]
fn client_init_response_lists_gates() {
    let mut statsig = Statsig::new("secret-key", None);
    statsig.initialize(Some(one_gate_payload())).unwrap();
    let user = StatsigUser::with_user_id("u1".to_string());
    let response = statsig.get_client_init_response(&user);
    let entries = match response {
        JsonValue::Obj(entries) => entries,
        other => panic!("expected object, got {:?}", other),
    };
    assert_eq!(entries[0].0, "feature_gates".to_string());
    match &entries[0].1 {
        JsonValue::Obj(gates) => {
            assert_eq!(gates.len(), 1);
            assert_eq!(gates[0].0, "g".to_string());
            assert!(matches!(gates[0].1, JsonValue::Bool(true)));
        }
        other => panic!("expected gates object, got {:?}", other),
    }
    assert_eq!(entries[1].0, "time".to_string());
    assert!(matches!(entries[1].1, JsonValue::Int(1)));
}

#[test]
fn error_codes_are_named() {
    assert_eq!(StatsigErr::ShutdownTimeout.code(), "ShutdownTimeout");
    assert_eq!(StatsigErr::ParseError("x".to_string()).code(), "ParseError");
    assert_eq!(StatsigErr::SpecsListenerNotSet.code(), "SpecsListenerNotSet");
}

#[test]
fn config_calls_record_exposures() {
    let head = "{\"has_updates\": true, \"time\": 1, \"feature_gates\": {}, \"dynamic_configs\": {\"c\": {\"type\": \"dynamic_config\", \"salt\": \"s\", \"enabled\": true, \"defaultValue\": {}, \"idType\": \"userID\", \"rules\": []}}, ";
    let tail = "\"layer_configs\": {}, \"condition_map\": {}}";
    let payload = format!("{}{}", head, tail);

    let mut statsig = Statsig::new("secret-key", None);
    statsig.initialize(Some(payload)).unwrap();
    let user = StatsigUser::with_user_id("u1".to_string());

    for _ in 0..5 {
        let config = statsig.get_dynamic_config(&user, &"c".to_string());
        assert_eq!(config.rule_id, "default".to_string());
    }
    let batch = statsig.flush_events();
    assert_eq!(batch.len(), 1);
    assert_eq!(batch[0].event_name, "statsig::config_exposure".to_string());
}
