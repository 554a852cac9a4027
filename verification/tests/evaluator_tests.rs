use sigstat::evaluator::eval_config;
use sigstat::evaluator::SecondaryExposure;
use sigstat::hashing::Hashing;
use sigstat::json::JsonValue;
use sigstat::statsig::Statsig;
use sigstat::user::StatsigUser;

fn gate_payload(enabled: bool, pass_percentage: u64) -> String {
    let head = "{\"has_updates\": true, \"time\": 1, \"feature_gates\": {\"g\": {\"type\": \"feature_gate\", \"salt\": \"test_salt\", \"enabled\": ";
    let mid = ", \"defaultValue\": false, \"idType\": \"userID\", \"entity\": \"feature_gate\", \"rules\": [{\"name\": \"rule one\", \"passPercentage\": ";
    let tail = ", \"returnValue\": true, \"id\": \"rule_1\", \"conditions\": [\"c_public\"], \"idType\": \"userID\"}]}}, \"dynamic_configs\": {}, \"layer_configs\": {}, \"condition_map\": {\"c_public\": {\"type\": \"public\", \"idType\": \"userID\"}}}";
    format!("{}{}{}{}{}", head, enabled, mid, pass_percentage, tail)
}

#[test]
fn bootstrap_only_public_gate_passes() {
    // Bootstrap only: a gate with one public rule at pass percentage 100
    // answers true under the rule's id, with reason Bootstrap.
    let mut statsig = Statsig::new("secret-key", None);
    statsig.initialize(Some(gate_payload(true, 100))).unwrap();

    let user = StatsigUser::with_user_id("u1".to_string());
    assert!(statsig.check_gate_at(&user, &"g".to_string(), 0));

    let gate = statsig.get_feature_gate(&user, &"g".to_string());
    assert!(gate.value);
    assert_eq!(gate.rule_id, "rule_1".to_string());
    assert_eq!(gate.details.reason, "Bootstrap".to_string());
}

#[test]
fn unknown_gate_is_default_unrecognized() {
    // Not found: value=false, rule_id="default", reason=Unrecognized.
    let mut statsig = Statsig::new("secret-key", None);
    statsig.initialize(Some(gate_payload(true, 100))).unwrap();

    let user = StatsigUser::with_user_id("u1".to_string());
    assert!(!statsig.check_gate_at(&user, &"missing".to_string(), 0));

    let gate = statsig.get_feature_gate(&user, &"missing".to_string());
    assert!(!gate.value);
    assert_eq!(gate.rule_id, "default".to_string());
    assert_eq!(gate.details.reason, "Unrecognized".to_string());
}

#[test]
fn disabled_gate_answers_disabled_rule_id() {
    // Disabled spec: false under rule_id="disabled", despite a matching
    // rule.
    let mut statsig = Statsig::new("secret-key", None);
    statsig.initialize(Some(gate_payload(false, 100))).unwrap();

    let user = StatsigUser::with_user_id("u1".to_string());
    assert!(!statsig.check_gate_at(&user, &"g".to_string(), 0));

    let gate = statsig.get_feature_gate(&user, &"g".to_string());
    assert!(!gate.value);
    assert_eq!(gate.rule_id, "disabled".to_string());
    assert_eq!(gate.details.reason, "Disabled".to_string());
}

#[test]
fn bucketing_boundaries() {
    // pass_percentage=0 never passes; pass_percentage=100 always passes;
    // the boundary slot is exclusive (strict `<`).
    let mut never = Statsig::new("secret-key", None);
    never.initialize(Some(gate_payload(true, 0))).unwrap();
    let mut always = Statsig::new("secret-key", None);
    always.initialize(Some(gate_payload(true, 100))).unwrap();

    for i in 0..50 {
        let user = StatsigUser::with_user_id(format!("user_{}", i));
        assert!(!never.check_gate_at(&user, &"g".to_string(), 0));
        assert!(always.check_gate_at(&user, &"g".to_string(), 0));
    }

    // Pin the strictness on one user whose slot is known: with the
    // threshold at or below the slot the rule fails, one above it passes.
    let mut hashing = Hashing::new();
    let slot = hashing.evaluation_hash(&"test_salt.rule_1.u1".to_string()).unwrap() % 10000;
    let below_or_at = (slot / 100) as u64;
    let user = StatsigUser::with_user_id("u1".to_string());

    let mut s1 = Statsig::new("secret-key", None);
    s1.initialize(Some(gate_payload(true, below_or_at))).unwrap();
    assert_eq!(s1.check_gate_at(&user, &"g".to_string(), 0), (slot as u64) < below_or_at * 100);

    if below_or_at < 100 {
        let mut s2 = Statsig::new("secret-key", None);
        s2.initialize(Some(gate_payload(true, below_or_at + 1))).unwrap();
        assert!(s2.check_gate_at(&user, &"g".to_string(), 0));
    }
}

#[test]
fn bucketing_is_uniform_at_fifty_percent() {
    // Over 10000 pseudo-random unit ids against a 50% rule, the pass
    // count lands within 5000 +/- 300.
    let mut statsig = Statsig::new("secret-key", None);
    statsig.initialize(Some(gate_payload(true, 50))).unwrap();

    let mut seed: u64 = 12345;
    let mut passes: u32 = 0;
    for _ in 0..10000 {
        seed = (seed.wrapping_mul(1103515245).wrapping_add(12345)) % 2147483648;
        let user = StatsigUser::with_user_id(format!("user_{}", seed));
        if statsig.check_gate_at(&user, &"g".to_string(), 0) {
            passes += 1;
        }
    }
    assert!(passes >= 4700 && passes <= 5300, "pass count {} out of band", passes);
}

fn delegated_experiment_payload() -> String {
    let p1 = "{\"has_updates\": true, \"time\": 1, \"feature_gates\": {\"g\": {\"type\": \"feature_gate\", \"salt\": \"gsalt\", \"enabled\": true, \"defaultValue\": false, \"idType\": \"userID\", \"rules\": [{\"name\": \"r\", \"passPercentage\": 100, \"returnValue\": true, \"id\": \"g_rule\", \"conditions\": [\"c_public\"], \"idType\": \"userID\"}]}}, ";
    let p2 = "\"dynamic_configs\": {\"exp\": {\"type\": \"dynamic_config\", \"salt\": \"esalt\", \"enabled\": true, \"defaultValue\": {}, \"idType\": \"userID\", \"entity\": \"experiment\", \"rules\": [{\"name\": \"er\", \"passPercentage\": 100, \"returnValue\": {\"own\": 1}, \"id\": \"exp_rule\", \"conditions\": [\"c_gate\"], \"idType\": \"userID\", \"configDelegate\": \"exp_layer\"}]}}, ";
    let p3 = "\"layer_configs\": {\"exp_layer\": {\"type\": \"dynamic_config\", \"salt\": \"lsalt\", \"enabled\": true, \"defaultValue\": {}, \"idType\": \"userID\", \"entity\": \"layer\", \"rules\": [{\"name\": \"lr\", \"passPercentage\": 100, \"returnValue\": {\"param\": 7}, \"id\": \"layer_rule\", \"conditions\": [\"c_public\"], \"idType\": \"userID\"}]}}, ";
    let p4 = "\"condition_map\": {\"c_public\": {\"type\": \"public\", \"idType\": \"userID\"}, \"c_gate\": {\"type\": \"pass_gate\", \"targetValue\": \"g\", \"operator\": \"eq\", \"idType\": \"userID\"}}}";
    format!("{}{}{}{}", p1, p2, p3, p4)
}

#[test]
fn delegated_experiment_returns_layer_value() {
    // A matching rule with config_delegate="exp_layer" hands evaluation
    // to the layer: the result carries the layer's return_value, while
    // the exposures recorded before the delegation are kept separately.
    let mut statsig = Statsig::new("secret-key", None);
    statsig.initialize(Some(delegated_experiment_payload())).unwrap();

    let user = StatsigUser::with_user_id("u1".to_string());
    let mut hashing = Hashing::new();
    let mut exposures: Vec<SecondaryExposure> = Vec::new();
    let result = eval_config(
        &statsig.store.values,
        &user,
        &"exp".to_string(),
        0,
        16,
        &mut hashing,
        &mut exposures,
    )
    .unwrap();

    assert_eq!(result.rule_id, "layer_rule".to_string());
    assert_eq!(result.config_delegate, Some("exp_layer".to_string()));
    match &result.json_value {
        JsonValue::Obj(entries) => {
            assert_eq!(entries.len(), 1);
            assert_eq!(entries[0].0, "param".to_string());
            assert!(matches!(entries[0].1, JsonValue::Int(7)));
        }
        other => panic!("unexpected value {:?}", other),
    }

    // One pass_gate exposure was recorded before the delegation, and the
    // pre-delegation list rode along unchanged.
    let undelegated = result.undelegated_secondary_exposures.unwrap();
    assert_eq!(undelegated.len(), 1);
    assert_eq!(undelegated[0].gate, "g".to_string());
    assert_eq!(undelegated[0].gate_value, "true".to_string());
    assert_eq!(undelegated[0].rule_id, "g_rule".to_string());
    assert_eq!(exposures.len(), 1);

    // The facade reports the same outcome.
    let experiment = statsig.get_experiment(&user, &"exp".to_string());
    assert_eq!(experiment.rule_id, "layer_rule".to_string());
    assert_eq!(experiment.value.len(), 1);
    assert_eq!(experiment.value[0].0, "param".to_string());
    assert_eq!(experiment.value[0].1.int_value, Some(7));
}

#[test]
fn evaluation_is_deterministic_across_instances() {
    // Two snapshots built from the same payload agree on every gate,
    // whatever the state of their memo caches.
    let mut a = Statsig::new("secret-key", None);
    a.initialize(Some(gate_payload(true, 37))).unwrap();
    let mut b = Statsig::new("another-key", None);
    b.initialize(Some(gate_payload(true, 37))).unwrap();

    let _ = b.check_gate_at(&StatsigUser::with_user_id("warm".to_string()), &"g".to_string(), 0);

    for i in 0..100 {
        let user = StatsigUser::with_user_id(format!("user_{}", i));
        assert_eq!(
            a.check_gate_at(&user, &"g".to_string(), 0),
            b.check_gate_at(&user, &"g".to_string(), 0)
        );
    }
}

fn user_field_payload(op: &str, target: &str) -> String {
    let head = "{\"has_updates\": true, \"time\": 1, \"feature_gates\": {\"g\": {\"type\": \"feature_gate\", \"salt\": \"s\", \"enabled\": true, \"defaultValue\": false, \"idType\": \"userID\", \"rules\": [{\"name\": \"r\", \"passPercentage\": 100, \"returnValue\": true, \"id\": \"r1\", \"conditions\": [\"c\"], \"idType\": \"userID\"}]}}, \"dynamic_configs\": {}, \"layer_configs\": {}, \"condition_map\": {\"c\": {\"type\": \"user_field\", \"field\": \"email\", \"operator\": \"";
    let mid = "\", \"targetValue\": ";
    let tail = ", \"idType\": \"userID\"}}}";
    format!("{}{}{}{}{}", head, op, mid, target, tail)
}

fn user_with_email(email: &str) -> StatsigUser {
    let mut user = StatsigUser::with_user_id("u1".to_string());
    user.email = Some(email.to_string());
    user
}

#[test]
fn user_field_operators() {
    // eq is case-folded; neq is its negation.
    let mut s = Statsig::new("k", None);
    s.initialize(Some(user_field_payload("eq", "\"A@B.COM\""))).unwrap();
    assert!(s.check_gate_at(&user_with_email("a@b.com"), &"g".to_string(), 0));
    assert!(!s.check_gate_at(&user_with_email("x@b.com"), &"g".to_string(), 0));

    // any matches membership in the target list.
    let mut s = Statsig::new("k", None);
    s.initialize(Some(user_field_payload("any", "[\"one@x.com\", \"two@x.com\"]"))).unwrap();
    assert!(s.check_gate_at(&user_with_email("two@x.com"), &"g".to_string(), 0));
    assert!(!s.check_gate_at(&user_with_email("three@x.com"), &"g".to_string(), 0));

    // str_contains_any looks for substrings, case-folded.
    let mut s = Statsig::new("k", None);
    s.initialize(Some(user_field_payload("str_contains_any", "[\"@corp.\"]"))).unwrap();
    assert!(s.check_gate_at(&user_with_email("me@CORP.example"), &"g".to_string(), 0));
    assert!(!s.check_gate_at(&user_with_email("me@other.example"), &"g".to_string(), 0));

    // An operator outside the table cannot pass a rule
    // (in_segment_list needs the id-list store, which is not modeled).
    let mut s = Statsig::new("k", None);
    s.initialize(Some(user_field_payload("in_segment_list", "\"seg\""))).unwrap();
    assert!(!s.check_gate_at(&user_with_email("a@b.com"), &"g".to_string(), 0));
}

#[test]
fn current_time_conditions() {
    let payload = "{\"has_updates\": true, \"time\": 1, \"feature_gates\": {\"g\": {\"type\": \"feature_gate\", \"salt\": \"s\", \"enabled\": true, \"defaultValue\": false, \"idType\": \"userID\", \"rules\": [{\"name\": \"r\", \"passPercentage\": 100, \"returnValue\": true, \"id\": \"r1\", \"conditions\": [\"c\"], \"idType\": \"userID\"}]}}, \"dynamic_configs\": {}, \"layer_configs\": {}, \"condition_map\": {\"c\": {\"type\": \"current_time\", \"operator\": \"after\", \"targetValue\": 1000, \"idType\": \"userID\"}}}".to_string();
    let mut s = Statsig::new("k", None);
    s.initialize(Some(payload)).unwrap();
    let user = StatsigUser::with_user_id("u1".to_string());
    assert!(s.check_gate_at(&user, &"g".to_string(), 2000));
    assert!(!s.check_gate_at(&user, &"g".to_string(), 500));
    assert!(!s.check_gate_at(&user, &"g".to_string(), 1000));
}

fn app_version_payload(op: &str, target: &str) -> String {
    let head = "{\"has_updates\": true, \"time\": 1, \"feature_gates\": {\"g\": {\"type\": \"feature_gate\", \"salt\": \"s\", \"enabled\": true, \"defaultValue\": false, \"idType\": \"userID\", \"rules\": [{\"name\": \"r\", \"passPercentage\": 100, \"returnValue\": true, \"id\": \"r1\", \"conditions\": [\"c\"], \"idType\": \"userID\"}]}}, \"dynamic_configs\": {}, \"layer_configs\": {}, \"condition_map\": {\"c\": {\"type\": \"user_field\", \"field\": \"app_version\", \"operator\": \"";
    let mid = "\", \"targetValue\": ";
    let tail = ", \"idType\": \"userID\"}}}";
    format!("{}{}{}{}{}", head, op, mid, target, tail)
}

fn user_with_version(version: &str) -> StatsigUser {
    let mut user = StatsigUser::with_user_id("u1".to_string());
    user.app_version = Some(version.to_string());
    user
}

#[test]
fn version_operators() {
    // Components compare numerically, not lexically, and a missing
    // trailing component counts as zero.
    let mut s = Statsig::new("k", None);
    s.initialize(Some(app_version_payload("version_gt", "\"1.9\""))).unwrap();
    assert!(s.check_gate_at(&user_with_version("1.10"), &"g".to_string(), 0));
    assert!(!s.check_gate_at(&user_with_version("1.9"), &"g".to_string(), 0));
    assert!(!s.check_gate_at(&user_with_version("1.8.7"), &"g".to_string(), 0));

    let mut s = Statsig::new("k", None);
    s.initialize(Some(app_version_payload("version_eq", "\"1.2.0\""))).unwrap();
    assert!(s.check_gate_at(&user_with_version("1.2"), &"g".to_string(), 0));
    assert!(!s.check_gate_at(&user_with_version("1.2.1"), &"g".to_string(), 0));

    let mut s = Statsig::new("k", None);
    s.initialize(Some(app_version_payload("version_lte", "\"2.0\""))).unwrap();
    assert!(s.check_gate_at(&user_with_version("2.0.0"), &"g".to_string(), 0));
    assert!(s.check_gate_at(&user_with_version("1.99.99"), &"g".to_string(), 0));
    assert!(!s.check_gate_at(&user_with_version("2.0.1"), &"g".to_string(), 0));

    // A side that does not parse as a version fails the comparison.
    let mut s = Statsig::new("k", None);
    s.initialize(Some(app_version_payload("version_gt", "\"1.0\""))).unwrap();
    assert!(!s.check_gate_at(&user_with_version("2.0-beta"), &"g".to_string(), 0));
}

fn condition_payload(condition_json: &str) -> String {
    let head = "{\"has_updates\": true, \"time\": 1, \"feature_gates\": {\"g\": {\"type\": \"feature_gate\", \"salt\": \"s\", \"enabled\": true, \"defaultValue\": false, \"idType\": \"userID\", \"rules\": [{\"name\": \"r\", \"passPercentage\": 100, \"returnValue\": true, \"id\": \"r1\", \"conditions\": [\"c\"], \"idType\": \"userID\"}]}}, \"dynamic_configs\": {}, \"layer_configs\": {}, \"condition_map\": {\"c\": ";
    let tail = "}}";
    format!("{}{}{}", head, condition_json, tail)
}

#[test]
fn environment_field_condition() {
    let cond = "{\"type\": \"environment_field\", \"field\": \"tier\", \"operator\": \"eq\", \"targetValue\": \"production\", \"idType\": \"userID\"}";
    let mut s = Statsig::new("k", None);
    s.initialize(Some(condition_payload(cond))).unwrap();

    let mut user = StatsigUser::with_user_id("u1".to_string());
    user.statsig_environment.push(("tier".to_string(), "production".to_string()));
    assert!(s.check_gate_at(&user, &"g".to_string(), 0));

    let mut other = StatsigUser::with_user_id("u1".to_string());
    other.statsig_environment.push(("tier".to_string(), "staging".to_string()));
    assert!(!s.check_gate_at(&other, &"g".to_string(), 0));
}

#[test]
fn unit_id_condition_reads_custom_ids() {
    let cond = "{\"type\": \"unit_id\", \"operator\": \"any\", \"targetValue\": [\"c1\", \"c2\"], \"idType\": \"companyID\"}";
    let mut s = Statsig::new("k", None);
    s.initialize(Some(condition_payload(cond))).unwrap();

    let mut user = StatsigUser::with_user_id("u1".to_string());
    user.custom_ids.push(("companyID".to_string(), "c2".to_string()));
    assert!(s.check_gate_at(&user, &"g".to_string(), 0));

    let lone = StatsigUser::with_user_id("u1".to_string());
    assert!(!s.check_gate_at(&lone, &"g".to_string(), 0));
}

#[test]
fn user_bucket_condition_is_deterministic() {
    // Every user lands in a bucket below 1000, and the same user lands in
    // the same bucket on every evaluation.
    let cond = "{\"type\": \"user_bucket\", \"operator\": \"lt\", \"targetValue\": 1000, \"idType\": \"userID\"}";
    let mut s = Statsig::new("k", None);
    s.initialize(Some(condition_payload(cond))).unwrap();
    let user = StatsigUser::with_user_id("u1".to_string());
    assert!(s.check_gate_at(&user, &"g".to_string(), 0));

    let half = "{\"type\": \"user_bucket\", \"operator\": \"lt\", \"targetValue\": 500, \"idType\": \"userID\"}";
    let mut s = Statsig::new("k", None);
    s.initialize(Some(condition_payload(half))).unwrap();
    let first = s.check_gate_at(&user, &"g".to_string(), 0);
    for _ in 0..5 {
        assert_eq!(s.check_gate_at(&user, &"g".to_string(), 0), first);
    }
}

#[test]
fn gate_exposures_are_deduplicated() {
    // A burst of identical gate checks forwards one exposure to the
    // flusher.
    let mut statsig = Statsig::new("secret-key", None);
    statsig.initialize(Some(gate_payload(true, 100))).unwrap();
    let user = StatsigUser::with_user_id("u1".to_string());

    for _ in 0..10 {
        assert!(statsig.check_gate_at(&user, &"g".to_string(), 0));
    }
    let batch = statsig.flush_events();
    assert_eq!(batch.len(), 1);
    assert_eq!(batch[0].event_name, "statsig::gate_exposure".to_string());
}

#[test]
fn fractional_pass_percentage_keeps_its_decimals() {
    // A payload percentage of 50.5 buckets at threshold 5050 of 10000,
    // exactly as the formula (hash % 10000) < percentage * 100 reads.
    let head = "{\"has_updates\": true, \"time\": 1, \"feature_gates\": {\"g\": {\"type\": \"feature_gate\", \"salt\": \"test_salt\", \"enabled\": true, \"defaultValue\": false, \"idType\": \"userID\", \"rules\": [{\"name\": \"r\", \"passPercentage\": ";
    let tail = ", \"returnValue\": true, \"id\": \"rule_1\", \"conditions\": [\"c_public\"], \"idType\": \"userID\"}]}}, \"dynamic_configs\": {}, \"layer_configs\": {}, \"condition_map\": {\"c_public\": {\"type\": \"public\", \"idType\": \"userID\"}}}";

    let mut hashing = Hashing::new();
    for i in 0..40 {
        let user_id = format!("frac_user_{}", i);
        let slot = hashing
            .evaluation_hash(&format!("test_salt.rule_1.{}", user_id))
            .unwrap() % 10000;
        let user = StatsigUser::with_user_id(user_id);

        let mut s = Statsig::new("secret-key", None);
        s.initialize(Some(format!("{}{}{}", head, "50.5", tail))).unwrap();
        assert_eq!(s.check_gate_at(&user, &"g".to_string(), 0), slot < 5050);

        let mut s = Statsig::new("secret-key", None);
        s.initialize(Some(format!("{}{}{}", head, "0.01", tail))).unwrap();
        assert_eq!(s.check_gate_at(&user, &"g".to_string(), 0), slot < 1);
    }

    // 100.0 always passes and 0.0 never does.
    let user = StatsigUser::with_user_id("u1".to_string());
    let mut s = Statsig::new("secret-key", None);
    s.initialize(Some(format!("{}{}{}", head, "100.0", tail))).unwrap();
    assert!(s.check_gate_at(&user, &"g".to_string(), 0));
    let mut s = Statsig::new("secret-key", None);
    s.initialize(Some(format!("{}{}{}", head, "0.0", tail))).unwrap();
    assert!(!s.check_gate_at(&user, &"g".to_string(), 0));
}

#[test]
fn str_matches_operator() {
    // The attribute must match the target pattern; an uncompilable
    // pattern fails the condition.
    let mut s = Statsig::new("k", None);
    s.initialize(Some(user_field_payload("str_matches", "\"^a.*com$\""))).unwrap();
    assert!(s.check_gate_at(&user_with_email("a@b.com"), &"g".to_string(), 0));
    assert!(!s.check_gate_at(&user_with_email("z@b.com"), &"g".to_string(), 0));

    let mut s = Statsig::new("k", None);
    s.initialize(Some(user_field_payload("str_matches", "\"(\""))).unwrap();
    assert!(!s.check_gate_at(&user_with_email("a@b.com"), &"g".to_string(), 0));
}
