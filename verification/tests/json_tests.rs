use sigstat::json::{parse_json, JsonValue};
use sigstat::version::{parse_version, version_lt};
use sigstat::statsig_types::{
    make_dynamic_config, make_feature_gate, EvaluationDetails, GateEvaluation,
};

#[test]
fn parses_nested_document() {
    let v = parse_json("{\"a\": [1, true, null, \"x\"], \"b\": {\"c\": -5}} ").unwrap();
    let entries = match v {
        JsonValue::Obj(entries) => entries,
        other => panic!("expected object, got {:?}", other),
    };
    assert_eq!(entries.len(), 2);
    assert_eq!(entries[0].0, "a".to_string());
    match &entries[0].1 {
        JsonValue::Arr(items) => {
            assert_eq!(items.len(), 4);
            assert!(matches!(items[0], JsonValue::Int(1)));
            assert!(matches!(items[1], JsonValue::Bool(true)));
            assert!(matches!(items[2], JsonValue::Null));
            match &items[3] {
                JsonValue::Str(s) => assert_eq!(s, &"x".to_string()),
                other => panic!("expected string, got {:?}", other),
            }
        }
        other => panic!("expected array, got {:?}", other),
    }
    match &entries[1].1 {
        JsonValue::Obj(inner) => {
            assert_eq!(inner.len(), 1);
            assert_eq!(inner[0].0, "c".to_string());
            assert!(matches!(inner[0].1, JsonValue::Int(-5)));
        }
        other => panic!("expected object, got {:?}", other),
    }
}

#[test]
fn rejects_text_outside_the_subset() {
    assert!(parse_json("not json").is_none());
    assert!(parse_json("{\"a\": 1,}").is_none());
    assert!(parse_json("{\"a\": 1} trailing").is_none());
    assert!(parse_json("1.").is_none());
    assert!(parse_json("\"broken \\u0041 escape\"").is_none());
    assert!(parse_json("").is_none());
}

#[test]
fn parses_escape_sequences() {
    match parse_json("\"line\\none \\\"q\\\" tab\\tend\"").unwrap() {
        JsonValue::Str(s) => assert_eq!(s, "line\none \"q\" tab\tend".to_string()),
        other => panic!("expected string, got {:?}", other),
    }
}

#[test]
fn parses_non_integer_numbers_losslessly() {
    match parse_json("1.5").unwrap() {
        JsonValue::Num(lexeme) => assert_eq!(lexeme, "1.5".to_string()),
        other => panic!("expected number lexeme, got {:?}", other),
    }
    match parse_json("-2.25e3").unwrap() {
        JsonValue::Num(lexeme) => assert_eq!(lexeme, "-2.25e3".to_string()),
        other => panic!("expected number lexeme, got {:?}", other),
    }
    match parse_json("42").unwrap() {
        JsonValue::Int(n) => assert_eq!(n, 42),
        other => panic!("expected integer, got {:?}", other),
    }
    // An integer too large for 64 bits keeps its digits.
    match parse_json("99999999999999999999").unwrap() {
        JsonValue::Num(lexeme) => assert_eq!(lexeme, "99999999999999999999".to_string()),
        other => panic!("expected number lexeme, got {:?}", other),
    }
}

#[test]
fn obj_get_finds_first_match() {
    let v = parse_json("{\"k\": 1, \"k\": 2, \"other\": 3}").unwrap();
    match v.obj_get("k") {
        Some(JsonValue::Int(1)) => {}
        other => panic!("expected first binding, got {:?}", other),
    }
    assert!(v.obj_get("absent").is_none());
}

#[test]
fn deep_clone_is_structurally_equal() {
    let v = parse_json("{\"a\": [1, {\"b\": \"t\"}]}").unwrap();
    let w = v.deep_clone();
    match (&v, &w) {
        (JsonValue::Obj(x), JsonValue::Obj(y)) => {
            assert_eq!(x.len(), y.len());
            assert_eq!(x[0].0, y[0].0);
        }
        _ => panic!("clone changed shape"),
    }
}

#[test]
fn factories_fill_defaults() {
    let details = EvaluationDetails::new("Unrecognized", None, None);
    let gate = make_feature_gate("g", None, details);
    assert_eq!(gate.name, "g".to_string());
    assert!(!gate.value);
    assert_eq!(gate.rule_id, "default".to_string());
    assert_eq!(gate.id_type, "".to_string());

    let details = EvaluationDetails::new("Bootstrap", Some(7), None);
    let evaluation = GateEvaluation {
        value: true,
        rule_id: "r9".to_string(),
        id_type: "userID".to_string(),
    };
    let gate = make_feature_gate("g2", Some(evaluation), details);
    assert!(gate.value);
    assert_eq!(gate.rule_id, "r9".to_string());
    assert_eq!(gate.id_type, "userID".to_string());
    assert_eq!(gate.details.lcut, Some(7));

    let details = EvaluationDetails::new("Unrecognized", None, None);
    let config = make_dynamic_config("c", None, details);
    assert_eq!(config.rule_id, "default".to_string());
    assert_eq!(config.value.len(), 0);
}

#[test]
fn version_parse_and_compare() {
    assert_eq!(parse_version(&"1.2.3".to_string()), Some(vec![1, 2, 3]));
    assert_eq!(parse_version(&"10".to_string()), Some(vec![10]));
    assert!(parse_version(&"".to_string()).is_none());
    assert!(parse_version(&"1.".to_string()).is_none());
    assert!(parse_version(&".1".to_string()).is_none());
    assert!(parse_version(&"1.x".to_string()).is_none());

    let a = parse_version(&"1.9".to_string()).unwrap();
    let b = parse_version(&"1.10".to_string()).unwrap();
    assert!(version_lt(&a, &b));
    assert!(!version_lt(&b, &a));

    let c = parse_version(&"1.2".to_string()).unwrap();
    let d = parse_version(&"1.2.0".to_string()).unwrap();
    assert!(!version_lt(&c, &d));
    assert!(!version_lt(&d, &c));
}
