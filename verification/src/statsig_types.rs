//! The typed results callers receive, and the factories that assemble
//! them from raw evaluations.

use vstd::prelude::*;
use vstd::string::StringExecFns;

use crate::evaluator::spec_opt_view;
use crate::json::{json_eq, lemma_json_eq_trans, JsonValue};
use crate::spec_types::DynamicValue;

verus! {

/// How a result came to be: the specs source it was evaluated from, or
/// the degraded state (`Unrecognized`, `Uninitialized`, ...).
#[derive(Debug)]
pub struct EvaluationDetails {
    pub reason: String,
    pub lcut: Option<u64>,
    pub received_at: Option<u64>,
}

impl EvaluationDetails {
    pub fn new(reason: &str, lcut: Option<u64>, received_at: Option<u64>) -> (r: Self)
        ensures
            r.reason@ == reason@,
            r.lcut == lcut,
            r.received_at == received_at,
    {
        EvaluationDetails { reason: reason.to_owned(), lcut, received_at }
    }
}

/// A gate evaluation: the fields a gate result keeps.
#[derive(Debug)]
pub struct GateEvaluation {
    pub value: bool,
    pub rule_id: String,
    pub id_type: String,
}

/// A dynamic-config evaluation.
#[derive(Debug)]
pub struct DynamicConfigEvaluation {
    pub value: JsonValue,
    pub rule_id: String,
    pub id_type: String,
}

/// An experiment evaluation.
#[derive(Debug)]
pub struct ExperimentEvaluation {
    pub value: JsonValue,
    pub rule_id: String,
    pub id_type: String,
    pub group_name: Option<String>,
}

/// A layer evaluation.
#[derive(Debug)]
pub struct LayerEvaluation {
    pub value: JsonValue,
    pub rule_id: String,
    pub id_type: String,
}

/// A feature gate as the caller sees it.
#[derive(Debug)]
pub struct FeatureGate {
    pub name: String,
    pub rule_id: String,
    pub id_type: String,
    pub value: bool,
    pub details: EvaluationDetails,
}

/// A dynamic config as the caller sees it.
#[derive(Debug)]
pub struct DynamicConfig {
    pub name: String,
    pub rule_id: String,
    pub id_type: String,
    pub value: Vec<(String, DynamicValue)>,
    pub details: EvaluationDetails,
}

/// An experiment as the caller sees it.
#[derive(Debug)]
pub struct Experiment {
    pub name: String,
    pub rule_id: String,
    pub id_type: String,
    pub group_name: Option<String>,
    pub value: Vec<(String, DynamicValue)>,
    pub details: EvaluationDetails,
}

/// A layer as the caller sees it.
#[derive(Debug)]
pub struct Layer {
    pub name: String,
    pub rule_id: String,
    pub id_type: String,
    pub group_name: Option<String>,
    pub value: Vec<(String, DynamicValue)>,
    pub details: EvaluationDetails,
}

/// The typed parameter map carries the JSON object's members: same keys
/// in order, structurally equal values, consistent typed views. Any
/// other kind of JSON value yields the empty map.
pub open spec fn spec_entries_match(entries: Seq<(String, DynamicValue)>, v: JsonValue) -> bool {
    match v {
        JsonValue::Obj(obj) => {
            &&& entries.len() == obj@.len()
            &&& forall|k: int|
                0 <= k < entries.len() ==> (#[trigger] entries[k]).0@ == obj@[k].0@ && json_eq(
                    obj@[k].1,
                    entries[k].1.json,
                ) && entries[k].1.wf()
        },
        _ => entries.len() == 0,
    }
}

/// A parameter map that carries `v1` also carries any `v2` structurally
/// equal to it.
pub proof fn lemma_entries_match_transfer(
    entries: Seq<(String, DynamicValue)>,
    v1: JsonValue,
    v2: JsonValue,
)
    requires
        spec_entries_match(entries, v1),
        json_eq(v2, v1),
    ensures
        spec_entries_match(entries, v2),
{
    match (v2, v1) {
        (JsonValue::Obj(obj2), JsonValue::Obj(obj1)) => {
            assert forall|k: int|
                0 <= k < entries.len() implies (#[trigger] entries[k]).0@ == obj2@[k].0@
                && json_eq(obj2@[k].1, entries[k].1.json) && entries[k].1.wf() by {
                assert(obj2@[k].0@ == obj1@[k].0@ && json_eq(obj2@[k].1, obj1@[k].1));
                lemma_json_eq_trans(obj2@[k].1, obj1@[k].1, entries[k].1.json);
            }
        },
        _ => {},
    }
}

/// The members of a JSON object as a typed parameter map; any other JSON
/// value yields the empty map.
pub fn value_to_entries(v: &JsonValue) -> (r: Vec<(String, DynamicValue)>)
    ensures
        spec_entries_match(r@, *v),
{
    let entries = match v.as_object() {
        Some(entries) => entries,
        None => {
            return Vec::new();
        },
    };
    let mut out: Vec<(String, DynamicValue)> = Vec::new();
    let n = entries.len();
    for j in 0..n
        invariant
            n == entries@.len(),
            out@.len() == j,
            forall|k: int|
                0 <= k < out@.len() ==> (#[trigger] out@[k]).0@ == entries@[k].0@ && json_eq(
                    entries@[k].1,
                    out@[k].1.json,
                ) && out@[k].1.wf(),
    {
        let dv = DynamicValue::new(entries[j].1.deep_clone());
        out.push((entries[j].0.clone(), dv));
    }
    out
}

/// Put together a `FeatureGate` from an optional evaluation; with none,
/// the result is `false` and `rule_id` is `default`.
pub fn make_feature_gate(
    name: &str,
    evaluation: Option<GateEvaluation>,
    details: EvaluationDetails,
) -> (r: FeatureGate)
    ensures
        r.name@ == name@,
        r.details == details,
        match evaluation {
            Some(e) => r.value == e.value && r.rule_id@ == e.rule_id@ && r.id_type@ == e.id_type@,
            None => !r.value && r.rule_id@ == "default"@ && r.id_type@ == ""@,
        },
{
    let (value, rule_id, id_type): (bool, String, String) = match evaluation {
        Some(e) => (e.value, e.rule_id, e.id_type),
        None => (false, "default".to_owned(), "".to_owned()),
    };
    FeatureGate { name: name.to_owned(), rule_id, id_type, value, details }
}

/// The common projection of an experiment evaluation: parameter map,
/// rule id, id type and group name, with defaults when there was none.
pub fn extract_from_experiment_evaluation(evaluation: &Option<ExperimentEvaluation>) -> (r: (
    Vec<(String, DynamicValue)>,
    String,
    String,
    Option<String>,
))
    ensures
        match evaluation {
            Some(e) => r.1@ == e.rule_id@ && r.2@ == e.id_type@ && spec_entries_match(
                r.0@,
                e.value,
            ) && spec_opt_view(r.3) == spec_opt_view(e.group_name),
            None => r.0@.len() == 0 && r.1@ == "default"@ && r.2@ == ""@ && r.3 is None,
        },
{
    match evaluation {
        Some(e) => (
            value_to_entries(&e.value),
            e.rule_id.clone(),
            e.id_type.clone(),
            match &e.group_name {
                Some(g) => Some(g.clone()),
                None => None,
            },
        ),
        None => (Vec::new(), "default".to_owned(), "".to_owned(), None),
    }
}

/// Assemble a `DynamicConfig`.
pub fn make_dynamic_config(
    name: &str,
    evaluation: Option<DynamicConfigEvaluation>,
    details: EvaluationDetails,
) -> (r: DynamicConfig)
    ensures
        r.name@ == name@,
        r.details == details,
        match evaluation {
            Some(e) => r.rule_id@ == e.rule_id@ && r.id_type@ == e.id_type@ && spec_entries_match(
                r.value@,
                e.value,
            ),
            None => r.value@.len() == 0 && r.rule_id@ == "default"@ && r.id_type@ == ""@,
        },
{
    let (value, rule_id, id_type): (Vec<(String, DynamicValue)>, String, String) = match evaluation {
        Some(e) => (value_to_entries(&e.value), e.rule_id, e.id_type),
        None => (Vec::new(), "default".to_owned(), "".to_owned()),
    };
    DynamicConfig { name: name.to_owned(), rule_id, id_type, value, details }
}

/// Assemble an `Experiment`.
pub fn make_experiment(
    name: &str,
    evaluation: Option<ExperimentEvaluation>,
    details: EvaluationDetails,
) -> (r: Experiment)
    ensures
        r.name@ == name@,
        r.details == details,
        match evaluation {
            Some(e) => r.rule_id@ == e.rule_id@ && r.id_type@ == e.id_type@ && spec_entries_match(
                r.value@,
                e.value,
            ) && spec_opt_view(r.group_name) == spec_opt_view(e.group_name),
            None => r.value@.len() == 0 && r.rule_id@ == "default"@ && r.id_type@ == ""@
                && r.group_name is None,
        },
{
    let (value, rule_id, id_type, group_name) = extract_from_experiment_evaluation(&evaluation);
    Experiment { name: name.to_owned(), rule_id, id_type, group_name, value, details }
}

/// Assemble a `Layer`.
pub fn make_layer(name: &str, evaluation: Option<LayerEvaluation>, details: EvaluationDetails) -> (r:
    Layer)
    ensures
        r.name@ == name@,
        r.details == details,
        r.group_name is None,
        match evaluation {
            Some(e) => r.rule_id@ == e.rule_id@ && r.id_type@ == e.id_type@ && spec_entries_match(
                r.value@,
                e.value,
            ),
            None => r.value@.len() == 0 && r.rule_id@ == "default"@ && r.id_type@ == ""@,
        },
{
    let (value, rule_id, id_type): (Vec<(String, DynamicValue)>, String, String) = match evaluation {
        Some(e) => (value_to_entries(&e.value), e.rule_id, e.id_type),
        None => (Vec::new(), "default".to_owned(), "".to_owned()),
    };
    Layer { name: name.to_owned(), rule_id, id_type, group_name: None, value, details }
}

} // verus!
