//! The parsed ruleset model: specs, rules, conditions, and the typed
//! wrapper around raw JSON values that the evaluator reads.

use vstd::prelude::*;
use vstd::string::StrSliceExecFns;
use vstd::string::StringExecFns;

use crate::json::{spec_assoc_get, JsonValue};

verus! {

/// ASCII lower-casing of one character; anything outside `'A'..='Z'` is
/// left alone.
pub open spec fn spec_lower_char(c: char) -> char {
    if 'A' <= c && c <= 'Z' {
        (((c as u8) + 32) as char)
    } else {
        c
    }
}

/// ASCII lower-casing of a character sequence.
pub open spec fn spec_ascii_lower(s: Seq<char>) -> Seq<char> {
    s.map_values(|c: char| spec_lower_char(c))
}

fn lower_letter_str(c: char) -> (r: &'static str)
    requires
        'A' <= c && c <= 'Z',
    ensures
        r@ == seq![spec_lower_char(c)],
{
    proof {
        reveal_strlit("a");
        reveal_strlit("b");
        reveal_strlit("c");
        reveal_strlit("d");
        reveal_strlit("e");
        reveal_strlit("f");
        reveal_strlit("g");
        reveal_strlit("h");
        reveal_strlit("i");
        reveal_strlit("j");
        reveal_strlit("k");
        reveal_strlit("l");
        reveal_strlit("m");
        reveal_strlit("n");
        reveal_strlit("o");
        reveal_strlit("p");
        reveal_strlit("q");
        reveal_strlit("r");
        reveal_strlit("s");
        reveal_strlit("t");
        reveal_strlit("u");
        reveal_strlit("v");
        reveal_strlit("w");
        reveal_strlit("x");
        reveal_strlit("y");
        reveal_strlit("z");
    }
    let code = c as u32;
    if code == 65 {
        proof {
            assert("a"@ =~= seq![spec_lower_char(c)]);
        }
        "a"
    } else if code == 66 {
        proof {
            assert("b"@ =~= seq![spec_lower_char(c)]);
        }
        "b"
    } else if code == 67 {
        proof {
            assert("c"@ =~= seq![spec_lower_char(c)]);
        }
        "c"
    } else if code == 68 {
        proof {
            assert("d"@ =~= seq![spec_lower_char(c)]);
        }
        "d"
    } else if code == 69 {
        proof {
            assert("e"@ =~= seq![spec_lower_char(c)]);
        }
        "e"
    } else if code == 70 {
        proof {
            assert("f"@ =~= seq![spec_lower_char(c)]);
        }
        "f"
    } else if code == 71 {
        proof {
            assert("g"@ =~= seq![spec_lower_char(c)]);
        }
        "g"
    } else if code == 72 {
        proof {
            assert("h"@ =~= seq![spec_lower_char(c)]);
        }
        "h"
    } else if code == 73 {
        proof {
            assert("i"@ =~= seq![spec_lower_char(c)]);
        }
        "i"
    } else if code == 74 {
        proof {
            assert("j"@ =~= seq![spec_lower_char(c)]);
        }
        "j"
    } else if code == 75 {
        proof {
            assert("k"@ =~= seq![spec_lower_char(c)]);
        }
        "k"
    } else if code == 76 {
        proof {
            assert("l"@ =~= seq![spec_lower_char(c)]);
        }
        "l"
    } else if code == 77 {
        proof {
            assert("m"@ =~= seq![spec_lower_char(c)]);
        }
        "m"
    } else if code == 78 {
        proof {
            assert("n"@ =~= seq![spec_lower_char(c)]);
        }
        "n"
    } else if code == 79 {
        proof {
            assert("o"@ =~= seq![spec_lower_char(c)]);
        }
        "o"
    } else if code == 80 {
        proof {
            assert("p"@ =~= seq![spec_lower_char(c)]);
        }
        "p"
    } else if code == 81 {
        proof {
            assert("q"@ =~= seq![spec_lower_char(c)]);
        }
        "q"
    } else if code == 82 {
        proof {
            assert("r"@ =~= seq![spec_lower_char(c)]);
        }
        "r"
    } else if code == 83 {
        proof {
            assert("s"@ =~= seq![spec_lower_char(c)]);
        }
        "s"
    } else if code == 84 {
        proof {
            assert("t"@ =~= seq![spec_lower_char(c)]);
        }
        "t"
    } else if code == 85 {
        proof {
            assert("u"@ =~= seq![spec_lower_char(c)]);
        }
        "u"
    } else if code == 86 {
        proof {
            assert("v"@ =~= seq![spec_lower_char(c)]);
        }
        "v"
    } else if code == 87 {
        proof {
            assert("w"@ =~= seq![spec_lower_char(c)]);
        }
        "w"
    } else if code == 88 {
        proof {
            assert("x"@ =~= seq![spec_lower_char(c)]);
        }
        "x"
    } else if code == 89 {
        proof {
            assert("y"@ =~= seq![spec_lower_char(c)]);
        }
        "y"
    } else {
        proof {
            assert(c == 'Z');
            assert("z"@ =~= seq![spec_lower_char(c)]);
        }
        "z"
    }
}

/// ASCII lower-casing of a string; characters outside `'A'..='Z'` are kept.
pub fn ascii_lower_string(s: &String) -> (r: String)
    ensures
        r@ == spec_ascii_lower(s@),
{
    let n = s.as_str().unicode_len();
    let mut out = "".to_owned();
    proof {
        reveal_strlit("");
        assert(out@ =~= spec_ascii_lower(s@.take(0)));
    }
    for i in 0..n
        invariant
            n == s@.len(),
            out@ == spec_ascii_lower(s@.take(i as int)),
    {
        let c = s.as_str().get_char(i);
        if c >= 'A' && c <= 'Z' {
            out.append(lower_letter_str(c));
        } else {
            out.append(s.as_str().substring_char(i, i + 1));
            proof {
                assert(s@.subrange(i as int, i + 1) =~= seq![s@[i as int]]);
            }
        }
        proof {
            assert(out@ =~= spec_ascii_lower(s@.take(i + 1)));
        }
    }
    proof {
        assert(s@.take(n as int) =~= s@);
    }
    out
}

/// A raw JSON value together with its pre-computed typed views: the typed
/// fields agree with the `json` field, and string views come with an ASCII
/// lower-cased variant for case-insensitive comparisons.
#[derive(Debug)]
pub struct DynamicValue {
    pub json: JsonValue,
    pub string_value: Option<String>,
    pub lowercase_string_value: Option<String>,
    pub int_value: Option<i64>,
    pub bool_value: Option<bool>,
}

impl DynamicValue {
    /// The typed views agree with the raw value.
    pub open spec fn wf(&self) -> bool {
        &&& match self.json {
            JsonValue::Str(s) => {
                &&& self.string_value matches Some(t) && t@ == s@
                &&& self.lowercase_string_value matches Some(t) && t@ == spec_ascii_lower(s@)
            },
            _ => self.string_value is None && self.lowercase_string_value is None,
        }
        &&& match self.json {
            JsonValue::Int(n) => self.int_value == Some(n),
            _ => self.int_value is None,
        }
        &&& match self.json {
            JsonValue::Bool(b) => self.bool_value == Some(b),
            _ => self.bool_value is None,
        }
    }

    /// Wrap a raw JSON value and compute its typed views.
    pub fn new(json: JsonValue) -> (r: Self)
        ensures
            r.wf(),
            r.json == json,
    {
        let string_value = match &json {
            JsonValue::Str(s) => Some(s.clone()),
            _ => None,
        };
        let lowercase_string_value = match &string_value {
            Some(s) => Some(ascii_lower_string(s)),
            None => None,
        };
        let int_value = json.as_int();
        let bool_value = json.as_bool();
        DynamicValue { json, string_value, lowercase_string_value, int_value, bool_value }
    }

    /// A structurally equal copy.
    pub fn deep_clone(&self) -> (r: Self)
        requires
            self.wf(),
        ensures
            r.wf(),
            crate::json::json_eq(self.json, r.json),
    {
        Self::new(self.json.deep_clone())
    }
}

/// One conjunct of a rule. Unknown `condition_type` or `operator` strings
/// are kept as text; the evaluator reports them as unsupported.
#[derive(Debug)]
pub struct Condition {
    pub condition_type: String,
    pub target_value: Option<DynamicValue>,
    pub operator: Option<String>,
    pub field: Option<String>,
    pub additional_values: Vec<(String, DynamicValue)>,
    pub id_type: String,
}

/// One conjunction of conditions inside a spec; first match wins.
/// `pass_percentage` is held in hundredths of a percent (0..=10000), the
/// granularity of the 10000-slot bucketing formula, so fractional payload
/// percentages keep their two decimal places.
#[derive(Debug)]
pub struct Rule {
    pub name: String,
    pub pass_percentage: u64,
    pub return_value: DynamicValue,
    pub id: String,
    pub salt: Option<String>,
    pub conditions: Vec<String>,
    pub id_type: String,
    pub group_name: Option<String>,
    pub config_delegate: Option<String>,
    pub is_experiment_group: Option<bool>,
}

/// A feature gate, dynamic config, or layer/experiment definition.
#[derive(Debug)]
pub struct Spec {
    pub spec_type: String,
    pub salt: String,
    pub default_value: DynamicValue,
    pub enabled: bool,
    pub rules: Vec<Rule>,
    pub id_type: String,
    pub explicit_parameters: Option<Vec<String>>,
    pub entity: String,
    pub has_shared_params: Option<bool>,
    pub is_active: Option<bool>,
}

/// A full ruleset payload: the three spec maps, the shared condition map,
/// the experiment-to-layer index, and the server timestamp (`lcut`).
#[derive(Debug)]
pub struct SpecsResponseFull {
    pub feature_gates: Vec<(String, Spec)>,
    pub dynamic_configs: Vec<(String, Spec)>,
    pub layer_configs: Vec<(String, Spec)>,
    pub condition_map: Vec<(String, Condition)>,
    pub experiment_to_layer: Vec<(String, String)>,
    pub has_updates: bool,
    pub time: u64,
}

/// The degenerate payload a server returns when nothing changed.
#[derive(Debug)]
pub struct SpecsResponseNoUpdates {
    pub has_updates: bool,
}

/// A parsed specs payload.
#[derive(Debug)]
pub enum SpecsResponse {
    Full(Box<SpecsResponseFull>),
    NoUpdates(SpecsResponseNoUpdates),
}

/// Every rule's pass percentage is in `0..=100`, every typed view is
/// consistent, and every rule id is as parsed.
pub open spec fn spec_rule_wf(r: Rule) -> bool {
    &&& r.pass_percentage <= 10000
    &&& r.return_value.wf()
}

pub open spec fn spec_spec_wf(s: Spec) -> bool {
    &&& s.default_value.wf()
    &&& forall|i: int| 0 <= i < s.rules@.len() ==> spec_rule_wf(#[trigger] s.rules@[i])
}

pub open spec fn spec_map_wf(entries: Seq<(String, Spec)>) -> bool {
    forall|i: int| 0 <= i < entries.len() ==> spec_spec_wf((#[trigger] entries[i]).1)
}

pub open spec fn spec_condition_wf(c: Condition) -> bool {
    &&& match c.target_value {
        Some(tv) => tv.wf(),
        None => true,
    }
    &&& forall|i: int|
        0 <= i < c.additional_values@.len() ==> (#[trigger] c.additional_values@[i]).1.wf()
}

pub open spec fn spec_condition_map_wf(entries: Seq<(String, Condition)>) -> bool {
    forall|i: int| 0 <= i < entries.len() ==> spec_condition_wf((#[trigger] entries[i]).1)
}

/// No two entries share a key: lookups are unambiguous, as they are in
/// the hash maps a JSON object usually deserializes into.
pub open spec fn spec_keys_unique<T>(entries: Seq<(String, T)>) -> bool {
    forall|i: int, j: int|
        0 <= i < j < entries.len() ==> (#[trigger] entries[i]).0@ != (#[trigger] entries[j]).0@
}

/// Position of `key` among the entries, if present.
fn position_of_key<T>(entries: &Vec<(String, T)>, key: &String) -> (r: Option<usize>)
    ensures
        match r {
            Some(i) => i < entries@.len() && entries@[i as int].0@ == key@,
            None => forall|i: int|
                0 <= i < entries@.len() ==> (#[trigger] entries@[i]).0@ != key@,
        },
{
    let n = entries.len();
    for j in 0..n
        invariant
            n == entries@.len(),
            forall|i: int| 0 <= i < j ==> (#[trigger] entries@[i]).0@ != key@,
    {
        if entries[j].0.eq(key) {
            return Some(j);
        }
    }
    None
}

/// Well-formedness of a full payload: every parsed piece is internally
/// consistent and every map's keys are unique (a duplicated JSON key
/// keeps its last binding, as a hash map would).
pub open spec fn spec_response_wf(r: SpecsResponseFull) -> bool {
    &&& spec_map_wf(r.feature_gates@)
    &&& spec_map_wf(r.dynamic_configs@)
    &&& spec_map_wf(r.layer_configs@)
    &&& spec_condition_map_wf(r.condition_map@)
    &&& spec_keys_unique(r.feature_gates@)
    &&& spec_keys_unique(r.dynamic_configs@)
    &&& spec_keys_unique(r.layer_configs@)
    &&& spec_keys_unique(r.condition_map@)
}

fn get_string_field(v: &JsonValue, key: &str) -> (r: Option<String>)
{
    match v.obj_get(key) {
        Some(field) => match field.as_str() {
            Some(s) => Some(s.clone()),
            None => None,
        },
        None => None,
    }
}

fn get_string_field_or(v: &JsonValue, key: &str, default: &str) -> (r: String)
{
    match get_string_field(v, key) {
        Some(s) => s,
        None => default.to_owned(),
    }
}

fn get_bool_field(v: &JsonValue, key: &str) -> (r: Option<bool>)
    ensures
        match r {
            Some(b) => v.spec_obj_get(key@) == Some(JsonValue::Bool(b)),
            None => !match v.spec_obj_get(key@) {
                Some(f) => f is Bool,
                None => false,
            },
        },
{
    match v.obj_get(key) {
        Some(field) => field.as_bool(),
        None => None,
    }
}

fn parse_dyn_map(v: &JsonValue) -> (r: Vec<(String, DynamicValue)>)
    ensures
        forall|i: int| 0 <= i < r@.len() ==> (#[trigger] r@[i]).1.wf(),
{
    let entries = match v.as_object() {
        Some(entries) => entries,
        None => {
            return Vec::new();
        },
    };
    let mut out: Vec<(String, DynamicValue)> = Vec::new();
    let n = entries.len();
    for j in 0..n
        invariant
            n == entries@.len(),
            forall|i: int| 0 <= i < out@.len() ==> (#[trigger] out@[i]).1.wf(),
    {
        out.push((entries[j].0.clone(), DynamicValue::new(entries[j].1.deep_clone())));
    }
    out
}

fn parse_condition(v: &JsonValue) -> (r: Option<Condition>)
    ensures
        match r {
            Some(c) => spec_condition_wf(c),
            None => true,
        },
{
    if v.as_object().is_none() {
        return None;
    }
    let condition_type = get_string_field_or(v, "type", "");
    let operator = get_string_field(v, "operator");
    let field = get_string_field(v, "field");
    let id_type = get_string_field_or(v, "idType", "");
    let target_value = match v.obj_get("targetValue") {
        Some(t) => Some(DynamicValue::new(t.deep_clone())),
        None => None,
    };
    let additional_values = match v.obj_get("additionalValues") {
        Some(a) => parse_dyn_map(a),
        None => Vec::new(),
    };
    Some(
        Condition {
            condition_type,
            target_value,
            operator,
            field,
            additional_values,
            id_type,
        },
    )
}

fn parse_string_array(v: &JsonValue) -> (r: Option<Vec<String>>)
{
    let items = match v.as_array() {
        Some(items) => items,
        None => {
            return None;
        },
    };
    let mut out: Vec<String> = Vec::new();
    let n = items.len();
    for j in 0..n
        invariant
            n == items@.len(),
    {
        match items[j].as_str() {
            Some(s) => out.push(s.clone()),
            None => {
                return None;
            },
        }
    }
    Some(out)
}

/// Read a pass percentage as hundredths of a percent, clamped to
/// `0..=10000`: an integer percent is scaled by 100; a fractional
/// percent keeps its first two decimal places (further digits, or an
/// exponent tail in the lexeme, are dropped).
fn percentage_to_bp(v: &JsonValue) -> (r: Option<u64>)
    ensures
        r matches Some(bp) ==> bp <= 10000,
{
    match v {
        JsonValue::Int(n) => {
            if *n <= 0 {
                Some(0)
            } else if *n >= 100 {
                Some(10000)
            } else {
                Some((*n as u64) * 100)
            }
        },
        JsonValue::Num(lexeme) => {
            let chars = lexeme.as_str();
            if !chars.is_ascii() {
                return None;
            }
            let n = chars.unicode_len();
            let mut i: usize = 0;
            if i < n && chars.get_ascii(i) == 45 {
                return Some(0);
            }
            let mut whole: u64 = 0;
            while i < n
                invariant
                    chars.is_ascii(),
                    n == chars@.len(),
                    i <= n,
                    whole <= 100,
                decreases n - i,
            {
                let c = chars.get_ascii(i);
                if c < 48 || c > 57 {
                    break ;
                }
                let d = (c - 48) as u64;
                whole = if whole * 10 + d >= 100 {
                    100
                } else {
                    whole * 10 + d
                };
                i = i + 1;
            }
            let mut bp: u64 = whole * 100;
            if i < n && chars.get_ascii(i) == 46 {
                if n - i > 1 {
                    let c = chars.get_ascii(i + 1);
                    if c >= 48 && c <= 57 {
                        bp = bp + ((c - 48) as u64) * 10;
                    }
                }
                if n - i > 2 {
                    let c = chars.get_ascii(i + 2);
                    if c >= 48 && c <= 57 {
                        bp = bp + (c - 48) as u64;
                    }
                }
            }
            Some(
                if bp >= 10000 {
                    10000
                } else {
                    bp
                },
            )
        },
        _ => None,
    }
}

fn parse_rule(v: &JsonValue) -> (r: Option<Rule>)
    ensures
        match r {
            Some(rule) => spec_rule_wf(rule),
            None => true,
        },
{
    if v.as_object().is_none() {
        return None;
    }
    let name = get_string_field_or(v, "name", "");
    let id = match get_string_field(v, "id") {
        Some(s) => s,
        None => {
            return None;
        },
    };
    let pass_percentage: u64 = match v.obj_get("passPercentage") {
        Some(p) => match percentage_to_bp(p) {
            Some(bp) => bp,
            None => {
                return None;
            },
        },
        None => {
            return None;
        },
    };
    let return_value = match v.obj_get("returnValue") {
        Some(t) => DynamicValue::new(t.deep_clone()),
        None => DynamicValue::new(JsonValue::Null),
    };
    let conditions = match v.obj_get("conditions") {
        Some(c) => match parse_string_array(c) {
            Some(list) => list,
            None => {
                return None;
            },
        },
        None => Vec::new(),
    };
    Some(
        Rule {
            name,
            pass_percentage,
            return_value,
            id,
            salt: get_string_field(v, "salt"),
            conditions,
            id_type: get_string_field_or(v, "idType", "userID"),
            group_name: get_string_field(v, "groupName"),
            config_delegate: get_string_field(v, "configDelegate"),
            is_experiment_group: get_bool_field(v, "isExperimentGroup"),
        },
    )
}

fn parse_spec(v: &JsonValue) -> (r: Option<Spec>)
    ensures
        match r {
            Some(s) => spec_spec_wf(s),
            None => true,
        },
{
    if v.as_object().is_none() {
        return None;
    }
    let mut rules: Vec<Rule> = Vec::new();
    match v.obj_get("rules") {
        Some(rules_json) => {
            let items = match rules_json.as_array() {
                Some(items) => items,
                None => {
                    return None;
                },
            };
            let n = items.len();
            for j in 0..n
                invariant
                    n == items@.len(),
                    forall|k: int| 0 <= k < rules@.len() ==> spec_rule_wf(#[trigger] rules@[k]),
            {
                match parse_rule(&items[j]) {
                    Some(rule) => rules.push(rule),
                    None => {
                        return None;
                    },
                }
            }
        },
        None => {},
    }
    let default_value = match v.obj_get("defaultValue") {
        Some(t) => DynamicValue::new(t.deep_clone()),
        None => DynamicValue::new(JsonValue::Null),
    };
    let explicit_parameters = match v.obj_get("explicitParameters") {
        Some(e) => parse_string_array(e),
        None => None,
    };
    Some(
        Spec {
            spec_type: get_string_field_or(v, "type", ""),
            salt: get_string_field_or(v, "salt", ""),
            default_value,
            enabled: match get_bool_field(v, "enabled") {
                Some(b) => b,
                None => true,
            },
            rules,
            id_type: get_string_field_or(v, "idType", "userID"),
            explicit_parameters,
            entity: get_string_field_or(v, "entity", ""),
            has_shared_params: get_bool_field(v, "hasSharedParams"),
            is_active: get_bool_field(v, "isActive"),
        },
    )
}

fn parse_spec_map(v: &JsonValue) -> (r: Option<Vec<(String, Spec)>>)
    ensures
        match r {
            Some(entries) => spec_map_wf(entries@) && spec_keys_unique(entries@),
            None => true,
        },
{
    let entries = match v.as_object() {
        Some(entries) => entries,
        None => {
            return None;
        },
    };
    let mut out: Vec<(String, Spec)> = Vec::new();
    let n = entries.len();
    for j in 0..n
        invariant
            n == entries@.len(),
            spec_map_wf(out@),
            spec_keys_unique(out@),
    {
        let parsed = match parse_spec(&entries[j].1) {
            Some(spec) => spec,
            None => {
                return None;
            },
        };
        let key = entries[j].0.clone();
        let ghost prev = out@;
        match position_of_key(&out, &key) {
            Some(idx) => {
                out[idx] = (key, parsed);
                proof {
                    assert(spec_keys_unique(out@)) by {
                        assert(forall|i: int|
                            0 <= i < out@.len() && i != idx ==> (#[trigger] out@[i]) == prev[i]);
                        assert(out@[idx as int].0@ == prev[idx as int].0@);
                    }
                }
            },
            None => {
                out.push((key, parsed));
                proof {
                    assert(spec_keys_unique(out@)) by {
                        assert(forall|i: int|
                            0 <= i < prev.len() ==> (#[trigger] out@[i]) == prev[i]);
                        assert(out@.last().0@ == key@);
                    }
                }
            },
        }
    }
    Some(out)
}

fn parse_condition_map(v: &JsonValue) -> (r: Option<Vec<(String, Condition)>>)
    ensures
        match r {
            Some(entries) => spec_condition_map_wf(entries@) && spec_keys_unique(entries@),
            None => true,
        },
{
    let entries = match v.as_object() {
        Some(entries) => entries,
        None => {
            return None;
        },
    };
    let mut out: Vec<(String, Condition)> = Vec::new();
    let n = entries.len();
    for j in 0..n
        invariant
            n == entries@.len(),
            spec_condition_map_wf(out@),
            spec_keys_unique(out@),
    {
        let parsed = match parse_condition(&entries[j].1) {
            Some(c) => c,
            None => {
                return None;
            },
        };
        let key = entries[j].0.clone();
        let ghost prev = out@;
        match position_of_key(&out, &key) {
            Some(idx) => {
                out[idx] = (key, parsed);
                proof {
                    assert(spec_keys_unique(out@)) by {
                        assert(forall|i: int|
                            0 <= i < out@.len() && i != idx ==> (#[trigger] out@[i]) == prev[i]);
                        assert(out@[idx as int].0@ == prev[idx as int].0@);
                    }
                }
            },
            None => {
                out.push((key, parsed));
                proof {
                    assert(spec_keys_unique(out@)) by {
                        assert(forall|i: int|
                            0 <= i < prev.len() ==> (#[trigger] out@[i]) == prev[i]);
                        assert(out@.last().0@ == key@);
                    }
                }
            },
        }
    }
    Some(out)
}

fn parse_string_map(v: &JsonValue) -> (r: Option<Vec<(String, String)>>)
{
    let entries = match v.as_object() {
        Some(entries) => entries,
        None => {
            return None;
        },
    };
    let mut out: Vec<(String, String)> = Vec::new();
    let n = entries.len();
    for j in 0..n
        invariant
            n == entries@.len(),
    {
        match entries[j].1.as_str() {
            Some(s) => out.push((entries[j].0.clone(), s.clone())),
            None => {
                return None;
            },
        }
    }
    Some(out)
}

/// Parse a specs payload that was already read as JSON.
///
/// A payload with `"has_updates": false` parses to `NoUpdates`. A full
/// payload must carry `"has_updates": true`, a non-negative integer
/// `"time"`, and well-formed spec maps; the parsed `time` is exactly the
/// payload's, which is what the store's monotonicity check runs on.
pub fn parse_specs_response(v: &JsonValue) -> (r: Option<SpecsResponse>)
    ensures
        match r {
            Some(resp) => match resp {
                SpecsResponse::Full(full) => {
                    &&& full.has_updates
                    &&& v.spec_obj_get("has_updates"@) == Some(JsonValue::Bool(true))
                    &&& v.spec_obj_get("time"@) == Some(JsonValue::Int(full.time as i64))
                    &&& spec_response_wf(*full)
                },
                SpecsResponse::NoUpdates(nu) => {
                    &&& !nu.has_updates
                    &&& v.spec_obj_get("has_updates"@) == Some(JsonValue::Bool(false))
                },
            },
            None => true,
        },
{
    let has_updates = match get_bool_field(v, "has_updates") {
        Some(b) => b,
        None => {
            return None;
        },
    };
    if !has_updates {
        return Some(SpecsResponse::NoUpdates(SpecsResponseNoUpdates { has_updates: false }));
    }
    let time_raw = match v.obj_get("time") {
        Some(t) => match t.as_int() {
            Some(n) => n,
            None => {
                return None;
            },
        },
        None => {
            return None;
        },
    };
    if time_raw < 0 {
        return None;
    }
    let feature_gates = match v.obj_get("feature_gates") {
        Some(m) => match parse_spec_map(m) {
            Some(entries) => entries,
            None => {
                return None;
            },
        },
        None => Vec::new(),
    };
    let dynamic_configs = match v.obj_get("dynamic_configs") {
        Some(m) => match parse_spec_map(m) {
            Some(entries) => entries,
            None => {
                return None;
            },
        },
        None => Vec::new(),
    };
    let layer_configs = match v.obj_get("layer_configs") {
        Some(m) => match parse_spec_map(m) {
            Some(entries) => entries,
            None => {
                return None;
            },
        },
        None => Vec::new(),
    };
    let condition_map = match v.obj_get("condition_map") {
        Some(m) => match parse_condition_map(m) {
            Some(entries) => entries,
            None => {
                return None;
            },
        },
        None => Vec::new(),
    };
    let experiment_to_layer = match v.obj_get("experiment_to_layer") {
        Some(m) => match parse_string_map(m) {
            Some(entries) => entries,
            None => {
                return None;
            },
        },
        None => Vec::new(),
    };
    Some(
        SpecsResponse::Full(
            Box::new(
                SpecsResponseFull {
                    feature_gates,
                    dynamic_configs,
                    layer_configs,
                    condition_map,
                    experiment_to_layer,
                    has_updates: true,
                    time: time_raw as u64,
                },
            ),
        ),
    )
}

/// Look up a spec by name in a parsed map.
pub fn spec_map_get<'a>(entries: &'a Vec<(String, Spec)>, name: &String) -> (r: Option<&'a Spec>)
    ensures
        match r {
            Some(s) => spec_assoc_get(entries@, name@) == Some(*s),
            None => spec_assoc_get(entries@, name@) is None,
        },
{
    let n = entries.len();
    proof {
        assert(entries@.skip(0) =~= entries@);
    }
    for j in 0..n
        invariant
            n == entries@.len(),
            spec_assoc_get(entries@, name@) == spec_assoc_get(entries@.skip(j as int), name@),
    {
        if entries[j].0.eq(name) {
            proof {
                assert(entries@.skip(j as int).first() == entries@[j as int]);
            }
            return Some(&entries[j].1);
        }
        proof {
            assert(entries@.skip(j as int).drop_first() =~= entries@.skip(j + 1));
        }
    }
    proof {
        assert(entries@.skip(n as int) =~= Seq::<(String, Spec)>::empty());
    }
    None
}

/// Look up a condition by key in the shared condition map.
pub fn condition_map_get<'a>(entries: &'a Vec<(String, Condition)>, name: &String) -> (r: Option<
    &'a Condition,
>)
    ensures
        match r {
            Some(c) => spec_assoc_get(entries@, name@) == Some(*c),
            None => spec_assoc_get(entries@, name@) is None,
        },
{
    let n = entries.len();
    proof {
        assert(entries@.skip(0) =~= entries@);
    }
    for j in 0..n
        invariant
            n == entries@.len(),
            spec_assoc_get(entries@, name@) == spec_assoc_get(entries@.skip(j as int), name@),
    {
        if entries[j].0.eq(name) {
            proof {
                assert(entries@.skip(j as int).first() == entries@[j as int]);
            }
            return Some(&entries[j].1);
        }
        proof {
            assert(entries@.skip(j as int).drop_first() =~= entries@.skip(j + 1));
        }
    }
    proof {
        assert(entries@.skip(n as int) =~= Seq::<(String, Condition)>::empty());
    }
    None
}

} // verus!
