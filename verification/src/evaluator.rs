//! The evaluator: a user against a named gate, config, experiment or layer.
//!
//! The whole evaluation is mirrored by spec functions over the parsed
//! ruleset, so the executable evaluator is proved to return exactly the
//! outcome those functions describe: first passing rule wins, conditions
//! are conjunctive, bucketing is the named SHA-256 projection, unknown
//! condition types and operators poison the result as unsupported, and a
//! matching rule with a delegate hands the computation to the delegated
//! spec.

use vstd::prelude::*;
use vstd::string::StrSliceExecFns;
use vstd::string::StringExecFns;

use crate::hashing::{spec_evaluation_hash, string_eq_str, Hashing};
use crate::json::{json_eq, spec_assoc_get, JsonValue};
use crate::spec_types::{
    ascii_lower_string, condition_map_get, spec_ascii_lower, spec_map_wf, spec_response_wf,
    spec_map_get, Condition, DynamicValue, Rule, Spec, SpecsResponseFull,
};
use crate::user::{
    assoc_ci_str, get_unit_id, get_user_field_value, spec_assoc_ci_str, spec_field_view,
    spec_unit_id, spec_user_field_value, EvalFieldValue, SpecFieldValue, StatsigUser,
};
use crate::version::{parse_version, spec_version_lt, spec_version_nums, version_lt};

verus! {

/// What one condition evaluates to. An unknown type or operator is neither
/// a pass nor a fail: it is reported, and the containing rule fails while
/// evaluation continues.
#[derive(Clone, Copy, Debug, PartialEq, Eq, Structural)]
pub enum ConditionResult {
    Pass,
    Fail,
    Unsupported,
}

/// `needle` occurs in `haystack` at offset `k`.
pub open spec fn spec_occurs_at(haystack: Seq<char>, needle: Seq<char>, k: int) -> bool {
    0 <= k && k + needle.len() <= haystack.len() && haystack.subrange(k, k + needle.len())
        == needle
}

/// `needle` occurs somewhere in `haystack`.
pub open spec fn spec_contains(haystack: Seq<char>, needle: Seq<char>) -> bool {
    exists|k: int| spec_occurs_at(haystack, needle, k)
}

/// True iff `needle` occurs in `haystack` at offset `k`.
fn str_occurs_at(haystack: &String, needle: &String, k: usize) -> (r: bool)
    requires
        k + needle@.len() <= haystack@.len(),
    ensures
        r == spec_occurs_at(haystack@, needle@, k as int),
{
    let m = needle.as_str().unicode_len();
    let hn = haystack.as_str().unicode_len();
    for j in 0..m
        invariant
            m == needle@.len(),
            hn == haystack@.len(),
            k + m <= hn,
            haystack@.subrange(k as int, k + j) =~= needle@.subrange(0, j as int),
    {
        let hc = haystack.as_str().get_char(k + j);
        let nc = needle.as_str().get_char(j);
        if hc != nc {
            proof {
                assert(haystack@.subrange(k as int, k + m)[j as int] == haystack@[k + j]);
                assert(needle@[j as int] != haystack@[k + j]);
            }
            return false;
        }
        proof {
            assert(haystack@.subrange(k as int, k + j + 1) =~= needle@.subrange(0, j + 1));
        }
    }
    proof {
        assert(haystack@.subrange(k as int, k + m) =~= needle@);
    }
    true
}

/// Substring search: true iff `needle` occurs in `haystack`.
pub fn str_contains(haystack: &String, needle: &String) -> (r: bool)
    ensures
        r == spec_contains(haystack@, needle@),
{
    let n = haystack.as_str().unicode_len();
    let m = needle.as_str().unicode_len();
    if m > n {
        proof {
            assert(forall|k: int| !spec_occurs_at(haystack@, needle@, k));
        }
        return false;
    }
    if m == 0 {
        proof {
            assert(haystack@.subrange(0, 0) =~= needle@);
            assert(spec_occurs_at(haystack@, needle@, 0));
        }
        return true;
    }
    let last = n - m;
    for k in 0..(last + 1)
        invariant
            n == haystack@.len(),
            m == needle@.len(),
            0 < m <= n,
            last == n - m,
            forall|k2: int| 0 <= k2 < k ==> !spec_occurs_at(haystack@, needle@, k2),
    {
        if str_occurs_at(haystack, needle, k) {
            return true;
        }
    }
    proof {
        assert(forall|k2: int|
            k2 > last as int ==> !spec_occurs_at(haystack@, needle@, k2));
    }
    false
}

/// Prefix test: true iff `haystack` starts with `needle`.
pub fn str_starts_with(haystack: &String, needle: &String) -> (r: bool)
    ensures
        r == spec_occurs_at(haystack@, needle@, 0),
{
    let n = haystack.as_str().unicode_len();
    let m = needle.as_str().unicode_len();
    if m > n {
        return false;
    }
    str_occurs_at(haystack, needle, 0)
}

/// Case-insensitive equality of a user attribute and one JSON value:
/// text by lower-cased content, numbers and flags by value, a missing
/// attribute only equals JSON null.
pub open spec fn spec_value_eq_ci(field: SpecFieldValue, v: JsonValue) -> bool {
    match (field, v) {
        (SpecFieldValue::SfText(f), JsonValue::Str(s)) => spec_ascii_lower(f) == spec_ascii_lower(
            s@,
        ),
        (SpecFieldValue::SfNum(n), JsonValue::Int(m)) => n == m as int,
        (SpecFieldValue::SfFlag(a), JsonValue::Bool(b)) => a == b,
        (SpecFieldValue::SfMissing, JsonValue::Null) => true,
        _ => false,
    }
}

fn text_of_field(field: &EvalFieldValue) -> (r: Option<&String>)
    ensures
        match r {
            Some(s) => spec_field_view(*field) == SpecFieldValue::SfText(s@),
            None => !(spec_field_view(*field) is SfText),
        },
{
    match field {
        EvalFieldValue::Text(s) => Some(s),
        _ => None,
    }
}

/// Case-insensitive equality of a user attribute and a raw JSON value.
fn value_eq_json(field: &EvalFieldValue, v: &JsonValue) -> (r: bool)
    ensures
        r == spec_value_eq_ci(spec_field_view(*field), *v),
{
    match (field, v) {
        (EvalFieldValue::Text(f), JsonValue::Str(s)) => {
            let fl = ascii_lower_string(f);
            let sl = ascii_lower_string(s);
            fl.eq(&sl)
        },
        (EvalFieldValue::Num(n), JsonValue::Int(m)) => *n == *m,
        (EvalFieldValue::Flag(a), JsonValue::Bool(b)) => *a == *b,
        (EvalFieldValue::Missing, JsonValue::Null) => true,
        _ => false,
    }
}

/// Case-insensitive equality against the condition's target.
pub open spec fn spec_eq_target(field: SpecFieldValue, target: Option<DynamicValue>) -> bool {
    match target {
        Some(d) => spec_value_eq_ci(field, d.json),
        None => field is SfMissing,
    }
}

fn value_eq_target(field: &EvalFieldValue, target: &Option<DynamicValue>) -> (r: bool)
    ensures
        r == spec_eq_target(spec_field_view(*field), *target),
{
    match target {
        Some(d) => value_eq_json(field, &d.json),
        None => match field {
            EvalFieldValue::Missing => true,
            _ => false,
        },
    }
}

/// Membership of a user attribute in a list of JSON values, case-folded.
pub open spec fn spec_any_in_items(field: SpecFieldValue, items: Seq<JsonValue>) -> bool {
    exists|i: int| 0 <= i < items.len() && spec_value_eq_ci(field, #[trigger] items[i])
}

/// Membership of a user attribute in the target array, case-folded.
pub open spec fn spec_any_match(field: SpecFieldValue, target: Option<DynamicValue>) -> bool {
    match target {
        Some(d) => match d.json {
            JsonValue::Arr(items) => spec_any_in_items(field, items@),
            _ => false,
        },
        None => false,
    }
}

fn any_match(field: &EvalFieldValue, target: &Option<DynamicValue>) -> (r: bool)
    ensures
        r == spec_any_match(spec_field_view(*field), *target),
{
    let items = match target {
        Some(d) => match d.json.as_array() {
            Some(items) => items,
            None => {
                return false;
            },
        },
        None => {
            return false;
        },
    };
    let n = items.len();
    for i in 0..n
        invariant
            n == items@.len(),
            target matches Some(d) && d.json == JsonValue::Arr(*items),
            forall|i2: int|
                0 <= i2 < i ==> !spec_value_eq_ci(spec_field_view(*field), #[trigger] items@[i2]),
    {
        if value_eq_json(field, &items[i]) {
            proof {
                assert(spec_any_in_items(spec_field_view(*field), items@)) by {
                    assert(0 <= i < items@.len() && spec_value_eq_ci(
                        spec_field_view(*field),
                        items@[i as int],
                    ));
                }
            }
            return true;
        }
    }
    false
}

/// One target-array member matches the attribute text: a string that is a
/// prefix of it (or, without `prefix_only`, occurs in it), case-folded.
pub open spec fn spec_text_item_match(f: Seq<char>, item: JsonValue, prefix_only: bool) -> bool {
    match item {
        JsonValue::Str(e) => if prefix_only {
            spec_occurs_at(spec_ascii_lower(f), spec_ascii_lower(e@), 0)
        } else {
            spec_contains(spec_ascii_lower(f), spec_ascii_lower(e@))
        },
        _ => false,
    }
}

/// Some text member of a list of JSON values matches the attribute text.
pub open spec fn spec_text_list_match(f: Seq<char>, items: Seq<JsonValue>, prefix_only: bool) -> bool {
    exists|i: int| 0 <= i < items.len() && spec_text_item_match(f, #[trigger] items[i], prefix_only)
}

/// Some text member of the target array matches the attribute text.
pub open spec fn spec_string_list_match(
    field: SpecFieldValue,
    target: Option<DynamicValue>,
    prefix_only: bool,
) -> bool {
    match (field, target) {
        (SpecFieldValue::SfText(f), Some(d)) => match d.json {
            JsonValue::Arr(items) => spec_text_list_match(f, items@, prefix_only),
            _ => false,
        },
        _ => false,
    }
}

fn string_list_match(field: &EvalFieldValue, target: &Option<DynamicValue>, prefix_only: bool) -> (r:
    bool)
    ensures
        r == spec_string_list_match(spec_field_view(*field), *target, prefix_only),
{
    let f = match text_of_field(field) {
        Some(f) => f,
        None => {
            return false;
        },
    };
    let items = match target {
        Some(d) => match d.json.as_array() {
            Some(items) => items,
            None => {
                return false;
            },
        },
        None => {
            return false;
        },
    };
    let fl = ascii_lower_string(f);
    let n = items.len();
    for i in 0..n
        invariant
            n == items@.len(),
            target matches Some(d) && d.json == JsonValue::Arr(*items),
            fl@ == spec_ascii_lower(f@),
            spec_field_view(*field) == SpecFieldValue::SfText(f@),
            forall|i2: int|
                0 <= i2 < i ==> !spec_text_item_match(f@, #[trigger] items@[i2], prefix_only),
    {
        match items[i].as_str() {
            Some(e) => {
                let el = ascii_lower_string(e);
                let hit = if prefix_only {
                    str_starts_with(&fl, &el)
                } else {
                    str_contains(&fl, &el)
                };
                if hit {
                    proof {
                        assert(spec_text_list_match(f@, items@, prefix_only)) by {
                            assert(0 <= i < items@.len() && spec_text_item_match(
                                f@,
                                items@[i as int],
                                prefix_only,
                            ));
                        }
                    }
                    return true;
                }
            },
            None => {},
        }
    }
    false
}

/// Day length in milliseconds, for the `on` time operator.
pub const MS_PER_DAY: i64 = 86400000;

/// Numeric comparison of a user attribute and the target. `0` is `gt`,
/// `1` is `gte`, `2` is `lt`, `3` is `lte`, `4` is same-calendar-day.
pub open spec fn spec_num_compare(
    field: SpecFieldValue,
    target: Option<DynamicValue>,
    mode: u8,
) -> bool {
    match (field, target) {
        (SpecFieldValue::SfNum(n), Some(d)) => match d.json {
            JsonValue::Int(t) => {
                if mode == 0 {
                    n > t as int
                } else if mode == 1 {
                    n >= t as int
                } else if mode == 2 {
                    n < t as int
                } else if mode == 3 {
                    n <= t as int
                } else {
                    if n >= 0 && t >= 0 {
                        n / (MS_PER_DAY as int) == (t as int) / (MS_PER_DAY as int)
                    } else {
                        n == t as int
                    }
                }
            },
            _ => false,
        },
        _ => false,
    }
}

fn num_compare(field: &EvalFieldValue, target: &Option<DynamicValue>, mode: u8) -> (r: bool)
    ensures
        r == spec_num_compare(spec_field_view(*field), *target, mode),
{
    let n = match field {
        EvalFieldValue::Num(n) => *n,
        _ => {
            return false;
        },
    };
    let t = match target {
        Some(d) => match d.json.as_int() {
            Some(t) => t,
            None => {
                return false;
            },
        },
        None => {
            return false;
        },
    };
    if mode == 0 {
        n > t
    } else if mode == 1 {
        n >= t
    } else if mode == 2 {
        n < t
    } else if mode == 3 {
        n <= t
    } else {
        if n >= 0 && t >= 0 {
            n / MS_PER_DAY == t / MS_PER_DAY
        } else {
            n == t
        }
    }
}

/// Whether a regex pattern compiles, and whether it then matches a text:
/// both depend on the two strings alone. `None` stands for a pattern that
/// does not compile.
pub uninterp spec fn spec_regex_match(pattern: Seq<char>, text: Seq<char>) -> Option<bool>;

/// Relies on regex's `Regex::new` and `Regex::is_match`: compiling is a
/// pure function of the pattern, matching of the pattern and the text.
/// The original pre-compiles patterns at parse time; recompiling per
/// evaluation changes no outcome.
#[verifier::external_body]
fn regex_is_match(pattern: &String, text: &String) -> (r: Option<bool>)
    ensures
        r == spec_regex_match(pattern@, text@),
{
    match regex::Regex::new(pattern) {
        Ok(re) => Some(re.is_match(text)),
        Err(_) => None,
    }
}

/// The `str_matches` operator: the attribute text matches the target
/// pattern; a missing text, a non-string target or a pattern that does
/// not compile fails the condition.
pub open spec fn spec_str_matches(field: SpecFieldValue, target: Option<DynamicValue>) -> bool {
    match (field, target) {
        (SpecFieldValue::SfText(f), Some(d)) => match d.json {
            JsonValue::Str(p) => spec_regex_match(p@, f) == Some(true),
            _ => false,
        },
        _ => false,
    }
}

fn str_matches(field: &EvalFieldValue, target: &Option<DynamicValue>) -> (r: bool)
    ensures
        r == spec_str_matches(spec_field_view(*field), *target),
{
    let f = match text_of_field(field) {
        Some(f) => f,
        None => {
            return false;
        },
    };
    let p = match target {
        Some(d) => match d.json.as_str() {
            Some(p) => p,
            None => {
                return false;
            },
        },
        None => {
            return false;
        },
    };
    match regex_is_match(p, f) {
        Some(b) => b,
        None => false,
    }
}

/// The version operators: both sides must parse as dotted versions.
/// `0` is greater, `1` greater-or-equal, `2` less, `3` less-or-equal,
/// `4` equal, `5` unequal.
pub open spec fn spec_version_op(
    field: SpecFieldValue,
    target: Option<DynamicValue>,
    mode: u8,
) -> bool {
    match (field, target) {
        (SpecFieldValue::SfText(f), Some(d)) => match d.json {
            JsonValue::Str(t) => match (spec_version_nums(f), spec_version_nums(t@)) {
                (Some(a), Some(b)) => {
                    if mode == 0 {
                        spec_version_lt(b, a)
                    } else if mode == 1 {
                        !spec_version_lt(a, b)
                    } else if mode == 2 {
                        spec_version_lt(a, b)
                    } else if mode == 3 {
                        !spec_version_lt(b, a)
                    } else if mode == 4 {
                        !spec_version_lt(a, b) && !spec_version_lt(b, a)
                    } else {
                        spec_version_lt(a, b) || spec_version_lt(b, a)
                    }
                },
                _ => false,
            },
            _ => false,
        },
        _ => false,
    }
}

fn version_op(field: &EvalFieldValue, target: &Option<DynamicValue>, mode: u8) -> (r: bool)
    ensures
        r == spec_version_op(spec_field_view(*field), *target, mode),
{
    let f = match text_of_field(field) {
        Some(f) => f,
        None => {
            return false;
        },
    };
    let t = match target {
        Some(d) => match d.json.as_str() {
            Some(t) => t,
            None => {
                return false;
            },
        },
        None => {
            return false;
        },
    };
    let a = match parse_version(f) {
        Some(a) => a,
        None => {
            return false;
        },
    };
    let b = match parse_version(t) {
        Some(b) => b,
        None => {
            return false;
        },
    };
    if mode == 0 {
        version_lt(&b, &a)
    } else if mode == 1 {
        !version_lt(&a, &b)
    } else if mode == 2 {
        version_lt(&a, &b)
    } else if mode == 3 {
        !version_lt(&b, &a)
    } else if mode == 4 {
        !version_lt(&a, &b) && !version_lt(&b, &a)
    } else {
        version_lt(&a, &b) || version_lt(&b, &a)
    }
}

/// The operator table: what one (lower-cased) operator says about a user
/// attribute and the condition's target.
pub open spec fn spec_compare_op(
    op_lower: Seq<char>,
    field: SpecFieldValue,
    target: Option<DynamicValue>,
) -> ConditionResult {
    if op_lower == "eq"@ {
        if spec_eq_target(field, target) {
            ConditionResult::Pass
        } else {
            ConditionResult::Fail
        }
    } else if op_lower == "neq"@ {
        if !spec_eq_target(field, target) {
            ConditionResult::Pass
        } else {
            ConditionResult::Fail
        }
    } else if op_lower == "any"@ {
        if spec_any_match(field, target) {
            ConditionResult::Pass
        } else {
            ConditionResult::Fail
        }
    } else if op_lower == "none"@ {
        if !spec_any_match(field, target) {
            ConditionResult::Pass
        } else {
            ConditionResult::Fail
        }
    } else if op_lower == "str_contains_any"@ {
        if spec_string_list_match(field, target, false) {
            ConditionResult::Pass
        } else {
            ConditionResult::Fail
        }
    } else if op_lower == "str_starts_with_any"@ {
        if spec_string_list_match(field, target, true) {
            ConditionResult::Pass
        } else {
            ConditionResult::Fail
        }
    } else if op_lower == "gt"@ || op_lower == "after"@ {
        if spec_num_compare(field, target, 0) {
            ConditionResult::Pass
        } else {
            ConditionResult::Fail
        }
    } else if op_lower == "gte"@ {
        if spec_num_compare(field, target, 1) {
            ConditionResult::Pass
        } else {
            ConditionResult::Fail
        }
    } else if op_lower == "lt"@ || op_lower == "before"@ {
        if spec_num_compare(field, target, 2) {
            ConditionResult::Pass
        } else {
            ConditionResult::Fail
        }
    } else if op_lower == "lte"@ {
        if spec_num_compare(field, target, 3) {
            ConditionResult::Pass
        } else {
            ConditionResult::Fail
        }
    } else if op_lower == "on"@ {
        if spec_num_compare(field, target, 4) {
            ConditionResult::Pass
        } else {
            ConditionResult::Fail
        }
    } else if op_lower == "version_gt"@ {
        if spec_version_op(field, target, 0) {
            ConditionResult::Pass
        } else {
            ConditionResult::Fail
        }
    } else if op_lower == "version_gte"@ {
        if spec_version_op(field, target, 1) {
            ConditionResult::Pass
        } else {
            ConditionResult::Fail
        }
    } else if op_lower == "version_lt"@ {
        if spec_version_op(field, target, 2) {
            ConditionResult::Pass
        } else {
            ConditionResult::Fail
        }
    } else if op_lower == "version_lte"@ {
        if spec_version_op(field, target, 3) {
            ConditionResult::Pass
        } else {
            ConditionResult::Fail
        }
    } else if op_lower == "version_eq"@ {
        if spec_version_op(field, target, 4) {
            ConditionResult::Pass
        } else {
            ConditionResult::Fail
        }
    } else if op_lower == "version_neq"@ {
        if spec_version_op(field, target, 5) {
            ConditionResult::Pass
        } else {
            ConditionResult::Fail
        }
    } else if op_lower == "str_matches"@ {
        if spec_str_matches(field, target) {
            ConditionResult::Pass
        } else {
            ConditionResult::Fail
        }
    } else {
        ConditionResult::Unsupported
    }
}

fn pass_fail(b: bool) -> (r: ConditionResult)
    ensures
        r == (if b {
            ConditionResult::Pass
        } else {
            ConditionResult::Fail
        }),
{
    if b {
        ConditionResult::Pass
    } else {
        ConditionResult::Fail
    }
}

/// Apply one (lower-cased) operator.
fn compare_op(op_lower: &String, field: &EvalFieldValue, target: &Option<DynamicValue>) -> (r:
    ConditionResult)
    ensures
        r == spec_compare_op(op_lower@, spec_field_view(*field), *target),
{
    if string_eq_str(op_lower, "eq") {
        pass_fail(value_eq_target(field, target))
    } else if string_eq_str(op_lower, "neq") {
        pass_fail(!value_eq_target(field, target))
    } else if string_eq_str(op_lower, "any") {
        pass_fail(any_match(field, target))
    } else if string_eq_str(op_lower, "none") {
        pass_fail(!any_match(field, target))
    } else if string_eq_str(op_lower, "str_contains_any") {
        pass_fail(string_list_match(field, target, false))
    } else if string_eq_str(op_lower, "str_starts_with_any") {
        pass_fail(string_list_match(field, target, true))
    } else if string_eq_str(op_lower, "gt") || string_eq_str(op_lower, "after") {
        pass_fail(num_compare(field, target, 0))
    } else if string_eq_str(op_lower, "gte") {
        pass_fail(num_compare(field, target, 1))
    } else if string_eq_str(op_lower, "lt") || string_eq_str(op_lower, "before") {
        pass_fail(num_compare(field, target, 2))
    } else if string_eq_str(op_lower, "lte") {
        pass_fail(num_compare(field, target, 3))
    } else if string_eq_str(op_lower, "on") {
        pass_fail(num_compare(field, target, 4))
    } else if string_eq_str(op_lower, "version_gt") {
        pass_fail(version_op(field, target, 0))
    } else if string_eq_str(op_lower, "version_gte") {
        pass_fail(version_op(field, target, 1))
    } else if string_eq_str(op_lower, "version_lt") {
        pass_fail(version_op(field, target, 2))
    } else if string_eq_str(op_lower, "version_lte") {
        pass_fail(version_op(field, target, 3))
    } else if string_eq_str(op_lower, "version_eq") {
        pass_fail(version_op(field, target, 4))
    } else if string_eq_str(op_lower, "version_neq") {
        pass_fail(version_op(field, target, 5))
    } else if string_eq_str(op_lower, "str_matches") {
        pass_fail(str_matches(field, target))
    } else {
        ConditionResult::Unsupported
    }
}


/// One secondary exposure: a gate that was consulted on the way to a
/// result.
#[derive(Debug, Clone)]
pub struct SecondaryExposure {
    pub gate: String,
    pub gate_value: String,
    pub rule_id: String,
}

/// The triple of character views one exposure record carries.
pub open spec fn spec_exposure_view(e: SecondaryExposure) -> (Seq<char>, Seq<char>, Seq<char>) {
    (e.gate@, e.gate_value@, e.rule_id@)
}

/// The exposure list by content: each record as its character views.
pub open spec fn spec_exposures_view(s: Seq<SecondaryExposure>) -> Seq<
    (Seq<char>, Seq<char>, Seq<char>),
> {
    s.map_values(|e: SecondaryExposure| spec_exposure_view(e))
}

/// Prefix order on exposure views is reflexive.
pub proof fn lemma_prefix_refl<A>(s: Seq<A>)
    ensures
        s.is_prefix_of(s),
{
    assert(s =~= s.subrange(0, s.len() as int));
}

proof fn lemma_prefix_push<A>(s: Seq<A>, e: A)
    ensures
        s.is_prefix_of(s.push(e)),
{
    assert(s =~= s.push(e).subrange(0, s.len() as int));
}

proof fn lemma_prefix_trans<A>(a: Seq<A>, b: Seq<A>, c: Seq<A>)
    requires
        a.is_prefix_of(b),
        b.is_prefix_of(c),
    ensures
        a.is_prefix_of(c),
{
    assert forall|i: int| 0 <= i < a.len() implies a[i] == c.subrange(0, a.len() as int)[i] by {
        assert(a[i] == b.subrange(0, b.len() as int)[i]);
    }
    assert(a =~= c.subrange(0, a.len() as int));
}

proof fn lemma_exposures_view_push(s: Seq<SecondaryExposure>, e: SecondaryExposure)
    ensures
        spec_exposures_view(s.push(e)) =~= spec_exposures_view(s).push(spec_exposure_view(e)),
{
}

/// A content-equal copy of an exposure list.
fn copy_exposures(src: &Vec<SecondaryExposure>) -> (r: Vec<SecondaryExposure>)
    ensures
        spec_exposures_view(r@) == spec_exposures_view(src@),
{
    let mut out: Vec<SecondaryExposure> = Vec::new();
    let n = src.len();
    proof {
        assert(spec_exposures_view(out@) =~~= spec_exposures_view(src@.take(0)));
    }
    for i in 0..n
        invariant
            n == src@.len(),
            out@.len() == i,
            spec_exposures_view(out@) == spec_exposures_view(src@.take(i as int)),
    {
        let ghost prev = out@;
        out.push(
            SecondaryExposure {
                gate: src[i].gate.clone(),
                gate_value: src[i].gate_value.clone(),
                rule_id: src[i].rule_id.clone(),
            },
        );
        proof {
            assert forall|k: int|
                0 <= k < i + 1 implies spec_exposures_view(out@)[k] == spec_exposures_view(
                src@.take(i + 1),
            )[k] by {
                if k < i {
                    assert(out@[k] == prev[k]);
                    assert(spec_exposures_view(prev)[k] == spec_exposures_view(
                        src@.take(i as int),
                    )[k]);
                    assert(src@.take(i as int)[k] == src@.take(i + 1)[k]);
                } else {
                    assert(out@[k] == out@.last());
                    assert(src@.take(i + 1)[k] == src@[i as int]);
                }
            }
            assert(spec_exposures_view(out@) =~~= spec_exposures_view(src@.take(i + 1)));
        }
    }
    proof {
        assert(src@.take(n as int) =~= src@);
        assert(spec_exposures_view(src@.take(n as int)) =~~= spec_exposures_view(src@));
    }
    out
}

/// What an evaluation decides, in mathematical form: strings by content.
pub struct SpecEvalOutcome {
    pub bool_value: bool,
    pub value: JsonValue,
    pub rule_id: Seq<char>,
    pub group_name: Option<Seq<char>>,
    pub config_delegate: Option<Seq<char>>,
    pub is_experiment_group: bool,
    pub unsupported: bool,
    pub id_type: Seq<char>,
}

/// What an evaluation decides, as the caller receives it.
#[derive(Debug)]
pub struct EvaluationResult {
    pub bool_value: bool,
    pub json_value: JsonValue,
    pub rule_id: String,
    pub group_name: Option<String>,
    pub config_delegate: Option<String>,
    pub is_experiment_group: bool,
    pub unsupported: bool,
    pub id_type: String,
    pub undelegated_secondary_exposures: Option<Vec<SecondaryExposure>>,
}

pub open spec fn spec_opt_view(o: Option<String>) -> Option<Seq<char>> {
    match o {
        Some(s) => Some(s@),
        None => None,
    }
}

/// The executable result carries exactly the outcome the spec functions
/// describe (the exposure lists are carried alongside and are not part of
/// the mathematical outcome).
pub open spec fn result_matches(r: EvaluationResult, o: SpecEvalOutcome) -> bool {
    &&& r.bool_value == o.bool_value
    &&& json_eq(o.value, r.json_value)
    &&& r.rule_id@ == o.rule_id
    &&& spec_opt_view(r.group_name) == o.group_name
    &&& spec_opt_view(r.config_delegate) == o.config_delegate
    &&& r.is_experiment_group == o.is_experiment_group
    &&& r.unsupported == o.unsupported
    &&& r.id_type@ == o.id_type
}

/// The string bucketing hashes: `spec_salt.rule_salt.unit_id`.
pub open spec fn spec_bucket_input(
    spec_salt: Seq<char>,
    rule_salt: Seq<char>,
    unit_id: Seq<char>,
) -> Seq<char> {
    spec_salt + "."@ + rule_salt + "."@ + unit_id
}

/// The bucketing decision: the first 8 digest bytes of the input, read
/// big-endian, land in one of 10000 slots, and the rule passes exactly
/// when the slot is strictly below the pass threshold (the rule's pass
/// percentage in hundredths of a percent).
pub open spec fn spec_bucket_pass(input: Seq<char>, pass_percentage: u64) -> bool {
    let h = spec_evaluation_hash(input);
    h <= usize::MAX as nat && h % 10000 < pass_percentage
}

/// Evaluate the bucketing decision.
fn bucket_pass(hashing: &mut Hashing, input: &String, pass_percentage: u64) -> (r: bool)
    requires
        old(hashing).wf(),
    ensures
        final(hashing).wf(),
        r == spec_bucket_pass(input@, pass_percentage),
{
    match hashing.evaluation_hash(input) {
        Some(h) => {
            let slot = (h % 10000) as u64;
            slot < pass_percentage
        },
        None => false,
    }
}

/// The environment attribute named by the lower-cased field name.
pub open spec fn spec_env_field(user: StatsigUser, field_lower: Seq<char>) -> SpecFieldValue {
    match spec_assoc_ci_str(user.statsig_environment@, field_lower) {
        Some(s) => SpecFieldValue::SfText(s),
        None => SpecFieldValue::SfMissing,
    }
}

fn env_field_value(user: &StatsigUser, field_lower: &String) -> (r: EvalFieldValue)
    ensures
        spec_field_view(r) == spec_env_field(*user, field_lower@),
{
    match assoc_ci_str(&user.statsig_environment, field_lower) {
        Some(s) => EvalFieldValue::Text(s.clone()),
        None => EvalFieldValue::Missing,
    }
}

/// The `user_bucket` attribute: 1000-slot projection of `salt.unit_id`.
pub open spec fn spec_user_bucket_value(salt: Seq<char>, unit_id: Seq<char>) -> SpecFieldValue {
    let input = salt + "."@ + unit_id;
    if spec_evaluation_hash(input) <= usize::MAX as nat {
        SpecFieldValue::SfNum((spec_evaluation_hash(input) % 1000) as int)
    } else {
        SpecFieldValue::SfMissing
    }
}

/// The default outcome a spec yields when no rule decides.
pub open spec fn spec_default_outcome(s: Spec, rule_id: Seq<char>, unsupported: bool) -> SpecEvalOutcome {
    SpecEvalOutcome {
        bool_value: false,
        value: s.default_value.json,
        rule_id,
        group_name: None,
        config_delegate: None,
        is_experiment_group: false,
        unsupported,
        id_type: s.id_type@,
    }
}

/// The outcome of a matched rule: bucketing decides between the rule's
/// return value and the spec's default value, and the matched rule's id
/// is reported either way.
pub open spec fn spec_rule_outcome(
    s: Spec,
    rule: Rule,
    user: StatsigUser,
    saw_unsupported: bool,
) -> SpecEvalOutcome {
    let unit = spec_unit_id(user, rule.id_type@);
    let rsalt = match rule.salt {
        Some(x) => x@,
        None => rule.id@,
    };
    let pass = spec_bucket_pass(spec_bucket_input(s.salt@, rsalt, unit), rule.pass_percentage);
    SpecEvalOutcome {
        bool_value: pass,
        value: if pass {
            rule.return_value.json
        } else {
            s.default_value.json
        },
        rule_id: rule.id@,
        group_name: spec_opt_view(rule.group_name),
        config_delegate: None,
        is_experiment_group: rule.is_experiment_group == Some(true),
        unsupported: saw_unsupported,
        id_type: rule.id_type@,
    }
}

/// Where a delegate name resolves: dynamic configs first, then layers.
pub open spec fn spec_delegate_lookup(rs: SpecsResponseFull, name: Seq<char>) -> Option<Spec> {
    match spec_assoc_get(rs.dynamic_configs@, name) {
        Some(s) => Some(s),
        None => spec_assoc_get(rs.layer_configs@, name),
    }
}

/// Evaluate a named gate: `None` when the ruleset has no gate of that
/// name.
pub open spec fn spec_eval_gate(
    rs: SpecsResponseFull,
    user: StatsigUser,
    name: Seq<char>,
    now: u64,
    depth: nat,
) -> Option<SpecEvalOutcome>
    decreases depth, 4int, 0int,
{
    match spec_assoc_get(rs.feature_gates@, name) {
        Some(s) => Some(spec_eval_spec(rs, user, s, now, depth)),
        None => None,
    }
}

/// Evaluate one spec: a disabled spec short-circuits to the default value
/// under the `disabled` rule id, otherwise the rules decide in order.
pub open spec fn spec_eval_spec(
    rs: SpecsResponseFull,
    user: StatsigUser,
    s: Spec,
    now: u64,
    depth: nat,
) -> SpecEvalOutcome
    decreases depth, 3int, 0int,
{
    if !s.enabled {
        spec_default_outcome(s, "disabled"@, false)
    } else {
        spec_eval_rules(rs, user, s, 0, now, depth, false)
    }
}

/// Walk the rules from `i`: the first rule whose conditions all pass
/// decides; a rule that hits an unsupported condition fails but poisons
/// the final outcome; no match yields the default value under `default`.
pub open spec fn spec_eval_rules(
    rs: SpecsResponseFull,
    user: StatsigUser,
    s: Spec,
    i: int,
    now: u64,
    depth: nat,
    saw_unsupported: bool,
) -> SpecEvalOutcome
    decreases depth, 2int, s.rules@.len() - i,
{
    if i < 0 || i >= s.rules@.len() {
        spec_default_outcome(s, "default"@, saw_unsupported)
    } else {
        let rule = s.rules@[i];
        let tri = spec_eval_conditions(rs, user, s.salt@, rule, 0, now, depth);
        if tri == ConditionResult::Fail {
            spec_eval_rules(rs, user, s, i + 1, now, depth, saw_unsupported)
        } else if tri == ConditionResult::Unsupported {
            spec_eval_rules(rs, user, s, i + 1, now, depth, true)
        } else {
            match rule.config_delegate {
                Some(d) => match spec_delegate_lookup(rs, d@) {
                    Some(dspec) => if depth == 0 {
                        spec_default_outcome(s, "default"@, true)
                    } else {
                        let inner = spec_eval_spec(rs, user, dspec, now, (depth - 1) as nat);
                        SpecEvalOutcome {
                            config_delegate: Some(d@),
                            unsupported: inner.unsupported || saw_unsupported,
                            ..inner
                        }
                    },
                    None => spec_rule_outcome(s, rule, user, saw_unsupported),
                },
                None => spec_rule_outcome(s, rule, user, saw_unsupported),
            }
        }
    }
}

/// Conjunction over a rule's condition references from `j`: a reference
/// missing from the condition map is unsupported; the first failing or
/// unsupported condition decides.
pub open spec fn spec_eval_conditions(
    rs: SpecsResponseFull,
    user: StatsigUser,
    salt: Seq<char>,
    rule: Rule,
    j: int,
    now: u64,
    depth: nat,
) -> ConditionResult
    decreases depth, 1int, rule.conditions@.len() - j,
{
    if j < 0 || j >= rule.conditions@.len() {
        ConditionResult::Pass
    } else {
        match spec_assoc_get(rs.condition_map@, rule.conditions@[j]@) {
            None => ConditionResult::Unsupported,
            Some(cond) => {
                let tri = spec_eval_condition(rs, user, salt, cond, now, depth);
                if tri == ConditionResult::Pass {
                    spec_eval_conditions(rs, user, salt, rule, j + 1, now, depth)
                } else {
                    tri
                }
            },
        }
    }
}

/// Evaluate one condition: the condition type selects the user attribute
/// (or recursively evaluates a referenced gate), the operator compares it
/// to the target. Unknown types and operators are unsupported.
pub open spec fn spec_eval_condition(
    rs: SpecsResponseFull,
    user: StatsigUser,
    salt: Seq<char>,
    cond: Condition,
    now: u64,
    depth: nat,
) -> ConditionResult
    decreases depth, 0int, 0int,
{
    let ct = spec_ascii_lower(cond.condition_type@);
    if ct == "public"@ {
        ConditionResult::Pass
    } else if ct == "pass_gate"@ || ct == "fail_gate"@ {
        if depth == 0 {
            ConditionResult::Unsupported
        } else {
            match cond.target_value {
                Some(d) => match d.json {
                    JsonValue::Str(gname) => {
                        let inner = spec_eval_gate(rs, user, gname@, now, (depth - 1) as nat);
                        let gate_val = match inner {
                            Some(o) => o.bool_value,
                            None => false,
                        };
                        let unsup = match inner {
                            Some(o) => o.unsupported,
                            None => false,
                        };
                        if unsup {
                            ConditionResult::Unsupported
                        } else if ct == "pass_gate"@ {
                            if gate_val {
                                ConditionResult::Pass
                            } else {
                                ConditionResult::Fail
                            }
                        } else {
                            if gate_val {
                                ConditionResult::Fail
                            } else {
                                ConditionResult::Pass
                            }
                        }
                    },
                    _ => ConditionResult::Unsupported,
                },
                None => ConditionResult::Unsupported,
            }
        }
    } else {
        let fieldval_opt: Option<SpecFieldValue> = if ct == "user_field"@ {
            match cond.field {
                Some(f) => Some(spec_user_field_value(user, spec_ascii_lower(f@))),
                None => None,
            }
        } else if ct == "environment_field"@ {
            match cond.field {
                Some(f) => Some(spec_env_field(user, spec_ascii_lower(f@))),
                None => None,
            }
        } else if ct == "current_time"@ {
            if now <= 0x7fff_ffff_ffff_ffff {
                Some(SpecFieldValue::SfNum(now as int))
            } else {
                None
            }
        } else if ct == "unit_id"@ {
            Some(SpecFieldValue::SfText(spec_unit_id(user, cond.id_type@)))
        } else if ct == "user_bucket"@ {
            Some(spec_user_bucket_value(salt, spec_unit_id(user, cond.id_type@)))
        } else {
            None
        };
        match fieldval_opt {
            None => ConditionResult::Unsupported,
            Some(fv) => match cond.operator {
                Some(op) => spec_compare_op(spec_ascii_lower(op@), fv, cond.target_value),
                None => ConditionResult::Unsupported,
            },
        }
    }
}

/// A found spec in a well-formed map is itself well formed.
pub proof fn lemma_spec_map_get_wf(entries: Seq<(String, Spec)>, key: Seq<char>)
    requires
        spec_map_wf(entries),
        spec_assoc_get(entries, key) matches Some(_),
    ensures
        crate::spec_types::spec_spec_wf(spec_assoc_get(entries, key)->0),
    decreases entries.len(),
{
    if entries.len() > 0 {
        if entries.first().0@ == key {
            assert(entries[0].1 == entries.first().1);
        } else {
            assert(forall|i: int|
                0 <= i < entries.drop_first().len() ==> entries.drop_first()[i]
                    == entries[i + 1]);
            lemma_spec_map_get_wf(entries.drop_first(), key);
        }
    }
}

fn default_result(s: &Spec, rule_id: &str, unsupported: bool) -> (r: EvaluationResult)
    requires
        crate::spec_types::spec_spec_wf(*s),
    ensures
        result_matches(r, spec_default_outcome(*s, rule_id@, unsupported)),
        r.undelegated_secondary_exposures is None,
{
    EvaluationResult {
        bool_value: false,
        json_value: s.default_value.json.deep_clone(),
        rule_id: rule_id.to_owned(),
        group_name: None,
        config_delegate: None,
        is_experiment_group: false,
        unsupported,
        id_type: s.id_type.clone(),
        undelegated_secondary_exposures: None,
    }
}

fn rule_result(
    s: &Spec,
    rule: &Rule,
    user: &StatsigUser,
    saw_unsupported: bool,
    hashing: &mut Hashing,
) -> (r: EvaluationResult)
    requires
        crate::spec_types::spec_spec_wf(*s),
        crate::spec_types::spec_rule_wf(*rule),
        old(hashing).wf(),
    ensures
        final(hashing).wf(),
        result_matches(r, spec_rule_outcome(*s, *rule, *user, saw_unsupported)),
        r.undelegated_secondary_exposures is None,
{
    let unit = get_unit_id(user, &rule.id_type);
    let rsalt: String = match &rule.salt {
        Some(x) => x.clone(),
        None => rule.id.clone(),
    };
    let mut input = s.salt.clone();
    input.append(".");
    input.append(rsalt.as_str());
    input.append(".");
    input.append(unit.as_str());
    proof {
        assert(input@ == spec_bucket_input(
            s.salt@,
            match rule.salt {
                Some(x) => x@,
                None => rule.id@,
            },
            spec_unit_id(*user, rule.id_type@),
        ));
    }
    let pass = bucket_pass(hashing, &input, rule.pass_percentage);
    let json_value = if pass {
        rule.return_value.json.deep_clone()
    } else {
        s.default_value.json.deep_clone()
    };
    EvaluationResult {
        bool_value: pass,
        json_value,
        rule_id: rule.id.clone(),
        group_name: match &rule.group_name {
            Some(g) => Some(g.clone()),
            None => None,
        },
        config_delegate: None,
        is_experiment_group: match rule.is_experiment_group {
            Some(b) => b,
            None => false,
        },
        unsupported: saw_unsupported,
        id_type: rule.id_type.clone(),
        undelegated_secondary_exposures: None,
    }
}

/// Evaluate a named gate against the ruleset: `None` when unknown.
pub fn eval_gate(
    rs: &SpecsResponseFull,
    user: &StatsigUser,
    name: &String,
    now: u64,
    depth: u32,
    hashing: &mut Hashing,
    exposures: &mut Vec<SecondaryExposure>,
) -> (r: Option<EvaluationResult>)
    requires
        spec_response_wf(*rs),
        old(hashing).wf(),
    ensures
        final(hashing).wf(),
        match (r, spec_eval_gate(*rs, *user, name@, now, depth as nat)) {
            (Some(res), Some(o)) => result_matches(res, o),
            (None, None) => true,
            _ => false,
        },
        spec_exposures_view(old(exposures)@).is_prefix_of(spec_exposures_view(final(exposures)@)),
        r matches Some(res) ==> ((res.undelegated_secondary_exposures is Some
                <==> res.config_delegate is Some) && (res.undelegated_secondary_exposures
                matches Some(u) ==> spec_exposures_view(old(exposures)@).is_prefix_of(
                spec_exposures_view(u@),
            ) && spec_exposures_view(u@).is_prefix_of(spec_exposures_view(final(exposures)@)))),
    decreases depth, 3int,
{
    match spec_map_get(&rs.feature_gates, name) {
        Some(s) => {
            proof {
                lemma_spec_map_get_wf(rs.feature_gates@, name@);
            }
            Some(eval_spec(rs, user, s, now, depth, hashing, exposures))
        },
        None => None,
    }
}

/// Evaluate one spec against the ruleset.
pub fn eval_spec(
    rs: &SpecsResponseFull,
    user: &StatsigUser,
    s: &Spec,
    now: u64,
    depth: u32,
    hashing: &mut Hashing,
    exposures: &mut Vec<SecondaryExposure>,
) -> (r: EvaluationResult)
    requires
        spec_response_wf(*rs),
        crate::spec_types::spec_spec_wf(*s),
        old(hashing).wf(),
    ensures
        final(hashing).wf(),
        result_matches(r, spec_eval_spec(*rs, *user, *s, now, depth as nat)),
        spec_exposures_view(old(exposures)@).is_prefix_of(spec_exposures_view(final(exposures)@)),
        r.undelegated_secondary_exposures is Some <==> r.config_delegate is Some,
        r.undelegated_secondary_exposures matches Some(u) ==> spec_exposures_view(
            old(exposures)@,
        ).is_prefix_of(spec_exposures_view(u@)) && spec_exposures_view(u@).is_prefix_of(
            spec_exposures_view(final(exposures)@),
        ),
    decreases depth, 2int,
{
    proof {
        lemma_prefix_refl(spec_exposures_view(exposures@));
    }
    if !s.enabled {
        return default_result(s, "disabled", false);
    }
    let n = s.rules.len();
    let mut saw_unsupported = false;
    for i in 0..n
        invariant
            spec_response_wf(*rs),
            crate::spec_types::spec_spec_wf(*s),
            hashing.wf(),
            n == s.rules@.len(),
            s.enabled,
            spec_exposures_view(old(exposures)@).is_prefix_of(spec_exposures_view(exposures@)),
            spec_eval_rules(*rs, *user, *s, 0, now, depth as nat, false) == spec_eval_rules(
                *rs,
                *user,
                *s,
                i as int,
                now,
                depth as nat,
                saw_unsupported,
            ),
    {
        let rule = &s.rules[i];
        let ghost exp_entry = exposures@;
        let tri = eval_rule_conditions(rs, user, &s.salt, rule, now, depth, hashing, exposures);
        proof {
            lemma_prefix_trans(
                spec_exposures_view(old(exposures)@),
                spec_exposures_view(exp_entry),
                spec_exposures_view(exposures@),
            );
        }
        match tri {
            ConditionResult::Fail => {},
            ConditionResult::Unsupported => {
                saw_unsupported = true;
            },
            ConditionResult::Pass => {
                match &rule.config_delegate {
                    Some(d) => {
                        match delegate_lookup(rs, d) {
                            Some(dspec) => {
                                if depth == 0 {
                                    return default_result(s, "default", true);
                                }
                                let undelegated = copy_exposures(exposures);
                                let ghost exp_at_delegation = exposures@;
                                let mut inner = eval_spec(
                                    rs,
                                    user,
                                    dspec,
                                    now,
                                    depth - 1,
                                    hashing,
                                    exposures,
                                );
                                proof {
                                    lemma_prefix_trans(
                                        spec_exposures_view(old(exposures)@),
                                        spec_exposures_view(exp_at_delegation),
                                        spec_exposures_view(exposures@),
                                    );
                                }
                                inner.config_delegate = Some(d.clone());
                                inner.unsupported = inner.unsupported || saw_unsupported;
                                inner.undelegated_secondary_exposures = Some(undelegated);
                                return inner;
                            },
                            None => {
                                return rule_result(s, rule, user, saw_unsupported, hashing);
                            },
                        }
                    },
                    None => {
                        return rule_result(s, rule, user, saw_unsupported, hashing);
                    },
                }
            },
        }
    }
    default_result(s, "default", saw_unsupported)
}

/// Resolve a delegate name: dynamic configs first, then layers.
fn delegate_lookup<'a>(rs: &'a SpecsResponseFull, name: &String) -> (r: Option<&'a Spec>)
    requires
        spec_response_wf(*rs),
    ensures
        match r {
            Some(s) => spec_delegate_lookup(*rs, name@) == Some(*s)
                && crate::spec_types::spec_spec_wf(*s),
            None => spec_delegate_lookup(*rs, name@) is None,
        },
{
    match spec_map_get(&rs.dynamic_configs, name) {
        Some(s) => {
            proof {
                lemma_spec_map_get_wf(rs.dynamic_configs@, name@);
            }
            Some(s)
        },
        None => {
            match spec_map_get(&rs.layer_configs, name) {
                Some(s) => {
                    proof {
                        lemma_spec_map_get_wf(rs.layer_configs@, name@);
                    }
                    Some(s)
                },
                None => None,
            }
        },
    }
}

/// Conjunction over one rule's condition references.
fn eval_rule_conditions(
    rs: &SpecsResponseFull,
    user: &StatsigUser,
    salt: &String,
    rule: &Rule,
    now: u64,
    depth: u32,
    hashing: &mut Hashing,
    exposures: &mut Vec<SecondaryExposure>,
) -> (r: ConditionResult)
    requires
        spec_response_wf(*rs),
        old(hashing).wf(),
    ensures
        final(hashing).wf(),
        r == spec_eval_conditions(*rs, *user, salt@, *rule, 0, now, depth as nat),
        spec_exposures_view(old(exposures)@).is_prefix_of(spec_exposures_view(final(exposures)@)),
    decreases depth, 1int,
{
    let n = rule.conditions.len();
    for j in 0..n
        invariant
            spec_response_wf(*rs),
            hashing.wf(),
            n == rule.conditions@.len(),
            spec_exposures_view(old(exposures)@).is_prefix_of(spec_exposures_view(exposures@)),
            spec_eval_conditions(*rs, *user, salt@, *rule, 0, now, depth as nat)
                == spec_eval_conditions(*rs, *user, salt@, *rule, j as int, now, depth as nat),
    {
        match condition_map_get(&rs.condition_map, &rule.conditions[j]) {
            None => {
                return ConditionResult::Unsupported;
            },
            Some(cond) => {
                let ghost exp_entry = exposures@;
                let tri = eval_condition(rs, user, salt, cond, now, depth, hashing, exposures);
                proof {
                    lemma_prefix_trans(
                        spec_exposures_view(old(exposures)@),
                        spec_exposures_view(exp_entry),
                        spec_exposures_view(exposures@),
                    );
                }
                match tri {
                    ConditionResult::Pass => {},
                    ConditionResult::Fail => {
                        return ConditionResult::Fail;
                    },
                    ConditionResult::Unsupported => {
                        return ConditionResult::Unsupported;
                    },
                }
            },
        }
    }
    ConditionResult::Pass
}

/// Evaluate one condition.
fn eval_condition(
    rs: &SpecsResponseFull,
    user: &StatsigUser,
    salt: &String,
    cond: &Condition,
    now: u64,
    depth: u32,
    hashing: &mut Hashing,
    exposures: &mut Vec<SecondaryExposure>,
) -> (r: ConditionResult)
    requires
        spec_response_wf(*rs),
        old(hashing).wf(),
    ensures
        final(hashing).wf(),
        r == spec_eval_condition(*rs, *user, salt@, *cond, now, depth as nat),
        spec_exposures_view(old(exposures)@).is_prefix_of(spec_exposures_view(final(exposures)@)),
    decreases depth, 0int,
{
    let ct = ascii_lower_string(&cond.condition_type);
    if string_eq_str(&ct, "public") {
        return ConditionResult::Pass;
    }
    if string_eq_str(&ct, "pass_gate") || string_eq_str(&ct, "fail_gate") {
        if depth == 0 {
            return ConditionResult::Unsupported;
        }
        let gname = match &cond.target_value {
            Some(d) => match d.json.as_str() {
                Some(sv) => sv,
                None => {
                    return ConditionResult::Unsupported;
                },
            },
            None => {
                return ConditionResult::Unsupported;
            },
        };
        let inner = eval_gate(rs, user, gname, now, depth - 1, hashing, exposures);
        let gate_val: bool;
        let unsup: bool;
        let inner_rule_id: String;
        match &inner {
            Some(o) => {
                gate_val = o.bool_value;
                unsup = o.unsupported;
                inner_rule_id = o.rule_id.clone();
            },
            None => {
                gate_val = false;
                unsup = false;
                inner_rule_id = "".to_owned();
            },
        }
        let record = SecondaryExposure {
            gate: gname.clone(),
            gate_value: if gate_val {
                "true".to_owned()
            } else {
                "false".to_owned()
            },
            rule_id: inner_rule_id,
        };
        let ghost grecord = record;
        let ghost mid = exposures@;
        exposures.push(record);
        proof {
            lemma_exposures_view_push(mid, grecord);
            lemma_prefix_push(spec_exposures_view(mid), spec_exposure_view(grecord));
            lemma_prefix_trans(
                spec_exposures_view(old(exposures)@),
                spec_exposures_view(mid),
                spec_exposures_view(exposures@),
            );
        }
        if unsup {
            return ConditionResult::Unsupported;
        }
        if string_eq_str(&ct, "pass_gate") {
            return pass_fail(gate_val);
        }
        return pass_fail(!gate_val);
    }
    let fieldval_opt: Option<EvalFieldValue> = if string_eq_str(&ct, "user_field") {
        match &cond.field {
            Some(f) => {
                let fl = ascii_lower_string(f);
                Some(get_user_field_value(user, &fl))
            },
            None => None,
        }
    } else if string_eq_str(&ct, "environment_field") {
        match &cond.field {
            Some(f) => {
                let fl = ascii_lower_string(f);
                Some(env_field_value(user, &fl))
            },
            None => None,
        }
    } else if string_eq_str(&ct, "current_time") {
        if now <= 0x7fff_ffff_ffff_ffff {
            Some(EvalFieldValue::Num(now as i64))
        } else {
            None
        }
    } else if string_eq_str(&ct, "unit_id") {
        Some(EvalFieldValue::Text(get_unit_id(user, &cond.id_type)))
    } else if string_eq_str(&ct, "user_bucket") {
        let unit = get_unit_id(user, &cond.id_type);
        let mut input = salt.clone();
        input.append(".");
        input.append(unit.as_str());
        match hashing.evaluation_hash(&input) {
            Some(h) => Some(EvalFieldValue::Num((h % 1000) as i64)),
            None => Some(EvalFieldValue::Missing),
        }
    } else {
        None
    };
    match fieldval_opt {
        None => ConditionResult::Unsupported,
        Some(fv) => match &cond.operator {
            Some(op) => {
                let opl = ascii_lower_string(op);
                compare_op(&opl, &fv, &cond.target_value)
            },
            None => ConditionResult::Unsupported,
        },
    }
}


/// Rule ids across a parsed spec map are nonempty.
pub open spec fn spec_map_ids_nonempty(entries: Seq<(String, Spec)>) -> bool {
    forall|i: int, j: int|
        0 <= i < entries.len() && 0 <= j < (#[trigger] entries[i]).1.rules@.len() ==> (
        #[trigger] entries[i].1.rules@[j]).id@.len() > 0
}

/// Rule ids across the whole ruleset are nonempty.
pub open spec fn spec_ruleset_ids_nonempty(rs: SpecsResponseFull) -> bool {
    &&& spec_map_ids_nonempty(rs.feature_gates@)
    &&& spec_map_ids_nonempty(rs.dynamic_configs@)
    &&& spec_map_ids_nonempty(rs.layer_configs@)
}

/// Rule ids within one spec are nonempty.
pub open spec fn spec_spec_ids_nonempty(s: Spec) -> bool {
    forall|j: int| 0 <= j < s.rules@.len() ==> (#[trigger] s.rules@[j]).id@.len() > 0
}

/// A found spec in a map with nonempty rule ids has nonempty rule ids.
pub proof fn lemma_map_get_ids_nonempty(entries: Seq<(String, Spec)>, key: Seq<char>)
    requires
        spec_map_ids_nonempty(entries),
        spec_assoc_get(entries, key) matches Some(_),
    ensures
        spec_spec_ids_nonempty(spec_assoc_get(entries, key)->0),
    decreases entries.len(),
{
    if entries.len() > 0 {
        if entries.first().0@ == key {
            assert(entries[0] == entries.first());
        } else {
            assert(forall|i: int|
                0 <= i < entries.drop_first().len() ==> entries.drop_first()[i]
                    == entries[i + 1]);
            lemma_map_get_ids_nonempty(entries.drop_first(), key);
        }
    }
}

/// Every evaluation reports a nonempty rule id: the matched rule's own id,
/// or the literal `default` or `disabled`, provided the ruleset's rule ids
/// are themselves nonempty.
pub proof fn lemma_gate_rule_id_nonempty(
    rs: SpecsResponseFull,
    user: StatsigUser,
    name: Seq<char>,
    now: u64,
    depth: nat,
)
    requires
        spec_ruleset_ids_nonempty(rs),
    ensures
        spec_eval_gate(rs, user, name, now, depth) matches Some(o) ==> o.rule_id.len() > 0,
    decreases depth, 4int, 0int,
{
    match spec_assoc_get(rs.feature_gates@, name) {
        Some(s) => {
            lemma_map_get_ids_nonempty(rs.feature_gates@, name);
            lemma_spec_rule_id_nonempty(rs, user, s, now, depth);
        },
        None => {},
    }
}

/// As `lemma_gate_rule_id_nonempty`, for one spec.
pub proof fn lemma_spec_rule_id_nonempty(
    rs: SpecsResponseFull,
    user: StatsigUser,
    s: Spec,
    now: u64,
    depth: nat,
)
    requires
        spec_ruleset_ids_nonempty(rs),
        spec_spec_ids_nonempty(s),
    ensures
        spec_eval_spec(rs, user, s, now, depth).rule_id.len() > 0,
    decreases depth, 3int, 0int,
{
    reveal_strlit("disabled");
    if s.enabled {
        lemma_rules_rule_id_nonempty(rs, user, s, 0, now, depth, false);
    }
}

/// As `lemma_gate_rule_id_nonempty`, for the rule walk.
pub proof fn lemma_rules_rule_id_nonempty(
    rs: SpecsResponseFull,
    user: StatsigUser,
    s: Spec,
    i: int,
    now: u64,
    depth: nat,
    saw_unsupported: bool,
)
    requires
        spec_ruleset_ids_nonempty(rs),
        spec_spec_ids_nonempty(s),
    ensures
        spec_eval_rules(rs, user, s, i, now, depth, saw_unsupported).rule_id.len() > 0,
    decreases depth, 2int, s.rules@.len() - i,
{
    reveal_strlit("default");
    if i < 0 || i >= s.rules@.len() {
    } else {
        let rule = s.rules@[i];
        let tri = spec_eval_conditions(rs, user, s.salt@, rule, 0, now, depth);
        if tri == ConditionResult::Fail {
            lemma_rules_rule_id_nonempty(rs, user, s, i + 1, now, depth, saw_unsupported);
        } else if tri == ConditionResult::Unsupported {
            lemma_rules_rule_id_nonempty(rs, user, s, i + 1, now, depth, true);
        } else {
            match rule.config_delegate {
                Some(d) => match spec_delegate_lookup(rs, d@) {
                    Some(dspec) => {
                        if depth == 0 {
                        } else {
                            match spec_assoc_get(rs.dynamic_configs@, d@) {
                                Some(_) => {
                                    lemma_map_get_ids_nonempty(rs.dynamic_configs@, d@);
                                },
                                None => {
                                    lemma_map_get_ids_nonempty(rs.layer_configs@, d@);
                                },
                            }
                            lemma_spec_rule_id_nonempty(rs, user, dspec, now, (depth - 1) as nat);
                        }
                    },
                    None => {},
                },
                None => {},
            }
        }
    }
}

/// Two snapshots that hold the same parsed ruleset agree on every
/// evaluation: the outcome is a function of the ruleset, the user, the
/// name and the clock alone, whatever the state of the hash memo or the
/// exposure log.
pub proof fn lemma_eval_gate_deterministic(
    rs1: SpecsResponseFull,
    rs2: SpecsResponseFull,
    user: StatsigUser,
    name: Seq<char>,
    now: u64,
    depth: nat,
)
    requires
        rs1 == rs2,
    ensures
        spec_eval_gate(rs1, user, name, now, depth) == spec_eval_gate(rs2, user, name, now, depth),
{
}

/// Bucketing boundaries: a pass percentage of 0 (threshold 0) never
/// passes; a pass percentage of 100 (threshold 10000) always passes,
/// whenever the hash is representable on the machine; and the boundary
/// slot itself is excluded, the comparison being strict.
pub proof fn lemma_bucket_boundaries(input: Seq<char>, pass_percentage: u64)
    ensures
        !spec_bucket_pass(input, 0),
        spec_evaluation_hash(input) <= usize::MAX as nat ==> spec_bucket_pass(input, 10000),
        spec_evaluation_hash(input) % 10000 == pass_percentage ==> !spec_bucket_pass(
            input,
            pass_percentage,
        ),
{
}


/// Evaluate a named dynamic config or experiment: `None` when unknown.
pub open spec fn spec_eval_config(
    rs: SpecsResponseFull,
    user: StatsigUser,
    name: Seq<char>,
    now: u64,
    depth: nat,
) -> Option<SpecEvalOutcome>
    decreases depth, 4int, 0int,
{
    match spec_assoc_get(rs.dynamic_configs@, name) {
        Some(s) => Some(spec_eval_spec(rs, user, s, now, depth)),
        None => None,
    }
}

/// Evaluate a named layer: `None` when unknown.
pub open spec fn spec_eval_layer(
    rs: SpecsResponseFull,
    user: StatsigUser,
    name: Seq<char>,
    now: u64,
    depth: nat,
) -> Option<SpecEvalOutcome>
    decreases depth, 4int, 0int,
{
    match spec_assoc_get(rs.layer_configs@, name) {
        Some(s) => Some(spec_eval_spec(rs, user, s, now, depth)),
        None => None,
    }
}

/// Evaluate a named dynamic config or experiment against the ruleset.
pub fn eval_config(
    rs: &SpecsResponseFull,
    user: &StatsigUser,
    name: &String,
    now: u64,
    depth: u32,
    hashing: &mut Hashing,
    exposures: &mut Vec<SecondaryExposure>,
) -> (r: Option<EvaluationResult>)
    requires
        spec_response_wf(*rs),
        old(hashing).wf(),
    ensures
        final(hashing).wf(),
        match (r, spec_eval_config(*rs, *user, name@, now, depth as nat)) {
            (Some(res), Some(o)) => result_matches(res, o),
            (None, None) => true,
            _ => false,
        },
        spec_exposures_view(old(exposures)@).is_prefix_of(spec_exposures_view(final(exposures)@)),
        r matches Some(res) ==> ((res.undelegated_secondary_exposures is Some
                <==> res.config_delegate is Some) && (res.undelegated_secondary_exposures
                matches Some(u) ==> spec_exposures_view(old(exposures)@).is_prefix_of(
                spec_exposures_view(u@),
            ) && spec_exposures_view(u@).is_prefix_of(spec_exposures_view(final(exposures)@)))),
    decreases depth, 3int,
{
    match spec_map_get(&rs.dynamic_configs, name) {
        Some(s) => {
            proof {
                lemma_spec_map_get_wf(rs.dynamic_configs@, name@);
            }
            Some(eval_spec(rs, user, s, now, depth, hashing, exposures))
        },
        None => None,
    }
}

/// Evaluate a named layer against the ruleset.
pub fn eval_layer(
    rs: &SpecsResponseFull,
    user: &StatsigUser,
    name: &String,
    now: u64,
    depth: u32,
    hashing: &mut Hashing,
    exposures: &mut Vec<SecondaryExposure>,
) -> (r: Option<EvaluationResult>)
    requires
        spec_response_wf(*rs),
        old(hashing).wf(),
    ensures
        final(hashing).wf(),
        match (r, spec_eval_layer(*rs, *user, name@, now, depth as nat)) {
            (Some(res), Some(o)) => result_matches(res, o),
            (None, None) => true,
            _ => false,
        },
        spec_exposures_view(old(exposures)@).is_prefix_of(spec_exposures_view(final(exposures)@)),
        r matches Some(res) ==> ((res.undelegated_secondary_exposures is Some
                <==> res.config_delegate is Some) && (res.undelegated_secondary_exposures
                matches Some(u) ==> spec_exposures_view(old(exposures)@).is_prefix_of(
                spec_exposures_view(u@),
            ) && spec_exposures_view(u@).is_prefix_of(spec_exposures_view(final(exposures)@)))),
    decreases depth, 3int,
{
    match spec_map_get(&rs.layer_configs, name) {
        Some(s) => {
            proof {
                lemma_spec_map_get_wf(rs.layer_configs@, name@);
            }
            Some(eval_spec(rs, user, s, now, depth, hashing, exposures))
        },
        None => None,
    }
}

/// The recursion bound the facade evaluates with: nested gates and
/// delegates beyond this depth are reported unsupported.
pub const MAX_EVAL_DEPTH: u32 = 16;

} // verus!
