//! The user a gate or experiment is evaluated against, and the
//! case-insensitive field lookups the condition evaluator runs on it.

use vstd::prelude::*;
use vstd::string::StringExecFns;

use crate::hashing::string_eq_str;
use crate::spec_types::{ascii_lower_string, spec_ascii_lower, DynamicValue};

verus! {

/// A user: identified by `user_id` or at least one custom id, with optional
/// attributes. `private_attributes` take part in evaluation but are meant
/// to be stripped from anything sent over the network.
#[derive(Debug)]
pub struct StatsigUser {
    pub user_id: Option<String>,
    pub custom_ids: Vec<(String, String)>,
    pub email: Option<String>,
    pub ip: Option<String>,
    pub user_agent: Option<String>,
    pub country: Option<String>,
    pub locale: Option<String>,
    pub app_version: Option<String>,
    pub custom: Vec<(String, DynamicValue)>,
    pub private_attributes: Vec<(String, DynamicValue)>,
    pub statsig_environment: Vec<(String, String)>,
}

impl StatsigUser {
    /// A user carries an id: a `user_id` or at least one custom id.
    pub open spec fn has_identity(&self) -> bool {
        self.user_id is Some || self.custom_ids@.len() > 0
    }

    /// Every wrapped attribute value is internally consistent.
    pub open spec fn wf(&self) -> bool {
        &&& forall|i: int| 0 <= i < self.custom@.len() ==> (#[trigger] self.custom@[i]).1.wf()
        &&& forall|i: int|
            0 <= i < self.private_attributes@.len() ==> (#[trigger] self.private_attributes@[i]).1.wf()
    }

    /// A user known only by `user_id`.
    pub fn with_user_id(user_id: String) -> (r: Self)
        ensures
            r.wf(),
            r.has_identity(),
            r.user_id matches Some(u) && u@ == user_id@,
            r.custom_ids@.len() == 0,
            r.custom@.len() == 0,
            r.private_attributes@.len() == 0,
            r.statsig_environment@.len() == 0,
    {
        StatsigUser {
            user_id: Some(user_id),
            custom_ids: Vec::new(),
            email: None,
            ip: None,
            user_agent: None,
            country: None,
            locale: None,
            app_version: None,
            custom: Vec::new(),
            private_attributes: Vec::new(),
            statsig_environment: Vec::new(),
        }
    }

    /// A user known by custom ids.
    pub fn with_custom_ids(custom_ids: Vec<(String, String)>) -> (r: Self)
        requires
            custom_ids@.len() > 0,
        ensures
            r.wf(),
            r.has_identity(),
            r.user_id is None,
            r.custom_ids == custom_ids,
    {
        StatsigUser {
            user_id: None,
            custom_ids,
            email: None,
            ip: None,
            user_agent: None,
            country: None,
            locale: None,
            app_version: None,
            custom: Vec::new(),
            private_attributes: Vec::new(),
            statsig_environment: Vec::new(),
        }
    }
}

/// First value whose key ASCII-lower-cases to `key_lower`, in a map of
/// strings.
pub open spec fn spec_assoc_ci_str(entries: Seq<(String, String)>, key_lower: Seq<char>) -> Option<
    Seq<char>,
>
    decreases entries.len(),
{
    if entries.len() == 0 {
        None
    } else if spec_ascii_lower(entries.first().0@) == key_lower {
        Some(entries.first().1@)
    } else {
        spec_assoc_ci_str(entries.drop_first(), key_lower)
    }
}

/// First value whose key ASCII-lower-cases to `key_lower`, in a map of
/// wrapped values.
pub open spec fn spec_assoc_ci_dyn(
    entries: Seq<(String, DynamicValue)>,
    key_lower: Seq<char>,
) -> Option<DynamicValue>
    decreases entries.len(),
{
    if entries.len() == 0 {
        None
    } else if spec_ascii_lower(entries.first().0@) == key_lower {
        Some(entries.first().1)
    } else {
        spec_assoc_ci_dyn(entries.drop_first(), key_lower)
    }
}

/// Case-insensitive lookup in a string map; `key_lower` must already be
/// lower-cased.
pub fn assoc_ci_str<'a>(entries: &'a Vec<(String, String)>, key_lower: &String) -> (r: Option<
    &'a String,
>)
    ensures
        match r {
            Some(v) => spec_assoc_ci_str(entries@, key_lower@) == Some(v@),
            None => spec_assoc_ci_str(entries@, key_lower@) is None,
        },
{
    let n = entries.len();
    proof {
        assert(entries@.skip(0) =~= entries@);
    }
    for j in 0..n
        invariant
            n == entries@.len(),
            spec_assoc_ci_str(entries@, key_lower@) == spec_assoc_ci_str(
                entries@.skip(j as int),
                key_lower@,
            ),
    {
        let lowered = ascii_lower_string(&entries[j].0);
        if lowered.eq(key_lower) {
            proof {
                assert(entries@.skip(j as int).first() == entries@[j as int]);
            }
            return Some(&entries[j].1);
        }
        proof {
            assert(entries@.skip(j as int).drop_first() =~= entries@.skip(j + 1));
        }
    }
    proof {
        assert(entries@.skip(n as int) =~= Seq::<(String, String)>::empty());
    }
    None
}

/// Case-insensitive lookup in a map of wrapped values.
pub fn assoc_ci_dyn<'a>(entries: &'a Vec<(String, DynamicValue)>, key_lower: &String) -> (r: Option<
    &'a DynamicValue,
>)
    ensures
        match r {
            Some(v) => spec_assoc_ci_dyn(entries@, key_lower@) == Some(*v),
            None => spec_assoc_ci_dyn(entries@, key_lower@) is None,
        },
{
    let n = entries.len();
    proof {
        assert(entries@.skip(0) =~= entries@);
    }
    for j in 0..n
        invariant
            n == entries@.len(),
            spec_assoc_ci_dyn(entries@, key_lower@) == spec_assoc_ci_dyn(
                entries@.skip(j as int),
                key_lower@,
            ),
    {
        let lowered = ascii_lower_string(&entries[j].0);
        if lowered.eq(key_lower) {
            proof {
                assert(entries@.skip(j as int).first() == entries@[j as int]);
            }
            return Some(&entries[j].1);
        }
        proof {
            assert(entries@.skip(j as int).drop_first() =~= entries@.skip(j + 1));
        }
    }
    proof {
        assert(entries@.skip(n as int) =~= Seq::<(String, DynamicValue)>::empty());
    }
    None
}

/// A user attribute as the comparator sees it.
#[derive(Debug)]
pub enum EvalFieldValue {
    Text(String),
    Num(i64),
    Flag(bool),
    Missing,
}

/// The mathematical shape of a user attribute: text by content, numbers
/// and flags by value.
pub enum SpecFieldValue {
    SfText(Seq<char>),
    SfNum(int),
    SfFlag(bool),
    SfMissing,
}

/// The mathematical shape of an `EvalFieldValue`.
pub open spec fn spec_field_view(v: EvalFieldValue) -> SpecFieldValue {
    match v {
        EvalFieldValue::Text(s) => SpecFieldValue::SfText(s@),
        EvalFieldValue::Num(n) => SpecFieldValue::SfNum(n as int),
        EvalFieldValue::Flag(b) => SpecFieldValue::SfFlag(b),
        EvalFieldValue::Missing => SpecFieldValue::SfMissing,
    }
}

/// The comparator's reading of a wrapped JSON value.
pub open spec fn spec_dyn_field_value(d: DynamicValue) -> SpecFieldValue {
    match d.json {
        crate::json::JsonValue::Str(s) => SpecFieldValue::SfText(s@),
        crate::json::JsonValue::Int(n) => SpecFieldValue::SfNum(n as int),
        crate::json::JsonValue::Bool(b) => SpecFieldValue::SfFlag(b),
        _ => SpecFieldValue::SfMissing,
    }
}

pub open spec fn spec_opt_text(o: Option<String>) -> SpecFieldValue {
    match o {
        Some(s) => SpecFieldValue::SfText(s@),
        None => SpecFieldValue::SfMissing,
    }
}

/// The user attribute named by the (already lower-cased) field name:
/// top-level fields first, then `custom`, then `private_attributes`.
pub open spec fn spec_user_field_value(user: StatsigUser, field_lower: Seq<char>) -> SpecFieldValue {
    if field_lower == "userid"@ || field_lower == "user_id"@ {
        spec_opt_text(user.user_id)
    } else if field_lower == "email"@ {
        spec_opt_text(user.email)
    } else if field_lower == "ip"@ {
        spec_opt_text(user.ip)
    } else if field_lower == "useragent"@ || field_lower == "user_agent"@ {
        spec_opt_text(user.user_agent)
    } else if field_lower == "country"@ {
        spec_opt_text(user.country)
    } else if field_lower == "locale"@ {
        spec_opt_text(user.locale)
    } else if field_lower == "appversion"@ || field_lower == "app_version"@ {
        spec_opt_text(user.app_version)
    } else {
        match spec_assoc_ci_dyn(user.custom@, field_lower) {
            Some(d) => spec_dyn_field_value(d),
            None => match spec_assoc_ci_dyn(user.private_attributes@, field_lower) {
                Some(d) => spec_dyn_field_value(d),
                None => SpecFieldValue::SfMissing,
            },
        }
    }
}

fn opt_text(o: &Option<String>) -> (r: EvalFieldValue)
    ensures
        spec_field_view(r) == spec_opt_text(*o),
{
    match o {
        Some(s) => EvalFieldValue::Text(s.clone()),
        None => EvalFieldValue::Missing,
    }
}

fn dyn_field_value(d: &DynamicValue) -> (r: EvalFieldValue)
    ensures
        spec_field_view(r) == spec_dyn_field_value(*d),
{
    match &d.json {
        crate::json::JsonValue::Str(s) => EvalFieldValue::Text(s.clone()),
        crate::json::JsonValue::Int(n) => EvalFieldValue::Num(*n),
        crate::json::JsonValue::Bool(b) => EvalFieldValue::Flag(*b),
        _ => EvalFieldValue::Missing,
    }
}

/// Read the user attribute named by the (already lower-cased) field name.
pub fn get_user_field_value(user: &StatsigUser, field_lower: &String) -> (r: EvalFieldValue)
    ensures
        spec_field_view(r) == spec_user_field_value(*user, field_lower@),
{
    if string_eq_str(field_lower, "userid") || string_eq_str(field_lower, "user_id") {
        opt_text(&user.user_id)
    } else if string_eq_str(field_lower, "email") {
        opt_text(&user.email)
    } else if string_eq_str(field_lower, "ip") {
        opt_text(&user.ip)
    } else if string_eq_str(field_lower, "useragent") || string_eq_str(field_lower, "user_agent") {
        opt_text(&user.user_agent)
    } else if string_eq_str(field_lower, "country") {
        opt_text(&user.country)
    } else if string_eq_str(field_lower, "locale") {
        opt_text(&user.locale)
    } else if string_eq_str(field_lower, "appversion") || string_eq_str(
        field_lower,
        "app_version",
    ) {
        opt_text(&user.app_version)
    } else {
        match assoc_ci_dyn(&user.custom, field_lower) {
            Some(d) => dyn_field_value(d),
            None => match assoc_ci_dyn(&user.private_attributes, field_lower) {
                Some(d) => dyn_field_value(d),
                None => EvalFieldValue::Missing,
            },
        }
    }
}

/// The unit id bucketing runs on: `user_id` for the `userID` id type,
/// otherwise the custom id of that name; missing ids bucket as the empty
/// string.
pub open spec fn spec_unit_id(user: StatsigUser, id_type: Seq<char>) -> Seq<char> {
    let lowered = spec_ascii_lower(id_type);
    if lowered == "userid"@ || lowered == ""@ {
        match user.user_id {
            Some(s) => s@,
            None => ""@,
        }
    } else {
        match spec_assoc_ci_str(user.custom_ids@, lowered) {
            Some(s) => s,
            None => ""@,
        }
    }
}

/// Read the unit id for an id type.
pub fn get_unit_id(user: &StatsigUser, id_type: &String) -> (r: String)
    ensures
        r@ == spec_unit_id(*user, id_type@),
{
    let lowered = ascii_lower_string(id_type);
    if string_eq_str(&lowered, "userid") || string_eq_str(&lowered, "") {
        match &user.user_id {
            Some(s) => s.clone(),
            None => "".to_owned(),
        }
    } else {
        match assoc_ci_str(&user.custom_ids, &lowered) {
            Some(s) => s.clone(),
            None => "".to_owned(),
        }
    }
}

} // verus!
