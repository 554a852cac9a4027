//! The public entry points: one object that composes the store, the
//! evaluator, the hashing, the exposure logger and the task supervisor.
//!
//! Evaluation calls never fail: an unknown name degrades to a default
//! result whose details carry the reason. Network work happens outside
//! the library; payloads come in as plain strings.

use vstd::prelude::*;
use vstd::string::StringExecFns;

use crate::errors::StatsigErr;
use crate::evaluator::{
    eval_config, eval_gate, eval_layer, eval_spec, spec_eval_config, spec_eval_gate,
    spec_eval_layer, spec_eval_spec, EvaluationResult, SecondaryExposure, MAX_EVAL_DEPTH,
};
use crate::spec_types::SpecsResponseFull;
use crate::json::JsonValue;
use crate::event_logging::{EventLogger, StatsigEvent};
use crate::hashing::{string_eq_str, Hashing};
use crate::runtime::StatsigRuntime;
use crate::spec_store::{SpecStore, SpecsSource};
use crate::specs_adapter::{now_timestamp_millis, StatsigBootstrapSpecsAdapter};
use crate::statsig_types::{
    lemma_entries_match_transfer, make_dynamic_config, make_experiment, make_feature_gate,
    make_layer, spec_entries_match, DynamicConfig, DynamicConfigEvaluation, EvaluationDetails,
    Experiment, ExperimentEvaluation, FeatureGate, GateEvaluation, Layer, LayerEvaluation,
};
use crate::user::StatsigUser;

verus! {

/// Default cap of the event queue.
pub const DEFAULT_EVENT_QUEUE_SIZE: u32 = 1000;

/// Default period of the event flusher, in milliseconds.
pub const DEFAULT_FLUSH_INTERVAL_MS: u32 = 60000;

/// Default bound on adapter start, in milliseconds.
pub const DEFAULT_INIT_TIMEOUT_MS: u64 = 3000;

/// Configuration of one `Statsig` instance.
#[derive(Debug)]
pub struct StatsigOptions {
    pub environment: Option<String>,
    pub specs_url: Option<String>,
    pub log_event_url: Option<String>,
    pub specs_sync_interval_ms: Option<u32>,
    pub event_logging_max_queue_size: Option<u32>,
    pub event_logging_flush_interval_ms: Option<u32>,
    pub init_timeout_ms: Option<u64>,
    pub disable_all_logging: bool,
    pub disable_network: bool,
}

impl StatsigOptions {
    pub fn new() -> (r: Self)
        ensures
            r.environment is None,
            r.specs_url is None,
            r.log_event_url is None,
            r.specs_sync_interval_ms is None,
            r.event_logging_max_queue_size is None,
            r.event_logging_flush_interval_ms is None,
            r.init_timeout_ms is None,
            !r.disable_all_logging,
            !r.disable_network,
    {
        StatsigOptions {
            environment: None,
            specs_url: None,
            log_event_url: None,
            specs_sync_interval_ms: None,
            event_logging_max_queue_size: None,
            event_logging_flush_interval_ms: None,
            init_timeout_ms: None,
            disable_all_logging: false,
            disable_network: false,
        }
    }
}

/// The facade.
#[derive(Debug)]
pub struct Statsig {
    pub sdk_key: String,
    pub store: SpecStore,
    pub hashing: Hashing,
    pub logger: EventLogger,
    pub runtime: StatsigRuntime,
    pub options: StatsigOptions,
}

/// The reason string a result's details carry for a recognized name:
/// the name of the source the ruleset came from.
pub open spec fn spec_source_reason(s: SpecsSource) -> Seq<char> {
    match s {
        SpecsSource::NoValues => "NoValues"@,
        SpecsSource::Uninitialized => "Uninitialized"@,
        SpecsSource::Loading => "Loading"@,
        SpecsSource::Bootstrap => "Bootstrap"@,
        SpecsSource::DataStore => "DataStore"@,
        SpecsSource::Network => "Network"@,
        SpecsSource::NetworkNotModified => "NetworkNotModified"@,
        SpecsSource::Error => "Error"@,
    }
}

fn source_reason(s: SpecsSource) -> (r: &'static str)
    ensures
        r@ == spec_source_reason(s),
{
    match s {
        SpecsSource::NoValues => "NoValues",
        SpecsSource::Uninitialized => "Uninitialized",
        SpecsSource::Loading => "Loading",
        SpecsSource::Bootstrap => "Bootstrap",
        SpecsSource::DataStore => "DataStore",
        SpecsSource::Network => "Network",
        SpecsSource::NetworkNotModified => "NetworkNotModified",
        SpecsSource::Error => "Error",
    }
}

/// The `lcut` as the client init response reports it: a 64-bit signed
/// reading, `0` when the store has none.
pub open spec fn spec_lcut_i64(lcut: Option<u64>) -> i64 {
    match lcut {
        Some(l) => if l <= 0x7fff_ffff_ffff_ffff {
            l as i64
        } else {
            0x7fff_ffff_ffff_ffff
        },
        None => 0,
    }
}

/// The shape of a client init response at clock reading `t`: a JSON
/// object whose `feature_gates` member maps every gate of the ruleset,
/// in order, to its evaluated boolean, and whose `time` member carries
/// the store's `lcut`.
pub open spec fn spec_client_init_matches(
    r: JsonValue,
    rs: SpecsResponseFull,
    user: StatsigUser,
    lcut: Option<u64>,
    t: u64,
) -> bool {
    match r {
        JsonValue::Obj(entries) => {
            &&& entries@.len() == 2
            &&& entries@[0].0@ == "feature_gates"@
            &&& (entries@[0].1 matches JsonValue::Obj(gates) && {
                &&& gates@.len() == rs.feature_gates@.len()
                &&& forall|i: int|
                    0 <= i < gates@.len() ==> (#[trigger] gates@[i]).0@ == rs.feature_gates@[i].0@
                        && gates@[i].1 == JsonValue::Bool(
                        spec_eval_spec(
                            rs,
                            user,
                            rs.feature_gates@[i].1,
                            t,
                            MAX_EVAL_DEPTH as nat,
                        ).bool_value,
                    )
            })
            &&& entries@[1].0@ == "time"@
            &&& entries@[1].1 == JsonValue::Int(spec_lcut_i64(lcut))
        },
        _ => false,
    }
}

/// The boolean a gate call returns at clock reading `t`: the evaluated
/// outcome, or `false` for an unknown gate.
pub open spec fn spec_gate_value(
    rs: crate::spec_types::SpecsResponseFull,
    user: StatsigUser,
    name: Seq<char>,
    t: u64,
) -> bool {
    match spec_eval_gate(rs, user, name, t, MAX_EVAL_DEPTH as nat) {
        Some(o) => o.bool_value,
        None => false,
    }
}

impl Statsig {
    /// All components are internally consistent and the counters have
    /// room, so every operation below is available.
    pub open spec fn wf(&self) -> bool {
        &&& self.store.wf()
        &&& self.hashing.wf()
        &&& self.runtime.wf()
    }

    pub fn new(sdk_key: &str, options: Option<StatsigOptions>) -> (r: Self)
        ensures
            r.wf(),
            r.sdk_key@ == sdk_key@,
            r.store.lcut is None,
            r.store.source == SpecsSource::Uninitialized,
            r.runtime.spec_tasks().len() == 0,
    {
        let options = match options {
            Some(o) => o,
            None => StatsigOptions::new(),
        };
        let queue_size: u32 = match options.event_logging_max_queue_size {
            Some(n) => n,
            None => DEFAULT_EVENT_QUEUE_SIZE,
        };
        Statsig {
            sdk_key: sdk_key.to_owned(),
            store: SpecStore::new(),
            hashing: Hashing::new(),
            logger: EventLogger::new(queue_size as usize),
            runtime: StatsigRuntime::get_runtime(),
            options,
        }
    }

    /// Initialize. A bootstrap payload is applied at once (its source is
    /// `Bootstrap`); without one the store waits for network payloads,
    /// which the caller delivers through `apply_network_payload`.
    pub fn initialize(&mut self, bootstrap_data: Option<String>) -> (r: Result<(), StatsigErr>)
        requires
            old(self).wf(),
        ensures
            final(self).wf(),
            r is Ok,
            bootstrap_data matches Some(data) ==> (final(self).store.last_update matches Some(u)
                && u.source == SpecsSource::Bootstrap && u.data@ == data@),
    {
        match bootstrap_data {
            Some(data) => {
                let mut adapter = StatsigBootstrapSpecsAdapter::new(data);
                let now = now_timestamp_millis();
                adapter.start(&mut self.store, now)
            },
            None => Ok(()),
        }
    }

    /// Deliver one network payload to the store, as the polling loop
    /// outside the library does on each fetch. The store holds it to the
    /// monotonicity rule: a strictly older `lcut` from the network is
    /// dropped.
    pub fn apply_network_payload(&mut self, body: String, received_at: u64) -> (r: Result<
        (),
        StatsigErr,
    >)
        requires
            old(self).wf(),
        ensures
            final(self).wf(),
            final(self).store.last_update matches Some(u) && u.source == SpecsSource::Network
                && u.data@ == body@ && u.received_at == received_at,
            match (old(self).store.lcut, final(self).store.lcut) {
                (Some(a), Some(b)) => a <= b,
                (Some(a), None) => false,
                _ => true,
            },
    {
        let update = crate::spec_store::SpecsUpdate {
            data: body,
            source: SpecsSource::Network,
            received_at,
        };
        self.store.apply_update(update)
    }

    fn log_config_exposure(
        &mut self,
        user: &StatsigUser,
        event_name: &str,
        name: &String,
        rule_id: &String,
        now: u64,
    )
        requires
            old(self).wf(),
        ensures
            final(self).wf(),
            final(self).store == old(self).store,
            final(self).hashing == old(self).hashing,
            final(self).runtime == old(self).runtime,
    {
        if self.options.disable_all_logging {
            return ;
        }
        let mut key = name.clone();
        key.append("|");
        key.append(rule_id.as_str());
        key.append("|");
        match &user.user_id {
            Some(u) => key.append(u.as_str()),
            None => {},
        }
        let mut metadata: Vec<(String, String)> = Vec::new();
        metadata.push(("config".to_owned(), name.clone()));
        metadata.push(("ruleID".to_owned(), rule_id.clone()));
        let event = StatsigEvent {
            event_name: event_name.to_owned(),
            value: None,
            metadata,
            time: now,
        };
        let _ = self.logger.enqueue_exposure(key, event);
    }

    fn log_gate_exposure(&mut self, user: &StatsigUser, name: &String, result: &EvaluationResult, now: u64)
        requires
            old(self).wf(),
        ensures
            final(self).wf(),
            final(self).store == old(self).store,
            final(self).hashing == old(self).hashing,
            final(self).runtime == old(self).runtime,
    {
        if self.options.disable_all_logging {
            return ;
        }
        let mut key = name.clone();
        key.append("|");
        key.append(result.rule_id.as_str());
        key.append("|");
        key.append(if result.bool_value {
            "true"
        } else {
            "false"
        });
        key.append("|");
        match &user.user_id {
            Some(u) => key.append(u.as_str()),
            None => {},
        }
        let mut metadata: Vec<(String, String)> = Vec::new();
        metadata.push(("gate".to_owned(), name.clone()));
        metadata.push(
            (
                "gateValue".to_owned(),
                if result.bool_value {
                    "true".to_owned()
                } else {
                    "false".to_owned()
                },
            ),
        );
        metadata.push(("ruleID".to_owned(), result.rule_id.clone()));
        let event = StatsigEvent {
            event_name: "statsig::gate_exposure".to_owned(),
            value: None,
            metadata,
            time: now,
        };
        let _ = self.logger.enqueue_exposure(key, event);
    }

    /// Evaluate a gate at an explicit clock reading: exactly the outcome
    /// the evaluation spec describes, `false` for an unknown gate.
    pub fn check_gate_at(&mut self, user: &StatsigUser, gate_name: &String, now: u64) -> (r: bool)
        requires
            old(self).wf(),
        ensures
            final(self).wf(),
            final(self).store == old(self).store,
            r == (match spec_eval_gate(
                old(self).store.values,
                *user,
                gate_name@,
                now,
                MAX_EVAL_DEPTH as nat,
            ) {
                Some(o) => o.bool_value,
                None => false,
            }),
    {
        let mut exposures: Vec<SecondaryExposure> = Vec::new();
        let result = eval_gate(
            &self.store.values,
            user,
            gate_name,
            now,
            MAX_EVAL_DEPTH,
            &mut self.hashing,
            &mut exposures,
        );
        match result {
            Some(res) => {
                let value = res.bool_value;
                self.log_gate_exposure(user, gate_name, &res, now);
                value
            },
            None => false,
        }
    }

    /// Evaluate a gate against the current snapshot and the wall clock.
    pub fn check_gate(&mut self, user: &StatsigUser, gate_name: &String) -> (r: bool)
        requires
            old(self).wf(),
        ensures
            final(self).wf(),
            final(self).store == old(self).store,
            exists|t: u64|
                r == #[trigger] spec_gate_value(old(self).store.values, *user, gate_name@, t),
    {
        let now = now_timestamp_millis();
        let r = self.check_gate_at(user, gate_name, now);
        proof {
            assert(r == spec_gate_value(old(self).store.values, *user, gate_name@, now));
        }
        r
    }

    /// Evaluate a gate into a full `FeatureGate`: the outcome the spec
    /// describes, with the details naming the specs source, or
    /// `Unrecognized` for an unknown gate.
    pub fn get_feature_gate(&mut self, user: &StatsigUser, gate_name: &String) -> (r: FeatureGate)
        requires
            old(self).wf(),
        ensures
            final(self).wf(),
            final(self).store == old(self).store,
            r.name@ == gate_name@,
            exists|t: u64|
                match #[trigger] spec_eval_gate(
                    old(self).store.values,
                    *user,
                    gate_name@,
                    t,
                    MAX_EVAL_DEPTH as nat,
                ) {
                    Some(o) => r.value == o.bool_value && r.rule_id@ == o.rule_id
                        && r.details.reason@ == (if o.rule_id == "disabled"@ {
                        "Disabled"@
                    } else {
                        spec_source_reason(old(self).store.source)
                    }),
                    None => !r.value && r.rule_id@ == "default"@ && r.details.reason@
                        == "Unrecognized"@,
                },
    {
        let now = now_timestamp_millis();
        let mut exposures: Vec<SecondaryExposure> = Vec::new();
        let result = eval_gate(
            &self.store.values,
            user,
            gate_name,
            now,
            MAX_EVAL_DEPTH,
            &mut self.hashing,
            &mut exposures,
        );
        let lcut = self.store.lcut;
        match result {
            Some(res) => {
                self.log_gate_exposure(user, gate_name, &res, now);
                let reason = if string_eq_str(&res.rule_id, "disabled") {
                    "Disabled"
                } else {
                    source_reason(self.store.source)
                };
                let details = EvaluationDetails::new(reason, lcut, None);
                let evaluation = GateEvaluation {
                    value: res.bool_value,
                    rule_id: res.rule_id,
                    id_type: res.id_type,
                };
                make_feature_gate(gate_name.as_str(), Some(evaluation), details)
            },
            None => {
                let details = EvaluationDetails::new("Unrecognized", lcut, None);
                make_feature_gate(gate_name.as_str(), None, details)
            },
        }
    }

    /// Evaluate a dynamic config.
    pub fn get_dynamic_config(&mut self, user: &StatsigUser, name: &String) -> (r: DynamicConfig)
        requires
            old(self).wf(),
        ensures
            final(self).wf(),
            final(self).store == old(self).store,
            r.name@ == name@,
            exists|t: u64|
                match #[trigger] spec_eval_config(
                    old(self).store.values,
                    *user,
                    name@,
                    t,
                    MAX_EVAL_DEPTH as nat,
                ) {
                    Some(o) => r.rule_id@ == o.rule_id && spec_entries_match(r.value@, o.value)
                        && r.details.reason@ == (if o.rule_id == "disabled"@ {
                        "Disabled"@
                    } else {
                        spec_source_reason(old(self).store.source)
                    }),
                    None => r.rule_id@ == "default"@ && r.details.reason@ == "Unrecognized"@,
                },
    {
        let now = now_timestamp_millis();
        let mut exposures: Vec<SecondaryExposure> = Vec::new();
        let result = eval_config(
            &self.store.values,
            user,
            name,
            now,
            MAX_EVAL_DEPTH,
            &mut self.hashing,
            &mut exposures,
        );
        let lcut = self.store.lcut;
        match result {
            Some(res) => {
                let ghost outcome = spec_eval_config(
                    old(self).store.values,
                    *user,
                    name@,
                    now,
                    MAX_EVAL_DEPTH as nat,
                )->0;
                self.log_config_exposure(user, "statsig::config_exposure", name, &res.rule_id, now);
                let reason = if string_eq_str(&res.rule_id, "disabled") {
                    "Disabled"
                } else {
                    source_reason(self.store.source)
                };
                let details = EvaluationDetails::new(reason, lcut, None);
                let evaluation = DynamicConfigEvaluation {
                    value: res.json_value,
                    rule_id: res.rule_id,
                    id_type: res.id_type,
                };
                let config = make_dynamic_config(name.as_str(), Some(evaluation), details);
                proof {
                    lemma_entries_match_transfer(config.value@, evaluation.value, outcome.value);
                }
                config
            },
            None => {
                let details = EvaluationDetails::new("Unrecognized", lcut, None);
                make_dynamic_config(name.as_str(), None, details)
            },
        }
    }

    /// Evaluate an experiment. A delegated experiment reports the
    /// delegate's value and group; the exposures recorded before the
    /// delegation ride along in the evaluation.
    pub fn get_experiment(&mut self, user: &StatsigUser, name: &String) -> (r: Experiment)
        requires
            old(self).wf(),
        ensures
            final(self).wf(),
            final(self).store == old(self).store,
            r.name@ == name@,
            exists|t: u64|
                match #[trigger] spec_eval_config(
                    old(self).store.values,
                    *user,
                    name@,
                    t,
                    MAX_EVAL_DEPTH as nat,
                ) {
                    Some(o) => r.rule_id@ == o.rule_id && spec_entries_match(r.value@, o.value)
                        && crate::evaluator::spec_opt_view(r.group_name) == o.group_name
                        && r.details.reason@ == (if o.rule_id == "disabled"@ {
                        "Disabled"@
                    } else {
                        spec_source_reason(old(self).store.source)
                    }),
                    None => r.rule_id@ == "default"@ && r.details.reason@ == "Unrecognized"@,
                },
    {
        let now = now_timestamp_millis();
        let mut exposures: Vec<SecondaryExposure> = Vec::new();
        let result = eval_config(
            &self.store.values,
            user,
            name,
            now,
            MAX_EVAL_DEPTH,
            &mut self.hashing,
            &mut exposures,
        );
        let lcut = self.store.lcut;
        match result {
            Some(res) => {
                let ghost outcome = spec_eval_config(
                    old(self).store.values,
                    *user,
                    name@,
                    now,
                    MAX_EVAL_DEPTH as nat,
                )->0;
                self.log_config_exposure(user, "statsig::config_exposure", name, &res.rule_id, now);
                let reason = if string_eq_str(&res.rule_id, "disabled") {
                    "Disabled"
                } else {
                    source_reason(self.store.source)
                };
                let details = EvaluationDetails::new(reason, lcut, None);
                let evaluation = ExperimentEvaluation {
                    value: res.json_value,
                    rule_id: res.rule_id,
                    id_type: res.id_type,
                    group_name: res.group_name,
                };
                let experiment = make_experiment(name.as_str(), Some(evaluation), details);
                proof {
                    lemma_entries_match_transfer(
                        experiment.value@,
                        evaluation.value,
                        outcome.value,
                    );
                }
                experiment
            },
            None => {
                let details = EvaluationDetails::new("Unrecognized", lcut, None);
                make_experiment(name.as_str(), None, details)
            },
        }
    }

    /// Evaluate a layer.
    pub fn get_layer(&mut self, user: &StatsigUser, name: &String) -> (r: Layer)
        requires
            old(self).wf(),
        ensures
            final(self).wf(),
            final(self).store == old(self).store,
            r.name@ == name@,
            exists|t: u64|
                match #[trigger] spec_eval_layer(
                    old(self).store.values,
                    *user,
                    name@,
                    t,
                    MAX_EVAL_DEPTH as nat,
                ) {
                    Some(o) => r.rule_id@ == o.rule_id && spec_entries_match(r.value@, o.value)
                        && r.details.reason@ == (if o.rule_id == "disabled"@ {
                        "Disabled"@
                    } else {
                        spec_source_reason(old(self).store.source)
                    }),
                    None => r.rule_id@ == "default"@ && r.details.reason@ == "Unrecognized"@,
                },
    {
        let now = now_timestamp_millis();
        let mut exposures: Vec<SecondaryExposure> = Vec::new();
        let result = eval_layer(
            &self.store.values,
            user,
            name,
            now,
            MAX_EVAL_DEPTH,
            &mut self.hashing,
            &mut exposures,
        );
        let lcut = self.store.lcut;
        match result {
            Some(res) => {
                let ghost outcome = spec_eval_layer(
                    old(self).store.values,
                    *user,
                    name@,
                    now,
                    MAX_EVAL_DEPTH as nat,
                )->0;
                self.log_config_exposure(user, "statsig::layer_exposure", name, &res.rule_id, now);
                let reason = if string_eq_str(&res.rule_id, "disabled") {
                    "Disabled"
                } else {
                    source_reason(self.store.source)
                };
                let details = EvaluationDetails::new(reason, lcut, None);
                let evaluation = LayerEvaluation {
                    value: res.json_value,
                    rule_id: res.rule_id,
                    id_type: res.id_type,
                };
                let layer = make_layer(name.as_str(), Some(evaluation), details);
                proof {
                    lemma_entries_match_transfer(layer.value@, evaluation.value, outcome.value);
                }
                layer
            },
            None => {
                let details = EvaluationDetails::new("Unrecognized", lcut, None);
                make_layer(name.as_str(), None, details)
            },
        }
    }

    /// The client bootstrap blob: every gate of the ruleset evaluated for
    /// this user, in order, with the ruleset timestamp, as one JSON
    /// value.
    pub fn get_client_init_response(&mut self, user: &StatsigUser) -> (r: JsonValue)
        requires
            old(self).wf(),
        ensures
            final(self).wf(),
            final(self).store == old(self).store,
            exists|t: u64|
                #[trigger] spec_client_init_matches(
                    r,
                    old(self).store.values,
                    *user,
                    old(self).store.lcut,
                    t,
                ),
    {
        let now = now_timestamp_millis();
        let mut gates: Vec<(String, JsonValue)> = Vec::new();
        let mut exposures: Vec<SecondaryExposure> = Vec::new();
        let n = self.store.values.feature_gates.len();
        for i in 0..n
            invariant
                self.store == old(self).store,
                self.store.wf(),
                self.hashing.wf(),
                self.runtime == old(self).runtime,
                n == self.store.values.feature_gates@.len(),
                gates@.len() == i,
                forall|k: int|
                    0 <= k < i ==> (#[trigger] gates@[k]).0@
                        == self.store.values.feature_gates@[k].0@ && gates@[k].1 == JsonValue::Bool(
                        spec_eval_spec(
                            self.store.values,
                            *user,
                            self.store.values.feature_gates@[k].1,
                            now,
                            MAX_EVAL_DEPTH as nat,
                        ).bool_value,
                    ),
        {
            proof {
                assert(crate::spec_types::spec_spec_wf(
                    self.store.values.feature_gates@[i as int].1,
                ));
            }
            let name = self.store.values.feature_gates[i].0.clone();
            let res = eval_spec(
                &self.store.values,
                user,
                &self.store.values.feature_gates[i].1,
                now,
                MAX_EVAL_DEPTH,
                &mut self.hashing,
                &mut exposures,
            );
            gates.push((name, JsonValue::Bool(res.bool_value)));
        }
        let mut entries: Vec<(String, JsonValue)> = Vec::new();
        entries.push(("feature_gates".to_owned(), JsonValue::Obj(gates)));
        let time: i64 = match self.store.lcut {
            Some(l) => if l <= 0x7fff_ffff_ffff_ffff {
                l as i64
            } else {
                0x7fff_ffff_ffff_ffff
            },
            None => 0,
        };
        entries.push(("time".to_owned(), JsonValue::Int(time)));
        let response = JsonValue::Obj(entries);
        proof {
            assert(spec_client_init_matches(
                response,
                old(self).store.values,
                *user,
                old(self).store.lcut,
                now,
            ));
        }
        response
    }

    /// Record a named event with an optional numeric value: queued
    /// exactly when logging is enabled and the queue has room, carrying
    /// this name, value and metadata.
    pub fn log_event_with_number(
        &mut self,
        event_name: &str,
        value: Option<i64>,
        metadata: Vec<(String, String)>,
    ) -> (r: bool)
        requires
            old(self).wf(),
        ensures
            final(self).wf(),
            final(self).store == old(self).store,
            r == (!old(self).options.disable_all_logging && old(self).logger.spec_queue().len()
                < old(self).logger.spec_max()),
            r ==> final(self).logger.spec_queue().len() == old(self).logger.spec_queue().len() + 1
                && final(self).logger.spec_queue().last().event_name@ == event_name@ && final(self).logger.spec_queue().last().metadata == metadata && final(self).logger.spec_queue().last().value == (match value {
                Some(n) => Some(JsonValue::Int(n)),
                None => None,
            }),
            !r ==> final(self).logger.spec_queue() == old(self).logger.spec_queue(),
    {
        let now = now_timestamp_millis();
        let event = StatsigEvent {
            event_name: event_name.to_owned(),
            value: match value {
                Some(n) => Some(JsonValue::Int(n)),
                None => None,
            },
            metadata,
            time: now,
        };
        self.log_event(event)
    }

    /// Record a custom event: queued exactly when logging is enabled and
    /// the queue has room; otherwise dropped silently (the logger never
    /// blocks).
    pub fn log_event(&mut self, event: StatsigEvent) -> (r: bool)
        requires
            old(self).wf(),
        ensures
            final(self).wf(),
            final(self).store == old(self).store,
            r == (!old(self).options.disable_all_logging && old(self).logger.spec_queue().len()
                < old(self).logger.spec_max()),
            r ==> final(self).logger.spec_queue() == old(self).logger.spec_queue().push(event),
            !r ==> final(self).logger.spec_queue() == old(self).logger.spec_queue(),
    {
        if self.options.disable_all_logging {
            return false;
        }
        self.logger.enqueue_event(event)
    }

    /// Hand the queued events out for one flush, as the periodic flusher
    /// outside the library does before each POST.
    pub fn flush_events(&mut self) -> (r: Vec<StatsigEvent>)
        requires
            old(self).wf(),
        ensures
            final(self).wf(),
            final(self).store == old(self).store,
            r@ == old(self).logger.spec_queue(),
            final(self).logger.spec_queue().len() == 0,
    {
        self.logger.take_batch()
    }

    /// Shut down: the dedup set freezes, every background task is
    /// aborted and dropped. Afterwards no task is active; the queued
    /// events survive for a final drain through `flush_events`.
    pub fn shutdown_with_timeout(&mut self, _timeout_ms: u64) -> (r: Result<(), StatsigErr>)
        requires
            old(self).wf(),
        ensures
            final(self).wf(),
            r is Ok,
            final(self).runtime.spec_tasks().len() == 0,
            final(self).runtime.spec_is_shutdown(),
            final(self).logger.spec_dedup_frozen(),
            final(self).logger.spec_queue() == old(self).logger.spec_queue(),
    {
        self.logger.shutdown_dedup();
        self.runtime.shutdown();
        Ok(())
    }
}

} // verus!
