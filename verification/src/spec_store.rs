//! The holder of the current parsed ruleset and its metadata.
//!
//! Updates arrive as raw payload text. A payload that fails to parse leaves
//! the ruleset untouched and only bumps a diagnostic counter. A full payload
//! is subject to the monotonicity rule: for sources that carry server
//! timestamps (`Network`, `Bootstrap`, `DataStore`) an update with a
//! strictly older `lcut` than the current one is dropped.

use vstd::prelude::*;

use crate::errors::StatsigErr;
use crate::json::parse_json;
use crate::spec_types::{
    parse_specs_response, spec_response_wf, SpecsResponse, SpecsResponseFull,
};

verus! {

/// Where a specs update came from.
#[derive(Clone, Copy, Debug, PartialEq, Eq, Structural)]
pub enum SpecsSource {
    NoValues,
    Uninitialized,
    Loading,
    Bootstrap,
    DataStore,
    Network,
    NetworkNotModified,
    Error,
}

/// A raw specs payload on its way to the store.
#[derive(Debug)]
pub struct SpecsUpdate {
    pub data: String,
    pub source: SpecsSource,
    pub received_at: u64,
}

/// What an adapter needs to build a conditional request.
#[derive(Debug)]
pub struct SpecsInfo {
    pub lcut: Option<u64>,
    pub source: SpecsSource,
}

/// A diagnostic counter bumped by one, stopping at its ceiling.
pub open spec fn spec_saturating_inc(x: u64) -> u64 {
    if x < u64::MAX {
        (x + 1) as u64
    } else {
        x
    }
}

/// The sources whose updates carry a server `lcut` and are therefore held
/// to the monotonicity rule.
pub open spec fn spec_is_monotonic_source(s: SpecsSource) -> bool {
    s == SpecsSource::Network || s == SpecsSource::Bootstrap || s == SpecsSource::DataStore
}

/// The store's `lcut` after one full update: kept when a monotonic source
/// delivers a strictly older timestamp, replaced otherwise.
pub open spec fn spec_next_lcut(cur: Option<u64>, source: SpecsSource, t: u64) -> Option<u64> {
    if spec_is_monotonic_source(source) && (cur matches Some(c) && t < c) {
        cur
    } else {
        Some(t)
    }
}

/// The store's `lcut` after a whole sequence of full updates from one
/// source, applied in order.
pub open spec fn spec_apply_lcuts(cur: Option<u64>, times: Seq<u64>, source: SpecsSource) -> Option<
    u64,
>
    decreases times.len(),
{
    if times.len() == 0 {
        cur
    } else {
        spec_apply_lcuts(spec_next_lcut(cur, source, times.first()), times.drop_first(), source)
    }
}

/// For a strictly increasing sequence of timestamps delivered by one
/// monotonic source, the store's `lcut` ends at the last (and greatest)
/// timestamp: every update is applied, none is dropped.
pub proof fn lemma_lcut_sequence_reaches_max(cur: Option<u64>, times: Seq<u64>, source: SpecsSource)
    requires
        times.len() > 0,
        forall|i: int, j: int| 0 <= i < j < times.len() ==> times[i] < times[j],
        spec_is_monotonic_source(source),
        cur matches Some(c) ==> c <= times.first(),
    ensures
        spec_apply_lcuts(cur, times, source) == Some(times.last()),
        forall|i: int| 0 <= i < times.len() ==> times[i] <= times.last(),
    decreases times.len(),
{
    let next = spec_next_lcut(cur, source, times.first());
    assert(next == Some(times.first()));
    assert(spec_apply_lcuts(cur, times, source) == spec_apply_lcuts(
        next,
        times.drop_first(),
        source,
    ));
    if times.len() == 1 {
        assert(times.drop_first().len() == 0);
        assert(spec_apply_lcuts(next, times.drop_first(), source) == next);
        assert(times.first() == times.last());
    } else {
        assert(forall|i: int, j: int|
            0 <= i < j < times.drop_first().len() ==> times.drop_first()[i]
                < times.drop_first()[j]);
        assert(times.first() <= times.drop_first().first());
        lemma_lcut_sequence_reaches_max(next, times.drop_first(), source);
        assert(times.drop_first().last() == times.last());
        assert forall|i: int| 0 <= i < times.len() implies times[i] <= times.last() by {
            if i == 0 {
                assert(times.drop_first()[0] == times[1]);
                assert(times[0] < times[1]);
            } else {
                assert(times.drop_first()[i - 1] == times[i]);
            }
        }
    }
}

/// The store: the current parsed ruleset, its source, its `lcut`, a parse
/// diagnostic counter, and the raw form of the most recent delivery.
#[derive(Debug)]
pub struct SpecStore {
    pub values: SpecsResponseFull,
    pub source: SpecsSource,
    pub lcut: Option<u64>,
    pub parse_failure_count: u64,
    pub last_update: Option<SpecsUpdate>,
}

impl SpecStore {
    /// The held ruleset is well formed.
    pub open spec fn wf(&self) -> bool {
        spec_response_wf(self.values)
    }

    /// An empty store: no values, no `lcut`.
    pub fn new() -> (r: Self)
        ensures
            r.wf(),
            r.lcut is None,
            r.source == SpecsSource::Uninitialized,
            r.values.feature_gates@.len() == 0,
            r.values.dynamic_configs@.len() == 0,
            r.values.layer_configs@.len() == 0,
            r.parse_failure_count == 0,
    {
        SpecStore {
            values: SpecsResponseFull {
                feature_gates: Vec::new(),
                dynamic_configs: Vec::new(),
                layer_configs: Vec::new(),
                condition_map: Vec::new(),
                experiment_to_layer: Vec::new(),
                has_updates: false,
                time: 0,
            },
            source: SpecsSource::Uninitialized,
            lcut: None,
            parse_failure_count: 0,
            last_update: None,
        }
    }

    /// A borrowed snapshot of the current ruleset. The store is only
    /// changed through `&mut` methods, so everything read through one
    /// borrow is a single consistent version.
    pub fn snapshot(&self) -> (r: &SpecsResponseFull)
        ensures
            *r == self.values,
    {
        &self.values
    }

    /// The metadata an adapter embeds in its next conditional request.
    pub fn get_current_specs_info(&self) -> (r: SpecsInfo)
        ensures
            r.lcut == self.lcut,
            r.source == self.source,
    {
        SpecsInfo { lcut: self.lcut, source: self.source }
    }

    /// Apply one already-parsed full payload. Returns whether the ruleset
    /// was swapped: an update from a monotonic source with a strictly
    /// older `lcut` is dropped, everything else replaces the ruleset
    /// wholesale and moves `lcut` to the payload's timestamp.
    pub fn apply_full_update(&mut self, full: SpecsResponseFull, source: SpecsSource) -> (applied:
        bool)
        requires
            old(self).wf(),
            spec_response_wf(full),
        ensures
            final(self).wf(),
            final(self).lcut == spec_next_lcut(old(self).lcut, source, full.time),
            applied == !(spec_is_monotonic_source(source) && (old(self).lcut matches Some(c)
                && full.time < c)),
            applied ==> final(self).values == full && final(self).source == source
                && final(self).lcut == Some(full.time),
            !applied ==> final(self).values == old(self).values
                && final(self).source == old(self).source && final(self).lcut == old(self).lcut,
            final(self).parse_failure_count == old(self).parse_failure_count,
            final(self).last_update == old(self).last_update,
    {
        let monotonic = match source {
            SpecsSource::Network | SpecsSource::Bootstrap | SpecsSource::DataStore => true,
            _ => false,
        };
        let dropped = monotonic && match self.lcut {
            Some(c) => full.time < c,
            None => false,
        };
        if dropped {
            return false;
        }
        self.values = full;
        self.source = source;
        self.lcut = Some(self.values.time);
        true
    }

    /// Apply one already-parsed payload under a source: the `NoUpdates`
    /// form only moves the source to `NetworkNotModified`; the full form
    /// goes through `apply_full_update` and returns whether the ruleset
    /// was swapped.
    pub fn apply_parsed(&mut self, response: SpecsResponse, source: SpecsSource) -> (applied: bool)
        requires
            old(self).wf(),
            response matches SpecsResponse::Full(f) ==> spec_response_wf(*f),
        ensures
            final(self).wf(),
            final(self).parse_failure_count == old(self).parse_failure_count,
            final(self).last_update == old(self).last_update,
            match response {
                SpecsResponse::NoUpdates(_) => !applied && final(self).values == old(self).values
                    && final(self).lcut == old(self).lcut && final(self).source
                    == SpecsSource::NetworkNotModified,
                SpecsResponse::Full(full) => {
                    &&& final(self).lcut == spec_next_lcut(old(self).lcut, source, full.time)
                    &&& applied == !(spec_is_monotonic_source(source) && (old(self).lcut
                        matches Some(c) && full.time < c))
                    &&& applied ==> final(self).values == *full && final(self).source == source
                        && final(self).lcut == Some(full.time)
                    &&& !applied ==> final(self).values == old(self).values && final(self).source
                        == old(self).source && final(self).lcut == old(self).lcut
                },
            },
    {
        match response {
            SpecsResponse::NoUpdates(_) => {
                self.source = SpecsSource::NetworkNotModified;
                false
            },
            SpecsResponse::Full(full) => self.apply_full_update(*full, source),
        }
    }

    /// Apply one raw update.
    ///
    /// The payload text decides what happens: a payload outside the JSON
    /// subset (or outside the payload schema) is an error that leaves the
    /// ruleset, `lcut` and source untouched and bumps the failure counter;
    /// a parsed payload goes through `apply_parsed` under this update's
    /// source. Whatever the payload, the raw update is recorded, for a
    /// monotonic source `lcut` never decreases, and an `Ok` result means
    /// the store moved by one of the three parsed shapes below. (Which
    /// texts parse is decided by the executable parser; the contract does
    /// not restate the payload grammar, so it does not force `Ok` on a
    /// given text — `apply_parsed` carries the exact rule from the parsed
    /// form on.)
    pub fn apply_update(&mut self, update: SpecsUpdate) -> (r: Result<(), StatsigErr>)
        requires
            old(self).wf(),
        ensures
            final(self).wf(),
            r is Err ==> final(self).values == old(self).values
                && final(self).lcut == old(self).lcut && final(self).source == old(self).source
                && final(self).parse_failure_count == spec_saturating_inc(
                old(self).parse_failure_count,
            ),
            r is Ok ==> final(self).parse_failure_count == old(self).parse_failure_count,
            r is Ok ==> {
                ||| (final(self).values == old(self).values && final(self).lcut == old(self).lcut
                    && final(self).source == SpecsSource::NetworkNotModified)
                ||| (final(self).values == old(self).values && final(self).lcut == old(self).lcut
                    && final(self).source == old(self).source)
                ||| (spec_response_wf(final(self).values) && final(self).source == update.source
                    && final(self).lcut == Some(final(self).values.time) && spec_next_lcut(
                    old(self).lcut,
                    update.source,
                    final(self).values.time,
                ) == Some(final(self).values.time))
            },
            spec_is_monotonic_source(update.source) ==> match (old(self).lcut, final(self).lcut) {
                (Some(a), Some(b)) => a <= b,
                (Some(a), None) => false,
                _ => true,
            },
            final(self).last_update matches Some(u) && u.source == update.source && u.data@
                == update.data@ && u.received_at == update.received_at,
    {
        let parsed = match parse_json(update.data.as_str()) {
            Some(v) => match parse_specs_response(&v) {
                Some(resp) => Some(resp),
                None => None,
            },
            None => None,
        };
        match parsed {
            None => {
                if self.parse_failure_count < u64::MAX {
                    self.parse_failure_count = self.parse_failure_count + 1;
                }
                self.last_update = Some(update);
                Err(StatsigErr::ParseError("specs payload not understood".to_owned()))
            },
            Some(response) => {
                let source = update.source;
                self.last_update = Some(update);
                let _applied = self.apply_parsed(response, source);
                Ok(())
            },
        }
    }
}

} // verus!
