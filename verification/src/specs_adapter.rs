//! The specs source adapters: the bootstrap adapter in full, the
//! computational side of the HTTP polling adapter (URL construction and
//! response handling; the network call itself lives outside the library),
//! and the gRPC stream's retry/backoff state machine.

use vstd::prelude::*;
use vstd::string::StringExecFns;

use crate::errors::StatsigErr;
use crate::hashing::{dec_str_u64, spec_dec_str};
use crate::spec_store::{SpecStore, SpecsSource, SpecsUpdate};

verus! {

/// Relies on std::time's `SystemTime`: the wall clock, as milliseconds
/// since the Unix epoch. A clock set before the epoch reads as 0 and one
/// beyond the 64-bit range saturates, so the call cannot panic. Nothing
/// more is promised of the value: it depends on the machine's clock.
#[verifier::external_body]
pub fn now_timestamp_millis() -> u64 {
    match std::time::SystemTime::now().duration_since(std::time::UNIX_EPOCH) {
        Ok(elapsed) => {
            let ms = elapsed.as_millis();
            if ms > u64::MAX as u128 {
                u64::MAX
            } else {
                ms as u64
            }
        },
        Err(_) => 0,
    }
}

/// The adapter that serves a locally provided payload: `start` pushes it
/// to the listener at once, `set_data` replaces it and pushes again.
#[derive(Debug)]
pub struct StatsigBootstrapSpecsAdapter {
    data: String,
    started: bool,
}

impl StatsigBootstrapSpecsAdapter {
    /// The payload the adapter will push.
    pub closed spec fn spec_data(&self) -> Seq<char> {
        self.data@
    }

    /// Whether `start` has run (the listener is wired).
    pub closed spec fn spec_started(&self) -> bool {
        self.started
    }

    pub fn new(data: String) -> (r: Self)
        ensures
            r.spec_data() == data@,
            !r.spec_started(),
    {
        StatsigBootstrapSpecsAdapter { data, started: false }
    }

    /// Push the held payload to the listener as a `Bootstrap` update.
    /// Before `start` there is no listener and this fails; afterwards the
    /// delivery itself always succeeds (a payload the store cannot parse
    /// is the store's diagnostic, not a delivery failure).
    pub fn push_update(&self, listener: &mut SpecStore, received_at: u64) -> (r: Result<
        (),
        StatsigErr,
    >)
        requires
            old(listener).wf(),
        ensures
            final(listener).wf(),
            r is Ok <==> self.spec_started(),
            !self.spec_started() ==> *final(listener) == *old(listener) && (r matches Err(e)
                && e is SpecsListenerNotSet),
            self.spec_started() ==> (final(listener).last_update matches Some(u) && u.source
                == SpecsSource::Bootstrap && u.data@ == self.spec_data() && u.received_at
                == received_at),
            match (old(listener).lcut, final(listener).lcut) {
                (Some(a), Some(b)) => a <= b,
                (Some(a), None) => false,
                _ => true,
            },
    {
        if !self.started {
            return Err(StatsigErr::SpecsListenerNotSet);
        }
        let update = SpecsUpdate {
            data: self.data.clone(),
            source: SpecsSource::Bootstrap,
            received_at,
        };
        let _ = listener.apply_update(update);
        Ok(())
    }

    /// Replace the payload and push it.
    pub fn set_data(&mut self, data: String, listener: &mut SpecStore, received_at: u64) -> (r:
        Result<(), StatsigErr>)
        requires
            old(listener).wf(),
        ensures
            final(listener).wf(),
            final(self).spec_data() == data@,
            final(self).spec_started() == old(self).spec_started(),
            r is Ok <==> old(self).spec_started(),
            !old(self).spec_started() ==> *final(listener) == *old(listener) && (r matches Err(e)
                && e is SpecsListenerNotSet),
            old(self).spec_started() ==> (final(listener).last_update matches Some(u) && u.source
                == SpecsSource::Bootstrap && u.data@ == data@),
    {
        self.data = data;
        self.push_update(listener, received_at)
    }

    /// Wire the listener and push the held payload: the first update is
    /// surfaced before `start` returns.
    pub fn start(&mut self, listener: &mut SpecStore, received_at: u64) -> (r: Result<
        (),
        StatsigErr,
    >)
        requires
            old(listener).wf(),
        ensures
            final(listener).wf(),
            final(self).spec_started(),
            final(self).spec_data() == old(self).spec_data(),
            r is Ok,
            final(listener).last_update matches Some(u) && u.source == SpecsSource::Bootstrap
                && u.data@ == old(self).spec_data(),
    {
        self.started = true;
        self.push_update(listener, received_at)
    }

    /// The bootstrap adapter has no background work.
    pub fn schedule_background_sync(&self) -> (r: Result<(), StatsigErr>)
        ensures
            r is Ok,
    {
        Ok(())
    }

    /// Nothing to stop.
    pub fn shutdown(&self) -> (r: Result<(), StatsigErr>)
        ensures
            r is Ok,
    {
        Ok(())
    }

    pub fn get_type_name(&self) -> (r: String)
        ensures
            r@ == "StatsigBootstrapSpecsAdapter"@,
    {
        "StatsigBootstrapSpecsAdapter".to_owned()
    }
}

/// Where specs are downloaded from when no override is configured.
pub const DEFAULT_SPECS_URL: &'static str = "https://api.statsigcdn.com/v2/download_config_specs";

/// How often the background sync fires when no override is configured.
pub const DEFAULT_SYNC_INTERVAL_MS: u32 = 10000;

/// The specs download URL: `{base}/{sdk_key}.json`.
pub fn construct_specs_url(sdk_key: &str, spec_url: Option<&String>) -> (r: String)
    ensures
        r@ == (match spec_url {
            Some(u) => u@,
            None => DEFAULT_SPECS_URL@,
        }) + "/"@ + sdk_key@ + ".json"@,
{
    let mut base: String = match spec_url {
        Some(u) => u.clone(),
        None => DEFAULT_SPECS_URL.to_owned(),
    };
    base.append("/");
    base.append(sdk_key);
    base.append(".json");
    base
}

/// The computational core of the HTTP polling adapter. The network client
/// outside the library performs the GET this type describes and hands the
/// body (or the absence of one) back to `process_fetch_result`.
#[derive(Debug)]
pub struct StatsigHttpSpecsAdapter {
    specs_url: String,
    sync_interval_ms: u64,
}

impl StatsigHttpSpecsAdapter {
    pub closed spec fn spec_specs_url(&self) -> Seq<char> {
        self.specs_url@
    }

    pub closed spec fn spec_sync_interval_ms(&self) -> u64 {
        self.sync_interval_ms
    }

    pub fn new(sdk_key: &str, specs_url: Option<&String>, sync_interval: Option<u32>) -> (r: Self)
        ensures
            r.spec_specs_url() == (match specs_url {
                Some(u) => u@,
                None => DEFAULT_SPECS_URL@,
            }) + "/"@ + sdk_key@ + ".json"@,
            r.spec_sync_interval_ms() == (match sync_interval {
                Some(ms) => ms as u64,
                None => DEFAULT_SYNC_INTERVAL_MS as u64,
            }),
    {
        let interval: u32 = match sync_interval {
            Some(ms) => ms,
            None => DEFAULT_SYNC_INTERVAL_MS,
        };
        StatsigHttpSpecsAdapter {
            specs_url: construct_specs_url(sdk_key, specs_url),
            sync_interval_ms: interval as u64,
        }
    }

    /// The full request URL for one fetch: the store's current `lcut`
    /// rides along as `sinceTime` so the server can answer `no updates`.
    pub fn build_request_url(&self, current_store_lcut: Option<u64>) -> (r: String)
        ensures
            r@ == (match current_store_lcut {
                Some(l) => self.spec_specs_url() + "?sinceTime="@ + spec_dec_str(l as nat),
                None => self.spec_specs_url(),
            }),
    {
        let mut url = self.specs_url.clone();
        match current_store_lcut {
            Some(l) => {
                url.append("?sinceTime=");
                let ls = dec_str_u64(l);
                url.append(ls.as_str());
            },
            None => {},
        }
        url
    }

    /// Hand a fetch result to the listener. No body at all is a network
    /// error and the store stays as it was; a body is delivered as a
    /// `Network` update, which the store holds to the monotonicity rule.
    pub fn process_fetch_result(
        &self,
        response_body: Option<String>,
        listener: &mut SpecStore,
        received_at: u64,
    ) -> (r: Result<(), StatsigErr>)
        requires
            old(listener).wf(),
        ensures
            final(listener).wf(),
            r is Ok <==> response_body is Some,
            response_body is None ==> *final(listener) == *old(listener) && (r matches Err(e)
                && e is NetworkError),
            response_body matches Some(body) ==> (final(listener).last_update matches Some(u)
                && u.source == SpecsSource::Network && u.data@ == body@ && u.received_at
                == received_at),
            match (old(listener).lcut, final(listener).lcut) {
                (Some(a), Some(b)) => a <= b,
                (Some(a), None) => false,
                _ => true,
            },
    {
        let data = match response_body {
            Some(body) => body,
            None => {
                return Err(StatsigErr::NetworkError("no result from network".to_owned()));
            },
        };
        let update = SpecsUpdate { data, source: SpecsSource::Network, received_at };
        let _ = listener.apply_update(update);
        Ok(())
    }

    pub fn get_type_name(&self) -> (r: String)
        ensures
            r@ == "StatsigHttpSpecsAdapter"@,
    {
        "StatsigHttpSpecsAdapter".to_owned()
    }
}

/// First wait after a stream failure, in milliseconds.
pub const DEFAULT_BACKOFF_INTERVAL_MS: u64 = 3000;

/// Factor the wait grows by on each further failure.
pub const DEFAULT_BACKOFF_MULTIPLIER: u64 = 2;

/// The wait never grows past this.
pub const MAX_BACKOFF_INTERVAL_MS: u64 = 60 * 1000;

/// How many consecutive failures are retried before giving up.
pub const RETRY_LIMIT: u64 = 10 * 24 * 60 * 60;

/// The gRPC stream's retry state: how long to wait before the next
/// reconnect, how many failures in a row, and whether a retry is in
/// flight. The stream loop outside the library sleeps for the returned
/// wait and reconnects; this type makes every decision.
#[derive(Debug)]
pub struct StreamingRetryState {
    backoff_interval_ms: u64,
    retry_attempts: u64,
    is_retrying: bool,
}

impl StreamingRetryState {
    pub closed spec fn spec_backoff(&self) -> u64 {
        self.backoff_interval_ms
    }

    pub closed spec fn spec_attempts(&self) -> u64 {
        self.retry_attempts
    }

    pub closed spec fn spec_is_retrying(&self) -> bool {
        self.is_retrying
    }

    /// The wait stays within the cap and the attempt counter within its
    /// limit.
    pub open spec fn wf(&self) -> bool {
        &&& DEFAULT_BACKOFF_INTERVAL_MS <= self.spec_backoff() <= MAX_BACKOFF_INTERVAL_MS
        &&& self.spec_attempts() <= RETRY_LIMIT + 1
    }

    pub fn new() -> (r: Self)
        ensures
            r.wf(),
            r.spec_backoff() == DEFAULT_BACKOFF_INTERVAL_MS,
            r.spec_attempts() == 0,
            !r.spec_is_retrying(),
    {
        StreamingRetryState {
            backoff_interval_ms: DEFAULT_BACKOFF_INTERVAL_MS,
            retry_attempts: 0,
            is_retrying: false,
        }
    }

    /// The stream broke. `Some(wait)` tells the loop to sleep `wait`
    /// milliseconds and reconnect — the wait is the current backoff, and
    /// the backoff for the next failure doubles up to the cap. Past the
    /// retry limit the answer is `None`: give up.
    pub fn on_stream_failure(&mut self) -> (r: Option<u64>)
        requires
            old(self).wf(),
        ensures
            final(self).wf(),
            old(self).spec_attempts() > RETRY_LIMIT ==> r is None && *final(self) == *old(self),
            old(self).spec_attempts() <= RETRY_LIMIT ==> (r matches Some(wait) && {
                &&& wait == old(self).spec_backoff()
                &&& final(self).spec_attempts() == old(self).spec_attempts() + 1
                &&& final(self).spec_backoff() as int == (if old(self).spec_backoff()
                    * DEFAULT_BACKOFF_MULTIPLIER < MAX_BACKOFF_INTERVAL_MS {
                    old(self).spec_backoff() * DEFAULT_BACKOFF_MULTIPLIER
                } else {
                    MAX_BACKOFF_INTERVAL_MS as int
                })
                &&& final(self).spec_is_retrying()
            }),
    {
        if self.retry_attempts > RETRY_LIMIT {
            return None;
        }
        let wait = self.backoff_interval_ms;
        let doubled = self.backoff_interval_ms * DEFAULT_BACKOFF_MULTIPLIER;
        self.backoff_interval_ms = if doubled < MAX_BACKOFF_INTERVAL_MS {
            doubled
        } else {
            MAX_BACKOFF_INTERVAL_MS
        };
        self.retry_attempts = self.retry_attempts + 1;
        self.is_retrying = true;
        Some(wait)
    }

    /// A message arrived: if a retry was in flight, the backoff state
    /// resets to its initial values.
    pub fn on_message_received(&mut self)
        requires
            old(self).wf(),
        ensures
            final(self).wf(),
            old(self).spec_is_retrying() ==> final(self).spec_backoff()
                == DEFAULT_BACKOFF_INTERVAL_MS && final(self).spec_attempts() == 0 && !final(self).spec_is_retrying(),
            !old(self).spec_is_retrying() ==> *final(self) == *old(self),
    {
        if self.is_retrying {
            self.is_retrying = false;
            self.retry_attempts = 0;
            self.backoff_interval_ms = DEFAULT_BACKOFF_INTERVAL_MS;
        }
    }
}

} // verus!
