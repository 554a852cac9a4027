//! The exposure-logging pipeline: dedup, bounded queueing, batching.
//!
//! The logger never blocks the evaluation path: a full queue drops the
//! event and counts it. Exposures are deduplicated through a TTL set that
//! a background task resets periodically; once the set is shut down it
//! freezes and never grows.

use vstd::prelude::*;
use vstd::string::StringExecFns;

use crate::errors::StatsigErr;
use crate::json::JsonValue;

verus! {

/// A key is in the list.
pub open spec fn spec_vec_has_str(keys: Seq<String>, k: Seq<char>) -> bool {
    exists|i: int| 0 <= i < keys.len() && (#[trigger] keys[i])@ == k
}

/// A set of string keys that a background task resets every TTL period.
/// After `shutdown` the resets stop: the set freezes.
#[derive(Debug)]
pub struct HashSetWithTTL {
    keys: Vec<String>,
    is_shutdown: bool,
}

impl HashSetWithTTL {
    /// Keys currently remembered.
    pub closed spec fn spec_keys(&self) -> Seq<String> {
        self.keys@
    }

    /// Whether `shutdown` has been called.
    pub closed spec fn spec_is_shutdown(&self) -> bool {
        self.is_shutdown
    }

    pub fn new() -> (r: Self)
        ensures
            r.spec_keys().len() == 0,
            !r.spec_is_shutdown(),
    {
        HashSetWithTTL { keys: Vec::new(), is_shutdown: false }
    }

    /// Remember a key. Duplicates are kept once.
    pub fn add(&mut self, key: String) -> (r: Result<(), StatsigErr>)
        ensures
            r is Ok,
            spec_vec_has_str(final(self).spec_keys(), key@),
            final(self).spec_is_shutdown() == old(self).spec_is_shutdown(),
            forall|k: Seq<char>|
                spec_vec_has_str(final(self).spec_keys(), k) == (spec_vec_has_str(
                    old(self).spec_keys(),
                    k,
                ) || k == key@),
    {
        if !self.contains_ref(&key) {
            let ghost prev = self.keys@;
            self.keys.push(key);
            proof {
                assert(self.keys@.drop_last() =~= prev);
                assert forall|k: Seq<char>|
                    spec_vec_has_str(self.keys@, k) == (spec_vec_has_str(prev, k) || k
                        == self.keys@.last()@) by {
                    if spec_vec_has_str(prev, k) {
                        let i = choose|i: int| 0 <= i < prev.len() && prev[i]@ == k;
                        assert(self.keys@[i]@ == k);
                    }
                    if spec_vec_has_str(self.keys@, k) {
                        let i = choose|i: int|
                            0 <= i < self.keys@.len() && self.keys@[i]@ == k;
                        if i < prev.len() {
                            assert(prev[i]@ == k);
                        }
                    }
                    if k == self.keys@.last()@ {
                        assert(self.keys@[self.keys@.len() - 1]@ == k);
                    }
                }
            }
        }
        Ok(())
    }

    fn contains_ref(&self, key: &String) -> (r: bool)
        ensures
            r == spec_vec_has_str(self.spec_keys(), key@),
    {
        let n = self.keys.len();
        for i in 0..n
            invariant
                n == self.keys@.len(),
                forall|i2: int| 0 <= i2 < i ==> (#[trigger] self.keys@[i2])@ != key@,
        {
            if self.keys[i].eq(key) {
                proof {
                    assert(spec_vec_has_str(self.keys@, key@)) by {
                        assert(self.keys@[i as int]@ == key@);
                    }
                }
                return true;
            }
        }
        false
    }

    /// Membership test.
    pub fn contains(&self, key: &str) -> (r: Result<bool, StatsigErr>)
        ensures
            r matches Ok(b) && b == spec_vec_has_str(self.spec_keys(), key@),
    {
        Ok(self.contains_ref(&key.to_owned()))
    }

    /// The TTL expiry: forget everything — unless the set was shut down,
    /// in which case it stays frozen.
    pub fn reset(&mut self) -> (r: Result<(), StatsigErr>)
        ensures
            r is Ok,
            old(self).spec_is_shutdown() ==> *final(self) == *old(self),
            !old(self).spec_is_shutdown() ==> final(self).spec_keys().len() == 0 && !final(self).spec_is_shutdown(),
    {
        if !self.is_shutdown {
            self.keys.clear();
        }
        Ok(())
    }

    /// Stop the resets: the set keeps its keys from here on.
    pub fn shutdown(&mut self)
        ensures
            final(self).spec_keys() == old(self).spec_keys(),
            final(self).spec_is_shutdown(),
    {
        self.is_shutdown = true;
    }
}

/// One event on its way to the ingestion endpoint.
#[derive(Debug)]
pub struct StatsigEvent {
    pub event_name: String,
    pub value: Option<JsonValue>,
    pub metadata: Vec<(String, String)>,
    pub time: u64,
}

/// What happened to an exposure handed to the logger.
#[derive(Clone, Copy, Debug, PartialEq, Eq, Structural)]
pub enum EnqueueOutcome {
    Added,
    Deduped,
    Dropped,
}

/// What the dedup step decides, given the keys currently remembered, the
/// queue length and the cap.
pub open spec fn spec_exposure_outcome(
    seen: Seq<String>,
    queue_len: nat,
    max: nat,
    key: Seq<char>,
) -> EnqueueOutcome {
    if spec_vec_has_str(seen, key) {
        EnqueueOutcome::Deduped
    } else if queue_len >= max {
        EnqueueOutcome::Dropped
    } else {
        EnqueueOutcome::Added
    }
}

/// The event queue with exposure dedup and drop-on-full backpressure.
#[derive(Debug)]
pub struct EventLogger {
    queue: Vec<StatsigEvent>,
    max_queue_size: usize,
    seen: HashSetWithTTL,
    dropped_event_count: u64,
    deduped_count: u64,
    failed_flush_count: u64,
}

impl EventLogger {
    pub closed spec fn spec_queue(&self) -> Seq<StatsigEvent> {
        self.queue@
    }

    pub closed spec fn spec_max(&self) -> nat {
        self.max_queue_size as nat
    }

    pub closed spec fn spec_seen(&self) -> Seq<String> {
        self.seen.spec_keys()
    }

    pub closed spec fn spec_dropped(&self) -> u64 {
        self.dropped_event_count
    }

    pub closed spec fn spec_deduped(&self) -> u64 {
        self.deduped_count
    }

    pub closed spec fn spec_failed_flush(&self) -> u64 {
        self.failed_flush_count
    }

    pub closed spec fn spec_dedup_frozen(&self) -> bool {
        self.seen.spec_is_shutdown()
    }

    pub fn new(max_queue_size: usize) -> (r: Self)
        ensures
            r.spec_queue().len() == 0,
            r.spec_max() == max_queue_size,
            r.spec_seen().len() == 0,
            r.spec_dropped() == 0,
            r.spec_deduped() == 0,
    {
        EventLogger {
            queue: Vec::new(),
            max_queue_size,
            seen: HashSetWithTTL::new(),
            dropped_event_count: 0,
            deduped_count: 0,
            failed_flush_count: 0,
        }
    }

    /// Enqueue a plain event. A full queue drops it and counts the drop;
    /// the logger never blocks.
    pub fn enqueue_event(&mut self, event: StatsigEvent) -> (r: bool)
        ensures
            final(self).spec_max() == old(self).spec_max(),
            final(self).spec_seen() == old(self).spec_seen(),
            r == (old(self).spec_queue().len() < old(self).spec_max()),
            r ==> final(self).spec_queue() == old(self).spec_queue().push(event) && final(self).spec_dropped() == old(self).spec_dropped(),
            !r ==> final(self).spec_queue() == old(self).spec_queue() && final(self).spec_dropped()
                == crate::spec_store::spec_saturating_inc(old(self).spec_dropped()),
    {
        if self.queue.len() < self.max_queue_size {
            self.queue.push(event);
            true
        } else {
            if self.dropped_event_count < u64::MAX {
                self.dropped_event_count = self.dropped_event_count + 1;
            }
            false
        }
    }

    /// Enqueue an exposure under its dedup key: a key already remembered
    /// within the TTL is dropped without touching the queue; a fresh key
    /// is remembered and the event queued (unless the queue is full).
    pub fn enqueue_exposure(&mut self, key: String, event: StatsigEvent) -> (r: EnqueueOutcome)
        ensures
            final(self).spec_max() == old(self).spec_max(),
            r == spec_exposure_outcome(
                old(self).spec_seen(),
                old(self).spec_queue().len(),
                old(self).spec_max(),
                key@,
            ),
            r == EnqueueOutcome::Deduped ==> final(self).spec_queue() == old(self).spec_queue()
                && final(self).spec_seen() == old(self).spec_seen() && final(self).spec_deduped()
                == crate::spec_store::spec_saturating_inc(old(self).spec_deduped()),
            r == EnqueueOutcome::Added ==> final(self).spec_queue() == old(self).spec_queue().push(
                event,
            ) && spec_vec_has_str(final(self).spec_seen(), key@),
            r == EnqueueOutcome::Dropped ==> final(self).spec_queue() == old(self).spec_queue(),
            spec_vec_has_str(final(self).spec_seen(), key@),
    {
        let already = match self.seen.contains(key.as_str()) {
            Ok(b) => b,
            Err(_) => false,
        };
        if already {
            if self.deduped_count < u64::MAX {
                self.deduped_count = self.deduped_count + 1;
            }
            EnqueueOutcome::Deduped
        } else {
            let _ = self.seen.add(key);
            if self.enqueue_event(event) {
                EnqueueOutcome::Added
            } else {
                EnqueueOutcome::Dropped
            }
        }
    }

    /// Drain the whole queue for one flush.
    pub fn take_batch(&mut self) -> (r: Vec<StatsigEvent>)
        ensures
            r@ == old(self).spec_queue(),
            final(self).spec_queue().len() == 0,
            final(self).spec_max() == old(self).spec_max(),
            final(self).spec_seen() == old(self).spec_seen(),
    {
        let mut batch: Vec<StatsigEvent> = Vec::new();
        core::mem::swap(&mut batch, &mut self.queue);
        batch
    }

    /// Whether the size-threshold flusher should fire.
    pub fn should_flush(&self) -> (r: bool)
        ensures
            r == (self.spec_queue().len() >= self.spec_max()),
    {
        self.queue.len() >= self.max_queue_size
    }

    /// Record the outcome of one flush attempt.
    pub fn on_flush_result(&mut self, success: bool)
        ensures
            final(self).spec_queue() == old(self).spec_queue(),
            final(self).spec_seen() == old(self).spec_seen(),
            final(self).spec_max() == old(self).spec_max(),
    {
        if !success {
            if self.failed_flush_count < u64::MAX {
                self.failed_flush_count = self.failed_flush_count + 1;
            }
        }
    }

    /// The TTL expiry of the dedup set.
    pub fn reset_dedup(&mut self) -> (r: Result<(), StatsigErr>)
        ensures
            r is Ok,
            final(self).spec_queue() == old(self).spec_queue(),
            final(self).spec_max() == old(self).spec_max(),
            old(self).spec_dedup_frozen() ==> final(self).spec_seen() == old(self).spec_seen(),
            !old(self).spec_dedup_frozen() ==> final(self).spec_seen().len() == 0,
    {
        self.seen.reset()
    }

    /// Freeze the dedup set: resets stop at shutdown.
    pub fn shutdown_dedup(&mut self)
        ensures
            final(self).spec_queue() == old(self).spec_queue(),
            final(self).spec_max() == old(self).spec_max(),
            final(self).spec_seen() == old(self).spec_seen(),
            final(self).spec_dedup_frozen(),
    {
        self.seen.shutdown()
    }

    /// How many events were dropped for backpressure.
    pub fn get_dropped_event_count(&self) -> (r: u64)
        ensures
            r == self.spec_dropped(),
    {
        self.dropped_event_count
    }

    /// How many exposures were deduplicated.
    pub fn get_deduped_count(&self) -> (r: u64)
        ensures
            r == self.spec_deduped(),
    {
        self.deduped_count
    }
}

/// Exposure dedup: once an exposure under some key has been accepted, a
/// burst of further exposures under the same key — however long, as long
/// as no TTL reset intervenes — is entirely deduplicated: none of them
/// reaches the queue, so at most one is ever forwarded to the flusher.
pub proof fn lemma_exposure_dedup(seen: Seq<String>, queue_len: nat, max: nat, key: Seq<char>)
    requires
        spec_vec_has_str(seen, key),
    ensures
        spec_exposure_outcome(seen, queue_len, max, key) == EnqueueOutcome::Deduped,
{
}

} // verus!
