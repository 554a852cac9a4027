//! The opaque-handle registry for callers across a binding boundary:
//! values go in, string handles come out, and a handle is never recycled
//! within the store's lifetime.

use vstd::prelude::*;
use vstd::string::StringExecFns;

use crate::hashing::{dec_str_u64, spec_dec_str};
use crate::json::spec_assoc_get;

verus! {

/// How many instances one store accepts.
pub const INSTANCE_STORE_CAPACITY: usize = 400;

/// The registry without the entries under `handle`; every other entry is
/// kept, in order.
pub open spec fn spec_without_handle<T>(entries: Seq<(String, T)>, handle: Seq<char>) -> Seq<
    (String, T),
>
    decreases entries.len(),
{
    if entries.len() == 0 {
        Seq::empty()
    } else {
        let rest = spec_without_handle(entries.drop_first(), handle);
        if entries.first().0@ == handle {
            rest
        } else {
            seq![entries.first()] + rest
        }
    }
}

/// A registry of values behind string handles `{prefix}_{counter}`. The
/// counter only grows, so a released handle is never handed out again.
#[derive(Debug)]
pub struct InstanceStore<T> {
    prefix: String,
    entries: Vec<(String, T)>,
    next_id: u64,
}

impl<T> InstanceStore<T> {
    pub closed spec fn spec_entries(&self) -> Seq<(String, T)> {
        self.entries@
    }

    pub closed spec fn spec_prefix(&self) -> Seq<char> {
        self.prefix@
    }

    pub closed spec fn spec_next_id(&self) -> u64 {
        self.next_id
    }

    pub fn new(prefix: String) -> (r: Self)
        ensures
            r.spec_entries().len() == 0,
            r.spec_prefix() == prefix@,
            r.spec_next_id() == 0,
    {
        InstanceStore { prefix, entries: Vec::new(), next_id: 0 }
    }

    /// Register a value. `None` when the per-type capacity is exceeded
    /// (the null-equivalent a binding layer hands out); otherwise the
    /// fresh handle, built from a counter value no earlier handle used.
    pub fn add(&mut self, item: T) -> (r: Option<String>)
        requires
            old(self).spec_next_id() < u64::MAX,
        ensures
            final(self).spec_prefix() == old(self).spec_prefix(),
            old(self).spec_entries().len() >= INSTANCE_STORE_CAPACITY ==> r is None && final(self).spec_entries() == old(self).spec_entries(),
            old(self).spec_entries().len() < INSTANCE_STORE_CAPACITY ==> (r matches Some(h) && {
                &&& h@ == old(self).spec_prefix() + "_"@ + spec_dec_str(
                    old(self).spec_next_id() as nat,
                )
                &&& final(self).spec_entries().len() == old(self).spec_entries().len() + 1
                &&& final(self).spec_entries().last().0@ == h@
                &&& final(self).spec_entries().drop_last() == old(self).spec_entries()
                &&& final(self).spec_next_id() == old(self).spec_next_id() + 1
            }),
    {
        if self.entries.len() >= INSTANCE_STORE_CAPACITY {
            return None;
        }
        let id = self.next_id;
        self.next_id = self.next_id + 1;
        let mut handle = self.prefix.clone();
        handle.append("_");
        let ids = dec_str_u64(id);
        handle.append(ids.as_str());
        self.entries.push((handle.clone(), item));
        Some(handle)
    }

    /// Look a handle up.
    pub fn get<'a>(&'a self, handle: &String) -> (r: Option<&'a T>)
        ensures
            match r {
                Some(v) => spec_assoc_get(self.spec_entries(), handle@) == Some(*v),
                None => spec_assoc_get(self.spec_entries(), handle@) is None,
            },
    {
        let n = self.entries.len();
        proof {
            assert(self.entries@.skip(0) =~= self.entries@);
        }
        for j in 0..n
            invariant
                n == self.entries@.len(),
                spec_assoc_get(self.entries@, handle@) == spec_assoc_get(
                    self.entries@.skip(j as int),
                    handle@,
                ),
        {
            if self.entries[j].0.eq(handle) {
                proof {
                    assert(self.entries@.skip(j as int).first() == self.entries@[j as int]);
                }
                return Some(&self.entries[j].1);
            }
            proof {
                assert(self.entries@.skip(j as int).drop_first() =~= self.entries@.skip(j + 1));
            }
        }
        proof {
            assert(self.entries@.skip(n as int) =~= Seq::<(String, T)>::empty());
        }
        None
    }

    /// Release a handle: exactly its entries leave the registry, every
    /// other entry survives unchanged, in order, and the id behind the
    /// released handle is never handed out again.
    pub fn remove(&mut self, handle: &String)
        ensures
            final(self).spec_prefix() == old(self).spec_prefix(),
            final(self).spec_next_id() == old(self).spec_next_id(),
            final(self).spec_entries() == spec_without_handle(old(self).spec_entries(), handle@),
    {
        let mut kept: Vec<(String, T)> = Vec::new();
        let mut src: Vec<(String, T)> = Vec::new();
        core::mem::swap(&mut src, &mut self.entries);
        proof {
            assert(kept@ + spec_without_handle(src@, handle@) =~= spec_without_handle(
                old(self).spec_entries(),
                handle@,
            ));
        }
        loop
            invariant
                spec_without_handle(old(self).spec_entries(), handle@) == kept@
                    + spec_without_handle(src@, handle@),
                self.prefix@ == old(self).spec_prefix(),
                self.next_id == old(self).spec_next_id(),
            ensures
                src@.len() == 0,
                spec_without_handle(old(self).spec_entries(), handle@) == kept@
                    + spec_without_handle(src@, handle@),
                self.prefix@ == old(self).spec_prefix(),
                self.next_id == old(self).spec_next_id(),
            decreases src@.len(),
        {
            if src.len() == 0 {
                break ;
            }
            let ghost prev = src@;
            let entry = src.remove(0);
            proof {
                assert(prev.drop_first() =~= src@);
                assert(entry == prev.first());
            }
            if !entry.0.eq(handle) {
                let ghost kept_prev = kept@;
                kept.push(entry);
                proof {
                    assert(kept@ =~= kept_prev + seq![entry]);
                    assert(kept@ + spec_without_handle(src@, handle@) =~= kept_prev + (seq![entry]
                        + spec_without_handle(src@, handle@)));
                }
            }
        }
        proof {
            assert(kept@ + spec_without_handle(src@, handle@) =~= kept@);
        }
        self.entries = kept;
    }

    /// How many values are registered.
    pub fn len(&self) -> (r: usize)
        ensures
            r == self.spec_entries().len(),
    {
        self.entries.len()
    }
}

/// A handle to registered options that a binding layer releases when its
/// wrapper object is collected.
#[derive(Debug)]
pub struct AutoReleasingStatsigOptionsRef {
    pub ref_id: String,
}

} // verus!
