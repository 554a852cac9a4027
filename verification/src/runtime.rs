//! The background-task supervisor model: the registry of spawned tasks,
//! their tags and ids, and the shutdown rule.
//!
//! The decisions live here and are verified; the actual executor that
//! polls the futures sits outside the library and drives this registry:
//! it asks to spawn, reports completions, and performs the joins and
//! aborts that the registry decides.

use vstd::prelude::*;

use crate::errors::StatsigErr;
use crate::hashing::string_eq_str;

verus! {

/// The registry without the entries whose id is `id`; everything else is
/// kept, in order.
pub open spec fn spec_without_id(tasks: Seq<(String, u64)>, id: u64) -> Seq<(String, u64)>
    decreases tasks.len(),
{
    if tasks.len() == 0 {
        Seq::empty()
    } else {
        let rest = spec_without_id(tasks.drop_first(), id);
        if tasks.first().1 == id {
            rest
        } else {
            seq![tasks.first()] + rest
        }
    }
}

/// The registry without the entries whose tag reads `tag`; everything
/// else is kept, in order.
pub open spec fn spec_without_tag(tasks: Seq<(String, u64)>, tag: Seq<char>) -> Seq<(String, u64)>
    decreases tasks.len(),
{
    if tasks.len() == 0 {
        Seq::empty()
    } else {
        let rest = spec_without_tag(tasks.drop_first(), tag);
        if tasks.first().0@ == tag {
            rest
        } else {
            seq![tasks.first()] + rest
        }
    }
}

/// The registry without the entries keyed exactly `(tag, id)`.
pub open spec fn spec_without_task(tasks: Seq<(String, u64)>, tag: Seq<char>, id: u64) -> Seq<
    (String, u64),
>
    decreases tasks.len(),
{
    if tasks.len() == 0 {
        Seq::empty()
    } else {
        let rest = spec_without_task(tasks.drop_first(), tag, id);
        if tasks.first().0@ == tag && tasks.first().1 == id {
            rest
        } else {
            seq![tasks.first()] + rest
        }
    }
}

/// Some entry is keyed exactly `(tag, id)`.
pub open spec fn spec_has_task(tasks: Seq<(String, u64)>, tag: Seq<char>, id: u64) -> bool {
    exists|i: int|
        0 <= i < tasks.len() && (#[trigger] tasks[i]).0@ == tag && tasks[i].1 == id
}

/// The ids of the entries whose tag reads `tag`, in registry order.
pub open spec fn spec_tag_ids(tasks: Seq<(String, u64)>, tag: Seq<char>) -> Seq<u64>
    decreases tasks.len(),
{
    if tasks.len() == 0 {
        Seq::empty()
    } else {
        let rest = spec_tag_ids(tasks.drop_last(), tag);
        if tasks.last().0@ == tag {
            rest.push(tasks.last().1)
        } else {
            rest
        }
    }
}

/// `spec_has_task` decomposes into a check of the first entry and the
/// rest.
proof fn lemma_has_task_step(tasks: Seq<(String, u64)>, tag: Seq<char>, id: u64)
    requires
        tasks.len() > 0,
    ensures
        spec_has_task(tasks, tag, id) == ((tasks.first().0@ == tag && tasks.first().1 == id)
            || spec_has_task(tasks.drop_first(), tag, id)),
{
    if spec_has_task(tasks, tag, id) {
        let i = choose|i: int|
            0 <= i < tasks.len() && (#[trigger] tasks[i]).0@ == tag && tasks[i].1 == id;
        if i > 0 {
            assert(tasks.drop_first()[i - 1] == tasks[i]);
        }
    }
    if spec_has_task(tasks.drop_first(), tag, id) {
        let i = choose|i: int|
            0 <= i < tasks.drop_first().len() && (#[trigger] tasks.drop_first()[i]).0@ == tag
                && tasks.drop_first()[i].1 == id;
        assert(tasks[i + 1] == tasks.drop_first()[i]);
    }
    if tasks.first().0@ == tag && tasks.first().1 == id {
        assert(tasks[0].0@ == tag && tasks[0].1 == id);
    }
}

/// The task registry. Ids are handed out from a counter and never
/// recycled within the registry's lifetime; after `shutdown` every
/// further spawn is a no-op.
#[derive(Debug)]
pub struct StatsigRuntime {
    spawned_tasks: Vec<(String, u64)>,
    next_task_id: u64,
    is_shutdown: bool,
}

impl StatsigRuntime {
    /// The registered `(tag, id)` pairs.
    pub closed spec fn spec_tasks(&self) -> Seq<(String, u64)> {
        self.spawned_tasks@
    }

    pub closed spec fn spec_next_id(&self) -> u64 {
        self.next_task_id
    }

    pub closed spec fn spec_is_shutdown(&self) -> bool {
        self.is_shutdown
    }

    /// Registered ids are all below the counter, so they are pairwise
    /// distinct from any id the counter will hand out later.
    pub open spec fn wf(&self) -> bool {
        forall|i: int|
            0 <= i < self.spec_tasks().len() ==> (#[trigger] self.spec_tasks()[i]).1
                < self.spec_next_id()
    }

    pub fn get_runtime() -> (r: Self)
        ensures
            r.wf(),
            r.spec_tasks().len() == 0,
            !r.spec_is_shutdown(),
    {
        StatsigRuntime { spawned_tasks: Vec::new(), next_task_id: 0, is_shutdown: false }
    }

    /// Ask to spawn a task under a tag. After shutdown this is a no-op
    /// and returns nothing; otherwise it hands out a fresh id, never
    /// seen before and never to be reused.
    pub fn spawn(&mut self, tag: &str) -> (r: Option<u64>)
        requires
            old(self).wf(),
            old(self).spec_next_id() < u64::MAX,
        ensures
            final(self).wf(),
            final(self).spec_is_shutdown() == old(self).spec_is_shutdown(),
            old(self).spec_is_shutdown() ==> r is None && final(self).spec_tasks() == old(self).spec_tasks(),
            !old(self).spec_is_shutdown() ==> (r matches Some(id) && {
                &&& id == old(self).spec_next_id()
                &&& final(self).spec_next_id() == old(self).spec_next_id() + 1
                &&& final(self).spec_tasks().len() == old(self).spec_tasks().len() + 1
                &&& final(self).spec_tasks().last().1 == id
                &&& final(self).spec_tasks().last().0@ == tag@
                &&& final(self).spec_tasks().drop_last() == old(self).spec_tasks()
                &&& forall|k: int|
                    0 <= k < old(self).spec_tasks().len() ==> (#[trigger] old(self).spec_tasks()[k]).1 != id
            }),
    {
        if self.is_shutdown {
            return None;
        }
        let id = self.next_task_id;
        self.next_task_id = self.next_task_id + 1;
        self.spawned_tasks.push((tag.to_owned(), id));
        Some(id)
    }

    /// A task finished on its own: exactly its entries leave the
    /// registry, every other entry survives unchanged, in order.
    pub fn task_completed(&mut self, id: u64)
        requires
            old(self).wf(),
        ensures
            final(self).wf(),
            final(self).spec_tasks() == spec_without_id(old(self).spec_tasks(), id),
            final(self).spec_next_id() == old(self).spec_next_id(),
            final(self).spec_is_shutdown() == old(self).spec_is_shutdown(),
    {
        let mut kept: Vec<(String, u64)> = Vec::new();
        let mut src: Vec<(String, u64)> = Vec::new();
        core::mem::swap(&mut src, &mut self.spawned_tasks);
        proof {
            assert(kept@ + spec_without_id(src@, id) =~= spec_without_id(
                old(self).spec_tasks(),
                id,
            ));
        }
        loop
            invariant
                spec_without_id(old(self).spec_tasks(), id) == kept@ + spec_without_id(src@, id),
                forall|k: int|
                    0 <= k < kept@.len() ==> (#[trigger] kept@[k]).1 < old(self).spec_next_id(),
                forall|k: int|
                    0 <= k < src@.len() ==> (#[trigger] src@[k]).1 < old(self).spec_next_id(),
                self.next_task_id == old(self).spec_next_id(),
                self.is_shutdown == old(self).spec_is_shutdown(),
            ensures
                src@.len() == 0,
                spec_without_id(old(self).spec_tasks(), id) == kept@ + spec_without_id(src@, id),
                forall|k: int|
                    0 <= k < kept@.len() ==> (#[trigger] kept@[k]).1 < old(self).spec_next_id(),
                self.next_task_id == old(self).spec_next_id(),
                self.is_shutdown == old(self).spec_is_shutdown(),
            decreases src@.len(),
        {
            if src.len() == 0 {
                break ;
            }
            let ghost prev = src@;
            let entry = src.remove(0);
            proof {
                assert(prev.drop_first() =~= src@);
                assert(entry == prev.first());
                assert(forall|k: int|
                    0 <= k < src@.len() ==> (#[trigger] src@[k]) == prev[k + 1]);
            }
            if entry.1 != id {
                let ghost kept_prev = kept@;
                kept.push(entry);
                proof {
                    assert(kept@ =~= kept_prev + seq![entry]);
                    assert(kept@ + spec_without_id(src@, id) =~= kept_prev + (seq![entry]
                        + spec_without_id(src@, id)));
                }
            }
        }
        proof {
            assert(kept@ + spec_without_id(src@, id) =~= kept@);
        }
        self.spawned_tasks = kept;
    }

    /// How many tasks are registered.
    pub fn get_num_active_tasks(&self) -> (r: usize)
        ensures
            r == self.spec_tasks().len(),
    {
        self.spawned_tasks.len()
    }

    /// The ids registered under a tag, in order, for the executor to
    /// await.
    pub fn tasks_with_tag(&self, tag: &str) -> (r: Vec<u64>)
        ensures
            r@ == spec_tag_ids(self.spec_tasks(), tag@),
    {
        let n = self.spawned_tasks.len();
        let mut out: Vec<u64> = Vec::new();
        proof {
            assert(self.spawned_tasks@.take(0) =~= Seq::<(String, u64)>::empty());
        }
        for i in 0..n
            invariant
                n == self.spawned_tasks@.len(),
                out@ == spec_tag_ids(self.spawned_tasks@.take(i as int), tag@),
        {
            proof {
                assert(self.spawned_tasks@.take(i + 1).drop_last() =~= self.spawned_tasks@.take(
                    i as int,
                ));
                assert(self.spawned_tasks@.take(i + 1).last() == self.spawned_tasks@[i as int]);
            }
            if string_eq_str(&self.spawned_tasks[i].0, tag) {
                out.push(self.spawned_tasks[i].1);
            }
        }
        proof {
            assert(self.spawned_tasks@.take(n as int) =~= self.spawned_tasks@);
        }
        out
    }

    /// Drop every entry with the tag, as `await_tasks_with_tag` does once
    /// the executor has joined them; entries under other tags survive
    /// unchanged, in order.
    pub fn remove_tasks_with_tag(&mut self, tag: &str)
        requires
            old(self).wf(),
        ensures
            final(self).wf(),
            final(self).spec_tasks() == spec_without_tag(old(self).spec_tasks(), tag@),
            final(self).spec_next_id() == old(self).spec_next_id(),
            final(self).spec_is_shutdown() == old(self).spec_is_shutdown(),
    {
        let mut kept: Vec<(String, u64)> = Vec::new();
        let mut src: Vec<(String, u64)> = Vec::new();
        core::mem::swap(&mut src, &mut self.spawned_tasks);
        proof {
            assert(kept@ + spec_without_tag(src@, tag@) =~= spec_without_tag(
                old(self).spec_tasks(),
                tag@,
            ));
        }
        loop
            invariant
                spec_without_tag(old(self).spec_tasks(), tag@) == kept@ + spec_without_tag(
                    src@,
                    tag@,
                ),
                forall|k: int|
                    0 <= k < kept@.len() ==> (#[trigger] kept@[k]).1 < old(self).spec_next_id(),
                forall|k: int|
                    0 <= k < src@.len() ==> (#[trigger] src@[k]).1 < old(self).spec_next_id(),
                self.next_task_id == old(self).spec_next_id(),
                self.is_shutdown == old(self).spec_is_shutdown(),
            ensures
                src@.len() == 0,
                spec_without_tag(old(self).spec_tasks(), tag@) == kept@ + spec_without_tag(
                    src@,
                    tag@,
                ),
                forall|k: int|
                    0 <= k < kept@.len() ==> (#[trigger] kept@[k]).1 < old(self).spec_next_id(),
                self.next_task_id == old(self).spec_next_id(),
                self.is_shutdown == old(self).spec_is_shutdown(),
            decreases src@.len(),
        {
            if src.len() == 0 {
                break ;
            }
            let ghost prev = src@;
            let entry = src.remove(0);
            proof {
                assert(prev.drop_first() =~= src@);
                assert(entry == prev.first());
                assert(forall|k: int|
                    0 <= k < src@.len() ==> (#[trigger] src@[k]) == prev[k + 1]);
            }
            if !string_eq_str(&entry.0, tag) {
                let ghost kept_prev = kept@;
                kept.push(entry);
                proof {
                    assert(kept@ =~= kept_prev + seq![entry]);
                    assert(kept@ + spec_without_tag(src@, tag@) =~= kept_prev + (seq![entry]
                        + spec_without_tag(src@, tag@)));
                }
            }
        }
        proof {
            assert(kept@ + spec_without_tag(src@, tag@) =~= kept@);
        }
        self.spawned_tasks = kept;
    }

    /// Await one specific task: `Ok` exactly when an entry was registered
    /// under `(tag, handle_id)`; that entry leaves the registry (the
    /// executor joins it), every other entry survives unchanged.
    pub fn await_join_handle(&mut self, tag: &str, handle_id: u64) -> (r: Result<(), StatsigErr>)
        requires
            old(self).wf(),
        ensures
            final(self).wf(),
            r is Ok <==> spec_has_task(old(self).spec_tasks(), tag@, handle_id),
            final(self).spec_tasks() == spec_without_task(old(self).spec_tasks(), tag@, handle_id),
            final(self).spec_next_id() == old(self).spec_next_id(),
            final(self).spec_is_shutdown() == old(self).spec_is_shutdown(),
    {
        let mut found = false;
        let mut kept: Vec<(String, u64)> = Vec::new();
        let mut src: Vec<(String, u64)> = Vec::new();
        core::mem::swap(&mut src, &mut self.spawned_tasks);
        proof {
            assert(kept@ + spec_without_task(src@, tag@, handle_id) =~= spec_without_task(
                old(self).spec_tasks(),
                tag@,
                handle_id,
            ));
        }
        loop
            invariant
                spec_without_task(old(self).spec_tasks(), tag@, handle_id) == kept@
                    + spec_without_task(src@, tag@, handle_id),
                spec_has_task(old(self).spec_tasks(), tag@, handle_id) == (found || spec_has_task(
                    src@,
                    tag@,
                    handle_id,
                )),
                forall|k: int|
                    0 <= k < kept@.len() ==> (#[trigger] kept@[k]).1 < old(self).spec_next_id(),
                forall|k: int|
                    0 <= k < src@.len() ==> (#[trigger] src@[k]).1 < old(self).spec_next_id(),
                self.next_task_id == old(self).spec_next_id(),
                self.is_shutdown == old(self).spec_is_shutdown(),
            ensures
                src@.len() == 0,
                spec_without_task(old(self).spec_tasks(), tag@, handle_id) == kept@
                    + spec_without_task(src@, tag@, handle_id),
                spec_has_task(old(self).spec_tasks(), tag@, handle_id) == found,
                forall|k: int|
                    0 <= k < kept@.len() ==> (#[trigger] kept@[k]).1 < old(self).spec_next_id(),
                self.next_task_id == old(self).spec_next_id(),
                self.is_shutdown == old(self).spec_is_shutdown(),
            decreases src@.len(),
        {
            if src.len() == 0 {
                break ;
            }
            let ghost prev = src@;
            proof {
                lemma_has_task_step(prev, tag@, handle_id);
            }
            let entry = src.remove(0);
            proof {
                assert(prev.drop_first() =~= src@);
                assert(entry == prev.first());
                assert(forall|k: int|
                    0 <= k < src@.len() ==> (#[trigger] src@[k]) == prev[k + 1]);
            }
            if string_eq_str(&entry.0, tag) && entry.1 == handle_id {
                found = true;
            } else {
                let ghost kept_prev = kept@;
                kept.push(entry);
                proof {
                    assert(kept@ =~= kept_prev + seq![entry]);
                    assert(kept@ + spec_without_task(src@, tag@, handle_id) =~= kept_prev + (
                    seq![entry] + spec_without_task(src@, tag@, handle_id)));
                }
            }
        }
        proof {
            assert(kept@ + spec_without_task(src@, tag@, handle_id) =~= kept@);
        }
        self.spawned_tasks = kept;
        if found {
            Ok(())
        } else {
            Err(StatsigErr::ThreadFailure("no running task found".to_owned()))
        }
    }

    /// Shut the supervisor down: every registered task is aborted and
    /// dropped, every later spawn is a no-op, and the id counter stays
    /// where it was, so no id is ever reused. Afterwards no task is
    /// active.
    pub fn shutdown(&mut self)
        requires
            old(self).wf(),
        ensures
            final(self).wf(),
            final(self).spec_tasks().len() == 0,
            final(self).spec_is_shutdown(),
            final(self).spec_next_id() == old(self).spec_next_id(),
    {
        self.is_shutdown = true;
        self.spawned_tasks.clear();
    }
}

} // verus!
