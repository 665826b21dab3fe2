//! Pools of schedulers: building one, starting it, and offering jobs to it.
//!
//! The token ring is shared by every scheduler of the process, whatever
//! pool it belongs to: each new scheduler appends its own slot, starting a
//! pool puts the token in the first slot of the ring, and a scheduler that
//! cannot take a job hands the token to the next slot of the ring.

use vstd::prelude::*;
use std::collections::HashMap;
use crate::bits::{all_set, bit_set, is_first_zero, lemma_free_undoes_busy, lemma_high_mask_bits, unavailable_mask};
use crate::commands::{WorkerCommands, WorkerResults, packs};
use crate::registry::{registry_partition, targets_of, lemma_add_keeps_partition};
use crate::scheduler::{
    Dispatch, ProcessOutcome, Scheduler, THREADS_PER_SCHEDULER, dispatch_commands,
    team_buffer_bytes,
};
use crate::worker::{Worker, WorkerMetaRegion, action_of, lemma_command_word_read_back};

verus! {

broadcast use {vstd::std_specs::hash::group_hash_axioms, vstd::string::group_string_axioms};

/// The most worker threads a configuration asks for by default.
pub const MAX_THREADS: usize = 12;

/// The abstract state of a pool of schedulers.
pub struct PoolView {
    /// The busy mask of each scheduler, by place in the pool.
    pub busy: Seq<u8>,
    /// The slot of each scheduler in the token ring, by place in the pool.
    pub slots: Seq<usize>,
    /// For each registered type key, its schedulers in registration order.
    pub targets: Map<u64, Seq<usize>>,
    /// The workers of each scheduler, by place in the pool.
    pub workers: Seq<Seq<Worker>>,
    /// The team-work buffer contents of each scheduler, by place in the pool.
    pub buffers: Seq<Seq<u8>>,
}

/// At most one slot of the ring holds the token.
pub open spec fn at_most_one_token(ring: Seq<bool>) -> bool {
    forall|i: int, j: int| 0 <= i < ring.len() && 0 <= j < ring.len() && ring[i] && ring[j] ==> i == j
}

/// Exactly one slot of the ring holds the token.
pub open spec fn single_token(ring: Seq<bool>) -> bool {
    &&& at_most_one_token(ring)
    &&& exists|i: int| 0 <= i < ring.len() && ring[i]
}

/// No slot of the ring holds the token.
pub open spec fn no_token(ring: Seq<bool>) -> bool {
    forall|i: int| 0 <= i < ring.len() ==> !ring[i]
}

/// The consistency every pool keeps: one slot, worker list and buffer per
/// scheduler, workers that report to their own scheduler at their own
/// place, and a registry that lists every scheduler under exactly one type.
pub open spec fn pool_valid(v: PoolView) -> bool {
    &&& v.slots.len() == v.busy.len()
    &&& v.workers.len() == v.busy.len()
    &&& v.buffers.len() == v.busy.len()
    &&& forall|i: int|
        #![trigger v.workers[i]]
        0 <= i < v.workers.len() ==> v.workers[i].len() <= THREADS_PER_SCHEDULER && forall|w: int|
            #![trigger v.workers[i][w]]
            0 <= w < v.workers[i].len() ==> v.workers[i][w].meta == (WorkerMetaRegion {
                thread_idx: w as u8,
                done: i as usize,
            })
    &&& registry_partition(v.targets, v.busy.len() as int)
}

/// Every scheduler of the pool has its slot in `ring`.
pub open spec fn fits_ring(v: PoolView, ring: Seq<bool>) -> bool {
    forall|i: int| 0 <= i < v.slots.len() ==> #[trigger] v.slots[i] < ring.len()
}

/// Scheduler `s` of the pool holds the token of `ring`.
pub open spec fn holds_token(v: PoolView, ring: Seq<bool>, s: int) -> bool {
    ring[v.slots[s] as int]
}

/// Some scheduler registered for `key` holds the token.
pub open spec fn holder_is_target(v: PoolView, ring: Seq<bool>, key: u64) -> bool {
    exists|j: int|
        0 <= j < v.targets[key].len() && #[trigger] holds_token(v, ring, v.targets[key][j] as int)
}

/// Entry `j` of the list of `key` is the first in that list whose
/// scheduler holds the token.
pub open spec fn first_holder(v: PoolView, ring: Seq<bool>, key: u64, j: int) -> bool {
    &&& 0 <= j < v.targets[key].len()
    &&& holds_token(v, ring, v.targets[key][j] as int)
    &&& forall|k: int| 0 <= k < j ==> !#[trigger] holds_token(v, ring, v.targets[key][k] as int)
}

/// `post` and `post_ring` are `pre` and `ring` after scheduler `s` acted on
/// a job of kind `c` with outcome `out`.
pub open spec fn scheduler_step(
    pre: PoolView,
    ring: Seq<bool>,
    s: int,
    c: WorkerCommands,
    out: ProcessOutcome,
    post: PoolView,
    post_ring: Seq<bool>,
) -> bool {
    let slot = pre.slots[s] as int;
    match out {
        ProcessOutcome::NotMyTurn => !ring[slot] && post == pre && post_ring == ring,
        ProcessOutcome::Dispatched { thread, packed_command } => {
            &&& ring[slot]
            &&& thread < 8
            &&& is_first_zero(pre.busy[s], thread as u8)
            &&& packs(packed_command, dispatch_commands(c))
            &&& post == (PoolView { busy: pre.busy.update(s, pre.busy[s] | (1u8 << (thread as u8))), ..pre })
            &&& post_ring == ring
        },
        ProcessOutcome::Passed { to } => {
            &&& ring[slot]
            &&& all_set(pre.busy[s])
            &&& to == (slot + 1) % (ring.len() as int)
            &&& post == pre
            &&& post_ring == ring.update(slot, false).update(to as int, true)
        },
    }
}

/// The threads that remain usable when `max_threads` are asked for and
/// `available_threads` are available: `available - |max - available|`.
pub open spec fn usable_threads(max_threads: int, available_threads: int) -> int {
    if max_threads <= available_threads {
        max_threads
    } else {
        available_threads - (max_threads - available_threads)
    }
}

/// A configuration `pre` can be started on `ring` with `available` threads:
/// it has a scheduler, every scheduler has its slot in the ring, and the
/// usable thread count is not negative.
pub open spec fn startable(pre: ConfigView, ring: Seq<bool>, available: int) -> bool {
    &&& pre.pool.busy.len() > 0
    &&& fits_ring(pre.pool, ring)
    &&& usable_threads(pre.max_threads as int, available) >= 0
}

/// `post` and `post_ring` are the pool and ring after starting `pre` on
/// `ring` with `available` threads: ring slot 0 holds the token, and the
/// last scheduler's busy mask keeps free only the slots below the usable
/// thread count modulo eight.
pub open spec fn started(
    pre: ConfigView,
    ring: Seq<bool>,
    available: int,
    post: PoolView,
    post_ring: Seq<bool>,
) -> bool {
    &&& post_ring == ring.update(0, true)
    &&& post == (PoolView {
        busy: pre.pool.busy.update(
            pre.pool.busy.len() - 1,
            !(((1u8 << ((usable_threads(pre.max_threads as int, available) % 8) as u8)) - 1u8) as u8),
        ),
        ..pre.pool
    })
}

/// The schedulers of a pool and the registry by type.
struct InnerSchedulerHandle {
    inners: Vec<Scheduler>,
    generic_targets: HashMap<u64, Vec<usize>>,
}

impl View for InnerSchedulerHandle {
    type V = PoolView;

    closed spec fn view(&self) -> PoolView {
        PoolView {
            busy: Seq::new(self.inners@.len(), |i: int| self.inners@[i].completion),
            slots: Seq::new(self.inners@.len(), |i: int| self.inners@[i].idx),
            targets: self.generic_targets@.map_values(|v: Vec<usize>| v@),
            workers: Seq::new(self.inners@.len(), |i: int| self.inners@[i].raw_workers@),
            buffers: Seq::new(
                self.inners@.len(),
                |i: int| team_buffer_bytes(self.inners@[i].team_work_buffer),
            ),
        }
    }
}

/// Putting in place `s` a scheduler that differs from the one there at most
/// in its busy mask keeps every slot, worker list and buffer of the pool.
proof fn lemma_busy_only(pre: Seq<Scheduler>, s: int, x: Scheduler)
    requires
        0 <= s < pre.len(),
        x.idx == pre[s].idx,
        x.raw_workers == pre[s].raw_workers,
        x.team_work_buffer == pre[s].team_work_buffer,
    ensures
        Seq::new(pre.len(), |i: int| pre.update(s, x)[i].idx) =~= Seq::new(
            pre.len(),
            |i: int| pre[i].idx,
        ),
        Seq::new(pre.len(), |i: int| pre.update(s, x)[i].raw_workers@) =~= Seq::new(
            pre.len(),
            |i: int| pre[i].raw_workers@,
        ),
        Seq::new(pre.len(), |i: int| team_buffer_bytes(pre.update(s, x)[i].team_work_buffer))
            =~= Seq::new(pre.len(), |i: int| team_buffer_bytes(pre[i].team_work_buffer)),
{
}

impl InnerSchedulerHandle {
    closed spec fn wf(&self) -> bool {
        pool_valid(self@)
    }

    fn new() -> (r: InnerSchedulerHandle)
        ensures
            r.wf(),
            r@ == empty_pool(),
    {
        let r = InnerSchedulerHandle { generic_targets: HashMap::new(), inners: Vec::new() };
        proof {
            assert(r@.busy =~= Seq::<u8>::empty());
            assert(r@.slots =~= Seq::<usize>::empty());
            assert(r@.workers =~= Seq::<Seq<Worker>>::empty());
            assert(r@.buffers =~= Seq::<Seq<u8>>::empty());
            assert(r@.targets =~= Map::<u64, Seq<usize>>::empty());
        }
        r
    }

    fn fits_ring(&self, process_next: &Vec<bool>) -> (r: bool)
        ensures
            r == fits_ring(self@, process_next@),
    {
        let mut i: usize = 0;
        while i < self.inners.len()
            invariant
                i <= self.inners@.len(),
                forall|k: int| 0 <= k < i ==> #[trigger] self@.slots[k] < process_next@.len(),
            decreases self.inners@.len() - i,
        {
            if self.inners[i].idx >= process_next.len() {
                assert(self@.slots[i as int] >= process_next@.len());
                return false;
            }
            i = i + 1;
        }
        true
    }
}

/// The abstract state of a configuration that is still being built.
pub struct ConfigView {
    pub max_threads: usize,
    pub threads_per_scheduler: usize,
    pub pool: PoolView,
}

/// A pool of schedulers under construction: schedulers are added one by
/// one, then `apply` puts the token in the ring and gives the handle that
/// takes jobs.
pub struct SchedulerConfig {
    max_threads: usize,
    threads_per_scheduler: usize,
    inner: InnerSchedulerHandle,
}

impl View for SchedulerConfig {
    type V = ConfigView;

    closed spec fn view(&self) -> ConfigView {
        ConfigView {
            max_threads: self.max_threads,
            threads_per_scheduler: self.threads_per_scheduler,
            pool: self.inner@,
        }
    }
}

/// The workers made for scheduler `index` when each scheduler runs `count`.
pub open spec fn fresh_workers(index: usize, count: usize) -> Seq<Worker> {
    Seq::new(
        count as nat,
        |w: int| Worker { meta: WorkerMetaRegion { thread_idx: w as u8, done: index } },
    )
}

/// `post` and `post_ring` are `pre` and `ring` after a scheduler for the
/// type `key` was added: it takes the next place of the pool and the next
/// slot of the ring (which does not hold the token), starts with no worker
/// busy, an empty buffer and fresh workers, and goes last in the list of
/// `key`.
pub open spec fn added_scheduler(
    pre: ConfigView,
    ring: Seq<bool>,
    key: u64,
    post: ConfigView,
    post_ring: Seq<bool>,
) -> bool {
    let index = pre.pool.busy.len() as usize;
    &&& post.max_threads == pre.max_threads
    &&& post.threads_per_scheduler == pre.threads_per_scheduler
    &&& post.pool.busy == pre.pool.busy.push(0)
    &&& post.pool.slots == pre.pool.slots.push(ring.len() as usize)
    &&& post.pool.workers == pre.pool.workers.push(fresh_workers(index, pre.threads_per_scheduler))
    &&& post.pool.buffers == pre.pool.buffers.push(Seq::<u8>::empty())
    &&& post.pool.targets == pre.pool.targets.insert(key, targets_of(pre.pool.targets, key).push(index))
    &&& post_ring == ring.push(false)
}

impl SchedulerConfig {
    /// A configuration is consistent.
    pub closed spec fn wf(&self) -> bool {
        self.inner.wf()
    }

    /// The configuration is consistent, as every configuration is.
    pub proof fn lemma_wf(&self)
        requires
            self.wf(),
        ensures
            pool_valid(self@.pool),
    {
    }

    /// An empty configuration.
    pub fn new(max_threads: usize, threads_per_scheduler: usize) -> (r: SchedulerConfig)
        ensures
            r.wf(),
            r@.max_threads == max_threads,
            r@.threads_per_scheduler == threads_per_scheduler,
            r@.pool == empty_pool(),
    {
        SchedulerConfig { max_threads, threads_per_scheduler, inner: InnerSchedulerHandle::new() }
    }

    pub fn max_threads(&self) -> (n: usize)
        ensures
            n == self@.max_threads,
    {
        self.max_threads
    }

    pub fn threads_per_scheduler(&self) -> (n: usize)
        ensures
            n == self@.threads_per_scheduler,
    {
        self.threads_per_scheduler
    }

    /// Whether another scheduler fits in `available_threads` threads: more
    /// threads must be available than the schedulers so far can take.
    pub fn can_add_scheduler(&self, available_threads: usize) -> (r: bool)
        ensures
            r == (self@.pool.busy.len() * THREADS_PER_SCHEDULER < available_threads),
    {
        match self.inner.inners.len().checked_mul(THREADS_PER_SCHEDULER) {
            Some(taken) => taken < available_threads,
            None => false,
        }
    }

    /// Adds a scheduler for the data type with key `type_key`, with one
    /// worker per thread of a scheduler and its own slot at the end of the
    /// token ring `process_next`, and returns its place in the pool.
    pub fn add_scheduler(
        &mut self,
        process_next: &mut Vec<bool>,
        type_key: u64,
        available_threads: usize,
    ) -> (index: usize)
        requires
            old(self).wf(),
            old(self)@.pool.busy.len() * THREADS_PER_SCHEDULER < available_threads,
            old(self)@.threads_per_scheduler <= THREADS_PER_SCHEDULER,
        ensures
            final(self).wf(),
            index == old(self)@.pool.busy.len(),
            added_scheduler(old(self)@, old(process_next)@, type_key, final(self)@, final(process_next)@),
    {
        let ghost pre = self.inner@;
        let mut scheduler = Scheduler::new_inner(process_next);
        let len = self.inner.inners.len();
        proof {
            lemma_add_keeps_partition(pre.targets, len, type_key);
        }
        let mut list: Vec<usize> = match self.inner.generic_targets.remove(&type_key) {
            Some(v) => v,
            None => Vec::new(),
        };
        list.push(len);
        self.inner.generic_targets.insert(type_key, list);
        let mut w: usize = 0;
        while w < self.threads_per_scheduler
            invariant
                w <= self.threads_per_scheduler <= THREADS_PER_SCHEDULER,
                scheduler.idx == old(process_next)@.len(),
                scheduler.completion == 0,
                team_buffer_bytes(scheduler.team_work_buffer) == Seq::<u8>::empty(),
                scheduler.raw_workers@ == fresh_workers(len, w),
            decreases self.threads_per_scheduler - w,
        {
            let child = scheduler.init_child(w, len);
            scheduler.raw_workers.push(child);
            proof {
                assert(scheduler.raw_workers@ =~= fresh_workers(len, (w + 1) as usize));
            }
            w = w + 1;
        }
        self.inner.inners.push(scheduler);
        proof {
            let post = self.inner@;
            assert(post.busy =~= pre.busy.push(0));
            assert(post.slots =~= pre.slots.push(old(process_next)@.len() as usize));
            assert(post.workers =~= pre.workers.push(fresh_workers(len, self.threads_per_scheduler)));
            assert(post.targets =~= pre.targets.insert(type_key, targets_of(pre.targets, type_key).push(len)));
            assert(post.buffers =~= pre.buffers.push(Seq::<u8>::empty()));
        }
        len
    }

    /// The number of schedulers.
    pub fn scheduler_count(&self) -> (n: usize)
        requires
            self.wf(),
        ensures
            n == self@.pool.busy.len(),
    {
        self.inner.inners.len()
    }

    /// The busy mask of scheduler `i`.
    pub fn busy_mask(&self, i: usize) -> (m: u8)
        requires
            self.wf(),
            i < self@.pool.busy.len(),
        ensures
            m == self@.pool.busy[i as int],
    {
        self.inner.inners[i].completion
    }

    /// The slot of scheduler `i` in the token ring.
    pub fn slot(&self, i: usize) -> (r: usize)
        requires
            self.wf(),
            i < self@.pool.busy.len(),
        ensures
            r == self@.pool.slots[i as int],
    {
        self.inner.inners[i].idx
    }

    /// The workers of scheduler `i`, in slot order.
    pub fn workers(&self, i: usize) -> (w: &Vec<Worker>)
        requires
            self.wf(),
            i < self@.pool.busy.len(),
        ensures
            w@ == self@.pool.workers[i as int],
    {
        &self.inner.inners[i].raw_workers
    }

    /// The schedulers registered for the type with key `type_key`, in
    /// registration order.
    pub fn targets(&self, type_key: u64) -> (r: Option<&Vec<usize>>)
        requires
            self.wf(),
        ensures
            match r {
                Some(v) => self@.pool.targets.contains_key(type_key) && v@ == self@.pool.targets[type_key],
                None => !self@.pool.targets.contains_key(type_key),
            },
    {
        self.inner.generic_targets.get(&type_key)
    }

    /// Whether every scheduler has its slot in the token ring `process_next`.
    pub fn fits_ring(&self, process_next: &Vec<bool>) -> (r: bool)
        ensures
            r == fits_ring(self@.pool, process_next@),
    {
        self.inner.fits_ring(process_next)
    }

    /// Whether `apply` can start this configuration on the token ring
    /// `process_next` with `available_threads` threads: some scheduler
    /// exists, all have their slots in the ring, and no more threads are
    /// asked for than twice those available.
    pub fn can_apply(&self, process_next: &Vec<bool>, available_threads: usize) -> (r: bool)
        ensures
            r == (self@.pool.busy.len() > 0 && fits_ring(self@.pool, process_next@) && usable_threads(
                self@.max_threads as int,
                available_threads as int,
            ) >= 0),
            r == startable(self@, process_next@, available_threads as int),
    {
        if self.inner.inners.len() == 0 || !self.inner.fits_ring(process_next) {
            return false;
        }
        if self.max_threads <= available_threads {
            true
        } else {
            self.max_threads - available_threads <= available_threads
        }
    }

    /// Starts the pool: the first slot of the token ring gets the token, and
    /// the last scheduler keeps free only as many workers as the usable
    /// threads leave over after whole groups of eight, all others marked
    /// taken.
    pub fn apply(self, process_next: &mut Vec<bool>, available_threads: usize) -> (handle:
        SchedulerHandle)
        requires
            self.wf(),
            self@.pool.busy.len() > 0,
            fits_ring(self@.pool, old(process_next)@),
            usable_threads(self@.max_threads as int, available_threads as int) >= 0,
        ensures
            handle.wf(),
            started(self@, old(process_next)@, available_threads as int, handle@, final(process_next)@),
            final(process_next)@ == old(process_next)@.update(0, true),
            no_token(old(process_next)@) ==> single_token(final(process_next)@),
            handle@ == (PoolView {
                busy: self@.pool.busy.update(
                    self@.pool.busy.len() - 1,
                    !(((1u8 << ((usable_threads(
                        self@.max_threads as int,
                        available_threads as int,
                    ) % 8) as u8)) - 1u8) as u8),
                ),
                ..self@.pool
            }),
            forall|b: u8|
                b < 8 ==> #[trigger] bit_set(handle@.busy[handle@.busy.len() - 1], b) == (b >= usable_threads(
                    self@.max_threads as int,
                    available_threads as int,
                ) % 8),
    {
        let ghost pre = self@.pool;
        let ghost old_inners = self.inner.inners@;
        let mut inner = self.inner;
        let diff = if self.max_threads <= available_threads {
            available_threads - self.max_threads
        } else {
            self.max_threads - available_threads
        };
        let actual_threads = available_threads - diff;
        let needed_schedulers_rem = actual_threads % THREADS_PER_SCHEDULER;
        proof {
            assert(pre.slots[0] < process_next@.len());
        }
        process_next.set(0, true);
        let mask_unavailable = unavailable_mask(needed_schedulers_rem);
        let last = inner.inners.len() - 1;
        inner.inners[last].completion = mask_unavailable;
        proof {
            assert(actual_threads as int == usable_threads(
                self@.max_threads as int,
                available_threads as int,
            ));
            lemma_busy_only(old_inners, last as int, inner.inners@[last as int]);
            assert(inner.inners@ == old_inners.update(last as int, inner.inners@[last as int]));
            let post = inner@;
            assert(post.busy =~= pre.busy.update(last as int, mask_unavailable));
            assert(process_next@[0]);
        }
        SchedulerHandle { inner }
    }
}

impl Default for SchedulerConfig {
    fn default() -> (r: SchedulerConfig)
        ensures
            r.wf(),
            r@.max_threads == MAX_THREADS,
            r@.threads_per_scheduler == THREADS_PER_SCHEDULER,
            r@.pool == empty_pool(),
    {
        SchedulerConfig {
            max_threads: MAX_THREADS,
            threads_per_scheduler: THREADS_PER_SCHEDULER,
            inner: InnerSchedulerHandle::new(),
        }
    }
}

/// A started pool that takes jobs.
pub struct SchedulerHandle {
    inner: InnerSchedulerHandle,
}

impl View for SchedulerHandle {
    type V = PoolView;

    closed spec fn view(&self) -> PoolView {
        self.inner@
    }
}

impl SchedulerHandle {
    /// The pool is consistent, as every started pool is.
    pub closed spec fn wf(&self) -> bool {
        self.inner.wf()
    }

    /// What a consistent pool promises of its abstract state.
    pub proof fn lemma_wf(&self)
        requires
            self.wf(),
        ensures
            pool_valid(self@),
    {
    }

    /// The number of schedulers.
    pub fn scheduler_count(&self) -> (n: usize)
        requires
            self.wf(),
        ensures
            n == self@.busy.len(),
    {
        self.inner.inners.len()
    }

    /// The busy mask of scheduler `i`.
    pub fn busy_mask(&self, i: usize) -> (m: u8)
        requires
            self.wf(),
            i < self@.busy.len(),
        ensures
            m == self@.busy[i as int],
    {
        self.inner.inners[i].completion
    }

    /// The slot of scheduler `i` in the token ring.
    pub fn slot(&self, i: usize) -> (r: usize)
        requires
            self.wf(),
            i < self@.busy.len(),
        ensures
            r == self@.slots[i as int],
    {
        self.inner.inners[i].idx
    }

    /// The workers of scheduler `i`, in slot order.
    pub fn workers(&self, i: usize) -> (w: &Vec<Worker>)
        requires
            self.wf(),
            i < self@.busy.len(),
        ensures
            w@ == self@.workers[i as int],
    {
        &self.inner.inners[i].raw_workers
    }

    /// The schedulers registered for the type with key `type_key`, in
    /// registration order.
    pub fn targets(&self, type_key: u64) -> (r: Option<&Vec<usize>>)
        requires
            self.wf(),
        ensures
            match r {
                Some(v) => self@.targets.contains_key(type_key) && v@ == self@.targets[type_key],
                None => !self@.targets.contains_key(type_key),
            },
    {
        self.inner.generic_targets.get(&type_key)
    }

    /// Whether every scheduler has its slot in the token ring `process_next`.
    pub fn fits_ring(&self, process_next: &Vec<bool>) -> (r: bool)
        ensures
            r == fits_ring(self@, process_next@),
    {
        self.inner.fits_ring(process_next)
    }

    /// Whether `any` can take a job for the type with key `type_key` on the
    /// token ring `process_next`: the type is unknown (and is refused), or
    /// one of its schedulers holds the token.
    pub fn token_holder_is_target(&self, process_next: &Vec<bool>, type_key: u64) -> (r: bool)
        requires
            self.wf(),
            fits_ring(self@, process_next@),
        ensures
            r == (self@.targets.contains_key(type_key) ==> holder_is_target(
                self@,
                process_next@,
                type_key,
            )),
    {
        let targets = match self.inner.generic_targets.get(&type_key) {
            Some(v) => v,
            None => {
                return true;
            },
        };
        let mut j: usize = 0;
        while j < targets.len()
            invariant
                self.wf(),
                fits_ring(self@, process_next@),
                self@.targets.contains_key(type_key),
                targets@ == self@.targets[type_key],
                j <= targets@.len(),
                forall|k: int|
                    0 <= k < j ==> !#[trigger] holds_token(self@, process_next@, targets@[k] as int),
            decreases targets@.len() - j,
        {
            let s = targets[j];
            proof {
                assert(self@.targets[type_key][j as int] < self@.busy.len());
                assert(self@.slots[s as int] < process_next@.len());
            }
            if process_next[self.inner.inners[s].idx] {
                assert(holds_token(self@, process_next@, targets@[j as int] as int));
                return true;
            }
            j = j + 1;
        }
        false
    }

    /// Offers a job whose result kind is `C` to the schedulers registered
    /// for the data type with key `type_key`, in registration order, until
    /// one of them takes it: the first one whose slot of the token ring
    /// `process_next` holds the token.
    ///
    /// An unknown type is refused with "wrong type".  The scheduler that
    /// takes the job either dispatches it to its lowest free worker or, with
    /// all its workers busy, drops it and passes the token to the next slot
    /// of the ring.
    pub fn any<C: WorkerResults>(&mut self, process_next: &mut Vec<bool>, type_key: u64) -> (r:
        Result<Dispatch, String>)
        requires
            old(self).wf(),
            fits_ring(old(self)@, old(process_next)@),
            old(self)@.targets.contains_key(type_key) ==> holder_is_target(
                old(self)@,
                old(process_next)@,
                type_key,
            ),
        ensures
            final(self).wf(),
            final(process_next)@.len() == old(process_next)@.len(),
            fits_ring(final(self)@, final(process_next)@),
            match r {
                Err(e) => {
                    &&& !old(self)@.targets.contains_key(type_key)
                    &&& e@ == "wrong type"@
                    &&& final(self)@ == old(self)@
                    &&& final(process_next)@ == old(process_next)@
                },
                Ok(d) => {
                    &&& old(self)@.targets.contains_key(type_key)
                    &&& exists|j: int|
                        first_holder(old(self)@, old(process_next)@, type_key, j)
                            && #[trigger] old(self)@.targets[type_key][j] == d.scheduler
                    &&& d.outcome != ProcessOutcome::NotMyTurn
                    &&& scheduler_step(
                        old(self)@,
                        old(process_next)@,
                        d.scheduler as int,
                        C::command(),
                        d.outcome,
                        final(self)@,
                        final(process_next)@,
                    )
                },
            },
            single_token(old(process_next)@) ==> single_token(final(process_next)@),
    {
        let ghost pre = self.inner@;
        let ghost pre_inners = self.inner.inners@;
        let ghost pre_ring = process_next@;
        let targets = match self.inner.generic_targets.get(&type_key) {
            Some(v) => v,
            None => {
                return Err("wrong type".to_string());
            },
        };
        let command = C::flag();
        let len = targets.len();
        let mut counter: usize = 0;
        loop
            invariant
                self.inner.wf(),
                pre == old(self)@,
                pre_ring == old(process_next)@,
                self.inner@ == pre,
                self.inner.inners@ == pre_inners,
                process_next@ == pre_ring,
                fits_ring(pre, pre_ring),
                pre.targets.contains_key(type_key),
                targets@ == pre.targets[type_key],
                len == targets@.len(),
                counter < len,
                command == C::command(),
                holder_is_target(pre, pre_ring, type_key),
                forall|j: int|
                    0 <= j < counter ==> !#[trigger] holds_token(pre, pre_ring, targets@[j] as int),
            decreases len - counter,
        {
            let s = targets[counter];
            proof {
                assert(pre.targets[type_key][counter as int] < pre.busy.len());
                assert(pre.slots[s as int] < pre_ring.len());
            }
            let outcome = self.inner.inners[s].process(process_next, command);
            match outcome {
                ProcessOutcome::NotMyTurn => {
                    proof {
                        assert(self.inner.inners@ =~= pre_inners);
                        assert(self.inner@.busy =~= pre.busy);
                        assert(self.inner@.slots =~= pre.slots);
                        assert(!holds_token(pre, pre_ring, targets@[counter as int] as int));
                        if counter + 1 == len {
                            let j = choose|j: int|
                                0 <= j < pre.targets[type_key].len() && #[trigger] holds_token(
                                    pre,
                                    pre_ring,
                                    pre.targets[type_key][j] as int,
                                );
                            assert(holds_token(pre, pre_ring, targets@[j] as int));
                        }
                    }
                    counter = counter + 1;
                },
                _ => {
                    proof {
                        lemma_busy_only(pre_inners, s as int, self.inner.inners@[s as int]);
                        assert(self.inner.inners@ == pre_inners.update(s as int, self.inner.inners@[s as int]));
                        let post = self.inner@;
                        assert(targets@[counter as int] == s);
                        assert(first_holder(pre, pre_ring, type_key, counter as int));
                        match outcome {
                            ProcessOutcome::Dispatched { thread, packed_command } => {
                                assert(post.busy =~= pre.busy.update(s as int, pre.busy[s as int] | (1u8 << (thread as u8))));
                            },
                            ProcessOutcome::Passed { to } => {
                                assert(post.busy =~= pre.busy);
                                if single_token(pre_ring) {
                                    lemma_passing_keeps_single_token(pre_ring, pre.slots[s as int] as int, to as int);
                                }
                            },
                            _ => {},
                        }
                    }
                    return Ok(Dispatch { scheduler: s, outcome });
                },
            }
        }
    }

    /// Gives `worker`'s slot back in the busy mask of its scheduler.
    pub fn release(&mut self, worker: &Worker)
        requires
            old(self).wf(),
            worker.meta.done < old(self)@.busy.len(),
            worker.meta.thread_idx < 8,
        ensures
            final(self).wf(),
            final(self)@ == (PoolView {
                busy: old(self)@.busy.update(
                    worker.meta.done as int,
                    old(self)@.busy[worker.meta.done as int] & !(1u8 << worker.meta.thread_idx),
                ),
                ..old(self)@
            }),
    {
        let ghost pre = self.inner@;
        let ghost pre_inners = self.inner.inners@;
        let i = worker.meta.done;
        let mut done = self.inner.inners[i].completion;
        worker.set_free(&mut done);
        self.inner.inners[i].completion = done;
        proof {
            lemma_busy_only(pre_inners, i as int, self.inner.inners@[i as int]);
            assert(self.inner.inners@ == pre_inners.update(i as int, self.inner.inners@[i as int]));
            let post = self.inner@;
            assert(post.busy =~= pre.busy.update(i as int, pre.busy[i as int] & !(1u8 << worker.meta.thread_idx)));
        }
    }
}

/// Moving the token from the only slot that holds it, `from`, to `to`
/// leaves exactly one slot holding it.
pub proof fn lemma_passing_keeps_single_token(ring: Seq<bool>, from: int, to: int)
    requires
        at_most_one_token(ring),
        0 <= from < ring.len(),
        0 <= to < ring.len(),
        ring[from],
    ensures
        single_token(ring.update(from, false).update(to, true)),
{
    let post = ring.update(from, false).update(to, true);
    assert(post[to]);
    assert forall|i: int, j: int| 0 <= i < post.len() && 0 <= j < post.len() && post[i] && post[j] implies i == j by {
        if i != to {
            assert(ring[i] && i != from);
        }
        if j != to {
            assert(ring[j] && j != from);
        }
    }
}

/// Releasing the worker that a dispatch chose gives back the pool as it was
/// before the dispatch.
pub proof fn lemma_release_undoes_dispatch(
    pre: PoolView,
    ring: Seq<bool>,
    s: int,
    c: WorkerCommands,
    thread: usize,
    word: u8,
    mid: PoolView,
    mid_ring: Seq<bool>,
)
    requires
        0 <= s < pre.busy.len(),
        scheduler_step(
            pre,
            ring,
            s,
            c,
            ProcessOutcome::Dispatched { thread, packed_command: word },
            mid,
            mid_ring,
        ),
    ensures
        (PoolView {
            busy: mid.busy.update(s, mid.busy[s] & !(1u8 << (thread as u8))),
            ..mid
        }) == pre,
        mid_ring == ring,
{
    lemma_free_undoes_busy(pre.busy[s], thread as u8);
    assert(mid.busy.update(s, mid.busy[s] & !(1u8 << (thread as u8))) =~= pre.busy);
}

/// The worker that gets a dispatched job executes it, treats it as team
/// work exactly when its kind is `TeamWork`, and hands its result back
/// exactly when its kind is `CallBack`.
pub proof fn lemma_dispatched_job_read_back(word: u8, c: WorkerCommands)
    requires
        packs(word, dispatch_commands(c)),
    ensures
        action_of(word).execute,
        action_of(word).is_teamwork == (c == WorkerCommands::TeamWork),
        action_of(word).has_callback == (c == WorkerCommands::CallBack),
{
    let cmds = dispatch_commands(c);
    lemma_command_word_read_back(word, cmds);
    assert(cmds[0] == WorkerCommands::Execute);
    assert(cmds[1] == c);
}

/// While exactly one slot of the ring holds the token, it stays so,
/// however many jobs are offered to the schedulers.
pub proof fn lemma_token_stays_single(
    pre: PoolView,
    ring: Seq<bool>,
    s: int,
    c: WorkerCommands,
    out: ProcessOutcome,
    post: PoolView,
    post_ring: Seq<bool>,
)
    requires
        pool_valid(pre),
        fits_ring(pre, ring),
        single_token(ring),
        0 <= s < pre.busy.len(),
        scheduler_step(pre, ring, s, c, out, post, post_ring),
    ensures
        single_token(post_ring),
{
    match out {
        ProcessOutcome::Passed { to } => {
            lemma_passing_keeps_single_token(ring, pre.slots[s] as int, to as int);
        },
        _ => {},
    }
}

/// Two schedulers added one after the other on the same ring get
/// consecutive places in their pool and consecutive slots of the ring, and
/// each has a busy mask of its own.
pub proof fn lemma_consecutive_schedulers(
    pre: ConfigView,
    ring: Seq<bool>,
    k1: u64,
    mid: ConfigView,
    mid_ring: Seq<bool>,
    k2: u64,
    post: ConfigView,
    post_ring: Seq<bool>,
)
    requires
        pool_valid(pre.pool),
        ring.len() + 1 < usize::MAX,
        added_scheduler(pre, ring, k1, mid, mid_ring),
        added_scheduler(mid, mid_ring, k2, post, post_ring),
    ensures
        post.pool.busy.len() == pre.pool.busy.len() + 2,
        post.pool.slots[pre.pool.busy.len() + 1int] == post.pool.slots[pre.pool.busy.len() as int]
            + 1,
        post.pool.slots[pre.pool.busy.len() as int] == ring.len(),
        post.pool.busy[pre.pool.busy.len() as int] == 0,
        post.pool.busy[pre.pool.busy.len() + 1int] == 0,
        post_ring.len() == ring.len() + 2,
{
    let n = pre.pool.busy.len() as int;
    assert(mid.pool.slots[n] == ring.len());
    assert(post.pool.slots[n] == mid.pool.slots[n]);
}

/// A configuration can be started exactly when it has a scheduler, every
/// scheduler has its slot in the ring, and at most twice the available
/// threads are asked for; in particular always when no more threads are
/// asked for than are available.
pub proof fn lemma_startable_exactly(pre: ConfigView, ring: Seq<bool>, available: int)
    requires
        available >= 0,
    ensures
        startable(pre, ring, available) <==> (pre.pool.busy.len() > 0 && fits_ring(pre.pool, ring)
            && pre.max_threads <= 2 * available),
        pre.pool.busy.len() > 0 && fits_ring(pre.pool, ring) && pre.max_threads <= available
            ==> startable(pre, ring, available),
{
}

/// Starting a pool with at least as many threads available as asked for
/// leaves exactly `max_threads % 8` workers of the last scheduler free (the
/// lowest ones), and changes no other scheduler.
pub proof fn lemma_start_with_enough_threads(
    pre: ConfigView,
    ring: Seq<bool>,
    available: int,
    post: PoolView,
    post_ring: Seq<bool>,
)
    requires
        pre.pool.busy.len() > 0,
        pre.max_threads <= available,
        started(pre, ring, available, post, post_ring),
    ensures
        post.busy.len() == pre.pool.busy.len(),
        forall|b: u8|
            b < 8 ==> (#[trigger] bit_set(post.busy[post.busy.len() - 1], b) <==> b >= pre.max_threads
                % 8),
        forall|i: int| 0 <= i < post.busy.len() - 1 ==> #[trigger] post.busy[i] == pre.pool.busy[i],
        post.slots == pre.pool.slots,
        post.targets == pre.pool.targets,
        post.workers == pre.pool.workers,
{
    let k = (pre.max_threads % 8) as u8;
    assert forall|b: u8| b < 8 implies (#[trigger] bit_set(post.busy[post.busy.len() - 1], b)
        <==> b >= pre.max_threads % 8) by {
        lemma_high_mask_bits(k, b);
    }
}

/// Starting a pool with fewer threads available than asked for leaves
/// exactly `(available - (max_threads - available)) % 8` workers of the last
/// scheduler free (the lowest ones), and changes no other scheduler.
pub proof fn lemma_start_with_too_few_threads(
    pre: ConfigView,
    ring: Seq<bool>,
    available: int,
    post: PoolView,
    post_ring: Seq<bool>,
)
    requires
        pre.pool.busy.len() > 0,
        available < pre.max_threads <= 2 * available,
        started(pre, ring, available, post, post_ring),
    ensures
        post.busy.len() == pre.pool.busy.len(),
        forall|b: u8|
            b < 8 ==> (#[trigger] bit_set(post.busy[post.busy.len() - 1], b) <==> b >= (available
                - (pre.max_threads - available)) % 8),
        forall|i: int| 0 <= i < post.busy.len() - 1 ==> #[trigger] post.busy[i] == pre.pool.busy[i],
        post.slots == pre.pool.slots,
        post.targets == pre.pool.targets,
        post.workers == pre.pool.workers,
{
    let k = ((available - (pre.max_threads - available)) % 8) as u8;
    assert forall|b: u8| b < 8 implies (#[trigger] bit_set(post.busy[post.busy.len() - 1], b)
        <==> b >= (available - (pre.max_threads - available)) % 8) by {
        lemma_high_mask_bits(k, b);
    }
}

/// Once at least `max_threads` threads are available, how many more there
/// are does not change how the pool starts.
pub proof fn lemma_start_ignores_extra_threads(
    pre: ConfigView,
    ring: Seq<bool>,
    a1: int,
    post1: PoolView,
    ring1: Seq<bool>,
    a2: int,
    post2: PoolView,
    ring2: Seq<bool>,
)
    requires
        pre.max_threads <= a1,
        pre.max_threads <= a2,
        started(pre, ring, a1, post1, ring1),
        started(pre, ring, a2, post2, ring2),
    ensures
        post1 == post2,
        ring1 == ring2,
{
}

/// The pool with no schedulers and no registered type.
pub open spec fn empty_pool() -> PoolView {
    PoolView {
        busy: Seq::empty(),
        slots: Seq::empty(),
        targets: Map::empty(),
        workers: Seq::empty(),
        buffers: Seq::empty(),
    }
}

} // verus!
