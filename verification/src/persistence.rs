//! The decision core of the background persistence worker.
//!
//! The worker decouples the simulation's mutation rate from the storage
//! write rate: it wakes on a fixed interval, collects the names of the
//! galaxies that are dirty, and decides which of them to persist now.
//! With write coalescing enabled, newly dirty names are merged into a
//! pending set and flushed as one batch only once the coalescing delay
//! has passed since the last flush, so many mutations inside one
//! coalescing window cost a single durable write. The I/O itself — the
//! timer, the locks, the durable writes — stays with the embedding
//! application; this type only decides.

use vstd::prelude::*;

verus! {

/// Configuration for the persistence manager.
#[derive(Debug, Clone, Copy, PartialEq, Eq, Structural)]
pub struct PersistenceConfig {
    /// How often to check for dirty galaxies and persist them (in
    /// seconds)
    pub auto_save_interval: u64,
    /// Maximum time to wait for persistence operations during shutdown
    /// (in seconds)
    pub shutdown_timeout: u64,
    /// Whether to enable auto-persistence
    pub enabled: bool,
    /// Whether to use write coalescing (delay writes to batch multiple
    /// changes)
    pub write_coalescing: bool,
    /// Write coalescing delay in milliseconds
    pub coalescing_delay_ms: u64,
}

impl Default for PersistenceConfig {
    /// Auto-save every 30 seconds, wait up to 10 seconds during
    /// shutdown, coalesce writes over a 1 second delay.
    fn default() -> (r: PersistenceConfig)
        ensures
            r == (PersistenceConfig {
                auto_save_interval: 30,
                shutdown_timeout: 10,
                enabled: true,
                write_coalescing: true,
                coalescing_delay_ms: 1000,
            }),
    {
        PersistenceConfig {
            auto_save_interval: 30,
            shutdown_timeout: 10,
            enabled: true,
            write_coalescing: true,
            coalescing_delay_ms: 1000,
        }
    }
}

/// The mathematical state of a persistence worker: its configuration,
/// the names awaiting a coalesced flush, the time of the last flush,
/// and whether shutdown was requested.
pub struct WorkerState {
    pub config: PersistenceConfig,
    pub pending: Seq<Seq<char>>,
    pub last_flush_ms: u64,
    pub shutdown: bool,
}

/// Add a name to a set of names: kept once, in arrival order.
pub open spec fn spec_add_name(names: Seq<Seq<char>>, name: Seq<char>) -> Seq<Seq<char>> {
    if names.contains(name) {
        names
    } else {
        names.push(name)
    }
}

/// Merge the first `n` newly dirty names into a set of names.
pub open spec fn spec_merge_names(names: Seq<Seq<char>>, dirty: Seq<Seq<char>>, n: int) -> Seq<
    Seq<char>,
>
    recommends
        0 <= n <= dirty.len(),
    decreases n,
{
    if n <= 0 {
        names
    } else {
        spec_add_name(spec_merge_names(names, dirty, n - 1), dirty[n - 1])
    }
}

/// What one wake of the worker does, given the time now and the names
/// of the currently dirty galaxies: the new state, and the batch of
/// names to persist now.
pub open spec fn spec_on_wake(st: WorkerState, now_ms: u64, dirty: Seq<Seq<char>>) -> (
    WorkerState,
    Seq<Seq<char>>,
) {
    if !st.config.write_coalescing {
        (st, dirty)
    } else {
        let merged = spec_merge_names(st.pending, dirty, dirty.len() as int);
        if now_ms - st.last_flush_ms >= st.config.coalescing_delay_ms {
            (
                WorkerState {
                    pending: Seq::empty(),
                    last_flush_ms: now_ms,
                    ..st
                },
                merged,
            )
        } else {
            (WorkerState { pending: merged, ..st }, Seq::empty())
        }
    }
}

/// Run a sequence of wakes, collecting the emitted batches in order.
pub open spec fn spec_run(st: WorkerState, wakes: Seq<(u64, Seq<Seq<char>>)>) -> (
    WorkerState,
    Seq<Seq<Seq<char>>>,
)
    decreases wakes.len(),
{
    if wakes.len() == 0 {
        (st, Seq::empty())
    } else {
        let step = spec_on_wake(st, wakes[0].0, wakes[0].1);
        let rest = spec_run(step.0, wakes.drop_first());
        (rest.0, seq![step.1] + rest.1)
    }
}

/// How often a name occurs in a batch.
pub open spec fn spec_count_name(batch: Seq<Seq<char>>, name: Seq<char>) -> nat
    decreases batch.len(),
{
    if batch.len() == 0 {
        0
    } else {
        (if batch[0] == name {
            1nat
        } else {
            0nat
        }) + spec_count_name(batch.drop_first(), name)
    }
}

/// How often a name occurs across a sequence of batches.
pub open spec fn spec_count_writes(batches: Seq<Seq<Seq<char>>>, name: Seq<char>) -> nat
    decreases batches.len(),
{
    if batches.len() == 0 {
        0
    } else {
        spec_count_name(batches[0], name) + spec_count_writes(batches.drop_first(), name)
    }
}

/// A name occurs in a duplicate-free batch exactly once when the batch
/// contains it, and never otherwise.
pub proof fn lemma_count_unique(batch: Seq<Seq<char>>, name: Seq<char>)
    requires
        forall|i: int, j: int|
            0 <= i < j < batch.len() ==> (#[trigger] batch[i]) != (#[trigger] batch[j]),
    ensures
        spec_count_name(batch, name) == if batch.contains(name) {
            1nat
        } else {
            0nat
        },
    decreases batch.len(),
{
    if batch.len() > 0 {
        let rest = batch.drop_first();
        assert forall|i: int, j: int| 0 <= i < j < rest.len() implies (#[trigger] rest[i]) != (
        #[trigger] rest[j]) by {
            assert(rest[i] == batch[i + 1] && rest[j] == batch[j + 1]);
        }
        lemma_count_unique(rest, name);
        if batch[0] == name {
            assert(batch.contains(name));
            assert(!rest.contains(name)) by {
                if rest.contains(name) {
                    let k = choose|k: int| 0 <= k < rest.len() && rest[k] == name;
                    assert(batch[k + 1] == name);
                }
            }
        } else {
            assert(rest.contains(name) ==> batch.contains(name)) by {
                if rest.contains(name) {
                    let k = choose|k: int| 0 <= k < rest.len() && rest[k] == name;
                    assert(batch[k + 1] == name);
                }
            }
            assert(batch.contains(name) ==> rest.contains(name)) by {
                if batch.contains(name) {
                    let k = choose|k: int| 0 <= k < batch.len() && batch[k] == name;
                    assert(k > 0);
                    assert(rest[k - 1] == name);
                }
            }
        }
    }
}

/// Merging dirty names never loses one: a name among the first `n`
/// dirty names, or already pending, is in the merge.
pub proof fn lemma_merge_keeps_name(
    names: Seq<Seq<char>>,
    dirty: Seq<Seq<char>>,
    n: int,
    name: Seq<char>,
)
    requires
        0 <= n <= dirty.len(),
        names.contains(name) || exists|i: int| 0 <= i < n && dirty[i] == name,
    ensures
        spec_merge_names(names, dirty, n).contains(name),
    decreases n,
{
    let cur = spec_merge_names(names, dirty, n);
    if n == 0 {
        assert(names.contains(name));
    } else {
        let prev = spec_merge_names(names, dirty, n - 1);
        if names.contains(name) || exists|i: int| 0 <= i < n - 1 && dirty[i] == name {
            lemma_merge_keeps_name(names, dirty, n - 1, name);
            if !prev.contains(dirty[n - 1]) {
                let k = choose|k: int| 0 <= k < prev.len() && prev[k] == name;
                assert(cur[k] == name);
                assert(cur.contains(name));
            }
        } else {
            assert(dirty[n - 1] == name);
            if prev.contains(name) {
                let k = choose|k: int| 0 <= k < prev.len() && prev[k] == name;
                assert(cur[k] == name);
                assert(cur.contains(name));
            } else {
                assert(cur == prev.push(name));
                assert(cur[cur.len() - 1] == name);
                assert(cur.contains(name));
            }
        }
    }
}

/// A run emits one batch per wake.
pub proof fn lemma_run_len(st: WorkerState, wakes: Seq<(u64, Seq<Seq<char>>)>)
    ensures
        spec_run(st, wakes).1.len() == wakes.len(),
    decreases wakes.len(),
{
    if wakes.len() > 0 {
        lemma_run_len(spec_on_wake(st, wakes[0].0, wakes[0].1).0, wakes.drop_first());
    }
}

/// Coalescing batches writes: while the coalescing delay `D` has not
/// passed since the last flush, no wake emits a write, however many
/// times a galaxy is marked dirty; the first wake at or past the delay
/// drains the whole pending set as one batch, in which each name
/// occurs once. So N mutations to the same galaxy inside one window
/// cost exactly one durable write.
pub proof fn lemma_coalescing_batch(
    st: WorkerState,
    wakes: Seq<(u64, Seq<Seq<char>>)>,
    name: Seq<char>,
)
    requires
        st.config.write_coalescing,
        st.wf(),
        wakes.len() > 0,
        // every wake but the last falls inside the coalescing window
        forall|i: int|
            0 <= i < wakes.len() - 1 ==> (#[trigger] wakes[i].0) - st.last_flush_ms
                < st.config.coalescing_delay_ms,
        // the last wake is the first at or past the delay
        wakes[wakes.len() - 1].0 - st.last_flush_ms >= st.config.coalescing_delay_ms,
        // the galaxy is reported dirty on every wake (its flag stays
        // set until it is saved)
        forall|i: int| 0 <= i < wakes.len() ==> (#[trigger] wakes[i].1).contains(name),
    ensures
        // exactly one durable write of that galaxy over the whole run
        spec_count_writes(spec_run(st, wakes).1, name) == 1,
        // and none before the last wake
        forall|i: int|
            0 <= i < wakes.len() - 1 ==> (#[trigger] spec_run(st, wakes).1[i]) == Seq::<
                Seq<char>,
            >::empty(),
    decreases wakes.len(),
{
    let step = spec_on_wake(st, wakes[0].0, wakes[0].1);
    let dirty0 = wakes[0].1;
    let merged = spec_merge_names(st.pending, dirty0, dirty0.len() as int);
    lemma_merge_names_wf(st.pending, dirty0, dirty0.len() as int);
    assert(dirty0.contains(name));
    lemma_merge_keeps_name(st.pending, dirty0, dirty0.len() as int, name);
    assert(merged.contains(name));
    lemma_run_len(st, wakes);
    if wakes.len() == 1 {
        // this wake flushes: one batch, the name once
        assert(step.1 == merged);
        lemma_count_unique(merged, name);
        let tail = wakes.drop_first();
        assert(tail.len() == 0);
        assert(spec_run(step.0, tail).1 == Seq::<Seq<Seq<char>>>::empty());
        let run = spec_run(st, wakes);
        assert(run.1 == seq![step.1] + spec_run(step.0, tail).1);
        assert(run.1 =~= seq![merged]);
        assert(run.1[0] == merged);
        assert(run.1.drop_first() =~= Seq::<Seq<Seq<char>>>::empty());
        assert(spec_count_name(merged, name) == 1);
        assert(spec_count_writes(run.1.drop_first(), name) == 0);
        assert(spec_count_writes(run.1, name) == spec_count_name(run.1[0], name)
            + spec_count_writes(run.1.drop_first(), name));
        assert(spec_count_writes(run.1, name) == 1);
    } else {
        // this wake is inside the window: nothing is emitted, the name
        // joins the pending set
        assert(wakes[0].0 - st.last_flush_ms < st.config.coalescing_delay_ms);
        assert(step.1 == Seq::<Seq<char>>::empty());
        assert(step.0.pending == merged);
        assert(step.0.last_flush_ms == st.last_flush_ms);
        assert(step.0.config == st.config);
        assert(step.0.wf());
        let rest = wakes.drop_first();
        assert forall|i: int|
            0 <= i < rest.len() - 1 implies (#[trigger] rest[i].0) - step.0.last_flush_ms
            < step.0.config.coalescing_delay_ms by {
            assert(rest[i] == wakes[i + 1]);
        }
        assert(rest[rest.len() - 1] == wakes[wakes.len() - 1]);
        assert forall|i: int| 0 <= i < rest.len() implies (#[trigger] rest[i].1).contains(name) by {
            assert(rest[i] == wakes[i + 1]);
        }
        lemma_coalescing_batch(step.0, rest, name);
        let run = spec_run(st, wakes);
        let run_rest = spec_run(step.0, rest);
        assert(run.1 == seq![step.1] + run_rest.1);
        assert(spec_count_name(step.1, name) == 0);
        assert(run.1.drop_first() =~= run_rest.1);
        assert(spec_count_writes(run.1, name) == spec_count_name(step.1, name)
            + spec_count_writes(run_rest.1, name));
        assert forall|i: int|
            0 <= i < wakes.len() - 1 implies (#[trigger] run.1[i]) == Seq::<Seq<char>>::empty() by {
            if i > 0 {
                assert(run.1[i] == run_rest.1[i - 1]);
            }
        }
    }
}

/// The worker's decision state.
///
/// The embedding application drives it: on every tick of its save
/// interval it calls [`PersistenceWorker::on_wake`] with the dirty
/// names, performs the durable writes for the returned batch, and
/// clears the dirty flag of each galaxy it saved.
#[derive(Debug)]
pub struct PersistenceWorker {
    config: PersistenceConfig,
    /// Names awaiting a coalesced flush
    coalescing_tracker: Vec<String>,
    /// When the pending set was last drained
    last_coalescing_check_ms: u64,
    /// Whether shutdown was requested
    shutdown: bool,
}

impl View for PersistenceWorker {
    type V = WorkerState;

    closed spec fn view(&self) -> WorkerState {
        WorkerState {
            config: self.config,
            pending: self.coalescing_tracker@.map_values((|s: String| s@)),
            last_flush_ms: self.last_coalescing_check_ms,
            shutdown: self.shutdown,
        }
    }
}

impl WorkerState {
    /// No name awaits twice.
    pub open spec fn wf(self) -> bool {
        forall|i: int, j: int|
            0 <= i < j < self.pending.len() ==> (#[trigger] self.pending[i]) != (
            #[trigger] self.pending[j])
    }
}

/// Merging keeps every name at most once.
pub proof fn lemma_merge_names_wf(names: Seq<Seq<char>>, dirty: Seq<Seq<char>>, n: int)
    requires
        0 <= n <= dirty.len(),
        forall|i: int, j: int|
            0 <= i < j < names.len() ==> (#[trigger] names[i]) != (#[trigger] names[j]),
    ensures
        forall|i: int, j: int|
            0 <= i < j < spec_merge_names(names, dirty, n).len() ==> (
            #[trigger] spec_merge_names(names, dirty, n)[i]) != (#[trigger] spec_merge_names(
                names,
                dirty,
                n,
            )[j]),
    decreases n,
{
    if n > 0 {
        lemma_merge_names_wf(names, dirty, n - 1);
        let prev = spec_merge_names(names, dirty, n - 1);
        let cur = spec_merge_names(names, dirty, n);
        if !prev.contains(dirty[n - 1]) {
            assert forall|i: int, j: int| 0 <= i < j < cur.len() implies (#[trigger] cur[i]) != (
            #[trigger] cur[j]) by {
                if j == cur.len() - 1 {
                    assert(cur[i] == prev[i]);
                    if prev[i] == dirty[n - 1] {
                        assert(prev.contains(dirty[n - 1]));
                    }
                } else {
                    assert(cur[i] == prev[i] && cur[j] == prev[j]);
                }
            }
        }
    }
}

impl PersistenceWorker {
    /// A fresh worker: nothing pending, the coalescing window starting
    /// at `now_ms`.
    pub fn new(config: PersistenceConfig, now_ms: u64) -> (r: PersistenceWorker)
        ensures
            r@.config == config,
            r@.pending == Seq::<Seq<char>>::empty(),
            r@.last_flush_ms == now_ms,
            !r@.shutdown,
            r@.wf(),
    {
        let tracker: Vec<String> = Vec::new();
        proof {
            assert(tracker@.map_values((|s: String| s@)) =~= Seq::<Seq<char>>::empty());
        }
        PersistenceWorker {
            config,
            coalescing_tracker: tracker,
            last_coalescing_check_ms: now_ms,
            shutdown: false,
        }
    }

    /// The worker's configuration.
    pub fn config(&self) -> (r: PersistenceConfig)
        ensures
            r == self@.config,
    {
        self.config
    }

    /// Request a cooperative shutdown.
    pub fn signal_shutdown(&mut self)
        ensures
            final(self)@ == (WorkerState { shutdown: true, ..old(self)@ }),
    {
        self.shutdown = true;
    }

    /// Whether shutdown was requested.
    pub fn shutdown_requested(&self) -> (r: bool)
        ensures
            r == self@.shutdown,
    {
        self.shutdown
    }

    /// Decide what one wake persists.
    ///
    /// Without coalescing, the dirty names are persisted at once. With
    /// it, they join the pending set; only when the coalescing delay
    /// has passed since the last flush is the whole pending set drained
    /// and returned as one batch.
    pub fn on_wake(&mut self, now_ms: u64, dirty: Vec<String>) -> (batch: Vec<String>)
        requires
            now_ms >= old(self)@.last_flush_ms,
            old(self)@.wf(),
        ensures
            final(self)@ == spec_on_wake(old(self)@, now_ms, dirty@.map_values((|s: String| s@))).0,
            batch@.map_values((|s: String| s@)) == spec_on_wake(
                old(self)@,
                now_ms,
                dirty@.map_values((|s: String| s@)),
            ).1,
            final(self)@.wf(),
    {
        let ghost dirty_views = dirty@.map_values((|s: String| s@));
        if !self.config.write_coalescing {
            // Persist immediately without coalescing
            return dirty;
        }
        // Add newly dirty galaxies to the coalescing tracker
        let mut i: usize = 0;
        while i < dirty.len()
            invariant
                i <= dirty.len(),
                self@.config == old(self)@.config,
                self@.last_flush_ms == old(self)@.last_flush_ms,
                self@.shutdown == old(self)@.shutdown,
                self@.wf(),
                dirty_views == dirty@.map_values((|s: String| s@)),
                self@.pending == spec_merge_names(old(self)@.pending, dirty_views, i as int),
            decreases dirty.len() - i,
        {
            let name = &dirty[i];
            let mut k: usize = 0;
            let mut seen: bool = false;
            while k < self.coalescing_tracker.len()
                invariant
                    k <= self.coalescing_tracker.len(),
                    seen == exists|j: int|
                        0 <= j < k && (#[trigger] self.coalescing_tracker@[j])@ == name@,
                decreases self.coalescing_tracker.len() - k,
            {
                if self.coalescing_tracker[k].eq(name) {
                    seen = true;
                }
                k = k + 1;
            }
            let ghost pend = self@.pending;
            proof {
                assert(seen == pend.contains(name@)) by {
                    if seen {
                        let j = choose|j: int|
                            0 <= j < self.coalescing_tracker@.len() && (
                            #[trigger] self.coalescing_tracker@[j])@ == name@;
                        assert(pend[j] == name@);
                    }
                    if pend.contains(name@) {
                        let j = choose|j: int| 0 <= j < pend.len() && pend[j] == name@;
                        assert(self.coalescing_tracker@[j]@ == name@);
                    }
                }
            }
            if !seen {
                let owned = name.clone();
                self.coalescing_tracker.push(owned);
                proof {
                    assert(self@.pending =~= pend.push(name@));
                    assert forall|a: int, b: int|
                        0 <= a < b < self@.pending.len() implies (#[trigger] self@.pending[a]) != (
                    #[trigger] self@.pending[b]) by {
                        if b == self@.pending.len() - 1 {
                            assert(self@.pending[a] == pend[a]);
                            if pend[a] == name@ {
                                assert(pend.contains(name@));
                            }
                        } else {
                            assert(self@.pending[a] == pend[a] && self@.pending[b] == pend[b]);
                        }
                    }
                }
            }
            proof {
                assert(dirty_views[i as int] == name@);
                assert(self@.pending == spec_merge_names(old(self)@.pending, dirty_views, i + 1));
            }
            i = i + 1;
        }
        // Drain the whole pending set once the delay has passed
        if now_ms - self.last_coalescing_check_ms >= self.config.coalescing_delay_ms {
            let mut batch: Vec<String> = Vec::new();
            core::mem::swap(&mut batch, &mut self.coalescing_tracker);
            self.last_coalescing_check_ms = now_ms;
            proof {
                assert(self@.pending =~= Seq::<Seq<char>>::empty());
            }
            batch
        } else {
            let batch: Vec<String> = Vec::new();
            proof {
                assert(batch@.map_values((|s: String| s@)) =~= Seq::<Seq<char>>::empty());
            }
            batch
        }
    }
}

} // verus!
