//! The collector: the state that the background sampler and its callers share.
//!
//! The collector is a state machine. Starting and stopping toggle it, a
//! completed reading of the process table replaces its snapshot, and a caller
//! fetches a copy of the snapshot at any time. The sampler itself is driven
//! from outside: it reports what happened and is told what to do next.

use vstd::prelude::*;
use crate::process::{ProcessInfo, ProcessInfoArray, ProcessRecord, RawProcess};
use crate::snapshot::{build_snapshot, is_snapshot_of, records_of, sorted_by_usage, table_of};

verus! {

/// Seconds that the sampler sleeps between two readings.
pub const SAMPLING_INTERVAL_SECS: u64 = 1;

/// What a collector holds: whether the sampler runs, and the latest snapshot.
pub ghost struct CollectorState {
    pub running: bool,
    pub latest: Seq<ProcessRecord>,
}

impl CollectorState {
    /// The state before the first start and after every stop.
    pub open spec fn idle() -> CollectorState {
        CollectorState { running: false, latest: Seq::empty() }
    }

    /// A stopped collector holds no snapshot, and a snapshot is sorted.
    pub open spec fn consistent(self) -> bool {
        &&& !self.running ==> self.latest.len() == 0
        &&& sorted_by_usage(self.latest)
    }

    /// A start: the state after it, and whether it started the sampler.
    pub open spec fn start(self) -> (CollectorState, bool) {
        if self.running {
            (self, false)
        } else {
            (CollectorState { running: true, latest: Seq::empty() }, true)
        }
    }

    /// A stop: the state after it, and whether it stopped the sampler.
    pub open spec fn stop(self) -> (CollectorState, bool) {
        if self.running {
            (CollectorState::idle(), true)
        } else {
            (self, false)
        }
    }

    /// A running collector takes the new snapshot; a stopped one ignores it.
    pub open spec fn publish(self, snapshot: Seq<ProcessRecord>) -> CollectorState {
        if self.running {
            CollectorState { running: true, latest: snapshot }
        } else {
            self
        }
    }
}

/// The state shared by the sampler and its callers.
pub struct ProcessCollector {
    running: bool,
    info: Vec<ProcessInfo>,
}

/// What the sampler reports to the collector.
#[derive(Debug)]
pub enum TaskEvent {
    /// The sampler has started, or a sleep has ended.
    Woke,
    /// A reading of the process table has ended: the table, or nothing where
    /// the reading failed, and the number of cores.
    Sampled(Option<Vec<RawProcess>>, usize),
}

/// What the collector tells the sampler to do next.
#[derive(Clone, Copy, Debug, PartialEq, Eq)]
pub enum TaskAction {
    /// Read the process table.
    Sample,
    /// Sleep for so many seconds.
    Sleep(u64),
    /// End the sampler.
    Exit,
}

impl View for ProcessCollector {
    type V = CollectorState;

    closed spec fn view(&self) -> CollectorState {
        CollectorState { running: self.running, latest: records_of(self.info@) }
    }
}

impl ProcessCollector {
    #[verifier::type_invariant]
    spec fn well_formed(self) -> bool {
        self@.consistent()
    }

    /// A collector whose sampler has not been started.
    pub fn new() -> (collector: ProcessCollector)
        ensures
            collector@ == CollectorState::idle(),
    {
        let collector = ProcessCollector { running: false, info: Vec::new() };
        assert(records_of(collector.info@) =~= Seq::empty());
        collector
    }

    /// Whether the sampler runs.
    pub fn is_running(&self) -> (running: bool)
        ensures
            running == self@.running,
    {
        self.running
    }

    /// A copy of the latest snapshot. It is empty until a reading has
    /// succeeded, and whenever the sampler does not run.
    pub fn fetch(&self) -> (snapshot: Vec<ProcessInfo>)
        ensures
            records_of(snapshot@) == self@.latest,
            self@.consistent(),
    {
        proof {
            use_type_invariant(self);
        }
        let mut snapshot: Vec<ProcessInfo> = Vec::new();
        let mut i: usize = 0;
        while i < self.info.len()
            invariant
                i <= self.info@.len(),
                records_of(snapshot@) == records_of(self.info@).subrange(0, i as int),
            decreases self.info@.len() - i,
        {
            let ghost shorter = records_of(snapshot@);
            let copy = self.info[i].clone();
            snapshot.push(copy);
            proof {
                assert(records_of(snapshot@) =~= shorter.push(copy@));
                assert(shorter.push(copy@) =~= records_of(self.info@).subrange(0, i + 1));
            }
            i = i + 1;
        }
        proof {
            let all = records_of(self.info@);
            assert(all.subrange(0, all.len() as int) =~= all);
        }
        snapshot
    }
}

/// Starts the sampler unless it runs. Only a call that finds it stopped
/// returns `true`; the caller then launches the sampler.
pub fn start_process_collector(collector: &mut ProcessCollector) -> (started: bool)
    ensures
        (final(collector)@, started) == old(collector)@.start(),
{
    if collector.running {
        false
    } else {
        *collector = ProcessCollector { running: true, info: Vec::new() };
        proof {
            assert(records_of(collector.info@) =~= Seq::empty());
        }
        true
    }
}

/// Stops the sampler if it runs, and drops the snapshot. Only a call that
/// finds it running returns `true`; the caller then waits for the sampler to
/// end.
pub fn stop_process_collector(collector: &mut ProcessCollector) -> (stopped: bool)
    ensures
        (final(collector)@, stopped) == old(collector)@.stop(),
{
    if collector.running {
        *collector = ProcessCollector { running: false, info: Vec::new() };
        proof {
            assert(records_of(collector.info@) =~= Seq::empty());
        }
        true
    } else {
        false
    }
}

/// The latest snapshot as a caller receives it: a copy of the records and
/// their number. No records stand for "no data".
pub fn get_process_info_array(collector: &ProcessCollector) -> (array: ProcessInfoArray)
    ensures
        records_of(array.data@) == collector@.latest,
        array.len == collector@.latest.len(),
        collector@.consistent(),
{
    let data = collector.fetch();
    let len = data.len();
    ProcessInfoArray { data, len }
}

/// One step of the sampler. On waking it reads the process table if the
/// collector runs, and ends otherwise. After a reading it ends if the
/// collector was stopped meanwhile; otherwise the snapshot of the table
/// replaces the latest one, a failed reading leaves the latest one in place,
/// and the sampler sleeps.
pub fn process_collector_step(collector: &mut ProcessCollector, event: TaskEvent) -> (action:
    TaskAction)
    ensures
        final(collector)@.running == old(collector)@.running,
        !old(collector)@.running ==> action == TaskAction::Exit && final(collector)@ == old(
            collector,
        )@,
        old(collector)@.running ==> match event {
            TaskEvent::Woke => action == TaskAction::Sample && final(collector)@ == old(
                collector,
            )@,
            TaskEvent::Sampled(None, _) => action == TaskAction::Sleep(SAMPLING_INTERVAL_SECS)
                && final(collector)@ == old(collector)@,
            TaskEvent::Sampled(Some(table), cores) => action == TaskAction::Sleep(
                SAMPLING_INTERVAL_SECS,
            ) && is_snapshot_of(final(collector)@.latest, table_of(table@), cores),
        },
{
    if !collector.running {
        return TaskAction::Exit;
    }
    match event {
        TaskEvent::Woke => TaskAction::Sample,
        TaskEvent::Sampled(None, _) => TaskAction::Sleep(SAMPLING_INTERVAL_SECS),
        TaskEvent::Sampled(Some(table), cores) => {
            let snapshot = build_snapshot(&table, cores);
            *collector = ProcessCollector { running: true, info: snapshot };
            TaskAction::Sleep(SAMPLING_INTERVAL_SECS)
        },
    }
}

/// How many of `calls` starts in a row succeed.
pub open spec fn successful_starts(state: CollectorState, calls: nat) -> nat
    decreases calls,
{
    if calls == 0 {
        0
    } else {
        let (next, started) = state.start();
        (if started {
            1nat
        } else {
            0nat
        }) + successful_starts(next, (calls - 1) as nat)
    }
}

/// The state after `calls` starts in a row.
pub open spec fn after_starts(state: CollectorState, calls: nat) -> CollectorState
    decreases calls,
{
    if calls == 0 {
        state
    } else {
        after_starts(state.start().0, (calls - 1) as nat)
    }
}

/// Starting, stopping and publishing a sorted snapshot keep a state consistent.
pub proof fn lemma_transitions_keep_consistent(state: CollectorState, snapshot: Seq<ProcessRecord>)
    requires
        state.consistent(),
        sorted_by_usage(snapshot),
    ensures
        CollectorState::idle().consistent(),
        state.start().0.consistent(),
        state.stop().0.consistent(),
        state.publish(snapshot).consistent(),
{
}

/// Of two starts in a row on a stopped collector the first succeeds and the
/// second fails and changes nothing.
pub proof fn lemma_second_start_fails(state: CollectorState)
    requires
        !state.running,
    ensures
        state.start().1,
        state.start().0.start() == (state.start().0, false),
{
}

/// A stop on a stopped collector fails and changes nothing.
pub proof fn lemma_stop_when_stopped(state: CollectorState)
    requires
        !state.running,
    ensures
        state.stop() == (state, false),
{
}

/// A stop on a running collector succeeds, whatever has been published since
/// the start, and leaves the empty snapshot to fetch.
pub proof fn lemma_stop_after_start(state: CollectorState, snapshot: Seq<ProcessRecord>)
    requires
        !state.running,
    ensures
        state.start().0.stop() == (CollectorState::idle(), true),
        state.start().0.publish(snapshot).stop() == (CollectorState::idle(), true),
        CollectorState::idle().latest.len() == 0,
{
}

/// A collector that has never been started holds the empty snapshot, and
/// neither a stop nor a reading that ends changes that.
pub proof fn lemma_empty_before_start(snapshot: Seq<ProcessRecord>)
    ensures
        CollectorState::idle().latest.len() == 0,
        CollectorState::idle().stop().0 == CollectorState::idle(),
        CollectorState::idle().publish(snapshot) == CollectorState::idle(),
{
}

/// Of any number of starts in a row exactly one succeeds on a stopped
/// collector and none on a running one; afterwards the collector runs.
pub proof fn lemma_one_start_succeeds(state: CollectorState, calls: nat)
    requires
        calls >= 1,
    ensures
        successful_starts(state, calls) == (if state.running {
            0nat
        } else {
            1nat
        }),
        after_starts(state, calls).running,
    decreases calls,
{
    if calls > 1 {
        lemma_one_start_succeeds(state.start().0, (calls - 1) as nat);
    } else {
        assert(successful_starts(state.start().0, 0) == 0);
        assert(after_starts(state.start().0, 0) == state.start().0);
    }
}

} // verus!
