//! The command scheduler's bookkeeping: when a unit of work was enqueued,
//! started, finished and reported, the three durations between them, and
//! the totals per kind of operation.
//!
//! Running the work is the caller's part; nothing here changes what an
//! operation does or how it fails.

use std::time::SystemTime;
use std::time::UNIX_EPOCH;
use vstd::prelude::*;

verus! {

/// The smallest worker pool.
pub const MIN_WORKERS: usize = 8;

/// A control command of the scheduler.
#[derive(Clone, Copy, Debug, PartialEq, Eq, Structural)]
pub enum Command {
    Exit,
}

/// A command with the time at which it was enqueued, in milliseconds since
/// the Unix epoch.
#[derive(Clone, Copy, Debug, PartialEq, Eq)]
pub struct InstrumentedCommand {
    pub enqueue_ts: u128,
    pub command: Command,
}

/// `SystemTime::now` as milliseconds since the Unix epoch; zero for a clock
/// set before the epoch. Nothing is promised of the value.
#[verifier::external_body]
fn get_cur_time() -> (now: u128) {
    SystemTime::now().duration_since(UNIX_EPOCH).map(|d| d.as_millis()).unwrap_or(0)
}

/// `num_cpus::get`: how many processors the machine offers. Nothing is
/// promised of the value.
#[verifier::external_body]
fn available_parallelism() -> (n: usize) {
    num_cpus::get()
}

impl InstrumentedCommand {
    /// Stamps `command` with the current time.
    pub fn new(command: Command) -> (stamped: InstrumentedCommand)
        ensures
            stamped.command == command,
    {
        InstrumentedCommand::at(command, get_cur_time())
    }

    /// Stamps `command` with a given time.
    pub fn at(command: Command, enqueue_ts: u128) -> (stamped: InstrumentedCommand)
        ensures
            stamped.command == command,
            stamped.enqueue_ts == enqueue_ts,
    {
        InstrumentedCommand { enqueue_ts, command }
    }
}

/// The size of the worker pool on a machine with `available` processors:
/// that many workers, and never fewer than [`MIN_WORKERS`].
pub fn worker_pool_size(available: usize) -> (size: usize)
    ensures
        size == if available > MIN_WORKERS {
            available
        } else {
            MIN_WORKERS
        },
{
    if available > MIN_WORKERS {
        available
    } else {
        MIN_WORKERS
    }
}

/// The size of the worker pool on this machine.
pub fn default_pool_size() -> (size: usize)
    ensures
        size >= MIN_WORKERS,
{
    worker_pool_size(available_parallelism())
}

/// The four moments of one unit of work, in milliseconds.
#[derive(Clone, Copy, Debug, PartialEq, Eq)]
pub struct Timestamps {
    pub enqueued: u128,
    pub started: u128,
    pub executed: u128,
    pub notified: u128,
}

/// The three durations of one unit of work, in milliseconds.
#[derive(Clone, Copy, Debug, PartialEq, Eq, Structural)]
pub struct Durations {
    pub queued: u128,
    pub execution: u128,
    pub notification: u128,
}

impl Timestamps {
    /// The four moments follow one another.
    pub open spec fn ordered(&self) -> bool {
        self.enqueued <= self.started <= self.executed <= self.notified
    }

    /// The time spent waiting, running and reporting; nothing where the
    /// clock went backwards between two of the moments.
    pub fn durations(&self) -> (spent: Option<Durations>)
        ensures
            match spent {
                Some(d) => self.ordered() && d.queued == self.started - self.enqueued
                    && d.execution == self.executed - self.started && d.notification
                    == self.notified - self.executed,
                None => !self.ordered(),
            },
    {
        if self.enqueued <= self.started && self.started <= self.executed && self.executed
            <= self.notified {
            Some(
                Durations {
                    queued: self.started - self.enqueued,
                    execution: self.executed - self.started,
                    notification: self.notified - self.executed,
                },
            )
        } else {
            None
        }
    }
}

/// The totals of one kind of operation.
#[derive(Clone, Copy, Debug, PartialEq, Eq, Structural)]
pub struct MetricTotals {
    pub count: u64,
    pub queued: u128,
    pub execution: u128,
    pub notification: u128,
}

/// `a + b`, or the greatest value where the sum does not fit.
pub open spec fn capped_sum(a: u128, b: u128) -> u128 {
    if a + b > u128::MAX {
        u128::MAX
    } else {
        (a + b) as u128
    }
}

/// The totals after one more unit of work.
pub open spec fn totals_after(t: MetricTotals, d: Durations) -> MetricTotals {
    MetricTotals {
        count: if t.count == u64::MAX {
            u64::MAX
        } else {
            (t.count + 1) as u64
        },
        queued: capped_sum(t.queued, d.queued),
        execution: capped_sum(t.execution, d.execution),
        notification: capped_sum(t.notification, d.notification),
    }
}

fn add_capped(a: u128, b: u128) -> (sum: u128)
    ensures
        sum == capped_sum(a, b),
{
    if a > u128::MAX - b {
        u128::MAX
    } else {
        a + b
    }
}

/// The totals per kind of operation, kinds being numbered from zero.
pub struct CommandMetrics {
    totals: Vec<MetricTotals>,
}

impl View for CommandMetrics {
    type V = Seq<MetricTotals>;

    closed spec fn view(&self) -> Seq<MetricTotals> {
        self.totals@
    }
}

impl CommandMetrics {
    /// Totals of zero for `kinds` kinds of operation.
    pub fn new(kinds: usize) -> (metrics: Self)
        ensures
            metrics@.len() == kinds,
            forall|k: int|
                0 <= k < kinds ==> #[trigger] metrics@[k] == (MetricTotals {
                    count: 0,
                    queued: 0,
                    execution: 0,
                    notification: 0,
                }),
    {
        let mut totals: Vec<MetricTotals> = Vec::new();
        let mut k: usize = 0;
        while k < kinds
            invariant
                k <= kinds,
                totals@.len() == k,
                forall|j: int|
                    0 <= j < k ==> #[trigger] totals@[j] == (MetricTotals {
                        count: 0,
                        queued: 0,
                        execution: 0,
                        notification: 0,
                    }),
            decreases kinds - k,
        {
            totals.push(MetricTotals { count: 0, queued: 0, execution: 0, notification: 0 });
            k += 1;
        }
        CommandMetrics { totals }
    }

    /// Adds one unit of work of kind `kind` to the totals. An unknown kind
    /// changes nothing, and the call says so.
    pub fn record(&mut self, kind: usize, spent: Durations) -> (known: bool)
        ensures
            known == (kind < old(self)@.len()),
            known ==> final(self)@ == old(self)@.update(
                kind as int,
                totals_after(old(self)@[kind as int], spent),
            ),
            !known ==> final(self)@ == old(self)@,
    {
        if kind >= self.totals.len() {
            return false;
        }
        let t = self.totals[kind];
        let next = MetricTotals {
            count: if t.count == u64::MAX {
                u64::MAX
            } else {
                t.count + 1
            },
            queued: add_capped(t.queued, spent.queued),
            execution: add_capped(t.execution, spent.execution),
            notification: add_capped(t.notification, spent.notification),
        };
        self.totals.set(kind, next);
        true
    }

    /// The totals of kind `kind`, where it is known.
    pub fn totals(&self, kind: usize) -> (t: Option<MetricTotals>)
        ensures
            match t {
                Some(found) => kind < self@.len() && found == self@[kind as int],
                None => kind >= self@.len(),
            },
    {
        if kind < self.totals.len() {
            Some(self.totals[kind])
        } else {
            None
        }
    }
}

} // verus!
