//! What a process holds for the whole of its life: the wallet and the pools
//! that commands work on, the totals of the scheduler, and the size of the
//! worker pool. It is made once and handed to whoever needs it.

use vstd::prelude::*;
use crate::commands::CommandContext;
use crate::scheduler::default_pool_size;
use crate::scheduler::CommandMetrics;
use crate::scheduler::MetricTotals;
use crate::scheduler::MIN_WORKERS;

verus! {

/// The kinds of operation whose time is kept.
#[derive(Clone, Copy, Debug, PartialEq, Eq, Structural)]
pub enum CommandMetric {
    KeysAddRandom,
    KeysAddFromMnemonic,
    KeysGetInfo,
    KeysGetListKeys,
    KeysSign,
    LedgerBuildQuery,
    LedgerBuildTx,
    LedgerParseResponse,
    PoolCreate,
    PoolOpen,
    PoolRefresh,
    PoolList,
    PoolClose,
    PoolDelete,
    PoolQuery,
    PoolBroadcast,
}

/// How many kinds of operation there are.
pub const COMMAND_METRICS: usize = 16;

impl CommandMetric {
    /// The number of this kind, counted from zero.
    pub open spec fn position(self) -> int {
        match self {
            CommandMetric::KeysAddRandom => 0,
            CommandMetric::KeysAddFromMnemonic => 1,
            CommandMetric::KeysGetInfo => 2,
            CommandMetric::KeysGetListKeys => 3,
            CommandMetric::KeysSign => 4,
            CommandMetric::LedgerBuildQuery => 5,
            CommandMetric::LedgerBuildTx => 6,
            CommandMetric::LedgerParseResponse => 7,
            CommandMetric::PoolCreate => 8,
            CommandMetric::PoolOpen => 9,
            CommandMetric::PoolRefresh => 10,
            CommandMetric::PoolList => 11,
            CommandMetric::PoolClose => 12,
            CommandMetric::PoolDelete => 13,
            CommandMetric::PoolQuery => 14,
            CommandMetric::PoolBroadcast => 15,
        }
    }

    /// The number of this kind, counted from zero.
    pub fn index(self) -> (i: usize)
        ensures
            i == self.position(),
            i < COMMAND_METRICS,
    {
        match self {
            CommandMetric::KeysAddRandom => 0,
            CommandMetric::KeysAddFromMnemonic => 1,
            CommandMetric::KeysGetInfo => 2,
            CommandMetric::KeysGetListKeys => 3,
            CommandMetric::KeysSign => 4,
            CommandMetric::LedgerBuildQuery => 5,
            CommandMetric::LedgerBuildTx => 6,
            CommandMetric::LedgerParseResponse => 7,
            CommandMetric::PoolCreate => 8,
            CommandMetric::PoolOpen => 9,
            CommandMetric::PoolRefresh => 10,
            CommandMetric::PoolList => 11,
            CommandMetric::PoolClose => 12,
            CommandMetric::PoolDelete => 13,
            CommandMetric::PoolQuery => 14,
            CommandMetric::PoolBroadcast => 15,
        }
    }
}

/// The state of one process.
pub struct Locator {
    pub context: CommandContext,
    pub metrics: CommandMetrics,
    pub workers: usize,
}

impl Locator {
    /// A fresh state: no wallet, no pools, all totals zero, and a worker
    /// pool sized for this machine.
    pub fn new() -> (locator: Locator)
        ensures
            locator.context.wallet.is_none(),
            locator.context.connected_pool.is_none(),
            locator.context.pools.aliases() == Seq::<Seq<char>>::empty(),
            locator.metrics@.len() == COMMAND_METRICS,
            forall|k: int|
                0 <= k < COMMAND_METRICS ==> #[trigger] locator.metrics@[k] == (MetricTotals {
                    count: 0,
                    queued: 0,
                    execution: 0,
                    notification: 0,
                }),
            locator.workers >= MIN_WORKERS,
    {
        Locator {
            context: CommandContext::new(),
            metrics: CommandMetrics::new(COMMAND_METRICS),
            workers: default_pool_size(),
        }
    }
}

} // verus!
