//! Persistent state of the engine: the configuration singleton, the engine
//! state singleton, and the snapshot handed to an epoch tick.

use vstd::prelude::*;
use crate::dec::{Dec, SCALE, RATE_UNITS_CAP};

verus! {

/// Immutable configuration, set at instantiation and changed only by the
/// owner through an explicit admin call. Collaborator contracts are held as
/// opaque numeric account identifiers resolved by the host environment.
pub struct Config {
    /// Account allowed to run admin-only operations.
    pub owner: u64,
    /// The underlying deposit market.
    pub market: u64,
    /// The overseer that drives periodic epoch execution.
    pub overseer: u64,
    /// Ledger of the interest-bearing deposit token locked by bonding.
    pub aterra_contract: u64,
    /// Ledger of the derivative token minted by bonding.
    pub vterra_contract: u64,
    /// Denomination of the base asset.
    pub stable_denom: String,
    /// Desired fraction of system value routed into the derivative token;
    /// strictly positive, at most one.
    pub target_share: Dec,
    /// Largest per-epoch upward movement of the share metric.
    pub max_pos_change: Dec,
    /// Largest per-epoch downward movement of the share metric.
    pub max_neg_change: Dec,
    /// Hard ceiling of the premium rate.
    pub max_rate: Dec,
    /// Hard floor of the premium rate.
    pub min_rate: Dec,
    /// Scales the correction applied when the realized share deviates from
    /// the target.
    pub diff_multiplier: Dec,
    /// Premium rate in force before the first epoch tick.
    pub initial_premium_rate: Dec,
    /// Epoch length in blocks; the rate engine updates at most once per
    /// epoch.
    pub premium_rate_epoch: u64,
    /// Floor below which bonding is disallowed; strictly positive.
    pub min_gross_rate: Dec,
}

impl Config {
    /// Domain of a valid configuration: the share quantities are fractions,
    /// the target is strictly positive, the rate bounds are ordered, every
    /// rate-valued decimal is under the representable cap, the gross-rate
    /// floor is strictly positive, and the epoch length is non-zero.
    pub open spec fn wf(self) -> bool {
        &&& 0 < self.target_share.units <= SCALE
        &&& self.max_pos_change.units <= SCALE
        &&& self.max_neg_change.units <= SCALE
        &&& self.min_rate.units <= self.max_rate.units
        &&& self.max_rate.units <= RATE_UNITS_CAP
        &&& self.diff_multiplier.units <= RATE_UNITS_CAP
        &&& self.initial_premium_rate.units <= RATE_UNITS_CAP
        &&& 0 < self.min_gross_rate.units <= RATE_UNITS_CAP
        &&& 0 < self.premium_rate_epoch
    }

    /// Decides `wf` executably.
    pub fn validate(&self) -> (r: bool)
        ensures
            r == self.wf(),
    {
        0 < self.target_share.units && self.target_share.units <= SCALE
            && self.max_pos_change.units <= SCALE
            && self.max_neg_change.units <= SCALE
            && self.min_rate.units <= self.max_rate.units
            && self.max_rate.units <= RATE_UNITS_CAP
            && self.diff_multiplier.units <= RATE_UNITS_CAP
            && self.initial_premium_rate.units <= RATE_UNITS_CAP
            && 0 < self.min_gross_rate.units && self.min_gross_rate.units <= RATE_UNITS_CAP
            && 0 < self.premium_rate_epoch
    }
}

/// Mutable engine state; a single logical row, created at instantiation and
/// rewritten only by a successful, non-no-op epoch tick.
#[derive(Clone, Copy, Debug, PartialEq, Eq, Structural)]
pub struct EngineState {
    /// Current valuation of the derivative token relative to the base
    /// asset.
    pub premium_rate: Dec,
    /// Current realized allocation fraction.
    pub share: Dec,
    /// Block height of the last successful, non-no-op tick (the
    /// instantiation height before the first tick).
    pub last_epoch_height: u64,
}

impl EngineState {
    /// The share is a fraction and the premium rate is under the
    /// representable cap.
    pub open spec fn wf(self) -> bool {
        &&& self.share.units <= SCALE
        &&& self.premium_rate.units <= RATE_UNITS_CAP
    }

    /// The engine state in force from instantiation until the first tick.
    pub fn initial(cfg: &Config, height: u64) -> (r: EngineState)
        ensures
            r.premium_rate == cfg.initial_premium_rate,
            r.share.units == 0,
            r.last_epoch_height == height,
            cfg.wf() ==> r.wf(),
    {
        EngineState {
            premium_rate: cfg.initial_premium_rate,
            share: Dec { units: 0 },
            last_epoch_height: height,
        }
    }
}

/// Aggregate value snapshot handed to an epoch tick: the base-asset value
/// currently allocated to the derivative token, and the total system value
/// it is part of.
#[derive(Clone, Copy, Debug, PartialEq, Eq, Structural)]
pub struct LedgerSnapshot {
    /// Base-asset value of the bonded side.
    pub bonded_value: u64,
    /// Total system value; the bonded value is a part of it.
    pub total_value: u64,
}

impl LedgerSnapshot {
    /// The bonded value is a part of the total.
    pub open spec fn wf(self) -> bool {
        self.bonded_value <= self.total_value
    }
}

} // verus!
