//! The premium rate engine.
//!
//! Once per epoch the engine recomputes the premium rate and the share
//! metric from the oracle's current exchange rate and an aggregate value
//! snapshot of the ledger. The whole transition is defined by the spec
//! function [`tick_spec`]; the executable [`tick_compute`] returns exactly
//! that transition's result.

use vstd::prelude::*;
use vstd::arithmetic::div_mod::lemma_div_pos_is_pos;
use crate::dec::{
    Dec, SCALE, RATE_UNITS_CAP, mul_floor_units, div_floor_units, units_mul_floor, ratio_units,
};
use crate::error::ContractError;
use crate::state::{Config, EngineState, LedgerSnapshot};

verus! {

/// Fraction of total system value currently allocated to the derivative
/// token, in fixed-point units; zero when the system holds no value.
pub open spec fn spec_realized_share(snap: LedgerSnapshot) -> int {
    if snap.total_value == 0 {
        0
    } else {
        div_floor_units(snap.bonded_value as int, snap.total_value as int)
    }
}

/// The share metric after one epoch: it moves from `share` toward the
/// realized share by `|realized - target| * diff_multiplier`, capped above
/// by `max_pos_change` and below by `max_neg_change`, and clamped into
/// `[0, 1]`.
pub open spec fn spec_new_share(cfg: Config, share: int, realized: int) -> int {
    let target = cfg.target_share.units as int;
    if realized >= target {
        let raw = mul_floor_units(cfg.diff_multiplier.units as int, realized - target);
        let adj = if raw > cfg.max_pos_change.units {
            cfg.max_pos_change.units as int
        } else {
            raw
        };
        if share + adj > SCALE {
            SCALE as int
        } else {
            share + adj
        }
    } else {
        let raw = mul_floor_units(cfg.diff_multiplier.units as int, target - realized);
        let adj = if raw > cfg.max_neg_change.units {
            cfg.max_neg_change.units as int
        } else {
            raw
        };
        if adj > share {
            0
        } else {
            share - adj
        }
    }
}

/// Multiplier applied to the oracle rate: one plus the shortfall of the new
/// share below the target (raising the premium to attract bonding), or one
/// minus its excess above the target.
pub open spec fn spec_rate_factor(cfg: Config, new_share: int) -> int {
    let target = cfg.target_share.units as int;
    if new_share <= target {
        SCALE + (target - new_share)
    } else {
        SCALE - (new_share - target)
    }
}

/// The premium rate after one epoch: the oracle rate scaled by
/// [`spec_rate_factor`], clamped into `[min_rate, max_rate]`.
pub open spec fn spec_new_rate(cfg: Config, oracle_units: int, new_share: int) -> int {
    let raw = mul_floor_units(oracle_units, spec_rate_factor(cfg, new_share));
    if raw < cfg.min_rate.units {
        cfg.min_rate.units as int
    } else if raw > cfg.max_rate.units {
        cfg.max_rate.units as int
    } else {
        raw
    }
}

/// The full epoch-tick transition.
///
/// A tick before the end of the current epoch window is a no-op returning
/// the state unchanged, whatever the oracle says; this makes the hook safe
/// to call every block. A due tick aborts, leaving the state unchanged,
/// when the oracle rate is absent, non-positive, or beyond the
/// representable rate cap — a bad oracle read never corrupts the rate.
/// Otherwise the new share and premium rate are computed and the epoch
/// height advances.
pub open spec fn tick_spec(
    cfg: Config,
    st: EngineState,
    height: u64,
    oracle: Option<Dec>,
    snap: LedgerSnapshot,
) -> Result<EngineState, ContractError> {
    if (height as int) < st.last_epoch_height + cfg.premium_rate_epoch {
        Ok(st)
    } else {
        match oracle {
            None => Err(ContractError::OracleUnavailable),
            Some(o) => {
                if o.units == 0 || o.units > RATE_UNITS_CAP {
                    Err(ContractError::OracleUnavailable)
                } else {
                    let realized = spec_realized_share(snap);
                    let new_share = spec_new_share(cfg, st.share.units as int, realized);
                    let new_rate = spec_new_rate(cfg, o.units as int, new_share);
                    Ok(EngineState {
                        premium_rate: Dec { units: new_rate as u128 },
                        share: Dec { units: new_share as u128 },
                        last_epoch_height: height,
                    })
                }
            },
        }
    }
}

/// Runs one epoch tick, returning exactly the transition of [`tick_spec`].
pub fn tick_compute(
    cfg: &Config,
    st: &EngineState,
    height: u64,
    oracle: Option<Dec>,
    snap: LedgerSnapshot,
) -> (r: Result<EngineState, ContractError>)
    requires
        cfg.wf(),
        st.wf(),
        snap.wf(),
    ensures
        r == tick_spec(*cfg, *st, height, oracle, snap),
        r matches Ok(st2) ==> st2.wf(),
{
    if height < st.last_epoch_height || height - st.last_epoch_height < cfg.premium_rate_epoch {
        return Ok(*st);
    }
    let o = match oracle {
        None => {
            return Err(ContractError::OracleUnavailable);
        },
        Some(o) => o,
    };
    if o.units == 0 || o.units > RATE_UNITS_CAP {
        return Err(ContractError::OracleUnavailable);
    }

    // Realized share of system value allocated to the derivative token.
    let realized: u128 = if snap.total_value == 0 {
        0
    } else {
        ratio_units(snap.bonded_value, snap.total_value)
    };
    proof {
        assert(realized == spec_realized_share(snap));
    }

    // Bounded movement of the share metric.
    let target: u128 = cfg.target_share.units;
    let share: u128 = st.share.units;
    let new_share: u128 = if realized >= target {
        let raw: u128 = units_mul_floor(cfg.diff_multiplier.units, realized - target);
        let adj: u128 = if raw > cfg.max_pos_change.units {
            cfg.max_pos_change.units
        } else {
            raw
        };
        if share + adj > SCALE {
            SCALE
        } else {
            share + adj
        }
    } else {
        proof {
            lemma_div_pos_is_pos(
                (cfg.diff_multiplier.units as int) * (target - realized),
                SCALE as int,
            );
        }
        let raw: u128 = units_mul_floor(cfg.diff_multiplier.units, target - realized);
        let adj: u128 = if raw > cfg.max_neg_change.units {
            cfg.max_neg_change.units
        } else {
            raw
        };
        if adj > share {
            0
        } else {
            share - adj
        }
    };
    proof {
        assert(new_share == spec_new_share(*cfg, st.share.units as int, realized as int));
    }

    // New premium rate from the oracle rate and the new share, clamped.
    let factor: u128 = if new_share <= target {
        SCALE + (target - new_share)
    } else {
        SCALE - (new_share - target)
    };
    let raw_rate: u128 = units_mul_floor(o.units, factor);
    let new_rate: u128 = if raw_rate < cfg.min_rate.units {
        cfg.min_rate.units
    } else if raw_rate > cfg.max_rate.units {
        cfg.max_rate.units
    } else {
        raw_rate
    };
    proof {
        assert(new_rate == spec_new_rate(*cfg, o.units as int, new_share as int));
    }

    Ok(EngineState {
        premium_rate: Dec { units: new_rate },
        share: Dec { units: new_share },
        last_epoch_height: height,
    })
}

/// Law: rate monotonic boundedness. Any state a tick returns moves the
/// share by at most `max_pos_change` upward and at most `max_neg_change`
/// downward, and a tick that actually updates (the epoch is due) leaves the
/// premium rate inside `[min_rate, max_rate]`.
pub proof fn lemma_tick_bounded(
    cfg: Config,
    st: EngineState,
    height: u64,
    oracle: Option<Dec>,
    snap: LedgerSnapshot,
    st2: EngineState,
)
    requires
        cfg.wf(),
        st.wf(),
        snap.wf(),
        tick_spec(cfg, st, height, oracle, snap) == Ok::<EngineState, ContractError>(st2),
    ensures
        st2.share.units <= st.share.units + cfg.max_pos_change.units,
        st.share.units <= st2.share.units + cfg.max_neg_change.units,
        st.last_epoch_height + cfg.premium_rate_epoch <= height ==> {
            &&& cfg.min_rate.units <= st2.premium_rate.units <= cfg.max_rate.units
            &&& st2.last_epoch_height == height
        },
{
    if st.last_epoch_height + cfg.premium_rate_epoch <= height {
        let o = oracle->Some_0;
        let realized = spec_realized_share(snap);
        let target = cfg.target_share.units as int;
        if realized >= target {
            lemma_div_pos_is_pos(
                (cfg.diff_multiplier.units as int) * (realized - target),
                SCALE as int,
            );
        } else {
            lemma_div_pos_is_pos(
                (cfg.diff_multiplier.units as int) * (target - realized),
                SCALE as int,
            );
        }
    }
}

/// Law: tick idempotence. After a tick returns a state, a second tick
/// within that state's epoch window returns the same state unchanged,
/// whatever oracle rate or snapshot it is given.
pub proof fn lemma_tick_idempotent(
    cfg: Config,
    st: EngineState,
    st1: EngineState,
    h1: u64,
    h2: u64,
    oracle1: Option<Dec>,
    oracle2: Option<Dec>,
    snap1: LedgerSnapshot,
    snap2: LedgerSnapshot,
)
    requires
        tick_spec(cfg, st, h1, oracle1, snap1) == Ok::<EngineState, ContractError>(st1),
        (h2 as int) < st1.last_epoch_height + cfg.premium_rate_epoch,
    ensures
        tick_spec(cfg, st1, h2, oracle2, snap2) == Ok::<EngineState, ContractError>(st1),
{
}

} // verus!
