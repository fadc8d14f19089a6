//! The contract: entry points over the configuration, the rate engine and
//! the bonding ledger.
//!
//! Each entry point either completes with its full effect or returns an
//! error leaving every part of the state exactly as it was — there is no
//! partial success. Bond, unbond and claim read the premium rate but never
//! write it; only the epoch tick rewrites the engine state.

use vstd::prelude::*;
use crate::bonding::{BondingLedger, UnbondClaim, bond_accounts_shape, claim_accounts_shape, unbond_accounts_shape, account_index, matured_amount};
use crate::conservation::{Action, apply_action, empty_accounting};
use crate::dec::{Dec, div_floor_units, mul_floor_units};
use crate::engine::{tick_compute, tick_spec};
use crate::error::ContractError;
use crate::state::{Config, EngineState, LedgerSnapshot};

verus! {

/// The whole contract state: configuration, engine state, bonding ledger.
pub struct VterraContract {
    /// Configuration singleton, owner-mutable only through [`VterraContract::migrate`].
    pub config: Config,
    /// Engine state singleton, rewritten only by [`VterraContract::tick`].
    pub engine: EngineState,
    /// Per-account positions and claim queues.
    pub ledger: BondingLedger,
}

impl VterraContract {
    /// Every component is internally consistent.
    pub open spec fn wf(self) -> bool {
        &&& self.config.wf()
        &&& self.engine.wf()
        &&& self.ledger.wf()
    }

    /// Instantiates the contract at the given block height: the premium
    /// rate starts at `initial_premium_rate`, the share at zero, the ledger
    /// empty. Fails with `RateOutOfBounds` exactly when the configuration
    /// is out of domain.
    pub fn instantiate(config: Config, height: u64) -> (r: Result<VterraContract, ContractError>)
        ensures
            match r {
                Ok(c) => {
                    &&& config.wf()
                    &&& c.wf()
                    &&& c.config == config
                    &&& c.engine.premium_rate == config.initial_premium_rate
                    &&& c.engine.share.units == 0
                    &&& c.engine.last_epoch_height == height
                    &&& c.ledger.totals() == empty_accounting()
                    &&& c.ledger.accounts@.len() == 0
                },
                Err(e) => !config.wf() && e == ContractError::RateOutOfBounds,
            },
    {
        if !config.validate() {
            return Err(ContractError::RateOutOfBounds);
        }
        let engine = EngineState::initial(&config, height);
        Ok(VterraContract { config, engine, ledger: BondingLedger::new() })
    }

    /// Locks `principal` of the base asset and mints derivative units at
    /// the current premium rate, rounded down. The host transfers the
    /// principal into working capital atomically with this call; on an
    /// error nothing is transferred and nothing changes.
    pub fn bond(&mut self, account: u64, principal: u64) -> (r: Result<u64, ContractError>)
        requires
            old(self).wf(),
        ensures
            final(self).wf(),
            final(self).config == old(self).config,
            final(self).engine == old(self).engine,
            match r {
                Ok(minted) => {
                    &&& old(self).ledger.bond_error(
                        account,
                        principal,
                        old(self).engine.premium_rate,
                        old(self).config.min_gross_rate,
                    ) is None
                    &&& minted as int == div_floor_units(
                        principal as int,
                        old(self).engine.premium_rate.units as int,
                    )
                    &&& (apply_action(
                        old(self).ledger.totals(),
                        old(self).engine.premium_rate.units as int,
                        Action::Bond { principal: principal as int },
                    ) == Some(final(self).ledger.totals()))
                    &&& bond_accounts_shape(
                        old(self).ledger.accounts@,
                        final(self).ledger.accounts@,
                        account,
                        principal,
                        minted,
                    )
                },
                Err(e) => {
                    &&& old(self).ledger.bond_error(
                        account,
                        principal,
                        old(self).engine.premium_rate,
                        old(self).config.min_gross_rate,
                    ) == Some(e)
                    &&& *final(self) == *old(self)
                },
            },
    {
        self.ledger.bond(account, principal, self.engine.premium_rate, self.config.min_gross_rate)
    }

    /// Burns `vtokens` from the account immediately and enqueues a claim
    /// for their value at the current premium rate, rounded down, maturing
    /// after the unbonding delay.
    pub fn unbond(&mut self, account: u64, vtokens: u64, now: u64) -> (r: Result<UnbondClaim, ContractError>)
        requires
            old(self).wf(),
        ensures
            final(self).wf(),
            final(self).config == old(self).config,
            final(self).engine == old(self).engine,
            match r {
                Ok(c) => {
                    &&& old(self).ledger.unbond_error(
                        account,
                        vtokens,
                        old(self).engine.premium_rate,
                        now,
                    ) is None
                    &&& c.amount as int == mul_floor_units(
                        vtokens as int,
                        old(self).engine.premium_rate.units as int,
                    )
                    &&& c.maturity_time == now + crate::bonding::UNBOND_DURATION_SECS
                    &&& (apply_action(
                        old(self).ledger.totals(),
                        old(self).engine.premium_rate.units as int,
                        Action::Unbond { vtokens: vtokens as int },
                    ) == Some(final(self).ledger.totals()))
                    &&& unbond_accounts_shape(
                        old(self).ledger.accounts@,
                        final(self).ledger.accounts@,
                        account_index(old(self).ledger.accounts@, account),
                        vtokens,
                        c,
                    )
                },
                Err(e) => {
                    &&& old(self).ledger.unbond_error(
                        account,
                        vtokens,
                        old(self).engine.premium_rate,
                        now,
                    ) == Some(e)
                    &&& *final(self) == *old(self)
                },
            },
    {
        self.ledger.unbond(account, vtokens, self.engine.premium_rate, now)
    }

    /// Releases matured claims of the account, oldest first: the requested
    /// amount, or everything matured when no amount is given. The host
    /// transfers the released amount back to the account atomically with
    /// this call.
    pub fn claim(&mut self, account: u64, amount: Option<u64>, now: u64) -> (r: Result<u64, ContractError>)
        requires
            old(self).wf(),
        ensures
            final(self).wf(),
            final(self).config == old(self).config,
            final(self).engine == old(self).engine,
            match r {
                Ok(released) => {
                    &&& old(self).ledger.claim_error(account, amount, now) is None
                    &&& (match amount {
                        None => released as int == matured_amount(
                            old(self).ledger.accounts@[account_index(
                                old(self).ledger.accounts@,
                                account,
                            )].claims@,
                            now,
                        ),
                        Some(a) => released == a,
                    })
                    &&& released as int <= matured_amount(
                        old(self).ledger.accounts@[account_index(
                            old(self).ledger.accounts@,
                            account,
                        )].claims@,
                        now,
                    )
                    &&& (apply_action(
                        old(self).ledger.totals(),
                        1,
                        Action::Claim { amount: released as int },
                    ) == Some(final(self).ledger.totals()))
                    &&& claim_accounts_shape(
                        old(self).ledger.accounts@,
                        final(self).ledger.accounts@,
                        account_index(old(self).ledger.accounts@, account),
                        released,
                    )
                },
                Err(e) => {
                    &&& old(self).ledger.claim_error(account, amount, now) == Some(e)
                    &&& *final(self) == *old(self)
                },
            },
    {
        self.ledger.claim(account, amount, now)
    }

    /// The epoch scheduler hook: advances the engine by one epoch when due,
    /// exactly as [`tick_spec`] defines. Safe to call every block — before
    /// the epoch window ends it is a no-op returning `false`. A bad oracle
    /// read aborts with the state unchanged. The ledger is never touched.
    pub fn tick(
        &mut self,
        height: u64,
        oracle_rate: Option<Dec>,
        snapshot: LedgerSnapshot,
    ) -> (r: Result<bool, ContractError>)
        requires
            old(self).wf(),
            snapshot.wf(),
        ensures
            final(self).wf(),
            final(self).config == old(self).config,
            final(self).ledger == old(self).ledger,
            // the share moves by at most the configured caps
            r is Ok ==> final(self).engine.share.units <= old(self).engine.share.units
                + old(self).config.max_pos_change.units,
            r is Ok ==> old(self).engine.share.units <= final(self).engine.share.units
                + old(self).config.max_neg_change.units,
            // an updating tick leaves the premium rate inside its hard bounds
            r == Ok::<bool, ContractError>(true) ==> old(self).config.min_rate.units
                <= final(self).engine.premium_rate.units <= old(self).config.max_rate.units,
            match r {
                Ok(updated) => {
                    &&& (tick_spec(old(self).config, old(self).engine, height, oracle_rate, snapshot)
                        == Ok::<EngineState, ContractError>(final(self).engine))
                    &&& updated == (old(self).engine.last_epoch_height
                        + old(self).config.premium_rate_epoch <= height)
                    &&& !updated ==> final(self).engine == old(self).engine
                },
                Err(e) => {
                    &&& (tick_spec(old(self).config, old(self).engine, height, oracle_rate, snapshot)
                        == Err::<EngineState, ContractError>(e))
                    &&& *final(self) == *old(self)
                },
            },
    {
        let updated = height >= self.engine.last_epoch_height
            && height - self.engine.last_epoch_height >= self.config.premium_rate_epoch;
        match tick_compute(&self.config, &self.engine, height, oracle_rate, snapshot) {
            Ok(st) => {
                proof {
                    crate::engine::lemma_tick_bounded(
                        self.config,
                        self.engine,
                        height,
                        oracle_rate,
                        snapshot,
                        st,
                    );
                }
                self.engine = st;
                Ok(updated)
            },
            Err(e) => Err(e),
        }
    }

    /// Owner-only migration: replaces the configuration, validating it as
    /// at instantiation, and preserves the engine state and every position
    /// and claim unchanged.
    pub fn migrate(&mut self, sender: u64, new_config: Config) -> (r: Result<(), ContractError>)
        requires
            old(self).wf(),
        ensures
            final(self).wf(),
            final(self).engine == old(self).engine,
            final(self).ledger == old(self).ledger,
            match r {
                Ok(()) => sender == old(self).config.owner && new_config.wf()
                    && final(self).config == new_config,
                Err(e) => {
                    &&& *final(self) == *old(self)
                    &&& if sender != old(self).config.owner {
                        e == ContractError::Unauthorized
                    } else {
                        !new_config.wf() && e == ContractError::RateOutOfBounds
                    }
                },
            },
    {
        if sender != self.config.owner {
            return Err(ContractError::Unauthorized);
        }
        if !new_config.validate() {
            return Err(ContractError::RateOutOfBounds);
        }
        self.config = new_config;
        Ok(())
    }

    /// The configuration snapshot.
    pub fn query_config(&self) -> (r: &Config)
        ensures
            r == &self.config,
    {
        &self.config
    }

    /// The engine state: premium rate, share, last epoch height.
    pub fn query_state(&self) -> (r: EngineState)
        ensures
            r == self.engine,
    {
        self.engine
    }

    /// The account's derivative token balance; zero for an unknown account.
    pub fn balance_of(&self, account: u64) -> (r: u64)
        requires
            self.wf(),
        ensures
            r as int == {
                let idx = account_index(self.ledger.accounts@, account);
                if idx >= 0 {
                    self.ledger.accounts@[idx].vtoken_balance as int
                } else {
                    0
                }
            },
    {
        match crate::bonding::find_account(&self.ledger.accounts, account) {
            Some(i) => self.ledger.accounts[i].vtoken_balance,
            None => 0,
        }
    }

    /// The account's aggregate contributed principal; zero for an unknown
    /// account.
    pub fn principal_of(&self, account: u64) -> (r: u64)
        requires
            self.wf(),
        ensures
            r as int == {
                let idx = account_index(self.ledger.accounts@, account);
                if idx >= 0 {
                    self.ledger.accounts@[idx].principal as int
                } else {
                    0
                }
            },
    {
        match crate::bonding::find_account(&self.ledger.accounts, account) {
            Some(i) => self.ledger.accounts[i].principal,
            None => 0,
        }
    }

    /// A copy of the account's claim queue, in maturity order; empty for an
    /// unknown account.
    pub fn claims_of(&self, account: u64) -> (r: Vec<UnbondClaim>)
        requires
            self.wf(),
        ensures
            r@ == {
                let idx = account_index(self.ledger.accounts@, account);
                if idx >= 0 {
                    self.ledger.accounts@[idx].claims@
                } else {
                    Seq::<UnbondClaim>::empty()
                }
            },
    {
        let mut out: Vec<UnbondClaim> = Vec::new();
        match crate::bonding::find_account(&self.ledger.accounts, account) {
            Some(i) => {
                let q = &self.ledger.accounts[i].claims;
                let mut j: usize = 0;
                while j < q.len()
                    invariant
                        j <= q@.len(),
                        out@ == q@.take(j as int),
                    decreases q@.len() - j,
                {
                    out.push(q[j]);
                    proof {
                        assert(out@ =~= q@.take(j + 1));
                    }
                    j = j + 1;
                }
                proof {
                    assert(q@.take(q@.len() as int) =~= q@);
                }
            },
            None => {},
        }
        out
    }
}

} // verus!
