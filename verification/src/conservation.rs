//! Value conservation across bond/unbond/claim sequences.
//!
//! This module gives the bonding ledger's aggregate accounting as an exact
//! mathematical transition system over unbounded integers, and proves that
//! any sequence of bond, unbond and claim steps at a frozen premium rate
//! keeps the balance sheet: every deposited unit of the base asset is
//! either already released, owed by an outstanding claim, represented by
//! outstanding derivative supply at the frozen rate, or retained as
//! non-negative floor-rounding dust. The executable ledger operations state
//! in their contracts that they take exactly these steps.

use vstd::prelude::*;
use vstd::arithmetic::div_mod::lemma_fundamental_div_mod;
use vstd::arithmetic::mul::{
    lemma_mul_is_distributive_add_other_way, lemma_mul_is_distributive_sub_other_way,
    lemma_mul_nonnegative,
};
use crate::dec::SCALE;

verus! {

/// Aggregate accounting of the bonding ledger, in exact integers.
pub struct Accounting {
    /// Total base-asset principal ever bonded.
    pub deposited: int,
    /// Total base asset ever released by claims.
    pub released: int,
    /// Base asset currently held by the engine.
    pub working_capital: int,
    /// Derivative token units outstanding.
    pub vtoken_supply: int,
    /// Sum of unbonding claim amounts not yet released.
    pub claims_outstanding: int,
    /// Scaled value retained by floor rounding, accumulated per step.
    pub rounding_dust: int,
}

/// One user-driven step of the bonding ledger.
pub enum Action {
    /// Lock `principal` of the base asset, minting derivative units at the
    /// frozen rate, rounded down.
    Bond { principal: int },
    /// Burn `vtokens` derivative units, enqueueing a claim for their value
    /// at the frozen rate, rounded down.
    Unbond { vtokens: int },
    /// Release `amount` of the base asset from matured claims.
    Claim { amount: int },
}

/// The accounting of a freshly instantiated engine.
pub open spec fn empty_accounting() -> Accounting {
    Accounting {
        deposited: 0,
        released: 0,
        working_capital: 0,
        vtoken_supply: 0,
        claims_outstanding: 0,
        rounding_dust: 0,
    }
}

/// Applies one step at the frozen rate `rate` (in fixed-point units);
/// `None` when the step's own guard fails (a non-positive quantity, an
/// unbond beyond the outstanding supply, a claim beyond the outstanding
/// claims or the held capital).
pub open spec fn apply_action(a: Accounting, rate: int, act: Action) -> Option<Accounting> {
    match act {
        Action::Bond { principal } => {
            if principal < 1 {
                None
            } else {
                let minted = (principal * SCALE) / rate;
                Some(
                    Accounting {
                        deposited: a.deposited + principal,
                        working_capital: a.working_capital + principal,
                        vtoken_supply: a.vtoken_supply + minted,
                        rounding_dust: a.rounding_dust + (principal * SCALE - minted * rate),
                        ..a
                    },
                )
            }
        },
        Action::Unbond { vtokens } => {
            if vtokens < 1 || vtokens > a.vtoken_supply {
                None
            } else {
                let owed = (vtokens * rate) / (SCALE as int);
                if owed < 1 {
                    None
                } else {
                    Some(
                        Accounting {
                            vtoken_supply: a.vtoken_supply - vtokens,
                            claims_outstanding: a.claims_outstanding + owed,
                            rounding_dust: a.rounding_dust + (vtokens * rate - owed * SCALE),
                            ..a
                        },
                    )
                }
            }
        },
        Action::Claim { amount } => {
            if amount < 1 || amount > a.claims_outstanding || amount > a.working_capital {
                None
            } else {
                Some(
                    Accounting {
                        released: a.released + amount,
                        working_capital: a.working_capital - amount,
                        claims_outstanding: a.claims_outstanding - amount,
                        ..a
                    },
                )
            }
        },
    }
}

/// Applies a sequence of steps in order; `None` as soon as one fails.
pub open spec fn run_actions(a: Accounting, rate: int, acts: Seq<Action>) -> Option<Accounting>
    decreases acts.len(),
{
    if acts.len() == 0 {
        Some(a)
    } else {
        match apply_action(a, rate, acts[0]) {
            None => None,
            Some(b) => run_actions(b, rate, acts.drop_first()),
        }
    }
}

/// Whether a step's floor division is exact, so that it retains no dust: a
/// claim always is; a bond is when the rate divides the scaled principal; an
/// unbond is when the scale divides the claim's value.
pub open spec fn step_exact(rate: int, act: Action) -> bool {
    match act {
        Action::Bond { principal } => (principal * SCALE) % rate == 0,
        Action::Unbond { vtokens } => (vtokens * rate) % (SCALE as int) == 0,
        Action::Claim { amount } => true,
    }
}

/// Whether every step of a run divides exactly.
pub open spec fn run_exact(a: Accounting, rate: int, acts: Seq<Action>) -> bool
    decreases acts.len(),
{
    if acts.len() == 0 {
        true
    } else {
        step_exact(rate, acts[0]) && match apply_action(a, rate, acts[0]) {
            None => true,
            Some(b) => run_exact(b, rate, acts.drop_first()),
        }
    }
}

/// An exact run retains no dust.
pub proof fn lemma_exact_run_no_dust(a: Accounting, rate: int, acts: Seq<Action>, b: Accounting)
    requires
        0 < rate,
        run_actions(a, rate, acts) == Some(b),
        run_exact(a, rate, acts),
    ensures
        b.rounding_dust == a.rounding_dust,
    decreases acts.len(),
{
    if acts.len() != 0 {
        let mid = apply_action(a, rate, acts[0])->Some_0;
        match acts[0] {
            Action::Bond { principal } => {
                lemma_fundamental_div_mod(principal * SCALE, rate);
            },
            Action::Unbond { vtokens } => {
                lemma_fundamental_div_mod(vtokens * rate, SCALE as int);
            },
            Action::Claim { amount } => {},
        }
        lemma_exact_run_no_dust(mid, rate, acts.drop_first(), b);
    }
}

/// The balance sheet at the frozen rate `rate`: deposits split exactly into
/// released funds, outstanding claims, outstanding derivative supply valued
/// at the rate, and non-negative rounding dust; and the base asset held
/// equals deposits not yet released.
pub open spec fn conserved(a: Accounting, rate: int) -> bool {
    &&& SCALE * a.deposited == SCALE * a.released + SCALE * a.claims_outstanding
        + a.vtoken_supply * rate + a.rounding_dust
    &&& a.deposited == a.released + a.working_capital
    &&& 0 <= a.rounding_dust
    &&& 0 <= a.vtoken_supply
    &&& 0 <= a.claims_outstanding
    &&& 0 <= a.released
    &&& 0 <= a.working_capital
}

/// On a conserved balance sheet the held capital covers every outstanding
/// claim: so long as the rate is frozen, a claim within the matured amount
/// is always payable.
pub proof fn lemma_claims_always_covered(a: Accounting, rate: int)
    requires
        0 < rate,
        conserved(a, rate),
    ensures
        a.claims_outstanding <= a.working_capital,
{
    lemma_mul_nonnegative(a.vtoken_supply, rate);
    assert(SCALE * a.working_capital >= SCALE * a.claims_outstanding);
    assert(a.claims_outstanding <= a.working_capital) by (nonlinear_arith)
        requires
            SCALE * a.working_capital >= SCALE * a.claims_outstanding,
    ;
}

/// One step keeps the balance sheet, and adds no dust when its floor
/// division is exact.
pub proof fn lemma_action_conserves(a: Accounting, rate: int, act: Action, b: Accounting)
    requires
        0 < rate,
        conserved(a, rate),
        apply_action(a, rate, act) == Some(b),
    ensures
        conserved(b, rate),
        act matches Action::Bond { principal }
            ==> b.rounding_dust - a.rounding_dust == (principal * SCALE) % rate,
        act matches Action::Unbond { vtokens }
            ==> b.rounding_dust - a.rounding_dust == (vtokens * rate) % (SCALE as int),
        act matches Action::Claim { amount } ==> b.rounding_dust == a.rounding_dust,
{
    match act {
        Action::Bond { principal } => {
            let minted = (principal * SCALE) / rate;
            lemma_fundamental_div_mod(principal * SCALE, rate);
            lemma_mul_nonnegative(principal, SCALE as int);
            lemma_mul_is_distributive_add_other_way(rate, a.vtoken_supply, minted);
        },
        Action::Unbond { vtokens } => {
            let owed = (vtokens * rate) / (SCALE as int);
            lemma_fundamental_div_mod(vtokens * rate, SCALE as int);
            lemma_mul_nonnegative(vtokens, rate);
            lemma_mul_is_distributive_sub_other_way(rate, a.vtoken_supply, vtokens);
        },
        Action::Claim { amount } => {},
    }
}

/// A run of steps keeps the balance sheet.
pub proof fn lemma_run_conserves(a: Accounting, rate: int, acts: Seq<Action>, b: Accounting)
    requires
        0 < rate,
        conserved(a, rate),
        run_actions(a, rate, acts) == Some(b),
    ensures
        conserved(b, rate),
    decreases acts.len(),
{
    if acts.len() != 0 {
        let mid = apply_action(a, rate, acts[0])->Some_0;
        lemma_action_conserves(a, rate, acts[0], mid);
        lemma_run_conserves(mid, rate, acts.drop_first(), b);
    }
}

/// Law: conservation. For every sequence of bond/unbond/claim steps at a
/// frozen premium rate, starting from an empty ledger, the sum of principal
/// deposited equals the base asset released, plus the outstanding claim
/// amounts, plus the residual bonded value at the frozen rate, plus a
/// non-negative floor-rounding remainder (zero whenever every step's
/// division was exact); and the capital still held covers the outstanding
/// claims and the residual bonded value.
pub proof fn lemma_conservation(rate: int, acts: Seq<Action>, a: Accounting)
    requires
        0 < rate,
        run_actions(empty_accounting(), rate, acts) == Some(a),
    ensures
        SCALE * a.deposited == SCALE * (a.released + a.claims_outstanding)
            + a.vtoken_supply * rate + a.rounding_dust,
        0 <= a.rounding_dust,
        a.deposited == a.released + a.working_capital,
        SCALE * a.working_capital >= SCALE * a.claims_outstanding + a.vtoken_supply * rate,
        run_exact(empty_accounting(), rate, acts) ==> a.rounding_dust == 0,
{
    lemma_run_conserves(empty_accounting(), rate, acts, a);
    if run_exact(empty_accounting(), rate, acts) {
        lemma_exact_run_no_dust(empty_accounting(), rate, acts, a);
    }
}

} // verus!
