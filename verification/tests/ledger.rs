use vterra::bonding::{UnbondClaim, UNBOND_DURATION_SECS};
use vterra::contract::VterraContract;
use vterra::dec::{Dec, SCALE};
use vterra::error::ContractError;
use vterra::state::{Config, LedgerSnapshot};

fn config_with_rate(initial_rate_units: u128) -> Config {
    Config {
        owner: 1,
        market: 2,
        overseer: 3,
        aterra_contract: 4,
        vterra_contract: 5,
        stable_denom: String::from("uusd"),
        target_share: Dec::percent(80),
        max_pos_change: Dec::permille(1),
        max_neg_change: Dec::permille(1),
        max_rate: Dec::from_units(12 * SCALE / 10),
        min_rate: Dec::from_units(101 * SCALE / 100),
        diff_multiplier: Dec::percent(5),
        initial_premium_rate: Dec::from_units(initial_rate_units),
        premium_rate_epoch: 10,
        min_gross_rate: Dec::one(),
    }
}

const USER: u64 = 42;

#[test]
fn bond_mints_at_current_rate() {
    let mut c = VterraContract::instantiate(config_with_rate(2 * SCALE), 0).unwrap();
    let minted = c.bond(USER, 100).unwrap();
    assert_eq!(minted, 50);
    assert_eq!(c.balance_of(USER), 50);
    assert_eq!(c.principal_of(USER), 100);
    assert_eq!(c.ledger.vtoken_supply, 50);
    assert_eq!(c.ledger.working_capital, 100);
    assert_eq!(c.ledger.total_deposited, 100);
}

#[test]
fn bond_rounds_down() {
    let mut c = VterraContract::instantiate(config_with_rate(3 * SCALE), 0).unwrap();
    let minted = c.bond(USER, 100).unwrap();
    assert_eq!(minted, 33);
    // the third of a unit that rounding held back stays as dust
    assert_eq!(c.ledger.rounding_dust, 100 * SCALE - 33 * (3 * SCALE));
}

#[test]
fn bond_zero_is_invalid() {
    let mut c = VterraContract::instantiate(config_with_rate(2 * SCALE), 0).unwrap();
    assert_eq!(c.bond(USER, 0), Err(ContractError::InvalidAmount));
    assert_eq!(c.ledger.total_deposited, 0);
}

#[test]
fn bond_fails_below_gross_rate_floor() {
    // premium rate 1.2 is below the configured floor of 1.5
    let mut cfg = config_with_rate(12 * SCALE / 10);
    cfg.min_gross_rate = Dec::from_units(15 * SCALE / 10);
    let mut c = VterraContract::instantiate(cfg, 0).unwrap();
    assert_eq!(c.bond(USER, 1), Err(ContractError::RateTooLow));
    assert_eq!(c.bond(USER, 100), Err(ContractError::RateTooLow));
    assert_eq!(c.bond(USER, u64::MAX), Err(ContractError::RateTooLow));
    // nothing changed
    assert_eq!(c.ledger.total_deposited, 0);
    assert_eq!(c.balance_of(USER), 0);
}

#[test]
fn unbond_requires_balance() {
    let mut c = VterraContract::instantiate(config_with_rate(2 * SCALE), 0).unwrap();
    assert_eq!(c.unbond(USER, 10, 0).map(|r| r.amount), Err(ContractError::InsufficientBalance));
    c.bond(USER, 100).unwrap();
    assert_eq!(c.unbond(USER, 51, 0).map(|r| r.amount), Err(ContractError::InsufficientBalance));
    // the quantity must be positive and within the balance; outside that
    // range the unbond fails with the same balance error
    assert_eq!(c.unbond(USER, 0, 0).map(|r| r.amount), Err(ContractError::InsufficientBalance));
    assert_eq!(c.balance_of(USER), 50);
}

#[test]
fn unbond_fixes_owed_amount_and_maturity() {
    let mut c = VterraContract::instantiate(config_with_rate(2 * SCALE), 0).unwrap();
    c.bond(USER, 100).unwrap();
    let receipt = c.unbond(USER, 20, 1000).unwrap();
    assert_eq!(receipt.amount, 40);
    assert_eq!(receipt.maturity_time, 1000 + UNBOND_DURATION_SECS);
    assert_eq!(c.balance_of(USER), 30);
    assert_eq!(c.ledger.vtoken_supply, 30);
    assert_eq!(c.ledger.claims_total, 40);
    assert_eq!(
        c.claims_of(USER),
        vec![UnbondClaim { amount: 40, maturity_time: 1000 + UNBOND_DURATION_SECS }]
    );
}

#[test]
fn claim_before_maturity_fails() {
    let mut c = VterraContract::instantiate(config_with_rate(2 * SCALE), 0).unwrap();
    c.bond(USER, 100).unwrap();
    c.unbond(USER, 20, 1000).unwrap();
    assert_eq!(c.claim(USER, None, 1000), Err(ContractError::NothingToClaim));
    assert_eq!(
        c.claim(USER, None, 1000 + UNBOND_DURATION_SECS - 1),
        Err(ContractError::NothingToClaim)
    );
    // an account with no claims at all
    assert_eq!(c.claim(7, None, u64::MAX), Err(ContractError::NothingToClaim));
}

#[test]
fn claim_all_releases_and_destroys_empty_position() {
    let mut c = VterraContract::instantiate(config_with_rate(2 * SCALE), 0).unwrap();
    c.bond(USER, 100).unwrap();
    c.unbond(USER, 50, 1000).unwrap();
    let released = c.claim(USER, None, 1000 + UNBOND_DURATION_SECS).unwrap();
    assert_eq!(released, 100);
    assert_eq!(c.balance_of(USER), 0);
    assert_eq!(c.claims_of(USER), vec![]);
    assert_eq!(c.ledger.claims_total, 0);
    assert_eq!(c.ledger.working_capital, 0);
    assert_eq!(c.ledger.total_released, 100);
    // the emptied record is gone
    assert_eq!(c.ledger.accounts.len(), 0);
}

#[test]
fn claim_zero_is_invalid() {
    let mut c = VterraContract::instantiate(config_with_rate(2 * SCALE), 0).unwrap();
    c.bond(USER, 100).unwrap();
    c.unbond(USER, 20, 0).unwrap();
    assert_eq!(c.claim(USER, Some(0), UNBOND_DURATION_SECS), Err(ContractError::InvalidAmount));
}

#[test]
fn claim_consumes_oldest_first() {
    let mut c = VterraContract::instantiate(config_with_rate(2 * SCALE), 0).unwrap();
    c.bond(USER, 100).unwrap();
    // three claims with maturities d, d + 100, d + 200
    let d = UNBOND_DURATION_SECS;
    assert_eq!(c.unbond(USER, 10, 0).unwrap().amount, 20);
    assert_eq!(c.unbond(USER, 15, 100).unwrap().amount, 30);
    assert_eq!(c.unbond(USER, 5, 200).unwrap().amount, 10);

    // at d + 150 the first two claims (20 + 30) have matured
    assert_eq!(c.claim(USER, Some(51), d + 150), Err(ContractError::ClaimExceedsMatured));

    // 35 spans the first claim and part of the second: the first goes
    // entirely, the second is reduced, the third is untouched
    assert_eq!(c.claim(USER, Some(35), d + 150).unwrap(), 35);
    assert_eq!(
        c.claims_of(USER),
        vec![
            UnbondClaim { amount: 15, maturity_time: d + 100 },
            UnbondClaim { amount: 10, maturity_time: d + 200 },
        ]
    );
    assert_eq!(c.ledger.claims_total, 25);
}

#[test]
fn claims_with_equal_maturity_keep_creation_order() {
    let mut c = VterraContract::instantiate(config_with_rate(2 * SCALE), 0).unwrap();
    c.bond(USER, 100).unwrap();
    assert_eq!(c.unbond(USER, 10, 500).unwrap().amount, 20);
    assert_eq!(c.unbond(USER, 20, 500).unwrap().amount, 40);
    let d = 500 + UNBOND_DURATION_SECS;
    // releasing exactly the first claim's amount consumes the claim created
    // first, not the larger one created second
    assert_eq!(c.claim(USER, Some(20), d).unwrap(), 20);
    assert_eq!(c.claims_of(USER), vec![UnbondClaim { amount: 40, maturity_time: d }]);
}

#[test]
fn unbond_is_not_gated_by_the_bonding_floor() {
    // bonding is allowed at the initial rate 2.0 with a floor of 1.5
    let mut cfg = config_with_rate(2 * SCALE);
    cfg.min_gross_rate = Dec::from_units(15 * SCALE / 10);
    let mut c = VterraContract::instantiate(cfg, 0).unwrap();
    c.bond(USER, 100).unwrap();
    // an epoch tick clamps the rate to max_rate = 1.2, under the floor
    let snap = LedgerSnapshot { bonded_value: 80, total_value: 100 };
    c.tick(10, Some(Dec::one()), snap).unwrap();
    assert_eq!(c.engine.premium_rate.units, 12 * SCALE / 10);
    // bonding is now disabled, but unbonding still works at 1.2
    assert_eq!(c.bond(USER, 10), Err(ContractError::RateTooLow));
    assert_eq!(c.unbond(USER, 10, 0).unwrap().amount, 12);
}

#[test]
fn unbond_rounding_to_zero_is_invalid() {
    // premium rate 0.5, with the gross-rate floor lowered to allow bonding
    let mut cfg = config_with_rate(SCALE / 2);
    cfg.min_gross_rate = Dec::from_units(SCALE / 10);
    let mut c = VterraContract::instantiate(cfg, 0).unwrap();
    assert_eq!(c.bond(USER, 3).unwrap(), 6);
    // one unit at rate 0.5 rounds down to an owed amount of zero
    assert_eq!(c.unbond(USER, 1, 0).map(|r| r.amount), Err(ContractError::InvalidAmount));
    assert_eq!(c.unbond(USER, 2, 0).unwrap().amount, 1);
}

#[test]
fn bond_overflowing_totals_is_invalid() {
    let mut c = VterraContract::instantiate(config_with_rate(2 * SCALE), 0).unwrap();
    c.bond(USER, u64::MAX).unwrap();
    assert_eq!(c.bond(7, 1), Err(ContractError::InvalidAmount));
    assert_eq!(c.ledger.total_deposited, u64::MAX);
}

#[test]
fn claims_are_isolated_per_account() {
    let mut c = VterraContract::instantiate(config_with_rate(2 * SCALE), 0).unwrap();
    c.bond(USER, 100).unwrap();
    c.bond(7, 60).unwrap();
    c.unbond(USER, 10, 0).unwrap();
    let d = UNBOND_DURATION_SECS;
    // the other account has nothing to claim, and claiming for one account
    // leaves the other's position alone
    assert_eq!(c.claim(7, None, d), Err(ContractError::NothingToClaim));
    c.claim(USER, None, d).unwrap();
    assert_eq!(c.balance_of(7), 30);
    assert_eq!(c.principal_of(7), 60);
}
