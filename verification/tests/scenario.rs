use vterra::bonding::UNBOND_DURATION_SECS;
use vterra::contract::VterraContract;
use vterra::dec::{Dec, SCALE};
use vterra::state::{Config, LedgerSnapshot};

fn base_config() -> Config {
    Config {
        owner: 1,
        market: 2,
        overseer: 3,
        aterra_contract: 4,
        vterra_contract: 5,
        stable_denom: String::from("uusd"),
        target_share: Dec::percent(80),
        max_pos_change: Dec::permille(1),
        max_neg_change: Dec::permille(1),
        max_rate: Dec::from_units(12 * SCALE / 10),
        min_rate: Dec::from_units(101 * SCALE / 100),
        diff_multiplier: Dec::percent(5),
        initial_premium_rate: Dec::from_units(2 * SCALE),
        premium_rate_epoch: 10,
        min_gross_rate: Dec::one(),
    }
}

const USER: u64 = 42;

/// The balance sheet at the ledger's current counters: scaled deposits
/// equal scaled releases plus scaled outstanding claims plus supply valued
/// at the given rate plus the recorded rounding dust.
fn balance_sheet_holds(c: &VterraContract, rate_units: u128) -> bool {
    SCALE * c.ledger.total_deposited as u128
        == SCALE * (c.ledger.total_released as u128 + c.ledger.claims_total as u128)
            + c.ledger.vtoken_supply as u128 * rate_units
            + c.ledger.rounding_dust
}

#[test]
fn end_to_end_bond_tick_unbond_claim() {
    let mut c = VterraContract::instantiate(base_config(), 0).unwrap();

    // bond 100 units at the initial premium rate of 2.0
    let minted = c.bond(USER, 100).unwrap();
    assert_eq!(minted, 50);

    // one epoch later, with the oracle rate unchanged at 1.0 and the ledger
    // balanced at the target share, the share moves by at most the capped
    // delta (here: not at all) and the rate is clamped into its bounds
    let snap = LedgerSnapshot { bonded_value: 80, total_value: 100 };
    let updated = c.tick(10, Some(Dec::one()), snap).unwrap();
    assert!(updated);
    assert_eq!(c.engine.share.units, 0);
    assert_eq!(c.engine.premium_rate.units, 12 * SCALE / 10);

    // unbond everything at the rate now in force: 50 * 1.2 = 60 owed
    let receipt = c.unbond(USER, 50, 1000).unwrap();
    assert_eq!(receipt.amount, 60);
    assert_eq!(c.balance_of(USER), 0);

    // a later rate movement must not reprice the frozen claim
    let snap2 = LedgerSnapshot { bonded_value: 0, total_value: 100 };
    c.tick(20, Some(Dec::one()), snap2).unwrap();
    assert_eq!(c.claims_of(USER)[0].amount, 60);

    // past the unbonding delay the whole frozen amount is released
    let released = c.claim(USER, None, 1000 + UNBOND_DURATION_SECS).unwrap();
    assert_eq!(released, 60);
    assert_eq!(c.claims_of(USER), vec![]);
    assert_eq!(c.ledger.working_capital, 40);
    assert_eq!(c.ledger.total_released, 60);
}

#[test]
fn conservation_under_frozen_rate() {
    // the premium rate stays 2.0 throughout: no tick runs
    let mut c = VterraContract::instantiate(base_config(), 0).unwrap();
    let rate: u128 = 2 * SCALE;
    assert!(balance_sheet_holds(&c, rate));

    c.bond(USER, 100).unwrap();
    assert!(balance_sheet_holds(&c, rate));
    assert_eq!(c.ledger.rounding_dust, 0);

    c.bond(7, 31).unwrap();
    assert!(balance_sheet_holds(&c, rate));

    c.unbond(USER, 30, 0).unwrap();
    assert!(balance_sheet_holds(&c, rate));

    c.claim(USER, Some(25), UNBOND_DURATION_SECS).unwrap();
    assert!(balance_sheet_holds(&c, rate));

    c.claim(USER, None, UNBOND_DURATION_SECS).unwrap();
    assert!(balance_sheet_holds(&c, rate));

    // deposits split exactly into releases and held capital
    assert_eq!(
        c.ledger.total_deposited,
        c.ledger.total_released + c.ledger.working_capital
    );
}

#[test]
fn rounding_dust_is_recorded_exactly() {
    let mut cfg = base_config();
    cfg.initial_premium_rate = Dec::from_units(3 * SCALE);
    let mut c = VterraContract::instantiate(cfg, 0).unwrap();
    let rate: u128 = 3 * SCALE;

    // 100 / 3 leaves a third of a unit as dust
    assert_eq!(c.bond(USER, 100).unwrap(), 33);
    assert_eq!(c.ledger.rounding_dust, 100 * SCALE - 33 * rate);
    assert!(balance_sheet_holds(&c, rate));

    // 33 * 3 is exact: unbonding adds no dust
    assert_eq!(c.unbond(USER, 33, 0).unwrap().amount, 99);
    assert_eq!(c.ledger.rounding_dust, 100 * SCALE - 33 * rate);
    assert!(balance_sheet_holds(&c, rate));

    // releasing is always exact
    assert_eq!(c.claim(USER, None, UNBOND_DURATION_SECS).unwrap(), 99);
    assert!(balance_sheet_holds(&c, rate));
    assert_eq!(c.ledger.working_capital, 1);
}
