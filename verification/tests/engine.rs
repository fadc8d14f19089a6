use vterra::contract::VterraContract;
use vterra::dec::{Dec, SCALE};
use vterra::error::ContractError;
use vterra::state::{Config, LedgerSnapshot};

fn base_config() -> Config {
    Config {
        owner: 1,
        market: 2,
        overseer: 3,
        aterra_contract: 4,
        vterra_contract: 5,
        stable_denom: String::from("uusd"),
        target_share: Dec::percent(80),
        max_pos_change: Dec::permille(1),
        max_neg_change: Dec::permille(1),
        max_rate: Dec::from_units(12 * SCALE / 10),
        min_rate: Dec::from_units(101 * SCALE / 100),
        diff_multiplier: Dec::percent(5),
        initial_premium_rate: Dec::from_units(2 * SCALE),
        premium_rate_epoch: 10,
        min_gross_rate: Dec::one(),
    }
}

#[test]
fn percent_and_permille_units() {
    assert_eq!(Dec::percent(80).units, 80 * (SCALE / 100));
    assert_eq!(Dec::permille(1).units, SCALE / 1000);
    assert_eq!(Dec::one().units, SCALE);
    assert_eq!(Dec::zero().units, 0);
}

#[test]
fn instantiate_sets_initial_state() {
    let c = VterraContract::instantiate(base_config(), 7).unwrap();
    assert_eq!(c.engine.premium_rate.units, 2 * SCALE);
    assert_eq!(c.engine.share.units, 0);
    assert_eq!(c.engine.last_epoch_height, 7);
    assert_eq!(c.ledger.total_deposited, 0);
}

#[test]
fn instantiate_rejects_bad_config() {
    let mut cfg = base_config();
    cfg.min_rate = Dec::from_units(2 * SCALE);
    cfg.max_rate = Dec::from_units(SCALE);
    match VterraContract::instantiate(cfg, 0) {
        Err(e) => assert_eq!(e, ContractError::RateOutOfBounds),
        Ok(_) => panic!("config with min_rate above max_rate must be rejected"),
    }

    let mut cfg = base_config();
    cfg.target_share = Dec::zero();
    match VterraContract::instantiate(cfg, 0) {
        Err(e) => assert_eq!(e, ContractError::RateOutOfBounds),
        Ok(_) => panic!("zero target share must be rejected"),
    }

    let mut cfg = base_config();
    cfg.premium_rate_epoch = 0;
    match VterraContract::instantiate(cfg, 0) {
        Err(e) => assert_eq!(e, ContractError::RateOutOfBounds),
        Ok(_) => panic!("zero epoch length must be rejected"),
    }
}

#[test]
fn tick_is_noop_within_epoch_window() {
    let mut c = VterraContract::instantiate(base_config(), 0).unwrap();
    let snap = LedgerSnapshot { bonded_value: 80, total_value: 100 };
    let updated = c.tick(5, Some(Dec::one()), snap).unwrap();
    assert!(!updated);
    assert_eq!(c.engine.premium_rate.units, 2 * SCALE);
    assert_eq!(c.engine.last_epoch_height, 0);
}

#[test]
fn tick_at_stale_height_is_noop() {
    let mut c = VterraContract::instantiate(base_config(), 100).unwrap();
    let snap = LedgerSnapshot { bonded_value: 80, total_value: 100 };
    let updated = c.tick(50, Some(Dec::one()), snap).unwrap();
    assert!(!updated);
    assert_eq!(c.engine.premium_rate.units, 2 * SCALE);
    assert_eq!(c.engine.last_epoch_height, 100);
}

#[test]
fn tick_rejects_bad_oracle() {
    let mut c = VterraContract::instantiate(base_config(), 0).unwrap();
    let snap = LedgerSnapshot { bonded_value: 80, total_value: 100 };
    assert_eq!(c.tick(10, None, snap), Err(ContractError::OracleUnavailable));
    assert_eq!(c.tick(10, Some(Dec::zero()), snap), Err(ContractError::OracleUnavailable));
    // state untouched by the failed ticks
    assert_eq!(c.engine.premium_rate.units, 2 * SCALE);
    assert_eq!(c.engine.last_epoch_height, 0);
}

#[test]
fn tick_at_target_share_clamps_rate_to_ceiling() {
    let mut c = VterraContract::instantiate(base_config(), 0).unwrap();
    // realized share equals the target: the share metric does not move.
    let snap = LedgerSnapshot { bonded_value: 80, total_value: 100 };
    let updated = c.tick(10, Some(Dec::one()), snap).unwrap();
    assert!(updated);
    assert_eq!(c.engine.share.units, 0);
    // raw rate 1.0 * (1 + 0.8 - 0.0) = 1.8 is clamped to max_rate = 1.2.
    assert_eq!(c.engine.premium_rate.units, 12 * SCALE / 10);
    assert_eq!(c.engine.last_epoch_height, 10);
}

#[test]
fn tick_share_movement_is_capped() {
    let mut c = VterraContract::instantiate(base_config(), 0).unwrap();
    // realized share 1.0, target 0.8: raw adjustment 0.2 * 0.05 = 0.01 is
    // capped at max_pos_change = 0.001.
    let snap = LedgerSnapshot { bonded_value: 100, total_value: 100 };
    let updated = c.tick(10, Some(Dec::one()), snap).unwrap();
    assert!(updated);
    assert_eq!(c.engine.share.units, SCALE / 1000);
}

#[test]
fn tick_share_decrease_is_capped() {
    let mut c = VterraContract::instantiate(base_config(), 0).unwrap();
    // first epoch: realized 1.0 raises the share by the cap, to 0.001
    let all_bonded = LedgerSnapshot { bonded_value: 100, total_value: 100 };
    c.tick(10, Some(Dec::one()), all_bonded).unwrap();
    assert_eq!(c.engine.share.units, SCALE / 1000);
    // second epoch: realized 0.0 gives a raw correction of 0.8 * 0.05 =
    // 0.04, capped at max_neg_change = 0.001
    let none_bonded = LedgerSnapshot { bonded_value: 0, total_value: 100 };
    c.tick(20, Some(Dec::one()), none_bonded).unwrap();
    assert_eq!(c.engine.share.units, 0);
}

#[test]
fn tick_rate_clamped_to_floor() {
    let mut c = VterraContract::instantiate(base_config(), 0).unwrap();
    // oracle rate 0.5: raw rate 0.5 * 1.8 = 0.9 is clamped to min_rate.
    let snap = LedgerSnapshot { bonded_value: 80, total_value: 100 };
    c.tick(10, Some(Dec::from_units(SCALE / 2)), snap).unwrap();
    assert_eq!(c.engine.premium_rate.units, 101 * SCALE / 100);
}

#[test]
fn tick_twice_in_one_window_is_idempotent() {
    let mut c = VterraContract::instantiate(base_config(), 0).unwrap();
    let snap = LedgerSnapshot { bonded_value: 80, total_value: 100 };
    c.tick(10, Some(Dec::one()), snap).unwrap();
    let after_first = c.query_state();
    // a second tick within the same epoch window, even with a different
    // oracle rate and snapshot, changes nothing
    let snap2 = LedgerSnapshot { bonded_value: 0, total_value: 100 };
    let updated = c.tick(15, Some(Dec::from_units(SCALE / 2)), snap2).unwrap();
    assert!(!updated);
    assert_eq!(c.query_state(), after_first);
}

#[test]
fn tick_with_empty_system_counts_zero_share() {
    let mut c = VterraContract::instantiate(base_config(), 0).unwrap();
    let snap = LedgerSnapshot { bonded_value: 0, total_value: 0 };
    let updated = c.tick(10, Some(Dec::one()), snap).unwrap();
    assert!(updated);
    assert_eq!(c.engine.share.units, 0);
}

#[test]
fn migrate_is_owner_only_and_preserves_positions() {
    let mut c = VterraContract::instantiate(base_config(), 0).unwrap();
    c.bond(42, 100).unwrap();

    assert_eq!(c.migrate(9, base_config()), Err(ContractError::Unauthorized));

    let mut bad = base_config();
    bad.min_gross_rate = Dec::zero();
    assert_eq!(c.migrate(1, bad), Err(ContractError::RateOutOfBounds));

    let mut new_cfg = base_config();
    new_cfg.target_share = Dec::percent(60);
    new_cfg.owner = 8;
    c.migrate(1, new_cfg).unwrap();
    assert_eq!(c.query_config().target_share.units, 60 * (SCALE / 100));
    assert_eq!(c.query_config().owner, 8);
    // positions survive the migration bit for bit
    assert_eq!(c.balance_of(42), 50);
    assert_eq!(c.principal_of(42), 100);
}
