use lending_protocol::errors::LendingError;
use lending_protocol::protocol::Protocol;
use lending_protocol::state::{LoanStatus, Pubkey};
use lending_protocol::transfer::BalanceId;

fn pk(b: u8) -> Pubkey {
    Pubkey::new([b; 32])
}

/// A protocol with fee rate 500 bps, the given LTV threshold, a one-day
/// lockup parameter and an oracle fee of 10.
fn initialized(ltv_threshold: u16) -> Protocol {
    let mut p = Protocol::new();
    let r = p.initialize(pk(1), 500, ltv_threshold, 86400, pk(2), 10);
    assert!(r.is_ok());
    p
}

#[test]
fn initialize_stores_valid_params() {
    let p = initialized(7000);
    let g = p.global.expect("singleton created");
    assert_eq!(g.admin, pk(1));
    assert_eq!(g.treasury, pk(1), "treasury defaults to the admin");
    assert_eq!(g.oracle, pk(2));
    assert_eq!(g.protocol_fee_rate, 500);
    assert_eq!(g.ltv_threshold, 7000);
    assert_eq!(g.min_stake_duration, 86400);
    assert_eq!(g.oracle_fee, 10);
    assert_eq!(g.total_staked, 0);
    assert_eq!(g.total_loans, 0);
}

#[test]
fn initialize_rejects_bad_params() {
    // each violation alone is rejected and creates nothing
    let cases: Vec<(u16, u16, i64, u64)> = vec![
        (1000, 7000, 86400, 10), // fee rate too high
        (500, 0, 86400, 10),     // ltv threshold zero
        (500, 10000, 86400, 10), // ltv threshold too high
        (500, 7000, 0, 10),      // no stake duration
        (500, 7000, -5, 10),     // negative stake duration
        (500, 7000, 86400, 0),   // no oracle fee
    ];
    for (fee_rate, ltv, duration, oracle_fee) in cases {
        let mut p = Protocol::new();
        let r = p.initialize(pk(1), fee_rate, ltv, duration, pk(2), oracle_fee);
        assert_eq!(r, Err(LendingError::InvalidProtocolParams));
        assert!(p.global.is_none(), "no record may be created");
    }
}

#[test]
fn stake_accumulates_per_user_and_in_total() {
    let mut p = initialized(7000);
    let cmds = p.stake(pk(5), 300, 50);
    assert_eq!(cmds.len(), 1);
    assert!(matches!(cmds[0].from, BalanceId::User(k) if k == pk(5)));
    assert!(matches!(cmds[0].to, BalanceId::StakingVault));
    assert_eq!(cmds[0].amount, 300);
    p.stake(pk(5), 700, 60);
    p.stake(pk(6), 500, 70);
    assert_eq!(p.users.len(), 2);
    assert_eq!(p.users[0].wallet, pk(5));
    assert_eq!(p.users[0].staked_amount, 1000, "same user's stakes sum");
    assert_eq!(p.users[1].staked_amount, 500);
    assert_eq!(p.global.unwrap().total_staked, 1500, "total sums across users");
}

#[test]
fn stake_sets_start_time_on_first_stake_only() {
    let mut p = initialized(7000);
    p.stake(pk(5), 300, 50);
    assert_eq!(p.users[0].stake_start_time, 50);
    p.stake(pk(5), 1, 90);
    assert_eq!(p.users[0].stake_start_time, 50);
}

#[test]
fn request_loan_mid_tier_limits_and_rate() {
    // a score of 60 lends up to the full stake at 10%
    let mut p = initialized(7000);
    p.stake(pk(5), 1000, 50);
    let over = p.request_loan(pk(5), 1001, 60, true, 55);
    assert_eq!(over.unwrap_err(), LendingError::LoanExceedsCollateral);
    assert_eq!(p.loans.len(), 0, "a rejected request creates nothing");

    let cmds = p.request_loan(pk(5), 1000, 60, true, 55).expect("within the limit");
    assert_eq!(cmds.len(), 2);
    assert!(matches!(cmds[0].from, BalanceId::User(k) if k == pk(5)));
    assert!(matches!(cmds[0].to, BalanceId::Treasury));
    assert_eq!(cmds[0].amount, 10, "the oracle fee moves first");
    assert!(matches!(cmds[1].from, BalanceId::LendingPool));
    assert!(matches!(cmds[1].to, BalanceId::User(k) if k == pk(5)));
    assert_eq!(cmds[1].amount, 1000);

    assert_eq!(p.loans.len(), 1);
    let loan = &p.loans[0];
    assert_eq!(loan.borrower, pk(5));
    assert_eq!(loan.amount, 1000);
    assert_eq!(loan.collateral, 1000);
    assert_eq!(loan.start_time, 55);
    assert_eq!(loan.interest_rate, 1000);
    assert_eq!(loan.ltv_threshold, 7000);
    assert_eq!(loan.status, LoanStatus::Active);
    assert_eq!(p.users[0].active_loans, vec![0]);
    assert_eq!(p.users[0].credit_score, 60);
    assert_eq!(p.global.unwrap().total_loans, 1);
}

#[test]
fn request_loan_rejects_invalid_credit_score() {
    let mut p = initialized(7000);
    p.stake(pk(5), 1000, 50);
    let r = p.request_loan(pk(5), 1, 101, true, 55);
    assert_eq!(r.unwrap_err(), LendingError::InvalidCreditScore);
    // the whole operation aborts: no record changes and no transfers, so
    // the oracle fee does not move
    assert_eq!(p.loans.len(), 0);
    assert_eq!(p.users[0].active_loans.len(), 0);
    assert_eq!(p.users[0].credit_score, 0);
    assert_eq!(p.global.unwrap().total_loans, 0);
}

#[test]
fn request_loan_checks_signature_before_score() {
    let mut p = initialized(7000);
    p.stake(pk(5), 1000, 50);
    let r = p.request_loan(pk(5), 1, 101, false, 55);
    assert_eq!(r.unwrap_err(), LendingError::InvalidOracleSignature);
}

#[test]
fn request_loan_requires_a_user_record() {
    let mut p = initialized(7000);
    let r = p.request_loan(pk(5), 0, 60, true, 55);
    assert_eq!(r.unwrap_err(), LendingError::Unauthorized);
}

#[test]
fn request_loan_top_and_bottom_tiers() {
    let mut p = initialized(7000);
    p.stake(pk(5), 1000, 50);
    p.stake(pk(6), 1000, 50);
    // a score of 50 lends up to half the stake at 15%
    let r = p.request_loan(pk(5), 501, 50, true, 55);
    assert_eq!(r.unwrap_err(), LendingError::LoanExceedsCollateral);
    p.request_loan(pk(5), 500, 50, true, 55).expect("half the stake");
    assert_eq!(p.loans[0].interest_rate, 1500);
    // a score of 76 lends up to twice the stake at 5%
    let r = p.request_loan(pk(6), 2001, 76, true, 55);
    assert_eq!(r.unwrap_err(), LendingError::LoanExceedsCollateral);
    p.request_loan(pk(6), 2000, 76, true, 55).expect("twice the stake");
    assert_eq!(p.loans[1].interest_rate, 500);
    assert_eq!(p.global.unwrap().total_loans, 2);
}

/// Stake 1000, borrow 700 at a score of 80: the loan carries a 5% rate and
/// snapshots collateral 1000 and the threshold given at initialization.
fn with_sample_loan(ltv_threshold: u16) -> Protocol {
    let mut p = initialized(ltv_threshold);
    p.stake(pk(5), 1000, 50);
    p.request_loan(pk(5), 700, 80, true, 55).expect("within the limit");
    p
}

#[test]
fn liquidate_seizes_half_the_collateral() {
    // loan value 700 + 700 * 500 / 10000 = 735; ltv 7350 > 7000, not overdue
    let mut p = with_sample_loan(7000);
    let cmds = p.liquidate(pk(9), pk(5), 0, 56).expect("threshold breached");
    assert_eq!(cmds.len(), 1);
    assert!(matches!(cmds[0].from, BalanceId::StakingVault));
    assert!(matches!(cmds[0].to, BalanceId::User(k) if k == pk(9)));
    assert_eq!(cmds[0].amount, 500, "half of the 1000 collateral");
    assert_eq!(p.loans[0].status, LoanStatus::Liquidated);
    assert_eq!(p.users[0].active_loans.len(), 0, "the loan leaves the open list");
    assert_eq!(p.global.unwrap().total_staked, 500, "total reduced by the seizure");
    assert_eq!(p.users[0].staked_amount, 1000, "the user record keeps its stake");
}

#[test]
fn liquidate_leaves_a_healthy_loan_alone() {
    // ltv 7350 stays at or below a threshold of 7350, and the loan is young
    let mut p = with_sample_loan(7350);
    let r = p.liquidate(pk(9), pk(5), 0, 56);
    assert_eq!(r.unwrap_err(), LendingError::LoanNotLiquidatable);
    assert_eq!(p.loans[0].status, LoanStatus::Active);
    assert_eq!(p.users[0].active_loans, vec![0]);
    assert_eq!(p.global.unwrap().total_staked, 1000);
}

#[test]
fn liquidate_overdue_loan_regardless_of_ltv() {
    let mut p = with_sample_loan(7350);
    let overdue_at = 55 + 90 * 24 * 60 * 60 + 1;
    let cmds = p.liquidate(pk(9), pk(5), 0, overdue_at).expect("overdue");
    assert_eq!(cmds[0].amount, 500);
    assert_eq!(p.loans[0].status, LoanStatus::Liquidated);
}

#[test]
fn liquidate_twice_fails_without_second_transfer() {
    let mut p = with_sample_loan(7000);
    p.liquidate(pk(9), pk(5), 0, 56).expect("first seizure");
    let again = p.liquidate(pk(9), pk(5), 0, 57);
    assert_eq!(again.unwrap_err(), LendingError::LoanNotLiquidatable);
    assert_eq!(p.global.unwrap().total_staked, 500, "no second reduction");
}

#[test]
fn liquidate_checks_record_bindings() {
    let mut p = with_sample_loan(7000);
    p.stake(pk(6), 50, 50);
    // a loan identifier that does not exist
    let r = p.liquidate(pk(9), pk(5), 7, 56);
    assert_eq!(r.unwrap_err(), LendingError::Unauthorized);
    // a wallet that does not own the named loan
    let r = p.liquidate(pk(9), pk(6), 0, 56);
    assert_eq!(r.unwrap_err(), LendingError::Unauthorized);
    // a wallet without a user record
    let r = p.liquidate(pk(9), pk(7), 0, 56);
    assert_eq!(r.unwrap_err(), LendingError::Unauthorized);
}

#[test]
fn liquidation_never_exceeds_the_running_total() {
    let mut p = with_sample_loan(7000);
    let before = p.global.unwrap().total_staked;
    let seizure = p.loans[0].collateral / 2;
    assert!(seizure <= before, "the seizure fits in the total");
    p.liquidate(pk(9), pk(5), 0, 56).expect("threshold breached");
    assert_eq!(p.global.unwrap().total_staked, before - seizure);
}
