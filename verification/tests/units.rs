use lending_protocol::errors::LendingError;
use lending_protocol::oracle::oracle_message;
use lending_protocol::state::{LoanStatus, Pubkey};
use lending_protocol::terms::{
    current_ltv, interest_rate, is_overdue, loan_value, max_loan_amount,
};

#[test]
fn max_loan_tiers_at_their_boundaries() {
    assert_eq!(max_loan_amount(0, 1000), Ok(500));
    assert_eq!(max_loan_amount(50, 1000), Ok(500));
    assert_eq!(max_loan_amount(51, 1000), Ok(1000));
    assert_eq!(max_loan_amount(75, 1000), Ok(1000));
    assert_eq!(max_loan_amount(76, 1000), Ok(2000));
    assert_eq!(max_loan_amount(100, 1000), Ok(2000));
    assert_eq!(max_loan_amount(101, 1000), Err(LendingError::InvalidCreditScore));
    assert_eq!(max_loan_amount(0, 7), Ok(3), "integer division rounds down");
}

#[test]
fn interest_rate_tiers_at_their_boundaries() {
    assert_eq!(interest_rate(0), Ok(1500));
    assert_eq!(interest_rate(50), Ok(1500));
    assert_eq!(interest_rate(51), Ok(1000));
    assert_eq!(interest_rate(75), Ok(1000));
    assert_eq!(interest_rate(76), Ok(500));
    assert_eq!(interest_rate(100), Ok(500));
    assert_eq!(interest_rate(101), Err(LendingError::InvalidCreditScore));
}

#[test]
fn loan_value_and_ltv_formulas() {
    assert_eq!(loan_value(700, 500), 735);
    assert_eq!(current_ltv(735, 1000), 7350);
    assert_eq!(loan_value(0, 1500), 0);
    assert_eq!(current_ltv(0, 1000), 0);
    assert_eq!(loan_value(3, 500), 3, "accrued interest rounds down");
}

#[test]
fn overdue_strictly_after_ninety_days() {
    let ninety_days = 90 * 24 * 60 * 60;
    assert!(!is_overdue(100, 100 + ninety_days));
    assert!(is_overdue(100, 100 + ninety_days + 1));
    assert!(!is_overdue(100, 40), "a loan from the future is not overdue");
}

#[test]
fn oracle_message_lays_out_the_fields() {
    let borrower = Pubkey::new([7u8; 32]);
    let m = oracle_message(&borrower, 3, 9, 258);
    let mut expected = vec![7u8; 32];
    expected.extend_from_slice(&[3, 0, 0, 0, 0, 0, 0, 0]); // amount, little-endian
    expected.push(9); // credit score
    expected.extend_from_slice(&[2, 1, 0, 0, 0, 0, 0, 0]); // oracle fee, little-endian
    assert_eq!(m, expected);
}

#[test]
fn pubkeys_compare_by_their_bytes() {
    assert_eq!(Pubkey::new([1u8; 32]), Pubkey::new([1u8; 32]));
    assert_ne!(Pubkey::new([1u8; 32]), Pubkey::new([2u8; 32]));
}

#[test]
fn a_loan_starts_active() {
    assert_eq!(LoanStatus::default(), LoanStatus::Active);
}
