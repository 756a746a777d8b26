use vstd::prelude::*;
use crate::errors::LendingError;
use crate::state::Loan;

verus! {

/// Seconds after its start time at which a loan counts as overdue.
pub const OVERDUE_AFTER_SECONDS: i64 = 90 * 24 * 60 * 60;

/// The largest loan a credit score allows against a stake: half the stake
/// up to a score of 50, the full stake up to 75, twice the stake up to 100.
pub open spec fn max_loan_spec(credit_score: u8, staked_amount: u64) -> int
    recommends
        credit_score <= 100,
{
    if credit_score <= 50 {
        staked_amount as int / 2
    } else if credit_score <= 75 {
        staked_amount as int
    } else {
        staked_amount as int * 2
    }
}

/// The interest rate a credit score earns, in basis points: 15% up to a
/// score of 50, 10% up to 75, 5% up to 100.
pub open spec fn interest_rate_spec(credit_score: u8) -> u16
    recommends
        credit_score <= 100,
{
    if credit_score <= 50 {
        1500
    } else if credit_score <= 75 {
        1000
    } else {
        500
    }
}

/// The tiered borrowing limit; `InvalidCreditScore` for a score over 100.
pub fn max_loan_amount(credit_score: u8, staked_amount: u64) -> (r: Result<u64, LendingError>)
    requires
        76 <= credit_score <= 100 ==> staked_amount <= u64::MAX / 2,
    ensures
        r is Ok <==> credit_score <= 100,
        r matches Ok(m) ==> m == max_loan_spec(credit_score, staked_amount),
        r is Err ==> r == Result::<u64, LendingError>::Err(LendingError::InvalidCreditScore),
{
    if credit_score <= 50 {
        Ok(staked_amount / 2)
    } else if credit_score <= 75 {
        Ok(staked_amount)
    } else if credit_score <= 100 {
        Ok(staked_amount * 2)
    } else {
        Err(LendingError::InvalidCreditScore)
    }
}

/// The tiered interest rate; `InvalidCreditScore` for a score over 100.
pub fn interest_rate(credit_score: u8) -> (r: Result<u16, LendingError>)
    ensures
        r is Ok <==> credit_score <= 100,
        r matches Ok(rate) ==> rate == interest_rate_spec(credit_score),
        r is Err ==> r == Result::<u16, LendingError>::Err(LendingError::InvalidCreditScore),
{
    if credit_score <= 50 {
        Ok(1500)
    } else if credit_score <= 75 {
        Ok(1000)
    } else if credit_score <= 100 {
        Ok(500)
    } else {
        Err(LendingError::InvalidCreditScore)
    }
}

/// Principal plus accrued interest.
pub open spec fn loan_value_spec(amount: u64, interest_rate: u16) -> int {
    amount + (amount * interest_rate) / 10000
}

/// Loan value over collateral, in basis points.
pub open spec fn current_ltv_spec(amount: u64, interest_rate: u16, collateral: u64) -> int
    recommends
        collateral > 0,
{
    loan_value_spec(amount, interest_rate) * 10000 / collateral as int
}

/// Whether a loan started at `start_time` is overdue at `now`.
pub open spec fn is_overdue_spec(start_time: i64, now: i64) -> bool {
    now - start_time > OVERDUE_AFTER_SECONDS
}

/// A loan may be liquidated when its loan-to-value ratio exceeds the
/// threshold snapshotted at origination, or when it is overdue.
pub open spec fn liquidation_eligible_spec(loan: Loan, now: i64) -> bool {
    ||| current_ltv_spec(loan.amount, loan.interest_rate, loan.collateral) > loan.ltv_threshold
    ||| is_overdue_spec(loan.start_time, now)
}

/// Half the collateral, the fixed seizure a liquidation pays out.
pub open spec fn liquidation_amount_spec(collateral: u64) -> int {
    collateral as int / 2
}

/// The eligibility arithmetic stays within the machine's integers: the
/// collateral divides, the interest and ratio products fit in 64 bits and
/// the loan's age fits in 64 signed bits.
pub open spec fn liquidation_math_fits(loan: Loan, now: i64) -> bool {
    &&& loan.collateral > 0
    &&& loan.amount * loan.interest_rate <= u64::MAX
    &&& loan_value_spec(loan.amount, loan.interest_rate) * 10000 <= u64::MAX
    &&& i64::MIN <= now - loan.start_time <= i64::MAX
}

/// Principal plus accrued interest.
pub fn loan_value(amount: u64, interest_rate: u16) -> (v: u64)
    requires
        amount * interest_rate <= u64::MAX,
        loan_value_spec(amount, interest_rate) <= u64::MAX,
    ensures
        v == loan_value_spec(amount, interest_rate),
{
    amount + (amount * (interest_rate as u64)) / 10000
}

/// Loan value over collateral, in basis points.
pub fn current_ltv(loan_value: u64, collateral: u64) -> (ltv: u64)
    requires
        collateral > 0,
        loan_value * 10000 <= u64::MAX,
    ensures
        ltv == loan_value * 10000 / collateral as int,
{
    (loan_value * 10000) / collateral
}

/// Whether a loan started at `start_time` is overdue at `now`.
pub fn is_overdue(start_time: i64, now: i64) -> (r: bool)
    requires
        i64::MIN <= now - start_time <= i64::MAX,
    ensures
        r == is_overdue_spec(start_time, now),
{
    now - start_time > OVERDUE_AFTER_SECONDS
}

/// Whether the loan may be liquidated at `now`.
pub fn liquidation_eligible(loan: &Loan, now: i64) -> (r: bool)
    requires
        liquidation_math_fits(*loan, now),
    ensures
        r == liquidation_eligible_spec(*loan, now),
{
    let value = loan_value(loan.amount, loan.interest_rate);
    let ltv = current_ltv(value, loan.collateral);
    ltv > (loan.ltv_threshold as u64) || is_overdue(loan.start_time, now)
}

} // verus!
