use vstd::prelude::*;
use crate::errors::LendingError;
use crate::protocol::{
    has_user, lemma_stake_post_wf, lemma_user_index_unique, liquidate_err, liquidate_fits,
    liquidate_post, loan_lists_nodup, nodup, request_loan_err, stake_post, user_index, wf,
    ProtocolView,
};
use crate::state::Pubkey;
use crate::terms::{current_ltv_spec, is_overdue_spec, liquidation_amount_spec};

verus! {

/// The state after a sequence of stakes, each by the named wallet for the
/// paired amount, applied left to right.
pub open spec fn stake_all(pre: ProtocolView, events: Seq<(Pubkey, u64)>, now: i64) -> ProtocolView
    decreases events.len(),
{
    if events.len() == 0 {
        pre
    } else {
        stake_all(stake_post(pre, events[0].0, events[0].1, now), events.drop_first(), now)
    }
}

/// The sum of the staked amounts of a sequence of stakes.
pub open spec fn sum_amounts(events: Seq<(Pubkey, u64)>) -> int
    decreases events.len(),
{
    if events.len() == 0 {
        0
    } else {
        events[0].1 + sum_amounts(events.drop_first())
    }
}

/// A sum of unsigned amounts is never negative.
pub proof fn lemma_sum_amounts_nonneg(events: Seq<(Pubkey, u64)>)
    ensures
        sum_amounts(events) >= 0,
    decreases events.len(),
{
    if events.len() > 0 {
        lemma_sum_amounts_nonneg(events.drop_first());
    }
}

/// What a user holds staked: the record's amount, or zero before a record
/// exists.
pub open spec fn user_staked(s: ProtocolView, wallet: Seq<u8>) -> int {
    if has_user(s.users, wallet) {
        s.users[user_index(s.users, wallet)].staked_amount as int
    } else {
        0
    }
}

/// Across any sequence of stakes by any mix of users, the protocol's
/// running total grows by exactly the sum of the staked amounts.
pub proof fn lemma_stake_total(pre: ProtocolView, events: Seq<(Pubkey, u64)>, now: i64)
    requires
        wf(pre),
        pre.global is Some,
        pre.global->0.total_staked + sum_amounts(events) <= u64::MAX,
    ensures
        wf(stake_all(pre, events, now)),
        stake_all(pre, events, now).global is Some,
        stake_all(pre, events, now).global->0.total_staked == pre.global->0.total_staked
            + sum_amounts(events),
    decreases events.len(),
{
    if events.len() > 0 {
        let mid = stake_post(pre, events[0].0, events[0].1, now);
        lemma_sum_amounts_nonneg(events.drop_first());
        lemma_stake_post_wf(pre, events[0].0, events[0].1, now);
        lemma_stake_total(mid, events.drop_first(), now);
    }
}

/// After any number of stakes by one user, that user's staked amount is its
/// starting value plus the sum of the staked amounts, whoever else stakes
/// holds no part of it.
pub proof fn lemma_stake_staked_amount(
    pre: ProtocolView,
    user: Pubkey,
    events: Seq<(Pubkey, u64)>,
    now: i64,
)
    requires
        wf(pre),
        pre.global is Some,
        forall|k: int| 0 <= k < events.len() ==> (#[trigger] events[k]).0@ == user@,
        user_staked(pre, user@) + sum_amounts(events) <= u64::MAX,
    ensures
        wf(stake_all(pre, events, now)),
        stake_all(pre, events, now).global is Some,
        user_staked(stake_all(pre, events, now), user@) == user_staked(pre, user@) + sum_amounts(
            events,
        ),
    decreases events.len(),
{
    if events.len() > 0 {
        let a0 = events[0].1;
        let mid = stake_post(pre, events[0].0, a0, now);
        lemma_sum_amounts_nonneg(events.drop_first());
        lemma_stake_post_wf(pre, events[0].0, a0, now);
        if has_user(pre.users, user@) {
            let i = user_index(pre.users, user@);
            assert(0 <= i < pre.users.len() && pre.users[i].wallet@ == user@);
            assert(mid.users[i].staked_amount == user_staked(pre, user@) + a0);
            lemma_user_index_unique(mid.users, user@, i);
        } else {
            let i = pre.users.len() as int;
            assert(mid.users[i].wallet@ == user@);
            assert(mid.users[i].staked_amount == a0);
            lemma_user_index_unique(mid.users, user@, i);
        }
        assert(user_staked(mid, user@) == user_staked(pre, user@) + a0);
        lemma_stake_staked_amount(mid, user, events.drop_first(), now);
    }
}

/// A score over 100 is rejected as an invalid credit score whenever the
/// request's earlier checks pass, whatever the amount or the stake. The
/// operation then returns no transfer commands, so the oracle fee does not
/// move.
pub proof fn lemma_invalid_credit_score_rejected(
    pre: ProtocolView,
    borrower: Pubkey,
    amount: u64,
    credit_score: u8,
)
    requires
        has_user(pre.users, borrower@),
        credit_score > 100,
    ensures
        request_loan_err(pre, borrower, amount, credit_score, true) == Some(
            LendingError::InvalidCreditScore,
        ),
{
}

/// A loan that is neither overdue nor over its loan-to-value threshold
/// cannot be liquidated.
pub proof fn lemma_healthy_loan_not_liquidatable(
    pre: ProtocolView,
    wallet: Pubkey,
    loan_id: u64,
    now: i64,
)
    requires
        has_user(pre.users, wallet@),
        loan_id < pre.loans.len(),
        pre.loans[loan_id as int].borrower@ == wallet@,
        !is_overdue_spec(pre.loans[loan_id as int].start_time, now),
        current_ltv_spec(
            pre.loans[loan_id as int].amount,
            pre.loans[loan_id as int].interest_rate,
            pre.loans[loan_id as int].collateral,
        ) <= pre.loans[loan_id as int].ltv_threshold,
    ensures
        liquidate_err(pre, wallet, loan_id, now) == Some(LendingError::LoanNotLiquidatable),
{
}

/// A loan can be liquidated at most once: after a granted liquidation, a
/// second attempt on the same loan fails because its status is no longer
/// active, so no second seizure is ever commanded.
pub proof fn lemma_liquidate_twice(
    pre: ProtocolView,
    wallet: Pubkey,
    loan_id: u64,
    now1: i64,
    now2: i64,
)
    requires
        wf(pre),
        pre.global is Some,
        liquidate_err(pre, wallet, loan_id, now1) is None,
    ensures
        liquidate_err(liquidate_post(pre, wallet, loan_id), wallet, loan_id, now2) == Some(
            LendingError::LoanNotLiquidatable,
        ),
{
    let post = liquidate_post(pre, wallet, loan_id);
    let i = user_index(pre.users, wallet@);
    assert(0 <= i < pre.users.len() && pre.users[i].wallet@ == wallet@);
    assert(post.users[i].wallet@ == wallet@);
    assert(has_user(post.users, wallet@));
    assert(post.loans[loan_id as int].status is Liquidated);
}

/// A granted liquidation seizes exactly half the loan's collateral, and the
/// seizure never exceeds the running total it is subtracted from: the total
/// cannot wrap below zero. The loan is closed and leaves the borrower's
/// open-loan list entirely.
pub proof fn lemma_liquidate_effects(pre: ProtocolView, wallet: Pubkey, loan_id: u64, now: i64)
    requires
        wf(pre),
        pre.global is Some,
        liquidate_fits(pre, wallet, loan_id, now),
        liquidate_err(pre, wallet, loan_id, now) is None,
    ensures
        liquidation_amount_spec(pre.loans[loan_id as int].collateral)
            <= pre.global->0.total_staked,
        liquidate_post(pre, wallet, loan_id).global->0.total_staked == pre.global->0.total_staked
            - liquidation_amount_spec(pre.loans[loan_id as int].collateral),
        liquidate_post(pre, wallet, loan_id).loans[loan_id as int].status is Liquidated,
        !liquidate_post(pre, wallet, loan_id).users[user_index(
            pre.users,
            wallet@,
        )].active_loans.contains(loan_id),
{
    let post = liquidate_post(pre, wallet, loan_id);
    let i = user_index(pre.users, wallet@);
    assert(0 <= i < pre.users.len() && pre.users[i].wallet@ == wallet@);
    let ul = pre.users[i].active_loans;
    let res = ul.remove_value(loan_id);
    assert(nodup(ul)) by {
        assert(loan_lists_nodup(pre));
    }
    ul.index_of_first_ensures(loan_id);
    assert forall|k: int| 0 <= k < res.len() implies #[trigger] res[k] != loan_id by {
        match ul.index_of_first(loan_id) {
            Some(q) => {
                ul.remove_ensures(q);
                if k < q {
                    assert(res[k] == ul[k] && ul[k] != loan_id);
                } else {
                    assert(res[k] == ul[k + 1]);
                    assert(ul[k + 1] != ul[q]);
                }
            },
            None => {
                assert(res[k] == ul[k]);
                if ul[k] == loan_id {
                    assert(ul.contains(loan_id));
                }
            },
        }
    }
    assert(post.users[i].active_loans == res);
    if res.contains(loan_id) {
        let k = choose|k: int| 0 <= k < res.len() && res[k] == loan_id;
        assert(res[k] != loan_id);
    }
}

} // verus!
