use vstd::prelude::*;
use crate::errors::LendingError;
use crate::state::{params_valid, GlobalState, Loan, LoanStatus, Pubkey, UserState, UserStateView};
use crate::transfer::{BalanceId, TransferCmd};

verus! {

/// The record store: the parameter singleton, one record per staking user
/// and one per loan. A loan's identifier is its index in `loans`; the same
/// identifier always names the same record and is handed out exactly once.
#[derive(Clone)]
pub struct Protocol {
    pub global: Option<GlobalState>,
    pub users: Vec<UserState>,
    pub loans: Vec<Loan>,
}

/// The mathematical value of a [`Protocol`].
#[verifier::ext_equal]
pub struct ProtocolView {
    pub global: Option<GlobalState>,
    pub users: Seq<UserStateView>,
    pub loans: Seq<Loan>,
}

impl View for Protocol {
    type V = ProtocolView;

    open spec fn view(&self) -> ProtocolView {
        ProtocolView {
            global: self.global,
            users: self.users@.map_values(|u: UserState| u@),
            loans: self.loans@,
        }
    }
}

/// Whether some user record carries this wallet.
pub open spec fn has_user(users: Seq<UserStateView>, wallet: Seq<u8>) -> bool {
    exists|i: int| 0 <= i < users.len() && users[i].wallet@ == wallet
}

/// The index of the user record carrying this wallet; meaningful only under
/// `has_user`, and unique under `wallets_distinct`.
pub open spec fn user_index(users: Seq<UserStateView>, wallet: Seq<u8>) -> int {
    choose|i: int| 0 <= i < users.len() && users[i].wallet@ == wallet
}

/// No two user records carry the same wallet.
pub open spec fn wallets_distinct(users: Seq<UserStateView>) -> bool {
    forall|i: int, j: int|
        0 <= i < j < users.len() ==> users[i].wallet@ != users[j].wallet@
}

/// The `k`-th open-loan entry of user `u` names an existing loan of that
/// user that is still active.
pub open spec fn loan_entry_ok(s: ProtocolView, u: int, k: int) -> bool {
    let id = s.users[u].active_loans[k] as int;
    &&& id < s.loans.len()
    &&& s.loans[id].borrower@ == s.users[u].wallet@
    &&& s.loans[id].status is Active
}

/// Every open-loan entry of every user is sound.
pub open spec fn loan_lists_ok(s: ProtocolView) -> bool {
    forall|u: int, k: int|
        0 <= u < s.users.len() && 0 <= k < s.users[u].active_loans.len() ==> #[trigger] loan_entry_ok(
            s,
            u,
            k,
        )
}

/// A list holds no identifier twice.
pub open spec fn nodup(l: Seq<u64>) -> bool {
    forall|k1: int, k2: int| 0 <= k1 < k2 < l.len() ==> l[k1] != l[k2]
}

/// No user's open-loan list holds an identifier twice.
pub open spec fn loan_lists_nodup(s: ProtocolView) -> bool {
    forall|u: int| 0 <= u < s.users.len() ==> nodup(#[trigger] s.users[u].active_loans)
}

/// Well-formedness: what holds of the records in every reachable state.
pub open spec fn wf(s: ProtocolView) -> bool {
    &&& s.global matches Some(g) ==> params_valid(g) && g.total_loans == s.loans.len()
    &&& s.global is None ==> s.loans.len() == 0 && s.users.len() == 0
    &&& wallets_distinct(s.users)
    &&& loan_lists_ok(s)
    &&& loan_lists_nodup(s)
}

/// The parameter ranges `initialize` accepts.
pub open spec fn initialize_ok(
    protocol_fee_rate: u16,
    ltv_threshold: u16,
    min_stake_duration: i64,
    oracle_fee: u64,
) -> bool {
    &&& protocol_fee_rate < 1000
    &&& 0 < ltv_threshold < 10000
    &&& min_stake_duration > 0
    &&& oracle_fee > 0
}

/// The state after a successful `initialize`.
pub open spec fn initialize_post(
    pre: ProtocolView,
    admin: Pubkey,
    protocol_fee_rate: u16,
    ltv_threshold: u16,
    min_stake_duration: i64,
    oracle: Pubkey,
    oracle_fee: u64,
) -> ProtocolView {
    ProtocolView {
        global: Some(
            GlobalState {
                admin,
                treasury: admin,
                oracle,
                total_staked: 0,
                total_loans: 0,
                protocol_fee_rate,
                ltv_threshold,
                min_stake_duration,
                oracle_fee,
            },
        ),
        ..pre
    }
}

/// The user record a first stake creates, before the amount is added.
pub open spec fn fresh_user(wallet: Pubkey) -> UserStateView {
    UserStateView {
        wallet,
        credit_score: 0,
        tier: 0,
        staked_amount: 0,
        stake_start_time: 0,
        active_loans: Seq::empty(),
    }
}

/// A user record after one stake of `amount` at time `now`: the stake start
/// time is set when the record's staked amount was zero, then the amount is
/// added.
pub open spec fn staked_user(u: UserStateView, amount: u64, now: i64) -> UserStateView {
    UserStateView {
        staked_amount: (u.staked_amount + amount) as u64,
        stake_start_time: if u.staked_amount == 0 {
            now
        } else {
            u.stake_start_time
        },
        ..u
    }
}

/// No addition performed by `stake` wraps.
pub open spec fn stake_fits(pre: ProtocolView, user: Seq<u8>, amount: u64) -> bool {
    &&& pre.global->0.total_staked + amount <= u64::MAX
    &&& has_user(pre.users, user) ==> pre.users[user_index(pre.users, user)].staked_amount
        + amount <= u64::MAX
}

/// The state after `stake`: the user's record is created on first contact,
/// the amount is added to it and to the running total.
pub open spec fn stake_post(pre: ProtocolView, user: Pubkey, amount: u64, now: i64) -> ProtocolView {
    let users = if has_user(pre.users, user@) {
        let i = user_index(pre.users, user@);
        pre.users.update(i, staked_user(pre.users[i], amount, now))
    } else {
        pre.users.push(staked_user(fresh_user(user), amount, now))
    };
    let g = pre.global->0;
    ProtocolView {
        global: Some(GlobalState { total_staked: (g.total_staked + amount) as u64, ..g }),
        users,
        ..pre
    }
}

/// The value movement a stake asks of the host ledger.
pub open spec fn stake_transfers(user: Pubkey, amount: u64) -> Seq<TransferCmd> {
    seq![TransferCmd { from: BalanceId::User(user), to: BalanceId::StakingVault, amount }]
}

/// Why a loan request fails, in the order the checks run: the caller must
/// own a user record, the oracle attestation must verify, the score must be
/// a credit score, and the amount must stay within the tiered limit.
pub open spec fn request_loan_err(
    pre: ProtocolView,
    borrower: Pubkey,
    amount: u64,
    credit_score: u8,
    signature_valid: bool,
) -> Option<LendingError> {
    if !has_user(pre.users, borrower@) {
        Some(LendingError::Unauthorized)
    } else if !signature_valid {
        Some(LendingError::InvalidOracleSignature)
    } else if credit_score > 100 {
        Some(LendingError::InvalidCreditScore)
    } else if amount > crate::terms::max_loan_spec(
        credit_score,
        pre.users[user_index(pre.users, borrower@)].staked_amount,
    ) {
        Some(LendingError::LoanExceedsCollateral)
    } else {
        None
    }
}

/// The record a granted loan request creates: the collateral and the
/// loan-to-value threshold are snapshots taken at origination.
pub open spec fn new_loan(
    borrower: Pubkey,
    amount: u64,
    credit_score: u8,
    staked_amount: u64,
    ltv_threshold: u16,
    now: i64,
) -> Loan {
    Loan {
        borrower,
        amount,
        collateral: staked_amount,
        start_time: now,
        interest_rate: crate::terms::interest_rate_spec(credit_score),
        ltv_threshold,
        status: LoanStatus::Active,
    }
}

/// No addition performed by `request_loan` wraps, and the new loan's
/// identifier is representable.
pub open spec fn request_loan_fits(pre: ProtocolView, borrower: Seq<u8>, credit_score: u8) -> bool {
    &&& has_user(pre.users, borrower) && 76 <= credit_score <= 100 ==> pre.users[user_index(
        pre.users,
        borrower,
    )].staked_amount <= u64::MAX / 2
    &&& pre.global->0.total_loans < u64::MAX
    &&& pre.loans.len() < u64::MAX
}

/// The state after a granted loan request: a fresh loan record, its
/// identifier appended to the borrower's open-loan list, the submitted
/// score recorded, and the loan count raised.
pub open spec fn request_loan_post(
    pre: ProtocolView,
    borrower: Pubkey,
    amount: u64,
    credit_score: u8,
    now: i64,
) -> ProtocolView {
    let i = user_index(pre.users, borrower@);
    let u = pre.users[i];
    let g = pre.global->0;
    let loan_id = pre.loans.len() as u64;
    ProtocolView {
        global: Some(GlobalState { total_loans: (g.total_loans + 1) as u64, ..g }),
        users: pre.users.update(
            i,
            UserStateView { credit_score, active_loans: u.active_loans.push(loan_id), ..u },
        ),
        loans: pre.loans.push(
            new_loan(borrower, amount, credit_score, u.staked_amount, g.ltv_threshold, now),
        ),
    }
}

/// The value movements a granted loan request asks of the host ledger: the
/// oracle fee to the treasury first, then the principal to the borrower.
pub open spec fn request_loan_transfers(
    borrower: Pubkey,
    amount: u64,
    oracle_fee: u64,
) -> Seq<TransferCmd> {
    seq![
        TransferCmd { from: BalanceId::User(borrower), to: BalanceId::Treasury, amount: oracle_fee },
        TransferCmd { from: BalanceId::LendingPool, to: BalanceId::User(borrower), amount },
    ]
}

/// Why a liquidation fails, in the order the checks run: the named records
/// must exist and bind together, the loan must still be active, and it must
/// breach its loan-to-value threshold or be overdue.
pub open spec fn liquidate_err(
    pre: ProtocolView,
    wallet: Pubkey,
    loan_id: u64,
    now: i64,
) -> Option<LendingError> {
    if !has_user(pre.users, wallet@) || loan_id >= pre.loans.len() || pre.loans[loan_id as int].borrower@
        != wallet@ {
        Some(LendingError::Unauthorized)
    } else if !(pre.loans[loan_id as int].status is Active) {
        Some(LendingError::LoanNotLiquidatable)
    } else if !crate::terms::liquidation_eligible_spec(pre.loans[loan_id as int], now) {
        Some(LendingError::LoanNotLiquidatable)
    } else {
        None
    }
}

/// When the checks reach the eligibility arithmetic it stays within the
/// machine's integers, and a seizure never exceeds the running total it is
/// taken from.
pub open spec fn liquidate_fits(pre: ProtocolView, wallet: Pubkey, loan_id: u64, now: i64) -> bool {
    has_user(pre.users, wallet@) && loan_id < pre.loans.len() && pre.loans[loan_id as int].borrower@
        == wallet@ && pre.loans[loan_id as int].status is Active ==> {
        let loan = pre.loans[loan_id as int];
        &&& crate::terms::liquidation_math_fits(loan, now)
        &&& (crate::terms::liquidation_eligible_spec(loan, now)
            ==> crate::terms::liquidation_amount_spec(loan.collateral)
            <= pre.global->0.total_staked)
    }
}

/// The state after a liquidation: the loan is closed, its identifier leaves
/// the borrower's open-loan list, and the seized half of the collateral
/// leaves the running total.
pub open spec fn liquidate_post(pre: ProtocolView, wallet: Pubkey, loan_id: u64) -> ProtocolView {
    let i = user_index(pre.users, wallet@);
    let u = pre.users[i];
    let g = pre.global->0;
    let loan = pre.loans[loan_id as int];
    let seized = crate::terms::liquidation_amount_spec(loan.collateral);
    ProtocolView {
        global: Some(GlobalState { total_staked: (g.total_staked - seized) as u64, ..g }),
        users: pre.users.update(
            i,
            UserStateView { active_loans: u.active_loans.remove_value(loan_id), ..u },
        ),
        loans: pre.loans.update(loan_id as int, Loan { status: LoanStatus::Liquidated, ..loan }),
    }
}

/// The value movement a liquidation asks of the host ledger: half the
/// collateral from the staking vault to the liquidator.
pub open spec fn liquidate_transfers(liquidator: Pubkey, loan: Loan) -> Seq<TransferCmd> {
    seq![
        TransferCmd {
            from: BalanceId::StakingVault,
            to: BalanceId::User(liquidator),
            amount: crate::terms::liquidation_amount_spec(loan.collateral) as u64,
        },
    ]
}

/// Under `wallets_distinct`, an index whose record carries the wallet is
/// the index `user_index` names.
pub proof fn lemma_user_index_unique(users: Seq<UserStateView>, wallet: Seq<u8>, i: int)
    requires
        wallets_distinct(users),
        0 <= i < users.len(),
        users[i].wallet@ == wallet,
    ensures
        has_user(users, wallet),
        user_index(users, wallet) == i,
{
    assert(has_user(users, wallet));
    let j = user_index(users, wallet);
    assert(0 <= j < users.len() && users[j].wallet@ == wallet);
    if j < i {
        assert(users[j].wallet@ != users[i].wallet@);
    } else if i < j {
        assert(users[i].wallet@ != users[j].wallet@);
    }
}

/// A `&mut` view into one element of a vector.
fn elem_mut<T>(v: &mut Vec<T>, i: usize) -> (element: &mut T)
    requires
        i < old(v).len(),
    ensures
        *element == old(v)@[i as int],
        final(v)@ == old(v)@.update(i as int, *final(element)),
{
    &mut v[i]
}

impl Protocol {
    /// A record store with no records yet.
    pub fn new() -> (p: Protocol)
        ensures
            wf(p@),
            p@.global is None,
            p@.users.len() == 0,
            p@.loans.len() == 0,
    {
        let p = Protocol { global: None, users: Vec::new(), loans: Vec::new() };
        proof {
            assert(p@.users =~= Seq::<UserStateView>::empty());
        }
        p
    }

    /// The index of the user record owned by `wallet`, if one exists.
    fn find_user(&self, wallet: &Pubkey) -> (r: Option<usize>)
        ensures
            match r {
                Some(i) => i < self@.users.len() && self@.users[i as int].wallet@ == wallet@,
                None => !has_user(self@.users, wallet@),
            },
    {
        let mut i: usize = 0;
        while i < self.users.len()
            invariant
                0 <= i <= self@.users.len(),
                self@.users.len() == self.users@.len(),
                forall|j: int| 0 <= j < i ==> self@.users[j].wallet@ != wallet@,
            decreases self@.users.len() - i,
        {
            if self.users[i].wallet == *wallet {
                return Some(i);
            }
            i += 1;
        }
        None
    }

    /// Creates the parameter singleton: the caller becomes admin, the
    /// treasury defaults to the admin's own address, and both aggregates
    /// start at zero. Rejects out-of-range parameters with
    /// `InvalidProtocolParams`, creating nothing.
    pub fn initialize(
        &mut self,
        admin: Pubkey,
        protocol_fee_rate: u16,
        ltv_threshold: u16,
        min_stake_duration: i64,
        oracle: Pubkey,
        oracle_fee: u64,
    ) -> (r: Result<(), LendingError>)
        requires
            wf(old(self)@),
            old(self)@.global is None,
        ensures
            wf(final(self)@),
            r is Ok <==> initialize_ok(
                protocol_fee_rate,
                ltv_threshold,
                min_stake_duration,
                oracle_fee,
            ),
            r is Ok ==> final(self)@ == initialize_post(
                old(self)@,
                admin,
                protocol_fee_rate,
                ltv_threshold,
                min_stake_duration,
                oracle,
                oracle_fee,
            ),
            r is Err ==> final(self)@ == old(self)@ && r == Result::<
                (),
                LendingError,
            >::Err(LendingError::InvalidProtocolParams),
    {
        if !(protocol_fee_rate < 1000) {
            return Err(LendingError::InvalidProtocolParams);
        }
        if !(ltv_threshold > 0 && ltv_threshold < 10000) {
            return Err(LendingError::InvalidProtocolParams);
        }
        if !(min_stake_duration > 0) {
            return Err(LendingError::InvalidProtocolParams);
        }
        if !(oracle_fee > 0) {
            return Err(LendingError::InvalidProtocolParams);
        }
        self.global = Some(
            GlobalState {
                admin,
                treasury: admin,
                oracle,
                total_staked: 0,
                total_loans: 0,
                protocol_fee_rate,
                ltv_threshold,
                min_stake_duration,
                oracle_fee,
            },
        );
        proof {
            assert(self@ =~= initialize_post(
                old(self)@,
                admin,
                protocol_fee_rate,
                ltv_threshold,
                min_stake_duration,
                oracle,
                oracle_fee,
            ));
        }
        Ok(())
    }

    /// Deposits `amount` into the staking vault. The user's record is
    /// created on first contact, with the stake start time set whenever the
    /// staked amount was zero; the amount is added to the record and to the
    /// protocol's running total. Whether `amount` is actually transferable
    /// is the host ledger's to decide when it applies the returned command.
    pub fn stake(&mut self, user: Pubkey, amount: u64, now: i64) -> (cmds: Vec<TransferCmd>)
        requires
            wf(old(self)@),
            old(self)@.global is Some,
            stake_fits(old(self)@, user@, amount),
        ensures
            wf(final(self)@),
            final(self)@ == stake_post(old(self)@, user, amount, now),
            cmds@ == stake_transfers(user, amount),
    {
        let ghost pre = self@;
        match self.find_user(&user) {
            Some(i) => {
                proof {
                    lemma_user_index_unique(pre.users, user@, i as int);
                }
                let u = elem_mut(&mut self.users, i);
                if u.staked_amount == 0 {
                    u.stake_start_time = now;
                }
                u.staked_amount = u.staked_amount + amount;
            },
            None => {
                self.users.push(
                    UserState {
                        wallet: user,
                        credit_score: 0,
                        tier: 0,
                        staked_amount: amount,
                        stake_start_time: now,
                        active_loans: Vec::new(),
                    },
                );
            },
        }
        match &mut self.global {
            Some(g) => {
                g.total_staked = g.total_staked + amount;
            },
            None => {},
        }
        proof {
            assert(self@.users =~= stake_post(pre, user, amount, now).users);
            assert(self@ =~= stake_post(pre, user, amount, now));
            lemma_stake_post_wf(pre, user, amount, now);
        }
        let mut cmds: Vec<TransferCmd> = Vec::new();
        cmds.push(TransferCmd { from: BalanceId::User(user), to: BalanceId::StakingVault, amount });
        proof {
            assert(cmds@ =~= stake_transfers(user, amount));
        }
        cmds
    }

    /// Borrows `amount` against the caller's stake. The checks run in
    /// order: the caller must own the named user record, the oracle's
    /// verdict over the canonical message must be positive, the score must
    /// lie in 0..=100 and the amount within the tiered limit. On success
    /// the loan record is created with collateral and threshold snapshots,
    /// and the returned commands move the oracle fee to the treasury and
    /// then the principal to the borrower; on failure nothing changes and
    /// nothing moves.
    pub fn request_loan(
        &mut self,
        borrower: Pubkey,
        amount: u64,
        credit_score: u8,
        signature_valid: bool,
        now: i64,
    ) -> (r: Result<Vec<TransferCmd>, LendingError>)
        requires
            wf(old(self)@),
            old(self)@.global is Some,
            request_loan_fits(old(self)@, borrower@, credit_score),
        ensures
            wf(final(self)@),
            r is Ok <==> request_loan_err(old(self)@, borrower, amount, credit_score, signature_valid)
                is None,
            r matches Err(e) ==> final(self)@ == old(self)@ && Some(e) == request_loan_err(
                old(self)@,
                borrower,
                amount,
                credit_score,
                signature_valid,
            ),
            r matches Ok(cmds) ==> final(self)@ == request_loan_post(
                old(self)@,
                borrower,
                amount,
                credit_score,
                now,
            ) && cmds@ == request_loan_transfers(borrower, amount, old(self)@.global->0.oracle_fee),
    {
        let ghost pre = self@;
        let i = match self.find_user(&borrower) {
            Some(i) => i,
            None => {
                return Err(LendingError::Unauthorized);
            },
        };
        proof {
            lemma_user_index_unique(pre.users, borrower@, i as int);
        }
        if !signature_valid {
            return Err(LendingError::InvalidOracleSignature);
        }
        let staked = self.users[i].staked_amount;
        let max_loan = match crate::terms::max_loan_amount(credit_score, staked) {
            Ok(m) => m,
            Err(e) => {
                return Err(e);
            },
        };
        if amount > max_loan {
            return Err(LendingError::LoanExceedsCollateral);
        }
        let rate = match crate::terms::interest_rate(credit_score) {
            Ok(rate) => rate,
            Err(e) => {
                return Err(e);
            },
        };
        let (oracle_fee, ltv_threshold) = match &self.global {
            Some(g) => (g.oracle_fee, g.ltv_threshold),
            None => (0, 0),
        };
        let loan_id = self.loans.len() as u64;
        self.loans.push(
            Loan {
                borrower,
                amount,
                collateral: staked,
                start_time: now,
                interest_rate: rate,
                ltv_threshold,
                status: LoanStatus::Active,
            },
        );
        let u = elem_mut(&mut self.users, i);
        u.active_loans.push(loan_id);
        u.credit_score = credit_score;
        match &mut self.global {
            Some(g) => {
                g.total_loans = g.total_loans + 1;
            },
            None => {},
        }
        proof {
            let post = request_loan_post(pre, borrower, amount, credit_score, now);
            assert(self@.users[i as int].active_loans =~= post.users[i as int].active_loans);
            assert(self@.users =~= post.users);
            assert(self@ =~= post);
            lemma_request_loan_post_wf(pre, borrower, amount, credit_score, now);
        }
        let mut cmds: Vec<TransferCmd> = Vec::new();
        cmds.push(
            TransferCmd { from: BalanceId::User(borrower), to: BalanceId::Treasury, amount: oracle_fee },
        );
        cmds.push(TransferCmd { from: BalanceId::LendingPool, to: BalanceId::User(borrower), amount });
        proof {
            assert(cmds@ =~= request_loan_transfers(borrower, amount, pre.global->0.oracle_fee));
        }
        Ok(cmds)
    }

    /// Force-closes an eligible loan; any caller may be the liquidator. The
    /// named user record and loan must bind together, the loan must still
    /// be active, and it must breach its snapshotted loan-to-value
    /// threshold or be overdue. On success the loan is marked liquidated,
    /// its identifier leaves the borrower's open-loan list, half the
    /// collateral leaves the running total and the returned command pays it
    /// from the staking vault to the liquidator; on failure nothing changes
    /// and nothing moves.
    pub fn liquidate(
        &mut self,
        liquidator: Pubkey,
        wallet: Pubkey,
        loan_id: u64,
        now: i64,
    ) -> (r: Result<Vec<TransferCmd>, LendingError>)
        requires
            wf(old(self)@),
            old(self)@.global is Some,
            liquidate_fits(old(self)@, wallet, loan_id, now),
        ensures
            wf(final(self)@),
            r is Ok <==> liquidate_err(old(self)@, wallet, loan_id, now) is None,
            r matches Err(e) ==> final(self)@ == old(self)@ && Some(e) == liquidate_err(
                old(self)@,
                wallet,
                loan_id,
                now,
            ),
            r matches Ok(cmds) ==> final(self)@ == liquidate_post(old(self)@, wallet, loan_id)
                && cmds@ == liquidate_transfers(liquidator, old(self)@.loans[loan_id as int]),
    {
        let ghost pre = self@;
        let i = match self.find_user(&wallet) {
            Some(i) => i,
            None => {
                return Err(LendingError::Unauthorized);
            },
        };
        proof {
            lemma_user_index_unique(pre.users, wallet@, i as int);
        }
        if loan_id >= self.loans.len() as u64 {
            return Err(LendingError::Unauthorized);
        }
        let idx = loan_id as usize;
        let loan = self.loans[idx];
        if !(loan.borrower == wallet) {
            return Err(LendingError::Unauthorized);
        }
        if !(loan.status == LoanStatus::Active) {
            return Err(LendingError::LoanNotLiquidatable);
        }
        if !crate::terms::liquidation_eligible(&loan, now) {
            return Err(LendingError::LoanNotLiquidatable);
        }
        let seized = loan.collateral / 2;
        // First occurrence of the loan's identifier in the open-loan list.
        let mut p: usize = 0;
        let mut found = false;
        while !found && p < self.users[i].active_loans.len()
            invariant
                i < self@.users.len(),
                self@ == pre,
                0 <= p <= pre.users[i as int].active_loans.len(),
                found ==> p < pre.users[i as int].active_loans.len()
                    && pre.users[i as int].active_loans[p as int] == loan_id,
                forall|j: int| 0 <= j < p ==> pre.users[i as int].active_loans[j] != loan_id,
            decreases pre.users[i as int].active_loans.len() - p, (if found { 0int } else { 1int }),
        {
            if self.users[i].active_loans[p] == loan_id {
                found = true;
            } else {
                p += 1;
            }
        }
        let lm = elem_mut(&mut self.loans, idx);
        lm.status = LoanStatus::Liquidated;
        if found {
            let u = elem_mut(&mut self.users, i);
            u.active_loans.remove(p);
        }
        match &mut self.global {
            Some(g) => {
                g.total_staked = g.total_staked - seized;
            },
            None => {},
        }
        proof {
            let post = liquidate_post(pre, wallet, loan_id);
            let ul = pre.users[i as int].active_loans;
            ul.index_of_first_ensures(loan_id);
            if found {
                assert(ul.contains(loan_id)) by {
                    assert(ul[p as int] == loan_id);
                }
                match ul.index_of_first(loan_id) {
                    Some(q) => {
                        assert(q == p) by {
                            if q < p {
                                assert(ul[q] != loan_id);
                            } else if p < q {
                                assert(ul[p as int] != loan_id);
                            }
                        }
                    },
                    None => {},
                }
            } else {
                assert(!ul.contains(loan_id)) by {
                    if ul.contains(loan_id) {
                        let q = choose|q: int| 0 <= q < ul.len() && ul[q] == loan_id;
                        assert(ul[q] != loan_id);
                    }
                }
            }
            assert(self@.users[i as int].active_loans =~= post.users[i as int].active_loans);
            assert(self@.users =~= post.users);
            assert(self@.loans =~= post.loans);
            assert(self@ =~= post);
            lemma_liquidate_post_wf(pre, wallet, loan_id);
        }
        let mut cmds: Vec<TransferCmd> = Vec::new();
        cmds.push(
            TransferCmd { from: BalanceId::StakingVault, to: BalanceId::User(liquidator), amount: seized },
        );
        proof {
            assert(cmds@ =~= liquidate_transfers(liquidator, pre.loans[loan_id as int]));
        }
        Ok(cmds)
    }
}

/// `liquidate` preserves well-formedness when its record bindings hold.
pub proof fn lemma_liquidate_post_wf(pre: ProtocolView, wallet: Pubkey, loan_id: u64)
    requires
        wf(pre),
        pre.global is Some,
        has_user(pre.users, wallet@),
        loan_id < pre.loans.len(),
        pre.loans[loan_id as int].borrower@ == wallet@,
    ensures
        wf(liquidate_post(pre, wallet, loan_id)),
{
    let post = liquidate_post(pre, wallet, loan_id);
    let i = user_index(pre.users, wallet@);
    assert(0 <= i < pre.users.len() && pre.users[i].wallet@ == wallet@);
    let ul = pre.users[i].active_loans;
    let res = ul.remove_value(loan_id);
    ul.index_of_first_ensures(loan_id);
    assert(nodup(ul));
    // Each entry that survives the removal stood somewhere in the old list
    // and is not the removed identifier.
    assert forall|k: int| 0 <= k < res.len() implies exists|k0: int|
        0 <= k0 < ul.len() && ul[k0] == #[trigger] res[k] && ul[k0] != loan_id by {
        match ul.index_of_first(loan_id) {
            Some(q) => {
                ul.remove_ensures(q);
                if k < q {
                    assert(res[k] == ul[k] && ul[k] != loan_id);
                } else {
                    assert(res[k] == ul[k + 1]);
                    assert(ul[q] == loan_id);
                    assert(ul[k + 1] != ul[q]);
                    assert(0 <= k + 1 < ul.len() && ul[k + 1] == res[k] && ul[k + 1] != loan_id);
                }
            },
            None => {
                assert(res[k] == ul[k]);
                assert(ul[k] != loan_id) by {
                    if ul[k] == loan_id {
                        assert(ul.contains(loan_id));
                    }
                }
            },
        }
    }
    // Entries of other users never name this loan: their loans belong to a
    // different wallet.
    assert forall|u: int, k: int|
        0 <= u < post.users.len() && 0 <= k < post.users[u].active_loans.len() implies #[trigger] loan_entry_ok(
        post,
        u,
        k,
    ) by {
        if u == i {
            let entry = post.users[u].active_loans[k];
            assert(entry == res[k]);
            let k0 = choose|k0: int| 0 <= k0 < ul.len() && ul[k0] == res[k] && ul[k0] != loan_id;
            assert(loan_entry_ok(pre, i, k0));
            assert(entry != loan_id);
            assert(post.loans[entry as int] == pre.loans[entry as int]);
            assert(post.users[u].wallet == pre.users[u].wallet);
        } else {
            assert(post.users[u].active_loans == pre.users[u].active_loans);
            assert(loan_entry_ok(pre, u, k));
            let id = pre.users[u].active_loans[k] as int;
            assert(pre.loans[id].borrower@ == pre.users[u].wallet@);
            assert(pre.users[u].wallet@ != pre.users[i].wallet@) by {
                if u < i {
                    assert(pre.users[u].wallet@ != pre.users[i].wallet@);
                } else {
                    assert(pre.users[i].wallet@ != pre.users[u].wallet@);
                }
            }
            assert(id != loan_id);
            assert(post.loans[id] == pre.loans[id]);
        }
    }
    // Removal keeps the list duplicate-free.
    assert forall|u: int| 0 <= u < post.users.len() implies nodup(
        #[trigger] post.users[u].active_loans,
    ) by {
        assert(nodup(pre.users[u].active_loans));
        if u == i {
            assert forall|k1: int, k2: int|
                0 <= k1 < k2 < res.len() implies res[k1] != res[k2] by {
                match ul.index_of_first(loan_id) {
                    Some(q) => {
                        ul.remove_ensures(q);
                        let k1o: int = if k1 < q {
                            k1
                        } else {
                            k1 + 1
                        };
                        let k2o: int = if k2 < q {
                            k2
                        } else {
                            k2 + 1
                        };
                        assert(res[k1] == ul[k1o] && res[k2] == ul[k2o]);
                        assert(ul[k1o] != ul[k2o]);
                    },
                    None => {},
                }
            }
        }
    }
}

/// `request_loan` preserves well-formedness when it succeeds.
pub proof fn lemma_request_loan_post_wf(
    pre: ProtocolView,
    borrower: Pubkey,
    amount: u64,
    credit_score: u8,
    now: i64,
)
    requires
        wf(pre),
        pre.global is Some,
        pre.global->0.total_loans < u64::MAX,
        has_user(pre.users, borrower@),
    ensures
        wf(request_loan_post(pre, borrower, amount, credit_score, now)),
{
    let post = request_loan_post(pre, borrower, amount, credit_score, now);
    let i = user_index(pre.users, borrower@);
    assert(0 <= i < pre.users.len() && pre.users[i].wallet@ == borrower@);
    let loan_id = pre.loans.len() as u64;
    assert forall|u: int, k: int|
        0 <= u < post.users.len() && 0 <= k < post.users[u].active_loans.len() implies #[trigger] loan_entry_ok(
        post,
        u,
        k,
    ) by {
        if u == i && k == pre.users[i].active_loans.len() {
            assert(post.users[u].active_loans[k] == loan_id);
            assert(post.loans[loan_id as int].borrower@ == borrower@);
        } else {
            assert(post.users[u].active_loans[k] == pre.users[u].active_loans[k]);
            assert(post.users[u].wallet == pre.users[u].wallet);
            assert(loan_entry_ok(pre, u, k));
            let id = pre.users[u].active_loans[k] as int;
            assert(post.loans[id] == pre.loans[id]);
        }
    }
    assert forall|u: int| 0 <= u < post.users.len() implies nodup(
        #[trigger] post.users[u].active_loans,
    ) by {
        assert(nodup(pre.users[u].active_loans));
        if u == i {
            assert forall|k1: int, k2: int|
                0 <= k1 < k2 < post.users[u].active_loans.len() implies post.users[u].active_loans[k1]
                != post.users[u].active_loans[k2] by {
                if k2 == pre.users[i].active_loans.len() {
                    assert(loan_entry_ok(pre, u, k1));
                    assert(pre.users[u].active_loans[k1] < loan_id);
                }
            }
        }
    }
}

/// `stake` preserves well-formedness.
pub proof fn lemma_stake_post_wf(pre: ProtocolView, user: Pubkey, amount: u64, now: i64)
    requires
        wf(pre),
        pre.global is Some,
    ensures
        wf(stake_post(pre, user, amount, now)),
{
    let post = stake_post(pre, user, amount, now);
    if has_user(pre.users, user@) {
        let i = user_index(pre.users, user@);
        assert(0 <= i < pre.users.len() && pre.users[i].wallet@ == user@);
        assert forall|u: int, k: int|
            0 <= u < post.users.len() && 0 <= k < post.users[u].active_loans.len() implies #[trigger] loan_entry_ok(
            post,
            u,
            k,
        ) by {
            assert(post.users[u].active_loans == pre.users[u].active_loans);
            assert(post.users[u].wallet == pre.users[u].wallet);
            assert(loan_entry_ok(pre, u, k));
        }
        assert forall|u: int| 0 <= u < post.users.len() implies nodup(
            #[trigger] post.users[u].active_loans,
        ) by {
            assert(post.users[u].active_loans == pre.users[u].active_loans);
            assert(nodup(pre.users[u].active_loans));
        }
    } else {
        assert forall|i: int, j: int|
            0 <= i < j < post.users.len() implies post.users[i].wallet@ != post.users[j].wallet@ by {
            if j < pre.users.len() as int {
                assert(pre.users[i].wallet@ != pre.users[j].wallet@);
            } else {
                assert(post.users[j].wallet@ == user@);
                assert(!(0 <= i < pre.users.len() && pre.users[i].wallet@ == user@));
            }
        }
        assert forall|u: int, k: int|
            0 <= u < post.users.len() && 0 <= k < post.users[u].active_loans.len() implies #[trigger] loan_entry_ok(
            post,
            u,
            k,
        ) by {
            assert(u < pre.users.len());
            assert(post.users[u].active_loans == pre.users[u].active_loans);
            assert(loan_entry_ok(pre, u, k));
        }
        assert forall|u: int| 0 <= u < post.users.len() implies nodup(
            #[trigger] post.users[u].active_loans,
        ) by {
            if u < pre.users.len() as int {
                assert(nodup(pre.users[u].active_loans));
            }
        }
    }
}

} // verus!
