use vstd::prelude::*;

verus! {

/// A fixed-size public identifier: an account address or a signer's key.
#[derive(Clone, Copy, Debug)]
pub struct Pubkey {
    pub bytes: [u8; 32],
}

impl View for Pubkey {
    type V = Seq<u8>;

    open spec fn view(&self) -> Seq<u8> {
        self.bytes@
    }
}

impl Pubkey {
    pub fn new(bytes: [u8; 32]) -> (k: Pubkey)
        ensures
            k@ == bytes@,
    {
        Pubkey { bytes }
    }
}

impl PartialEq for Pubkey {
    fn eq(&self, other: &Pubkey) -> (r: bool) {
        let mut i: usize = 0;
        while i < 32
            invariant
                0 <= i <= 32,
                forall|j: int| 0 <= j < i ==> self@[j] == other@[j],
            decreases 32 - i,
        {
            if self.bytes[i] != other.bytes[i] {
                return false;
            }
            i += 1;
        }
        proof {
            assert(self@ =~= other@);
        }
        true
    }
}

impl vstd::std_specs::cmp::PartialEqSpecImpl for Pubkey {
    open spec fn obeys_eq_spec() -> bool {
        true
    }

    open spec fn eq_spec(&self, other: &Pubkey) -> bool {
        self@ == other@
    }
}

/// Where a loan stands in its lifecycle. A loan is created `Active` and the
/// only transition the protocol defines moves it to `Liquidated`; `Repaid`
/// and `Defaulted` are declared states with no transition yet.
#[derive(Clone, Copy, Debug, PartialEq, Eq, Structural)]
pub enum LoanStatus {
    Active,
    Repaid,
    Liquidated,
    Defaulted,
}

impl Default for LoanStatus {
    fn default() -> (s: LoanStatus)
        ensures
            s == LoanStatus::Active,
    {
        LoanStatus::Active
    }
}

/// The protocol's singleton parameter-and-aggregate record, created once by
/// `initialize`.
#[derive(Clone, Copy, Debug)]
pub struct GlobalState {
    pub admin: Pubkey,
    pub treasury: Pubkey,
    /// Public key the oracle attestations are verified against.
    pub oracle: Pubkey,
    /// Sum of all stakes, minus what liquidations have seized.
    pub total_staked: u64,
    /// Number of loans ever created.
    pub total_loans: u64,
    /// Protocol fee, in basis points.
    pub protocol_fee_rate: u16,
    /// Loan-to-value threshold, in basis points, snapshotted into each loan.
    pub ltv_threshold: u16,
    /// Minimum stake duration in seconds; validated at initialization but
    /// not enforced by any operation.
    pub min_stake_duration: i64,
    /// Fee paid to the treasury for each oracle verification.
    pub oracle_fee: u64,
}

/// The ranges `initialize` accepts and every reachable singleton satisfies.
pub open spec fn params_valid(g: GlobalState) -> bool {
    &&& g.protocol_fee_rate < 1000
    &&& 0 < g.ltv_threshold < 10000
    &&& g.min_stake_duration > 0
    &&& g.oracle_fee > 0
}

/// One loan record.
#[derive(Clone, Copy, Debug)]
pub struct Loan {
    pub borrower: Pubkey,
    /// Principal.
    pub amount: u64,
    /// The borrower's staked amount at origination; later stakes do not
    /// change it.
    pub collateral: u64,
    pub start_time: i64,
    /// Interest rate in basis points, tiered by credit score at origination.
    pub interest_rate: u16,
    /// The protocol's loan-to-value threshold at origination.
    pub ltv_threshold: u16,
    pub status: LoanStatus,
}

/// One staking user's record, created on the user's first stake.
#[derive(Clone, Debug)]
pub struct UserState {
    pub wallet: Pubkey,
    /// The score from the last accepted loan request.
    pub credit_score: u8,
    /// Declared tier field; no operation writes it.
    pub tier: u8,
    /// Cumulative stake; only `stake` changes it, and only upward.
    pub staked_amount: u64,
    /// Set when a stake finds the record at zero staked amount.
    pub stake_start_time: i64,
    /// Identifiers of this user's open loans, in creation order.
    pub active_loans: Vec<u64>,
}

/// The mathematical value of a [`UserState`].
#[verifier::ext_equal]
pub struct UserStateView {
    pub wallet: Pubkey,
    pub credit_score: u8,
    pub tier: u8,
    pub staked_amount: u64,
    pub stake_start_time: i64,
    pub active_loans: Seq<u64>,
}

impl View for UserState {
    type V = UserStateView;

    open spec fn view(&self) -> UserStateView {
        UserStateView {
            wallet: self.wallet,
            credit_score: self.credit_score,
            tier: self.tier,
            staked_amount: self.staked_amount,
            stake_start_time: self.stake_start_time,
            active_loans: self.active_loans@,
        }
    }
}

} // verus!
