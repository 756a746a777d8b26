use vstd::prelude::*;
use crate::state::Pubkey;

verus! {

/// A balance record of the external value-transfer service, named by the
/// role it plays for the protocol.
#[derive(Clone, Copy, Debug)]
pub enum BalanceId {
    /// The stable-asset balance owned by the given wallet.
    User(Pubkey),
    /// The pooled balance holding staked collateral.
    StakingVault,
    /// The pooled balance loans are paid out of.
    LendingPool,
    /// The balance receiving oracle fees.
    Treasury,
}

/// One value movement the host ledger must perform, authorized by the
/// current holder of authority over `from`. An operation's record changes
/// and its transfer commands commit together or not at all.
#[derive(Clone, Copy, Debug)]
pub struct TransferCmd {
    pub from: BalanceId,
    pub to: BalanceId,
    pub amount: u64,
}

} // verus!
