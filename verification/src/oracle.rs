use vstd::prelude::*;
use vstd::bytes::{spec_u64_to_le_bytes, u64_to_le_bytes};
use crate::state::Pubkey;

verus! {

/// The canonical message an oracle attestation signs: the borrower's
/// address, then the requested amount, the credit score byte and the oracle
/// fee, the integers little-endian.
pub open spec fn oracle_message_spec(
    borrower: Seq<u8>,
    amount: u64,
    credit_score: u8,
    oracle_fee: u64,
) -> Seq<u8> {
    borrower + spec_u64_to_le_bytes(amount) + seq![credit_score] + spec_u64_to_le_bytes(
        oracle_fee,
    )
}

/// Builds the canonical message a loan request's attestation must sign.
///
/// The oracle verifier itself is an external collaborator: the host checks
/// the 64-byte signature over this message against the configured oracle
/// key and hands the verdict to `Protocol::request_loan`.
pub fn oracle_message(
    borrower: &Pubkey,
    amount: u64,
    credit_score: u8,
    oracle_fee: u64,
) -> (m: Vec<u8>)
    ensures
        m@ == oracle_message_spec(borrower@, amount, credit_score, oracle_fee),
{
    let mut m: Vec<u8> = Vec::new();
    let mut i: usize = 0;
    while i < 32
        invariant
            0 <= i <= 32,
            m@ =~= borrower@.subrange(0, i as int),
        decreases 32 - i,
    {
        m.push(borrower.bytes[i]);
        i += 1;
    }
    proof {
        assert(m@ =~= borrower@);
    }
    let amount_bytes = u64_to_le_bytes(amount);
    let mut k: usize = 0;
    while k < amount_bytes.len()
        invariant
            0 <= k <= amount_bytes@.len(),
            m@ =~= borrower@ + amount_bytes@.subrange(0, k as int),
        decreases amount_bytes@.len() - k,
    {
        m.push(amount_bytes[k]);
        k += 1;
    }
    m.push(credit_score);
    let fee_bytes = u64_to_le_bytes(oracle_fee);
    let mut k2: usize = 0;
    while k2 < fee_bytes.len()
        invariant
            0 <= k2 <= fee_bytes@.len(),
            m@ =~= borrower@ + amount_bytes@ + seq![credit_score] + fee_bytes@.subrange(
                0,
                k2 as int,
            ),
        decreases fee_bytes@.len() - k2,
    {
        m.push(fee_bytes[k2]);
        k2 += 1;
    }
    proof {
        assert(m@ =~= oracle_message_spec(borrower@, amount, credit_score, oracle_fee));
    }
    m
}

} // verus!
