//! Normalization of one raw block into a display-ready metrics record.
//!
//! Every field of a [`Metrics`] value is a finished display string. The fee
//! total is the only field that is computed rather than copied or suffixed:
//! the fees of all transactions of the block are summed in millionths, any
//! unparsable fee contributing zero, and the sum is rendered with exactly
//! six fractional digits.

use vstd::prelude::*;
use vstd::string::*;
use crate::fees::{fee_or_zero, parse_fee_micro};
use crate::moralis::{Block, Transaction};
use crate::numfmt::{frac6_to_dec, spec_dec, spec_frac6, u128_to_dec};

verus! {

/// The normalized, presentation-ready metrics of one block of one network.
#[derive(Clone)]
pub struct Metrics {
    pub blockchain: String,
    pub block_number: String,
    pub timestamp: String,
    pub gas_used: String,  // in units of gas
    pub transaction_count: String,
    pub block_size: String,  // in bytes
    pub transaction_fees: String,  // in Ether/Token
    pub base_fee_per_gas: String,  // in Wei
}

/// The fee total of a transaction list, in millionths: every transaction
/// contributes the value of its fee field, an unparsable fee contributing
/// zero.
pub open spec fn spec_fees_total(txs: Seq<Transaction>) -> nat
    decreases txs.len(),
{
    if txs.len() == 0 {
        0
    } else {
        spec_fees_total(txs.drop_last()) + fee_or_zero(txs.last().transaction_fee@)
    }
}

/// The display form of a fee total given in millionths: the whole part, a
/// decimal point, and exactly six fractional digits.
pub open spec fn spec_fee_display(total: nat) -> Seq<char> {
    spec_dec(total / 1000000) + "."@ + spec_frac6(total % 1000000)
}

/// Field-by-field statement of what normalizing `b` for network `chain`
/// yields: three fields copied verbatim, three suffixed with their unit, and
/// the fee total computed and rendered.
pub open spec fn is_transform_of(m: Metrics, chain: Seq<char>, b: Block) -> bool {
    &&& m.blockchain@ == chain
    &&& m.block_number@ == b.number@
    &&& m.timestamp@ == b.timestamp@
    &&& m.gas_used@ == b.gas_used@ + " gas"@
    &&& m.transaction_count@ == b.transaction_count@
    &&& m.block_size@ == b.size@ + " bytes"@
    &&& m.transaction_fees@ == spec_fee_display(spec_fees_total(b.transactions@)) + " ETH"@
    &&& m.base_fee_per_gas@ == b.base_fee_per_gas@ + " Wei"@
}

proof fn lemma_fees_total_push(txs: Seq<Transaction>, tx: Transaction)
    ensures
        spec_fees_total(txs.push(tx)) == spec_fees_total(txs) + fee_or_zero(tx.transaction_fee@),
{
    assert(txs.push(tx).drop_last() =~= txs);
    assert(txs.push(tx).last() == tx);
}

/// Sums the fees of a transaction list in millionths. The sum of arbitrarily
/// many 64-bit contributions fits in 128 bits.
fn sum_fees(txs: &Vec<Transaction>) -> (t: u128)
    ensures
        t as nat == spec_fees_total(txs@),
{
    let mut t: u128 = 0;
    let mut i: usize = 0;
    while i < txs.len()
        invariant
            i <= txs@.len(),
            t as nat == spec_fees_total(txs@.take(i as int)),
            t as nat <= (i as nat) * (u64::MAX as nat),
        decreases txs@.len() - i,
    {
        let f: u64 = match parse_fee_micro(txs[i].transaction_fee.as_str()) {
            Some(v) => v,
            None => 0,
        };
        proof {
            assert(txs@.take(i as int + 1) =~= txs@.take(i as int).push(txs@[i as int]));
            lemma_fees_total_push(txs@.take(i as int), txs@[i as int]);
            assert(f as nat == fee_or_zero(txs@[i as int].transaction_fee@));
            assert((i as nat) * (u64::MAX as nat) + (u64::MAX as nat) == ((i as nat) + 1) * (
            u64::MAX as nat)) by (nonlinear_arith);
            assert(((i as nat) + 1) * (u64::MAX as nat) <= 0x1_0000_0000_0000_0000 * (
            u64::MAX as nat)) by (nonlinear_arith)
                requires
                    (i as nat) + 1 <= 0x1_0000_0000_0000_0000,
            ;
        }
        t = t + (f as u128);
        i += 1;
    }
    proof {
        assert(txs@.take(txs@.len() as int) =~= txs@);
    }
    t
}

/// Transforms a Block into a Metrics struct.
pub fn transform_block_to_metrics(blockchain: &str, block: &Block) -> (m: Metrics)
    ensures
        is_transform_of(m, blockchain@, *block),
{
    let total = sum_fees(&block.transactions);

    let mut transaction_fees = u128_to_dec(total / 1000000);
    transaction_fees.append(".");
    let frac = frac6_to_dec((total % 1000000) as u64);
    transaction_fees.append(frac.as_str());
    transaction_fees.append(" ETH");

    let mut gas_used = block.gas_used.clone();
    gas_used.append(" gas");
    let mut block_size = block.size.clone();
    block_size.append(" bytes");
    let mut base_fee_per_gas = block.base_fee_per_gas.clone();
    base_fee_per_gas.append(" Wei");

    let m = Metrics {
        blockchain: blockchain.to_owned(),
        block_number: block.number.clone(),
        timestamp: block.timestamp.clone(),
        gas_used,
        transaction_count: block.transaction_count.clone(),
        block_size,
        transaction_fees,
        base_fee_per_gas,
    };
    proof {
        assert(m.transaction_fees@ =~= spec_fee_display(spec_fees_total(block.transactions@))
            + " ETH"@);
    }
    m
}

} // verus!
