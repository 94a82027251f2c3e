//! Data model of the remote block-indexing service and the request URLs the
//! service is called with.
//!
//! A [`Block`] is the raw record of one network's latest block, exactly as
//! the remote service reports it: every numeric field is text and may be
//! malformed. The process around the library performs the two HTTP calls per
//! network — resolve the block number for "now", then fetch that block's
//! details — and hands the parsed record in; the URLs of those two calls are
//! built and pinned down here.

use vstd::prelude::*;
use vstd::string::*;
use crate::numfmt::{i64_to_dec, spec_signed_dec};

verus! {

/// One entry of a transaction's event log, as reported by the remote
/// service.
pub struct Log {
    pub log_index: String,
    pub transaction_hash: String,
    pub transaction_index: String,
    pub address: String,
    pub data: String,
    pub topic0: String,
    pub topic1: Option<String>,
    pub topic2: Option<String>,
    pub topic3: Option<String>,
    pub block_timestamp: String,
    pub block_number: String,
    pub block_hash: String,
    pub transfer_index: Vec<i64>,
    pub transaction_value: String,
}

/// One transaction of a block, as reported by the remote service. Only
/// `transaction_fee` is read by the normalization step; the other fields are
/// carried through untouched.
pub struct Transaction {
    pub hash: String,
    pub nonce: String,
    pub transaction_index: String,
    pub from_address: String,
    pub from_address_label: Option<String>,
    pub to_address: String,
    pub to_address_label: Option<String>,
    pub value: String,
    pub gas: String,
    pub gas_price: String,
    pub input: String,
    pub receipt_cumulative_gas_used: String,
    pub receipt_gas_used: String,
    pub receipt_contract_address: Option<String>,
    pub receipt_root: Option<String>,
    pub receipt_status: String,
    pub block_timestamp: String,
    pub block_number: String,
    pub block_hash: String,
    pub transfer_index: Vec<i64>,
    pub logs: Vec<Log>,
    pub transaction_fee: String,
}

/// The raw record of one block, as reported by the remote service. All
/// numeric fields arrive as text and are treated as potentially malformed.
pub struct Block {
    pub timestamp: String,
    pub number: String,
    pub hash: String,
    pub parent_hash: String,
    pub nonce: String,
    pub sha3_uncles: String,
    pub logs_bloom: String,
    pub transactions_root: String,
    pub state_root: String,
    pub receipts_root: String,
    pub miner: String,
    pub difficulty: String,
    pub total_difficulty: String,
    pub size: String,
    pub extra_data: String,
    pub gas_limit: String,
    pub gas_used: String,
    pub transaction_count: String,
    pub base_fee_per_gas: String,
    pub transactions: Vec<Transaction>,
}

/// The URL that resolves a network's block number as of `date_millis`
/// milliseconds since the Unix epoch.
pub open spec fn spec_date_to_block_url(chain: Seq<char>, date_millis: int) -> Seq<char> {
    "https://deep-index.moralis.io/api/v2.2/dateToBlock?chain="@ + chain + "&date="@
        + spec_signed_dec(date_millis)
}

/// The URL that fetches the details of one block of a network.
pub open spec fn spec_block_details_url(chain: Seq<char>, block_number: int) -> Seq<char> {
    "https://deep-index.moralis.io/api/v2.2/block/"@ + spec_signed_dec(block_number) + "?chain="@
        + chain
}

/// Builds the date-to-block request URL for a network and a moment in time.
pub fn date_to_block_url(chain: &str, date_millis: i64) -> (u: String)
    ensures
        u@ == spec_date_to_block_url(chain@, date_millis as int),
{
    let mut u = "https://deep-index.moralis.io/api/v2.2/dateToBlock?chain=".to_owned();
    u.append(chain);
    u.append("&date=");
    let num = i64_to_dec(date_millis);
    u.append(num.as_str());
    proof {
        assert(u@ =~= spec_date_to_block_url(chain@, date_millis as int));
    }
    u
}

/// Builds the block-details request URL for a network and a block number.
pub fn block_details_url(chain: &str, block_number: i64) -> (u: String)
    ensures
        u@ == spec_block_details_url(chain@, block_number as int),
{
    let mut u = "https://deep-index.moralis.io/api/v2.2/block/".to_owned();
    let num = i64_to_dec(block_number);
    u.append(num.as_str());
    u.append("?chain=");
    u.append(chain);
    proof {
        assert(u@ =~= spec_block_details_url(chain@, block_number as int));
    }
    u
}

/// Relies on chrono's `Utc::now`: the current wall-clock time, read here in
/// whole milliseconds since the Unix epoch. Nothing can be promised of the
/// value.
#[verifier::external_body]
fn now_millis() -> i64 {
    chrono::Utc::now().timestamp_millis()
}

/// Builds the date-to-block request URL for a network as of the moment of
/// the call: the URL for some point in time, which one depending on the
/// clock.
pub fn date_to_block_url_now(chain: &str) -> (u: String)
    ensures
        exists|date_millis: int| u@ == spec_date_to_block_url(chain@, date_millis),
{
    let millis = now_millis();
    let u = date_to_block_url(chain, millis);
    proof {
        assert(u@ == spec_date_to_block_url(chain@, millis as int));
    }
    u
}

} // verus!
