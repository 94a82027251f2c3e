use chain_metrics::aggregate::{aggregate, fetch_and_transform, FetchOutcome};
use chain_metrics::display::display_metrics_table;
use chain_metrics::fees::parse_fee_micro;
use chain_metrics::moralis::{Block, Transaction};
use chain_metrics::numfmt::{i64_to_dec, u128_to_dec};
use chain_metrics::transform::{transform_block_to_metrics, Metrics};

fn make_tx(fee: &str) -> Transaction {
    Transaction {
        hash: "0xdeadbeef".to_string(),
        nonce: "0xdeadbeef".to_string(),
        transaction_index: "0".to_string(),
        from_address: "0xdeadbeef".to_string(),
        from_address_label: None,
        to_address: "0xdeadbeef".to_string(),
        to_address_label: None,
        value: "0".to_string(),
        gas: "21000".to_string(),
        gas_price: "7".to_string(),
        input: "0x".to_string(),
        receipt_cumulative_gas_used: "21000".to_string(),
        receipt_gas_used: "21000".to_string(),
        receipt_contract_address: None,
        receipt_root: None,
        receipt_status: "1".to_string(),
        block_timestamp: "1635734400".to_string(),
        block_number: "1337".to_string(),
        block_hash: "0xdeadbeef".to_string(),
        transfer_index: vec![],
        logs: vec![],
        transaction_fee: fee.to_string(),
    }
}

fn make_block(transactions: Vec<Transaction>) -> Block {
    Block {
        timestamp: "1635734400".to_string(),
        number: "1337".to_string(),
        hash: "0xdeadbeef".to_string(),
        parent_hash: "0xdeadbeef".to_string(),
        nonce: "0xdeadbeef".to_string(),
        sha3_uncles: "0xdeadbeef".to_string(),
        logs_bloom: "0xdeadbeef".to_string(),
        transactions_root: "0xdeadbeef".to_string(),
        state_root: "0xdeadbeef".to_string(),
        receipts_root: "0xdeadbeef".to_string(),
        miner: "0xdeadbeef".to_string(),
        difficulty: "0xdeadbeef".to_string(),
        total_difficulty: "0xdeadbeef".to_string(),
        size: "1337".to_string(),
        extra_data: "0xdeadbeef".to_string(),
        gas_limit: "1337".to_string(),
        gas_used: "1337".to_string(),
        transaction_count: "1337".to_string(),
        base_fee_per_gas: "1337".to_string(),
        transactions,
    }
}

#[test]
fn test_transform_block_to_metrics() {
    let block = make_block(vec![]);
    let metrics = transform_block_to_metrics("Ethereum", &block);
    assert_eq!(metrics.blockchain, "Ethereum");
    assert_eq!(metrics.transaction_count, "1337");
}

#[test]
fn transform_empty_transactions_yields_zero_fee() {
    let block = make_block(vec![]);
    let metrics = transform_block_to_metrics("eth", &block);
    assert_eq!(metrics.transaction_fees, "0.000000 ETH");
}

#[test]
fn transform_unparsable_fee_contributes_zero() {
    let block = make_block(vec![make_tx("not-a-number"), make_tx("1.5")]);
    let metrics = transform_block_to_metrics("eth", &block);
    assert_eq!(metrics.transaction_fees, "1.500000 ETH");
}

#[test]
fn transform_adds_unit_suffixes_and_copies_fields() {
    let block = make_block(vec![]);
    let metrics = transform_block_to_metrics("eth", &block);
    assert_eq!(metrics.gas_used, "1337 gas");
    assert_eq!(metrics.block_size, "1337 bytes");
    assert_eq!(metrics.base_fee_per_gas, "1337 Wei");
    assert_eq!(metrics.block_number, "1337");
    assert_eq!(metrics.timestamp, "1635734400");
}

#[test]
fn transform_sums_several_fees() {
    let block = make_block(vec![make_tx("0.25"), make_tx("1"), make_tx("0.125")]);
    let metrics = transform_block_to_metrics("eth", &block);
    assert_eq!(metrics.transaction_fees, "1.375000 ETH");
}

#[test]
fn parse_fee_handles_decimal_forms() {
    assert_eq!(parse_fee_micro("1.5"), Some(1_500_000));
    assert_eq!(parse_fee_micro("0.002"), Some(2_000));
    assert_eq!(parse_fee_micro("7"), Some(7_000_000));
    assert_eq!(parse_fee_micro(".5"), Some(500_000));
    assert_eq!(parse_fee_micro("5."), Some(5_000_000));
    assert_eq!(parse_fee_micro("1.2345678"), Some(1_234_567));
}

#[test]
fn parse_fee_rejects_malformed_fields() {
    assert_eq!(parse_fee_micro(""), None);
    assert_eq!(parse_fee_micro("."), None);
    assert_eq!(parse_fee_micro("abc"), None);
    assert_eq!(parse_fee_micro("1.2.3"), None);
    assert_eq!(parse_fee_micro("-1"), None);
    assert_eq!(parse_fee_micro("1e3"), None);
    assert_eq!(parse_fee_micro("1 5"), None);
}

#[test]
fn parse_fee_handles_the_largest_value() {
    assert_eq!(
        parse_fee_micro("18446744073709.551615"),
        Some(u64::MAX)
    );
    assert_eq!(parse_fee_micro("18446744073709.551616"), None);
    assert_eq!(parse_fee_micro("99999999999999"), None);
}

#[test]
fn aggregate_keeps_successes_and_failures_apart() {
    let m1 = transform_block_to_metrics("eth", &make_block(vec![]));
    let m2 = transform_block_to_metrics("polygon", &make_block(vec![]));
    let outcomes = vec![
        FetchOutcome::Success(m1),
        FetchOutcome::Failed("transport error".to_string()),
        FetchOutcome::Success(m2),
    ];
    let result = aggregate(outcomes);
    assert_eq!(result.metrics.len(), 2);
    assert_eq!(result.failures.len(), 1);
    assert_eq!(result.metrics[0].blockchain, "eth");
    assert_eq!(result.metrics[1].blockchain, "polygon");
    assert_eq!(result.failures[0], "transport error");
}

#[test]
fn aggregate_of_equal_outcomes_is_identical() {
    let build = || {
        vec![
            FetchOutcome::Success(transform_block_to_metrics("eth", &make_block(vec![]))),
            FetchOutcome::Failed("transport error".to_string()),
        ]
    };
    let first = aggregate(build());
    let second = aggregate(build());
    assert_eq!(first.metrics.len(), second.metrics.len());
    for (a, b) in first.metrics.iter().zip(second.metrics.iter()) {
        assert_eq!(a.blockchain, b.blockchain);
        assert_eq!(a.block_number, b.block_number);
        assert_eq!(a.timestamp, b.timestamp);
        assert_eq!(a.gas_used, b.gas_used);
        assert_eq!(a.transaction_count, b.transaction_count);
        assert_eq!(a.block_size, b.block_size);
        assert_eq!(a.transaction_fees, b.transaction_fees);
        assert_eq!(a.base_fee_per_gas, b.base_fee_per_gas);
    }
    assert_eq!(first.failures, second.failures);
}

#[test]
fn render_of_no_metrics_keeps_header_and_legend() {
    let table = display_metrics_table(vec![]);
    assert_eq!(table.matches("<tr><td>").count(), 0);
    assert!(table.contains("<h1>Blockchain Metrics</h1>"));
    assert!(table.contains("<th>Blockchain</th>"));
    assert!(table.contains("<th>Base Fee Per Gas</th>"));
    assert!(table.contains("<h2>Legend</h2>"));
    assert!(table.contains("Minimum gas price per unit of gas (in Wei)"));
}

#[test]
fn render_is_well_formed() {
    let m = transform_block_to_metrics("eth", &make_block(vec![]));
    let table = display_metrics_table(vec![m]);
    // The table is closed before the legend, and the document once, at the end.
    assert!(table.find("</table>").unwrap() < table.find("<h2>Legend</h2>").unwrap());
    assert_eq!(table.matches("</table>").count(), 1);
    assert_eq!(table.matches("</body></html>").count(), 1);
    assert!(table.ends_with("</body></html>"));
}

#[test]
fn render_has_one_row_per_metric_with_every_field() {
    let m1 = transform_block_to_metrics("eth", &make_block(vec![make_tx("1.5")]));
    let m2 = transform_block_to_metrics("polygon", &make_block(vec![]));
    let table = display_metrics_table(vec![m1, m2]);
    assert_eq!(table.matches("<tr><td>").count(), 2);
    assert!(table.contains(
        "<tr><td>eth</td><td>1337</td><td>1635734400</td><td>1337 gas</td><td>1337</td>\
         <td>1337 bytes</td><td>1.500000 ETH</td><td>1337 Wei</td></tr>"
    ));
    assert!(table.contains(
        "<tr><td>polygon</td><td>1337</td><td>1635734400</td><td>1337 gas</td><td>1337</td>\
         <td>1337 bytes</td><td>0.000000 ETH</td><td>1337 Wei</td></tr>"
    ));
}

#[test]
fn end_to_end_one_network_fails() {
    let mut eth_block = make_block(vec![make_tx("0.002")]);
    eth_block.number = "100".to_string();
    eth_block.gas_used = "21000".to_string();
    eth_block.size = "500".to_string();
    eth_block.base_fee_per_gas = "7".to_string();

    let eth = fetch_and_transform("eth", Ok(eth_block));
    let polygon: Result<Metrics, String> =
        fetch_and_transform("polygon", Err("transport error".to_string()));

    let mut outcomes = Vec::new();
    match eth {
        Ok(m) => outcomes.push(FetchOutcome::Success(m)),
        Err(e) => outcomes.push(FetchOutcome::Failed(e)),
    }
    match polygon {
        Ok(m) => outcomes.push(FetchOutcome::Success(m)),
        Err(e) => outcomes.push(FetchOutcome::Failed(e)),
    }

    let result = aggregate(outcomes);
    assert_eq!(result.metrics.len(), 1);
    assert_eq!(result.metrics[0].blockchain, "eth");
    assert_eq!(result.metrics[0].transaction_fees, "0.002000 ETH");
    assert_eq!(result.metrics[0].gas_used, "21000 gas");
    assert_eq!(
        result.failures[0],
        "Error fetching block for polygon: \"transport error\""
    );

    let table = display_metrics_table(result.metrics);
    assert_eq!(table.matches("<tr><td>").count(), 1);
}

#[test]
fn end_to_end_all_networks_fail() {
    let networks = ["eth", "polygon", "bsc"];
    let mut outcomes = Vec::new();
    for network in networks {
        match fetch_and_transform(network, Err("connection refused".to_string())) {
            Ok(m) => outcomes.push(FetchOutcome::Success(m)),
            Err(e) => outcomes.push(FetchOutcome::Failed(e)),
        }
    }
    let result = aggregate(outcomes);
    assert_eq!(result.metrics.len(), 0);
    assert_eq!(result.failures.len(), 3);

    let table = display_metrics_table(result.metrics);
    assert_eq!(table.matches("<tr><td>").count(), 0);
    assert!(table.contains("<th>Blockchain</th>"));
    assert!(table.contains("<h2>Legend</h2>"));
}

#[test]
fn numerals_render_in_base_ten() {
    assert_eq!(u128_to_dec(0), "0");
    assert_eq!(u128_to_dec(1337), "1337");
    assert_eq!(u128_to_dec(1_000_000_000_000), "1000000000000");
    assert_eq!(i64_to_dec(-42), "-42");
    assert_eq!(i64_to_dec(0), "0");
    assert_eq!(i64_to_dec(i64::MIN), "-9223372036854775808");
}
