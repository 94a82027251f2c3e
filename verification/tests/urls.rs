use chain_metrics::moralis::{block_details_url, date_to_block_url, date_to_block_url_now};

#[test]
fn date_to_block_url_is_exact() {
    assert_eq!(
        date_to_block_url("eth", 1700000000000),
        "https://deep-index.moralis.io/api/v2.2/dateToBlock?chain=eth&date=1700000000000"
    );
}

#[test]
fn block_details_url_is_exact() {
    assert_eq!(
        block_details_url("polygon", 12345),
        "https://deep-index.moralis.io/api/v2.2/block/12345?chain=polygon"
    );
}

#[test]
fn date_to_block_url_now_uses_the_clock() {
    let url = date_to_block_url_now("eth");
    let prefix = "https://deep-index.moralis.io/api/v2.2/dateToBlock?chain=eth&date=";
    assert!(url.starts_with(prefix));
    let millis: i64 = url[prefix.len()..].parse().unwrap();
    // The clock reads a moment after 2020, well before the year 10000.
    assert!(millis > 1_577_836_800_000);
    assert!(millis < 253_402_300_800_000);
}
