//! Rendering of the collected metrics as an HTML report.
//!
//! The report is one table: a fixed header row naming the eight columns, one
//! data row per metric with its eight field values verbatim, and a fixed
//! legend explaining each column's meaning and unit. The contract pins the
//! produced markup exactly, so the header, the legend and every field of
//! every row are intact by construction.

use vstd::prelude::*;
use vstd::string::*;
use crate::transform::Metrics;

verus! {

/// One data row of the report: the eight fields of one metric, each in its
/// own cell, in column order.
pub open spec fn spec_row(m: Metrics) -> Seq<char> {
    "<tr><td>"@ + m.blockchain@ + "</td><td>"@ + m.block_number@ + "</td><td>"@ + m.timestamp@
        + "</td><td>"@ + m.gas_used@ + "</td><td>"@ + m.transaction_count@ + "</td><td>"@
        + m.block_size@ + "</td><td>"@ + m.transaction_fees@ + "</td><td>"@ + m.base_fee_per_gas@
        + "</td></tr>"@
}

/// The data rows of the report, in the order the metrics are given.
pub open spec fn spec_rows(ms: Seq<Metrics>) -> Seq<char>
    decreases ms.len(),
{
    if ms.len() == 0 {
        Seq::empty()
    } else {
        spec_rows(ms.drop_last()) + spec_row(ms.last())
    }
}

/// The whole report: page head with the column-header row, the data rows,
/// the closed table, the legend, and the closing tags.
pub open spec fn spec_table(ms: Seq<Metrics>) -> Seq<char> {
    "<html><head><style>table {width: 100%; border-collapse: collapse;} th, td {border: 1px solid #ddd; padding: 8px;} th {background-color: #f2f2f2; text-align: left;} </style></head><body><h1>Blockchain Metrics</h1><table><tr><th>Blockchain</th><th>Block Number</th><th>Timestamp</th><th>Gas Used</th><th>Transactions Count</th><th>Block Size</th><th>Transaction Fees</th><th>Base Fee Per Gas</th></tr>"@
        + spec_rows(ms) + "</table>"@
        + "<h2>Legend</h2><ul><li><strong>Gas Used</strong>: Total gas used per block (in units of gas)</li><li><strong>Transaction Count</strong>: Number of transactions in the block</li><li><strong>Block Size</strong>: Size of the block (in bytes)</li><li><strong>Transaction Fees</strong>: Total fees for transactions in the block (in Ether/Token)</li><li><strong>Base Fee Per Gas</strong>: Minimum gas price per unit of gas (in Wei)</li></ul></body></html>"@
}

proof fn lemma_rows_push(ms: Seq<Metrics>, m: Metrics)
    ensures
        spec_rows(ms.push(m)) == spec_rows(ms) + spec_row(m),
{
    assert(ms.push(m).drop_last() =~= ms);
    assert(ms.push(m).last() == m);
}

/// Appends one metric's data row to the report being built.
fn append_row(table: &mut String, m: &Metrics)
    ensures
        final (table)@ == old(table)@ + spec_row(*m),
{
    table.append("<tr><td>");
    table.append(m.blockchain.as_str());
    table.append("</td><td>");
    table.append(m.block_number.as_str());
    table.append("</td><td>");
    table.append(m.timestamp.as_str());
    table.append("</td><td>");
    table.append(m.gas_used.as_str());
    table.append("</td><td>");
    table.append(m.transaction_count.as_str());
    table.append("</td><td>");
    table.append(m.block_size.as_str());
    table.append("</td><td>");
    table.append(m.transaction_fees.as_str());
    table.append("</td><td>");
    table.append(m.base_fee_per_gas.as_str());
    table.append("</td></tr>");
    proof {
        assert(table@ =~= old(table)@ + spec_row(*m));
    }
}

/// Renders the metrics as the report described by [`spec_table`]: with no
/// metrics the report has its header row and legend and zero data rows; with
/// `n` metrics it has exactly `n` data rows, in the given order, each
/// carrying all eight field values of its metric unmodified.
pub fn display_metrics_table(metrics: Vec<Metrics>) -> (table: String)
    ensures
        table@ == spec_table(metrics@),
{
    let mut table =
        "<html><head><style>table {width: 100%; border-collapse: collapse;} th, td {border: 1px solid #ddd; padding: 8px;} th {background-color: #f2f2f2; text-align: left;} </style></head><body><h1>Blockchain Metrics</h1><table><tr><th>Blockchain</th><th>Block Number</th><th>Timestamp</th><th>Gas Used</th><th>Transactions Count</th><th>Block Size</th><th>Transaction Fees</th><th>Base Fee Per Gas</th></tr>".to_owned();
    let ghost head = table@;

    let mut i: usize = 0;
    while i < metrics.len()
        invariant
            i <= metrics@.len(),
            table@ == head + spec_rows(metrics@.take(i as int)),
        decreases metrics@.len() - i,
    {
        append_row(&mut table, &metrics[i]);
        proof {
            assert(metrics@.take(i as int + 1) =~= metrics@.take(i as int).push(
                metrics@[i as int],
            ));
            lemma_rows_push(metrics@.take(i as int), metrics@[i as int]);
            assert(table@ =~= head + spec_rows(metrics@.take(i as int + 1)));
        }
        i += 1;
    }

    table.append("</table>");
    table.append(
        "<h2>Legend</h2><ul><li><strong>Gas Used</strong>: Total gas used per block (in units of gas)</li><li><strong>Transaction Count</strong>: Number of transactions in the block</li><li><strong>Block Size</strong>: Size of the block (in bytes)</li><li><strong>Transaction Fees</strong>: Total fees for transactions in the block (in Ether/Token)</li><li><strong>Base Fee Per Gas</strong>: Minimum gas price per unit of gas (in Wei)</li></ul></body></html>",
    );
    proof {
        assert(metrics@.take(metrics@.len() as int) =~= metrics@);
        assert(table@ =~= spec_table(metrics@));
    }
    table
}

proof fn lemma_rows_contain_each_row(ms: Seq<Metrics>, i: int)
    requires
        0 <= i < ms.len(),
    ensures
        exists|a: int|
            0 <= a && a + spec_row(ms[i]).len() <= spec_rows(ms).len() && #[trigger] spec_rows(
                ms,
            ).subrange(a, a + spec_row(ms[i]).len() as int) == spec_row(ms[i]),
    decreases ms.len(),
{
    if i == ms.len() - 1 {
        let a = spec_rows(ms.drop_last()).len() as int;
        assert(spec_rows(ms).subrange(a, a + spec_row(ms[i]).len() as int) =~= spec_row(ms[i]));
    } else {
        lemma_rows_contain_each_row(ms.drop_last(), i);
        let a = choose|a: int|
            0 <= a && a + spec_row(ms.drop_last()[i]).len() <= spec_rows(ms.drop_last()).len()
                && #[trigger] spec_rows(ms.drop_last()).subrange(
                a,
                a + spec_row(ms.drop_last()[i]).len() as int,
            ) == spec_row(ms.drop_last()[i]);
        assert(ms.drop_last()[i] == ms[i]);
        assert(spec_rows(ms).subrange(a, a + spec_row(ms[i]).len() as int) =~= spec_rows(
            ms.drop_last(),
        ).subrange(a, a + spec_row(ms[i]).len() as int));
    }
}

/// Every metric's complete data row stands somewhere in the rendered
/// report: the report contains, for each given metric, the contiguous row
/// markup holding all eight of its field values unmodified.
pub proof fn lemma_table_contains_each_row(ms: Seq<Metrics>, i: int)
    requires
        0 <= i < ms.len(),
    ensures
        exists|a: int|
            0 <= a && a + spec_row(ms[i]).len() <= spec_table(ms).len() && #[trigger] spec_table(
                ms,
            ).subrange(a, a + spec_row(ms[i]).len() as int) == spec_row(ms[i]),
{
    lemma_rows_contain_each_row(ms, i);
    let a = choose|a: int|
        0 <= a && a + spec_row(ms[i]).len() <= spec_rows(ms).len() && #[trigger] spec_rows(
            ms,
        ).subrange(a, a + spec_row(ms[i]).len() as int) == spec_row(ms[i]);
    let head =
        "<html><head><style>table {width: 100%; border-collapse: collapse;} th, td {border: 1px solid #ddd; padding: 8px;} th {background-color: #f2f2f2; text-align: left;} </style></head><body><h1>Blockchain Metrics</h1><table><tr><th>Blockchain</th><th>Block Number</th><th>Timestamp</th><th>Gas Used</th><th>Transactions Count</th><th>Block Size</th><th>Transaction Fees</th><th>Base Fee Per Gas</th></tr>"@;
    let b = head.len() as int + a;
    assert(spec_table(ms).subrange(b, b + spec_row(ms[i]).len() as int) =~= spec_rows(ms).subrange(
        a,
        a + spec_row(ms[i]).len() as int,
    ));
    assert(spec_table(ms).subrange(b, b + spec_row(ms[i]).len() as int) == spec_row(ms[i]));
}

} // verus!
