//! Fan-in of the per-network fetch-and-transform outcomes.
//!
//! One aggregation pass issues one independent fetch per requested network;
//! the process around the library runs those fetches concurrently and waits
//! for every one of them to finish or fail. Each finished unit yields a
//! tagged [`FetchOutcome`]; this module states and proves what becomes of
//! them: every success contributes its metrics record, every failure is
//! recorded and absorbed, and the pass as a whole never fails — an empty
//! result is a valid outcome.

use vstd::prelude::*;
use vstd::string::*;
use crate::moralis::Block;
use crate::transform::{is_transform_of, transform_block_to_metrics, Metrics};

verus! {

/// The outcome of one network's fetch-and-transform unit: its normalized
/// metrics, or the reason the fetch failed.
pub enum FetchOutcome {
    Success(Metrics),
    Failed(String),
}

/// What one aggregation pass yields: the metrics of every network whose
/// fetch succeeded, and the recorded reason for every one that failed. The
/// failures are kept for observability only and never reach the rendered
/// report.
pub struct AggregateResult {
    pub metrics: Vec<Metrics>,
    pub failures: Vec<String>,
}

/// The metrics of the successful outcomes, in outcome order.
pub open spec fn successes_of(s: Seq<FetchOutcome>) -> Seq<Metrics>
    decreases s.len(),
{
    if s.len() == 0 {
        Seq::empty()
    } else {
        successes_of(s.drop_last()) + match s.last() {
            FetchOutcome::Success(m) => seq![m],
            FetchOutcome::Failed(_) => Seq::empty(),
        }
    }
}

/// The reasons of the failed outcomes, in outcome order.
pub open spec fn failures_of(s: Seq<FetchOutcome>) -> Seq<String>
    decreases s.len(),
{
    if s.len() == 0 {
        Seq::empty()
    } else {
        failures_of(s.drop_last()) + match s.last() {
            FetchOutcome::Success(_) => Seq::empty(),
            FetchOutcome::Failed(e) => seq![e],
        }
    }
}

/// The per-network step: a fetched raw block is normalized; a failed fetch
/// becomes a message naming the failing network and quoting the reason. The
/// step itself never fails beyond passing the fetch failure on.
pub fn fetch_and_transform(blockchain: &str, fetched: Result<Block, String>) -> (r: Result<
    Metrics,
    String,
>)
    ensures
        fetched is Ok ==> r is Ok && is_transform_of(r->Ok_0, blockchain@, fetched->Ok_0),
        fetched is Err ==> r is Err && r->Err_0@ == "Error fetching block for "@ + blockchain@
            + ": \""@ + fetched->Err_0@ + "\""@,
{
    match fetched {
        Ok(block) => Ok(transform_block_to_metrics(blockchain, &block)),
        Err(err) => {
            let mut msg = "Error fetching block for ".to_owned();
            msg.append(blockchain);
            msg.append(": \"");
            msg.append(err.as_str());
            msg.append("\"");
            proof {
                assert(msg@ =~= "Error fetching block for "@ + blockchain@ + ": \""@ + err@
                    + "\""@);
            }
            Err(msg)
        },
    }
}

/// Collects the finished per-network outcomes of one pass: every success's
/// metrics and every failure's reason, each in outcome order. The pass
/// always succeeds, whatever the outcomes hold; with no successful network
/// the metrics list is empty and that is a valid result.
pub fn aggregate(outcomes: Vec<FetchOutcome>) -> (r: AggregateResult)
    ensures
        r.metrics@ == successes_of(outcomes@),
        r.failures@ == failures_of(outcomes@),
{
    let ghost all = outcomes@;
    let mut rest = outcomes;
    let mut metrics: Vec<Metrics> = Vec::new();
    let mut failures: Vec<String> = Vec::new();
    let ghost mut seen: Seq<FetchOutcome> = Seq::empty();
    while rest.len() > 0
        invariant
            all == seen + rest@,
            metrics@ == successes_of(seen),
            failures@ == failures_of(seen),
        decreases rest@.len(),
    {
        let o = rest.remove(0);
        proof {
            assert(seen.push(o) + rest@ =~= all);
            assert(seen.push(o).drop_last() =~= seen);
            assert(seen.push(o).last() == o);
        }
        let ghost prev_metrics = metrics@;
        let ghost prev_failures = failures@;
        proof {
            seen = seen.push(o);
        }
        match o {
            FetchOutcome::Success(m) => {
                metrics.push(m);
                proof {
                    assert(metrics@ =~= successes_of(seen));
                    assert(failures@ =~= failures_of(seen));
                }
            },
            FetchOutcome::Failed(e) => {
                failures.push(e);
                proof {
                    assert(metrics@ =~= successes_of(seen));
                    assert(failures@ =~= failures_of(seen));
                }
            },
        }
    }
    proof {
        assert(seen =~= all);
    }
    AggregateResult { metrics, failures }
}

/// Graceful degradation: of `k` requested networks of which `f` fail, an
/// aggregation pass yields exactly `k - f` metrics records — every outcome
/// is either counted as a success or recorded as a failure, and a pass over
/// any outcomes at all is a valid, non-error result.
pub proof fn lemma_aggregate_degrades_gracefully(outcomes: Seq<FetchOutcome>)
    ensures
        successes_of(outcomes).len() + failures_of(outcomes).len() == outcomes.len(),
        successes_of(outcomes).len() <= outcomes.len(),
    decreases outcomes.len(),
{
    if outcomes.len() > 0 {
        lemma_aggregate_degrades_gracefully(outcomes.drop_last());
    }
}

/// Idempotence of a pass: aggregation adds no state of its own, so two
/// passes over equal per-network outcomes — as when nothing changed in the
/// underlying data source between them — yield field-identical metrics and
/// failure lists.
pub proof fn lemma_aggregate_idempotent(first: Seq<FetchOutcome>, second: Seq<FetchOutcome>)
    requires
        first == second,
    ensures
        successes_of(first) == successes_of(second),
        failures_of(first) == failures_of(second),
{
}

} // verus!
