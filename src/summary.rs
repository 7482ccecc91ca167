use vstd::prelude::*;
use crate::probe::ProbeResult;

verus! {

/// How many results of the batch are successes.
pub open spec fn count_up(s: Seq<ProbeResult>) -> nat
    decreases s.len(),
{
    if s.len() == 0 {
        0
    } else {
        count_up(s.drop_last()) + if s.last().status is Ok {
            1nat
        } else {
            0nat
        }
    }
}

/// The total response time of the successes of the batch.
pub open spec fn up_time_sum(s: Seq<ProbeResult>) -> nat
    decreases s.len(),
{
    if s.len() == 0 {
        0
    } else {
        up_time_sum(s.drop_last()) + if s.last().status is Ok {
            s.last().response_time_ms as nat
        } else {
            0nat
        }
    }
}

/// The mean response time of the successes, rounded down; absent when there
/// is none.
pub open spec fn average_up_time(s: Seq<ProbeResult>) -> Option<nat> {
    if count_up(s) == 0 {
        None
    } else {
        Some(up_time_sum(s) / count_up(s))
    }
}

/// Figures on one completed cycle.
#[derive(Clone, Copy, Debug, PartialEq, Eq, Structural)]
pub struct CycleStatistics {
    pub total: usize,
    pub succeeded: usize,
    pub failed: usize,
    /// Mean response time of the successes in milliseconds, `None` when no
    /// probe succeeded.
    pub average_response_ms: Option<u64>,
}

proof fn lemma_mean_fits(sum: int, n: int)
    requires
        n > 0,
        0 <= sum <= n * 0xFFFF_FFFF_FFFF_FFFF,
    ensures
        sum / n <= 0xFFFF_FFFF_FFFF_FFFF,
{
    assert(sum / n <= 0xFFFF_FFFF_FFFF_FFFF) by (nonlinear_arith)
        requires
            n > 0,
            0 <= sum <= n * 0xFFFF_FFFF_FFFF_FFFF,
    ;
}

/// Counts the successes and failures of a batch and averages the response
/// time over the successes only.
pub fn summarize(results: &Vec<ProbeResult>) -> (st: CycleStatistics)
    ensures
        st.total == results@.len(),
        st.succeeded == count_up(results@),
        st.failed == results@.len() - count_up(results@),
        st.average_response_ms is None <==> average_up_time(results@) is None,
        st.average_response_ms is Some ==> st.average_response_ms->0 as nat == average_up_time(
            results@,
        )->0,
{
    let n = results.len();
    let mut up: usize = 0;
    let mut sum: u128 = 0;
    let mut i: usize = 0;
    while i < n
        invariant
            n == results@.len(),
            i <= n,
            up <= i,
            up == count_up(results@.subrange(0, i as int)),
            sum == up_time_sum(results@.subrange(0, i as int)),
            sum <= up * 0xFFFF_FFFF_FFFF_FFFFu128,
        decreases n - i,
    {
        assert(results@.subrange(0, i + 1).drop_last() =~= results@.subrange(0, i as int));
        if results[i].status.is_ok() {
            sum = sum + results[i].response_time_ms as u128;
            up = up + 1;
        }
        i = i + 1;
    }
    assert(results@.subrange(0, n as int) =~= results@);
    let average_response_ms = if up == 0 {
        None
    } else {
        proof {
            lemma_mean_fits(sum as int, up as int);
        }
        Some((sum / (up as u128)) as u64)
    };
    CycleStatistics { total: n, succeeded: up, failed: n - up, average_response_ms }
}

} // verus!
