//! Success-rate summaries that exclude unsettled traces.
use vstd::prelude::*;
use crate::text::owned;

verus! {

/// The counters of one success-rate metric.
#[derive(Debug, Clone, PartialEq, Eq)]
pub struct MetricSummary {
    pub numerator: u64,
    pub denominator: u64,
    pub excluded_in_flight: u64,
    pub excluded_unknown: u64,
    pub definition_version: String,
}

/// One trace as a metric sees it.
#[derive(Debug, Clone, Copy, PartialEq, Eq, Structural)]
pub struct MetricRow {
    pub terminal_eligible: bool,
    pub success: bool,
    pub in_flight: bool,
    pub unknown: bool,
}

/// Rows still in flight.
pub open spec fn in_flight_count(rows: Seq<MetricRow>) -> nat
    decreases rows.len(),
{
    if rows.len() == 0 {
        0
    } else {
        in_flight_count(rows.drop_last()) + if rows.last().in_flight { 1nat } else { 0nat }
    }
}

/// Settled rows whose outcome is unknown.
pub open spec fn unknown_count(rows: Seq<MetricRow>) -> nat
    decreases rows.len(),
{
    if rows.len() == 0 {
        0
    } else {
        unknown_count(rows.drop_last()) + if !rows.last().in_flight && rows.last().unknown {
            1nat
        } else {
            0nat
        }
    }
}

/// A row counts toward the rate when it is settled, known and eligible.
pub open spec fn counted(row: MetricRow) -> bool {
    !row.in_flight && !row.unknown && row.terminal_eligible
}

/// Rows in the denominator.
pub open spec fn denominator_count(rows: Seq<MetricRow>) -> nat
    decreases rows.len(),
{
    if rows.len() == 0 {
        0
    } else {
        denominator_count(rows.drop_last()) + if counted(rows.last()) { 1nat } else { 0nat }
    }
}

/// Counted rows that succeeded.
pub open spec fn numerator_count(rows: Seq<MetricRow>) -> nat
    decreases rows.len(),
{
    if rows.len() == 0 {
        0
    } else {
        numerator_count(rows.drop_last()) + if counted(rows.last()) && rows.last().success {
            1nat
        } else {
            0nat
        }
    }
}

/// Every row is counted at most once, and a success is counted only in a row
/// that is in the denominator.
pub proof fn metric_counts_partition(rows: Seq<MetricRow>)
    ensures
        numerator_count(rows) <= denominator_count(rows),
        denominator_count(rows) + in_flight_count(rows) + unknown_count(rows) <= rows.len(),
    decreases rows.len(),
{
    if rows.len() > 0 {
        metric_counts_partition(rows.drop_last());
    }
}

/// Computes a success rate's counters: in-flight and unknown rows are
/// excluded, and only eligible rows enter the denominator.
pub fn summarize_metric(rows: &[MetricRow], definition_version: &str) -> (s: MetricSummary)
    ensures
        s.numerator == numerator_count(rows@),
        s.denominator == denominator_count(rows@),
        s.excluded_in_flight == in_flight_count(rows@),
        s.excluded_unknown == unknown_count(rows@),
        s.definition_version@ == definition_version@,
{
    let mut numerator: u64 = 0;
    let mut denominator: u64 = 0;
    let mut in_flight: u64 = 0;
    let mut unknown: u64 = 0;
    let mut i: usize = 0;
    while i < rows.len()
        invariant
            i <= rows@.len(),
            numerator == numerator_count(rows@.subrange(0, i as int)),
            denominator == denominator_count(rows@.subrange(0, i as int)),
            in_flight == in_flight_count(rows@.subrange(0, i as int)),
            unknown == unknown_count(rows@.subrange(0, i as int)),
            denominator + in_flight + unknown <= i,
            numerator <= denominator,
        decreases rows@.len() - i,
    {
        let row = rows[i];
        proof {
            let next = rows@.subrange(0, i + 1);
            assert(next.drop_last() == rows@.subrange(0, i as int));
            assert(next.last() == row);
        }
        if row.in_flight {
            in_flight = in_flight + 1;
        } else if row.unknown {
            unknown = unknown + 1;
        } else if row.terminal_eligible {
            denominator = denominator + 1;
            if row.success {
                numerator = numerator + 1;
            }
        }
        i = i + 1;
    }
    assert(rows@.subrange(0, rows@.len() as int) == rows@);
    MetricSummary {
        numerator,
        denominator,
        excluded_in_flight: in_flight,
        excluded_unknown: unknown,
        definition_version: owned(definition_version),
    }
}

} // verus!
