//! Deterministic synthetic workloads for capacity benchmarks.
use vstd::prelude::*;

verus! {

/// How a synthetic trace ends.
#[derive(Debug, Clone, Copy, PartialEq, Eq, Structural)]
pub enum SyntheticOutcome {
    Success,
    Expired,
    ExecutionError,
}

/// One synthetic trace.
#[derive(Debug, Clone, Copy, PartialEq, Eq, Structural)]
pub struct SyntheticTrace {
    pub trace_index: u64,
    pub event_count: u8,
    pub outcome: SyntheticOutcome,
    pub route_index: u16,
    pub app_version: u8,
}

/// The trace at `index` of the workload seeded with `seed`: its dimensions
/// follow from `seed + index`, wrapping at `u64::MAX`.
pub open spec fn synthetic_trace(index: nat, seed: u64) -> SyntheticTrace {
    let value = ((seed + index) % 0x1_0000_0000_0000_0000) as u64;
    SyntheticTrace {
        trace_index: index as u64,
        event_count: (8 + value % 9) as u8,
        outcome: if value % 10 <= 6 {
            SyntheticOutcome::Success
        } else if value % 10 <= 8 {
            SyntheticOutcome::Expired
        } else {
            SyntheticOutcome::ExecutionError
        },
        route_index: (value % 4) as u16,
        app_version: (value % 3) as u8,
    }
}

/// Generates repeatable traces from a seed, without identity or time randomness.
pub fn generate_traces(count: usize, seed: u64) -> (traces: Vec<SyntheticTrace>)
    ensures
        traces@.len() == count,
        forall|i: int| 0 <= i < count ==> #[trigger] traces@[i] == synthetic_trace(i as nat, seed),
{
    let mut traces: Vec<SyntheticTrace> = Vec::new();
    let mut index: usize = 0;
    while index < count
        invariant
            index <= count,
            traces@.len() == index,
            forall|i: int| 0 <= i < index ==> #[trigger] traces@[i] == synthetic_trace(i as nat, seed),
        decreases count - index,
    {
        let value = seed.wrapping_add(index as u64);
        assert(value == ((seed + index) % 0x1_0000_0000_0000_0000) as u64);
        let bucket = value % 10;
        let outcome = if bucket <= 6 {
            SyntheticOutcome::Success
        } else if bucket <= 8 {
            SyntheticOutcome::Expired
        } else {
            SyntheticOutcome::ExecutionError
        };
        traces.push(
            SyntheticTrace {
                trace_index: index as u64,
                event_count: 8 + (value % 9) as u8,
                outcome,
                route_index: (value % 4) as u16,
                app_version: (value % 3) as u8,
            },
        );
        index = index + 1;
    }
    traces
}

/// The number of events a one-second burst emits.
pub fn burst_event_count(events_per_second: u32) -> (n: u32)
    ensures
        n == events_per_second,
{
    events_per_second
}

} // verus!
