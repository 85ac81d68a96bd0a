//! Retention planning for daily partitions, without destructive I/O.
use vstd::prelude::*;
use crate::ranking::{Ranked, sort_by_rank, rank_sorted, rank_sorted_keeps_items, rank_sorted_is_ordered};

verus! {

/// The Julian day of -9999-01-01, the earliest date the calendar holds.
pub const MIN_JULIAN_DAY: i32 = -1_930_999;

/// The Julian day of 9999-12-31, the latest date the calendar holds.
pub const MAX_JULIAN_DAY: i32 = 5_373_484;

/// A calendar day, held as its Julian day number.
#[derive(Debug, Clone, Copy, PartialEq, Eq, PartialOrd, Ord, Hash, Structural)]
pub struct CalendarDate {
    julian_day: i32,
}

impl CalendarDate {
    #[verifier::type_invariant]
    spec fn in_calendar(self) -> bool {
        MIN_JULIAN_DAY <= self.julian_day <= MAX_JULIAN_DAY
    }

    /// The Julian day number of the date.
    pub closed spec fn day(self) -> int {
        self.julian_day as int
    }

    /// The date of a Julian day, where the calendar holds it.
    pub fn from_julian_day(julian_day: i32) -> (r: Option<CalendarDate>)
        ensures
            r is Some <==> MIN_JULIAN_DAY <= julian_day <= MAX_JULIAN_DAY,
            r matches Some(d) ==> d.day() == julian_day,
    {
        if MIN_JULIAN_DAY <= julian_day && julian_day <= MAX_JULIAN_DAY {
            Some(CalendarDate { julian_day })
        } else {
            None
        }
    }

    /// The Julian day number of the date.
    pub fn to_julian_day(&self) -> (d: i32)
        ensures
            d == self.day(),
            MIN_JULIAN_DAY <= d <= MAX_JULIAN_DAY,
    {
        proof {
            use_type_invariant(self);
        }
        self.julian_day
    }
}

impl Ranked for CalendarDate {
    open spec fn rank(&self) -> int {
        self.day()
    }

    fn rank_value(&self) -> (r: i128) {
        self.to_julian_day() as i128
    }
}

/// The partitions a retention run would drop.
#[derive(Debug, Clone, PartialEq, Eq)]
pub struct RetentionPlan {
    pub cutoff: CalendarDate,
    pub partitions_to_drop: Vec<CalendarDate>,
    pub dry_run: bool,
}

/// Why a retention run cannot be planned.
#[derive(Debug, Clone, Copy, PartialEq, Eq, Structural)]
pub enum RetentionError {
    ZeroRetention,
}

/// The partitions strictly older than `cutoff`, in their given order.
pub open spec fn older_than(existing: Seq<CalendarDate>, cutoff: int) -> Seq<CalendarDate>
    decreases existing.len(),
{
    if existing.len() == 0 {
        Seq::empty()
    } else {
        let rest = older_than(existing.drop_last(), cutoff);
        if existing.last().day() < cutoff {
            rest.push(existing.last())
        } else {
            rest
        }
    }
}

/// Lists the daily partitions older than the retention window: those before
/// `today` minus `retention_days`, oldest first. Nothing is dropped here.
pub fn plan_retention(
    today: CalendarDate,
    retention_days: u32,
    existing: Vec<CalendarDate>,
    dry_run: bool,
) -> (r: Result<RetentionPlan, RetentionError>)
    requires
        retention_days > 0 ==> today.day() - retention_days >= MIN_JULIAN_DAY,
    ensures
        retention_days == 0 ==> r == Err::<RetentionPlan, RetentionError>(RetentionError::ZeroRetention),
        retention_days > 0 ==> (r matches Ok(plan) && plan.cutoff.day() == today.day() - retention_days
            && plan.partitions_to_drop@ == rank_sorted(older_than(existing@, today.day() - retention_days))
            && plan.dry_run == dry_run),
        retention_days > 0 ==> (r matches Ok(plan) && forall|d: CalendarDate| #[trigger] plan.partitions_to_drop@.contains(d)
            <==> existing@.contains(d) && d.day() < today.day() - retention_days),
        retention_days > 0 ==> (r matches Ok(plan) && forall|i: int, j: int| 0 <= i <= j < plan.partitions_to_drop@.len()
            ==> #[trigger] plan.partitions_to_drop@[i].day() <= #[trigger] plan.partitions_to_drop@[j].day()),
{
    if retention_days == 0 {
        return Err(RetentionError::ZeroRetention);
    }
    let day = today.to_julian_day();
    let cutoff_day: i32 = (day as i64 - retention_days as i64) as i32;
    let cutoff = match CalendarDate::from_julian_day(cutoff_day) {
        Some(c) => c,
        None => {
            return Err(RetentionError::ZeroRetention);
        },
    };
    let mut drop: Vec<CalendarDate> = Vec::new();
    let mut i: usize = 0;
    while i < existing.len()
        invariant
            i <= existing@.len(),
            drop@ == older_than(existing@.subrange(0, i as int), cutoff_day as int),
        decreases existing@.len() - i,
    {
        let d = existing[i];
        proof {
            let next = existing@.subrange(0, i + 1);
            assert(next.drop_last() == existing@.subrange(0, i as int));
            assert(next.last() == d);
        }
        if d.to_julian_day() < cutoff_day {
            drop.push(d);
        }
        i = i + 1;
    }
    assert(existing@.subrange(0, existing@.len() as int) == existing@);
    let ghost unsorted = drop@;
    sort_by_rank(&mut drop);
    proof {
        rank_sorted_keeps_items(unsorted);
        rank_sorted_is_ordered(unsorted);
        assert forall|d: CalendarDate| #[trigger] drop@.contains(d) <==> existing@.contains(d) && d.day() < cutoff_day as int by {
            if existing@.contains(d) && d.day() < cutoff_day as int {
                retention_drops_every_expired_partition(existing@, cutoff_day as int, d);
            }
            if unsorted.contains(d) {
                retention_keeps_recent_partitions(existing@, cutoff_day as int, d);
                retention_drops_from_existing(existing@, cutoff_day as int, d);
            }
        }
    }
    Ok(RetentionPlan { cutoff, partitions_to_drop: drop, dry_run })
}

/// A plan never drops a partition inside the retention window.
pub proof fn retention_keeps_recent_partitions(existing: Seq<CalendarDate>, cutoff: int, d: CalendarDate)
    requires
        older_than(existing, cutoff).contains(d),
    ensures
        d.day() < cutoff,
    decreases existing.len(),
{
    if existing.len() > 0 {
        let rest = older_than(existing.drop_last(), cutoff);
        if rest.contains(d) {
            retention_keeps_recent_partitions(existing.drop_last(), cutoff, d);
        } else {
            let k = choose|k: int| 0 <= k < older_than(existing, cutoff).len() && older_than(existing, cutoff)[k] == d;
            assert(k == rest.len());
        }
    }
}

/// A plan drops every partition older than the cutoff, wherever it stands
/// among the existing partitions.
pub proof fn retention_drops_every_expired_partition(existing: Seq<CalendarDate>, cutoff: int, d: CalendarDate)
    requires
        existing.contains(d),
        d.day() < cutoff,
    ensures
        older_than(existing, cutoff).contains(d),
    decreases existing.len(),
{
    let rest = existing.drop_last();
    if existing.last() == d {
        assert(older_than(existing, cutoff) == older_than(rest, cutoff).push(d));
        assert(older_than(existing, cutoff).last() == d);
    } else {
        let k = choose|k: int| 0 <= k < existing.len() && existing[k] == d;
        assert(k < rest.len());
        assert(rest[k] == d);
        retention_drops_every_expired_partition(rest, cutoff, d);
        let m = choose|m: int| 0 <= m < older_than(rest, cutoff).len() && older_than(rest, cutoff)[m] == d;
        if existing.last().day() < cutoff {
            assert(older_than(existing, cutoff)[m] == d);
        }
    }
}

/// A plan drops only partitions that exist.
pub proof fn retention_drops_from_existing(existing: Seq<CalendarDate>, cutoff: int, d: CalendarDate)
    requires
        older_than(existing, cutoff).contains(d),
    ensures
        existing.contains(d),
    decreases existing.len(),
{
    let rest = existing.drop_last();
    let k = choose|k: int| 0 <= k < older_than(existing, cutoff).len() && older_than(existing, cutoff)[k] == d;
    if k < older_than(rest, cutoff).len() {
        assert(older_than(rest, cutoff)[k] == d);
        retention_drops_from_existing(rest, cutoff, d);
        let m = choose|m: int| 0 <= m < rest.len() && rest[m] == d;
        assert(existing[m] == d);
    } else {
        assert(existing[existing.len() - 1] == d);
    }
}

} // verus!
