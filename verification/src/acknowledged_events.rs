//! Checking that acknowledged ingestion events reached durable storage.
use vstd::prelude::*;
use crate::text::str_eq;
use crate::sorting::{Keyed, sort_by_key, stable_sorted, lemma_stable_sorted_len, key_ordered, stable_sorted_is_ordered};

verus! {

/// An acknowledged event that durable storage does not hold.
#[derive(Debug, Clone, PartialEq, Eq)]
pub struct DurabilityGap {
    pub event_id: String,
}

impl Keyed for DurabilityGap {
    open spec fn sort_key(&self) -> Seq<char> {
        self.event_id@
    }

    fn key_text(&self) -> (k: &str) {
        self.event_id.as_str()
    }
}

/// `id` is one of `ids`.
pub open spec fn holds_id(ids: Seq<String>, id: Seq<char>) -> bool {
    exists|i: int| 0 <= i < ids.len() && #[trigger] ids[i]@ == id
}

/// The acknowledged identities that are not durable, in acknowledgement order.
pub open spec fn missing_ids(acknowledged: Seq<String>, durable: Seq<String>) -> Seq<Seq<char>>
    decreases acknowledged.len(),
{
    if acknowledged.len() == 0 {
        Seq::empty()
    } else {
        let rest = missing_ids(acknowledged.drop_last(), durable);
        if holds_id(durable, acknowledged.last()@) {
            rest
        } else {
            rest.push(acknowledged.last()@)
        }
    }
}

/// No gap is reported exactly when every acknowledged event is durable.
pub proof fn no_gaps_iff_all_durable(acknowledged: Seq<String>, durable: Seq<String>)
    ensures
        missing_ids(acknowledged, durable).len() == 0 <==> forall|i: int|
            0 <= i < acknowledged.len() ==> holds_id(durable, #[trigger] acknowledged[i]@),
    decreases acknowledged.len(),
{
    if acknowledged.len() > 0 {
        let rest = acknowledged.drop_last();
        no_gaps_iff_all_durable(rest, durable);
        assert forall|i: int| 0 <= i < rest.len() implies rest[i] == acknowledged[i] by {}
        if missing_ids(acknowledged, durable).len() == 0 {
            assert forall|i: int| 0 <= i < acknowledged.len() implies holds_id(durable, #[trigger] acknowledged[i]@) by {
                if i < rest.len() {
                    assert(rest[i] == acknowledged[i]);
                }
            }
        }
        if forall|i: int| 0 <= i < acknowledged.len() ==> holds_id(durable, #[trigger] acknowledged[i]@) {
            assert(holds_id(durable, acknowledged[acknowledged.len() - 1]@));
            assert forall|i: int| 0 <= i < rest.len() implies holds_id(durable, #[trigger] rest[i]@) by {
                assert(rest[i] == acknowledged[i]);
            }
        }
    }
}

fn contains_id(ids: &Vec<String>, id: &str) -> (b: bool)
    ensures
        b == holds_id(ids@, id@),
{
    let mut i: usize = 0;
    while i < ids.len()
        invariant
            i <= ids@.len(),
            forall|j: int| 0 <= j < i ==> ids@[j]@ != id@,
        decreases ids@.len() - i,
    {
        if str_eq(ids[i].as_str(), id) {
            assert(ids@[i as int]@ == id@);
            return true;
        }
        i = i + 1;
    }
    false
}

/// The acknowledged event identities missing from the durable set, as gaps
/// sorted by identity; an empty result means every acknowledgement was durable.
pub fn find_durability_gaps(acknowledged: Vec<String>, durable: &Vec<String>) -> (gaps: Vec<
    DurabilityGap,
>)
    ensures
        exists|unsorted: Seq<DurabilityGap>|
            #![trigger stable_sorted(unsorted)]
            unsorted.len() == missing_ids(acknowledged@, durable@).len() && (forall|k: int|
                0 <= k < unsorted.len() ==> #[trigger] unsorted[k].event_id@ == missing_ids(
                    acknowledged@,
                    durable@,
                )[k]) && gaps@ == stable_sorted(unsorted),
        gaps@.len() == 0 <==> forall|i: int|
            0 <= i < acknowledged@.len() ==> holds_id(durable@, #[trigger] acknowledged@[i]@),
        key_ordered(gaps@),
{
    let mut found: Vec<DurabilityGap> = Vec::new();
    let mut remaining = acknowledged;
    let ghost all = remaining@;
    let total = remaining.len();
    assert(all.len() == total);
    let mut reversed: Vec<String> = Vec::new();
    while remaining.len() > 0
        invariant
            reversed@.len() + remaining@.len() == all.len(),
            remaining@ == all.subrange(0, remaining@.len() as int),
            forall|k: int| 0 <= k < reversed@.len() ==> #[trigger] reversed@[k] == all[all.len() - 1 - k],
        decreases remaining@.len(),
    {
        let id = remaining.pop().unwrap();
        reversed.push(id);
    }
    let mut i: usize = 0;
    while reversed.len() > 0
        invariant
            all.len() <= usize::MAX,
            reversed@.len() + i == all.len(),
            forall|k: int| 0 <= k < reversed@.len() ==> #[trigger] reversed@[k] == all[all.len() - 1 - k],
            found@.len() == missing_ids(all.subrange(0, i as int), durable@).len(),
            forall|k: int|
                0 <= k < found@.len() ==> #[trigger] found@[k].event_id@ == missing_ids(
                    all.subrange(0, i as int),
                    durable@,
                )[k],
        decreases reversed@.len(),
    {
        let id = reversed.pop().unwrap();
        proof {
            assert(id == all[i as int]);
            let next = all.subrange(0, i + 1);
            assert(next.drop_last() == all.subrange(0, i as int));
            assert(next.last() == id);
        }
        if !contains_id(durable, id.as_str()) {
            found.push(DurabilityGap { event_id: id });
        }
        i = i + 1;
    }
    assert(all.subrange(0, all.len() as int) == all);
    let ghost unsorted = found@;
    proof {
        lemma_stable_sorted_len(unsorted);
        stable_sorted_is_ordered(unsorted);
        no_gaps_iff_all_durable(all, durable@);
    }
    sort_by_key(&mut found);
    found
}

} // verus!
