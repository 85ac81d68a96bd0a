//! Stable ordering of records by an integer rank.
use vstd::prelude::*;

verus! {

/// A record ordered by an integer rank.
pub trait Ranked {
    /// The rank the record is ordered by.
    spec fn rank(&self) -> int;

    /// The rank, as a machine integer.
    fn rank_value(&self) -> (r: i128)
        ensures
            r == self.rank(),
    ;
}

/// `x` inserted into `s` after every element whose rank is not greater than
/// its own.
pub open spec fn insert_by_rank<T: Ranked>(s: Seq<T>, x: T) -> Seq<T>
    decreases s.len(),
{
    if s.len() == 0 || !(x.rank() < s.last().rank()) {
        s.push(x)
    } else {
        insert_by_rank(s.drop_last(), x).push(s.last())
    }
}

/// The stable sort of `s` by rank: records of equal rank keep their order.
pub open spec fn rank_sorted<T: Ranked>(s: Seq<T>) -> Seq<T>
    decreases s.len(),
{
    if s.len() == 0 {
        s
    } else {
        insert_by_rank(rank_sorted(s.drop_last()), s.last())
    }
}

proof fn lemma_insert_rank_at<T: Ranked>(s: Seq<T>, x: T, p: int)
    requires
        0 <= p <= s.len(),
        forall|k: int| p <= k < s.len() ==> x.rank() < #[trigger] s[k].rank(),
        p > 0 ==> !(x.rank() < s[p - 1].rank()),
    ensures
        insert_by_rank(s, x) == s.insert(p, x),
    decreases s.len(),
{
    if s.len() == p {
        assert(s.insert(p, x) == s.push(x));
    } else {
        let rest = s.drop_last();
        assert forall|k: int| p <= k < rest.len() implies x.rank() < #[trigger] rest[k].rank() by {
            assert(rest[k] == s[k]);
        }
        if p > 0 {
            assert(rest[p - 1] == s[p - 1]);
        }
        lemma_insert_rank_at(rest, x, p);
        assert(rest.insert(p, x).push(s.last()) == s.insert(p, x));
    }
}

/// Sorting by rank keeps the length.
pub proof fn lemma_rank_sorted_len<T: Ranked>(s: Seq<T>)
    ensures
        rank_sorted(s).len() == s.len(),
    decreases s.len(),
{
    if s.len() > 0 {
        lemma_rank_sorted_len(s.drop_last());
        lemma_insert_by_rank_len(rank_sorted(s.drop_last()), s.last());
    }
}

proof fn lemma_insert_by_rank_len<T: Ranked>(s: Seq<T>, x: T)
    ensures
        insert_by_rank(s, x).len() == s.len() + 1,
    decreases s.len(),
{
    if s.len() > 0 && x.rank() < s.last().rank() {
        lemma_insert_by_rank_len(s.drop_last(), x);
    }
}

/// Sorts records by rank, stably, in place.
pub fn sort_by_rank<T: Ranked>(v: &mut Vec<T>)
    ensures
        final(v)@ == rank_sorted(old(v)@),
{
    let ghost original = v@;
    let n = v.len();
    let mut i: usize = 0;
    proof {
        assert(original.subrange(0, 0) == Seq::<T>::empty());
    }
    while i < n
        invariant
            v@.len() == n,
            original.len() == n,
            i <= n,
            v@.subrange(0, i as int) == rank_sorted(original.subrange(0, i as int)),
            v@.subrange(i as int, n as int) == original.subrange(i as int, n as int),
        decreases n - i,
    {
        let ghost prefix = v@.subrange(0, i as int);
        let ghost before_remove = v@;
        proof {
            assert(before_remove[i as int] == before_remove.subrange(i as int, n as int)[0]);
            assert(original[i as int] == original.subrange(i as int, n as int)[0]);
        }
        let x = v.remove(i);
        proof {
            assert(v@.subrange(0, i as int) == prefix);
            assert(x == original[i as int]);
            assert(v@.subrange(i as int, n - 1) == before_remove.subrange(i + 1, n as int));
            assert(before_remove.subrange(i + 1, n as int) == before_remove.subrange(i as int, n as int).subrange(1, n - i));
            assert(original.subrange(i + 1, n as int) == original.subrange(i as int, n as int).subrange(1, n - i));
        }
        let mut p: usize = i;
        while p > 0 && x.rank_value() < v[p - 1].rank_value()
            invariant
                p <= i,
                i < n,
                v@.len() == n - 1,
                v@.subrange(0, i as int) == prefix,
                forall|k: int| p <= k < i ==> x.rank() < #[trigger] prefix[k].rank(),
            decreases p,
        {
            p = p - 1;
        }
        proof {
            if p > 0 {
                assert(prefix[p - 1] == v@[p - 1]);
            }
            lemma_insert_rank_at(prefix, x, p as int);
            let next = original.subrange(0, i + 1);
            assert(next.drop_last() == original.subrange(0, i as int));
            assert(next.last() == x);
        }
        let ghost before_insert = v@;
        v.insert(p, x);
        proof {
            assert(v@.subrange(0, i + 1) == prefix.insert(p as int, x));
            assert(v@.subrange(i + 1, n as int) == before_insert.subrange(i as int, n - 1));
            assert(before_insert.subrange(i as int, n - 1) == original.subrange(i + 1, n as int));
            assert(v@.subrange(i + 1, n as int) == original.subrange(i + 1, n as int));
        }
        i = i + 1;
    }
    proof {
        assert(v@.subrange(0, n as int) == v@);
        assert(original.subrange(0, n as int) == original);
    }
}

impl Ranked for u64 {
    open spec fn rank(&self) -> int {
        *self as int
    }

    fn rank_value(&self) -> (r: i128) {
        *self as i128
    }
}

/// Rank-sorted sequences are ordered by rank.
pub open spec fn rank_ordered<T: Ranked>(s: Seq<T>) -> bool {
    forall|i: int, j: int| 0 <= i <= j < s.len() ==> s[i].rank() <= s[j].rank()
}

proof fn lemma_insert_keeps_order<T: Ranked>(s: Seq<T>, x: T)
    requires
        rank_ordered(s),
    ensures
        rank_ordered(insert_by_rank(s, x)),
        forall|k: int| 0 <= k < insert_by_rank(s, x).len() ==> #[trigger] insert_by_rank(s, x)[k].rank() == x.rank() || exists|m: int| 0 <= m < s.len() && s[m].rank() == insert_by_rank(s, x)[k].rank(),
    decreases s.len(),
{
    if s.len() == 0 || !(x.rank() < s.last().rank()) {
    } else {
        let rest = s.drop_last();
        assert(rank_ordered(rest));
        lemma_insert_keeps_order(rest, x);
        lemma_insert_by_rank_len(rest, x);
        let r = insert_by_rank(rest, x);
        assert forall|k: int| 0 <= k < r.len() implies #[trigger] r[k].rank() <= s.last().rank() by {
            if r[k].rank() != x.rank() {
                let m = choose|m: int| 0 <= m < rest.len() && rest[m].rank() == r[k].rank();
                assert(rest[m] == s[m]);
            }
        }
        assert forall|k: int| 0 <= k < r.push(s.last()).len() implies #[trigger] r.push(s.last())[k].rank() == x.rank() || exists|m: int| 0 <= m < s.len() && s[m].rank() == r.push(s.last())[k].rank() by {
            if k < r.len() {
                if r[k].rank() != x.rank() {
                    let m = choose|m: int| 0 <= m < rest.len() && rest[m].rank() == r[k].rank();
                    assert(rest[m] == s[m]);
                }
            } else {
                assert(s[s.len() - 1].rank() == r.push(s.last())[k].rank());
            }
        }
    }
}

/// A rank-sorted sequence is ordered by rank.
pub proof fn rank_sorted_is_ordered<T: Ranked>(s: Seq<T>)
    ensures
        rank_ordered(rank_sorted(s)),
    decreases s.len(),
{
    if s.len() > 0 {
        rank_sorted_is_ordered(s.drop_last());
        lemma_insert_keeps_order(rank_sorted(s.drop_last()), s.last());
    }
}

proof fn lemma_insert_by_rank_items<T: Ranked>(s: Seq<T>, x: T)
    ensures
        insert_by_rank(s, x).to_multiset() == s.to_multiset().insert(x),
    decreases s.len(),
{
    broadcast use vstd::seq_lib::group_to_multiset_ensures;
    if s.len() == 0 || !(x.rank() < s.last().rank()) {
    } else {
        let rest = s.drop_last();
        lemma_insert_by_rank_items(rest, x);
        assert(rest.push(s.last()) == s);
        assert(insert_by_rank(s, x).to_multiset() =~= s.to_multiset().insert(x));
    }
}

/// Sorting by rank keeps every item, each as often as it occurred.
pub proof fn rank_sorted_keeps_items<T: Ranked>(s: Seq<T>)
    ensures
        rank_sorted(s).to_multiset() == s.to_multiset(),
        forall|x: T| #[trigger] rank_sorted(s).contains(x) <==> s.contains(x),
    decreases s.len(),
{
    broadcast use vstd::seq_lib::group_to_multiset_ensures;
    if s.len() > 0 {
        let rest = s.drop_last();
        rank_sorted_keeps_items(rest);
        lemma_insert_by_rank_items(rank_sorted(rest), s.last());
        assert(rest.push(s.last()) == s);
    }
    assert forall|x: T| #[trigger] rank_sorted(s).contains(x) <==> s.contains(x) by {
        assert(rank_sorted(s).to_multiset().count(x) == s.to_multiset().count(x));
    }
}

} // verus!
