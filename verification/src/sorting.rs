//! Stable ordering of records by a text key, as `sort_by` on `String` keys orders them.
use vstd::prelude::*;
use crate::text::chars_of;

verus! {

/// `a` comes strictly before `b` in lexicographic order of characters (the
/// order of `String`, whose UTF-8 bytes order as their characters do).
pub open spec fn text_lt(a: Seq<char>, b: Seq<char>) -> bool
    decreases a.len(),
{
    if a.len() == 0 {
        b.len() > 0
    } else if b.len() == 0 {
        false
    } else if a[0] != b[0] {
        a[0] < b[0]
    } else {
        text_lt(a.drop_first(), b.drop_first())
    }
}

/// Whether `a` comes strictly before `b`.
pub fn str_lt(a: &str, b: &str) -> (r: bool)
    ensures
        r == text_lt(a@, b@),
{
    let va = chars_of(a);
    let vb = chars_of(b);
    let mut i: usize = 0;
    assert(a@.skip(0) == a@ && b@.skip(0) == b@);
    while i < va.len() && i < vb.len() && va[i] == vb[i]
        invariant
            va@ == a@,
            vb@ == b@,
            i <= va@.len(),
            i <= vb@.len(),
            text_lt(a@, b@) == text_lt(a@.skip(i as int), b@.skip(i as int)),
        decreases va@.len() - i,
    {
        proof {
            let sa = a@.skip(i as int);
            let sb = b@.skip(i as int);
            assert(sa.drop_first() == a@.skip(i + 1));
            assert(sb.drop_first() == b@.skip(i + 1));
        }
        i = i + 1;
    }
    if i == va.len() {
        i < vb.len()
    } else if i == vb.len() {
        false
    } else {
        va[i] < vb[i]
    }
}

/// A record ordered by a text key.
pub trait Keyed {
    /// The key the record is ordered by.
    spec fn sort_key(&self) -> Seq<char>;

    /// The key, as text.
    fn key_text(&self) -> (k: &str)
        ensures
            k@ == self.sort_key(),
    ;
}

/// `x` inserted into `s` after every element whose key is not greater than
/// its own key.
pub open spec fn insert_by_key<T: Keyed>(s: Seq<T>, x: T) -> Seq<T>
    decreases s.len(),
{
    if s.len() == 0 || !text_lt(x.sort_key(), s.last().sort_key()) {
        s.push(x)
    } else {
        insert_by_key(s.drop_last(), x).push(s.last())
    }
}

/// The stable sort of `s` by key: records with equal keys keep their order.
pub open spec fn stable_sorted<T: Keyed>(s: Seq<T>) -> Seq<T>
    decreases s.len(),
{
    if s.len() == 0 {
        s
    } else {
        insert_by_key(stable_sorted(s.drop_last()), s.last())
    }
}

proof fn lemma_insert_at<T: Keyed>(s: Seq<T>, x: T, p: int)
    requires
        0 <= p <= s.len(),
        forall|k: int| p <= k < s.len() ==> text_lt(x.sort_key(), #[trigger] s[k].sort_key()),
        p > 0 ==> !text_lt(x.sort_key(), s[p - 1].sort_key()),
    ensures
        insert_by_key(s, x) == s.insert(p, x),
    decreases s.len(),
{
    if s.len() == p {
        assert(s.insert(p, x) == s.push(x));
    } else {
        let rest = s.drop_last();
        assert forall|k: int| p <= k < rest.len() implies text_lt(x.sort_key(), #[trigger] rest[k].sort_key()) by {
            assert(rest[k] == s[k]);
        }
        if p > 0 {
            assert(rest[p - 1] == s[p - 1]);
        }
        lemma_insert_at(rest, x, p);
        assert(rest.insert(p, x).push(s.last()) == s.insert(p, x));
    }
}

/// Sorting by key keeps the length.
pub proof fn lemma_stable_sorted_len<T: Keyed>(s: Seq<T>)
    ensures
        stable_sorted(s).len() == s.len(),
    decreases s.len(),
{
    if s.len() > 0 {
        lemma_stable_sorted_len(s.drop_last());
        lemma_insert_by_key_len(stable_sorted(s.drop_last()), s.last());
    }
}

proof fn lemma_insert_by_key_len<T: Keyed>(s: Seq<T>, x: T)
    ensures
        insert_by_key(s, x).len() == s.len() + 1,
    decreases s.len(),
{
    if s.len() > 0 && text_lt(x.sort_key(), s.last().sort_key()) {
        lemma_insert_by_key_len(s.drop_last(), x);
    }
}

/// Sorts records by key, stably, in place.
pub fn sort_by_key<T: Keyed>(v: &mut Vec<T>)
    ensures
        final(v)@ == stable_sorted(old(v)@),
{
    let ghost original = v@;
    let n = v.len();
    let mut i: usize = 0;
    proof {
        assert(original.subrange(0, 0) == Seq::<T>::empty());
    }
    while i < n
        invariant
            v@.len() == n,
            original.len() == n,
            i <= n,
            v@.subrange(0, i as int) == stable_sorted(original.subrange(0, i as int)),
            v@.subrange(i as int, n as int) == original.subrange(i as int, n as int),
        decreases n - i,
    {
        let ghost prefix = v@.subrange(0, i as int);
        let ghost before_remove = v@;
        proof {
            assert(before_remove[i as int] == before_remove.subrange(i as int, n as int)[0]);
            assert(original[i as int] == original.subrange(i as int, n as int)[0]);
        }
        let x = v.remove(i);
        proof {
            assert(v@.subrange(0, i as int) == prefix);
            assert(x == original[i as int]);
            assert(v@.subrange(i as int, n - 1) == before_remove.subrange(i + 1, n as int));
            assert(before_remove.subrange(i + 1, n as int) == before_remove.subrange(i as int, n as int).subrange(1, n - i));
            assert(original.subrange(i + 1, n as int) == original.subrange(i as int, n as int).subrange(1, n - i));
        }
        let mut p: usize = i;
        while p > 0 && str_lt(x.key_text(), v[p - 1].key_text())
            invariant
                p <= i,
                i < n,
                v@.len() == n - 1,
                v@.subrange(0, i as int) == prefix,
                forall|k: int| p <= k < i ==> text_lt(x.sort_key(), #[trigger] prefix[k].sort_key()),
            decreases p,
        {
            p = p - 1;
        }
        proof {
            if p > 0 {
                assert(prefix[p - 1] == v@[p - 1]);
            }
            lemma_insert_at(prefix, x, p as int);
            let next = original.subrange(0, i + 1);
            assert(next.drop_last() == original.subrange(0, i as int));
            assert(next.last() == x);
        }
        let ghost before_insert = v@;
        v.insert(p, x);
        proof {
            assert(v@.subrange(0, i + 1) == prefix.insert(p as int, x));
            assert(v@.subrange(i + 1, n as int) == before_insert.subrange(i as int, n - 1));
            assert(before_insert.subrange(i as int, n - 1) == original.subrange(i + 1, n as int));
            assert(v@.subrange(i + 1, n as int) == original.subrange(i + 1, n as int));
        }
        i = i + 1;
    }
    proof {
        assert(v@.subrange(0, n as int) == v@);
        assert(original.subrange(0, n as int) == original);
    }
}

/// Two different texts are ordered one way or the other.
pub proof fn lemma_text_lt_total(a: Seq<char>, b: Seq<char>)
    requires
        a != b,
        !text_lt(a, b),
    ensures
        text_lt(b, a),
    decreases a.len(),
{
    if a.len() == 0 {
        assert(b.len() == 0 ==> a =~= b);
    } else if b.len() == 0 {
    } else if a[0] != b[0] {
    } else {
        assert(a.drop_first() != b.drop_first()) by {
            if a.drop_first() == b.drop_first() {
                assert(a =~= seq![a[0]] + a.drop_first());
                assert(b =~= seq![b[0]] + b.drop_first());
            }
        }
        lemma_text_lt_total(a.drop_first(), b.drop_first());
    }
}

proof fn lemma_text_lt_asymmetric(a: Seq<char>, b: Seq<char>)
    requires
        text_lt(a, b),
    ensures
        !text_lt(b, a),
    decreases a.len(),
{
    if a.len() > 0 && b.len() > 0 && a[0] == b[0] {
        lemma_text_lt_asymmetric(a.drop_first(), b.drop_first());
    }
}

proof fn lemma_text_lt_transitive(a: Seq<char>, b: Seq<char>, c: Seq<char>)
    requires
        text_lt(a, b),
        text_lt(b, c),
    ensures
        text_lt(a, c),
    decreases a.len(),
{
    if a.len() > 0 && b.len() > 0 && c.len() > 0 && a[0] == b[0] && b[0] == c[0] {
        lemma_text_lt_transitive(a.drop_first(), b.drop_first(), c.drop_first());
    }
}

/// No record is followed by one whose key comes strictly before its own.
pub open spec fn key_ordered<T: Keyed>(s: Seq<T>) -> bool {
    forall|i: int, j: int| 0 <= i <= j < s.len() ==> !text_lt(s[j].sort_key(), s[i].sort_key())
}

proof fn lemma_insert_by_key_keeps_order<T: Keyed>(s: Seq<T>, x: T)
    requires
        key_ordered(s),
    ensures
        key_ordered(insert_by_key(s, x)),
        forall|k: int|
            0 <= k < insert_by_key(s, x).len() ==> #[trigger] insert_by_key(s, x)[k].sort_key() == x.sort_key()
                || exists|m: int| 0 <= m < s.len() && s[m].sort_key() == insert_by_key(s, x)[k].sort_key(),
    decreases s.len(),
{
    lemma_insert_by_key_len(s, x);
    if s.len() == 0 || !text_lt(x.sort_key(), s.last().sort_key()) {
        let r = s.push(x);
        assert forall|i: int| 0 <= i < s.len() implies !text_lt(x.sort_key(), #[trigger] s[i].sort_key()) by {
            let last = s.last().sort_key();
            if text_lt(x.sort_key(), s[i].sort_key()) {
                if s[i].sort_key() != last {
                    lemma_text_lt_total(last, s[i].sort_key());
                    lemma_text_lt_transitive(x.sort_key(), s[i].sort_key(), last);
                }
            }
        }
        assert forall|i: int, j: int| 0 <= i <= j < r.len() implies !text_lt(r[j].sort_key(), r[i].sort_key()) by {
            if j == s.len() && i < s.len() {
                assert(r[i] == s[i]);
            } else if j == s.len() {
                if text_lt(x.sort_key(), x.sort_key()) {
                    lemma_text_lt_asymmetric(x.sort_key(), x.sort_key());
                }
            } else {
                assert(r[i] == s[i] && r[j] == s[j]);
            }
        }
        assert forall|k: int| 0 <= k < r.len() implies #[trigger] r[k].sort_key() == x.sort_key() || exists|m: int|
            0 <= m < s.len() && s[m].sort_key() == r[k].sort_key() by {
            if k < s.len() {
                assert(s[k].sort_key() == r[k].sort_key());
            }
        }
    } else {
        let rest = s.drop_last();
        assert(key_ordered(rest));
        lemma_insert_by_key_keeps_order(rest, x);
        let r = insert_by_key(rest, x);
        let last = s.last();
        assert forall|k: int| 0 <= k < r.len() implies !text_lt(last.sort_key(), #[trigger] r[k].sort_key()) by {
            if r[k].sort_key() == x.sort_key() {
                lemma_text_lt_asymmetric(x.sort_key(), last.sort_key());
            } else {
                let m = choose|m: int| 0 <= m < rest.len() && rest[m].sort_key() == r[k].sort_key();
                assert(rest[m] == s[m]);
            }
        }
        let all = r.push(last);
        assert forall|i: int, j: int| 0 <= i <= j < all.len() implies !text_lt(all[j].sort_key(), all[i].sort_key()) by {
            if j == r.len() && i < r.len() {
                assert(all[i] == r[i]);
            } else if j == r.len() {
                if text_lt(last.sort_key(), last.sort_key()) {
                    lemma_text_lt_asymmetric(last.sort_key(), last.sort_key());
                }
            } else {
                assert(all[i] == r[i] && all[j] == r[j]);
            }
        }
        assert forall|k: int| 0 <= k < all.len() implies #[trigger] all[k].sort_key() == x.sort_key() || exists|m: int|
            0 <= m < s.len() && s[m].sort_key() == all[k].sort_key() by {
            if k < r.len() {
                if all[k].sort_key() != x.sort_key() {
                    let m = choose|m: int| 0 <= m < rest.len() && rest[m].sort_key() == r[k].sort_key();
                    assert(rest[m] == s[m]);
                }
            } else {
                assert(s[s.len() - 1].sort_key() == all[k].sort_key());
            }
        }
    }
}

/// A stably sorted sequence is in key order.
pub proof fn stable_sorted_is_ordered<T: Keyed>(s: Seq<T>)
    ensures
        key_ordered(stable_sorted(s)),
    decreases s.len(),
{
    if s.len() > 0 {
        stable_sorted_is_ordered(s.drop_last());
        lemma_insert_by_key_keeps_order(stable_sorted(s.drop_last()), s.last());
    }
}

} // verus!
