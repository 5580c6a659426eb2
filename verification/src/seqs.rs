//! Sequence arithmetic shared by the report and the scan: totals, counts
//! and the stable largest-first order.

use vstd::prelude::*;

verus! {

/// Sum of `f` over the sequence.
pub open spec fn sum_of<T>(s: Seq<T>, f: spec_fn(T) -> int) -> int
    decreases s.len(),
{
    if s.len() == 0 {
        0
    } else {
        sum_of(s.drop_last(), f) + f(s.last())
    }
}

/// Number of elements that satisfy `f`.
pub open spec fn count_if<T>(s: Seq<T>, f: spec_fn(T) -> bool) -> nat
    decreases s.len(),
{
    if s.len() == 0 {
        0
    } else {
        count_if(s.drop_last(), f) + if f(s.last()) { 1nat } else { 0nat }
    }
}

/// The elements that satisfy `f`, in order.
pub open spec fn keep_if<T>(s: Seq<T>, f: spec_fn(T) -> bool) -> Seq<T>
    decreases s.len(),
{
    if s.len() == 0 {
        Seq::empty()
    } else if f(s.last()) {
        keep_if(s.drop_last(), f).push(s.last())
    } else {
        keep_if(s.drop_last(), f)
    }
}

/// `x` placed in the list `s` (already largest first by `key`) after every
/// element whose key is at least its own.
pub open spec fn insert_desc<T>(s: Seq<T>, x: T, key: spec_fn(T) -> int) -> Seq<T>
    decreases s.len(),
{
    if s.len() == 0 {
        seq![x]
    } else if key(s[0]) < key(x) {
        seq![x] + s
    } else {
        seq![s[0]] + insert_desc(s.drop_first(), x, key)
    }
}

/// The stable sort of `s`, largest `key` first: elements with equal keys
/// keep their order.
pub open spec fn sort_desc<T>(s: Seq<T>, key: spec_fn(T) -> int) -> Seq<T>
    decreases s.len(),
{
    if s.len() == 0 {
        Seq::empty()
    } else {
        insert_desc(sort_desc(s.drop_last(), key), s.last(), key)
    }
}

pub proof fn lemma_sum_of_push<T>(s: Seq<T>, x: T, f: spec_fn(T) -> int)
    ensures
        sum_of(s.push(x), f) == sum_of(s, f) + f(x),
{
    assert(s.push(x).drop_last() =~= s);
}

pub proof fn lemma_keep_if_push<T>(s: Seq<T>, x: T, f: spec_fn(T) -> bool)
    ensures
        keep_if(s.push(x), f) == if f(x) { keep_if(s, f).push(x) } else { keep_if(s, f) },
{
    assert(s.push(x).drop_last() =~= s);
}

pub proof fn lemma_sum_of_nonneg<T>(s: Seq<T>, f: spec_fn(T) -> int)
    requires
        forall|i: int| 0 <= i < s.len() ==> f(#[trigger] s[i]) >= 0,
    ensures
        sum_of(s, f) >= 0,
    decreases s.len(),
{
    if s.len() > 0 {
        lemma_sum_of_nonneg(s.drop_last(), f);
    }
}

/// Sums agree on the elements kept and those dropped.
pub proof fn lemma_sum_of_take<T>(s: Seq<T>, i: int, f: spec_fn(T) -> int)
    requires
        0 <= i < s.len(),
    ensures
        sum_of(s.take(i + 1), f) == sum_of(s.take(i), f) + f(s[i]),
{
    assert(s.take(i + 1).drop_last() =~= s.take(i));
}

pub proof fn lemma_count_if_take<T>(s: Seq<T>, i: int, f: spec_fn(T) -> bool)
    requires
        0 <= i < s.len(),
    ensures
        count_if(s.take(i + 1), f) == count_if(s.take(i), f) + if f(s[i]) { 1nat } else { 0nat },
{
    assert(s.take(i + 1).drop_last() =~= s.take(i));
}

pub proof fn lemma_count_if_le_len<T>(s: Seq<T>, f: spec_fn(T) -> bool)
    ensures
        count_if(s, f) <= s.len(),
    decreases s.len(),
{
    if s.len() > 0 {
        lemma_count_if_le_len(s.drop_last(), f);
    }
}

} // verus!

verus! {

pub proof fn lemma_sum_of_update<T>(s: Seq<T>, i: int, x: T, f: spec_fn(T) -> int)
    requires
        0 <= i < s.len(),
    ensures
        sum_of(s.update(i, x), f) == sum_of(s, f) - f(s[i]) + f(x),
    decreases s.len(),
{
    if i == s.len() - 1 {
        assert(s.update(i, x).drop_last() =~= s.drop_last());
    } else {
        lemma_sum_of_update(s.drop_last(), i, x, f);
        assert(s.update(i, x).drop_last() =~= s.drop_last().update(i, x));
    }
}

} // verus!

verus! {

pub proof fn lemma_sum_of_cons<T>(a: T, s: Seq<T>, f: spec_fn(T) -> int)
    ensures
        sum_of(seq![a] + s, f) == f(a) + sum_of(s, f),
    decreases s.len(),
{
    if s.len() == 0 {
        assert(seq![a] + s =~= seq![a]);
        assert(seq![a].drop_last() =~= Seq::<T>::empty());
        assert(seq![a].last() == a);
        assert(sum_of(Seq::<T>::empty(), f) == 0);
    } else {
        lemma_sum_of_cons(a, s.drop_last(), f);
        assert((seq![a] + s).drop_last() =~= seq![a] + s.drop_last());
        assert((seq![a] + s).last() == s.last());
    }
}

pub proof fn lemma_insert_desc_len<T>(s: Seq<T>, x: T, key: spec_fn(T) -> int)
    ensures
        insert_desc(s, x, key).len() == s.len() + 1,
    decreases s.len(),
{
    if s.len() > 0 && key(s[0]) >= key(x) {
        lemma_insert_desc_len(s.drop_first(), x, key);
    }
}

pub proof fn lemma_sort_desc_len<T>(s: Seq<T>, key: spec_fn(T) -> int)
    ensures
        sort_desc(s, key).len() == s.len(),
    decreases s.len(),
{
    if s.len() > 0 {
        lemma_sort_desc_len(s.drop_last(), key);
        lemma_insert_desc_len(sort_desc(s.drop_last(), key), s.last(), key);
    }
}

/// Inserting after the elements whose key is at least `x`'s is inserting at
/// the first position whose key is smaller.
pub proof fn lemma_insert_desc_at<T>(s: Seq<T>, x: T, key: spec_fn(T) -> int, pos: int)
    requires
        0 <= pos <= s.len(),
        forall|i: int| 0 <= i < pos ==> key(#[trigger] s[i]) >= key(x),
        pos < s.len() ==> key(s[pos]) < key(x),
    ensures
        insert_desc(s, x, key) == s.insert(pos, x),
    decreases pos,
{
    if pos == 0 {
        if s.len() == 0 {
            assert(s.insert(0, x) =~= seq![x]);
        } else {
            assert(s.insert(0, x) =~= seq![x] + s);
        }
    } else {
        assert(key(s[0]) >= key(x));
        let t = s.drop_first();
        assert forall|i: int| 0 <= i < pos - 1 implies key(#[trigger] t[i]) >= key(x) by {
            assert(t[i] == s[i + 1]);
        }
        lemma_insert_desc_at(t, x, key, pos - 1);
        assert(seq![s[0]] + t.insert(pos - 1, x) =~= s.insert(pos, x));
    }
}

pub proof fn lemma_sum_insert_desc<T>(s: Seq<T>, x: T, key: spec_fn(T) -> int, f: spec_fn(T) -> int)
    ensures
        sum_of(insert_desc(s, x, key), f) == sum_of(s, f) + f(x),
    decreases s.len(),
{
    if s.len() == 0 {
        lemma_sum_of_cons(x, s, f);
        assert(seq![x] + s =~= seq![x]);
    } else if key(s[0]) < key(x) {
        lemma_sum_of_cons(x, s, f);
    } else {
        lemma_sum_insert_desc(s.drop_first(), x, key, f);
        lemma_sum_of_cons(s[0], insert_desc(s.drop_first(), x, key), f);
        lemma_sum_of_cons(s[0], s.drop_first(), f);
        assert(seq![s[0]] + s.drop_first() =~= s);
    }
}

/// Sorting keeps every total.
pub proof fn lemma_sum_sort_desc<T>(s: Seq<T>, key: spec_fn(T) -> int, f: spec_fn(T) -> int)
    ensures
        sum_of(sort_desc(s, key), f) == sum_of(s, f),
    decreases s.len(),
{
    if s.len() > 0 {
        lemma_sum_sort_desc(s.drop_last(), key, f);
        lemma_sum_insert_desc(sort_desc(s.drop_last(), key), s.last(), key, f);
    }
}

pub proof fn lemma_sum_take_le<T>(s: Seq<T>, n: int, f: spec_fn(T) -> int)
    requires
        0 <= n <= s.len(),
        forall|i: int| 0 <= i < s.len() ==> f(#[trigger] s[i]) >= 0,
    ensures
        sum_of(s.take(n), f) <= sum_of(s, f),
    decreases s.len() - n,
{
    if n < s.len() {
        lemma_sum_take_le(s, n + 1, f);
        lemma_sum_of_take(s, n, f);
    } else {
        assert(s.take(n) =~= s);
    }
}

} // verus!

verus! {

pub proof fn lemma_sum_keep_if_split<T>(s: Seq<T>, p: spec_fn(T) -> bool, q: spec_fn(T) -> bool,
    f: spec_fn(T) -> int)
    requires
        forall|x: T| #[trigger] q(x) == !p(x),
    ensures
        sum_of(keep_if(s, p), f) + sum_of(keep_if(s, q), f) == sum_of(s, f),
    decreases s.len(),
{
    if s.len() > 0 {
        lemma_sum_keep_if_split(s.drop_last(), p, q, f);
        lemma_sum_of_push(keep_if(s.drop_last(), p), s.last(), f);
        lemma_sum_of_push(keep_if(s.drop_last(), q), s.last(), f);
    }
}

pub proof fn lemma_sum_keep_if_le<T>(s: Seq<T>, p: spec_fn(T) -> bool, f: spec_fn(T) -> int)
    requires
        forall|x: T| #[trigger] f(x) >= 0,
    ensures
        0 <= sum_of(keep_if(s, p), f) <= sum_of(s, f),
    decreases s.len(),
{
    if s.len() > 0 {
        lemma_sum_keep_if_le(s.drop_last(), p, f);
        lemma_sum_of_push(keep_if(s.drop_last(), p), s.last(), f);
    }
}

} // verus!

verus! {

/// A total over mapped elements is a total over the elements themselves.
pub proof fn lemma_sum_map<A, B>(s: Seq<A>, g: spec_fn(A) -> B, f: spec_fn(B) -> int, h: spec_fn(A) -> int)
    requires
        forall|x: A| #[trigger] h(x) == f(g(x)),
    ensures
        sum_of(s.map_values(g), f) == sum_of(s, h),
    decreases s.len(),
{
    if s.len() > 0 {
        lemma_sum_map(s.drop_last(), g, f, h);
        assert(s.map_values(g).drop_last() =~= s.drop_last().map_values(g));
        assert(s.map_values(g).last() == g(s.last()));
    }
}

} // verus!

verus! {

pub proof fn lemma_insert_desc_all<T>(s: Seq<T>, x: T, key: spec_fn(T) -> int, p: spec_fn(T) -> bool)
    requires
        forall|i: int| 0 <= i < s.len() ==> #[trigger] p(s[i]),
        p(x),
    ensures
        forall|i: int| 0 <= i < insert_desc(s, x, key).len() ==> #[trigger] p(insert_desc(s, x, key)[i]),
    decreases s.len(),
{
    lemma_insert_desc_len(s, x, key);
    if s.len() > 0 && key(s[0]) >= key(x) {
        let t = s.drop_first();
        assert forall|i: int| 0 <= i < t.len() implies #[trigger] p(t[i]) by {
            assert(t[i] == s[i + 1]);
        }
        lemma_insert_desc_all(t, x, key, p);
        let r = insert_desc(s, x, key);
        assert forall|i: int| 0 <= i < r.len() implies #[trigger] p(r[i]) by {
            if i > 0 {
                assert(r[i] == insert_desc(t, x, key)[i - 1]);
            }
        }
    } else if s.len() > 0 {
        let r = insert_desc(s, x, key);
        assert forall|i: int| 0 <= i < r.len() implies #[trigger] p(r[i]) by {
            if i > 0 {
                assert(r[i] == s[i - 1]);
            }
        }
    }
}

/// Sorting keeps any property that holds of every element.
pub proof fn lemma_sort_desc_all<T>(s: Seq<T>, key: spec_fn(T) -> int, p: spec_fn(T) -> bool)
    requires
        forall|i: int| 0 <= i < s.len() ==> #[trigger] p(s[i]),
    ensures
        forall|i: int| 0 <= i < sort_desc(s, key).len() ==> #[trigger] p(sort_desc(s, key)[i]),
    decreases s.len(),
{
    if s.len() > 0 {
        let t = s.drop_last();
        assert forall|i: int| 0 <= i < t.len() implies #[trigger] p(t[i]) by {
            assert(t[i] == s[i]);
        }
        lemma_sort_desc_all(t, key, p);
        assert(p(s[s.len() - 1]));
        lemma_insert_desc_all(sort_desc(t, key), s.last(), key, p);
    }
}

} // verus!

verus! {

/// `x` placed in `s` (sorted by `less`) after every element it is not less
/// than.
pub open spec fn insert_asc<T>(s: Seq<T>, x: T, less: spec_fn(T, T) -> bool) -> Seq<T>
    decreases s.len(),
{
    if s.len() == 0 {
        seq![x]
    } else if less(x, s[0]) {
        seq![x] + s
    } else {
        seq![s[0]] + insert_asc(s.drop_first(), x, less)
    }
}

/// The stable sort of `s` by `less`, smallest first.
pub open spec fn sort_asc<T>(s: Seq<T>, less: spec_fn(T, T) -> bool) -> Seq<T>
    decreases s.len(),
{
    if s.len() == 0 {
        Seq::empty()
    } else {
        insert_asc(sort_asc(s.drop_last(), less), s.last(), less)
    }
}

pub proof fn lemma_insert_asc_at<T>(s: Seq<T>, x: T, less: spec_fn(T, T) -> bool, pos: int)
    requires
        0 <= pos <= s.len(),
        forall|i: int| 0 <= i < pos ==> !less(x, #[trigger] s[i]),
        pos < s.len() ==> less(x, s[pos]),
    ensures
        insert_asc(s, x, less) == s.insert(pos, x),
    decreases pos,
{
    if pos == 0 {
        if s.len() == 0 {
            assert(s.insert(0, x) =~= seq![x]);
        } else {
            assert(s.insert(0, x) =~= seq![x] + s);
        }
    } else {
        assert(!less(x, s[0]));
        let t = s.drop_first();
        assert forall|i: int| 0 <= i < pos - 1 implies !less(x, #[trigger] t[i]) by {
            assert(t[i] == s[i + 1]);
        }
        lemma_insert_asc_at(t, x, less, pos - 1);
        assert(seq![s[0]] + t.insert(pos - 1, x) =~= s.insert(pos, x));
    }
}

} // verus!

verus! {

/// Keys never increase along `s`.
pub open spec fn sorted_desc<T>(s: Seq<T>, key: spec_fn(T) -> int) -> bool {
    forall|i: int, j: int| 0 <= i < j < s.len() ==> key(#[trigger] s[i]) >= key(#[trigger] s[j])
}

/// No element of `s` is less than one before it.
pub open spec fn sorted_asc<T>(s: Seq<T>, less: spec_fn(T, T) -> bool) -> bool {
    forall|i: int, j: int| 0 <= i < j < s.len() ==> !less(#[trigger] s[j], #[trigger] s[i])
}

/// `less` is a strict order: transitive, and nothing is less than itself.
pub open spec fn strict_order<T>(less: spec_fn(T, T) -> bool) -> bool {
    &&& forall|a: T, b: T, c: T| #[trigger] less(a, b) && #[trigger] less(b, c) ==> less(a, c)
    &&& forall|a: T| !#[trigger] less(a, a)
}

proof fn lemma_insert_desc_sorted<T>(s: Seq<T>, x: T, key: spec_fn(T) -> int)
    requires
        sorted_desc(s, key),
    ensures
        sorted_desc(insert_desc(s, x, key), key),
        insert_desc(s, x, key).to_multiset() =~= s.to_multiset().insert(x),
    decreases s.len(),
{
    broadcast use vstd::seq_lib::to_multiset_insert;
    if s.len() == 0 {
        assert(seq![x] =~= s.insert(0, x));
    } else if key(s[0]) < key(x) {
        assert(seq![x] + s =~= s.insert(0, x));
        let r = seq![x] + s;
        assert forall|i: int, j: int| 0 <= i < j < r.len() implies key(#[trigger] r[i]) >= key(#[trigger] r[j]) by {
            if i == 0 {
                assert(r[j] == s[j - 1]);
                if j - 1 > 0 {
                    assert(key(s[0]) >= key(s[j - 1]));
                }
            } else {
                assert(r[i] == s[i - 1] && r[j] == s[j - 1]);
            }
        }
    } else {
        let rest = s.drop_first();
        assert(sorted_desc(rest, key)) by {
            assert forall|i: int, j: int| 0 <= i < j < rest.len() implies key(#[trigger] rest[i]) >= key(#[trigger] rest[j]) by {
                assert(rest[i] == s[i + 1] && rest[j] == s[j + 1]);
            }
        }
        lemma_insert_desc_sorted(rest, x, key);
        let ins = insert_desc(rest, x, key);
        let head = s[0];
        let p = |y: T| key(y) <= key(head);
        assert forall|i: int| 0 <= i < rest.len() implies #[trigger] p(rest[i]) by {
            assert(rest[i] == s[i + 1]);
        }
        lemma_insert_desc_all(rest, x, key, p);
        let r = seq![head] + ins;
        assert forall|i: int, j: int| 0 <= i < j < r.len() implies key(#[trigger] r[i]) >= key(#[trigger] r[j]) by {
            assert(r[j] == ins[j - 1]);
            if i == 0 {
                assert(p(ins[j - 1]));
            } else {
                assert(r[i] == ins[i - 1]);
            }
        }
        assert(r =~= ins.insert(0, head));
        assert(s =~= rest.insert(0, head));
    }
}

/// The largest-first sort is sorted and holds exactly the elements it was
/// given.
pub proof fn lemma_sort_desc_sorted<T>(s: Seq<T>, key: spec_fn(T) -> int)
    ensures
        sorted_desc(sort_desc(s, key), key),
        sort_desc(s, key).to_multiset() =~= s.to_multiset(),
    decreases s.len(),
{
    broadcast use vstd::seq_lib::to_multiset_build;
    if s.len() == 0 {
        assert(sort_desc(s, key) =~= s);
    } else {
        lemma_sort_desc_sorted(s.drop_last(), key);
        lemma_insert_desc_sorted(sort_desc(s.drop_last(), key), s.last(), key);
        assert(s.drop_last().push(s.last()) =~= s);
    }
}

proof fn lemma_insert_asc_sorted<T>(s: Seq<T>, x: T, less: spec_fn(T, T) -> bool)
    requires
        sorted_asc(s, less),
        strict_order(less),
    ensures
        sorted_asc(insert_asc(s, x, less), less),
        insert_asc(s, x, less).to_multiset() =~= s.to_multiset().insert(x),
    decreases s.len(),
{
    broadcast use vstd::seq_lib::to_multiset_insert;
    if s.len() == 0 {
        assert(seq![x] =~= s.insert(0, x));
    } else if less(x, s[0]) {
        assert(seq![x] + s =~= s.insert(0, x));
        let r = seq![x] + s;
        assert forall|i: int, j: int| 0 <= i < j < r.len() implies !less(#[trigger] r[j], #[trigger] r[i]) by {
            if i == 0 {
                assert(r[j] == s[j - 1]);
                if j - 1 > 0 {
                    assert(!less(s[j - 1], s[0]));
                }
                if less(s[j - 1], x) {
                    assert(less(s[j - 1], s[0]));
                    assert(!less(s[0], s[0]));
                }
            } else {
                assert(r[i] == s[i - 1] && r[j] == s[j - 1]);
            }
        }
    } else {
        let rest = s.drop_first();
        assert(sorted_asc(rest, less)) by {
            assert forall|i: int, j: int| 0 <= i < j < rest.len() implies !less(#[trigger] rest[j], #[trigger] rest[i]) by {
                assert(rest[i] == s[i + 1] && rest[j] == s[j + 1]);
            }
        }
        lemma_insert_asc_sorted(rest, x, less);
        let ins = insert_asc(rest, x, less);
        let head = s[0];
        lemma_insert_asc_members(rest, x, less);
        let r = seq![head] + ins;
        assert forall|i: int, j: int| 0 <= i < j < r.len() implies !less(#[trigger] r[j], #[trigger] r[i]) by {
            assert(r[j] == ins[j - 1]);
            if i == 0 {
                let y = ins[j - 1];
                if y != x {
                    let k = choose|k: int| 0 <= k < rest.len() && rest[k] == y;
                    assert(rest[k] == s[k + 1]);
                }
            } else {
                assert(r[i] == ins[i - 1]);
            }
        }
        assert(r =~= ins.insert(0, head));
        assert(s =~= rest.insert(0, head));
    }
}

/// Every element of an insertion is the element inserted or one of `s`.
proof fn lemma_insert_asc_members<T>(s: Seq<T>, x: T, less: spec_fn(T, T) -> bool)
    ensures
        forall|i: int| 0 <= i < insert_asc(s, x, less).len() ==> insert_asc(s, x, less)[i] == x
            || s.contains(#[trigger] insert_asc(s, x, less)[i]),
    decreases s.len(),
{
    if s.len() > 0 && !less(x, s[0]) {
        let rest = s.drop_first();
        lemma_insert_asc_members(rest, x, less);
        let ins = insert_asc(rest, x, less);
        let r = insert_asc(s, x, less);
        assert forall|i: int| 0 <= i < r.len() implies r[i] == x || s.contains(#[trigger] r[i]) by {
            if i == 0 {
                assert(s[0] == r[0]);
            } else {
                assert(r[i] == ins[i - 1]);
                if ins[i - 1] != x {
                    let k = choose|k: int| 0 <= k < rest.len() && rest[k] == ins[i - 1];
                    assert(s[k + 1] == rest[k]);
                }
            }
        }
    } else if s.len() > 0 {
        let r = insert_asc(s, x, less);
        assert forall|i: int| 0 <= i < r.len() implies r[i] == x || s.contains(#[trigger] r[i]) by {
            if i > 0 {
                assert(r[i] == s[i - 1]);
            }
        }
    }
}

/// The stable sort by a strict order `less` is sorted and holds exactly the
/// elements it was given.
pub proof fn lemma_sort_asc_sorted<T>(s: Seq<T>, less: spec_fn(T, T) -> bool)
    requires
        strict_order(less),
    ensures
        sorted_asc(sort_asc(s, less), less),
        sort_asc(s, less).to_multiset() =~= s.to_multiset(),
    decreases s.len(),
{
    broadcast use vstd::seq_lib::to_multiset_build;
    if s.len() == 0 {
        assert(sort_asc(s, less) =~= s);
    } else {
        lemma_sort_asc_sorted(s.drop_last(), less);
        lemma_insert_asc_sorted(sort_asc(s.drop_last(), less), s.last(), less);
        assert(s.drop_last().push(s.last()) =~= s);
    }
}

} // verus!

verus! {

/// What a filter keeps of a prefix weighs no more than what it keeps of
/// the whole.
pub proof fn lemma_sum_keep_if_take_le<T>(s: Seq<T>, k: int, p: spec_fn(T) -> bool, f: spec_fn(T) -> int)
    requires
        0 <= k <= s.len(),
        forall|x: T| #[trigger] f(x) >= 0,
    ensures
        sum_of(keep_if(s.take(k), p), f) <= sum_of(keep_if(s, p), f),
    decreases s.len() - k,
{
    if k == s.len() {
        assert(s.take(k) =~= s);
    } else {
        let t = s.drop_last();
        lemma_sum_keep_if_take_le(t, k, p, f);
        assert(t.take(k) =~= s.take(k));
        assert(s.drop_last() == t);
        lemma_sum_of_push(keep_if(t, p), s.last(), f);
    }
}

/// A total over elements that a map made no heavier, of which a filter
/// kept some, is at most the total over the originals.
pub proof fn lemma_sum_keep_if_map_le<A>(s: Seq<A>, g: spec_fn(A) -> A, p: spec_fn(A) -> bool, f: spec_fn(A) -> int)
    requires
        forall|x: A| #[trigger] f(x) >= 0,
        forall|x: A| #[trigger] f(g(x)) <= f(x),
    ensures
        sum_of(keep_if(s.map_values(g), p), f) <= sum_of(s, f),
    decreases s.len(),
{
    lemma_sum_keep_if_le(s.map_values(g), p, f);
    lemma_sum_map_le(s, g, f);
}

proof fn lemma_sum_map_le<A>(s: Seq<A>, g: spec_fn(A) -> A, f: spec_fn(A) -> int)
    requires
        forall|x: A| #[trigger] f(g(x)) <= f(x),
    ensures
        sum_of(s.map_values(g), f) <= sum_of(s, f),
    decreases s.len(),
{
    if s.len() > 0 {
        lemma_sum_map_le(s.drop_last(), g, f);
        assert(s.map_values(g).drop_last() =~= s.drop_last().map_values(g));
        assert(s.map_values(g).last() == g(s.last()));
    }
}

} // verus!

verus! {

/// Filtering a concatenation filters each part.
pub proof fn lemma_keep_if_concat<T>(a: Seq<T>, b: Seq<T>, p: spec_fn(T) -> bool)
    ensures
        keep_if(a + b, p) == keep_if(a, p) + keep_if(b, p),
    decreases b.len(),
{
    if b.len() == 0 {
        assert(a + b =~= a);
        assert(keep_if(a, p) + keep_if(b, p) =~= keep_if(a, p));
    } else {
        lemma_keep_if_concat(a, b.drop_last(), p);
        assert((a + b).drop_last() =~= a + b.drop_last());
        assert((a + b).last() == b.last());
        if p(b.last()) {
            assert(keep_if(a, p) + keep_if(b, p) =~= (keep_if(a, p) + keep_if(b.drop_last(), p)).push(b.last()));
        }
    }
}

/// Filtering twice is filtering once by both conditions.
pub proof fn lemma_keep_if_keep_if<T>(s: Seq<T>, p: spec_fn(T) -> bool, q: spec_fn(T) -> bool, r: spec_fn(T) -> bool)
    requires
        forall|x: T| #[trigger] r(x) == (p(x) && q(x)),
    ensures
        keep_if(keep_if(s, p), q) == keep_if(s, r),
    decreases s.len(),
{
    if s.len() > 0 {
        lemma_keep_if_keep_if(s.drop_last(), p, q, r);
        assert(r(s.last()) == (p(s.last()) && q(s.last())));
        if p(s.last()) {
            assert(keep_if(s, p).drop_last() =~= keep_if(s.drop_last(), p));
        }
    }
}

/// A filter that every element passes keeps everything.
pub proof fn lemma_keep_if_all<T>(s: Seq<T>, p: spec_fn(T) -> bool)
    requires
        forall|i: int| 0 <= i < s.len() ==> #[trigger] p(s[i]),
    ensures
        keep_if(s, p) == s,
    decreases s.len(),
{
    if s.len() > 0 {
        let t = s.drop_last();
        assert forall|i: int| 0 <= i < t.len() implies #[trigger] p(t[i]) by {
            assert(t[i] == s[i]);
        }
        lemma_keep_if_all(t, p);
        assert(p(s[s.len() - 1]));
        assert(t.push(s.last()) =~= s);
    }
}

/// What either of two conditions keeps weighs what the first keeps, plus
/// what the second keeps of the rest.
pub proof fn lemma_sum_keep_if_either<T>(s: Seq<T>, a: spec_fn(T) -> bool, na: spec_fn(T) -> bool,
    b: spec_fn(T) -> bool, c: spec_fn(T) -> bool, f: spec_fn(T) -> int)
    requires
        forall|x: T| #[trigger] c(x) == (a(x) || b(x)),
        forall|x: T| #[trigger] na(x) == !a(x),
    ensures
        sum_of(keep_if(s, c), f) == sum_of(keep_if(s, a), f) + sum_of(keep_if(keep_if(s, na), b), f),
    decreases s.len(),
{
    if s.len() > 0 {
        let t = s.drop_last();
        let x = s.last();
        lemma_sum_keep_if_either(t, a, na, b, c, f);
        assert(c(x) == (a(x) || b(x)));
        assert(na(x) == !a(x));
        if c(x) {
            lemma_sum_of_push(keep_if(t, c), x, f);
        }
        if a(x) {
            lemma_sum_of_push(keep_if(t, a), x, f);
        } else {
            assert(keep_if(s, na).drop_last() =~= keep_if(t, na));
            if b(x) {
                lemma_sum_of_push(keep_if(keep_if(t, na), b), x, f);
            }
        }
    }
}

/// Mapping and filtering twice, when the second map only loses what the
/// filter keeps, is mapping by the composition and filtering once.
pub proof fn lemma_keep_map_twice<T>(s: Seq<T>, g1: spec_fn(T) -> T, g2: spec_fn(T) -> T, g: spec_fn(T) -> T,
    keep: spec_fn(T) -> bool)
    requires
        forall|x: T| #[trigger] g(x) == g2(g1(x)),
        forall|y: T| keep(#[trigger] g2(y)) ==> keep(y),
    ensures
        keep_if(keep_if(s.map_values(g1), keep).map_values(g2), keep) == keep_if(s.map_values(g), keep),
    decreases s.len(),
{
    if s.len() > 0 {
        let t = s.drop_last();
        let x = s.last();
        lemma_keep_map_twice(t, g1, g2, g, keep);
        assert(s.map_values(g1).drop_last() =~= t.map_values(g1));
        assert(s.map_values(g1).last() == g1(x));
        assert(s.map_values(g).drop_last() =~= t.map_values(g));
        assert(s.map_values(g).last() == g(x));
        assert(g(x) == g2(g1(x)));
        let k1 = keep_if(t.map_values(g1), keep);
        let y = g2(g1(x));
        if keep(g1(x)) {
            assert(keep_if(s.map_values(g1), keep) == k1.push(g1(x)));
            let m = k1.map_values(g2);
            assert(k1.push(g1(x)).map_values(g2) =~= m.push(y));
            assert(m.push(y).drop_last() =~= m);
            assert(m.push(y).last() == y);
        } else {
            assert(keep_if(s.map_values(g1), keep) == k1);
            assert(!keep(y));
        }
    }
}

} // verus!

verus! {

/// The total of a concatenation is the sum of the totals.
pub proof fn lemma_sum_of_concat<T>(a: Seq<T>, b: Seq<T>, f: spec_fn(T) -> int)
    ensures
        sum_of(a + b, f) == sum_of(a, f) + sum_of(b, f),
    decreases b.len(),
{
    if b.len() == 0 {
        assert(a + b =~= a);
    } else {
        lemma_sum_of_concat(a, b.drop_last(), f);
        assert((a + b).drop_last() =~= a + b.drop_last());
        assert((a + b).last() == b.last());
    }
}

} // verus!
