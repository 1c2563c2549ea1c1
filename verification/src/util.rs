//! Small general-purpose helpers shared by the rest of the crate.

use vstd::prelude::*;
use core::cmp::Ordering;

verus! {

/// Collects up to `n` elements of `items`, beginning at position `start`.
/// If fewer than `n` elements remain, all remaining elements are collected.
pub fn take_n<T: Copy>(items: &Vec<T>, start: usize, n: usize) -> (r: Vec<T>)
    ensures
        start <= items@.len() ==> r@ == items@.subrange(
            start as int,
            if start + n <= items@.len() { start + n } else { items@.len() as int },
        ),
        start > items@.len() ==> r@ == Seq::<T>::empty(),
{
    let mut r: Vec<T> = Vec::new();
    let mut i = start;
    while i < items.len() && i - start < n
        invariant
            start <= i,
            i - start <= n,
            start <= items@.len() ==> i <= items@.len() && r@ == items@.subrange(start as int, i as int),
            start > items@.len() ==> i == start && r@ == Seq::<T>::empty(),
        decreases items@.len() - i,
    {
        r.push(items[i]);
        i = i + 1;
    }
    proof {
        if start <= items@.len() {
            assert(i == if start + n <= items@.len() { start + n } else { items@.len() as int });
        }
    }
    r
}

/// Advances a cursor over `items` while `cond` holds, returning the first
/// position at or after `start` whose element fails the condition (or the
/// length of `items` if none does).
pub fn skip_while<T, F: Fn(&T) -> bool>(items: &Vec<T>, start: usize, cond: F) -> (end: usize)
    requires
        start <= items@.len(),
        forall|i: int| start <= i < items@.len() ==> #[trigger] call_requires(cond, (&items@[i],)),
    ensures
        start <= end <= items@.len(),
        forall|i: int| start <= i < end ==> #[trigger] call_ensures(cond, (&items@[i],), true),
        end < items@.len() ==> call_ensures(cond, (&items@[end as int],), false),
{
    let mut i = start;
    while i < items.len()
        invariant
            start <= i <= items@.len(),
            forall|k: int| start <= k < items@.len() ==> #[trigger] call_requires(cond, (&items@[k],)),
            forall|k: int| start <= k < i ==> #[trigger] call_ensures(cond, (&items@[k],), true),
        decreases items@.len() - i,
    {
        if !cond(&items[i]) {
            return i;
        }
        i = i + 1;
    }
    i
}

/// Holds when folding `f` over `acc` and then the elements of `s`, with
/// every step permitted by `f`'s contract, can produce `out`.
pub open spec fn folds_to<T, E, F: Fn(T, T) -> Result<T, E>>(f: F, acc: T, s: Seq<T>, out: T) -> bool
    decreases s.len(),
{
    if s.len() == 0 {
        out == acc
    } else {
        exists|mid: T| #[trigger] call_ensures(f, (acc, s[0]), Ok(mid)) && folds_to(f, mid, s.skip(1), out)
    }
}

/// Reduces `items` with the fallible operation `f`, left to right.
/// Returns `Ok(None)` exactly on empty input; the first error from `f`
/// aborts the reduction.
pub fn try_reduce<T: Copy, E, F: Fn(T, T) -> Result<T, E>>(items: &Vec<T>, f: F) -> (r: Result<Option<T>, E>)
    requires
        forall|a: T, b: T| #[trigger] call_requires(f, (a, b)),
    ensures
        r matches Ok(out) ==> match out {
            None => items@.len() == 0,
            Some(v) => items@.len() > 0 && folds_to(f, items@[0], items@.skip(1), v),
        },
        r matches Err(e) ==> exists|a: T, b: T, o: Result<T, E>| #[trigger] call_ensures(f, (a, b), o) && o == Err::<T, E>(e),
{
    if items.len() == 0 {
        return Ok(None);
    }
    let mut acc = items[0];
    let mut i: usize = 1;
    while i < items.len()
        invariant
            1 <= i <= items@.len(),
            items@.len() > 0,
            forall|a: T, b: T| #[trigger] call_requires(f, (a, b)),
            folds_to(f, items@[0], items@.subrange(1, i as int), acc),
        decreases items@.len() - i,
    {
        let ghost prefix = items@.subrange(1, i as int);
        let step = f(acc, items[i]);
        match step {
            Ok(next) => {
                proof {
                    lemma_folds_to_step(f, items@[0], prefix, acc, items@[i as int], next);
                    assert(prefix.push(items@[i as int]) =~= items@.subrange(1, i + 1 as int));
                }
                acc = next;
            }
            Err(e) => {
                proof {
                    assert(call_ensures(f, (acc, items@[i as int]), step));
                }
                return Err(e);
            }
        }
        i = i + 1;
    }
    proof {
        assert(items@.subrange(1, items@.len() as int) =~= items@.skip(1));
    }
    Ok(Some(acc))
}

/// Extending a permitted fold by one more permitted step keeps it permitted.
proof fn lemma_folds_to_step<T, E, F: Fn(T, T) -> Result<T, E>>(f: F, start: T, s: Seq<T>, acc: T, x: T, next: T)
    requires
        folds_to(f, start, s, acc),
        call_ensures(f, (acc, x), Ok(next)),
    ensures
        folds_to(f, start, s.push(x), next),
    decreases s.len(),
{
    let t = s.push(x);
    if s.len() == 0 {
        assert(acc == start);
        assert(t.skip(1) =~= Seq::<T>::empty());
        assert(t[0] == x);
        assert(#[trigger] call_ensures(f, (start, t[0]), Ok(next)) && folds_to(f, next, t.skip(1), next));
    } else {
        assert(exists|mid: T| #[trigger] call_ensures(f, (start, s[0]), Ok(mid)) && folds_to(f, mid, s.skip(1), acc));
        let mid = choose|mid: T| #[trigger] call_ensures(f, (start, s[0]), Ok(mid)) && folds_to(f, mid, s.skip(1), acc);
        lemma_folds_to_step(f, mid, s.skip(1), acc, x, next);
        assert(t.skip(1) =~= s.skip(1).push(x));
        assert(t[0] == s[0]);
        assert(#[trigger] call_ensures(f, (start, t[0]), Ok(mid)) && folds_to(f, mid, t.skip(1), next));
    }
}

/// Clamps `val` into the inclusive range from `min` to `max`.
pub fn clamp(val: i64, min: i64, max: i64) -> (r: i64)
    ensures
        r == if val < min { min } else if val > max { max } else { val },
{
    if val < min {
        min
    } else if val > max {
        max
    } else {
        val
    }
}

/// Swaps the elements at positions `i` and `j` of `v`.
pub fn swap_elems<T>(v: &mut Vec<T>, i: usize, j: usize)
    requires
        i < old(v)@.len(),
        j < old(v)@.len(),
    ensures
        final(v)@ == old(v)@.update(i as int, old(v)@[j as int]).update(j as int, old(v)@[i as int]),
{
    if i == j {
        proof {
            assert(v@.update(i as int, v@[j as int]).update(j as int, v@[i as int]) =~= v@);
        }
        return;
    }
    let (lo, hi) = if i < j { (i, j) } else { (j, i) };
    let a = v.remove(lo);
    let b = v.remove(hi - 1);
    v.insert(lo, b);
    v.insert(hi, a);
    proof {
        assert(v@ =~= old(v)@.update(i as int, old(v)@[j as int]).update(j as int, old(v)@[i as int]));
    }
}

/// Swapping two positions of a sequence leaves its multiset of elements
/// unchanged.
pub proof fn lemma_swap_multiset<T>(s: Seq<T>, i: int, j: int)
    requires
        0 <= i < s.len(),
        0 <= j < s.len(),
    ensures
        s.update(i, s[j]).update(j, s[i]).to_multiset() == s.to_multiset(),
{
    broadcast use vstd::seq_lib::group_to_multiset_ensures, vstd::seq_lib::to_multiset_update,
        vstd::multiset::group_multiset_axioms;

    if i == j {
        assert(s.update(i, s[j]).update(j, s[i]) =~= s);
    } else {
        let s1 = s.update(i, s[j]);
        assert(s1[j] == s[j]);
        assert(s1.to_multiset() == s.to_multiset().insert(s[j]).remove(s[i]));
        assert(s1.update(j, s[i]).to_multiset() == s1.to_multiset().insert(s[i]).remove(s1[j]));
        assert(s.to_multiset().count(s[i]) > 0);
        assert(s1.update(j, s[i]).to_multiset() =~= s.to_multiset());
    }
}

/// Holds when `s` is sorted with respect to the total preorder `leq`.
pub open spec fn sorted_by<T>(s: Seq<T>, leq: spec_fn(T, T) -> bool) -> bool {
    forall|i: int, j: int| 0 <= i < j < s.len() ==> #[trigger] leq(s[i], s[j])
}

/// Holds when every answer the comparator can give agrees with the total
/// preorder `leq`: `Less` means strictly below, `Greater` strictly above,
/// `Equal` equivalent, and the comparator never fails.
pub open spec fn comparator_decides<T, E, F: Fn(&T, &T) -> Result<Ordering, E>>(
    cmp: F,
    leq: spec_fn(T, T) -> bool,
) -> bool {
    forall|x: T, y: T, o: Result<Ordering, E>|
        #[trigger] call_ensures(cmp, (&x, &y), o) ==> match o {
            Ok(Ordering::Less) => leq(x, y) && !leq(y, x),
            Ok(Ordering::Equal) => leq(x, y) && leq(y, x),
            Ok(Ordering::Greater) => !leq(x, y) && leq(y, x),
            Err(_) => false,
        }
}

/// Holds when `leq` is total: any two values compare one way or the other.
pub open spec fn total_leq<T>(leq: spec_fn(T, T) -> bool) -> bool {
    forall|x: T, y: T| #[trigger] leq(x, y) || #[trigger] leq(y, x)
}

/// Holds when `leq` is transitive.
pub open spec fn transitive_leq<T>(leq: spec_fn(T, T) -> bool) -> bool {
    forall|x: T, y: T, z: T| #[trigger] leq(x, y) && #[trigger] leq(y, z) ==> leq(x, z)
}

/// A total preorder: the shape of ordering that a well-behaved comparator
/// realises.
pub open spec fn total_preorder<T>(leq: spec_fn(T, T) -> bool) -> bool {
    total_leq(leq) && transitive_leq(leq)
}

/// Sorts the list in place with a fallible comparator. If the comparator
/// ever fails, the sort fails with the same error and the list is left in
/// an unspecified order (always a permutation of the input). Whenever the
/// comparator decides a total preorder, the sort succeeds and leaves the
/// list sorted by that preorder.
pub fn try_sort_by<T, E, F: Fn(&T, &T) -> Result<Ordering, E>>(arr: &mut Vec<T>, cmp: F) -> (r: Result<(), E>)
    requires
        forall|x: T, y: T| #[trigger] call_requires(cmp, (&x, &y)),
    ensures
        final(arr)@.to_multiset() == old(arr)@.to_multiset(),
        final(arr)@.len() == old(arr)@.len(),
        r matches Err(e) ==> exists|x: T, y: T, o: Result<Ordering, E>| #[trigger] call_ensures(cmp, (&x, &y), o) && o == Err::<Ordering, E>(e),
        // A comparator that can only fail fails the sort as soon as it
        // is consulted, which two or more elements force.
        old(arr)@.len() >= 2 && (forall|x: T, y: T, o: Result<Ordering, E>|
            #[trigger] call_ensures(cmp, (&x, &y), o) ==> o is Err) ==> r is Err,
        forall|leq: spec_fn(T, T) -> bool|
            comparator_decides(cmp, leq) && total_preorder(leq) ==> r is Ok && sorted_by(final(arr)@, leq),
{
    broadcast use vstd::seq_lib::group_to_multiset_ensures, vstd::seq_lib::to_multiset_update;

    if arr.len() <= 1 {
        return Ok(());
    }
    let mut i: usize = 1;
    while i < arr.len()
        invariant
            1 <= i <= arr@.len(),
            arr@.to_multiset() == old(arr)@.to_multiset(),
            arr@.len() == old(arr)@.len(),
            forall|x: T, y: T| #[trigger] call_requires(cmp, (&x, &y)),
            forall|leq: spec_fn(T, T) -> bool|
                comparator_decides(cmp, leq) && total_preorder(leq)
                    ==> sorted_by(#[trigger] arr@.subrange(0, i as int), leq),
            i > 1 ==> ((forall|x: T, y: T, o: Result<Ordering, E>|
                #[trigger] call_ensures(cmp, (&x, &y), o) ==> o is Err) ==> false),
        decreases arr@.len() - i,
    {
        let mut j: usize = i;
        while j > 0
            invariant
                1 <= i,
                j <= i < arr@.len(),
                arr@.to_multiset() == old(arr)@.to_multiset(),
                arr@.len() == old(arr)@.len(),
                forall|x: T, y: T| #[trigger] call_requires(cmp, (&x, &y)),
                forall|leq: spec_fn(T, T) -> bool|
                    comparator_decides(cmp, leq) && total_preorder(leq)
                        ==> sorted_by(#[trigger] arr@.subrange(0, j as int), leq)
                            && sorted_by(arr@.subrange(j as int, i + 1 as int), leq)
                            && (forall|p: int, q: int|
                                0 <= p < j && j < q <= i ==> leq(arr@[p], arr@[q])),
                j < i ==> ((forall|x: T, y: T, o: Result<Ordering, E>|
                    #[trigger] call_ensures(cmp, (&x, &y), o) ==> o is Err) ==> false),
            ensures
                j <= i < arr@.len(),
                arr@.to_multiset() == old(arr)@.to_multiset(),
                arr@.len() == old(arr)@.len(),
                forall|leq: spec_fn(T, T) -> bool|
                    comparator_decides(cmp, leq) && total_preorder(leq)
                        ==> sorted_by(#[trigger] arr@.subrange(0, j as int), leq)
                            && sorted_by(arr@.subrange(j as int, i + 1 as int), leq)
                            && (forall|p: int, q: int|
                                0 <= p < j && j < q <= i ==> leq(arr@[p], arr@[q]))
                            && (j > 0 ==> leq(arr@[j - 1], arr@[j as int])),
                (forall|x: T, y: T, o: Result<Ordering, E>|
                    #[trigger] call_ensures(cmp, (&x, &y), o) ==> o is Err) ==> false,
            decreases j,
        {
            let c = cmp(&arr[j], &arr[j - 1]);
            match c {
                Ok(Ordering::Less) => {
                    proof {
                        assert(call_ensures(cmp, (&arr@[j as int], &arr@[j - 1]), c));
                    }
                }
                Ok(_) => {
                    proof {
                        assert(call_ensures(cmp, (&arr@[j as int], &arr@[j - 1]), c));
                        assert forall|leq: spec_fn(T, T) -> bool|
                            comparator_decides(cmp, leq) && total_preorder(leq)
                                implies leq(arr@[j - 1], arr@[j as int]) by {
                            assert(call_ensures(cmp, (&arr@[j as int], &arr@[j - 1]), c));
                        }
                    }
                    break;
                }
                Err(e) => {
                    proof {
                        assert(call_ensures(cmp, (&arr@[j as int], &arr@[j - 1]), c));
                        assert forall|leq: spec_fn(T, T) -> bool|
                            comparator_decides(cmp, leq) && total_preorder(leq) implies false by {
                            assert(call_ensures(cmp, (&arr@[j as int], &arr@[j - 1]), c));
                        }
                    }
                    return Err(e);
                }
            }
            let ghost pre = arr@;
            swap_elems(arr, j - 1, j);
            proof {
                lemma_swap_multiset(pre, j - 1, j as int);
                assert forall|leq: spec_fn(T, T) -> bool|
                    comparator_decides(cmp, leq) && total_preorder(leq)
                        implies sorted_by(#[trigger] arr@.subrange(0, j - 1), leq)
                            && sorted_by(arr@.subrange(j - 1, i + 1 as int), leq)
                            && (forall|p: int, q: int|
                                0 <= p < j - 1 && j - 1 < q <= i ==> leq(arr@[p], arr@[q])) by {
                    assert(sorted_by(pre.subrange(0, j as int), leq));
                    assert(sorted_by(pre.subrange(j as int, i + 1 as int), leq));
                    // The comparator reported the moved element strictly below
                    // its left neighbour.
                    assert(leq(pre[j as int], pre[j - 1]));
                    assert(arr@.subrange(0, j - 1) =~= pre.subrange(0, j - 1));
                    assert forall|p: int, q: int|
                        j - 1 <= p < q <= i implies leq(#[trigger] arr@[p], #[trigger] arr@[q]) by {
                        let olds = pre.subrange(j as int, i + 1 as int);
                        if p == j - 1 {
                            // Moved element versus the rest of the scanned block.
                            if q == j {
                                assert(arr@[q] == pre[j - 1]);
                            } else {
                                assert(arr@[q] == pre[q]);
                                assert(olds[0] == pre[j as int]);
                                assert(olds[q - j] == pre[q]);
                            }
                        } else if p == j {
                            assert(arr@[p] == pre[j - 1]);
                            assert(arr@[q] == pre[q]);
                            assert(pre.subrange(0, j as int)[j - 1] == pre[j - 1]);
                        } else {
                            assert(arr@[p] == pre[p]);
                            assert(arr@[q] == pre[q]);
                            assert(olds[p - j] == pre[p]);
                            assert(olds[q - j] == pre[q]);
                        }
                    }
                    assert forall|p: int, q: int|
                        0 <= p < j - 1 && j - 1 < q <= i implies leq(#[trigger] arr@[p], #[trigger] arr@[q]) by {
                        assert(arr@[p] == pre[p]);
                        if q == j {
                            assert(arr@[q] == pre[j - 1]);
                            assert(pre.subrange(0, j as int)[p] == pre[p]);
                            assert(pre.subrange(0, j as int)[j - 1] == pre[j - 1]);
                        } else if q == j - 1 {
                            assert(arr@[q] == pre[j as int]);
                        } else {
                            assert(arr@[q] == pre[q]);
                        }
                    }
                }
            }
            j = j - 1;
        }
        proof {
            assert forall|leq: spec_fn(T, T) -> bool|
                comparator_decides(cmp, leq) && total_preorder(leq)
                    implies sorted_by(#[trigger] arr@.subrange(0, i + 1 as int), leq) by {
                let s = arr@.subrange(0, i + 1 as int);
                assert forall|p: int, q: int| 0 <= p < q < s.len() implies leq(s[p], s[q]) by {
                    assert(s[p] == arr@[p] && s[q] == arr@[q]);
                    if q < j {
                        assert(arr@.subrange(0, j as int)[p] == arr@[p]);
                        assert(arr@.subrange(0, j as int)[q] == arr@[q]);
                    } else if p >= j {
                        let seg = arr@.subrange(j as int, i + 1 as int);
                        assert(seg[p - j] == arr@[p]);
                        assert(seg[q - j] == arr@[q]);
                    } else if q == j {
                        // p < j == q: step through the left neighbour.
                        assert(leq(arr@[j - 1], arr@[j as int]));
                        if p < j - 1 {
                            assert(arr@.subrange(0, j as int)[p] == arr@[p]);
                            assert(arr@.subrange(0, j as int)[j - 1] == arr@[j - 1]);
                            assert(leq(arr@[p], arr@[j - 1]));
                        }
                    }
                }
            }
        }
        i = i + 1;
    }
    proof {
        assert(arr@.subrange(0, arr@.len() as int) =~= arr@);
    }
    Ok(())
}

} // verus!
