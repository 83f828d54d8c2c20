//! Ranking of instruments by movement, and the as-of time of a snapshot.
use vstd::prelude::*;

use crate::float_bits::{is_nan_bits, order_key, order_value};

verus! {

/// `r` lists each index below `n` exactly once.
pub open spec fn is_index_permutation(r: Seq<usize>, n: int) -> bool {
    &&& r.len() == n
    &&& forall|a: int| 0 <= a < r.len() ==> #[trigger] r[a] < n
    &&& forall|a: int, b: int| 0 <= a < b < r.len() ==> r[a] != r[b]
}

/// Some movement is a NaN.
pub open spec fn has_nan(m: Seq<u64>) -> bool {
    exists|i: int| 0 <= i < m.len() && is_nan_bits(#[trigger] m[i])
}

/// The movement at index `i`, on the number line.
pub open spec fn movement_value(m: Seq<u64>, i: usize) -> int {
    order_value(m[i as int])
}

/// Reading `m` in the order `r` never goes up.
pub open spec fn is_descending(m: Seq<u64>, r: Seq<usize>) -> bool {
    forall|a: int, b: int|
        0 <= a < b < r.len() ==> movement_value(m, #[trigger] r[a]) >= movement_value(m, #[trigger] r[b])
}

/// Two movements appear out of their order in `m` only when both are numbers and the
/// one placed first is strictly greater: a NaN, like an equal movement, keeps its place
/// relative to every other movement.
pub open spec fn moves_only_greater(m: Seq<u64>, r: Seq<usize>) -> bool {
    forall|a: int, b: int|
        0 <= a < b < r.len() && #[trigger] r[a] > #[trigger] r[b] ==> !is_nan_bits(m[r[a] as int])
            && !is_nan_bits(m[r[b] as int]) && movement_value(m, r[a]) > movement_value(m, r[b])
}

/// Equal movements keep the order they had in `m`.
pub open spec fn is_stable(m: Seq<u64>, r: Seq<usize>) -> bool {
    forall|a: int, b: int|
        0 <= a < b < r.len() && movement_value(m, #[trigger] r[a]) == movement_value(m, #[trigger] r[b]) ==> r[a] < r[b]
}

fn strictly_greater(a: Option<i64>, b: Option<i64>) -> (r: bool)
    ensures
        r == (a is Some && b is Some && a->Some_0 > b->Some_0),
{
    match (a, b) {
        (Some(x), Some(y)) => x > y,
        _ => false,
    }
}

/// The order in which the movements `movements` (binary64 bit patterns) are ranked:
/// largest first, equal movements in the order given. A NaN compares equal to
/// everything: the sort is stable under that comparison, though with a NaN present the
/// result need not be descending throughout.
pub fn rank_order(movements: &Vec<u64>) -> (r: Vec<usize>)
    ensures
        is_index_permutation(r@, movements@.len() as int),
        moves_only_greater(movements@, r@),
        !has_nan(movements@) ==> is_descending(movements@, r@) && is_stable(movements@, r@),
{
    let ghost m = movements@;
    let n = movements.len();
    let mut keys: Vec<Option<i64>> = Vec::new();
    let mut k: usize = 0;
    while k < n
        invariant
            n == m.len(),
            m == movements@,
            k <= n,
            keys@.len() == k,
            forall|t: int| 0 <= t < k ==> #[trigger] keys@[t] == (if is_nan_bits(m[t]) {
                None
            } else {
                Some(order_value(m[t]) as i64)
            }),
            forall|t: int| 0 <= t < k && !is_nan_bits(m[t]) ==> order_value(m[t]) == (#[trigger] keys@[t])->Some_0 as int,
        decreases n - k,
    {
        keys.push(order_key(movements[k]));
        k = k + 1;
    }
    let mut r: Vec<usize> = Vec::new();
    let mut i: usize = 0;
    while i < n
        invariant
            n == m.len(),
            m == movements@,
            keys@.len() == n,
            i <= n,
            forall|t: int| 0 <= t < n && !is_nan_bits(m[t]) ==> order_value(m[t]) == (#[trigger] keys@[t])->Some_0 as int,
            forall|t: int| 0 <= t < n ==> (#[trigger] keys@[t] is None <==> is_nan_bits(m[t])),
            is_index_permutation(r@, i as int),
            moves_only_greater(m, r@),
            !has_nan(m) ==> is_descending(m, r@) && is_stable(m, r@),
        decreases n - i,
    {
        let ki = keys[i];
        let mut j: usize = r.len();
        while j > 0 && strictly_greater(ki, keys[r[j - 1]])
            invariant
                n == m.len(),
                keys@.len() == n,
                i < n,
                ki == keys@[i as int],
                is_index_permutation(r@, i as int),
                j <= r@.len(),
                forall|t: int| j <= t < r@.len() ==> ki is Some && (#[trigger] keys@[r@[t] as int]) is Some
                    && ki->Some_0 > keys@[r@[t] as int]->Some_0,
            decreases j,
        {
            j = j - 1;
        }
        let ghost old_r = r@;
        r.insert(j, i);
        proof {
            assert(r@ == old_r.insert(j as int, i));
            assert forall|a: int| 0 <= a < r@.len() implies #[trigger] r@[a] < i + 1 by {
                if a < j {
                    assert(r@[a] == old_r[a]);
                } else if a > j {
                    assert(r@[a] == old_r[a - 1]);
                }
            }
            assert forall|a: int, b: int| 0 <= a < b < r@.len() implies r@[a] != r@[b] by {
                if a < j {
                    assert(r@[a] == old_r[a]);
                } else if a > j {
                    assert(r@[a] == old_r[a - 1]);
                }
                if b < j {
                    assert(r@[b] == old_r[b]);
                } else if b > j {
                    assert(r@[b] == old_r[b - 1]);
                }
            }
            assert forall|a: int, b: int|
                0 <= a < b < r@.len() && #[trigger] r@[a] > #[trigger] r@[b] implies !is_nan_bits(m[r@[a] as int])
                    && !is_nan_bits(m[r@[b] as int]) && movement_value(m, r@[a]) > movement_value(m, r@[b]) by {
                if a < j {
                    assert(r@[a] == old_r[a]);
                } else if a > j {
                    assert(r@[a] == old_r[a - 1]);
                }
                if b < j {
                    assert(r@[b] == old_r[b]);
                } else if b > j {
                    assert(r@[b] == old_r[b - 1]);
                }
                if a == j {
                    let q = old_r[b - 1] as int;
                    assert(q < n);
                    assert(keys@[q] is Some && ki->Some_0 > keys@[q]->Some_0);
                    assert(!is_nan_bits(m[q]));
                    assert(!is_nan_bits(m[i as int]));
                    assert(order_value(m[q]) == keys@[q]->Some_0 as int);
                    assert(order_value(m[i as int]) == keys@[i as int]->Some_0 as int);
                }
            }
            if !has_nan(m) {
                assert(!is_nan_bits(m[i as int]));
                assert forall|t: int| 0 <= t < n implies !is_nan_bits(#[trigger] m[t]) by {}
                let vi = order_value(m[i as int]);
                assert forall|a: int| 0 <= a < j implies movement_value(m, #[trigger] old_r[a]) >= vi by {
                    let p = old_r[j - 1];
                    assert(!is_nan_bits(m[p as int]));
                    assert(!is_nan_bits(m[old_r[a] as int]));
                    if a < j - 1 {
                        assert(movement_value(m, old_r[a]) >= movement_value(m, old_r[j - 1]));
                    }
                }
                assert forall|a: int| j <= a < old_r.len() implies movement_value(m, #[trigger] old_r[a]) < vi by {
                    let q = old_r[a] as int;
                    assert(q < n);
                    assert(!is_nan_bits(m[q]));
                    assert(keys@[q] is Some && ki->Some_0 > keys@[q]->Some_0);
                    assert(order_value(m[q]) == keys@[q]->Some_0 as int);
                    assert(order_value(m[i as int]) == keys@[i as int]->Some_0 as int);
                }
                assert forall|a: int, b: int| 0 <= a < b < r@.len() implies movement_value(m, #[trigger] r@[a])
                    >= movement_value(m, #[trigger] r@[b]) by {
                    if a < j {
                        assert(r@[a] == old_r[a]);
                    } else if a > j {
                        assert(r@[a] == old_r[a - 1]);
                    }
                    if b < j {
                        assert(r@[b] == old_r[b]);
                    } else if b > j {
                        assert(r@[b] == old_r[b - 1]);
                    }
                }
                assert forall|a: int, b: int|
                    0 <= a < b < r@.len() && movement_value(m, #[trigger] r@[a]) == movement_value(m, #[trigger] r@[b])
                    implies r@[a] < r@[b] by {
                    if a < j {
                        assert(r@[a] == old_r[a]);
                    } else if a > j {
                        assert(r@[a] == old_r[a - 1]);
                    }
                    if b < j {
                        assert(r@[b] == old_r[b]);
                    } else if b > j {
                        assert(r@[b] == old_r[b - 1]);
                    }
                }
            }
        }
        i = i + 1;
    }
    r
}

/// The latest close time among `times`; zero for an empty list.
pub open spec fn latest_of(times: Seq<i64>) -> int
    decreases times.len(),
{
    if times.len() == 0 {
        0
    } else if times.len() == 1 {
        times[0] as int
    } else {
        let rest = latest_of(times.drop_last());
        if times.last() > rest {
            times.last() as int
        } else {
            rest
        }
    }
}

/// The as-of time of a snapshot: the latest close time among its results, or zero when
/// there are none.
pub fn latest_close_time(times: &Vec<i64>) -> (t: i64)
    ensures
        t as int == latest_of(times@),
        forall|i: int| 0 <= i < times@.len() ==> times@[i] <= t,
        times@.len() > 0 ==> exists|i: int| 0 <= i < times@.len() && times@[i] == t,
        times@.len() == 0 ==> t == 0,
{
    if times.len() == 0 {
        return 0;
    }
    let mut t: i64 = times[0];
    let mut i: usize = 1;
    assert(times@.subrange(0, 1) =~= seq![times@[0]]);
    while i < times.len()
        invariant
            1 <= i <= times@.len(),
            t as int == latest_of(times@.subrange(0, i as int)),
            forall|k: int| 0 <= k < i ==> times@[k] <= t,
            exists|k: int| 0 <= k < i && times@[k] == t,
        decreases times.len() - i,
    {
        proof {
            let p = times@.subrange(0, i + 1);
            assert(p.drop_last() =~= times@.subrange(0, i as int));
            assert(p.last() == times@[i as int]);
        }
        if times[i] > t {
            t = times[i];
        }
        i = i + 1;
    }
    assert(times@.subrange(0, i as int) =~= times@);
    t
}

} // verus!
