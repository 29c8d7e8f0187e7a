use vstd::prelude::*;

verus! {

/// Row `a` comes before row `b` when the newest are listed first: it has the later
/// time or, at the same time, the later place in its table.
pub open spec fn newer(times: Seq<i64>, a: int, b: int) -> bool {
    times[a] > times[b] || (times[a] == times[b] && a > b)
}

/// Row `p` stands somewhere in `order`.
pub open spec fn stands_in(order: Seq<int>, p: int) -> bool {
    exists|i: int| 0 <= i < order.len() && order[i] == p
}

/// `order` lists the places of all rows, each once, the newest first.
pub open spec fn is_newest_first(times: Seq<i64>, order: Seq<int>) -> bool {
    &&& order.len() == times.len()
    &&& forall|i: int| 0 <= i < order.len() ==> 0 <= #[trigger] order[i] < times.len()
    &&& forall|i: int, j: int|
        0 <= i < j < order.len() ==> newer(times, #[trigger] order[i], #[trigger] order[j])
    &&& forall|p: int| 0 <= p < times.len() ==> #[trigger] stands_in(order, p)
}

/// The places in `order` as integers.
pub open spec fn places(order: Seq<usize>) -> Seq<int> {
    order.map_values(|p: usize| p as int)
}

/// The rows of `table` at the places that `order` lists, in that order.
pub open spec fn picked<T>(table: Seq<T>, order: Seq<int>) -> Seq<T> {
    order.map_values(|p: int| table[p])
}

/// The list of the places of all rows with the newest first. There is one such list,
/// and one only.
pub open spec fn newest_first_order(times: Seq<i64>) -> Seq<int> {
    choose|order: Seq<int>| is_newest_first(times, order)
}

/// The first `limit` rows of `table` when the newest are listed first, or all where
/// there are fewer.
pub open spec fn newest<T>(table: Seq<T>, times: Seq<i64>, limit: nat) -> Seq<T> {
    picked(
        table,
        newest_first_order(times).take(
            if limit < times.len() {
                limit as int
            } else {
                times.len() as int
            },
        ),
    )
}

/// The places of all rows, the newest first.
pub fn newest_first(times: &Vec<i64>) -> (order: Vec<usize>)
    ensures
        is_newest_first(times@, places(order@)),
        places(order@) == newest_first_order(times@),
        order@.len() == times@.len(),
        forall|i: int| 0 <= i < order@.len() ==> #[trigger] order@[i] < times@.len(),
{
    let mut order: Vec<usize> = Vec::new();
    let mut next: usize = 0;
    while next < times.len()
        invariant
            next <= times.len(),
            order@.len() == next,
            forall|i: int| 0 <= i < order@.len() ==> #[trigger] order@[i] < next,
            forall|p: int| 0 <= p < next ==> #[trigger] stands_in(places(order@), p),
            forall|i: int, j: int|
                0 <= i < j < order@.len() ==> newer(
                    times@,
                    #[trigger] order@[i] as int,
                    #[trigger] order@[j] as int,
                ),
        decreases times.len() - next,
    {
        let mut at: usize = 0;
        while at < order.len() && times[order[at]] > times[next]
            invariant
                at <= order@.len(),
                next < times.len(),
                forall|i: int| 0 <= i < order@.len() ==> #[trigger] order@[i] < next,
                forall|i: int| 0 <= i < at ==> times@[#[trigger] order@[i] as int] > times@[next as int],
            decreases order@.len() - at,
        {
            at = at + 1;
        }
        let ghost before = order@;
        order.insert(at, next);
        proof {
            assert forall|i: int, j: int| 0 <= i < j < order@.len() implies newer(
                times@,
                #[trigger] order@[i] as int,
                #[trigger] order@[j] as int,
            ) by {
                if j < at {
                    assert(order@[i] == before[i] && order@[j] == before[j]);
                } else if j == at {
                    assert(order@[i] == before[i]);
                } else if i < at {
                    assert(order@[i] == before[i] && order@[j] == before[j - 1]);
                } else if i == at {
                    assert(order@[j] == before[j - 1]);
                    if j - 1 > at {
                        assert(newer(times@, before[at as int] as int, before[j - 1] as int));
                    }
                } else {
                    assert(order@[i] == before[i - 1] && order@[j] == before[j - 1]);
                }
            }
            assert forall|i: int| 0 <= i < order@.len() implies #[trigger] order@[i] < next + 1 by {
                if i < at {
                    assert(order@[i] == before[i]);
                } else if i > at {
                    assert(order@[i] == before[i - 1]);
                }
            }
            assert forall|p: int| 0 <= p < next + 1 implies #[trigger] stands_in(
                places(order@),
                p,
            ) by {
                if p == next {
                    assert(places(order@)[at as int] == p);
                } else {
                    assert(stands_in(places(before), p));
                    let i = choose|i: int| 0 <= i < before.len() && places(before)[i] == p;
                    if i < at {
                        assert(places(order@)[i] == p);
                    } else {
                        assert(places(order@)[i + 1] == p);
                    }
                }
            }
        }
        next = next + 1;
    }
    proof {
        let p = places(order@);
        assert forall|i: int, j: int| 0 <= i < j < p.len() implies newer(
            times@,
            #[trigger] p[i],
            #[trigger] p[j],
        ) by {
            assert(newer(times@, order@[i] as int, order@[j] as int));
        }
        assert(is_newest_first(times@, p));
        newest_first_is_unique(times@, p, newest_first_order(times@));
    }
    order
}

/// There is one way only to list the rows with the newest first.
pub proof fn newest_first_is_unique(times: Seq<i64>, a: Seq<int>, b: Seq<int>)
    requires
        is_newest_first(times, a),
        is_newest_first(times, b),
    ensures
        a == b,
{
    lemma_same_prefix(times, a, b, times.len() as int);
    assert(a =~= b);
}

/// Two lists of all rows with the newest first agree on their first `n` places.
proof fn lemma_same_prefix(times: Seq<i64>, a: Seq<int>, b: Seq<int>, n: int)
    requires
        is_newest_first(times, a),
        is_newest_first(times, b),
        0 <= n <= times.len(),
    ensures
        forall|k: int| 0 <= k < n ==> a[k] == b[k],
    decreases n,
{
    if n > 0 {
        lemma_same_prefix(times, a, b, n - 1);
        let i = n - 1;
        let p = a[i];
        let q = b[i];
        assert(stands_in(b, p));
        let j = choose|j: int| 0 <= j < b.len() && b[j] == p;
        assert(stands_in(a, q));
        let k = choose|k: int| 0 <= k < a.len() && a[k] == q;
        if j < i {
            assert(a[j] == b[j]);
            assert(newer(times, a[j], a[i]));
        }
        if k < i {
            assert(a[k] == b[k]);
            assert(newer(times, b[k], b[i]));
        }
        if j > i {
            assert(newer(times, b[i], b[j]));
            if k > i {
                assert(newer(times, a[i], a[k]));
            }
        }
    }
}

/// `m` is the greatest of the values.
pub open spec fn is_greatest(values: Seq<i64>, m: i64) -> bool {
    &&& exists|i: int| 0 <= i < values.len() && values[i] == m
    &&& forall|i: int| 0 <= i < values.len() ==> #[trigger] values[i] <= m
}

/// The greatest of the values; nothing where there is none.
pub open spec fn greatest_of(values: Seq<i64>) -> Option<i64> {
    if values.len() == 0 {
        None
    } else {
        Some(choose|m: i64| is_greatest(values, m))
    }
}

/// The greatest of the values; nothing where there is none.
pub fn greatest(values: &Vec<i64>) -> (out: Option<i64>)
    ensures
        out == greatest_of(values@),
        out.is_some() ==> is_greatest(values@, out.unwrap()),
{
    if values.len() == 0 {
        return None;
    }
    let mut best: i64 = values[0];
    let mut i: usize = 1;
    while i < values.len()
        invariant
            1 <= i <= values.len(),
            exists|k: int| 0 <= k < i && values@[k] == best,
            forall|k: int| 0 <= k < i ==> #[trigger] values@[k] <= best,
        decreases values.len() - i,
    {
        if values[i] > best {
            best = values[i];
        }
        i = i + 1;
    }
    proof {
        assert(is_greatest(values@, best));
        let chosen = choose|m: i64| is_greatest(values@, m);
        assert(is_greatest(values@, chosen));
        let a = choose|k: int| 0 <= k < values@.len() && values@[k] == best;
        let b = choose|k: int| 0 <= k < values@.len() && values@[k] == chosen;
        assert(values@[a] <= chosen);
        assert(values@[b] <= best);
    }
    Some(best)
}

} // verus!
