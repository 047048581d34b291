use vstd::prelude::*;

verus! {

// ---------------------------------------------------------------------------------------------
// Model of a consolidation plan over integer balances.
// ---------------------------------------------------------------------------------------------

/// Sum of a sequence of balances.
pub open spec fn sum(s: Seq<int>) -> int
    decreases s.len(),
{
    if s.len() == 0 {
        0
    } else {
        sum(s.drop_last()) + s.last()
    }
}

/// Index of the largest balance among the first `n`; among equal maxima the last one.
pub open spec fn last_max_index(bal: Seq<int>, n: int) -> int
    decreases n,
{
    if n <= 1 {
        0
    } else {
        let m = last_max_index(bal, n - 1);
        if bal[n - 1] >= bal[m] {
            n - 1
        } else {
            m
        }
    }
}

/// Donor `x` is pulled from before donor `y`: larger balance first, lower index on ties.
pub open spec fn before(bal: Seq<int>, x: int, y: int) -> bool {
    bal[x] > bal[y] || (bal[x] == bal[y] && x < y)
}

/// `order` lists every account except `exec` exactly once, largest balance first (ties by
/// index).
pub open spec fn is_donor_order(bal: Seq<int>, exec: int, order: Seq<int>) -> bool {
    &&& forall|k: int| 0 <= k < order.len() ==> 0 <= #[trigger] order[k] < bal.len() && order[k] != exec
    &&& forall|i: int| 0 <= i < bal.len() && i != exec ==> #[trigger] order.contains(i)
    &&& forall|a: int, b: int| 0 <= a < b < order.len() ==> before(bal, #[trigger] order[a], #[trigger] order[b])
}

/// The donor order (it exists and is unique: see `lemma_donor_order_unique`).
pub open spec fn donor_order(bal: Seq<int>, exec: int) -> Seq<int> {
    choose|o: Seq<int>| is_donor_order(bal, exec, o)
}

/// Greedy pulls, from position `k` of `order` on, with `deficit` still to cover and `acc`
/// already planned: each positive donor gives `min(balance, deficit)` until the deficit is
/// covered or `max_txs` pulls are planned. Returns the pulls and the deficit left.
pub open spec fn greedy(
    bal: Seq<int>,
    order: Seq<int>,
    k: int,
    deficit: int,
    acc: Seq<(int, int)>,
    max_txs: int,
) -> (Seq<(int, int)>, int)
    decreases order.len() - k,
{
    if k < 0 || k >= order.len() || deficit <= 0 || acc.len() >= max_txs {
        (acc, deficit)
    } else {
        let b = bal[order[k]];
        if b <= 0 {
            greedy(bal, order, k + 1, deficit, acc, max_txs)
        } else {
            let amt = if b < deficit {
                b
            } else {
                deficit
            };
            greedy(bal, order, k + 1, deficit - amt, acc.push((order[k], amt)), max_txs)
        }
    }
}

/// The consolidation plan for `bal`: the executor index and the pulls into it, or `None` when
/// the requirement cannot be met within `max_txs` pulls.
pub open spec fn plan(bal: Seq<int>, required: int, max_txs: int) -> Option<(int, Seq<(int, int)>)> {
    if required <= 0 {
        Some((0, Seq::empty()))
    } else if bal.len() == 0 {
        None
    } else {
        let exec = last_max_index(bal, bal.len() as int);
        if bal[exec] >= required {
            Some((exec, Seq::empty()))
        } else if max_txs == 0 {
            None
        } else if sum(bal) < required {
            None
        } else {
            let (transfers, left) = greedy(
                bal,
                donor_order(bal, exec),
                0,
                required - bal[exec],
                Seq::empty(),
                max_txs,
            );
            if left > 0 {
                None
            } else {
                Some((exec, transfers))
            }
        }
    }
}

// ---------------------------------------------------------------------------------------------
// Facts about the model.
// ---------------------------------------------------------------------------------------------

pub proof fn lemma_last_max_index(bal: Seq<int>, n: int)
    requires
        1 <= n <= bal.len(),
    ensures
        0 <= last_max_index(bal, n) < n,
        forall|j: int| 0 <= j < n ==> #[trigger] bal[j] <= bal[last_max_index(bal, n)],
        forall|j: int| last_max_index(bal, n) < j < n ==> #[trigger] bal[j] < bal[last_max_index(bal, n)],
    decreases n,
{
    if n > 1 {
        lemma_last_max_index(bal, n - 1);
    }
}

proof fn lemma_order_first_is_least(bal: Seq<int>, o: Seq<int>, x: int)
    requires
        o.len() > 0,
        forall|a: int, b: int| 0 <= a < b < o.len() ==> before(bal, #[trigger] o[a], #[trigger] o[b]),
        o.contains(x),
        x != o[0],
    ensures
        before(bal, o[0], x),
{
    let j = choose|j: int| 0 <= j < o.len() && o[j] == x;
    assert(j != 0);
    assert(before(bal, o[0], o[j]));
}

/// Two sequences holding the same indices, each strictly ordered by `before`, are equal.
pub proof fn lemma_sorted_same_members_equal(bal: Seq<int>, o1: Seq<int>, o2: Seq<int>)
    requires
        forall|a: int, b: int| 0 <= a < b < o1.len() ==> before(bal, #[trigger] o1[a], #[trigger] o1[b]),
        forall|a: int, b: int| 0 <= a < b < o2.len() ==> before(bal, #[trigger] o2[a], #[trigger] o2[b]),
        forall|x: int| o1.contains(x) <==> o2.contains(x),
    ensures
        o1 == o2,
    decreases o1.len(),
{
    if o1.len() == 0 {
        if o2.len() > 0 {
            assert(o2.contains(o2[0]));
        }
        assert(o1 =~= o2);
    } else {
        assert(o1.contains(o1[0]));
        assert(o2.len() > 0);
        assert(o2.contains(o2[0]));
        if o1[0] != o2[0] {
            lemma_order_first_is_least(bal, o1, o2[0]);
            lemma_order_first_is_least(bal, o2, o1[0]);
            assert(false);
        }
        let t1 = o1.drop_first();
        let t2 = o2.drop_first();
        assert forall|x: int| t1.contains(x) <==> t2.contains(x) by {
            if t1.contains(x) {
                let j = choose|j: int| 0 <= j < t1.len() && t1[j] == x;
                assert(o1[j + 1] == x);
                assert(before(bal, o1[0], o1[j + 1]));
                assert(o1.contains(x));
                assert(o2.contains(x));
                let j2 = choose|j2: int| 0 <= j2 < o2.len() && o2[j2] == x;
                assert(j2 != 0);
                assert(t2[j2 - 1] == x);
            }
            if t2.contains(x) {
                let j = choose|j: int| 0 <= j < t2.len() && t2[j] == x;
                assert(o2[j + 1] == x);
                assert(before(bal, o2[0], o2[j + 1]));
                assert(o2.contains(x));
                assert(o1.contains(x));
                let j1 = choose|j1: int| 0 <= j1 < o1.len() && o1[j1] == x;
                assert(j1 != 0);
                assert(t1[j1 - 1] == x);
            }
        }
        lemma_sorted_same_members_equal(bal, t1, t2);
        assert(o1 =~= o2) by {
            assert forall|k: int| 0 <= k < o1.len() implies o1[k] == o2[k] by {
                if k > 0 {
                    assert(o1[k] == t1[k - 1]);
                    assert(o2[k] == t2[k - 1]);
                }
            }
        }
    }
}

/// The donor order is unique.
pub proof fn lemma_donor_order_unique(bal: Seq<int>, exec: int, o1: Seq<int>, o2: Seq<int>)
    requires
        is_donor_order(bal, exec, o1),
        is_donor_order(bal, exec, o2),
    ensures
        o1 == o2,
{
    assert forall|x: int| o1.contains(x) <==> o2.contains(x) by {
        if o1.contains(x) {
            let j = choose|j: int| 0 <= j < o1.len() && o1[j] == x;
            assert(0 <= o1[j] < bal.len() && o1[j] != exec);
        }
        if o2.contains(x) {
            let j = choose|j: int| 0 <= j < o2.len() && o2[j] == x;
            assert(0 <= o2[j] < bal.len() && o2[j] != exec);
        }
    }
    lemma_sorted_same_members_equal(bal, o1, o2);
}

/// Sum of the amounts of a list of pulls.
pub open spec fn pulled(t: Seq<(int, int)>) -> int
    decreases t.len(),
{
    if t.len() == 0 {
        0
    } else {
        pulled(t.drop_last()) + t.last().1
    }
}

/// Every pull takes a positive amount, no more than the donor holds, from a distinct account
/// other than the executor.
pub open spec fn pulls_valid(bal: Seq<int>, exec: int, t: Seq<(int, int)>) -> bool {
    &&& forall|k: int|
        0 <= k < t.len() ==> 0 <= (#[trigger] t[k]).0 < bal.len() && t[k].0 != exec && 0 < t[k].1
            <= bal[t[k].0]
    &&& forall|a: int, b: int| 0 <= a < b < t.len() ==> (#[trigger] t[a]).0 != (#[trigger] t[b]).0
}

proof fn lemma_greedy(
    bal: Seq<int>,
    exec: int,
    order: Seq<int>,
    k: int,
    deficit: int,
    acc: Seq<(int, int)>,
    max_txs: int,
)
    requires
        is_donor_order(bal, exec, order),
        0 <= k <= order.len(),
        deficit >= 0,
        acc.len() <= max_txs || deficit == 0 || k == order.len(),
        pulls_valid(bal, exec, acc),
        forall|a: int, j: int|
            0 <= a < acc.len() && k <= j < order.len() ==> (#[trigger] acc[a]).0 != #[trigger] order[j],
    ensures
        ({
            let (t, left) = greedy(bal, order, k, deficit, acc, max_txs);
            &&& pulls_valid(bal, exec, t)
            &&& t.len() <= (if acc.len() > max_txs { acc.len() as int } else { max_txs })
            &&& acc.len() <= t.len()
            &&& forall|a: int| 0 <= a < acc.len() ==> t[a] == acc[a]
            &&& 0 <= left <= deficit
            &&& pulled(t) - pulled(acc) == deficit - left
        }),
    decreases order.len() - k,
{
    if k >= order.len() || deficit <= 0 || acc.len() >= max_txs {
    } else {
        let b = bal[order[k]];
        if b <= 0 {
            lemma_greedy(bal, exec, order, k + 1, deficit, acc, max_txs);
        } else {
            let amt = if b < deficit {
                b
            } else {
                deficit
            };
            let acc2 = acc.push((order[k], amt));
            assert(acc2.drop_last() =~= acc);
            assert forall|a: int, j: int|
                0 <= a < acc2.len() && k + 1 <= j < order.len() implies (#[trigger] acc2[a]).0
                != #[trigger] order[j] by {
                if a == acc.len() {
                    assert(before(bal, order[k], order[j]));
                } else {
                    assert(acc2[a] == acc[a]);
                }
            }
            assert forall|a: int, c: int| 0 <= a < c < acc2.len() implies (#[trigger] acc2[a]).0
                != (#[trigger] acc2[c]).0 by {
                if c == acc.len() {
                    assert(acc2[a] == acc[a]);
                }
            }
            lemma_greedy(bal, exec, order, k + 1, deficit - amt, acc2, max_txs);
            let (t, left) = greedy(bal, order, k + 1, deficit - amt, acc2, max_txs);
            assert forall|a: int| 0 <= a < acc.len() implies t[a] == acc[a] by {
                assert(t[a] == acc2[a]);
            }
        }
    }
}

/// A plan is sound: the executor holds a largest balance, at most `max_txs` pulls are planned,
/// each takes a positive amount no larger than its donor's balance from a distinct account
/// other than the executor, and after the pulls the executor holds at least `required` (the
/// pulls add up to exactly the shortfall).
pub proof fn lemma_plan_sound(bal: Seq<int>, required: int, max_txs: int)
    requires
        max_txs >= 0,
        plan(bal, required, max_txs) is Some,
        required > 0,
    ensures
        ({
            let (exec, t) = plan(bal, required, max_txs)->0;
            &&& 0 <= exec < bal.len()
            &&& forall|j: int| 0 <= j < bal.len() ==> bal[j] <= bal[exec]
            &&& t.len() <= max_txs
            &&& pulls_valid(bal, exec, t)
            &&& bal[exec] + pulled(t) >= required
            &&& t.len() > 0 ==> bal[exec] + pulled(t) == required
        }),
{
    let n = bal.len() as int;
    lemma_last_max_index(bal, n);
    let exec = last_max_index(bal, n);
    if bal[exec] >= required {
    } else {
        let o = donor_order(bal, exec);
        lemma_donor_order_exists(bal, exec);
        lemma_greedy(bal, exec, o, 0, required - bal[exec], Seq::empty(), max_txs);
    }
}

/// The balances of the accounts listed in `order`.
pub open spec fn order_values(bal: Seq<int>, order: Seq<int>) -> Seq<int> {
    order.map_values(|j: int| bal[j])
}

/// The largest amount `k` pulls can bring along `order`: the first `k` balances (all of them
/// when there are fewer).
pub open spec fn topk(bal: Seq<int>, order: Seq<int>, k: int) -> int {
    let v = order_values(bal, order);
    sum(
        v.take(
            if k < v.len() {
                k
            } else {
                v.len() as int
            },
        ),
    )
}

/// The largest amount `k` pulls can bring to executor `exec`: its `k` largest donors.
pub open spec fn top_pulls(bal: Seq<int>, exec: int, k: int) -> int {
    topk(bal, donor_order(bal, exec), k)
}

proof fn lemma_topk_step(bal: Seq<int>, order: Seq<int>, k: int)
    requires
        0 <= k < order.len(),
    ensures
        topk(bal, order, k + 1) == topk(bal, order, k) + bal[order[k]],
{
    let v = order_values(bal, order);
    assert(v.take(k + 1).drop_last() =~= v.take(k));
}

proof fn lemma_topk_monotone(bal: Seq<int>, order: Seq<int>, j: int, k: int)
    requires
        0 <= j <= k,
        forall|i: int| 0 <= i < order.len() ==> bal[#[trigger] order[i]] >= 0,
    ensures
        topk(bal, order, j) <= topk(bal, order, k),
    decreases k - j,
{
    if j < k {
        lemma_topk_monotone(bal, order, j, k - 1);
        if k - 1 < order.len() {
            lemma_topk_step(bal, order, k - 1);
        }
    }
}

proof fn lemma_sum_remove(s: Seq<int>, p: int)
    requires
        0 <= p < s.len(),
    ensures
        sum(s.remove(p)) == sum(s) - s[p],
    decreases s.len(),
{
    if p == s.len() - 1 {
        assert(s.remove(p) =~= s.drop_last());
    } else {
        lemma_sum_remove(s.drop_last(), p);
        assert(s.remove(p).drop_last() =~= s.drop_last().remove(p));
        assert(s.remove(p).last() == s.last());
    }
}

proof fn lemma_distinct_sum_bound(bal: Seq<int>, idx: Seq<int>, n: int)
    requires
        0 <= n <= bal.len(),
        forall|i: int| 0 <= i < bal.len() ==> bal[i] >= 0,
        forall|a: int| 0 <= a < idx.len() ==> 0 <= #[trigger] idx[a] < n,
        forall|a: int, b: int| 0 <= a < b < idx.len() ==> #[trigger] idx[a] != #[trigger] idx[b],
    ensures
        sum(order_values(bal, idx)) <= sum(bal.take(n)),
    decreases n,
{
    if n == 0 {
        if idx.len() > 0 {
            let a0: int = 0;
            assert(0 <= idx[a0] < n);
        }
        assert(order_values(bal, idx) =~= Seq::<int>::empty());
    } else {
        assert(bal.take(n).drop_last() =~= bal.take(n - 1));
        if idx.contains(n - 1) {
            let p = idx.index_of(n - 1);
            let idx2 = idx.remove(p);
            assert forall|a: int| 0 <= a < idx2.len() implies 0 <= #[trigger] idx2[a] < n - 1 by {
                if a < p {
                    assert(idx2[a] == idx[a]);
                } else {
                    assert(idx2[a] == idx[a + 1]);
                }
            }
            assert forall|a: int, b: int| 0 <= a < b < idx2.len() implies #[trigger] idx2[a]
                != #[trigger] idx2[b] by {
                let a2 = if a < p { a } else { a + 1 };
                let b2 = if b < p { b } else { b + 1 };
                assert(idx2[a] == idx[a2]);
                assert(idx2[b] == idx[b2]);
            }
            lemma_distinct_sum_bound(bal, idx2, n - 1);
            assert(order_values(bal, idx2) =~= order_values(bal, idx).remove(p));
            lemma_sum_remove(order_values(bal, idx), p);
        } else {
            assert forall|a: int| 0 <= a < idx.len() implies 0 <= #[trigger] idx[a] < n - 1 by {
                assert(idx[a] != n - 1);
            }
            lemma_distinct_sum_bound(bal, idx, n - 1);
        }
    }
}

proof fn lemma_topk_below_rest(bal: Seq<int>, exec: int, order: Seq<int>, k: int)
    requires
        is_donor_order(bal, exec, order),
        0 <= exec < bal.len(),
        0 <= k,
        forall|i: int| 0 <= i < bal.len() ==> bal[i] >= 0,
    ensures
        topk(bal, order, k) + bal[exec] <= sum(bal),
{
    let idx = order.push(exec);
    assert forall|a: int, b: int| 0 <= a < b < idx.len() implies #[trigger] idx[a]
        != #[trigger] idx[b] by {
        if b < order.len() {
            assert(before(bal, order[a], order[b]));
        }
    }
    assert forall|a: int| 0 <= a < idx.len() implies 0 <= #[trigger] idx[a] < bal.len() by {
        if a < order.len() {
            assert(0 <= order[a] < bal.len());
        }
    }
    lemma_distinct_sum_bound(bal, idx, bal.len() as int);
    assert(bal.take(bal.len() as int) =~= bal);
    assert(order_values(bal, idx).drop_last() =~= order_values(bal, order));
    if k <= order.len() {
        lemma_topk_monotone(bal, order, k, order.len() as int);
    }
    assert(order_values(bal, order).take(order.len() as int) =~= order_values(bal, order));
}

proof fn lemma_greedy_zero_tail(
    bal: Seq<int>,
    order: Seq<int>,
    k: int,
    deficit: int,
    acc: Seq<(int, int)>,
    max_txs: int,
)
    requires
        0 <= k,
        forall|j: int| k <= j < order.len() ==> bal[#[trigger] order[j]] <= 0,
    ensures
        greedy(bal, order, k, deficit, acc, max_txs) == (acc, deficit),
    decreases order.len() - k,
{
    if k < order.len() && deficit > 0 && acc.len() < max_txs {
        lemma_greedy_zero_tail(bal, order, k + 1, deficit, acc, max_txs);
    }
}

proof fn lemma_greedy_fewest(
    bal: Seq<int>,
    exec: int,
    order: Seq<int>,
    k: int,
    need: int,
    acc: Seq<(int, int)>,
    max_txs: int,
)
    requires
        is_donor_order(bal, exec, order),
        forall|i: int| 0 <= i < bal.len() ==> bal[i] >= 0,
        0 <= k <= order.len(),
        acc.len() == k,
        k <= max_txs,
        topk(bal, order, k) < need,
    ensures
        ({
            let (t, left) = greedy(bal, order, k, need - topk(bal, order, k), acc, max_txs);
            &&& (left == 0) == (topk(bal, order, max_txs) >= need)
            &&& left == 0 ==> t.len() >= 1 && topk(bal, order, t.len() as int) >= need && topk(
                bal,
                order,
                t.len() - 1,
            ) < need
        }),
    decreases order.len() - k,
{
    assert forall|i: int| 0 <= i < order.len() implies bal[#[trigger] order[i]] >= 0 by {
        assert(0 <= order[i] < bal.len());
    }
    let deficit = need - topk(bal, order, k);
    if k >= order.len() {
        assert(topk(bal, order, max_txs) == topk(bal, order, k));
    } else if acc.len() >= max_txs {
    } else {
        let b = bal[order[k]];
        lemma_topk_step(bal, order, k);
        if b <= 0 {
            assert forall|j: int| k <= j < order.len() implies bal[#[trigger] order[j]] <= 0 by {
                if j > k {
                    assert(before(bal, order[k], order[j]));
                }
            }
            lemma_greedy_zero_tail(bal, order, k, deficit, acc, max_txs);
            assert forall|j: int| k <= j <= max_txs implies topk(bal, order, j) == topk(
                bal,
                order,
                k,
            ) by {
                lemma_topk_flat(bal, order, k, j);
            }
        } else if b < deficit {
            let acc2 = acc.push((order[k], b));
            lemma_greedy_fewest(bal, exec, order, k + 1, need, acc2, max_txs);
        } else {
            let acc2 = acc.push((order[k], deficit));
            assert(greedy(bal, order, k + 1, 0, acc2, max_txs) == (acc2, 0int));
            lemma_topk_monotone(bal, order, k + 1, max_txs);
        }
    }
}

proof fn lemma_topk_flat(bal: Seq<int>, order: Seq<int>, k: int, j: int)
    requires
        0 <= k <= j,
        forall|i: int| k <= i < order.len() ==> bal[#[trigger] order[i]] <= 0,
        forall|i: int| 0 <= i < order.len() ==> bal[#[trigger] order[i]] >= 0,
    ensures
        topk(bal, order, j) == topk(bal, order, k),
    decreases j - k,
{
    if k < j {
        lemma_topk_flat(bal, order, k, j - 1);
        if j - 1 < order.len() {
            lemma_topk_step(bal, order, j - 1);
        }
    }
}

/// With balances that are never negative, a plan uses the fewest pulls possible: the
/// executor holds a largest balance `m`; when `m` falls short, pulls come from the largest
/// other balances, there is no plan exactly when the `max_txs` largest of them fall short of
/// `required - m`, and otherwise the plan makes the least number of pulls whose largest
/// donors cover it.
pub proof fn lemma_plan_fewest_pulls(bal: Seq<int>, required: int, max_txs: int)
    requires
        required > 0,
        bal.len() > 0,
        max_txs >= 0,
        forall|i: int| 0 <= i < bal.len() ==> bal[i] >= 0,
    ensures
        ({
            let exec = last_max_index(bal, bal.len() as int);
            let m = bal[exec];
            &&& plan(bal, required, max_txs) is None <==> (m < required && top_pulls(
                bal,
                exec,
                max_txs,
            ) < required - m)
            &&& m < required ==> (plan(bal, required, max_txs) matches Some((e, t)) ==> e == exec
                && t.len() >= 1 && top_pulls(bal, exec, t.len() as int) >= required - m && forall|
                j: int,
            | 0 <= j < t.len() ==> top_pulls(bal, exec, j) < required - m)
        }),
{
    let n = bal.len() as int;
    lemma_last_max_index(bal, n);
    let exec = last_max_index(bal, n);
    let m = bal[exec];
    let o = donor_order(bal, exec);
    lemma_donor_order_exists(bal, exec);
    assert forall|i: int| 0 <= i < o.len() implies bal[#[trigger] o[i]] >= 0 by {
        assert(0 <= o[i] < bal.len());
    }
    if m >= required {
    } else if max_txs == 0 {
        assert(o.map_values(|j: int| bal[j]).take(0) =~= Seq::<int>::empty());
    } else if sum(bal) < required {
        lemma_topk_below_rest(bal, exec, o, max_txs);
        assert(plan(bal, required, max_txs) is None);
        assert(top_pulls(bal, exec, max_txs) < required - m);
    } else {
        assert(o.map_values(|j: int| bal[j]).take(0) =~= Seq::<int>::empty());
        assert(topk(bal, o, 0) == 0);
        lemma_greedy_fewest(bal, exec, o, 0, required - m, Seq::empty(), max_txs);
        lemma_greedy(bal, exec, o, 0, required - m, Seq::empty(), max_txs);
        let (t, left) = greedy(bal, o, 0, required - m, Seq::empty(), max_txs);
        if left == 0 {
            assert forall|j: int| 0 <= j < t.len() implies top_pulls(bal, exec, j) < required - m by {
                lemma_topk_monotone(bal, o, j, t.len() - 1);
            }
            assert(plan(bal, required, max_txs) == Some((exec, t)));
        } else {
            assert(plan(bal, required, max_txs) is None);
        }
    }
}

} // verus!

verus! {

// ---------------------------------------------------------------------------------------------
// Executable planning.
// ---------------------------------------------------------------------------------------------

/// The indices of a sequence, as integers.
pub open spec fn usize_ints(s: Seq<usize>) -> Seq<int> {
    s.map_values(|v: usize| v as int)
}

/// The balances of a sequence, as integers.
pub open spec fn i128_ints(s: Seq<i128>) -> Seq<int> {
    s.map_values(|v: i128| v as int)
}

/// Whether every prefix sum of `bal` lies in `lo..=hi`.
pub open spec fn prefix_sums_within(bal: Seq<int>, lo: int, hi: int) -> bool {
    forall|k: int| 0 <= k <= bal.len() ==> lo <= #[trigger] sum(bal.take(k)) <= hi
}

/// Whether planning for `bal` gets as far as adding up all balances.
pub open spec fn plan_reaches_sum(bal: Seq<int>, required: int, max_txs: int) -> bool {
    required > 0 && bal.len() > 0 && bal[last_max_index(bal, bal.len() as int)] < required && max_txs
        != 0
}

fn exec_last_max_index(bal: &Vec<i128>) -> (e: usize)
    requires
        bal.len() > 0,
    ensures
        e == last_max_index(i128_ints(bal@), bal.len() as int),
{
    let ghost b = i128_ints(bal@);
    let mut m: usize = 0;
    let mut i: usize = 1;
    while i < bal.len()
        invariant
            1 <= i <= bal.len(),
            b == i128_ints(bal@),
            m == last_max_index(b, i as int),
            m < i,
        decreases bal.len() - i,
    {
        if bal[i] >= bal[m] {
            m = i;
        }
        i = i + 1;
    }
    m
}

fn exec_sum(bal: &Vec<i128>) -> (s: i128)
    requires
        prefix_sums_within(i128_ints(bal@), i128::MIN as int, i128::MAX as int),
    ensures
        s == sum(i128_ints(bal@)),
{
    let ghost b = i128_ints(bal@);
    let mut s: i128 = 0;
    let mut i: usize = 0;
    assert(b.take(0) =~= Seq::<int>::empty());
    while i < bal.len()
        invariant
            i <= bal.len(),
            b == i128_ints(bal@),
            prefix_sums_within(b, i128::MIN as int, i128::MAX as int),
            s == sum(b.take(i as int)),
        decreases bal.len() - i,
    {
        assert(b.take(i + 1).drop_last() =~= b.take(i as int));
        assert(i128::MIN as int <= sum(b.take(i + 1)) <= i128::MAX as int);
        s = s + bal[i];
        i = i + 1;
    }
    assert(b.take(bal.len() as int) =~= b);
    s
}

fn exec_before(bal: &Vec<i128>, x: usize, y: usize) -> (r: bool)
    requires
        x < bal.len(),
        y < bal.len(),
    ensures
        r == before(i128_ints(bal@), x as int, y as int),
{
    bal[x] > bal[y] || (bal[x] == bal[y] && x < y)
}

/// Lists every account except `exec`, largest balance first (ties by index).
fn exec_donor_order(bal: &Vec<i128>, exec: usize) -> (o: Vec<usize>)
    requires
        exec < bal.len(),
    ensures
        is_donor_order(
            i128_ints(bal@),
            exec as int,
            usize_ints(o@),
        ),
{
    let ghost b = i128_ints(bal@);
    let mut o: Vec<usize> = Vec::new();
    let mut i: usize = 0;
    while i < bal.len()
        invariant
            i <= bal.len(),
            exec < bal.len(),
            b == i128_ints(bal@),
            forall|k: int| 0 <= k < o@.len() ==> #[trigger] o@[k] < i && o@[k] != exec,
            forall|j: int| 0 <= j < i && j != exec ==> #[trigger] usize_ints(o@).contains(j),
            forall|a: int, c: int| 0 <= a < c < o@.len() ==> before(b, #[trigger] o@[a] as int, #[trigger] o@[c] as int),
        decreases bal.len() - i,
    {
        if i != exec {
            let mut p: usize = 0;
            while p < o.len() && !exec_before(bal, i, o[p])
                invariant
                    p <= o@.len(),
                    i < bal.len(),
                    b == i128_ints(bal@),
                    forall|k: int| 0 <= k < o@.len() ==> #[trigger] o@[k] < i,
                    forall|k: int| 0 <= k < p ==> !before(b, i as int, #[trigger] o@[k] as int),
                decreases o@.len() - p,
            {
                p = p + 1;
            }
            let ghost old_o = o@;
            o.insert(p, i);
            proof {
                assert(o@ == old_o.insert(p as int, i));
                assert forall|a: int, c: int| 0 <= a < c < o@.len() implies before(b, #[trigger] o@[a] as int, #[trigger] o@[c] as int) by {
                    if a < p && c < p {
                        assert(o@[a] == old_o[a] && o@[c] == old_o[c]);
                    } else if a < p && c == p {
                        assert(o@[a] == old_o[a]);
                        assert(!before(b, i as int, old_o[a] as int));
                        assert(old_o[a] != i);
                    } else if a < p && c > p {
                        assert(o@[a] == old_o[a] && o@[c] == old_o[c - 1]);
                        if a < c - 1 {
                            assert(before(b, old_o[a] as int, old_o[c - 1] as int));
                        }
                    } else if a == p {
                        assert(o@[c] == old_o[c - 1]);
                        if p < old_o.len() {
                            assert(before(b, i as int, old_o[p as int] as int));
                            if c - 1 > p {
                                assert(before(b, old_o[p as int] as int, old_o[c - 1] as int));
                            }
                        }
                    } else {
                        assert(o@[a] == old_o[a - 1] && o@[c] == old_o[c - 1]);
                    }
                }
                assert forall|j: int| 0 <= j < i + 1 && j != exec implies #[trigger] usize_ints(o@).contains(j) by {
                    if j == i {
                        assert(usize_ints(o@)[p as int] == j);
                    } else {
                        let om_old = usize_ints(old_o);
                        assert(om_old.contains(j));
                        let q = choose|q: int| 0 <= q < om_old.len() && #[trigger] om_old[q] == j;
                        if q < p {
                            assert(usize_ints(o@)[q] == j);
                        } else {
                            assert(usize_ints(o@)[q + 1] == j);
                        }
                    }
                }
            }
        }
        i = i + 1;
    }
    proof {
        let om = usize_ints(o@);
        assert forall|a: int, c: int| 0 <= a < c < om.len() implies before(b, #[trigger] om[a], #[trigger] om[c]) by {
            assert(om[a] == o@[a] as int && om[c] == o@[c] as int);
        }
        assert forall|k: int| 0 <= k < om.len() implies 0 <= #[trigger] om[k] < b.len() && om[k] != exec by {
            assert(om[k] == o@[k] as int);
        }
    }
    o
}

} // verus!

verus! {

/// Pulls `(from, amount)` as integers.
pub open spec fn pulls_ints(t: Seq<(usize, i128)>) -> Seq<(int, int)> {
    t.map_values(|p: (usize, i128)| (p.0 as int, p.1 as int))
}

/// Plans a consolidation over `i128` balances (each within `±2^64`).
fn plan_core(bal: &Vec<i128>, required: i128, max_txs: usize) -> (r: Option<(usize, Vec<(usize, i128)>)>)
    requires
        forall|k: int| 0 <= k < bal@.len() ==> -0x1_0000_0000_0000_0000 <= #[trigger] bal@[k] <= 0x1_0000_0000_0000_0000,
        -0x1_0000_0000_0000_0000 <= required <= 0x1_0000_0000_0000_0000,
        plan_reaches_sum(i128_ints(bal@), required as int, max_txs as int) ==> prefix_sums_within(
            i128_ints(bal@),
            i128::MIN as int,
            i128::MAX as int,
        ),
    ensures
        match r {
            Some((e, t)) => plan(i128_ints(bal@), required as int, max_txs as int) == Some(
                (e as int, pulls_ints(t@)),
            ),
            None => plan(i128_ints(bal@), required as int, max_txs as int) is None,
        },
        r matches Some((e, t)) ==> (required > 0 ==> e < bal@.len()),
{
    let ghost b = i128_ints(bal@);
    if required <= 0 {
        let t: Vec<(usize, i128)> = Vec::new();
        assert(pulls_ints(t@) =~= Seq::<(int, int)>::empty());
        return Some((0, t));
    }
    if bal.len() == 0 {
        return None;
    }
    let exec = exec_last_max_index(bal);
    proof {
        lemma_last_max_index(b, b.len() as int);
    }
    let order = exec_donor_order(bal, exec);
    let ghost oi = usize_ints(order@);
    proof {
        lemma_donor_order_unique(b, exec as int, oi, donor_order(b, exec as int));
    }
    if bal[exec] >= required {
        let t: Vec<(usize, i128)> = Vec::new();
        assert(pulls_ints(t@) =~= Seq::<(int, int)>::empty());
        return Some((exec, t));
    }
    if max_txs == 0 {
        return None;
    }
    let total = exec_sum(bal);
    if total < required {
        return None;
    }
    let mut deficit: i128 = required - bal[exec];
    let ghost d0 = deficit as int;
    let mut transfers: Vec<(usize, i128)> = Vec::new();
    let mut k: usize = 0;
    assert(pulls_ints(transfers@) =~= Seq::<(int, int)>::empty());
    while k < order.len() && deficit > 0 && transfers.len() < max_txs
        invariant
            k <= order@.len(),
            b == i128_ints(bal@),
            oi == usize_ints(order@),
            is_donor_order(b, exec as int, oi),
            0 <= deficit <= d0,
            d0 <= 0x2_0000_0000_0000_0000,
            greedy(b, oi, k as int, deficit as int, pulls_ints(transfers@), max_txs as int) == greedy(
                b,
                oi,
                0,
                d0,
                Seq::empty(),
                max_txs as int,
            ),
        decreases order@.len() - k,
    {
        let from = order[k];
        assert(oi[k as int] == from as int);
        let bv = bal[from];
        if bv > 0 {
            let amt = if bv < deficit {
                bv
            } else {
                deficit
            };
            let ghost before_t = pulls_ints(transfers@);
            transfers.push((from, amt));
            assert(pulls_ints(transfers@) =~= before_t.push((from as int, amt as int)));
            deficit = deficit - amt;
        }
        k = k + 1;
    }
    if deficit > 0 {
        None
    } else {
        Some((exec, transfers))
    }
}

} // verus!

verus! {

/// First position `>= p` of `o` whose entry `i` goes before, or `o.len()`.
pub open spec fn ins_pos(bal: Seq<int>, o: Seq<int>, i: int, p: int) -> int
    decreases o.len() - p,
{
    if p < 0 || p >= o.len() {
        if p < 0 { 0 } else { o.len() as int }
    } else if before(bal, i, o[p]) {
        p
    } else {
        ins_pos(bal, o, i, p + 1)
    }
}

proof fn lemma_ins_pos(bal: Seq<int>, o: Seq<int>, i: int, p: int)
    requires
        0 <= p <= o.len(),
        forall|k: int| 0 <= k < p ==> !before(bal, i, #[trigger] o[k]),
    ensures
        p <= ins_pos(bal, o, i, p) <= o.len(),
        forall|k: int| 0 <= k < ins_pos(bal, o, i, p) ==> !before(bal, i, #[trigger] o[k]),
        ins_pos(bal, o, i, p) < o.len() ==> before(bal, i, o[ins_pos(bal, o, i, p)]),
    decreases o.len() - p,
{
    if p < o.len() && !before(bal, i, o[p]) {
        lemma_ins_pos(bal, o, i, p + 1);
    }
}

/// Accounts `0..m` except `exec`, in donor order.
pub open spec fn donors_upto(bal: Seq<int>, exec: int, m: int) -> Seq<int>
    decreases m,
{
    if m <= 0 {
        Seq::empty()
    } else {
        let o = donors_upto(bal, exec, m - 1);
        if m - 1 == exec {
            o
        } else {
            o.insert(ins_pos(bal, o, m - 1, 0), m - 1)
        }
    }
}

proof fn lemma_donors_upto(bal: Seq<int>, exec: int, m: int)
    requires
        0 <= m <= bal.len(),
    ensures
        forall|k: int| 0 <= k < donors_upto(bal, exec, m).len() ==> 0 <= #[trigger] donors_upto(bal, exec, m)[k] < m
            && donors_upto(bal, exec, m)[k] != exec,
        forall|j: int| 0 <= j < m && j != exec ==> #[trigger] donors_upto(bal, exec, m).contains(j),
        forall|a: int, c: int|
            0 <= a < c < donors_upto(bal, exec, m).len() ==> before(
                bal,
                #[trigger] donors_upto(bal, exec, m)[a],
                #[trigger] donors_upto(bal, exec, m)[c],
            ),
    decreases m,
{
    if m > 0 {
        lemma_donors_upto(bal, exec, m - 1);
        let old_o = donors_upto(bal, exec, m - 1);
        let i = m - 1;
        if i != exec {
            lemma_ins_pos(bal, old_o, i, 0);
            let p = ins_pos(bal, old_o, i, 0);
            let o = old_o.insert(p, i);
            assert(o == donors_upto(bal, exec, m));
            assert forall|a: int, c: int| 0 <= a < c < o.len() implies before(bal, #[trigger] o[a], #[trigger] o[c]) by {
                if a < p && c < p {
                } else if a < p && c == p {
                    assert(o[a] == old_o[a]);
                    assert(!before(bal, i, old_o[a]));
                    assert(old_o[a] != i);
                } else if a < p && c > p {
                    assert(o[a] == old_o[a] && o[c] == old_o[c - 1]);
                    if a < c - 1 {
                        assert(before(bal, old_o[a], old_o[c - 1]));
                    }
                } else if a == p {
                    assert(o[c] == old_o[c - 1]);
                    if p < old_o.len() {
                        assert(before(bal, i, old_o[p]));
                        if c - 1 > p {
                            assert(before(bal, old_o[p], old_o[c - 1]));
                        }
                    }
                } else {
                    assert(o[a] == old_o[a - 1] && o[c] == old_o[c - 1]);
                }
            }
            assert forall|j: int| 0 <= j < m && j != exec implies #[trigger] o.contains(j) by {
                if j == i {
                    assert(o[p] == j);
                } else {
                    assert(old_o.contains(j));
                    let q = choose|q: int| 0 <= q < old_o.len() && #[trigger] old_o[q] == j;
                    if q < p {
                        assert(o[q] == j);
                    } else {
                        assert(o[q + 1] == j);
                    }
                }
            }
            assert forall|k: int| 0 <= k < o.len() implies 0 <= #[trigger] o[k] < m && o[k] != exec by {
                if k < p {
                    assert(o[k] == old_o[k]);
                } else if k > p {
                    assert(o[k] == old_o[k - 1]);
                }
            }
        }
    }
}

/// Every set of balances has a donor order, for any executor.
pub proof fn lemma_donor_order_exists(bal: Seq<int>, exec: int)
    ensures
        is_donor_order(bal, exec, donor_order(bal, exec)),
{
    lemma_donors_upto(bal, exec, bal.len() as int);
    assert(is_donor_order(bal, exec, donors_upto(bal, exec, bal.len() as int)));
}

} // verus!

verus! {

/// A plan to move native TRX (SUN) into one executor account.
#[derive(Debug, Clone, PartialEq, Eq)]
pub struct TrxConsolidationPlan {
    pub executor_index: usize,
    /// Transfers (from_index, amount_sun) into the executor account.
    pub transfers: Vec<(usize, i64)>,
}

/// A plan to move a TRC-20 token into one executor account.
#[derive(Debug, Clone, PartialEq, Eq)]
pub struct Trc20ConsolidationPlan {
    pub executor_index: usize,
    /// Transfers (from_index, amount) into the executor account.
    pub transfers: Vec<(usize, u64)>,
}

/// Planning never fails with an error; it answers `None` when no plan exists.
pub struct ConsolidationError;

pub open spec fn i64_ints(s: Seq<i64>) -> Seq<int> {
    s.map_values(|v: i64| v as int)
}

pub open spec fn u64_ints(s: Seq<u64>) -> Seq<int> {
    s.map_values(|v: u64| v as int)
}

impl TrxConsolidationPlan {
    /// The executor index and the pulls, as integers.
    pub open spec fn model(self) -> (int, Seq<(int, int)>) {
        (self.executor_index as int, self.transfers@.map_values(|p: (usize, i64)| (p.0 as int, p.1 as int)))
    }
}

impl Trc20ConsolidationPlan {
    /// The executor index and the pulls, as integers.
    pub open spec fn model(self) -> (int, Seq<(int, int)>) {
        (self.executor_index as int, self.transfers@.map_values(|p: (usize, u64)| (p.0 as int, p.1 as int)))
    }
}

proof fn lemma_prefix_sums_nonneg(s: Seq<int>)
    requires
        forall|k: int| 0 <= k < s.len() ==> #[trigger] s[k] >= 0,
    ensures
        forall|k: int| 0 <= k <= s.len() ==> 0 <= #[trigger] sum(s.take(k)) <= sum(s),
    decreases s.len(),
{
    if s.len() > 0 {
        let t = s.drop_last();
        lemma_prefix_sums_nonneg(t);
        assert forall|k: int| 0 <= k <= s.len() implies 0 <= #[trigger] sum(s.take(k)) <= sum(s) by {
            if k < s.len() {
                assert(s.take(k) =~= t.take(k));
                assert(t.take(t.len() as int) =~= t);
            } else {
                assert(s.take(k) =~= s);
                assert(sum(t.take(t.len() as int)) >= 0);
                assert(t.take(t.len() as int) =~= t);
            }
        }
    }
}

fn widen_i64(v: &[i64]) -> (out: Vec<i128>)
    ensures
        i128_ints(out@) == i64_ints(v@),
{
    let mut out: Vec<i128> = Vec::new();
    let mut i: usize = 0;
    while i < v.len()
        invariant
            i <= v@.len(),
            out@.len() == i,
            forall|k: int| 0 <= k < i ==> #[trigger] out@[k] as int == v@[k] as int,
        decreases v@.len() - i,
    {
        out.push(v[i] as i128);
        i = i + 1;
    }
    assert(i128_ints(out@) =~= i64_ints(v@));
    out
}

fn widen_u64(v: &[u64]) -> (out: Vec<i128>)
    ensures
        i128_ints(out@) == u64_ints(v@),
{
    let mut out: Vec<i128> = Vec::new();
    let mut i: usize = 0;
    while i < v.len()
        invariant
            i <= v@.len(),
            out@.len() == i,
            forall|k: int| 0 <= k < i ==> #[trigger] out@[k] as int == v@[k] as int,
        decreases v@.len() - i,
    {
        out.push(v[i] as i128);
        i = i + 1;
    }
    assert(i128_ints(out@) =~= u64_ints(v@));
    out
}

/// Best-effort consolidation plan for native TRX (SUN): the account with the highest balance
/// (the last of several equal ones) becomes the executor; other accounts, largest balance
/// first, are pulled from until it can cover `required_sun`, with at most `max_pre_txs` pulls.
/// `None` when that is not possible.
pub fn plan_trx_consolidation(balances_sun: &[i64], required_sun: i64, max_pre_txs: usize) -> (r:
    Result<Option<TrxConsolidationPlan>, ConsolidationError>)
    requires
        plan_reaches_sum(i64_ints(balances_sun@), required_sun as int, max_pre_txs as int)
            ==> prefix_sums_within(i64_ints(balances_sun@), i64::MIN as int, i64::MAX as int),
    ensures
        r matches Ok(p) && match p {
            Some(p) => plan(i64_ints(balances_sun@), required_sun as int, max_pre_txs as int) == Some(
                p.model(),
            ),
            None => plan(i64_ints(balances_sun@), required_sun as int, max_pre_txs as int) is None,
        },
{
    let ghost b = i64_ints(balances_sun@);
    let wide = widen_i64(balances_sun);
    proof {
        assert forall|k: int| 0 <= k < wide@.len() implies -0x1_0000_0000_0000_0000 <= #[trigger] wide@[k]
            <= 0x1_0000_0000_0000_0000 by {
            assert(i128_ints(wide@)[k] == b[k]);
        }
    }
    match plan_core(&wide, required_sun as i128, max_pre_txs) {
        None => Ok(None),
        Some((e, t)) => {
            proof {
                if required_sun > 0 {
                    lemma_plan_sound(b, required_sun as int, max_pre_txs as int);
                }
            }
            let mut out: Vec<(usize, i64)> = Vec::new();
            let mut i: usize = 0;
            while i < t.len()
                invariant
                    i <= t@.len(),
                    b == i64_ints(balances_sun@),
                    plan(b, required_sun as int, max_pre_txs as int) == Some((e as int, pulls_ints(t@))),
                    required_sun <= 0 ==> t@.len() == 0,
                    required_sun > 0 ==> pulls_valid(b, e as int, pulls_ints(t@)),
                    out@.len() == i,
                    forall|k: int| 0 <= k < i ==> (#[trigger] out@[k]).0 == t@[k].0 && out@[k].1 as int == t@[k].1 as int,
                decreases t@.len() - i,
            {
                let (from, amt) = t[i];
                proof {
                    assert(pulls_ints(t@)[i as int] == (from as int, amt as int));
                    assert(0 <= from < b.len());
                    assert(b[from as int] == balances_sun@[from as int] as int);
                }
                out.push((from, amt as i64));
                i = i + 1;
            }
            let p = TrxConsolidationPlan { executor_index: e, transfers: out };
            assert(p.model().1 =~= pulls_ints(t@));
            Ok(Some(p))
        },
    }
}

/// Consolidation plan for a TRC-20 balance, with the same rules as
/// [`plan_trx_consolidation`].
pub fn plan_trc20_consolidation(balances: &[u64], required: u64, max_pre_txs: usize) -> (r: Result<
    Option<Trc20ConsolidationPlan>,
    ConsolidationError,
>)
    requires
        plan_reaches_sum(u64_ints(balances@), required as int, max_pre_txs as int) ==> sum(
            u64_ints(balances@),
        ) <= u64::MAX,
    ensures
        r matches Ok(p) && match p {
            Some(p) => plan(u64_ints(balances@), required as int, max_pre_txs as int) == Some(
                p.model(),
            ),
            None => plan(u64_ints(balances@), required as int, max_pre_txs as int) is None,
        },
{
    let ghost b = u64_ints(balances@);
    let wide = widen_u64(balances);
    proof {
        assert forall|k: int| 0 <= k < wide@.len() implies -0x1_0000_0000_0000_0000 <= #[trigger] wide@[k]
            <= 0x1_0000_0000_0000_0000 by {
            assert(i128_ints(wide@)[k] == b[k]);
        }
        assert forall|k: int| 0 <= k < b.len() implies #[trigger] b[k] >= 0 by {
            assert(b[k] == balances@[k] as int);
        }
        lemma_prefix_sums_nonneg(b);
    }
    match plan_core(&wide, required as i128, max_pre_txs) {
        None => Ok(None),
        Some((e, t)) => {
            proof {
                if required > 0 {
                    lemma_plan_sound(b, required as int, max_pre_txs as int);
                }
            }
            let mut out: Vec<(usize, u64)> = Vec::new();
            let mut i: usize = 0;
            while i < t.len()
                invariant
                    i <= t@.len(),
                    b == u64_ints(balances@),
                    plan(b, required as int, max_pre_txs as int) == Some((e as int, pulls_ints(t@))),
                    required <= 0 ==> t@.len() == 0,
                    required > 0 ==> pulls_valid(b, e as int, pulls_ints(t@)),
                    out@.len() == i,
                    forall|k: int| 0 <= k < i ==> (#[trigger] out@[k]).0 == t@[k].0 && out@[k].1 as int == t@[k].1 as int,
                decreases t@.len() - i,
            {
                let (from, amt) = t[i];
                proof {
                    assert(pulls_ints(t@)[i as int] == (from as int, amt as int));
                    assert(0 <= from < b.len());
                    assert(b[from as int] == balances@[from as int] as int);
                }
                out.push((from, amt as u64));
                i = i + 1;
            }
            let p = Trc20ConsolidationPlan { executor_index: e, transfers: out };
            assert(p.model().1 =~= pulls_ints(t@));
            Ok(Some(p))
        },
    }
}

} // verus!

verus! {

/// Why a consolidation plan was refused by the configured pull caps.
#[derive(Debug, Clone, Copy, PartialEq, Eq, Structural)]
pub enum ConsolidationCapError {
    TrxTotalExceeded,
    TrxPerTxExceeded,
    UsdtTotalExceeded,
    UsdtPerTxExceeded,
}

impl ConsolidationCapError {
    /// The error's text.
    pub fn message(&self) -> (s: &'static str)
        ensures
            s@ == (match self {
                ConsolidationCapError::TrxTotalExceeded => "consolidation max_total_trx_pull_sun exceeded"@,
                ConsolidationCapError::TrxPerTxExceeded => "consolidation max_per_tx_trx_pull_sun exceeded"@,
                ConsolidationCapError::UsdtTotalExceeded => "consolidation max_total_usdt_pull_amount exceeded"@,
                ConsolidationCapError::UsdtPerTxExceeded => "consolidation max_per_tx_usdt_pull_amount exceeded"@,
            }),
    {
        match self {
            ConsolidationCapError::TrxTotalExceeded => "consolidation max_total_trx_pull_sun exceeded",
            ConsolidationCapError::TrxPerTxExceeded => "consolidation max_per_tx_trx_pull_sun exceeded",
            ConsolidationCapError::UsdtTotalExceeded => "consolidation max_total_usdt_pull_amount exceeded",
            ConsolidationCapError::UsdtPerTxExceeded => "consolidation max_per_tx_usdt_pull_amount exceeded",
        }
    }
}

/// The outcome of checking pulls against a total cap and a per-pull cap (0 = unlimited).
pub open spec fn caps_check(amounts: Seq<int>, max_total: int, max_per_tx: int) -> int {
    if max_total > 0 && sum(amounts) > max_total {
        1
    } else if max_per_tx > 0 && exists|k: int| 0 <= k < amounts.len() && #[trigger] amounts[k] > max_per_tx {
        2
    } else {
        0
    }
}

/// The amounts of a list of pulls.
pub open spec fn pull_amounts(t: Seq<(int, int)>) -> Seq<int> {
    t.map_values(|p: (int, int)| p.1)
}

fn caps_core(amounts: &Vec<i128>, max_total: i128, max_per_tx: i128) -> (r: u8)
    requires
        prefix_sums_within(i128_ints(amounts@), i128::MIN as int, i128::MAX as int),
    ensures
        r as int == caps_check(i128_ints(amounts@), max_total as int, max_per_tx as int),
{
    let total = exec_sum(amounts);
    if max_total > 0 && total > max_total {
        return 1;
    }
    if max_per_tx > 0 {
        let mut i: usize = 0;
        while i < amounts.len()
            invariant
                i <= amounts@.len(),
                max_per_tx > 0,
                total == sum(i128_ints(amounts@)),
                !(max_total > 0 && total > max_total),
                forall|k: int| 0 <= k < i ==> #[trigger] i128_ints(amounts@)[k] <= max_per_tx,
            decreases amounts@.len() - i,
        {
            if amounts[i] > max_per_tx {
                assert(i128_ints(amounts@)[i as int] > max_per_tx);
                assert(exists|k: int| 0 <= k < i128_ints(amounts@).len() && #[trigger] i128_ints(amounts@)[k] > max_per_tx);
                return 2;
            }
            i = i + 1;
        }
    }
    0
}

/// Checks a TRX plan against the pull caps (0 = unlimited): the total pulled must not exceed
/// `max_total_pull_sun`, and no single pull `max_per_tx_pull_sun`.
pub fn validate_trx_consolidation_caps(
    plan: &TrxConsolidationPlan,
    max_total_pull_sun: u64,
    max_per_tx_pull_sun: u64,
) -> (r: Result<(), ConsolidationCapError>)
    requires
        prefix_sums_within(pull_amounts(plan.model().1), i64::MIN as int, i64::MAX as int),
    ensures
        caps_check(pull_amounts(plan.model().1), max_total_pull_sun as int, max_per_tx_pull_sun as int) == 0 ==> r is Ok,
        caps_check(pull_amounts(plan.model().1), max_total_pull_sun as int, max_per_tx_pull_sun as int) == 1 ==> r == Err::<(), _>(ConsolidationCapError::TrxTotalExceeded),
        caps_check(pull_amounts(plan.model().1), max_total_pull_sun as int, max_per_tx_pull_sun as int) == 2 ==> r == Err::<(), _>(ConsolidationCapError::TrxPerTxExceeded),
{
    let mut amounts: Vec<i128> = Vec::new();
    let mut i: usize = 0;
    while i < plan.transfers.len()
        invariant
            i <= plan.transfers@.len(),
            amounts@.len() == i,
            forall|k: int| 0 <= k < i ==> #[trigger] amounts@[k] as int == plan.transfers@[k].1 as int,
        decreases plan.transfers@.len() - i,
    {
        amounts.push(plan.transfers[i].1 as i128);
        i = i + 1;
    }
    assert(i128_ints(amounts@) =~= pull_amounts(plan.model().1));
    let c = caps_core(&amounts, max_total_pull_sun as i128, max_per_tx_pull_sun as i128);
    if c == 1 {
        Err(ConsolidationCapError::TrxTotalExceeded)
    } else if c == 2 {
        Err(ConsolidationCapError::TrxPerTxExceeded)
    } else {
        Ok(())
    }
}

/// Checks a TRC-20 plan against the pull caps (0 = unlimited).
pub fn validate_trc20_consolidation_caps(
    plan: &Trc20ConsolidationPlan,
    max_total_pull_amount: u64,
    max_per_tx_pull_amount: u64,
) -> (r: Result<(), ConsolidationCapError>)
    requires
        sum(pull_amounts(plan.model().1)) <= u64::MAX,
    ensures
        caps_check(pull_amounts(plan.model().1), max_total_pull_amount as int, max_per_tx_pull_amount as int) == 0 ==> r is Ok,
        caps_check(pull_amounts(plan.model().1), max_total_pull_amount as int, max_per_tx_pull_amount as int) == 1 ==> r == Err::<(), _>(ConsolidationCapError::UsdtTotalExceeded),
        caps_check(pull_amounts(plan.model().1), max_total_pull_amount as int, max_per_tx_pull_amount as int) == 2 ==> r == Err::<(), _>(ConsolidationCapError::UsdtPerTxExceeded),
{
    let mut amounts: Vec<i128> = Vec::new();
    let mut i: usize = 0;
    while i < plan.transfers.len()
        invariant
            i <= plan.transfers@.len(),
            amounts@.len() == i,
            forall|k: int| 0 <= k < i ==> #[trigger] amounts@[k] as int == plan.transfers@[k].1 as int,
        decreases plan.transfers@.len() - i,
    {
        amounts.push(plan.transfers[i].1 as i128);
        i = i + 1;
    }
    assert(i128_ints(amounts@) =~= pull_amounts(plan.model().1));
    proof {
        let a = i128_ints(amounts@);
        assert forall|k: int| 0 <= k < a.len() implies #[trigger] a[k] >= 0 by {
            assert(a[k] == amounts@[k] as int);
        }
        lemma_prefix_sums_nonneg(a);
    }
    let c = caps_core(&amounts, max_total_pull_amount as i128, max_per_tx_pull_amount as i128);
    if c == 1 {
        Err(ConsolidationCapError::UsdtTotalExceeded)
    } else if c == 2 {
        Err(ConsolidationCapError::UsdtPerTxExceeded)
    } else {
        Ok(())
    }
}

proof fn lemma_pulled_is_sum(t: Seq<(int, int)>)
    ensures
        pulled(t) == sum(pull_amounts(t)),
    decreases t.len(),
{
    if t.len() > 0 {
        lemma_pulled_is_sum(t.drop_last());
        assert(pull_amounts(t).drop_last() =~= pull_amounts(t.drop_last()));
    }
}

/// The pulls of a plan are positive and add up to less than the requirement, so every running
/// total of them lies between 0 and the requirement.
pub proof fn lemma_plan_pulls_bounded(bal: Seq<int>, required: int, max_txs: int)
    requires
        max_txs >= 0,
        plan(bal, required, max_txs) is Some,
    ensures
        prefix_sums_within(
            pull_amounts((plan(bal, required, max_txs)->0).1),
            0,
            if required > 0 {
                required
            } else {
                0
            },
        ),
{
    let t = (plan(bal, required, max_txs)->0).1;
    let a = pull_amounts(t);
    if required <= 0 {
        assert forall|k: int| 0 <= k <= a.len() implies 0 <= #[trigger] sum(a.take(k)) <= 0 by {
            assert(a.take(k) =~= Seq::<int>::empty());
        }
    } else {
        lemma_plan_sound(bal, required, max_txs);
        let exec = (plan(bal, required, max_txs)->0).0;
        assert forall|k: int| 0 <= k < a.len() implies #[trigger] a[k] >= 0 by {
            assert(a[k] == t[k].1);
        }
        lemma_prefix_sums_nonneg(a);
        lemma_pulled_is_sum(t);
        if t.len() > 0 {
            assert(0 < t[0].1 <= bal[t[0].0]);
            assert(bal[t[0].0] <= bal[exec]);
        } else {
            assert forall|k: int| 0 <= k <= a.len() implies 0 <= #[trigger] sum(a.take(k)) <= required by {
                assert(a.take(k) =~= Seq::<int>::empty());
            }
        }
    }
}

/// `a - b` for `i64`, saturating at the bounds.
pub open spec fn sat_sub_i64(a: int, b: int) -> int {
    if a - b > i64::MAX {
        i64::MAX as int
    } else if a - b < i64::MIN {
        i64::MIN as int
    } else {
        a - b
    }
}

/// Capacity an account can still delegate: available minus reserved (saturating), at least 0.
pub open spec fn effective_capacity(available: int, reserved: int) -> int {
    let d = sat_sub_i64(available, reserved);
    if d < 0 {
        0
    } else {
        d
    }
}

/// Among the first `n` accounts, the first one with the largest effective capacity of those
/// that can cover `needed`, with that capacity.
pub open spec fn best_delegate(av: Seq<i64>, rs: Seq<i64>, needed: int, n: int) -> Option<(int, int)>
    decreases n,
{
    if n <= 0 {
        None
    } else {
        let prev = best_delegate(av, rs, needed, n - 1);
        let e = effective_capacity(av[n - 1] as int, rs[n - 1] as int);
        if e < needed {
            prev
        } else {
            match prev {
                None => Some((n - 1, e)),
                Some((i, c)) => if e > c {
                    Some((n - 1, e))
                } else {
                    prev
                },
            }
        }
    }
}

/// The account a delegation is executed from: `None` when the lists differ in length or no
/// account can cover `needed`.
pub open spec fn delegate_choice(av: Seq<i64>, rs: Seq<i64>, needed: int) -> Option<int> {
    if av.len() != rs.len() {
        None
    } else {
        match best_delegate(av, rs, needed, av.len() as int) {
            Some((i, _)) => Some(i),
            None => None,
        }
    }
}

/// Picks the account with the most spare (available minus reserved) capacity among those that
/// can cover `needed_sun`; the first such account on ties.
pub fn select_delegate_executor_index(available_sun: &[i64], reserved_sun: &[i64], needed_sun: i64) -> (r:
    Option<usize>)
    ensures
        match r {
            Some(i) => delegate_choice(available_sun@, reserved_sun@, needed_sun as int) == Some(i as int),
            None => delegate_choice(available_sun@, reserved_sun@, needed_sun as int) is None,
        },
{
    if available_sun.len() != reserved_sun.len() {
        return None;
    }
    let mut best: Option<(usize, i64)> = None;
    let mut i: usize = 0;
    while i < available_sun.len()
        invariant
            i <= available_sun@.len(),
            available_sun@.len() == reserved_sun@.len(),
            match best {
                Some((b, c)) => best_delegate(available_sun@, reserved_sun@, needed_sun as int, i as int)
                    == Some((b as int, c as int)),
                None => best_delegate(available_sun@, reserved_sun@, needed_sun as int, i as int) is None,
            },
        decreases available_sun@.len() - i,
    {
        let a = available_sun[i];
        let rr = reserved_sun[i];
        let d: i64 = if rr < 0 {
            if a > i64::MAX + rr {
                i64::MAX
            } else {
                a - rr
            }
        } else {
            if a < i64::MIN + rr {
                i64::MIN
            } else {
                a - rr
            }
        };
        let effective: i64 = if d < 0 {
            0
        } else {
            d
        };
        if effective >= needed_sun {
            match best {
                None => {
                    best = Some((i, effective));
                },
                Some((_, cur)) => {
                    if effective > cur {
                        best = Some((i, effective));
                    }
                },
            }
        }
        i = i + 1;
    }
    match best {
        Some((b, _)) => Some(b),
        None => None,
    }
}

/// The chosen account can cover `needed`, no eligible account has more spare capacity, and no
/// earlier account has as much; `None` means no account can cover `needed`.
pub proof fn lemma_delegate_choice_is_best(av: Seq<i64>, rs: Seq<i64>, needed: int, n: int)
    requires
        av.len() == rs.len(),
        0 <= n <= av.len(),
    ensures
        match best_delegate(av, rs, needed, n) {
            Some((i, c)) => {
                &&& 0 <= i < n
                &&& c == effective_capacity(av[i] as int, rs[i] as int)
                &&& c >= needed
                &&& forall|j: int|
                    0 <= j < n && effective_capacity(av[j] as int, rs[j] as int) >= needed ==> effective_capacity(
                        av[j] as int,
                        rs[j] as int,
                    ) <= c
                &&& forall|j: int| 0 <= j < i ==> effective_capacity(av[j] as int, rs[j] as int) < c
            },
            None => forall|j: int| 0 <= j < n ==> effective_capacity(av[j] as int, rs[j] as int) < needed,
        },
    decreases n,
{
    if n > 0 {
        lemma_delegate_choice_is_best(av, rs, needed, n - 1);
    }
}

} // verus!
