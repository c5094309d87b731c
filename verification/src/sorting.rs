//! Stable ordering of rows by a text key.
//!
//! A listing is described by the positions of its rows: `sorted_positions`
//! gives, for a sequence of keys, the positions `0..keys.len()` arranged so
//! that the keys ascend (or descend), rows with equal keys keeping the order
//! in which they are stored.

use crate::text::{chars_le, chars_of, lemma_lex_le_total, lemma_lex_le_transitive, lex_le};
use vstd::prelude::*;

verus! {

/// A row with key `a` may stand before a row with key `b`.
pub open spec fn in_order(a: Seq<char>, b: Seq<char>, descending: bool) -> bool {
    if descending {
        lex_le(b, a)
    } else {
        lex_le(a, b)
    }
}

/// `order` with position `i` put behind the last position whose key may stand
/// before the key of `i`.
pub open spec fn placed(order: Seq<int>, keys: Seq<Seq<char>>, i: int, descending: bool) -> Seq<
    int,
>
    decreases order.len(),
{
    if order.len() == 0 {
        seq![i]
    } else if in_order(keys[order.last()], keys[i], descending) {
        order.push(i)
    } else {
        placed(order.drop_last(), keys, i, descending).push(order.last())
    }
}

/// The first `n` positions of `keys` in stable key order.
pub open spec fn stable_order(keys: Seq<Seq<char>>, n: int, descending: bool) -> Seq<int>
    decreases n,
{
    if n <= 0 {
        Seq::empty()
    } else {
        placed(stable_order(keys, n - 1, descending), keys, n - 1, descending)
    }
}

/// All positions of `keys` in stable key order.
pub open spec fn sorted_positions(keys: Seq<Seq<char>>, descending: bool) -> Seq<int> {
    stable_order(keys, keys.len() as int, descending)
}

/// `order` holds each of the positions `0..n` exactly once.
pub open spec fn is_arrangement(order: Seq<int>, n: int) -> bool {
    &&& order.len() == n
    &&& order.no_duplicates()
    &&& forall|k: int| 0 <= k < order.len() ==> 0 <= #[trigger] order[k] < n
    &&& forall|i: int| 0 <= i < n ==> order.contains(i)
}

/// The keys at the positions of `order` follow one another in key order.
pub open spec fn is_sorted(order: Seq<int>, keys: Seq<Seq<char>>, descending: bool) -> bool {
    forall|a: int, b: int|
        0 <= a < b < order.len() ==> in_order(
            #[trigger] keys[order[a]],
            #[trigger] keys[order[b]],
            descending,
        )
}

/// Positions with equal keys stand in their stored order.
pub open spec fn is_stable(order: Seq<int>, keys: Seq<Seq<char>>) -> bool {
    forall|a: int, b: int|
        0 <= a < b < order.len() && keys[order[a]] == keys[order[b]] ==> #[trigger] order[a]
            < #[trigger] order[b]
}

proof fn lemma_placed(order: Seq<int>, keys: Seq<Seq<char>>, i: int, descending: bool)
    requires
        is_arrangement(order, i),
        is_sorted(order, keys, descending),
        is_stable(order, keys),
    ensures
        is_arrangement(placed(order, keys, i, descending), i + 1),
        is_sorted(placed(order, keys, i, descending), keys, descending),
        is_stable(placed(order, keys, i, descending), keys),
{
    lemma_placed_members(order, keys, i, descending);
    lemma_placed_sorted(order, keys, i, descending);
}

/// What `placed` holds, and that it repeats nothing.
proof fn lemma_placed_members(order: Seq<int>, keys: Seq<Seq<char>>, i: int, descending: bool)
    requires
        order.no_duplicates(),
        !order.contains(i),
    ensures
        placed(order, keys, i, descending).len() == order.len() + 1,
        placed(order, keys, i, descending).no_duplicates(),
        forall|x: int|
            #![trigger placed(order, keys, i, descending).contains(x)]
            #![trigger order.contains(x)]
            placed(order, keys, i, descending).contains(x) <==> (order.contains(x) || x == i),
    decreases order.len(),
{
    let p = placed(order, keys, i, descending);
    if order.len() == 0 {
        assert(p[0] == i);
    } else if in_order(keys[order.last()], keys[i], descending) {
        assert forall|x: int| p.contains(x) <==> (order.contains(x) || x == i) by {
            if order.contains(x) {
                let k = choose|k: int| 0 <= k < order.len() && order[k] == x;
            }
            if x == i {
                assert(p[order.len() as int] == x);
            }
        }
        assert forall|a: int, b: int| 0 <= a < p.len() && 0 <= b < p.len() && a != b implies p[a]
            != p[b] by {
        }
    } else {
        let front = order.drop_last();
        let last = order.last();
        assert(!front.contains(i));
        lemma_placed_members(front, keys, i, descending);
        let q = placed(front, keys, i, descending);
        assert(!q.contains(last));
        assert forall|x: int| p.contains(x) <==> (order.contains(x) || x == i) by {
            if p.contains(x) {
                let k = choose|k: int| 0 <= k < p.len() && p[k] == x;
                if k < q.len() {
                    if front.contains(x) {
                        let m = choose|m: int| 0 <= m < front.len() && front[m] == x;
                    }
                }
            }
            if order.contains(x) {
                let k = choose|k: int| 0 <= k < order.len() && order[k] == x;
                if k < front.len() {
                    assert(front[k] == x);
                    assert(front.contains(x));
                    let m = choose|m: int| 0 <= m < q.len() && q[m] == x;
                    assert(p[m] == x);
                } else {
                    assert(p[q.len() as int] == x);
                }
            }
            if x == i {
                let m = choose|m: int| 0 <= m < q.len() && q[m] == x;
                assert(p[m] == x);
            }
        }
    }
}

/// `placed` keeps a sorted, stable arrangement sorted and stable.
proof fn lemma_placed_sorted(order: Seq<int>, keys: Seq<Seq<char>>, i: int, descending: bool)
    requires
        is_sorted(order, keys, descending),
        is_stable(order, keys),
        forall|k: int| 0 <= k < order.len() ==> #[trigger] order[k] < i,
    ensures
        is_sorted(placed(order, keys, i, descending), keys, descending),
        is_stable(placed(order, keys, i, descending), keys),
        placed(order, keys, i, descending).len() == order.len() + 1,
        forall|k: int|
            0 <= k < order.len() + 1 ==> {
                let x = #[trigger] placed(order, keys, i, descending)[k];
                x == i || exists|m: int| 0 <= m < order.len() && order[m] == x
            },
    decreases order.len(),
{
    let p = placed(order, keys, i, descending);
    if order.len() == 0 {
    } else if in_order(keys[order.last()], keys[i], descending) {
        let last = order.len() - 1;
        assert forall|a: int, b: int| 0 <= a < b < p.len() implies in_order(
            #[trigger] keys[p[a]],
            #[trigger] keys[p[b]],
            descending,
        ) by {
            if b == order.len() {
                if a < last {
                    lemma_in_order_transitive(
                        keys[order[a]],
                        keys[order[last]],
                        keys[i],
                        descending,
                    );
                }
            }
        }
        assert forall|k: int| 0 <= k < order.len() + 1 implies {
            let x = #[trigger] p[k];
            x == i || exists|m: int| 0 <= m < order.len() && order[m] == x
        } by {
        }
    } else {
        let front = order.drop_last();
        let last = order.last();
        lemma_placed_sorted(front, keys, i, descending);
        lemma_in_order_total(keys[last], keys[i], descending);
        assert forall|a: int, b: int| 0 <= a < b < p.len() implies in_order(
            #[trigger] keys[p[a]],
            #[trigger] keys[p[b]],
            descending,
        ) by {
        }
        assert forall|k: int| 0 <= k < order.len() + 1 implies {
            let x = #[trigger] p[k];
            x == i || exists|m: int| 0 <= m < order.len() && order[m] == x
        } by {
        }
    }
}

proof fn lemma_in_order_total(a: Seq<char>, b: Seq<char>, descending: bool)
    ensures
        in_order(a, b, descending) || in_order(b, a, descending),
{
    lemma_lex_le_total(a, b);
}

proof fn lemma_in_order_transitive(a: Seq<char>, b: Seq<char>, c: Seq<char>, descending: bool)
    requires
        in_order(a, b, descending),
        in_order(b, c, descending),
    ensures
        in_order(a, c, descending),
{
    if descending {
        lemma_lex_le_transitive(c, b, a);
    } else {
        lemma_lex_le_transitive(a, b, c);
    }
}

/// The first `n` positions in stable key order are each of `0..n` once, with
/// keys in order and equal keys in stored order.
pub proof fn lemma_stable_order(keys: Seq<Seq<char>>, n: int, descending: bool)
    requires
        0 <= n,
    ensures
        is_arrangement(stable_order(keys, n, descending), n),
        is_sorted(stable_order(keys, n, descending), keys, descending),
        is_stable(stable_order(keys, n, descending), keys),
    decreases n,
{
    if n > 0 {
        lemma_stable_order(keys, n - 1, descending);
        lemma_placed(stable_order(keys, n - 1, descending), keys, n - 1, descending);
    }
}

/// A listing in key order holds every row once, with keys in order and equal
/// keys in stored order.
pub proof fn lemma_sorted_positions(keys: Seq<Seq<char>>, descending: bool)
    ensures
        is_arrangement(sorted_positions(keys, descending), keys.len() as int),
        is_sorted(sorted_positions(keys, descending), keys, descending),
        is_stable(sorted_positions(keys, descending), keys),
{
    lemma_stable_order(keys, keys.len() as int, descending);
}

/// The positions held by a vector of indices.
pub open spec fn positions(v: Seq<usize>) -> Seq<int> {
    v.map_values(|x: usize| x as int)
}

fn chars_in_order(a: &Vec<char>, b: &Vec<char>, descending: bool) -> (r: bool)
    ensures
        r == in_order(a@, b@, descending),
{
    if descending {
        chars_le(b, a)
    } else {
        chars_le(a, b)
    }
}

/// Computes the stable key order of `keys`.
pub fn sort_positions(keys: &Vec<String>, descending: bool) -> (r: Vec<usize>)
    ensures
        positions(r@) == sorted_positions(keys.deep_view(), descending),
{
    let ghost kv = keys.deep_view();
    let mut ks: Vec<Vec<char>> = Vec::new();
    let mut c: usize = 0;
    while c < keys.len()
        invariant
            c <= keys.len(),
            ks.len() == c,
            kv == keys.deep_view(),
            forall|j: int| 0 <= j < c ==> ks@[j]@ == kv[j],
        decreases keys.len() - c,
    {
        ks.push(chars_of(keys[c].as_str()));
        c += 1;
    }
    let mut order: Vec<usize> = Vec::new();
    let mut n: usize = 0;
    while n < keys.len()
        invariant
            n <= keys.len(),
            ks.len() == keys.len(),
            kv.len() == keys.len(),
            forall|j: int| 0 <= j < ks.len() ==> ks@[j]@ == kv[j],
            positions(order@) == stable_order(kv, n as int, descending),
        decreases keys.len() - n,
    {
        proof {
            lemma_stable_order(kv, n as int, descending);
        }
        let ghost before = positions(order@);
        let mut j: usize = order.len();
        proof {
            assert(before.take(j as int) =~= before);
            assert(placed(before, kv, n as int, descending) =~= placed(
                before.take(j as int),
                kv,
                n as int,
                descending,
            ) + before.skip(j as int));
        }
        while j > 0 && !chars_in_order(&ks[order[j - 1]], &ks[n], descending)
            invariant
                j <= order.len(),
                n < keys.len(),
                ks.len() == keys.len(),
                kv.len() == keys.len(),
                forall|k: int| 0 <= k < ks.len() ==> ks@[k]@ == kv[k],
                before == positions(order@),
                is_arrangement(before, n as int),
                placed(before, kv, n as int, descending) == placed(
                    before.take(j as int),
                    kv,
                    n as int,
                    descending,
                ) + before.skip(j as int),
            decreases j,
        {
            proof {
                let head = before.take(j as int);
                assert(head.drop_last() =~= before.take(j - 1));
                assert(placed(head, kv, n as int, descending) == placed(
                    before.take(j - 1),
                    kv,
                    n as int,
                    descending,
                ).push(before[j - 1]));
                assert(placed(before.take(j - 1), kv, n as int, descending).push(before[j - 1])
                    + before.skip(j as int) =~= placed(
                    before.take(j - 1),
                    kv,
                    n as int,
                    descending,
                ) + before.skip(j - 1));
            }
            j -= 1;
        }
        order.insert(j, n);
        proof {
            assert(positions(order@) =~= before.take(j as int).push(n as int) + before.skip(
                j as int,
            ));
        }
        n += 1;
    }
    order
}

} // verus!
