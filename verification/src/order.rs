//! Stable ordering of records by a descending integer key ("most recent
//! first"), as `sort_by(|a, b| b.key.cmp(&a.key))` arranges them.

use vstd::prelude::*;

verus! {

/// `t` (an arrangement of indices) with index `j` inserted after every
/// entry whose key is at least `keys[j]`, scanning from the back.
pub open spec fn insert_desc(t: Seq<int>, j: int, keys: Seq<i64>) -> Seq<int>
    decreases t.len(),
{
    if t.len() == 0 {
        seq![j]
    } else if keys[t.last()] >= keys[j] {
        t.push(j)
    } else {
        insert_desc(t.drop_last(), j, keys).push(t.last())
    }
}

/// The indices `0..n` in the order of a stable descending sort by `keys`.
pub open spec fn order_desc(keys: Seq<i64>, n: int) -> Seq<int>
    decreases n,
{
    if n <= 0 {
        Seq::empty()
    } else {
        insert_desc(order_desc(keys, n - 1), n - 1, keys)
    }
}

/// `o` lists each index in `0..n` exactly once.
pub open spec fn is_index_permutation(o: Seq<int>, n: int) -> bool {
    &&& o.len() == n
    &&& forall|a: int| 0 <= a < o.len() ==> 0 <= #[trigger] o[a] < n
    &&& forall|a: int, b: int| 0 <= a < o.len() && 0 <= b < o.len() && a != b ==> #[trigger] o[a]
        != #[trigger] o[b]
}

/// Keys along `o` never increase.
pub open spec fn is_sorted_desc(o: Seq<int>, keys: Seq<i64>) -> bool {
    forall|a: int, b: int| 0 <= a < b < o.len() ==> keys[#[trigger] o[a]] >= keys[#[trigger] o[b]]
}

/// Entries with equal keys keep their original relative order.
pub open spec fn is_stable(o: Seq<int>, keys: Seq<i64>) -> bool {
    forall|a: int, b: int|
        0 <= a < b < o.len() && keys[#[trigger] o[a]] == keys[#[trigger] o[b]] ==> o[a] < o[b]
}

proof fn lemma_insert_shape(t: Seq<int>, j: int, keys: Seq<i64>, p: int)
    requires
        0 <= p <= t.len(),
        forall|a: int| p <= a < t.len() ==> keys[#[trigger] t[a]] < keys[j],
        p == 0 || keys[t[p - 1]] >= keys[j],
    ensures
        insert_desc(t, j, keys) == t.insert(p, j),
    decreases t.len(),
{
    if t.len() == 0 {
        assert(t.insert(p, j) =~= seq![j]);
    } else if p == t.len() {
        assert(t.insert(p, j) =~= t.push(j));
    } else {
        let u = t.drop_last();
        assert forall|a: int| p <= a < u.len() implies keys[#[trigger] u[a]] < keys[j] by {
            assert(u[a] == t[a]);
        }
        if p > 0 {
            assert(u[p - 1] == t[p - 1]);
        }
        lemma_insert_shape(u, j, keys, p);
        assert(u.insert(p, j).push(t.last()) =~= t.insert(p, j));
    }
}

/// The order is a permutation of the indices, sorted by descending key, and
/// stable.
pub proof fn law_order_desc(keys: Seq<i64>, n: int)
    requires
        0 <= n <= keys.len(),
    ensures
        is_index_permutation(order_desc(keys, n), n),
        is_sorted_desc(order_desc(keys, n), keys),
        is_stable(order_desc(keys, n), keys),
    decreases n,
{
    if n > 0 {
        law_order_desc(keys, n - 1);
        let t = order_desc(keys, n - 1);
        let j = n - 1;
        let p = position_after(t, j, keys);
        assert forall|a: int| 0 <= a < t.len() implies 0 <= #[trigger] t[a] < keys.len() by {}
        lemma_position_after(t, j, keys);
        lemma_insert_shape(t, j, keys, p);
        let o = t.insert(p, j);
        assert forall|a: int| 0 <= a < o.len() implies 0 <= #[trigger] o[a] < n by {
            if a < p {
                assert(o[a] == t[a]);
            } else if a > p {
                assert(o[a] == t[a - 1]);
            }
        }
        assert forall|a: int, b: int|
            0 <= a < o.len() && 0 <= b < o.len() && a != b implies #[trigger] o[a]
            != #[trigger] o[b] by {
            let ta = if a < p {
                a
            } else {
                a - 1
            };
            let tb = if b < p {
                b
            } else {
                b - 1
            };
            if a != p && b != p {
                assert(o[a] == t[ta]);
                assert(o[b] == t[tb]);
            } else if a == p {
                assert(o[b] == t[tb]);
            } else {
                assert(o[a] == t[ta]);
            }
        }
        assert forall|a: int, b: int| 0 <= a < b < o.len() implies keys[#[trigger] o[a]]
            >= keys[#[trigger] o[b]] by {
            if b < p {
                assert(o[a] == t[a] && o[b] == t[b]);
            } else if a > p {
                assert(o[a] == t[a - 1] && o[b] == t[b - 1]);
            } else if a < p && b == p {
                assert(o[a] == t[a]);
                assert(keys[t[a]] >= keys[t[p - 1]]);
            } else if a < p && b > p {
                assert(o[a] == t[a] && o[b] == t[b - 1]);
            } else {
                assert(o[b] == t[b - 1]);
            }
        }
        assert forall|a: int, b: int|
            0 <= a < b < o.len() && keys[#[trigger] o[a]] == keys[#[trigger] o[b]] implies o[a]
            < o[b] by {
            if b < p {
                assert(o[a] == t[a] && o[b] == t[b]);
            } else if a > p {
                assert(o[a] == t[a - 1] && o[b] == t[b - 1]);
            } else if a < p && b == p {
                assert(o[a] == t[a]);
            } else if a < p && b > p {
                assert(o[a] == t[a] && o[b] == t[b - 1]);
            } else {
                assert(o[b] == t[b - 1]);
            }
        }
    }
}

/// Where index `j` goes in the arrangement `t`: after the last entry whose
/// key is at least `keys[j]`.
pub open spec fn position_after(t: Seq<int>, j: int, keys: Seq<i64>) -> int
    decreases t.len(),
{
    if t.len() == 0 {
        0
    } else if keys[t.last()] >= keys[j] {
        t.len() as int
    } else {
        position_after(t.drop_last(), j, keys)
    }
}

proof fn lemma_position_after(t: Seq<int>, j: int, keys: Seq<i64>)
    requires
        forall|a: int| 0 <= a < t.len() ==> 0 <= #[trigger] t[a] < keys.len(),
        0 <= j < keys.len(),
        is_sorted_desc(t, keys),
    ensures
        0 <= position_after(t, j, keys) <= t.len(),
        forall|a: int|
            position_after(t, j, keys) <= a < t.len() ==> keys[#[trigger] t[a]] < keys[j],
        position_after(t, j, keys) == 0 || keys[t[position_after(t, j, keys) - 1]] >= keys[j],
    decreases t.len(),
{
    if t.len() > 0 && keys[t.last()] < keys[j] {
        let u = t.drop_last();
        assert forall|a: int| 0 <= a < u.len() implies 0 <= #[trigger] u[a] < keys.len() by {
            assert(u[a] == t[a]);
        }
        assert forall|a: int, b: int| 0 <= a < b < u.len() implies keys[#[trigger] u[a]]
            >= keys[#[trigger] u[b]] by {
            assert(u[a] == t[a] && u[b] == t[b]);
        }
        lemma_position_after(u, j, keys);
        let p = position_after(u, j, keys);
        assert forall|a: int| p <= a < t.len() implies keys[#[trigger] t[a]] < keys[j] by {
            if a < u.len() {
                assert(u[a] == t[a]);
            }
        }
        if p > 0 {
            assert(u[p - 1] == t[p - 1]);
        }
    }
}

/// The positions of the entries of `keys` in a stable descending sort.
pub fn sort_order_desc(keys: &Vec<i64>) -> (r: Vec<usize>)
    ensures
        r@.len() == keys@.len(),
        forall|a: int| 0 <= a < r@.len() ==> #[trigger] r@[a] as int == order_desc(keys@, keys@.len() as int)[a],
{
    let n = keys.len();
    let mut order: Vec<usize> = Vec::new();
    let mut j: usize = 0;
    while j < n
        invariant
            j <= n,
            n == keys@.len(),
            order@.len() == j,
            forall|a: int| 0 <= a < j ==> #[trigger] order@[a] as int == order_desc(keys@, j as int)[a],
        decreases n - j,
    {
        proof {
            law_order_desc(keys@, j as int);
        }
        let ghost t = order_desc(keys@, j as int);
        let mut p: usize = j;
        while p > 0 && keys[order[p - 1]] < keys[j]
            invariant
                p <= j,
                j < n,
                n == keys@.len(),
                order@.len() == j,
                t.len() == j,
                forall|a: int| 0 <= a < j ==> #[trigger] order@[a] as int == t[a],
                forall|a: int| 0 <= a < t.len() ==> 0 <= #[trigger] t[a] < j,
                forall|a: int| p <= a < j ==> keys@[#[trigger] t[a]] < keys@[j as int],
            decreases p,
        {
            p = p - 1;
        }
        proof {
            assert(forall|a: int| 0 <= a < t.len() ==> 0 <= #[trigger] t[a] < keys@.len());
            if p > 0 {
                assert(order@[p - 1] as int == t[p - 1]);
            }
            lemma_insert_shape(t, j as int, keys@, p as int);
        }
        let ghost before = order@;
        order.insert(p, j);
        proof {
            let u = t.insert(p as int, j as int);
            assert(order_desc(keys@, j + 1) == u);
            assert forall|a: int| 0 <= a < j + 1 implies #[trigger] order@[a] as int == u[a] by {
                if a < p {
                    assert(order@[a] == before[a]);
                    assert(u[a] == t[a]);
                } else if a > p {
                    assert(order@[a] == before[a - 1]);
                    assert(u[a] == t[a - 1]);
                }
            }
        }
        j = j + 1;
    }
    order
}

} // verus!
