//! Stable ordering by descending keys.

use vstd::prelude::*;

verus! {

/// `order` lists every index of `keys` once, by descending key, equal keys in their given order.
pub open spec fn is_stable_desc_order(keys: Seq<int>, order: Seq<int>) -> bool {
    &&& order.len() == keys.len()
    &&& forall|a: int| 0 <= a < order.len() ==> 0 <= #[trigger] order[a] < keys.len()
    &&& forall|a: int, b: int| 0 <= a < b < order.len() ==> order[a] != order[b]
    &&& forall|a: int, b: int|
        0 <= a < b < order.len() ==> keys[#[trigger] order[a]] >= keys[#[trigger] order[b]]
    &&& forall|a: int, b: int|
        0 <= a < b < order.len() && keys[order[a]] == keys[order[b]] ==> #[trigger] order[a]
            < #[trigger] order[b]
}

/// `dst` is `src` rearranged by descending `key`, elements of equal key keeping their order.
pub open spec fn is_stable_desc_arrangement<T>(src: Seq<T>, dst: Seq<T>, key: spec_fn(T) -> int) -> bool {
    exists|order: Seq<int>|
        #![trigger is_stable_desc_order(src.map_values(key), order)]
        is_stable_desc_order(src.map_values(key), order) && dst.len() == order.len() && (forall|
            i: int,
        |
            0 <= i < dst.len() ==> #[trigger] dst[i] == src[order[i]])
}

/// The indices of `keys` in stable descending order of key (a stable insertion sort).
pub fn stable_desc_order(keys: &Vec<i128>) -> (order: Vec<usize>)
    ensures
        is_stable_desc_order(keys@.map_values(|k: i128| k as int), order@.map_values(|i: usize| i as int)),
{
    let ghost ks = keys@.map_values(|k: i128| k as int);
    let mut out: Vec<usize> = Vec::new();
    let mut k: usize = 0;
    while k < keys.len()
        invariant
            ks == keys@.map_values(|k: i128| k as int),
            k <= keys@.len(),
            out@.len() == k,
            forall|a: int| 0 <= a < out@.len() ==> #[trigger] out@[a] < k,
            forall|a: int, b: int| 0 <= a < b < out@.len() ==> out@[a] != out@[b],
            forall|a: int, b: int|
                0 <= a < b < out@.len() ==> keys@[#[trigger] out@[a] as int] >= keys@[#[trigger] out@[b] as int],
            forall|a: int, b: int|
                0 <= a < b < out@.len() && keys@[out@[a] as int] == keys@[out@[b] as int]
                    ==> #[trigger] out@[a] < #[trigger] out@[b],
        decreases keys@.len() - k,
    {
        let key = keys[k];
        let mut p: usize = 0;
        while p < out.len() && keys[out[p]] >= key
            invariant
                p <= out@.len(),
                k < keys@.len(),
                key == keys@[k as int],
                forall|a: int| 0 <= a < out@.len() ==> #[trigger] out@[a] < k,
                forall|a: int| 0 <= a < p ==> keys@[#[trigger] out@[a] as int] >= key,
            decreases out@.len() - p,
        {
            p = p + 1;
        }
        let ghost old_out = out@;
        out.insert(p, k);
        assert(out@ == old_out.insert(p as int, k));
        assert forall|a: int, b: int| 0 <= a < b < out@.len() implies
            keys@[#[trigger] out@[a] as int] >= keys@[#[trigger] out@[b] as int] by {
            if p < old_out.len() {
                assert(keys@[old_out[p as int] as int] < key);
            }
            if a < p && b > p {
                assert(out@[a] == old_out[a]);
                assert(out@[b] == old_out[b - 1]);
                if p < old_out.len() {
                    assert(keys@[old_out[p as int] as int] >= keys@[old_out[b - 1] as int] || b - 1 == p);
                }
            } else if a == p && b > p {
                assert(out@[b] == old_out[b - 1]);
                if b - 1 > p {
                    assert(keys@[old_out[p as int] as int] >= keys@[old_out[b - 1] as int]);
                }
            }
        }
        assert forall|a: int, b: int|
            0 <= a < b < out@.len() && keys@[out@[a] as int] == keys@[out@[b] as int]
                implies #[trigger] out@[a] < #[trigger] out@[b] by {
            if p < old_out.len() {
                assert(keys@[old_out[p as int] as int] < key);
            }
            if a == p && b > p {
                assert(out@[b] == old_out[b - 1]);
                if b - 1 > p {
                    assert(keys@[old_out[p as int] as int] >= keys@[old_out[b - 1] as int]);
                }
            } else if a < p && b > p {
                assert(out@[a] == old_out[a]);
                assert(out@[b] == old_out[b - 1]);
            } else if a < p && b == p {
                assert(out@[a] == old_out[a]);
            }
        }
        assert forall|a: int, b: int| 0 <= a < b < out@.len() implies out@[a] != out@[b] by {
            if a == p {
                assert(out@[b] == old_out[b - 1]);
            } else if b == p {
                assert(out@[a] == old_out[a]);
            } else if a < p && b > p {
                assert(out@[b] == old_out[b - 1]);
            }
        }
        k = k + 1;
    }
    let ghost res = out@.map_values(|i: usize| i as int);
    assert forall|a: int| 0 <= a < res.len() implies 0 <= #[trigger] res[a] < ks.len() by {
        assert(out@[a] < k);
    }
    assert forall|a: int, b: int| 0 <= a < b < res.len() implies ks[#[trigger] res[a]] >= ks[#[trigger] res[b]] by {
        assert(keys@[out@[a] as int] >= keys@[out@[b] as int]);
    }
    assert forall|a: int, b: int|
        0 <= a < b < res.len() && ks[res[a]] == ks[res[b]] implies #[trigger] res[a] < #[trigger] res[b] by {
        assert(out@[a] < out@[b]);
    }
    assert forall|a: int, b: int| 0 <= a < b < res.len() implies res[a] != res[b] by {
        assert(out@[a] != out@[b]);
    }
    out
}

/// An order of `n` keys names every index below `n`.
proof fn lemma_order_covers(keys: Seq<int>, order: Seq<int>)
    requires
        is_stable_desc_order(keys, order),
    ensures
        forall|i: int| 0 <= i < keys.len() ==> #[trigger] order.contains(i),
{
    let n = keys.len() as int;
    assert(order.no_duplicates()) by {
        assert forall|a: int, b: int| 0 <= a < order.len() && 0 <= b < order.len() && a != b implies order[a]
            != order[b] by {
            if a < b {
                assert(order[a] != order[b]);
            } else {
                assert(order[b] != order[a]);
            }
        }
    }
    order.unique_seq_to_set();
    vstd::set_lib::lemma_int_range(0, n);
    let range = vstd::set_lib::set_int_range(0, n);
    assert(order.to_set().subset_of(range)) by {
        assert forall|x: int| order.to_set().contains(x) implies range.contains(x) by {
            let j = choose|j: int| 0 <= j < order.len() && order[j] == x;
            assert(0 <= order[j] < n);
        }
    }
    vstd::seq_lib::seq_to_set_is_finite(order);
    vstd::set_lib::lemma_subset_equality(order.to_set(), range);
    assert forall|i: int| 0 <= i < n implies #[trigger] order.contains(i) by {
        assert(range.contains(i));
        assert(order.to_set().contains(i));
    }
}

/// A stable descending arrangement is a sorted rearrangement: it has as many elements as
/// its source, each drawn from the source, every element of the source appears in it,
/// and keys never increase along it.
pub proof fn law_arrangement_sorted<T>(src: Seq<T>, dst: Seq<T>, key: spec_fn(T) -> int)
    requires
        is_stable_desc_arrangement(src, dst, key),
    ensures
        dst.len() == src.len(),
        forall|i: int| 0 <= i < dst.len() ==> src.contains(#[trigger] dst[i]),
        forall|i: int| 0 <= i < src.len() ==> dst.contains(#[trigger] src[i]),
        forall|a: int, b: int| 0 <= a < b < dst.len() ==> key(#[trigger] dst[a]) >= key(#[trigger] dst[b]),
{
    let ord = choose|ord: Seq<int>|
        #![trigger is_stable_desc_order(src.map_values(key), ord)]
        is_stable_desc_order(src.map_values(key), ord) && dst.len() == ord.len() && (forall|i: int|
            0 <= i < dst.len() ==> #[trigger] dst[i] == src[ord[i]]);
    assert forall|i: int| 0 <= i < dst.len() implies src.contains(#[trigger] dst[i]) by {
        assert(0 <= ord[i] < src.len());
        assert(src[ord[i]] == dst[i]);
    }
    lemma_order_covers(src.map_values(key), ord);
    assert forall|i: int| 0 <= i < src.len() implies dst.contains(#[trigger] src[i]) by {
        assert(ord.contains(i));
        let j = choose|j: int| 0 <= j < ord.len() && ord[j] == i;
        assert(dst[j] == src[i]);
    }
    assert forall|a: int, b: int| 0 <= a < b < dst.len() implies key(#[trigger] dst[a]) >= key(#[trigger] dst[b]) by {
        assert(src.map_values(key)[ord[a]] >= src.map_values(key)[ord[b]]);
        assert(0 <= ord[a] < src.len());
        assert(0 <= ord[b] < src.len());
        assert(dst[a] == src[ord[a]]);
        assert(dst[b] == src[ord[b]]);
    }
}

} // verus!
