//! Orderings on numbers given by integer keys.
//!
//! The numeric routines choose pivots and sort singular values by the IEEE 754
//! total order of `f64`. That order is a function of the bit pattern alone:
//! `total_order_key` maps a bit pattern to a signed integer whose ordinary
//! order is the total order, and the functions below work on such keys.
use vstd::prelude::*;

verus! {

/// The sign bit of a 64-bit pattern.
pub open spec fn sign_bit(bits: u64) -> bool {
    bits >= 0x8000_0000_0000_0000u64
}

/// The low 63 bits of a 64-bit pattern (exponent and significand).
pub open spec fn magnitude(bits: u64) -> int {
    if sign_bit(bits) {
        bits - 0x8000_0000_0000_0000u64
    } else {
        bits as int
    }
}

/// The key of a bit pattern: the magnitude itself for a clear sign bit, and
/// `-1 - magnitude` for a set sign bit.
pub open spec fn key_of(bits: u64) -> int {
    if sign_bit(bits) {
        -1 - magnitude(bits)
    } else {
        magnitude(bits)
    }
}

/// The IEEE 754 totalOrder relation on bit patterns, strict form: negative
/// patterns come before non-negative ones, non-negative ones grow with their
/// magnitude, negative ones shrink with it.
pub open spec fn total_order_lt(a: u64, b: u64) -> bool {
    if sign_bit(a) && !sign_bit(b) {
        true
    } else if !sign_bit(a) && sign_bit(b) {
        false
    } else if !sign_bit(a) {
        magnitude(a) < magnitude(b)
    } else {
        magnitude(b) < magnitude(a)
    }
}

/// The integer key of a 64-bit floating-point bit pattern; keys compare as the
/// patterns do in the IEEE 754 total order.
pub fn total_order_key(bits: u64) -> (k: i64)
    ensures
        k == key_of(bits),
        bits < 0x8000_0000_0000_0000u64 ==> k == bits,
        bits >= 0x8000_0000_0000_0000u64 ==> k == 0x7FFF_FFFF_FFFF_FFFFu64 - bits,
{
    if bits >= 0x8000_0000_0000_0000u64 {
        let m: u64 = bits - 0x8000_0000_0000_0000u64;
        -1 - (m as i64)
    } else {
        bits as i64
    }
}

/// Keys are ordered as the bit patterns are in the total order.
pub proof fn lemma_key_order(a: u64, b: u64)
    ensures
        key_of(a) < key_of(b) <==> total_order_lt(a, b),
{
}

/// Distinct bit patterns have distinct keys.
pub proof fn lemma_key_injective(a: u64, b: u64)
    ensures
        key_of(a) == key_of(b) ==> a == b,
{
}

/// The index of the largest key in `keys[from..]`; of several equal largest
/// keys, the last one (the choice `Iterator::max_by` makes).
pub fn last_max_index(keys: &[i64], from: usize) -> (p: usize)
    requires
        from < keys.len(),
    ensures
        from <= p < keys.len(),
        forall|i: int| from <= i < keys.len() ==> keys[i] <= keys[p as int],
        forall|i: int| p < i < keys.len() ==> keys[i] < keys[p as int],
{
    let mut p = from;
    let mut i = from + 1;
    while i < keys.len()
        invariant
            from <= p < i <= keys.len(),
            forall|j: int| from <= j < i ==> keys[j] <= keys[p as int],
            forall|j: int| p < j < i ==> keys[j] < keys[p as int],
        decreases keys.len() - i,
    {
        if keys[i] >= keys[p] {
            p = i;
        }
        i = i + 1;
    }
    p
}

/// `order` lists each of `0..n` exactly once.
pub open spec fn is_permutation(order: Seq<usize>, n: nat) -> bool {
    &&& order.len() == n
    &&& forall|a: int| 0 <= a < order.len() ==> order[a] < n
    &&& forall|a: int, b: int| 0 <= a < b < order.len() ==> order[a] != order[b]
}

/// Along `order`, keys never increase, and equal keys keep their index order.
pub open spec fn is_stable_descending(keys: Seq<i64>, order: Seq<usize>) -> bool {
    forall|a: int, b: int|
        0 <= a < b < order.len() ==> {
            ||| keys[order[a] as int] > keys[order[b] as int]
            ||| (keys[order[a] as int] == keys[order[b] as int] && order[a] < order[b])
        }
}

/// The indices `0..keys.len()` in the order of a stable sort by descending key.
pub fn descending_order(keys: &[i64]) -> (order: Vec<usize>)
    ensures
        is_permutation(order@, keys@.len()),
        is_stable_descending(keys@, order@),
{
    let n = keys.len();
    let mut order: Vec<usize> = Vec::new();
    let mut i: usize = 0;
    while i < n
        invariant
            n == keys.len(),
            i <= n,
            order@.len() == i,
            forall|a: int| 0 <= a < order@.len() ==> order@[a] < i,
            forall|a: int, b: int| 0 <= a < b < order@.len() ==> order@[a] != order@[b],
            is_stable_descending(keys@, order@),
        decreases n - i,
    {
        // first position whose key is below keys[i]
        let mut p: usize = 0;
        while p < order.len() && keys[order[p]] >= keys[i]
            invariant
                n == keys.len(),
                i < n,
                p <= order@.len(),
                forall|a: int| 0 <= a < order@.len() ==> order@[a] < i,
                forall|a: int| 0 <= a < p ==> keys@[order@[a] as int] >= keys@[i as int],
            decreases order@.len() - p,
        {
            p = p + 1;
        }
        proof {
            // everything after p is strictly below keys[i]
            assert forall|a: int| p <= a < order@.len() implies keys@[order@[a] as int]
                < keys@[i as int] by {
                if a > p {
                    assert(keys@[order@[p as int] as int] < keys@[i as int]);
                }
            }
        }
        let ghost old_order = order@;
        order.insert(p, i);
        proof {
            let new_order = order@;
            assert(new_order == old_order.insert(p as int, i));
            assert forall|a: int, b: int| 0 <= a < b < new_order.len() implies {
                ||| keys@[new_order[a] as int] > keys@[new_order[b] as int]
                ||| (keys@[new_order[a] as int] == keys@[new_order[b] as int] && new_order[a]
                    < new_order[b])
            } by {
                if b < p {
                    assert(new_order[a] == old_order[a]);
                    assert(new_order[b] == old_order[b]);
                } else if b == p {
                    assert(new_order[a] == old_order[a]);
                } else if a < p {
                    assert(new_order[a] == old_order[a]);
                    assert(new_order[b] == old_order[b - 1]);
                } else if a == p {
                    assert(new_order[b] == old_order[b - 1]);
                } else {
                    assert(new_order[a] == old_order[a - 1]);
                    assert(new_order[b] == old_order[b - 1]);
                }
            }
            assert forall|a: int, b: int| 0 <= a < b < new_order.len() implies new_order[a]
                != new_order[b] by {
                if b < p {
                } else if b == p {
                    assert(new_order[a] == old_order[a]);
                } else if a < p {
                    assert(new_order[b] == old_order[b - 1]);
                } else if a == p {
                    assert(new_order[b] == old_order[b - 1]);
                } else {
                    assert(new_order[a] == old_order[a - 1]);
                    assert(new_order[b] == old_order[b - 1]);
                }
            }
            assert forall|a: int| 0 <= a < new_order.len() implies new_order[a] < i + 1 by {
                if a < p {
                } else if a > p {
                    assert(new_order[a] == old_order[a - 1]);
                }
            }
        }
        i = i + 1;
    }
    order
}


/// `values` rearranged along `order`: entry `d` of the result is
/// `values[order[d]]`.
pub fn gather<T: Copy>(values: &[T], order: &[usize]) -> (r: Vec<T>)
    requires
        forall|d: int| 0 <= d < order@.len() ==> #[trigger] order@[d] < values@.len(),
    ensures
        r@.len() == order@.len(),
        forall|d: int| 0 <= d < order@.len() ==> #[trigger] r@[d] == values@[order@[d] as int],
{
    let mut r: Vec<T> = Vec::new();
    let mut d: usize = 0;
    while d < order.len()
        invariant
            forall|e: int| 0 <= e < order@.len() ==> #[trigger] order@[e] < values@.len(),
            d <= order@.len(),
            r@.len() == d,
            forall|e: int| 0 <= e < d ==> #[trigger] r@[e] == values@[order@[e] as int],
        decreases order@.len() - d,
    {
        r.push(values[order[d]]);
        d = d + 1;
    }
    r
}

/// Sorting by keys sorts the bit patterns: along a stable descending order of
/// their keys, no pattern is below a later one in the total order.
pub proof fn lemma_descending_keys_sort_patterns(
    bits: Seq<u64>,
    keys: Seq<i64>,
    order: Seq<usize>,
    a: int,
    b: int,
)
    requires
        keys.len() == bits.len(),
        forall|i: int| 0 <= i < bits.len() ==> #[trigger] keys[i] == key_of(bits[i]),
        is_permutation(order, keys.len()),
        is_stable_descending(keys, order),
        0 <= a < b < order.len(),
    ensures
        !total_order_lt(bits[order[a] as int], bits[order[b] as int]),
{
    lemma_key_order(bits[order[a] as int], bits[order[b] as int]);
}

} // verus!
