//! Naming the calling function in diagnostics.
//!
//! Log lines are labelled with the name of the function that emitted them.
//! The name is recovered from the path of an item local to that
//! function, a path such as `crate::caller::f`: dropping the trailing `::f`
//! and keeping what follows the last remaining `:` leaves `caller`.

use vstd::prelude::*;

verus! {

/// The byte value of `:` in a path.
pub open spec fn colon() -> u8 {
    58u8
}

/// The longest suffix of `b` that contains no `:`; what follows the last `:`
/// when there is one, all of `b` when there is none.
pub open spec fn colon_free_suffix(b: Seq<u8>) -> Seq<u8>
    decreases b.len(),
{
    if b.len() == 0 {
        b
    } else if b.last() == colon() {
        Seq::empty()
    } else {
        colon_free_suffix(b.drop_last()).push(b.last())
    }
}

/// When no byte of `b` from `p` on is a `:` and the byte just before `p` (if
/// any) is one, the colon-free suffix of `b` is exactly `b` from `p` on.
proof fn lemma_colon_free_suffix_at(b: Seq<u8>, p: int)
    requires
        0 <= p <= b.len(),
        forall|j: int| p <= j < b.len() ==> b[j] != colon(),
        p > 0 ==> b[p - 1] == colon(),
    ensures
        colon_free_suffix(b) == b.subrange(p, b.len() as int),
    decreases b.len(),
{
    let n = b.len() as int;
    if p == n {
        if p == 0 {
            assert(b.subrange(0, 0) =~= b);
        } else {
            assert(b.last() == colon());
            assert(colon_free_suffix(b) =~= b.subrange(p, n));
        }
    } else {
        assert(b[n - 1] != colon());
        let d = b.drop_last();
        assert forall|j: int| p <= j < d.len() implies d[j] != colon() by {
            assert(d[j] == b[j]);
        }
        if p > 0 {
            assert(d[p - 1] == b[p - 1]);
        }
        lemma_colon_free_suffix_at(d, p);
        assert(b.subrange(p, n) =~= d.subrange(p, n - 1).push(b.last()));
    }
}

/// The name of the calling function, recovered from the path of an item
/// declared inside it: the trailing `::f` is dropped, then everything up to
/// and including the last remaining `:`.
pub fn function_name(item_path: &[u8]) -> (r: Vec<u8>)
    requires
        item_path@.len() >= 3,
    ensures
        r@ == colon_free_suffix(item_path@.take(item_path@.len() - 3)),
{
    let cut = item_path.len() - 3;
    let ghost head = item_path@.take(item_path@.len() - 3);
    proof {
        assert(head.len() == cut);
        assert(forall|j: int| 0 <= j < head.len() ==> head[j] == item_path@[j]);
    }
    // position just after the last `:` before the cut, or zero
    let mut p: usize = 0;
    let mut i: usize = 0;
    while i < cut
        invariant
            i <= cut,
            p <= i,
            cut <= item_path@.len(),
            head == item_path@.take(item_path@.len() - 3),
            head.len() == cut,
            forall|j: int| 0 <= j < head.len() ==> head[j] == item_path@[j],
            p > 0 ==> head[p - 1] == colon(),
            forall|j: int| p <= j < i ==> head[j] != colon(),
        decreases cut - i,
    {
        if item_path[i] == 58u8 {
            p = i + 1;
        }
        i = i + 1;
    }
    proof {
        lemma_colon_free_suffix_at(head, p as int);
    }
    let mut r: Vec<u8> = Vec::new();
    let mut k: usize = p;
    while k < cut
        invariant
            p <= k <= cut,
            cut <= item_path@.len(),
            head == item_path@.take(item_path@.len() - 3),
            head.len() == cut,
            forall|j: int| 0 <= j < head.len() ==> head[j] == item_path@[j],
            r@ == head.subrange(p as int, k as int),
        decreases cut - k,
    {
        r.push(item_path[k]);
        proof {
            assert(r@ =~= head.subrange(p as int, k + 1));
        }
        k = k + 1;
    }
    proof {
        assert(r@ =~= head.subrange(p as int, head.len() as int));
    }
    r
}

} // verus!
