//! Helpers to consume vectors in order.

use vstd::prelude::*;

verus! {

/// The elements of a vector in reverse order.
pub fn into_reversed<T>(v: Vec<T>) -> (r: Vec<T>)
    ensures
        r@ == v@.reverse(),
{
    let ghost all = v@;
    let mut rest = v;
    let mut out: Vec<T> = Vec::new();
    while rest.len() > 0
        invariant
            all == rest@ + out@.reverse(),
        decreases rest.len(),
    {
        let e = rest.pop().unwrap();
        proof {
            assert(rest@.push(e) + out@.reverse() =~= rest@ + out@.push(e).reverse());
        }
        out.push(e);
    }
    assert(out@.reverse() =~= all);
    assert(out@ =~= all.reverse());
    out
}

/// Popping the reversed suffix `all[k..]` gives `all[k]` and leaves the
/// reversed suffix `all[k + 1..]`.
pub proof fn lemma_reversed_suffix_pop<T>(all: Seq<T>, k: int)
    requires
        0 <= k < all.len(),
    ensures
        all.subrange(k, all.len() as int).reverse().last() == all[k],
        all.subrange(k, all.len() as int).reverse().drop_last() =~= all.subrange(
            k + 1,
            all.len() as int,
        ).reverse(),
{
}

/// Applies `f` to every element, in order, and collects the results.
pub fn map_vec<A, B, F: Fn(A) -> B>(v: Vec<A>, f: F) -> (r: Vec<B>)
    requires
        forall|i: int| 0 <= i < v@.len() ==> call_requires(f, (v@[i],)),
    ensures
        r@.len() == v@.len(),
        forall|i: int| 0 <= i < v@.len() ==> call_ensures(f, (v@[i],), #[trigger] r@[i]),
{
    let ghost all = v@;
    let mut rest = into_reversed(v);
    let mut out: Vec<B> = Vec::new();
    proof {
        assert(all.subrange(0, all.len() as int) =~= all);
    }
    while rest.len() > 0
        invariant
            out@.len() <= all.len(),
            rest@ == all.subrange(out@.len() as int, all.len() as int).reverse(),
            forall|i: int| 0 <= i < all.len() ==> call_requires(f, (all[i],)),
            forall|i: int| 0 <= i < out@.len() ==> call_ensures(f, (all[i],), #[trigger] out@[i]),
        decreases rest.len(),
    {
        let ghost k = out@.len() as int;
        proof {
            if k == all.len() {
                assert(rest@.len() == 0);
            }
            lemma_reversed_suffix_pop(all, k);
        }
        let a = rest.pop().unwrap();
        let b = f(a);
        out.push(b);
    }
    out
}

} // verus!
