//! The earlier formats of the entries of the object table, and how an entry
//! written in one of them is brought to the next one, up to the current
//! format of `object_table`.
pub mod v08;
pub mod v09;
pub mod v010;
pub mod v2;

use vstd::prelude::*;

verus! {

broadcast use vstd::std_specs::vec::group_vec_axioms;

/// The elements of a list, last first.
pub fn reversed<T>(v: Vec<T>) -> (r: Vec<T>)
    ensures
        r@ == v@.reverse(),
{
    let ghost orig = v@;
    let mut v = v;
    let mut r: Vec<T> = Vec::new();
    while v.len() > 0
        invariant
            v@.len() <= orig.len(),
            v@ == orig.take(v@.len() as int),
            r@ == orig.skip(v@.len() as int).reverse(),
        decreases v@.len(),
    {
        let ghost n = v@.len() as int;
        let x = v.pop().unwrap();
        assert(x == orig[n - 1]);
        r.push(x);
        assert(v@ =~= orig.take(n - 1));
        assert(r@ =~= orig.skip(n - 1).reverse());
    }
    assert(orig.skip(0) =~= orig);
    r
}

/// Popping the list of the elements of `s` from index `k` on, last first,
/// gives the element at `k` and leaves those from `k + 1` on.
pub proof fn lemma_pop_reversed<T>(s: Seq<T>, k: int)
    requires
        0 <= k < s.len(),
    ensures
        s.skip(k).reverse().len() == s.len() - k,
        s.skip(k).reverse()[s.len() - k - 1] == s[k],
        s.skip(k).reverse().subrange(0, s.len() - k - 1) == s.skip(k + 1).reverse(),
{
    assert(s.skip(k).reverse().subrange(0, s.len() - k - 1) =~= s.skip(k + 1).reverse());
}

} // verus!
