//! Dimension lists and their products.
//!
//! A shape is an ordered list of non-negative extents.  The product of a
//! shape with its item shape is the physical size of the tensor; the
//! access-only operators must preserve it.

use vstd::prelude::*;

verus! {

/// The product of the extents of a dimension list.  The empty list has
/// product `1`.
pub open spec fn prod(s: Seq<usize>) -> int
    decreases s.len(),
{
    if s.len() == 0 {
        1
    } else {
        prod(s.drop_last()) * s.last()
    }
}

/// A product is never negative.
pub proof fn lemma_prod_nonneg(s: Seq<usize>)
    ensures
        prod(s) >= 0,
    decreases s.len(),
{
    if s.len() > 0 {
        lemma_prod_nonneg(s.drop_last());
        assert(prod(s.drop_last()) * s.last() >= 0) by (nonlinear_arith)
            requires
                prod(s.drop_last()) >= 0,
                s.last() >= 0,
        ;
    }
}

/// The product of a concatenation is the product of the products.
pub proof fn lemma_prod_add(a: Seq<usize>, b: Seq<usize>)
    ensures
        prod(a + b) == prod(a) * prod(b),
    decreases b.len(),
{
    if b.len() == 0 {
        assert(a + b =~= a);
    } else {
        assert((a + b).drop_last() =~= a + b.drop_last());
        lemma_prod_add(a, b.drop_last());
        assert(prod(a) * prod(b.drop_last()) * b.last() == prod(a) * (prod(b.drop_last())
            * b.last())) by (nonlinear_arith);
    }
}

/// The product of one more dimension of a prefix.
pub proof fn lemma_prod_take_succ(s: Seq<usize>, i: int)
    requires
        0 <= i < s.len(),
    ensures
        prod(s.take(i + 1)) == prod(s.take(i)) * s[i],
{
    assert(s.take(i + 1).drop_last() =~= s.take(i));
}

/// Removing one dimension divides the product by its extent.
pub proof fn lemma_prod_remove(s: Seq<usize>, i: int)
    requires
        0 <= i < s.len(),
    ensures
        prod(s) == prod(s.remove(i)) * s[i],
    decreases s.len(),
{
    if i == s.len() - 1 {
        assert(s.remove(i) =~= s.drop_last());
    } else {
        assert(s.remove(i).drop_last() =~= s.drop_last().remove(i));
        assert(s.remove(i).last() == s.last());
        lemma_prod_remove(s.drop_last(), i);
        assert(s.drop_last()[i] == s[i]);
        assert(prod(s.drop_last().remove(i)) * s[i] * s.last() == (prod(s.drop_last().remove(i))
            * s.last()) * s[i]) by (nonlinear_arith);
    }
}

/// Whether `p` maps every position of a list of length `n` to a distinct
/// source position.
pub open spec fn is_permutation(p: Seq<usize>, n: int) -> bool {
    &&& p.len() == n
    &&& forall|i: int| 0 <= i < p.len() ==> #[trigger] p[i] < n
    &&& forall|i: int, j: int| 0 <= i < j < p.len() ==> p[i] != p[j]
}

/// Reordering the dimensions of a list leaves its product unchanged.
pub proof fn lemma_prod_permuted(source: Seq<usize>, reordered: Seq<usize>, p: Seq<usize>)
    requires
        is_permutation(p, source.len() as int),
        reordered.len() == p.len(),
        forall|i: int| 0 <= i < reordered.len() ==> #[trigger] reordered[i] == source[p[i] as int],
    ensures
        prod(reordered) == prod(source),
    decreases source.len(),
{
    if source.len() == 0 {
        assert(reordered =~= source);
    } else {
        let n = source.len() as int;
        let j = p.last() as int;
        let source2 = source.remove(j);
        let reordered2 = reordered.drop_last();
        let p2 = Seq::new((n - 1) as nat, |i: int| if p[i] < j { p[i] } else { (p[i] - 1) as usize });
        assert forall|i: int| 0 <= i < p2.len() implies #[trigger] p2[i] < n - 1 by {
            assert(p[i] != p[n - 1]);
        }
        assert forall|i: int, m: int| 0 <= i < m < p2.len() implies p2[i] != p2[m] by {
            assert(p[i] != p[m]);
            assert(p[i] != p[n - 1]);
            assert(p[m] != p[n - 1]);
        }
        assert forall|i: int| 0 <= i < reordered2.len() implies #[trigger] reordered2[i]
            == source2[p2[i] as int] by {
            assert(p[i] != p[n - 1]);
            if p[i] < j {
                assert(source2[p2[i] as int] == source[p[i] as int]);
            } else {
                assert(source2[p2[i] as int] == source[p[i] as int]);
            }
        }
        lemma_prod_permuted(source2, reordered2, p2);
        lemma_prod_remove(source, j);
        assert(reordered.last() == source[j]);
        assert(prod(source2) * source[j] == prod(reordered2) * source[j]);
    }
}

/// Every prefix product of `s` fits in a machine word, so the products can be
/// computed left to right without overflow.
pub open spec fn prods_fit(s: Seq<usize>) -> bool {
    forall|i: int| 0 <= i <= s.len() ==> #[trigger] prod(s.take(i)) <= usize::MAX
}

/// The product of a dimension list.
pub fn product(v: &Vec<usize>) -> (r: usize)
    requires
        prods_fit(v@),
    ensures
        r == prod(v@),
{
    let mut r: usize = 1;
    let mut i: usize = 0;
    proof {
        assert(v@.take(0) =~= Seq::<usize>::empty());
    }
    while i < v.len()
        invariant
            i <= v@.len(),
            prods_fit(v@),
            r == prod(v@.take(i as int)),
        decreases v@.len() - i,
    {
        proof {
            lemma_prod_take_succ(v@, i as int);
            lemma_prod_nonneg(v@.take(i as int));
            assert(prod(v@.take(i + 1)) <= usize::MAX);
        }
        r = r * v[i];
        i = i + 1;
    }
    proof {
        assert(v@.take(v@.len() as int) =~= v@);
    }
    r
}

/// A copy of a dimension list.
pub fn copy_dims(v: &Vec<usize>) -> (r: Vec<usize>)
    ensures
        r@ == v@,
{
    let r = v.clone();
    proof {
        assert(r@ =~= v@);
    }
    r
}

/// The concatenation of two dimension lists.
pub fn concat_dims(a: &Vec<usize>, b: &Vec<usize>) -> (r: Vec<usize>)
    ensures
        r@ == a@ + b@,
{
    let mut r = copy_dims(a);
    let mut i: usize = 0;
    while i < b.len()
        invariant
            i <= b@.len(),
            r@ == a@ + b@.take(i as int),
        decreases b@.len() - i,
    {
        r.push(b[i]);
        i = i + 1;
        proof {
            assert(r@ =~= a@ + b@.take(i as int));
        }
    }
    proof {
        assert(r@ =~= a@ + b@);
    }
    r
}

/// The sublist of `v` from `start` (inclusive) to `end` (exclusive).
pub fn dims_range(v: &Vec<usize>, start: usize, end: usize) -> (r: Vec<usize>)
    requires
        start <= end <= v@.len(),
    ensures
        r@ == v@.subrange(start as int, end as int),
{
    let mut r: Vec<usize> = Vec::new();
    let mut i: usize = start;
    while i < end
        invariant
            start <= i <= end <= v@.len(),
            r@ == v@.subrange(start as int, i as int),
        decreases end - i,
    {
        r.push(v[i]);
        i = i + 1;
        proof {
            assert(r@ =~= v@.subrange(start as int, i as int));
        }
    }
    r
}

/// `v` with `value` inserted at position `at`.
pub fn insert_dim(v: &Vec<usize>, at: usize, value: usize) -> (r: Vec<usize>)
    requires
        at <= v@.len(),
    ensures
        r@ == v@.insert(at as int, value),
{
    let mut r = copy_dims(v);
    r.insert(at, value);
    r
}

/// `v` without the dimension at position `at`.
pub fn remove_dim(v: &Vec<usize>, at: usize) -> (r: Vec<usize>)
    requires
        at < v@.len(),
    ensures
        r@ == v@.remove(at as int),
{
    let mut r = copy_dims(v);
    r.remove(at);
    r
}

/// Whether two dimension lists are equal.
pub fn dims_eq(a: &Vec<usize>, b: &Vec<usize>) -> (r: bool)
    ensures
        r == (a@ == b@),
{
    if a.len() != b.len() {
        return false;
    }
    let mut i: usize = 0;
    while i < a.len()
        invariant
            i <= a@.len(),
            a@.len() == b@.len(),
            forall|m: int| 0 <= m < i ==> a@[m] == b@[m],
        decreases a@.len() - i,
    {
        if a[i] != b[i] {
            return false;
        }
        i = i + 1;
    }
    proof {
        assert(a@ =~= b@);
    }
    true
}

/// Removing the axis just inserted restores the original shape.
pub proof fn lemma_remove_insert_axis(s: Seq<usize>, k: int)
    requires
        0 <= k <= s.len(),
    ensures
        s.insert(k, 1).remove(k) == s,
{
    assert(s.insert(k, 1).remove(k) =~= s);
}

} // verus!
