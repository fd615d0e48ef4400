use crate::scalar::{is_difference, is_product, is_sum, is_zero, Scalar};
use crate::tensor::strided;
use vstd::prelude::*;

verus! {

/// `sums` holds what came of adding the terms, first to last, onto `init`:
/// `init` itself, then the result of each addition.
pub open spec fn are_partial_sums<T: Scalar>(init: T, terms: Seq<T>, sums: Seq<T>) -> bool {
    &&& sums.len() == terms.len() + 1
    &&& sums[0] == init
    &&& forall|k: int| 0 <= k < terms.len() ==> is_sum(sums[k], #[trigger] terms[k], sums[k + 1])
}

/// `r` is what came of adding the terms, first to last, onto `init`.
pub open spec fn accumulates<T: Scalar>(init: T, terms: Seq<T>, r: T) -> bool {
    exists|sums: Seq<T>| #[trigger] are_partial_sums(init, terms, sums) && sums.last() == r
}

/// `r` is what came of adding the terms, first to last, onto a zero.
pub open spec fn is_total<T: Scalar>(terms: Seq<T>, r: T) -> bool {
    exists|z: T| is_zero(z) && #[trigger] accumulates(z, terms, r)
}

/// `ps[k]` is the product of `xs[k]` and `ys[k]`, for every `k`.
pub open spec fn are_products<T: Scalar>(xs: Seq<T>, ys: Seq<T>, ps: Seq<T>) -> bool {
    &&& xs.len() == ps.len()
    &&& ys.len() == ps.len()
    &&& forall|k: int| 0 <= k < ps.len() ==> is_product(xs[k], ys[k], #[trigger] ps[k])
}

/// `r` is the total of the products of `xs` and `ys`, element by element.
pub open spec fn is_dot<T: Scalar>(xs: Seq<T>, ys: Seq<T>, r: T) -> bool {
    exists|ps: Seq<T>| #[trigger] are_products(xs, ys, ps) && is_total(ps, r)
}

/// `ps[k]` is the product of `xs[k]` and `factor`, for every `k`.
pub open spec fn are_scaled<T: Scalar>(xs: Seq<T>, factor: T, ps: Seq<T>) -> bool {
    &&& xs.len() == ps.len()
    &&& forall|k: int| 0 <= k < ps.len() ==> is_product(xs[k], factor, #[trigger] ps[k])
}

/// `r` is the total of the elements of `xs`, each multiplied by `factor` before it is added.
pub open spec fn is_scaled_total<T: Scalar>(xs: Seq<T>, factor: T, r: T) -> bool {
    exists|ps: Seq<T>| #[trigger] are_scaled(xs, factor, ps) && is_total(ps, r)
}

/// `rs[k]` is the difference of `xs[k]` and `ys[k]`, for every `k`.
pub open spec fn are_differences<T: Scalar>(xs: Seq<T>, ys: Seq<T>, rs: Seq<T>) -> bool {
    &&& xs.len() == rs.len()
    &&& ys.len() == rs.len()
    &&& forall|k: int| 0 <= k < rs.len() ==> is_difference(xs[k], ys[k], #[trigger] rs[k])
}

/// Nothing added onto `init` leaves `init`.
pub proof fn lemma_accumulate_empty<T: Scalar>(init: T)
    ensures
        accumulates(init, Seq::<T>::empty(), init),
{
    let sums = seq![init];
    assert(are_partial_sums(init, Seq::<T>::empty(), sums) && sums.last() == init);
}

/// One more term, added onto an accumulation, gives the accumulation of the longer sequence.
pub proof fn lemma_accumulate_push<T: Scalar>(init: T, terms: Seq<T>, acc: T, term: T, next: T)
    requires
        accumulates(init, terms, acc),
        is_sum(acc, term, next),
    ensures
        accumulates(init, terms.push(term), next),
{
    let sums = choose|sums: Seq<T>| #[trigger] are_partial_sums(init, terms, sums) && sums.last() == acc;
    let longer = terms.push(term);
    let more = sums.push(next);
    assert forall|k: int| 0 <= k < longer.len() implies is_sum(
        more[k],
        #[trigger] longer[k],
        more[k + 1],
    ) by {
        if k < terms.len() {
        }
    }
    assert(are_partial_sums(init, longer, more) && more.last() == next);
}

/// The elements `start`, `start + step`, ... of a vector all lie inside it.
pub open spec fn strided_in_bounds(len: nat, start: usize, step: usize, n: usize) -> bool {
    &&& len <= usize::MAX
    &&& n > 0 ==> start + (n - 1) * step < len
}

/// Element `k` of a strided run that stays in bounds lies inside the vector.
pub proof fn lemma_strided_index(len: nat, start: usize, step: usize, n: usize, k: int)
    requires
        strided_in_bounds(len, start, step, n),
        0 <= k < n,
    ensures
        0 <= k * step <= (n - 1) * step,
        0 <= start + k * step < len,
{
    assert(0 <= k * step <= (n - 1) * step) by (nonlinear_arith)
        requires
            0 <= k <= n - 1,
            0 <= step,
    ;
}

/// The total of the products of two strided runs of `n` elements.
pub(crate) fn dot<T: Scalar>(
    a: &Vec<T>,
    a_start: usize,
    a_step: usize,
    b: &Vec<T>,
    b_start: usize,
    b_step: usize,
    n: usize,
) -> (r: T)
    requires
        strided_in_bounds(a@.len(), a_start, a_step, n),
        strided_in_bounds(b@.len(), b_start, b_step, n),
    ensures
        is_dot(
            strided(a@, a_start as int, a_step as int, n as nat),
            strided(b@, b_start as int, b_step as int, n as nat),
            r,
        ),
{
    let z = T::zero();
    let mut acc = z;
    let mut k: usize = 0;
    let ghost mut ps: Seq<T> = Seq::empty();
    proof {
        lemma_accumulate_empty(z);
    }
    while k < n
        invariant
            k <= n,
            strided_in_bounds(a@.len(), a_start, a_step, n),
            strided_in_bounds(b@.len(), b_start, b_step, n),
            is_zero(z),
            ps.len() == k,
            forall|i: int|
                0 <= i < k ==> is_product(
                    a@[a_start + i * a_step],
                    b@[b_start + i * b_step],
                    #[trigger] ps[i],
                ),
            accumulates(z, ps, acc),
        decreases n - k,
    {
        proof {
            lemma_strided_index(a@.len(), a_start, a_step, n, k as int);
            lemma_strided_index(b@.len(), b_start, b_step, n, k as int);
        }
        let x = a[a_start + k * a_step];
        let y = b[b_start + k * b_step];
        let p = x.mul(y);
        let next = acc.add(p);
        proof {
            lemma_accumulate_push(z, ps, acc, p, next);
            ps = ps.push(p);
        }
        acc = next;
        k += 1;
    }
    proof {
        let xs = strided(a@, a_start as int, a_step as int, n as nat);
        let ys = strided(b@, b_start as int, b_step as int, n as nat);
        assert(are_products(xs, ys, ps) && is_total(ps, acc));
    }
    acc
}

/// The total of a strided run of `n` elements, each multiplied by `factor` before it is added.
pub(crate) fn scaled_total<T: Scalar>(a: &Vec<T>, start: usize, step: usize, n: usize, factor: T) -> (r: T)
    requires
        strided_in_bounds(a@.len(), start, step, n),
    ensures
        is_scaled_total(strided(a@, start as int, step as int, n as nat), factor, r),
{
    let z = T::zero();
    let mut acc = z;
    let mut k: usize = 0;
    let ghost mut ps: Seq<T> = Seq::empty();
    proof {
        lemma_accumulate_empty(z);
    }
    while k < n
        invariant
            k <= n,
            strided_in_bounds(a@.len(), start, step, n),
            is_zero(z),
            ps.len() == k,
            forall|i: int| 0 <= i < k ==> is_product(a@[start + i * step], factor, #[trigger] ps[i]),
            accumulates(z, ps, acc),
        decreases n - k,
    {
        proof {
            lemma_strided_index(a@.len(), start, step, n, k as int);
        }
        let p = a[start + k * step].mul(factor);
        let next = acc.add(p);
        proof {
            lemma_accumulate_push(z, ps, acc, p, next);
            ps = ps.push(p);
        }
        acc = next;
        k += 1;
    }
    proof {
        let xs = strided(a@, start as int, step as int, n as nat);
        assert(are_scaled(xs, factor, ps) && is_total(ps, acc));
    }
    acc
}

/// The differences of two vectors of one length, element by element.
pub(crate) fn differences<T: Scalar>(a: &Vec<T>, b: &Vec<T>) -> (r: Vec<T>)
    requires
        a@.len() == b@.len(),
    ensures
        are_differences(a@, b@, r@),
{
    let mut r: Vec<T> = Vec::new();
    let mut k: usize = 0;
    while k < a.len()
        invariant
            k <= a@.len(),
            a@.len() == b@.len(),
            r@.len() == k,
            forall|i: int| 0 <= i < k ==> is_difference(a@[i], b@[i], #[trigger] r@[i]),
        decreases a@.len() - k,
    {
        r.push(a[k].sub(b[k]));
        k += 1;
    }
    r
}

/// The total of the elements of a vector, added first to last onto a zero.
pub fn total<T: Scalar>(terms: &Vec<T>) -> (r: T)
    ensures
        is_total(terms@, r),
{
    let z = T::zero();
    let mut acc = z;
    let mut k: usize = 0;
    proof {
        lemma_accumulate_empty(z);
        assert(terms@.take(0) =~= Seq::<T>::empty());
    }
    while k < terms.len()
        invariant
            k <= terms@.len(),
            is_zero(z),
            accumulates(z, terms@.take(k as int), acc),
        decreases terms@.len() - k,
    {
        let next = acc.add(terms[k]);
        proof {
            lemma_accumulate_push(z, terms@.take(k as int), acc, terms@[k as int], next);
            assert(terms@.take(k as int).push(terms@[k as int]) =~= terms@.take(k + 1));
        }
        acc = next;
        k += 1;
    }
    proof {
        assert(terms@.take(terms@.len() as int) =~= terms@);
    }
    acc
}

} // verus!
