use vstd::prelude::*;

verus! {

/// Number of elements of a tensor with the given extents: their product.
pub open spec fn element_count(shape: Seq<usize>) -> nat
    decreases shape.len(),
{
    if shape.len() == 0 {
        1
    } else {
        element_count(shape.drop_last()) * (shape.last() as nat)
    }
}

/// A shape has at least the batch axis, and every extent is positive.
pub open spec fn valid_shape(shape: Seq<usize>) -> bool {
    &&& shape.len() >= 1
    &&& forall|i: int| 0 <= i < shape.len() ==> #[trigger] shape[i] >= 1
}

/// The shape with its batch extent replaced.
pub open spec fn with_batch(shape: Seq<usize>, batches: usize) -> Seq<usize> {
    shape.update(0, batches)
}

/// Number of elements of one sample: the product of the extents after the batch axis.
pub open spec fn sample_len(shape: Seq<usize>) -> nat {
    element_count(shape.skip(1))
}

/// A shape is valid and its element count is a machine size.
pub open spec fn allocatable(shape: Seq<usize>) -> bool {
    valid_shape(shape) && element_count(shape) <= usize::MAX
}

/// Positive extents have a positive product.
pub proof fn lemma_count_positive(shape: Seq<usize>)
    requires
        forall|i: int| 0 <= i < shape.len() ==> #[trigger] shape[i] >= 1,
    ensures
        element_count(shape) >= 1,
    decreases shape.len(),
{
    if shape.len() > 0 {
        lemma_count_positive(shape.drop_last());
        assert(element_count(shape.drop_last()) * (shape.last() as nat) >= 1) by (nonlinear_arith)
            requires
                element_count(shape.drop_last()) >= 1,
                shape.last() as nat >= 1,
        ;
    }
}

/// Taking more leading extents of a shape with positive extents never lowers the count.
pub proof fn lemma_count_prefix(shape: Seq<usize>, k: int)
    requires
        forall|i: int| 0 <= i < shape.len() ==> #[trigger] shape[i] >= 1,
        0 <= k <= shape.len(),
    ensures
        element_count(shape.take(k)) <= element_count(shape),
    decreases shape.len() - k,
{
    if k == shape.len() {
        assert(shape.take(k) =~= shape);
    } else {
        lemma_count_prefix(shape, k + 1);
        let longer = shape.take(k + 1);
        assert(longer.drop_last() =~= shape.take(k));
        assert(element_count(shape.take(k)) <= element_count(shape.take(k)) * (shape[k] as nat))
            by (nonlinear_arith)
            requires
                shape[k] as nat >= 1,
        ;
    }
}

/// The count of a shape is its batch extent times the length of one sample.
pub proof fn lemma_count_split(shape: Seq<usize>)
    requires
        shape.len() >= 1,
    ensures
        element_count(shape) == (shape[0] as nat) * sample_len(shape),
    decreases shape.len(),
{
    if shape.len() == 1 {
        assert(element_count(shape.drop_last()) == 1);
        assert(element_count(shape) == 1 * (shape[0] as nat));
        assert((shape[0] as nat) * sample_len(shape) == shape[0] as nat) by (nonlinear_arith)
            requires
                sample_len(shape) == 1,
        ;
    } else {
        let front = shape.drop_last();
        let tail = shape.skip(1);
        lemma_count_split(front);
        assert(front.skip(1) =~= tail.drop_last());
        let b = shape[0] as nat;
        let m = element_count(tail.drop_last());
        let l = shape.last() as nat;
        assert(element_count(shape) == element_count(front) * l);
        assert((b * m) * l == b * (m * l)) by (nonlinear_arith);
    }
}

/// Replacing the batch extent keeps the length of one sample.
pub proof fn lemma_with_batch(shape: Seq<usize>, batches: usize)
    requires
        shape.len() >= 1,
    ensures
        sample_len(with_batch(shape, batches)) == sample_len(shape),
        element_count(with_batch(shape, batches)) == (batches as nat) * sample_len(shape),
        valid_shape(shape) && batches >= 1 ==> valid_shape(with_batch(shape, batches)),
{
    assert(with_batch(shape, batches).skip(1) =~= shape.skip(1));
    lemma_count_split(with_batch(shape, batches));
}

/// Whether the extents form a valid shape.
pub fn is_valid_shape(shape: &Vec<usize>) -> (r: bool)
    ensures
        r == valid_shape(shape@),
{
    if shape.len() == 0 {
        return false;
    }
    let mut i: usize = 0;
    while i < shape.len()
        invariant
            i <= shape.len(),
            forall|k: int| 0 <= k < i ==> #[trigger] shape@[k] >= 1,
        decreases shape.len() - i,
    {
        if shape[i] == 0 {
            return false;
        }
        i += 1;
    }
    true
}

/// The element count of a shape, where the shape is valid and the count is a machine size.
pub fn checked_element_count(shape: &Vec<usize>) -> (r: Option<usize>)
    ensures
        r is Some <==> allocatable(shape@),
        r is Some ==> r->Some_0 == element_count(shape@),
{
    if !is_valid_shape(shape) {
        return None;
    }
    let mut count: usize = 1;
    let mut i: usize = 0;
    while i < shape.len()
        invariant
            i <= shape.len(),
            valid_shape(shape@),
            count == element_count(shape@.take(i as int)),
        decreases shape.len() - i,
    {
        proof {
            let longer = shape@.take(i + 1);
            assert(longer.drop_last() =~= shape@.take(i as int));
            lemma_count_prefix(shape@, i + 1);
        }
        match count.checked_mul(shape[i]) {
            Some(next) => {
                count = next;
            },
            None => {
                return None;
            },
        }
        i += 1;
    }
    proof {
        assert(shape@.take(shape.len() as int) =~= shape@);
    }
    Some(count)
}

/// Whether two shapes have the same rank and the same extents.
pub fn same_shape(a: &Vec<usize>, b: &Vec<usize>) -> (r: bool)
    ensures
        r == (a@ == b@),
{
    if a.len() != b.len() {
        return false;
    }
    let mut i: usize = 0;
    while i < a.len()
        invariant
            i <= a.len(),
            a.len() == b.len(),
            forall|k: int| 0 <= k < i ==> a@[k] == b@[k],
        decreases a.len() - i,
    {
        if a[i] != b[i] {
            return false;
        }
        i += 1;
    }
    proof {
        assert(a@ =~= b@);
    }
    true
}

} // verus!
