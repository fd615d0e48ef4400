use crate::scalar::{is_zero, Scalar};
use crate::shape::{
    allocatable, checked_element_count, element_count, lemma_count_split, sample_len, same_shape,
    valid_shape,
};
use vstd::prelude::*;

verus! {

/// The elements `data[start]`, `data[start + step]`, ... : `n` of them.
pub open spec fn strided<T>(data: Seq<T>, start: int, step: int, n: nat) -> Seq<T> {
    Seq::new(n, |k: int| data[start + k * step])
}

/// Sample `b` of a row-major store whose samples have `n` elements each.
pub open spec fn sample_of<T>(data: Seq<T>, n: nat, b: int) -> Seq<T> {
    strided(data, b * n, 1, n)
}

/// What a tensor is: its extents, and its elements in row-major order.
pub struct TensorView<T> {
    pub shape: Seq<usize>,
    pub data: Seq<T>,
}

impl<T> TensorView<T> {
    /// The extents are positive and the number of elements is their product,
    /// a machine size.
    pub open spec fn valid(self) -> bool {
        &&& valid_shape(self.shape)
        &&& self.data.len() == element_count(self.shape)
        &&& self.data.len() <= usize::MAX
    }

    /// The extent of the batch axis.
    pub open spec fn batches(self) -> nat {
        self.shape[0] as nat
    }

    /// The number of elements of one sample.
    pub open spec fn sample_len(self) -> nat {
        sample_len(self.shape)
    }

    /// The elements of sample `b`, flattened: for a matrix, its row `b`.
    pub open spec fn sample(self, b: int) -> Seq<T> {
        sample_of(self.data, self.sample_len(), b)
    }

    /// The number of rows of a matrix.
    pub open spec fn rows(self) -> nat {
        self.shape[0] as nat
    }

    /// The number of columns of a matrix.
    pub open spec fn cols(self) -> nat {
        self.shape[1] as nat
    }

    /// Row `r` of a matrix.
    pub open spec fn row(self, r: int) -> Seq<T> {
        strided(self.data, r * self.cols(), 1, self.cols())
    }

    /// Column `c` of a matrix.
    pub open spec fn column(self, c: int) -> Seq<T> {
        strided(self.data, c, self.cols() as int, self.rows())
    }

    /// The element in row `r` and column `c` of a matrix.
    pub open spec fn at(self, r: int, c: int) -> T {
        self.data[r * self.cols() + c]
    }
}

impl<T: Scalar> TensorView<T> {
    /// Every element is a zero of the element type.
    pub open spec fn all_zero(self) -> bool {
        forall|i: int| 0 <= i < self.data.len() ==> is_zero(#[trigger] self.data[i])
    }
}

/// A cell of a `rows` by `cols` matrix lies inside its row-major storage.
pub proof fn lemma_cell_in_bounds(r: int, c: int, rows: int, cols: int)
    requires
        0 <= r < rows,
        0 <= c < cols,
    ensures
        0 <= r * cols + c < rows * cols,
        r * cols + cols <= rows * cols,
        0 <= r * cols,
{
    assert(0 <= r * cols) by (nonlinear_arith)
        requires
            0 <= r,
            0 <= cols,
    ;
    assert(r * cols + cols <= rows * cols) by (nonlinear_arith)
        requires
            r + 1 <= rows,
            0 <= cols,
    ;
}

/// A matrix has as many elements as rows times columns, and a sample of it is a row.
pub proof fn lemma_matrix_count(shape: Seq<usize>)
    requires
        shape.len() == 2,
    ensures
        sample_len(shape) == shape[1],
        element_count(shape) == (shape[0] as nat) * (shape[1] as nat),
{
    let tail = shape.skip(1);
    assert(element_count(tail.drop_last()) == 1);
    assert(element_count(tail) == 1 * (shape[1] as nat));
    lemma_count_split(shape);
}

/// A vector has as many elements as its one extent.
pub proof fn lemma_vector_count(shape: Seq<usize>)
    requires
        shape.len() == 1,
    ensures
        element_count(shape) == shape[0],
{
    assert(element_count(shape.drop_last()) == 1);
    assert(element_count(shape) == 1 * (shape[0] as nat));
}

/// A dense n-dimensional array, stored in row-major order. Axis 0 is the batch axis.
#[derive(Debug, PartialEq)]
pub struct Tensor<T> {
    shape: Vec<usize>,
    data: Vec<T>,
}

impl<T> View for Tensor<T> {
    type V = TensorView<T>;

    closed spec fn view(&self) -> TensorView<T> {
        TensorView { shape: self.shape@, data: self.data@ }
    }
}

impl<T> Tensor<T> {
    #[verifier::type_invariant]
    closed spec fn wf(&self) -> bool {
        self@.valid()
    }

    /// Puts extents and elements together.
    pub(crate) fn assemble(shape: Vec<usize>, data: Vec<T>) -> (r: Tensor<T>)
        requires
            valid_shape(shape@),
            data@.len() == element_count(shape@),
        ensures
            r@.shape == shape@,
            r@.data == data@,
            r@.valid(),
    {
        let _len = data.len();
        Tensor { shape, data }
    }

    /// The matrix of `rows` by `cols` with the given elements.
    pub(crate) fn matrix(rows: usize, cols: usize, data: Vec<T>) -> (r: Tensor<T>)
        requires
            rows >= 1,
            cols >= 1,
            data@.len() == rows * cols,
        ensures
            r@.shape == seq![rows, cols],
            r@.data == data@,
            r@.valid(),
    {
        let shape = vec![rows, cols];
        proof {
            lemma_matrix_count(shape@);
        }
        Tensor::assemble(shape, data)
    }

    /// The vector with the given elements.
    pub(crate) fn vector(data: Vec<T>) -> (r: Tensor<T>)
        requires
            data@.len() >= 1,
        ensures
            r@.shape == seq![data@.len() as usize],
            r@.data == data@,
            r@.valid(),
    {
        let shape = vec![data.len()];
        proof {
            lemma_vector_count(shape@);
        }
        Tensor::assemble(shape, data)
    }

    /// The tensor with the given extents and elements, where the extents are positive
    /// and their product is the number of elements.
    pub fn from_vec(shape: Vec<usize>, data: Vec<T>) -> (r: Option<Tensor<T>>)
        ensures
            r is Some <==> valid_shape(shape@) && element_count(shape@) == data@.len(),
            r is Some ==> r->Some_0@.shape == shape@ && r->Some_0@.data == data@ && r->Some_0@.valid(),
    {
        let len = data.len();
        match checked_element_count(&shape) {
            Some(n) => {
                if n == len {
                    Some(Tensor { shape, data })
                } else {
                    None
                }
            },
            None => None,
        }
    }

    /// The extents.
    pub fn shape(&self) -> (r: &Vec<usize>)
        ensures
            r@ == self@.shape,
            self@.valid(),
    {
        proof {
            use_type_invariant(self);
        }
        &self.shape
    }

    /// The elements in row-major order.
    pub fn data(&self) -> (r: &Vec<T>)
        ensures
            r@ == self@.data,
            self@.valid(),
    {
        proof {
            use_type_invariant(self);
        }
        &self.data
    }

    /// The number of elements.
    pub fn len(&self) -> (r: usize)
        ensures
            r == self@.data.len(),
            r == element_count(self@.shape),
            self@.valid(),
    {
        proof {
            use_type_invariant(self);
        }
        self.data.len()
    }

    /// The number of axes.
    pub fn rank(&self) -> (r: usize)
        ensures
            r == self@.shape.len(),
            r >= 1,
            self@.valid(),
    {
        proof {
            use_type_invariant(self);
        }
        self.shape.len()
    }

    /// The extent of the batch axis.
    pub fn batches(&self) -> (r: usize)
        ensures
            r == self@.batches(),
            r >= 1,
            self@.valid(),
    {
        proof {
            use_type_invariant(self);
        }
        self.shape[0]
    }

    /// The number of elements of one sample.
    pub fn sample_len(&self) -> (r: usize)
        ensures
            r == self@.sample_len(),
            r >= 1,
            self@.batches() * r == self@.data.len(),
            self@.valid(),
    {
        proof {
            use_type_invariant(self);
            lemma_count_split(self.shape@);
            let b = self.shape@[0] as nat;
            let n = sample_len(self.shape@);
            let len = self.data@.len();
            assert(len >= 1) by {
                crate::shape::lemma_count_positive(self.shape@);
            }
            assert(len / b == n && n >= 1) by (nonlinear_arith)
                requires
                    len == b * n,
                    b >= 1,
                    len >= 1,
            ;
        }
        self.data.len() / self.shape[0]
    }

    /// Whether the other tensor has the same extents.
    pub fn same_shape(&self, other: &Tensor<T>) -> (r: bool)
        ensures
            r == (self@.shape == other@.shape),
    {
        same_shape(&self.shape, &other.shape)
    }

    /// Whether the tensor has exactly these extents.
    pub fn has_shape(&self, shape: &Vec<usize>) -> (r: bool)
        ensures
            r == (self@.shape == shape@),
    {
        same_shape(&self.shape, shape)
    }

    /// The extents and the elements, taken apart.
    pub fn into_parts(self) -> (r: (Vec<usize>, Vec<T>))
        ensures
            r.0@ == self@.shape,
            r.1@ == self@.data,
            self@.valid(),
    {
        proof {
            use_type_invariant(&self);
        }
        (self.shape, self.data)
    }
}

impl<T: Copy> Tensor<T> {
    /// The element at position `i` of the row-major order, where there is one.
    pub fn get(&self, i: usize) -> (r: Option<T>)
        ensures
            r == if i < self@.data.len() {
                Some(self@.data[i as int])
            } else {
                None
            },
    {
        if i < self.data.len() {
            Some(self.data[i])
        } else {
            None
        }
    }

    /// A tensor with the same extents and the same elements.
    pub fn duplicate(&self) -> (r: Tensor<T>)
        ensures
            r@ == self@,
            r@.valid(),
    {
        proof {
            use_type_invariant(self);
        }
        let shape = copy_of(&self.shape);
        let data = copy_of(&self.data);
        let r = Tensor { shape, data };
        r
    }
}

impl<T: Copy> Clone for Tensor<T> {
    fn clone(&self) -> (r: Self)
        ensures
            r@ == self@,
    {
        self.duplicate()
    }
}

impl<T: Scalar> Tensor<T> {
    /// The tensor with the given extents, filled with zeros, where the extents are
    /// positive and their product is a machine size.
    pub fn zeros(shape: Vec<usize>) -> (r: Option<Tensor<T>>)
        ensures
            r is Some <==> allocatable(shape@),
            r is Some ==> r->Some_0@.shape == shape@ && r->Some_0@.valid() && r->Some_0@.all_zero(),
    {
        match checked_element_count(&shape) {
            Some(count) => Some(Tensor::zeros_of(shape, count)),
            None => None,
        }
    }

    /// The tensor with the given extents and `count` elements, all zero.
    fn zeros_of(shape: Vec<usize>, count: usize) -> (r: Tensor<T>)
        requires
            valid_shape(shape@),
            count == element_count(shape@),
        ensures
            r@.shape == shape@,
            r@.valid(),
            r@.all_zero(),
    {
        let mut data: Vec<T> = Vec::new();
        let mut i: usize = 0;
        while i < count
            invariant
                i <= count,
                data@.len() == i,
                forall|k: int| 0 <= k < i ==> is_zero(#[trigger] data@[k]),
            decreases count - i,
        {
            data.push(T::zero());
            i += 1;
        }
        Tensor { shape, data }
    }

    /// The tensor with the given extents, filled with zeros.
    pub(crate) fn zero_tensor(shape: Vec<usize>) -> (r: Tensor<T>)
        requires
            allocatable(shape@),
        ensures
            r@.shape == shape@,
            r@.valid(),
            r@.all_zero(),
    {
        Tensor::zeros(shape).unwrap()
    }

    /// The matrix of `rows` by `cols` zeros.
    pub(crate) fn zero_matrix(rows: usize, cols: usize) -> (r: Tensor<T>)
        requires
            rows >= 1,
            cols >= 1,
            rows * cols <= usize::MAX,
        ensures
            r@.shape == seq![rows, cols],
            r@.valid(),
            r@.all_zero(),
    {
        let shape = vec![rows, cols];
        proof {
            lemma_matrix_count(shape@);
        }
        Tensor::zero_tensor(shape)
    }

    /// The vector of `n` zeros.
    pub(crate) fn zero_vector(n: usize) -> (r: Tensor<T>)
        requires
            n >= 1,
        ensures
            r@.shape == seq![n],
            r@.valid(),
            r@.all_zero(),
    {
        let shape = vec![n];
        proof {
            lemma_vector_count(shape@);
        }
        Tensor::zero_tensor(shape)
    }
}

/// A vector with the same elements.
pub fn copy_of<T: Copy>(source: &Vec<T>) -> (r: Vec<T>)
    ensures
        r@ == source@,
{
    let mut r: Vec<T> = Vec::new();
    let mut i: usize = 0;
    while i < source.len()
        invariant
            i <= source.len(),
            r@.len() == i,
            forall|k: int| 0 <= k < i ==> r@[k] == source@[k],
        decreases source.len() - i,
    {
        r.push(source[i]);
        i += 1;
    }
    r
}

/// Adds the elements of `more` to the end of `out`.
pub fn append_copy<T: Copy>(out: &mut Vec<T>, more: &Vec<T>)
    ensures
        final(out)@ == old(out)@ + more@,
{
    let mut i: usize = 0;
    while i < more.len()
        invariant
            i <= more@.len(),
            out@ == old(out)@ + more@.take(i as int),
        decreases more@.len() - i,
    {
        out.push(more[i]);
        i += 1;
    }
}

} // verus!
