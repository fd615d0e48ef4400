use crate::error::LayerError;
use crate::reduce::{
    accumulates, is_total, lemma_accumulate_empty, lemma_accumulate_push, total,
};
use crate::scalar::{
    is_difference, is_epsilon, is_exp, is_less, is_negation, is_one, is_positive, is_product,
    is_quotient, is_sum, is_zero, positive, Scalar,
};
use crate::shape::{allocatable, is_valid_shape, lemma_with_batch, valid_shape, with_batch};
use crate::tensor::{
    append_copy, copy_of, lemma_cell_in_bounds, sample_of, strided, Tensor, TensorView,
};
use vstd::prelude::*;

verus! {

/// How a softmax layer is to be built.
pub struct SoftmaxLayer<T> {
    /// The temperature by which inputs are divided; one where none is given.
    pub temperature: Option<T>,
}

/// `r` is the larger of `a` and `b`: `b` where the comparison called `a` less, else `a`.
pub open spec fn is_larger<T: Scalar>(a: T, b: T, r: T) -> bool {
    exists|answer: bool| #[trigger] is_less(a, b, answer) && r == if answer {
        b
    } else {
        a
    }
}

/// `ms[k]` is the largest of the first `k + 1` elements of `xs`, found first to last.
pub open spec fn are_running_maxima<T: Scalar>(xs: Seq<T>, ms: Seq<T>) -> bool {
    &&& xs.len() >= 1
    &&& ms.len() == xs.len()
    &&& ms[0] == xs[0]
    &&& forall|k: int| 1 <= k < xs.len() ==> is_larger(ms[k - 1], #[trigger] xs[k], ms[k])
}

/// `m` is the largest element of `xs`, found first to last.
pub open spec fn is_maximum<T: Scalar>(xs: Seq<T>, m: T) -> bool {
    exists|ms: Seq<T>| #[trigger] are_running_maxima(xs, ms) && ms.last() == m
}

/// `rs[i]` is `xs[i]` divided by `d`, for every `i`.
pub open spec fn are_quotients<T: Scalar>(xs: Seq<T>, d: T, rs: Seq<T>) -> bool {
    &&& rs.len() == xs.len()
    &&& forall|i: int| 0 <= i < rs.len() ==> is_quotient(xs[i], d, #[trigger] rs[i])
}

/// `rs[i]` is `xs[i]` less `m`, for every `i`.
pub open spec fn are_shifted<T: Scalar>(xs: Seq<T>, m: T, rs: Seq<T>) -> bool {
    &&& rs.len() == xs.len()
    &&& forall|i: int| 0 <= i < rs.len() ==> is_difference(xs[i], m, #[trigger] rs[i])
}

/// `rs[i]` is the exponential of `xs[i]`, for every `i`.
pub open spec fn are_exps<T: Scalar>(xs: Seq<T>, rs: Seq<T>) -> bool {
    &&& rs.len() == xs.len()
    &&& forall|i: int| 0 <= i < rs.len() ==> is_exp(xs[i], #[trigger] rs[i])
}

/// The steps from a row `xs` to its softmax `ys`: divide by the temperature, take off
/// the largest, exponentiate, and divide by the total plus epsilon.
pub open spec fn softmax_steps<T: Scalar>(
    temperature: T,
    xs: Seq<T>,
    scaled: Seq<T>,
    m: T,
    shifted: Seq<T>,
    es: Seq<T>,
    sum: T,
    eps: T,
    denominator: T,
    ys: Seq<T>,
) -> bool {
    &&& are_quotients(xs, temperature, scaled)
    &&& is_maximum(scaled, m)
    &&& are_shifted(scaled, m, shifted)
    &&& are_exps(shifted, es)
    &&& is_total(es, sum)
    &&& is_epsilon(eps)
    &&& is_sum(sum, eps, denominator)
    &&& are_quotients(es, denominator, ys)
}

/// `ys` is the softmax of the row `xs` at the given temperature.
pub open spec fn is_softmax<T: Scalar>(temperature: T, xs: Seq<T>, ys: Seq<T>) -> bool {
    exists|scaled: Seq<T>, m: T, shifted: Seq<T>, es: Seq<T>, sum: T, eps: T, denominator: T| #[trigger]
        softmax_steps(temperature, xs, scaled, m, shifted, es, sum, eps, denominator, ys)
}

/// The steps to a term on the diagonal of the Jacobian: `(out − out²) · g`.
pub open spec fn diagonal_steps<T: Scalar>(out: T, g: T, square: T, slope: T, term: T) -> bool {
    &&& is_product(out, out, square)
    &&& is_difference(out, square, slope)
    &&& is_product(slope, g, term)
}

/// The steps to a term off the diagonal of the Jacobian: `(−(out_y · out_x)) · g`.
pub open spec fn off_diagonal_steps<T: Scalar>(out_y: T, out_x: T, g: T, both: T, minus: T, term: T) -> bool {
    &&& is_product(out_y, out_x, both)
    &&& is_negation(both, minus)
    &&& is_product(minus, g, term)
}

/// `term` is what position `x` adds to the gradient at position `y` of one row, where
/// `same` says whether the two positions are one.
pub open spec fn is_jacobian_term<T: Scalar>(out_y: T, out_x: T, g: T, same: bool, term: T) -> bool {
    if same {
        exists|square: T, slope: T| #[trigger] diagonal_steps(out_y, g, square, slope, term)
    } else {
        exists|both: T, minus: T| #[trigger] off_diagonal_steps(out_y, out_x, g, both, minus, term)
    }
}

/// `terms[x]` is what position `x` adds to the gradient at position `y`, for every `x`.
pub open spec fn are_jacobian_terms<T: Scalar>(outs: Seq<T>, gs: Seq<T>, y: int, terms: Seq<T>) -> bool {
    &&& terms.len() == outs.len()
    &&& forall|x: int|
        0 <= x < terms.len() ==> is_jacobian_term(outs[y], outs[x], gs[x], x == y, #[trigger] terms[x])
}

/// `r` is the gradient at position `y` of one row: the total, over every position
/// `x` of the row, of the Jacobian's term for `(y, x)`.
pub open spec fn is_softmax_gradient<T: Scalar>(outs: Seq<T>, gs: Seq<T>, y: int, r: T) -> bool {
    exists|terms: Seq<T>| #[trigger] are_jacobian_terms(outs, gs, y, terms) && is_total(terms, r)
}

/// `rs` is the gradient by the inputs of one row, from its softmax `outs` and the
/// gradient `gs` by its outputs.
pub open spec fn is_row_gradient<T: Scalar>(outs: Seq<T>, gs: Seq<T>, rs: Seq<T>) -> bool {
    &&& rs.len() == outs.len()
    &&& forall|y: int| 0 <= y < rs.len() ==> is_softmax_gradient(outs, gs, y, #[trigger] rs[y])
}

/// The larger of two elements.
pub fn larger<T: Scalar>(a: T, b: T) -> (r: T)
    ensures
        is_larger(a, b, r),
{
    let answer = a.less_than(b);
    let r = if answer {
        b
    } else {
        a
    };
    assert(is_less(a, b, answer) && r == if answer {
        b
    } else {
        a
    });
    r
}

/// The largest element of a vector that is not empty.
pub(crate) fn maximum<T: Scalar>(xs: &Vec<T>) -> (m: T)
    requires
        xs@.len() >= 1,
    ensures
        is_maximum(xs@, m),
{
    let mut m = xs[0];
    let ghost mut ms: Seq<T> = seq![m];
    let mut i: usize = 1;
    while i < xs.len()
        invariant
            1 <= i <= xs@.len(),
            ms.len() == i,
            ms[0] == xs@[0],
            ms.last() == m,
            forall|k: int| 1 <= k < i ==> is_larger(ms[k - 1], #[trigger] xs@[k], ms[k]),
        decreases xs@.len() - i,
    {
        let next = larger(m, xs[i]);
        proof {
            ms = ms.push(next);
        }
        m = next;
        i += 1;
    }
    proof {
        assert(are_running_maxima(xs@, ms) && ms.last() == m);
    }
    m
}

/// The softmax of the `n` elements of `x` that start at `start`.
pub(crate) fn softmax_row<T: Scalar>(x: &Vec<T>, start: usize, n: usize, temperature: T) -> (ys: Vec<T>)
    requires
        n >= 1,
        start + n <= x@.len(),
    ensures
        ys@.len() == n,
        is_softmax(temperature, strided(x@, start as int, 1, n as nat), ys@),
{
    let ghost xs = strided(x@, start as int, 1, n as nat);
    let len = x.len();
    let mut scaled: Vec<T> = Vec::new();
    let mut i: usize = 0;
    while i < n
        invariant
            i <= n,
            start + n <= x@.len(),
            x@.len() == len,
            xs == strided(x@, start as int, 1, n as nat),
            scaled@.len() == i,
            forall|k: int| 0 <= k < i ==> is_quotient(xs[k], temperature, #[trigger] scaled@[k]),
        decreases n - i,
    {
        scaled.push(x[start + i].div(temperature));
        i += 1;
    }
    let m = maximum(&scaled);
    let mut shifted: Vec<T> = Vec::new();
    let mut es: Vec<T> = Vec::new();
    let mut i: usize = 0;
    while i < n
        invariant
            i <= n,
            scaled@.len() == n,
            shifted@.len() == i,
            es@.len() == i,
            forall|k: int| 0 <= k < i ==> is_difference(scaled@[k], m, #[trigger] shifted@[k]),
            forall|k: int| 0 <= k < i ==> is_exp(shifted@[k], #[trigger] es@[k]),
        decreases n - i,
    {
        let s = scaled[i].sub(m);
        shifted.push(s);
        es.push(s.exp());
        i += 1;
    }
    let sum = total(&es);
    let eps = T::epsilon();
    let denominator = sum.add(eps);
    let mut ys: Vec<T> = Vec::new();
    let mut i: usize = 0;
    while i < n
        invariant
            i <= n,
            es@.len() == n,
            ys@.len() == i,
            forall|k: int| 0 <= k < i ==> is_quotient(es@[k], denominator, #[trigger] ys@[k]),
        decreases n - i,
    {
        ys.push(es[i].div(denominator));
        i += 1;
    }
    proof {
        assert(softmax_steps(
            temperature,
            xs,
            scaled@,
            m,
            shifted@,
            es@,
            sum,
            eps,
            denominator,
            ys@,
        ));
    }
    ys
}

/// What position `x` adds to the gradient at position `y` of one row.
pub fn jacobian_term<T: Scalar>(out_y: T, out_x: T, g: T, same: bool) -> (term: T)
    ensures
        is_jacobian_term(out_y, out_x, g, same, term),
{
    if same {
        let square = out_y.mul(out_y);
        let slope = out_y.sub(square);
        let term = slope.mul(g);
        assert(diagonal_steps(out_y, g, square, slope, term));
        term
    } else {
        let both = out_y.mul(out_x);
        let minus = both.neg();
        let term = minus.mul(g);
        assert(off_diagonal_steps(out_y, out_x, g, both, minus, term));
        term
    }
}

/// The gradient by the inputs of the row of `n` elements that starts at `start`,
/// from the softmax `outs` and the gradient `gs` by the outputs.
pub(crate) fn softmax_gradient_row<T: Scalar>(outs: &Vec<T>, gs: &Vec<T>, start: usize, n: usize) -> (rs: Vec<T>)
    requires
        start + n <= outs@.len(),
        outs@.len() == gs@.len(),
    ensures
        rs@.len() == n,
        is_row_gradient(
            strided(outs@, start as int, 1, n as nat),
            strided(gs@, start as int, 1, n as nat),
            rs@,
        ),
{
    let ghost row = strided(outs@, start as int, 1, n as nat);
    let ghost grads = strided(gs@, start as int, 1, n as nat);
    let len = outs.len();
    let mut rs: Vec<T> = Vec::new();
    let mut y: usize = 0;
    while y < n
        invariant
            y <= n,
            start + n <= outs@.len(),
            outs@.len() == len,
            outs@.len() == gs@.len(),
            row == strided(outs@, start as int, 1, n as nat),
            grads == strided(gs@, start as int, 1, n as nat),
            rs@.len() == y,
            forall|k: int| 0 <= k < y ==> is_softmax_gradient(row, grads, k, #[trigger] rs@[k]),
        decreases n - y,
    {
        let z = T::zero();
        let mut acc = z;
        let ghost mut terms: Seq<T> = Seq::empty();
        let mut x: usize = 0;
        proof {
            lemma_accumulate_empty(z);
        }
        while x < n
            invariant
                x <= n,
                y < n,
                start + n <= outs@.len(),
                outs@.len() == len,
                outs@.len() == gs@.len(),
                row == strided(outs@, start as int, 1, n as nat),
                grads == strided(gs@, start as int, 1, n as nat),
                is_zero(z),
                terms.len() == x,
                forall|k: int|
                    0 <= k < x ==> is_jacobian_term(
                        row[y as int],
                        row[k],
                        grads[k],
                        k == y,
                        #[trigger] terms[k],
                    ),
                accumulates(z, terms, acc),
            decreases n - x,
        {
            let term = jacobian_term(outs[start + y], outs[start + x], gs[start + x], x == y);
            let next = acc.add(term);
            proof {
                lemma_accumulate_push(z, terms, acc, term, next);
                terms = terms.push(term);
            }
            acc = next;
            x += 1;
        }
        proof {
            assert(are_jacobian_terms(row, grads, y as int, terms) && is_total(terms, acc));
        }
        rs.push(acc);
        y += 1;
    }
    rs
}

/// `t` is the temperature that a layer built from `given` works at.
pub open spec fn is_temperature<T: Scalar>(given: Option<T>, t: T) -> bool {
    match given {
        Some(g) => t == g,
        None => is_one(t),
    }
}

/// `t` is the temperature that a layer built from `given` works at, and `answer` is
/// what the comparison with zero said of it.
pub open spec fn is_admission<T: Scalar>(given: Option<T>, t: T, answer: bool) -> bool {
    is_temperature(given, t) && is_positive(t, answer)
}

/// Every sample of `out` is the softmax of the same sample of `inputs`.
pub open spec fn are_softmax_rows<T: Scalar>(temperature: T, inputs: TensorView<T>, out: TensorView<T>) -> bool {
    &&& out.valid()
    &&& out.shape == inputs.shape
    &&& forall|b: int|
        0 <= b < inputs.batches() ==> is_softmax(temperature, inputs.sample(b), #[trigger] out.sample(b))
}

/// Every sample of `d_inputs` is the gradient by the inputs of that sample, from the
/// softmax `outputs` and the gradient `d_outputs` by the outputs.
pub open spec fn are_row_gradients<T: Scalar>(
    outputs: TensorView<T>,
    d_outputs: TensorView<T>,
    d_inputs: TensorView<T>,
) -> bool {
    &&& d_inputs.valid()
    &&& d_inputs.shape == outputs.shape
    &&& forall|b: int|
        0 <= b < outputs.batches() ==> is_row_gradient(
            outputs.sample(b),
            d_outputs.sample(b),
            #[trigger] d_inputs.sample(b),
        )
}

/// A store that `more` was appended to has `more` as its next sample and keeps the
/// samples it had.
pub proof fn lemma_append_sample<T>(out: Seq<T>, more: Seq<T>, n: nat, b: int)
    requires
        0 <= b,
        out.len() == b * n,
        more.len() == n,
    ensures
        sample_of(out + more, n, b) == more,
        forall|k: int| 0 <= k < b ==> #[trigger] sample_of(out + more, n, k) == sample_of(out, n, k),
{
    assert forall|k: int| 0 <= k < b implies #[trigger] sample_of(out + more, n, k) == sample_of(
        out,
        n,
        k,
    ) by {
        if n > 0 {
            lemma_cell_in_bounds(k, 0, b, n as int);
        }
    }
}

/// What a softmax layer holds.
pub struct SoftmaxView<T> {
    /// The output of the last forward step.
    pub outputs: TensorView<T>,
    /// The temperature by which inputs are divided.
    pub temperature: T,
}

/// A layer that turns every sample into its softmax: exponentials, normalised to sum
/// to one.
#[derive(Debug)]
pub struct SoftmaxCPULayer<T> {
    outputs: Tensor<T>,
    temperature: T,
}

impl<T> View for SoftmaxCPULayer<T> {
    type V = SoftmaxView<T>;

    closed spec fn view(&self) -> SoftmaxView<T> {
        SoftmaxView { outputs: self.outputs@, temperature: self.temperature }
    }
}

impl<T> SoftmaxCPULayer<T> {
    #[verifier::type_invariant]
    closed spec fn wf(&self) -> bool {
        self.outputs@.valid()
    }
}

/// `r` is what building a layer for tensors of shape `size` gives, where the
/// comparison with zero said `answer` of the temperature `t`.
pub open spec fn is_made<T: Scalar>(
    size: Seq<usize>,
    t: T,
    answer: bool,
    r: Result<SoftmaxCPULayer<T>, LayerError>,
) -> bool {
    if answer {
        &&& r is Ok
        &&& r->Ok_0@.temperature == t
        &&& r->Ok_0@.outputs.valid()
        &&& r->Ok_0@.outputs.shape == size
        &&& r->Ok_0@.outputs.all_zero()
    } else {
        r is Err && r->Err_0 == LayerError::InvalidConfig
    }
}

impl<T: Scalar> SoftmaxCPULayer<T> {
    /// A layer for tensors of shape `size`, with an output buffer of zeros, at the
    /// temperature of `config`, or at one where it gives none.
    ///
    /// Fails with `InvalidConfig` where `size` is empty or holds a zero, and where the
    /// temperature is not positive.
    pub fn new(config: SoftmaxLayer<T>, size: Vec<usize>) -> (r: Result<Self, LayerError>)
        requires
            valid_shape(size@) ==> allocatable(size@),
        ensures
            !valid_shape(size@) ==> r is Err && r->Err_0 == LayerError::InvalidConfig,
            valid_shape(size@) ==> exists|t: T, answer: bool| #[trigger]
                is_admission(config.temperature, t, answer) && is_made(size@, t, answer, r),
    {
        if !is_valid_shape(&size) {
            return Err(LayerError::InvalidConfig);
        }
        let temperature = match config.temperature {
            Some(given) => given,
            None => T::one(),
        };
        let answer = positive(temperature);
        let r = if answer {
            Ok(SoftmaxCPULayer { outputs: Tensor::zero_tensor(size), temperature })
        } else {
            Err(LayerError::InvalidConfig)
        };
        proof {
            assert(is_admission(config.temperature, temperature, answer) && is_made(
                size@,
                temperature,
                answer,
                r,
            ));
        }
        r
    }

    /// The shape of the output buffer.
    pub fn output_size(&self) -> (r: Vec<usize>)
        ensures
            r@ == self@.outputs.shape,
            self@.outputs.valid(),
    {
        copy_of(self.outputs.shape())
    }

    /// The output of the last forward step.
    pub fn outputs(&self) -> (r: &Tensor<T>)
        ensures
            r@ == self@.outputs,
            self@.outputs.valid(),
    {
        proof {
            use_type_invariant(self);
        }
        &self.outputs
    }

    /// The temperature by which inputs are divided.
    pub fn temperature(&self) -> (r: T)
        ensures
            r == self@.temperature,
    {
        self.temperature
    }

    /// Makes the layer ready for batches of `batches` samples: the output buffer has
    /// its batch extent replaced, its other extents kept, and is zero.
    ///
    /// Fails with `InvalidConfig`, and changes nothing, where `batches` is zero.
    pub fn reset(&mut self, batches: usize) -> (r: Result<(), LayerError>)
        requires
            batches * old(self)@.outputs.sample_len() <= usize::MAX,
        ensures
            final(self)@.outputs.valid(),
            final(self)@.temperature == old(self)@.temperature,
            batches == 0 ==> r is Err && r->Err_0 == LayerError::InvalidConfig && final(self)@
                == old(self)@,
            batches != 0 ==> r is Ok && final(self)@.outputs.shape == with_batch(
                old(self)@.outputs.shape,
                batches,
            ) && final(self)@.outputs.all_zero(),
    {
        proof {
            use_type_invariant(&*self);
        }
        if batches == 0 {
            return Err(LayerError::InvalidConfig);
        }
        let mut shape = copy_of(self.outputs.shape());
        shape.set(0, batches);
        proof {
            lemma_with_batch(self.outputs@.shape, batches);
        }
        self.outputs = Tensor::zero_tensor(shape);
        Ok(())
    }

    /// One forward step: returns the softmax of every sample of `inputs`, and keeps
    /// it for the backward step.
    pub fn forward_propagate(&mut self, inputs: Tensor<T>) -> (r: Tensor<T>)
        ensures
            are_softmax_rows(old(self)@.temperature, inputs@, r@),
            final(self)@.outputs == r@,
            final(self)@.temperature == old(self)@.temperature,
    {
        let batches = inputs.batches();
        let n = inputs.sample_len();
        let x = inputs.data();
        let temperature = self.temperature;
        let mut out: Vec<T> = Vec::new();
        let mut b: usize = 0;
        while b < batches
            invariant
                b <= batches,
                n >= 1,
                batches * n == x@.len(),
                x@.len() <= usize::MAX,
                out@.len() == b * n,
                forall|k: int|
                    0 <= k < b ==> is_softmax(
                        temperature,
                        sample_of(x@, n as nat, k),
                        #[trigger] sample_of(out@, n as nat, k),
                    ),
            decreases batches - b,
        {
            proof {
                lemma_cell_in_bounds(b as int, 0, batches as int, n as int);
            }
            let ys = softmax_row(x, b * n, n, temperature);
            let ghost before = out@;
            append_copy(&mut out, &ys);
            proof {
                lemma_append_sample(before, ys@, n as nat, b as int);
                assert((b + 1) * n == b * n + n) by (nonlinear_arith);
            }
            b += 1;
        }
        let result = Tensor::assemble(copy_of(inputs.shape()), out);
        self.outputs = result.duplicate();
        result
    }

    /// One backward step: returns the gradient by the inputs, sample by sample, as the
    /// Jacobian of the softmax gives it from the gradient by the outputs. The layer
    /// itself stays as it is.
    ///
    /// Fails with `ShapeMismatch` where `d_outputs` has not the shape of the output
    /// buffer.
    pub fn backward_propagate(&mut self, d_outputs: Tensor<T>) -> (r: Result<Tensor<T>, LayerError>)
        ensures
            final(self)@ == old(self)@,
            d_outputs@.shape != old(self)@.outputs.shape ==> r is Err && r->Err_0
                == LayerError::ShapeMismatch,
            d_outputs@.shape == old(self)@.outputs.shape ==> r is Ok && are_row_gradients(
                old(self)@.outputs,
                d_outputs@,
                r->Ok_0@,
            ),
    {
        if !d_outputs.same_shape(&self.outputs) {
            return Err(LayerError::ShapeMismatch);
        }
        let batches = self.outputs.batches();
        let n = self.outputs.sample_len();
        let outs = self.outputs.data();
        let gs = d_outputs.data();
        let mut out: Vec<T> = Vec::new();
        let mut b: usize = 0;
        while b < batches
            invariant
                b <= batches,
                n >= 1,
                batches * n == outs@.len(),
                outs@.len() == gs@.len(),
                outs@.len() <= usize::MAX,
                out@.len() == b * n,
                forall|k: int|
                    0 <= k < b ==> is_row_gradient(
                        sample_of(outs@, n as nat, k),
                        sample_of(gs@, n as nat, k),
                        #[trigger] sample_of(out@, n as nat, k),
                    ),
            decreases batches - b,
        {
            proof {
                lemma_cell_in_bounds(b as int, 0, batches as int, n as int);
            }
            let rs = softmax_gradient_row(outs, gs, b * n, n);
            let ghost before = out@;
            append_copy(&mut out, &rs);
            proof {
                lemma_append_sample(before, rs@, n as nat, b as int);
                assert((b + 1) * n == b * n + n) by (nonlinear_arith);
            }
            b += 1;
        }
        Ok(Tensor::assemble(copy_of(d_outputs.shape()), out))
    }
}

} // verus!
