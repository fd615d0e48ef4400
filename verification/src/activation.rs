use crate::error::LayerError;
use crate::scalar::{
    is_difference, is_exp, is_negation, is_one, is_positive, is_product, is_quotient, is_sum,
    is_tanh, is_zero, positive, Scalar,
};
use crate::shape::{allocatable, is_valid_shape, lemma_with_batch, valid_shape, with_batch};
use crate::tensor::{copy_of, Tensor, TensorView};
use vstd::prelude::*;

verus! {

/// The elementwise nonlinearities.
///
/// Each comes with its derivative. The derivative of `Sigmoid` and of `Tanh` is
/// written in terms of the activated output; that of the others in terms of the
/// raw input. `memoize_output` says which.
#[derive(Clone, Copy, Debug, PartialEq, Eq, Structural)]
pub enum Activation {
    /// `x`.
    Identity,
    /// `1 / (1 + exp(-x))`.
    Sigmoid,
    /// `x` where `x` is positive, else zero.
    Relu,
    /// `tanh(x)`.
    Tanh,
}

/// How an activation layer is to be built.
pub struct ActivationLayer {
    /// The activation that the layer applies.
    pub activation: Activation,
}

/// The steps from `x` to its sigmoid `y`.
pub open spec fn sigmoid_steps<T: Scalar>(x: T, minus: T, e: T, one: T, s: T, y: T) -> bool {
    &&& is_negation(x, minus)
    &&& is_exp(minus, e)
    &&& is_one(one)
    &&& is_sum(one, e, s)
    &&& is_quotient(one, s, y)
}

/// `y` is `1 / (1 + exp(-x))`.
pub open spec fn is_sigmoid<T: Scalar>(x: T, y: T) -> bool {
    exists|minus: T, e: T, one: T, s: T| #[trigger] sigmoid_steps(x, minus, e, one, s, y)
}

/// The steps from a sigmoid `y` to its slope `d`.
pub open spec fn sigmoid_slope_steps<T: Scalar>(y: T, one: T, rest: T, d: T) -> bool {
    &&& is_one(one)
    &&& is_difference(one, y, rest)
    &&& is_product(y, rest, d)
}

/// `d` is `y · (1 − y)`.
pub open spec fn is_sigmoid_slope<T: Scalar>(y: T, d: T) -> bool {
    exists|one: T, rest: T| #[trigger] sigmoid_slope_steps(y, one, rest, d)
}

/// `y` is `x` where the comparison called `x` positive, else a zero.
pub open spec fn is_relu<T: Scalar>(x: T, y: T) -> bool {
    exists|answer: bool| #[trigger] is_positive(x, answer) && if answer {
        y == x
    } else {
        is_zero(y)
    }
}

/// `d` is a one where the comparison called `x` positive, else a zero.
pub open spec fn is_relu_slope<T: Scalar>(x: T, d: T) -> bool {
    exists|answer: bool| #[trigger] is_positive(x, answer) && if answer {
        is_one(d)
    } else {
        is_zero(d)
    }
}

/// The steps from a hyperbolic tangent `y` to its slope `d`.
pub open spec fn tanh_slope_steps<T: Scalar>(y: T, square: T, one: T, d: T) -> bool {
    &&& is_product(y, y, square)
    &&& is_one(one)
    &&& is_difference(one, square, d)
}

/// `d` is `1 − y²`.
pub open spec fn is_tanh_slope<T: Scalar>(y: T, d: T) -> bool {
    exists|square: T, one: T| #[trigger] tanh_slope_steps(y, square, one, d)
}

impl Activation {
    /// Whether the derivative takes the activated output, not the raw input.
    pub open spec fn memoizes(self) -> bool {
        self == Activation::Sigmoid || self == Activation::Tanh
    }

    /// `y` is the activation of `x`.
    pub open spec fn is_activation<T: Scalar>(self, x: T, y: T) -> bool {
        match self {
            Activation::Identity => y == x,
            Activation::Sigmoid => is_sigmoid(x, y),
            Activation::Relu => is_relu(x, y),
            Activation::Tanh => is_tanh(x, y),
        }
    }

    /// `d` is the derivative at the point whose retained value is `v`: the activated
    /// output where `memoizes()`, else the raw input.
    pub open spec fn is_derivative<T: Scalar>(self, v: T, d: T) -> bool {
        match self {
            Activation::Identity => is_one(d),
            Activation::Sigmoid => is_sigmoid_slope(v, d),
            Activation::Relu => is_relu_slope(v, d),
            Activation::Tanh => is_tanh_slope(v, d),
        }
    }

    /// `ys[i]` is the activation of `xs[i]`, for every `i`.
    pub open spec fn are_activations<T: Scalar>(self, xs: Seq<T>, ys: Seq<T>) -> bool {
        &&& xs.len() == ys.len()
        &&& forall|i: int| 0 <= i < ys.len() ==> self.is_activation(xs[i], #[trigger] ys[i])
    }

    /// `r` is the gradient `g` times the derivative at the retained value `v`.
    pub open spec fn is_gradient<T: Scalar>(self, v: T, g: T, r: T) -> bool {
        exists|d: T| #[trigger] self.is_derivative(v, d) && is_product(g, d, r)
    }

    /// `rs[i]` is `gs[i]` times the derivative at `vs[i]`, for every `i`.
    pub open spec fn are_gradients<T: Scalar>(self, vs: Seq<T>, gs: Seq<T>, rs: Seq<T>) -> bool {
        &&& vs.len() == rs.len()
        &&& gs.len() == rs.len()
        &&& forall|i: int| 0 <= i < rs.len() ==> self.is_gradient(vs[i], gs[i], #[trigger] rs[i])
    }

    /// Whether the derivative takes the activated output, not the raw input.
    pub fn memoize_output(&self) -> (r: bool)
        ensures
            r == self.memoizes(),
    {
        match self {
            Activation::Sigmoid => true,
            Activation::Tanh => true,
            Activation::Identity => false,
            Activation::Relu => false,
        }
    }

    /// The activation of `x`.
    pub fn activate<T: Scalar>(&self, x: T) -> (y: T)
        ensures
            self.is_activation(x, y),
    {
        match self {
            Activation::Identity => x,
            Activation::Sigmoid => {
                let minus = x.neg();
                let e = minus.exp();
                let one = T::one();
                let s = one.add(e);
                let y = one.div(s);
                assert(sigmoid_steps(x, minus, e, one, s, y));
                y
            },
            Activation::Relu => {
                let answer = positive(x);
                let y = if answer {
                    x
                } else {
                    T::zero()
                };
                y
            },
            Activation::Tanh => x.tanh(),
        }
    }

    /// The derivative at the point whose retained value is `v`: the activated output
    /// where `memoize_output()`, else the raw input.
    pub fn derivative<T: Scalar>(&self, v: T) -> (d: T)
        ensures
            self.is_derivative(v, d),
    {
        match self {
            Activation::Identity => T::one(),
            Activation::Sigmoid => {
                let one = T::one();
                let rest = one.sub(v);
                let d = v.mul(rest);
                assert(sigmoid_slope_steps(v, one, rest, d));
                d
            },
            Activation::Relu => {
                let answer = positive(v);
                let d = if answer {
                    T::one()
                } else {
                    T::zero()
                };
                d
            },
            Activation::Tanh => {
                let square = v.mul(v);
                let one = T::one();
                let d = one.sub(square);
                assert(tanh_slope_steps(v, square, one, d));
                d
            },
        }
    }
}

/// What an activation layer holds.
pub struct ActivationView<T> {
    /// The value retained by the last forward step: its output where the activation
    /// memoizes, else its input.
    pub outputs: TensorView<T>,
    /// The activation that the layer applies.
    pub activation: Activation,
}

/// A layer that applies one activation to every element.
#[derive(Debug)]
pub struct ActivationCPULayer<T> {
    outputs: Tensor<T>,
    activation: Activation,
}

impl<T> View for ActivationCPULayer<T> {
    type V = ActivationView<T>;

    closed spec fn view(&self) -> ActivationView<T> {
        ActivationView { outputs: self.outputs@, activation: self.activation }
    }
}

impl<T> ActivationCPULayer<T> {
    #[verifier::type_invariant]
    closed spec fn wf(&self) -> bool {
        self.outputs@.valid()
    }
}

impl<T: Scalar> ActivationCPULayer<T> {
    /// A layer for tensors of shape `size`, with a retained buffer of zeros.
    ///
    /// Fails with `InvalidConfig` where `size` is empty or holds a zero.
    pub fn new(config: ActivationLayer, size: Vec<usize>) -> (r: Result<Self, LayerError>)
        requires
            valid_shape(size@) ==> allocatable(size@),
        ensures
            !valid_shape(size@) ==> r is Err && r->Err_0 == LayerError::InvalidConfig,
            valid_shape(size@) ==> r is Ok && r->Ok_0@.outputs.valid() && r->Ok_0@.outputs.shape
                == size@ && r->Ok_0@.outputs.all_zero() && r->Ok_0@.activation
                == config.activation,
    {
        if !is_valid_shape(&size) {
            return Err(LayerError::InvalidConfig);
        }
        Ok(ActivationCPULayer { outputs: Tensor::zero_tensor(size), activation: config.activation })
    }

    /// The shape of the retained buffer.
    pub fn output_size(&self) -> (r: Vec<usize>)
        ensures
            r@ == self@.outputs.shape,
            self@.outputs.valid(),
    {
        copy_of(self.outputs.shape())
    }

    /// The value retained by the last forward step.
    pub fn outputs(&self) -> (r: &Tensor<T>)
        ensures
            r@ == self@.outputs,
            self@.outputs.valid(),
    {
        proof {
            use_type_invariant(self);
        }
        &self.outputs
    }

    /// The activation that the layer applies.
    pub fn activation(&self) -> (r: Activation)
        ensures
            r == self@.activation,
    {
        self.activation
    }

    /// Makes the layer ready for batches of `batches` samples: the retained buffer
    /// has its batch extent replaced, its other extents kept, and is zero.
    ///
    /// Fails with `InvalidConfig`, and changes nothing, where `batches` is zero.
    pub fn reset(&mut self, batches: usize) -> (r: Result<(), LayerError>)
        requires
            batches * old(self)@.outputs.sample_len() <= usize::MAX,
        ensures
            final(self)@.outputs.valid(),
            final(self)@.activation == old(self)@.activation,
            batches == 0 ==> r is Err && r->Err_0 == LayerError::InvalidConfig && final(self)@
                == old(self)@,
            batches != 0 ==> r is Ok && final(self)@.outputs.shape == with_batch(
                old(self)@.outputs.shape,
                batches,
            ) && final(self)@.outputs.all_zero(),
    {
        proof {
            use_type_invariant(&*self);
        }
        if batches == 0 {
            return Err(LayerError::InvalidConfig);
        }
        let mut shape = copy_of(self.outputs.shape());
        shape.set(0, batches);
        proof {
            lemma_with_batch(self.outputs@.shape, batches);
        }
        self.outputs = Tensor::zero_tensor(shape);
        Ok(())
    }

    /// One forward step: returns the activation of every element of `inputs`, and
    /// retains that output where the activation memoizes, else `inputs` itself.
    pub fn forward_propagate(&mut self, inputs: Tensor<T>) -> (r: Tensor<T>)
        ensures
            r@.valid(),
            r@.shape == inputs@.shape,
            old(self)@.activation.are_activations(inputs@.data, r@.data),
            final(self)@.activation == old(self)@.activation,
            final(self)@.outputs == if old(self)@.activation.memoizes() {
                r@
            } else {
                inputs@
            },
    {
        let x = inputs.data();
        let mut out: Vec<T> = Vec::new();
        let mut i: usize = 0;
        while i < x.len()
            invariant
                i <= x@.len(),
                out@.len() == i,
                forall|k: int| 0 <= k < i ==> self.activation.is_activation(x@[k], #[trigger] out@[k]),
            decreases x@.len() - i,
        {
            out.push(self.activation.activate(x[i]));
            i += 1;
        }
        let activated = Tensor::assemble(copy_of(inputs.shape()), out);
        if self.activation.memoize_output() {
            let r = activated.duplicate();
            self.outputs = activated;
            r
        } else {
            self.outputs = inputs;
            activated
        }
    }

    /// One backward step: returns, element by element, `d_outputs` times the
    /// derivative at the retained value. The layer itself stays as it is.
    ///
    /// Fails with `ShapeMismatch` where `d_outputs` has not the shape of the retained
    /// buffer.
    pub fn backward_propagate(&mut self, d_outputs: Tensor<T>) -> (r: Result<Tensor<T>, LayerError>)
        ensures
            final(self)@ == old(self)@,
            d_outputs@.shape != old(self)@.outputs.shape ==> r is Err && r->Err_0
                == LayerError::ShapeMismatch,
            d_outputs@.shape == old(self)@.outputs.shape ==> r is Ok && r->Ok_0@.valid()
                && r->Ok_0@.shape == d_outputs@.shape && old(self)@.activation.are_gradients(
                old(self)@.outputs.data,
                d_outputs@.data,
                r->Ok_0@.data,
            ),
    {
        if !d_outputs.same_shape(&self.outputs) {
            return Err(LayerError::ShapeMismatch);
        }
        let g = d_outputs.data();
        let v = self.outputs.data();
        let mut out: Vec<T> = Vec::new();
        let mut i: usize = 0;
        while i < g.len()
            invariant
                i <= g@.len(),
                g@.len() == v@.len(),
                out@.len() == i,
                forall|k: int|
                    0 <= k < i ==> self.activation.is_gradient(v@[k], g@[k], #[trigger] out@[k]),
            decreases g@.len() - i,
        {
            let d = self.activation.derivative(v[i]);
            let r = g[i].mul(d);
            out.push(r);
            i += 1;
        }
        Ok(Tensor::assemble(copy_of(d_outputs.shape()), out))
    }
}

} // verus!
