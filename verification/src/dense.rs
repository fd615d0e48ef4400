use crate::error::LayerError;
use crate::matrix::{grid_at, lemma_cell_index, matrix_product};
use crate::reduce::{
    are_differences, differences, is_dot, is_scaled_total, scaled_total,
};
use crate::scalar::{is_sum, Scalar};
use crate::tensor::{
    copy_of, lemma_cell_in_bounds, lemma_matrix_count, lemma_vector_count, strided, Tensor,
    TensorView,
};
use vstd::prelude::*;

verus! {

/// A policy that makes the first weights of a dense layer.
///
/// The layer states nothing of the values a policy returns. It asks once, with the
/// number of input and of output features, and checks the extents of what comes back.
pub trait Initializer<T> {
    /// Fresh weights for a layer with `fan_in` input and `fan_out` output features.
    fn init(&self, fan_in: usize, fan_out: usize) -> Tensor<T>;
}

/// How a dense layer is to be built: the shape of one output sample, and the policy
/// for its first weights.
pub struct DenseLayer<I> {
    /// The shape of one output sample: the one extent `[out_features]`.
    pub size: Vec<usize>,
    /// Asked for weights where none are supplied.
    pub init: I,
}

/// Weights and biases of a dense layer, as saved from an earlier one.
pub struct DenseTensors<T> {
    /// `[in_features, out_features]`.
    pub weights: Tensor<T>,
    /// `[out_features]`.
    pub biases: Tensor<T>,
}

/// Parameters with which a layer resumes.
pub enum Tensors<T> {
    /// The parameters of a dense layer.
    Dense(DenseTensors<T>),
}

/// What a dense layer holds.
pub struct DenseView<T> {
    /// The input of the last forward step, `[batch, in_features]`.
    pub inputs: TensorView<T>,
    /// `[in_features, out_features]`.
    pub weights: TensorView<T>,
    /// `[out_features]`.
    pub biases: TensorView<T>,
    /// The gradient of the weights that the last backward step stored.
    pub d_weights: TensorView<T>,
    /// The gradient of the biases that the last backward step stored.
    pub d_biases: TensorView<T>,
}

impl<T> DenseView<T> {
    /// The number of samples in a batch.
    pub open spec fn batch(self) -> usize {
        self.inputs.shape[0]
    }

    /// The number of elements of one input sample.
    pub open spec fn in_features(self) -> usize {
        self.weights.shape[0]
    }

    /// The number of elements of one output sample.
    pub open spec fn out_features(self) -> usize {
        self.weights.shape[1]
    }

    /// The shape of the tensors that a forward step takes.
    pub open spec fn input_shape(self) -> Seq<usize> {
        seq![self.batch(), self.in_features()]
    }

    /// The shape of the tensors that a forward step returns.
    pub open spec fn output_shape(self) -> Seq<usize> {
        seq![self.batch(), self.out_features()]
    }

    /// The five tensors are valid and their shapes agree; an output is a machine size.
    pub open spec fn valid(self) -> bool {
        &&& self.inputs.valid()
        &&& self.weights.valid()
        &&& self.biases.valid()
        &&& self.d_weights.valid()
        &&& self.d_biases.valid()
        &&& self.weights.shape.len() == 2
        &&& self.inputs.shape.len() == 2
        &&& self.inputs.shape[1] == self.in_features()
        &&& self.biases.shape.len() == 1
        &&& self.biases.shape[0] == self.out_features()
        &&& self.d_weights.shape == self.weights.shape
        &&& self.d_biases.shape == self.biases.shape
        &&& self.batch() * self.out_features() <= usize::MAX
    }
}

/// The error, if any, in the shapes that a dense layer is asked to have.
pub open spec fn shape_error(config_size: Seq<usize>, size: Seq<usize>) -> Option<LayerError> {
    if size.len() != 2 {
        Some(LayerError::InvalidDimensionality)
    } else if config_size.len() != 1 || size[0] == 0 || size[1] == 0 || config_size[0] == 0 {
        Some(LayerError::InvalidConfig)
    } else {
        None
    }
}

/// The error, if any, in the shapes of the parameters that a dense layer is given.
pub open spec fn parameter_error(
    in_features: usize,
    out_features: usize,
    weights: Seq<usize>,
    biases: Seq<usize>,
) -> Option<LayerError> {
    if weights.len() != 2 || biases.len() != 1 {
        Some(LayerError::InvalidDimensionality)
    } else if weights[0] != in_features || weights[1] != out_features || biases[0]
        != out_features {
        Some(LayerError::InvalidConfig)
    } else {
        None
    }
}

/// The error, if any, in a request for a layer with these extents and parameters.
pub open spec fn build_error(
    batch: usize,
    in_features: usize,
    out_features: usize,
    weights: Seq<usize>,
    biases: Seq<usize>,
) -> Option<LayerError> {
    if batch == 0 || in_features == 0 || out_features == 0 {
        Some(LayerError::InvalidConfig)
    } else {
        parameter_error(in_features, out_features, weights, biases)
    }
}

/// The buffers for `batch` samples fit the machine.
pub open spec fn buffers_fit(batch: usize, in_features: usize, out_features: usize) -> bool {
    &&& batch * in_features <= usize::MAX
    &&& batch * out_features <= usize::MAX
}

/// `r` is the total of the products of `xs` and `ws`, plus `bias`.
pub open spec fn is_affine<T: Scalar>(xs: Seq<T>, ws: Seq<T>, bias: T, r: T) -> bool {
    exists|d: T| #[trigger] is_dot(xs, ws, d) && is_sum(d, bias, r)
}

impl<T: Scalar> DenseView<T> {
    /// The error, if any, in the shape of a tensor handed to a forward step.
    pub open spec fn forward_error(self, inputs: Seq<usize>) -> Option<LayerError> {
        if inputs.len() != 2 {
            Some(LayerError::InvalidDimensionality)
        } else if inputs != self.input_shape() {
            Some(LayerError::ShapeMismatch)
        } else {
            None
        }
    }

    /// The error, if any, in the shape of a tensor handed to a backward step.
    pub open spec fn backward_error(self, d_outputs: Seq<usize>) -> Option<LayerError> {
        if d_outputs.len() != 2 {
            Some(LayerError::InvalidDimensionality)
        } else if d_outputs != self.output_shape() {
            Some(LayerError::ShapeMismatch)
        } else {
            None
        }
    }

    /// `out` is `inputs · weights + biases`, the biases added to every row.
    pub open spec fn is_output(self, inputs: TensorView<T>, out: TensorView<T>) -> bool {
        &&& out.valid()
        &&& out.shape == self.output_shape()
        &&& forall|b: int, j: int|
            0 <= b < self.batch() && 0 <= j < self.out_features() ==> is_affine(
                inputs.row(b),
                self.weights.column(j),
                self.biases.data[j],
                #[trigger] out.at(b, j),
            )
    }

    /// `d_inputs` is `d_outputs · weightsᵗ`.
    pub open spec fn is_input_gradient(self, d_outputs: TensorView<T>, d_inputs: TensorView<T>) -> bool {
        &&& d_inputs.valid()
        &&& d_inputs.shape == self.input_shape()
        &&& forall|b: int, i: int|
            0 <= b < self.batch() && 0 <= i < self.in_features() ==> is_dot(
                d_outputs.row(b),
                self.weights.row(i),
                #[trigger] d_inputs.at(b, i),
            )
    }

    /// `d_weights` is `inputsᵗ · d_outputs`: for each weight, the total over the batch.
    pub open spec fn is_weight_gradient(self, d_outputs: TensorView<T>, d_weights: TensorView<T>) -> bool {
        &&& d_weights.valid()
        &&& d_weights.shape == self.weights.shape
        &&& forall|i: int, j: int|
            0 <= i < self.in_features() && 0 <= j < self.out_features() ==> is_dot(
                self.inputs.column(i),
                d_outputs.column(j),
                #[trigger] d_weights.at(i, j),
            )
    }

    /// `d_biases` is, for each output feature, the total over the batch of
    /// `d_outputs` times `rate`.
    pub open spec fn is_bias_gradient(self, d_outputs: TensorView<T>, rate: T, d_biases: TensorView<T>) -> bool {
        &&& d_biases.valid()
        &&& d_biases.shape == self.biases.shape
        &&& forall|j: int|
            0 <= j < self.out_features() ==> is_scaled_total(
                d_outputs.column(j),
                rate,
                #[trigger] d_biases.data[j],
            )
    }

    /// `after` is the layer after a backward step on `d_outputs` that returned `d_inputs`:
    /// both gradients are stored, the parameters and the input are as before.
    pub open spec fn is_backward(
        self,
        d_outputs: TensorView<T>,
        rate: T,
        after: DenseView<T>,
        d_inputs: TensorView<T>,
    ) -> bool {
        &&& self.is_input_gradient(d_outputs, d_inputs)
        &&& self.is_weight_gradient(d_outputs, after.d_weights)
        &&& self.is_bias_gradient(d_outputs, rate, after.d_biases)
        &&& after.inputs == self.inputs
        &&& after.weights == self.weights
        &&& after.biases == self.biases
    }

    /// `after` is the layer after a reset to batches of `batches` samples: the input
    /// buffer is zero, everything else is as before.
    pub open spec fn is_reset(self, batches: usize, after: DenseView<T>) -> bool {
        &&& after.batch() == batches
        &&& after.inputs.all_zero()
        &&& after.weights == self.weights
        &&& after.biases == self.biases
        &&& after.d_weights == self.d_weights
        &&& after.d_biases == self.d_biases
    }

    /// `after` is the layer after one update: each parameter less its stored gradient.
    pub open spec fn is_update(self, after: DenseView<T>) -> bool {
        &&& after.weights.shape == self.weights.shape
        &&& are_differences(self.weights.data, self.d_weights.data, after.weights.data)
        &&& after.biases.shape == self.biases.shape
        &&& are_differences(self.biases.data, self.d_biases.data, after.biases.data)
        &&& after.inputs == self.inputs
        &&& after.d_weights == self.d_weights
        &&& after.d_biases == self.d_biases
    }

    /// The state of a layer that was just built for `batch` samples with these parameters.
    pub open spec fn is_fresh(self, batch: usize, weights: TensorView<T>, biases: TensorView<T>) -> bool {
        &&& self.valid()
        &&& self.weights == weights
        &&& self.biases == biases
        &&& self.batch() == batch
        &&& self.inputs.all_zero()
        &&& self.d_weights.all_zero()
        &&& self.d_biases.all_zero()
    }
}

/// A dense layer: the affine map `inputs · weights + biases`, with the gradients of
/// its parameters.
#[derive(Debug)]
pub struct DenseCPULayer<T> {
    inputs: Tensor<T>,
    weights: Tensor<T>,
    biases: Tensor<T>,
    d_weights: Tensor<T>,
    d_biases: Tensor<T>,
}

impl<T> View for DenseCPULayer<T> {
    type V = DenseView<T>;

    closed spec fn view(&self) -> DenseView<T> {
        DenseView {
            inputs: self.inputs@,
            weights: self.weights@,
            biases: self.biases@,
            d_weights: self.d_weights@,
            d_biases: self.d_biases@,
        }
    }
}

/// `r` is what building a layer for these extents and parameters gives.
pub open spec fn is_built<T: Scalar>(
    batch: usize,
    in_features: usize,
    out_features: usize,
    weights: TensorView<T>,
    biases: TensorView<T>,
    r: Result<DenseCPULayer<T>, LayerError>,
) -> bool {
    match build_error(batch, in_features, out_features, weights.shape, biases.shape) {
        Some(e) => r is Err && r->Err_0 == e,
        None => r is Ok && r->Ok_0@.is_fresh(batch, weights, biases),
    }
}

/// `weights` and `biases` are the parameters that a new layer starts from: the
/// supplied ones, or else what the policy returned, with biases of zero.
pub open spec fn are_chosen<T: Scalar, I: Initializer<T>>(
    init: I,
    in_features: usize,
    out_features: usize,
    tensors: Option<Tensors<T>>,
    weights: Tensor<T>,
    biases: Tensor<T>,
) -> bool {
    match tensors {
        Some(Tensors::Dense(given)) => weights == given.weights && biases == given.biases,
        None => {
            &&& call_ensures(I::init, (&init, in_features, out_features), weights)
            &&& biases@.valid()
            &&& biases@.shape == seq![out_features]
            &&& biases@.all_zero()
        },
    }
}

impl<T> DenseCPULayer<T> {
    #[verifier::type_invariant]
    closed spec fn wf(&self) -> bool {
        self@.valid()
    }
}

impl<T: Scalar> DenseCPULayer<T> {
    /// A layer for `batch` samples with the given weights and biases.
    ///
    /// Fails with `InvalidConfig` where an extent is zero, with `InvalidDimensionality`
    /// where the weights are no matrix or the biases no vector, and with
    /// `InvalidConfig` where their extents are not `[in_features, out_features]` and
    /// `[out_features]`.
    pub fn with_parameters(
        batch: usize,
        in_features: usize,
        out_features: usize,
        weights: Tensor<T>,
        biases: Tensor<T>,
    ) -> (r: Result<Self, LayerError>)
        requires
            build_error(batch, in_features, out_features, weights@.shape, biases@.shape) is None
                ==> buffers_fit(batch, in_features, out_features),
        ensures
            is_built(batch, in_features, out_features, weights@, biases@, r),
    {
        if batch == 0 || in_features == 0 || out_features == 0 {
            return Err(LayerError::InvalidConfig);
        }
        if weights.rank() != 2 || biases.rank() != 1 {
            return Err(LayerError::InvalidDimensionality);
        }
        let weight_shape = weights.shape();
        let bias_shape = biases.shape();
        if weight_shape[0] != in_features || weight_shape[1] != out_features || bias_shape[0]
            != out_features {
            return Err(LayerError::InvalidConfig);
        }
        proof {
            lemma_matrix_count(weights@.shape);
        }
        let inputs = Tensor::zero_matrix(batch, in_features);
        let d_weights = Tensor::zero_matrix(in_features, out_features);
        let d_biases = Tensor::zero_vector(out_features);
        proof {
            assert(d_weights@.shape =~= weights@.shape);
            assert(d_biases@.shape =~= biases@.shape);
        }
        Ok(DenseCPULayer { inputs, weights, biases, d_weights, d_biases })
    }

    /// A layer for inputs of shape `size`, which is `[batch, in_features]`, and
    /// outputs of `config.size`, which is `[out_features]`.
    ///
    /// It resumes from `tensors` where they are supplied. Otherwise it asks the
    /// policy of `config` for weights and starts with biases of zero. Either way the
    /// parameters are held to the extents `[in_features, out_features]` and
    /// `[out_features]`.
    pub fn new<I: Initializer<T>>(
        config: DenseLayer<I>,
        size: Vec<usize>,
        tensors: Option<Tensors<T>>,
    ) -> (r: Result<Self, LayerError>)
        requires
            shape_error(config.size@, size@) is None ==> buffers_fit(
                size@[0],
                size@[1],
                config.size@[0],
            ),
        ensures
            match shape_error(config.size@, size@) {
                Some(e) => r is Err && r->Err_0 == e,
                None => exists|weights: Tensor<T>, biases: Tensor<T>| #[trigger]
                    are_chosen(config.init, size@[1], config.size@[0], tensors, weights, biases)
                        && is_built(size@[0], size@[1], config.size@[0], weights@, biases@, r),
            },
    {
        if size.len() != 2 {
            return Err(LayerError::InvalidDimensionality);
        }
        if config.size.len() != 1 || size[0] == 0 || size[1] == 0 || config.size[0] == 0 {
            return Err(LayerError::InvalidConfig);
        }
        let batch = size[0];
        let in_features = size[1];
        let out_features = config.size[0];
        let (weights, biases) = match tensors {
            Some(Tensors::Dense(given)) => (given.weights, given.biases),
            None => {
                let weights = config.init.init(in_features, out_features);
                let biases = Tensor::zero_vector(out_features);
                (weights, biases)
            },
        };
        let r = Self::with_parameters(batch, in_features, out_features, weights, biases);
        proof {
            assert(are_chosen(config.init, in_features, out_features, tensors, weights, biases)
                && is_built(batch, in_features, out_features, weights@, biases@, r));
        }
        r
    }

    /// The shape of the tensors that a forward step returns: `[batch, out_features]`.
    pub fn output_size(&self) -> (r: Vec<usize>)
        ensures
            r@ == self@.output_shape(),
            self@.valid(),
    {
        proof {
            use_type_invariant(self);
        }
        let batch = self.inputs.batches();
        let out_features = self.biases.batches();
        vec![batch, out_features]
    }

    /// The input of the last forward step.
    pub fn inputs(&self) -> (r: &Tensor<T>)
        ensures
            r@ == self@.inputs,
            self@.valid(),
    {
        proof {
            use_type_invariant(self);
        }
        &self.inputs
    }

    /// The weights, `[in_features, out_features]`.
    pub fn weights(&self) -> (r: &Tensor<T>)
        ensures
            r@ == self@.weights,
            self@.valid(),
    {
        proof {
            use_type_invariant(self);
        }
        &self.weights
    }

    /// The biases, `[out_features]`.
    pub fn biases(&self) -> (r: &Tensor<T>)
        ensures
            r@ == self@.biases,
            self@.valid(),
    {
        proof {
            use_type_invariant(self);
        }
        &self.biases
    }

    /// The gradient of the weights that the last backward step stored.
    pub fn d_weights(&self) -> (r: &Tensor<T>)
        ensures
            r@ == self@.d_weights,
            self@.valid(),
    {
        proof {
            use_type_invariant(self);
        }
        &self.d_weights
    }

    /// The gradient of the biases that the last backward step stored.
    pub fn d_biases(&self) -> (r: &Tensor<T>)
        ensures
            r@ == self@.d_biases,
            self@.valid(),
    {
        proof {
            use_type_invariant(self);
        }
        &self.d_biases
    }

    /// Makes the layer ready for batches of `batches` samples: the input buffer is
    /// `[batches, in_features]` and zero. Parameters and gradients stay.
    ///
    /// Fails with `InvalidConfig`, and changes nothing, where `batches` is zero.
    pub fn reset(&mut self, batches: usize) -> (r: Result<(), LayerError>)
        requires
            buffers_fit(batches, old(self)@.in_features(), old(self)@.out_features()),
        ensures
            final(self)@.valid(),
            batches == 0 ==> r is Err && r->Err_0 == LayerError::InvalidConfig && final(self)@
                == old(self)@,
            batches != 0 ==> r is Ok && old(self)@.is_reset(batches, final(self)@),
    {
        proof {
            use_type_invariant(&*self);
        }
        if batches == 0 {
            return Err(LayerError::InvalidConfig);
        }
        let in_features = self.weights.shape()[0];
        self.inputs = Tensor::zero_matrix(batches, in_features);
        Ok(())
    }

    /// One forward step: keeps `inputs` for the backward step and returns
    /// `inputs · weights + biases`, of shape `[batch, out_features]`.
    ///
    /// Fails with `InvalidDimensionality` where `inputs` is no matrix, and with
    /// `ShapeMismatch` where its shape is not `[batch, in_features]`. A failed step
    /// changes nothing.
    pub fn forward_propagate(&mut self, inputs: Tensor<T>) -> (r: Result<Tensor<T>, LayerError>)
        ensures
            final(self)@.valid(),
            match old(self)@.forward_error(inputs@.shape) {
                Some(e) => r is Err && r->Err_0 == e && final(self)@ == old(self)@,
                None => r is Ok && old(self)@.is_output(inputs@, r->Ok_0@) && final(self)@ == (
                DenseView { inputs: inputs@, ..old(self)@ }),
            },
    {
        proof {
            use_type_invariant(&*self);
        }
        let batch = self.inputs.batches();
        let n = self.weights.shape()[0];
        let m = self.weights.shape()[1];
        if inputs.rank() != 2 {
            return Err(LayerError::InvalidDimensionality);
        }
        if inputs.shape()[0] != batch || inputs.shape()[1] != n {
            return Err(LayerError::ShapeMismatch);
        }
        assert(inputs@.shape =~= self@.input_shape());
        let x = inputs.data();
        let w = self.weights.data();
        let bias = self.biases.data();
        proof {
            lemma_matrix_count(inputs@.shape);
            lemma_matrix_count(self@.weights.shape);
            lemma_vector_count(self@.biases.shape);
            lemma_cell_in_bounds(batch - 1, n - 1, batch as int, n as int);
            lemma_cell_in_bounds(n - 1, m - 1, n as int, m as int);
        }
        let dots = matrix_product(x, n, 1, w, m, 1, batch, n, m);
        let count = batch * m;
        let mut out: Vec<T> = Vec::new();
        let mut q: usize = 0;
        while q < count
            invariant
                q <= count,
                count == batch * m,
                m >= 1,
                dots@.len() == count,
                bias@.len() == m,
                out@.len() == q,
                forall|p: int| 0 <= p < q ==> is_sum(dots@[p], bias@[p % (m as int)], #[trigger] out@[p]),
            decreases count - q,
        {
            let v = dots[q].add(bias[q % m]);
            out.push(v);
            q += 1;
        }
        let result = Tensor::matrix(batch, m, out);
        proof {
            let layer = self@;
            assert forall|b: int, j: int|
                0 <= b < layer.batch() && 0 <= j < layer.out_features() implies is_affine(
                inputs@.row(b),
                layer.weights.column(j),
                layer.biases.data[j],
                #[trigger] result@.at(b, j),
            ) by {
                lemma_cell_index(b, j, batch as int, m as int);
                assert(is_sum(
                    grid_at(dots@, m as int, b, j),
                    layer.biases.data[j],
                    result@.at(b, j),
                ));
            }
        }
        self.inputs = inputs;
        Ok(result)
    }

    /// One backward step: from the gradient of the loss by this layer's output,
    /// stores the gradients of the parameters and returns the gradient by the input,
    /// of shape `[batch, in_features]`.
    ///
    /// The gradient of the weights is `inputsᵗ · d_outputs`; that of the biases is the
    /// total over the batch of `d_outputs` times `rate`. Both are totals over the
    /// batch, not means. The rate scales the gradient of the biases and nothing else:
    /// the gradient of the weights is stored as it is, and `update_gradients` takes
    /// both off as they are stored. The parameters themselves are read, not changed.
    ///
    /// Fails with `InvalidDimensionality` where `d_outputs` is no matrix, and with
    /// `ShapeMismatch` where its shape is not `[batch, out_features]`. A failed step
    /// changes nothing.
    pub fn backward_propagate(&mut self, d_outputs: Tensor<T>, rate: T) -> (r: Result<
        Tensor<T>,
        LayerError,
    >)
        ensures
            final(self)@.valid(),
            match old(self)@.backward_error(d_outputs@.shape) {
                Some(e) => r is Err && r->Err_0 == e && final(self)@ == old(self)@,
                None => r is Ok && old(self)@.is_backward(d_outputs@, rate, final(self)@, r->Ok_0@),
            },
    {
        proof {
            use_type_invariant(&*self);
        }
        let batch = self.inputs.batches();
        let n = self.weights.shape()[0];
        let m = self.weights.shape()[1];
        if d_outputs.rank() != 2 {
            return Err(LayerError::InvalidDimensionality);
        }
        if d_outputs.shape()[0] != batch || d_outputs.shape()[1] != m {
            return Err(LayerError::ShapeMismatch);
        }
        assert(d_outputs@.shape =~= self@.output_shape());
        let ghost before = self@;
        let g = d_outputs.data();
        let x = self.inputs.data();
        let w = self.weights.data();
        proof {
            lemma_matrix_count(d_outputs@.shape);
            lemma_matrix_count(before.inputs.shape);
            lemma_matrix_count(before.weights.shape);
            lemma_vector_count(before.biases.shape);
            lemma_cell_in_bounds(batch - 1, n - 1, batch as int, n as int);
            lemma_cell_in_bounds(batch - 1, m - 1, batch as int, m as int);
            lemma_cell_in_bounds(n - 1, m - 1, n as int, m as int);
        }
        let d_in = matrix_product(g, m, 1, w, 1, m, batch, m, n);
        let d_w = matrix_product(x, 1, n, g, m, 1, n, batch, m);
        let mut d_b: Vec<T> = Vec::new();
        let mut j: usize = 0;
        while j < m
            invariant
                j <= m,
                batch >= 1,
                g@.len() == batch * m,
                g@.len() <= usize::MAX,
                d_b@.len() == j,
                forall|c: int|
                    0 <= c < j ==> is_scaled_total(
                        strided(g@, c, m as int, batch as nat),
                        rate,
                        #[trigger] d_b@[c],
                    ),
            decreases m - j,
        {
            proof {
                lemma_cell_in_bounds(batch - 1, j as int, batch as int, m as int);
            }
            let v = scaled_total(g, j, m, batch, rate);
            d_b.push(v);
            j += 1;
        }
        let d_inputs = Tensor::matrix(batch, n, d_in);
        let d_weights = Tensor::matrix(n, m, d_w);
        let d_biases = Tensor::vector(d_b);
        proof {
            assert(d_weights@.shape =~= before.weights.shape);
            assert(d_biases@.shape =~= before.biases.shape);
            assert forall|b: int, i: int|
                0 <= b < before.batch() && 0 <= i < before.in_features() implies is_dot(
                d_outputs@.row(b),
                before.weights.row(i),
                #[trigger] d_inputs@.at(b, i),
            ) by {
                assert(d_inputs@.at(b, i) == grid_at(d_in@, n as int, b, i));
            }
            assert forall|i: int, c: int|
                0 <= i < before.in_features() && 0 <= c < before.out_features() implies is_dot(
                before.inputs.column(i),
                d_outputs@.column(c),
                #[trigger] d_weights@.at(i, c),
            ) by {
                assert(d_weights@.at(i, c) == grid_at(d_w@, m as int, i, c));
            }
        }
        self.d_weights = d_weights;
        self.d_biases = d_biases;
        Ok(d_inputs)
    }

    /// One step of gradient descent: each weight and each bias less its stored
    /// gradient, with no further scaling. A second call without a backward step in
    /// between takes the same gradients off once more.
    pub fn update_gradients(&mut self)
        ensures
            final(self)@.valid(),
            old(self)@.is_update(final(self)@),
    {
        proof {
            use_type_invariant(&*self);
        }
        let weights = differences(self.weights.data(), self.d_weights.data());
        let biases = differences(self.biases.data(), self.d_biases.data());
        let weight_shape = copy_of(self.weights.shape());
        let bias_shape = copy_of(self.biases.shape());
        self.weights = Tensor::assemble(weight_shape, weights);
        self.biases = Tensor::assemble(bias_shape, biases);
    }
}

/// Whatever the batch size that a layer was reset to, a forward step returns a tensor
/// of `[batches, out_features]` and a backward step one of `[batches, in_features]`.
pub proof fn law_step_shapes<T: Scalar>(
    before: DenseView<T>,
    batches: usize,
    layer: DenseView<T>,
    inputs: TensorView<T>,
    out: TensorView<T>,
    d_outputs: TensorView<T>,
    rate: T,
    after: DenseView<T>,
    d_inputs: TensorView<T>,
)
    requires
        batches >= 1,
        before.is_reset(batches, layer),
        layer.is_output(inputs, out),
        layer.is_backward(d_outputs, rate, after, d_inputs),
    ensures
        out.shape == seq![batches, before.out_features()],
        d_inputs.shape == seq![batches, before.in_features()],
{
}

/// An update that follows one backward step takes from every weight and every bias
/// exactly the gradient that the backward step stored for it: one subtraction each,
/// and no scaling.
pub proof fn law_update_after_backward<T: Scalar>(
    before: DenseView<T>,
    d_outputs: TensorView<T>,
    rate: T,
    stored: DenseView<T>,
    d_inputs: TensorView<T>,
    after: DenseView<T>,
)
    requires
        before.is_backward(d_outputs, rate, stored, d_inputs),
        stored.is_update(after),
    ensures
        are_differences(before.weights.data, stored.d_weights.data, after.weights.data),
        are_differences(before.biases.data, stored.d_biases.data, after.biases.data),
        before.is_weight_gradient(d_outputs, stored.d_weights),
        before.is_bias_gradient(d_outputs, rate, stored.d_biases),
{
}

} // verus!
