//! Forward and backward steps of dense, activation and softmax layers.
//!
//! A layer is built once for a shape. A training step hands it an input with
//! `forward_propagate`, and later the gradient of the loss by its output with
//! `backward_propagate`, which returns the gradient by its input. A dense layer
//! also stores the gradients of its weights and biases, and `update_gradients`
//! applies them.
//!
//! The layers are generic in the element type of their tensors. What they need of
//! it is the arithmetic of [`Scalar`]; their contracts say which operation produced
//! each element of a result from which operands.
use vstd::prelude::*;

pub mod activation;
pub mod dense;
pub mod error;
pub mod matrix;
pub mod reduce;
pub mod scalar;
pub mod shape;
pub mod softmax;
pub mod tensor;

verus! {

pub use crate::activation::{Activation, ActivationCPULayer, ActivationLayer};
pub use crate::dense::{DenseCPULayer, DenseLayer, DenseTensors, Initializer, Tensors};
pub use crate::error::LayerError;
pub use crate::scalar::Scalar;
pub use crate::softmax::{SoftmaxCPULayer, SoftmaxLayer};
pub use crate::tensor::Tensor;

} // verus!
