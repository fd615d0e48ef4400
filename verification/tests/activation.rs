use cpu_layers::{Activation, ActivationCPULayer, ActivationLayer, LayerError, Scalar, Tensor};

#[derive(Clone, Copy, Debug, PartialEq)]
struct Real(f32);

impl Scalar for Real {
    fn zero() -> Self {
        Real(0.0)
    }

    fn one() -> Self {
        Real(1.0)
    }

    fn epsilon() -> Self {
        Real(f32::EPSILON)
    }

    fn add(self, rhs: Self) -> Self {
        Real(self.0 + rhs.0)
    }

    fn sub(self, rhs: Self) -> Self {
        Real(self.0 - rhs.0)
    }

    fn mul(self, rhs: Self) -> Self {
        Real(self.0 * rhs.0)
    }

    fn div(self, rhs: Self) -> Self {
        Real(self.0 / rhs.0)
    }

    fn neg(self) -> Self {
        Real(-self.0)
    }

    fn exp(self) -> Self {
        Real(self.0.exp())
    }

    fn tanh(self) -> Self {
        Real(self.0.tanh())
    }

    fn less_than(self, rhs: Self) -> bool {
        self.0 < rhs.0
    }
}

#[derive(Clone, Copy, Debug, PartialEq)]
struct Wide(f64);

impl Scalar for Wide {
    fn zero() -> Self {
        Wide(0.0)
    }

    fn one() -> Self {
        Wide(1.0)
    }

    fn epsilon() -> Self {
        Wide(f64::EPSILON)
    }

    fn add(self, rhs: Self) -> Self {
        Wide(self.0 + rhs.0)
    }

    fn sub(self, rhs: Self) -> Self {
        Wide(self.0 - rhs.0)
    }

    fn mul(self, rhs: Self) -> Self {
        Wide(self.0 * rhs.0)
    }

    fn div(self, rhs: Self) -> Self {
        Wide(self.0 / rhs.0)
    }

    fn neg(self) -> Self {
        Wide(-self.0)
    }

    fn exp(self) -> Self {
        Wide(self.0.exp())
    }

    fn tanh(self) -> Self {
        Wide(self.0.tanh())
    }

    fn less_than(self, rhs: Self) -> bool {
        self.0 < rhs.0
    }
}

fn tensor(shape: &[usize], values: &[f32]) -> Tensor<Real> {
    Tensor::from_vec(shape.to_vec(), values.iter().map(|v| Real(*v)).collect()).unwrap()
}

fn values(t: &Tensor<Real>) -> Vec<f32> {
    t.data().iter().map(|v| v.0).collect()
}

fn wide(shape: &[usize], values: &[f64]) -> Tensor<Wide> {
    Tensor::from_vec(shape.to_vec(), values.iter().map(|v| Wide(*v)).collect()).unwrap()
}

fn wide_values(t: &Tensor<Wide>) -> Vec<f64> {
    t.data().iter().map(|v| v.0).collect()
}

fn close(analytic: f64, numeric: f64) -> bool {
    (analytic - numeric).abs() <= 1e-3 * analytic.abs().max(numeric.abs()).max(1e-6)
}

fn layer(activation: Activation, size: &[usize]) -> ActivationCPULayer<Real> {
    ActivationCPULayer::new(ActivationLayer { activation }, size.to_vec()).unwrap()
}

fn all_kinds() -> [Activation; 4] {
    [Activation::Identity, Activation::Sigmoid, Activation::Relu, Activation::Tanh]
}

#[test]
fn activation_relu_cuts_off_below_zero() {
    let mut relu = layer(Activation::Relu, &[1, 4]);
    let out = relu.forward_propagate(tensor(&[1, 4], &[-1.0, 2.0, -3.0, 4.0]));
    assert_eq!(out.shape(), &vec![1, 4]);
    assert_eq!(values(&out), vec![0.0, 2.0, 0.0, 4.0]);
    let d_inputs = relu
        .backward_propagate(tensor(&[1, 4], &[1.0, 1.0, 1.0, 1.0]))
        .unwrap();
    assert_eq!(d_inputs.shape(), &vec![1, 4]);
    assert_eq!(values(&d_inputs), vec![0.0, 1.0, 0.0, 1.0]);
}

#[test]
fn activation_relu_scales_the_gradient_it_lets_through() {
    let mut relu = layer(Activation::Relu, &[2, 2]);
    relu.forward_propagate(tensor(&[2, 2], &[0.5, -0.5, 0.0, 3.0]));
    let d_inputs = relu
        .backward_propagate(tensor(&[2, 2], &[2.0, 3.0, 4.0, -5.0]))
        .unwrap();
    assert_eq!(values(&d_inputs), vec![2.0, 0.0, 0.0, -5.0]);
}

#[test]
fn activation_relu_retains_its_input() {
    let mut relu = layer(Activation::Relu, &[1, 4]);
    let out = relu.forward_propagate(tensor(&[1, 4], &[-1.0, 2.0, -3.0, 4.0]));
    assert_eq!(values(relu.outputs()), vec![-1.0, 2.0, -3.0, 4.0]);
    assert_ne!(values(relu.outputs()), values(&out));
}

#[test]
fn activation_identity_retains_its_input_and_passes_gradients() {
    let mut identity = layer(Activation::Identity, &[1, 3]);
    let out = identity.forward_propagate(tensor(&[1, 3], &[-1.5, 0.0, 2.5]));
    assert_eq!(values(&out), vec![-1.5, 0.0, 2.5]);
    assert_eq!(values(identity.outputs()), vec![-1.5, 0.0, 2.5]);
    let d_inputs = identity
        .backward_propagate(tensor(&[1, 3], &[3.0, -4.0, 5.0]))
        .unwrap();
    assert_eq!(values(&d_inputs), vec![3.0, -4.0, 5.0]);
}

#[test]
fn activation_sigmoid_retains_its_output() {
    let mut sigmoid = layer(Activation::Sigmoid, &[1, 3]);
    let out = sigmoid.forward_propagate(tensor(&[1, 3], &[0.0, 2.0, -2.0]));
    let expected: Vec<f32> = [0.0f32, 2.0, -2.0]
        .iter()
        .map(|x| 1.0 / (1.0 + (-x).exp()))
        .collect();
    assert_eq!(values(&out), expected);
    assert_eq!(values(&out)[0], 0.5);
    assert_eq!(values(sigmoid.outputs()), expected);
}

#[test]
fn activation_sigmoid_slope_comes_from_the_output() {
    let mut sigmoid = layer(Activation::Sigmoid, &[1, 3]);
    let out = values(&sigmoid.forward_propagate(tensor(&[1, 3], &[0.0, 2.0, -2.0])));
    let d_inputs = sigmoid
        .backward_propagate(tensor(&[1, 3], &[1.0, 2.0, -3.0]))
        .unwrap();
    let expected: Vec<f32> = out
        .iter()
        .zip([1.0f32, 2.0, -3.0].iter())
        .map(|(y, g)| g * (y * (1.0 - y)))
        .collect();
    assert_eq!(values(&d_inputs), expected);
    assert_eq!(values(&d_inputs)[0], 0.25);
}

#[test]
fn activation_tanh_retains_its_output() {
    let mut tanh = layer(Activation::Tanh, &[1, 3]);
    let out = tanh.forward_propagate(tensor(&[1, 3], &[0.0, 1.0, -0.5]));
    let expected: Vec<f32> = [0.0f32, 1.0, -0.5].iter().map(|x| x.tanh()).collect();
    assert_eq!(values(&out), expected);
    assert_eq!(values(tanh.outputs()), expected);
    let d_inputs = tanh
        .backward_propagate(tensor(&[1, 3], &[1.0, 2.0, -3.0]))
        .unwrap();
    let slopes: Vec<f32> = expected
        .iter()
        .zip([1.0f32, 2.0, -3.0].iter())
        .map(|(y, g)| g * (1.0 - y * y))
        .collect();
    assert_eq!(values(&d_inputs), slopes);
    assert_eq!(values(&d_inputs)[0], 1.0);
}

#[test]
fn activation_memoize_output_names_the_kinds_whose_slope_takes_the_output() {
    assert!(Activation::Sigmoid.memoize_output());
    assert!(Activation::Tanh.memoize_output());
    assert!(!Activation::Identity.memoize_output());
    assert!(!Activation::Relu.memoize_output());
}

#[test]
fn activation_activate_and_derivative_of_single_values() {
    assert_eq!(Activation::Identity.activate(Real(-3.0)), Real(-3.0));
    assert_eq!(Activation::Identity.derivative(Real(-3.0)), Real(1.0));
    assert_eq!(Activation::Relu.activate(Real(-3.0)), Real(0.0));
    assert_eq!(Activation::Relu.activate(Real(3.0)), Real(3.0));
    assert_eq!(Activation::Relu.derivative(Real(-3.0)), Real(0.0));
    assert_eq!(Activation::Relu.derivative(Real(0.0)), Real(0.0));
    assert_eq!(Activation::Relu.derivative(Real(3.0)), Real(1.0));
    assert_eq!(Activation::Sigmoid.activate(Real(0.0)), Real(0.5));
    assert_eq!(Activation::Sigmoid.derivative(Real(0.5)), Real(0.25));
    assert_eq!(Activation::Tanh.activate(Real(0.0)), Real(0.0));
    assert_eq!(Activation::Tanh.derivative(Real(0.5)), Real(0.75));
}

#[test]
fn activation_forward_leaves_the_input_values_alone() {
    for kind in all_kinds() {
        let mut layer = layer(kind, &[2, 2]);
        let inputs = tensor(&[2, 2], &[-1.0, 0.5, 2.0, -0.25]);
        let kept = inputs.clone();
        layer.forward_propagate(inputs);
        if !kind.memoize_output() {
            assert_eq!(layer.outputs(), &kept);
        }
    }
}

#[test]
fn activation_forward_takes_any_shape() {
    let mut relu = layer(Activation::Relu, &[1, 4]);
    let out = relu.forward_propagate(tensor(&[2, 3, 1], &[-1.0, 2.0, -3.0, 4.0, -5.0, 6.0]));
    assert_eq!(out.shape(), &vec![2, 3, 1]);
    assert_eq!(values(&out), vec![0.0, 2.0, 0.0, 4.0, 0.0, 6.0]);
    assert_eq!(relu.output_size(), vec![2, 3, 1]);
}

#[test]
fn activation_new_starts_with_a_buffer_of_zeros() {
    let relu = layer(Activation::Relu, &[2, 3, 4]);
    assert_eq!(relu.output_size(), vec![2, 3, 4]);
    assert_eq!(values(relu.outputs()), vec![0.0; 24]);
    assert_eq!(relu.activation(), Activation::Relu);
}

#[test]
fn activation_new_refuses_a_shape_with_a_zero_or_without_a_batch_axis() {
    for size in [vec![], vec![0], vec![0, 3], vec![2, 0], vec![2, 3, 0]] {
        let r: Result<ActivationCPULayer<Real>, LayerError> =
            ActivationCPULayer::new(ActivationLayer { activation: Activation::Tanh }, size);
        assert_eq!(r.unwrap_err(), LayerError::InvalidConfig);
    }
}

#[test]
fn activation_reset_replaces_the_batch_extent() {
    let mut relu = layer(Activation::Relu, &[2, 3, 4]);
    relu.forward_propagate(tensor(&[2, 3, 4], &[1.5; 24]));
    relu.reset(5).unwrap();
    assert_eq!(relu.output_size(), vec![5, 3, 4]);
    assert_eq!(values(relu.outputs()), vec![0.0; 60]);
    assert_eq!(relu.activation(), Activation::Relu);
    relu.reset(1).unwrap();
    assert_eq!(relu.output_size(), vec![1, 3, 4]);
    assert_eq!(values(relu.outputs()), vec![0.0; 12]);
}

#[test]
fn activation_reset_refuses_a_batch_of_zero() {
    let mut relu = layer(Activation::Relu, &[2, 3]);
    relu.forward_propagate(tensor(&[2, 3], &[1.5; 6]));
    assert_eq!(relu.reset(0), Err(LayerError::InvalidConfig));
    assert_eq!(relu.output_size(), vec![2, 3]);
    assert_eq!(values(relu.outputs()), vec![1.5; 6]);
}

#[test]
fn activation_backward_refuses_another_shape() {
    for kind in all_kinds() {
        let mut layer = layer(kind, &[2, 3]);
        layer.forward_propagate(tensor(&[2, 3], &[1.0; 6]));
        for shape in [vec![3, 2], vec![6], vec![2, 3, 1], vec![1, 3]] {
            let count: usize = shape.iter().product();
            let r = layer.backward_propagate(tensor(&shape, &vec![1.0; count]));
            assert_eq!(r.unwrap_err(), LayerError::ShapeMismatch);
        }
        assert!(layer.backward_propagate(tensor(&[2, 3], &[1.0; 6])).is_ok());
    }
}

#[test]
fn activation_backward_after_reset_goes_by_the_new_shape() {
    let mut relu = layer(Activation::Relu, &[2, 3]);
    relu.reset(4).unwrap();
    let r = relu.backward_propagate(tensor(&[2, 3], &[1.0; 6]));
    assert_eq!(r.unwrap_err(), LayerError::ShapeMismatch);
    let d_inputs = relu.backward_propagate(tensor(&[4, 3], &[1.0; 12])).unwrap();
    assert_eq!(values(&d_inputs), vec![0.0; 12]);
}

#[test]
fn activation_backward_leaves_the_layer_as_it_is() {
    let mut sigmoid = layer(Activation::Sigmoid, &[1, 2]);
    sigmoid.forward_propagate(tensor(&[1, 2], &[0.0, 1.0]));
    let before = values(sigmoid.outputs());
    let first = sigmoid.backward_propagate(tensor(&[1, 2], &[1.0, 1.0])).unwrap();
    let second = sigmoid.backward_propagate(tensor(&[1, 2], &[1.0, 1.0])).unwrap();
    assert_eq!(values(sigmoid.outputs()), before);
    assert_eq!(first, second);
}

#[test]
fn activation_gradients_match_finite_differences() {
    let inputs = [0.6, -1.2, 0.8, 1.5, 0.1, -0.4];
    let coefficients = [1.0, -2.0, 0.5, 1.5, -0.75, 2.0];
    let h = 1e-6;
    for kind in all_kinds() {
        let loss = |x: &[f64]| -> f64 {
            let mut layer: ActivationCPULayer<Wide> =
                ActivationCPULayer::new(ActivationLayer { activation: kind }, vec![2, 3]).unwrap();
            wide_values(&layer.forward_propagate(wide(&[2, 3], x)))
                .iter()
                .zip(coefficients.iter())
                .map(|(o, c)| o * c)
                .sum()
        };
        let mut layer: ActivationCPULayer<Wide> =
            ActivationCPULayer::new(ActivationLayer { activation: kind }, vec![2, 3]).unwrap();
        layer.forward_propagate(wide(&[2, 3], &inputs));
        let analytic = wide_values(&layer.backward_propagate(wide(&[2, 3], &coefficients)).unwrap());
        for i in 0..inputs.len() {
            let mut up = inputs;
            let mut down = inputs;
            up[i] += h;
            down[i] -= h;
            let numeric = (loss(&up) - loss(&down)) / (2.0 * h);
            assert!(
                close(analytic[i], numeric),
                "{:?}, input {}: {} and {}",
                kind,
                i,
                analytic[i],
                numeric
            );
        }
    }
}
