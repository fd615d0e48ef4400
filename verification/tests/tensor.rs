use cpu_layers::reduce::total;
use cpu_layers::scalar::positive;
use cpu_layers::shape::{checked_element_count, is_valid_shape, same_shape};
use cpu_layers::softmax::{jacobian_term, larger};
use cpu_layers::tensor::{append_copy, copy_of};
use cpu_layers::{Scalar, Tensor};

#[derive(Clone, Copy, Debug, PartialEq)]
struct Real(f32);

impl Scalar for Real {
    fn zero() -> Self {
        Real(0.0)
    }

    fn one() -> Self {
        Real(1.0)
    }

    fn epsilon() -> Self {
        Real(f32::EPSILON)
    }

    fn add(self, rhs: Self) -> Self {
        Real(self.0 + rhs.0)
    }

    fn sub(self, rhs: Self) -> Self {
        Real(self.0 - rhs.0)
    }

    fn mul(self, rhs: Self) -> Self {
        Real(self.0 * rhs.0)
    }

    fn div(self, rhs: Self) -> Self {
        Real(self.0 / rhs.0)
    }

    fn neg(self) -> Self {
        Real(-self.0)
    }

    fn exp(self) -> Self {
        Real(self.0.exp())
    }

    fn tanh(self) -> Self {
        Real(self.0.tanh())
    }

    fn less_than(self, rhs: Self) -> bool {
        self.0 < rhs.0
    }
}

#[test]
fn tensor_from_vec_takes_matching_extents() {
    let t = Tensor::from_vec(vec![2, 3], vec![1, 2, 3, 4, 5, 6]).unwrap();
    assert_eq!(t.shape(), &vec![2, 3]);
    assert_eq!(t.data(), &vec![1, 2, 3, 4, 5, 6]);
    assert_eq!(t.len(), 6);
    assert_eq!(t.rank(), 2);
    assert_eq!(t.batches(), 2);
    assert_eq!(t.sample_len(), 3);
}

#[test]
fn tensor_from_vec_refuses_other_counts() {
    assert!(Tensor::from_vec(vec![2, 3], vec![0u8; 5]).is_none());
    assert!(Tensor::from_vec(vec![2, 3], vec![0u8; 7]).is_none());
    assert!(Tensor::from_vec(vec![2, 3], Vec::<u8>::new()).is_none());
}

#[test]
fn tensor_from_vec_refuses_extents_that_are_not_positive() {
    assert!(Tensor::from_vec(vec![], vec![0u8; 1]).is_none());
    assert!(Tensor::from_vec(vec![0], Vec::<u8>::new()).is_none());
    assert!(Tensor::from_vec(vec![2, 0], Vec::<u8>::new()).is_none());
    assert!(Tensor::from_vec(vec![0, 2], Vec::<u8>::new()).is_none());
}

#[test]
fn tensor_from_vec_refuses_a_count_beyond_the_machine() {
    assert!(Tensor::from_vec(vec![usize::MAX, 2], vec![0u8; 4]).is_none());
    assert!(Tensor::from_vec(vec![usize::MAX, usize::MAX], vec![0u8; 1]).is_none());
}

#[test]
fn tensor_sample_len_is_the_product_after_the_batch_axis() {
    let t = Tensor::from_vec(vec![2, 3, 4], vec![0u8; 24]).unwrap();
    assert_eq!(t.batches(), 2);
    assert_eq!(t.sample_len(), 12);
    let t = Tensor::from_vec(vec![5], vec![0u8; 5]).unwrap();
    assert_eq!(t.batches(), 5);
    assert_eq!(t.sample_len(), 1);
}

#[test]
fn tensor_get_reads_in_row_major_order() {
    let t = Tensor::from_vec(vec![2, 2], vec![10, 20, 30, 40]).unwrap();
    assert_eq!(t.get(0), Some(10));
    assert_eq!(t.get(1), Some(20));
    assert_eq!(t.get(3), Some(40));
    assert_eq!(t.get(4), None);
    assert_eq!(t.get(usize::MAX), None);
}

#[test]
fn tensor_zeros_fills_with_the_zero_of_the_element_type() {
    let t: Tensor<Real> = Tensor::zeros(vec![2, 3]).unwrap();
    assert_eq!(t.shape(), &vec![2, 3]);
    assert_eq!(t.data(), &vec![Real(0.0); 6]);
    assert!(Tensor::<Real>::zeros(vec![2, 0]).is_none());
    assert!(Tensor::<Real>::zeros(vec![]).is_none());
    assert!(Tensor::<Real>::zeros(vec![usize::MAX, 2]).is_none());
}

#[test]
fn tensor_copies_are_equal_and_apart() {
    let t = Tensor::from_vec(vec![2, 2], vec![1, 2, 3, 4]).unwrap();
    let d = t.duplicate();
    let c = t.clone();
    assert_eq!(d, t);
    assert_eq!(c, t);
    let (shape, data) = d.into_parts();
    assert_eq!(shape, vec![2, 2]);
    assert_eq!(data, vec![1, 2, 3, 4]);
    assert_eq!(t.data(), &vec![1, 2, 3, 4]);
}

#[test]
fn tensor_shapes_compare_by_rank_and_extents() {
    let a = Tensor::from_vec(vec![2, 3], vec![0u8; 6]).unwrap();
    let b = Tensor::from_vec(vec![2, 3], vec![1u8; 6]).unwrap();
    let c = Tensor::from_vec(vec![3, 2], vec![0u8; 6]).unwrap();
    let d = Tensor::from_vec(vec![6], vec![0u8; 6]).unwrap();
    assert!(a.same_shape(&b));
    assert!(!a.same_shape(&c));
    assert!(!a.same_shape(&d));
    assert!(a.has_shape(&vec![2, 3]));
    assert!(!a.has_shape(&vec![2, 3, 1]));
    assert!(!a.has_shape(&vec![2]));
}

#[test]
fn shape_validity_wants_a_batch_axis_and_positive_extents() {
    assert!(is_valid_shape(&vec![1]));
    assert!(is_valid_shape(&vec![3, 4, 5]));
    assert!(!is_valid_shape(&vec![]));
    assert!(!is_valid_shape(&vec![0]));
    assert!(!is_valid_shape(&vec![3, 0, 5]));
    assert!(!is_valid_shape(&vec![3, 4, 0]));
}

#[test]
fn shape_count_is_the_product_of_the_extents() {
    assert_eq!(checked_element_count(&vec![7]), Some(7));
    assert_eq!(checked_element_count(&vec![2, 3, 4]), Some(24));
    assert_eq!(checked_element_count(&vec![1, 1, 1, 1]), Some(1));
    assert_eq!(checked_element_count(&vec![usize::MAX]), Some(usize::MAX));
    assert_eq!(checked_element_count(&vec![usize::MAX, 1]), Some(usize::MAX));
}

#[test]
fn shape_count_is_none_beyond_the_machine_or_for_no_shape() {
    assert_eq!(checked_element_count(&vec![usize::MAX, 2]), None);
    assert_eq!(checked_element_count(&vec![1 << 40, 1 << 40]), None);
    assert_eq!(checked_element_count(&vec![usize::MAX, 2, 0]), None);
    assert_eq!(checked_element_count(&vec![]), None);
    assert_eq!(checked_element_count(&vec![4, 0]), None);
}

#[test]
fn shape_equality_is_extent_by_extent() {
    assert!(same_shape(&vec![2, 3], &vec![2, 3]));
    assert!(same_shape(&vec![], &vec![]));
    assert!(!same_shape(&vec![2, 3], &vec![3, 2]));
    assert!(!same_shape(&vec![2, 3], &vec![2, 3, 1]));
    assert!(!same_shape(&vec![2], &vec![]));
}

#[test]
fn total_adds_first_to_last_from_zero() {
    assert_eq!(total(&vec![Real(1.0), Real(2.0), Real(3.5)]), Real(6.5));
    assert_eq!(total(&Vec::<Real>::new()), Real(0.0));
    // First to last: the small terms are lost one after another.
    let terms = vec![Real(1.0e8), Real(1.0), Real(1.0), Real(1.0), Real(1.0)];
    assert_eq!(total(&terms), Real(1.0e8));
    let terms = vec![Real(1.0), Real(1.0), Real(1.0), Real(1.0), Real(1.0e8)];
    assert_eq!(total(&terms), Real(1.0e8 + 4.0));
}

#[test]
fn positive_compares_with_zero() {
    assert!(positive(Real(1.0e-30)));
    assert!(positive(Real(f32::INFINITY)));
    assert!(!positive(Real(0.0)));
    assert!(!positive(Real(-2.0)));
    assert!(!positive(Real(f32::NAN)));
}

#[test]
fn larger_keeps_the_first_unless_it_is_less() {
    assert_eq!(larger(Real(1.0), Real(2.0)), Real(2.0));
    assert_eq!(larger(Real(2.0), Real(1.0)), Real(2.0));
    assert_eq!(larger(Real(-3.0), Real(-3.0)), Real(-3.0));
}

#[test]
fn jacobian_term_on_and_off_the_diagonal() {
    assert_eq!(jacobian_term(Real(0.5), Real(0.5), Real(1.0), true), Real(0.25));
    assert_eq!(jacobian_term(Real(0.5), Real(0.5), Real(1.0), false), Real(-0.25));
    assert_eq!(jacobian_term(Real(0.25), Real(0.5), Real(4.0), true), Real(0.75));
    assert_eq!(jacobian_term(Real(0.25), Real(0.5), Real(4.0), false), Real(-0.5));
}

#[test]
fn vectors_are_copied_and_appended() {
    let source = vec![1, 2, 3];
    let mut out = copy_of(&source);
    assert_eq!(out, source);
    append_copy(&mut out, &vec![4, 5]);
    assert_eq!(out, vec![1, 2, 3, 4, 5]);
    append_copy(&mut out, &Vec::new());
    assert_eq!(out, vec![1, 2, 3, 4, 5]);
}
