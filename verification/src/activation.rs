//! The pluggable activation capability: a pure elementwise function with
//! its elementwise derivative, and the logistic sigmoid as its variant.
use vstd::prelude::*;
use crate::scalar::{
    sigmoid_bits, sigmoid_deriv_bits, sigmoid_scalar, sigmoid_deriv_scalar, mul_bits, sub_bits,
    ONE_BITS,
};
use crate::vector::Vector;

verus! {

/// A stateless elementwise activation function together with its
/// elementwise derivative. The derivative takes the raw pre-activation
/// vector and recomputes the activation internally, so that every caller
/// passes the same kind of value.
pub trait ActivationFunction: Sized {
    /// The scalar activation, on bit patterns.
    spec fn act_bits(z: u64) -> u64;

    /// The scalar derivative of the activation, on bit patterns.
    spec fn deriv_bits(z: u64) -> u64;

    fn init() -> Self;

    fn activation(&self, input: &Vector) -> (r: Vector)
        ensures
            r@.len() == input@.len(),
            forall|i: int| 0 <= i < input@.len() ==> r@[i] == Self::act_bits(input@[i]),
    ;

    fn derivative(&self, input: &Vector) -> (r: Vector)
        ensures
            r@.len() == input@.len(),
            forall|i: int| 0 <= i < input@.len() ==> r@[i] == Self::deriv_bits(input@[i]),
    ;
}

/// The activation's scalar map as a value, for the network's spec
/// functions.
pub open spec fn act_of<A: ActivationFunction>() -> spec_fn(u64) -> u64 {
    |z: u64| A::act_bits(z)
}

/// The derivative's scalar map as a value, for the trainer's spec
/// functions.
pub open spec fn deriv_of<A: ActivationFunction>() -> spec_fn(u64) -> u64 {
    |z: u64| A::deriv_bits(z)
}

/// The logistic sigmoid, `1 / (1 + e^-z)` elementwise.
pub struct Sigmoid {}

impl ActivationFunction for Sigmoid {
    open spec fn act_bits(z: u64) -> u64 {
        sigmoid_bits(z)
    }

    open spec fn deriv_bits(z: u64) -> u64 {
        sigmoid_deriv_bits(z)
    }

    fn init() -> (s: Self) {
        Sigmoid {  }
    }

    fn activation(&self, input: &Vector) -> (r: Vector) {
        let mut out: Vec<u64> = Vec::new();
        let mut i: usize = 0;
        let n = input.len();
        while i < n
            invariant
                i <= input@.len(),
                n == input@.len(),
                out@.len() == i,
                forall|k: int| 0 <= k < i ==> out@[k] == sigmoid_bits(input@[k]),
            decreases n - i,
        {
            let z = input.inner_ref()[i];
            out.push(sigmoid_scalar(z));
            i += 1;
        }
        Vector::from(out)
    }

    fn derivative(&self, input: &Vector) -> (r: Vector) {
        let mut out: Vec<u64> = Vec::new();
        let mut i: usize = 0;
        let n = input.len();
        while i < n
            invariant
                i <= input@.len(),
                n == input@.len(),
                out@.len() == i,
                forall|k: int| 0 <= k < i ==> out@[k] == sigmoid_deriv_bits(input@[k]),
            decreases n - i,
        {
            let z = input.inner_ref()[i];
            out.push(sigmoid_deriv_scalar(z));
            i += 1;
        }
        Vector::from(out)
    }
}

/// Law: the sigmoid's derivative at any pre-activation equals the sigmoid
/// there times one minus the sigmoid there, over the scalar operations the
/// contracts use.
pub proof fn lemma_sigmoid_derivative(z: u64)
    ensures
        Sigmoid::deriv_bits(z) == mul_bits(
            Sigmoid::act_bits(z),
            sub_bits(ONE_BITS, Sigmoid::act_bits(z)),
        ),
{
}

} // verus!
