//! Activation functions, identified by type or by value.
//!
//! The library only names the functions; applying one to a value is up to
//! the caller, who hands it to the forward pass (see `crate::ffnn::forward`).

use vstd::prelude::*;

verus! {

/// The activation function of a network, chosen at run time.
#[derive(Clone, Copy, Debug, PartialEq, Eq, Structural)]
pub enum ActivationVal {
    /// No activation function was chosen; a network with it cannot be evaluated.
    Unset,
    /// Rectified linear unit: `max(x, 0)`.
    ReLU,
    /// The identity.
    Linear,
}

impl Default for ActivationVal {
    fn default() -> (r: Self)
        ensures
            r == ActivationVal::Unset,
    {
        ActivationVal::Unset
    }
}

/// An activation function named by a type, for use as a type parameter.
pub trait ActivationType {
    /// The run-time value naming the same activation function.
    spec fn spec_to_val() -> ActivationVal;

    /// Returns the run-time value naming this activation function.
    fn to_val() -> (r: ActivationVal)
        ensures
            r == Self::spec_to_val(),
    ;
}

/// Rectified linear unit.
pub struct ReLU {}

impl ActivationType for ReLU {
    open spec fn spec_to_val() -> ActivationVal {
        ActivationVal::ReLU
    }

    fn to_val() -> (r: ActivationVal) {
        ActivationVal::ReLU
    }
}

/// The identity function.
pub struct Linear {}

impl ActivationType for Linear {
    open spec fn spec_to_val() -> ActivationVal {
        ActivationVal::Linear
    }

    fn to_val() -> (r: ActivationVal) {
        ActivationVal::Linear
    }
}

/// No activation function; used when the activation is chosen at run time.
pub struct Unset {}

impl ActivationType for Unset {
    open spec fn spec_to_val() -> ActivationVal {
        ActivationVal::Unset
    }

    fn to_val() -> (r: ActivationVal) {
        ActivationVal::Unset
    }
}

} // verus!
