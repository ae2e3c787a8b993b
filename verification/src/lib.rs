//! Feed-forward neural network parameter storage and network builders.
//!
//! The crate keeps the parameters of a fully connected feed-forward network
//! (biases and weights of every non-input layer) either in one contiguous
//! heap buffer (`ParamsHeap`) or in a chain of fixed-size layers whose sizes
//! are part of the type (`ParamsStack`). Both expose the same flat layout:
//! all biases layer by layer, then all weights layer by layer and, inside a
//! layer, neuron by neuron, each neuron's incoming weights contiguous.
//!
//! Parameter values are of a generic `Copy` type; evaluating a network on
//! floating-point inputs is left to the caller.

pub mod ffnn;
pub mod layout;
pub mod params;

pub use ffnn::activation::{ActivationType, ActivationVal, Linear, ReLU, Unset};
