//! Networks: a parameter store together with an activation function.

pub mod activation;
pub mod forward;
pub mod heap_ffnn;
pub mod stack_ffnn;

pub use crate::params::{Params, ParamsHeap};
pub use heap_ffnn::{FFNNHeap, HeapBuilder};
pub use stack_ffnn::FFNNStack;
