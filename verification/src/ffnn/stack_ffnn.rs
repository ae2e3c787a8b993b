//! A network whose layer sizes are part of its type.

use crate::ffnn::activation::{ActivationType, ActivationVal, Unset};
use crate::ffnn::forward::{feed_forward, forward_alloc, network_output};
use crate::layout::{bias_layers, layout_fits, param_total, weight_layers, widest};
use crate::params::{Layer, Params, ParamsStack};
use core::marker::PhantomData;
use vstd::prelude::*;

verus! {

/// A network whose parameters are held in a `ParamsStack`, needing no heap
/// memory. The layer structure is part of its type.
///
/// `Activation` is the activation function used when no activation function
/// is chosen at run time.
pub struct FFNNStack<Layers: Layer, Activation: ActivationType = Unset> {
    params: ParamsStack<Layers>,
    activation: ActivationVal,
    phantom: PhantomData<Activation>,
}

impl<Layers: Layer + Copy, Activation: ActivationType> Clone for FFNNStack<Layers, Activation> {
    fn clone(&self) -> (r: Self)
        ensures
            r.spec_params() == self.spec_params(),
            r.spec_activation() == self.spec_activation(),
    {
        FFNNStack { params: self.params, activation: self.activation, phantom: PhantomData }
    }
}

impl<Layers: Layer + Copy, Activation: ActivationType> Copy for FFNNStack<Layers, Activation> {
}

impl<Layers: Layer, Activation: ActivationType> FFNNStack<Layers, Activation> {
    /// The parameter store of the network.
    pub closed spec fn spec_params(self) -> ParamsStack<Layers> {
        self.params
    }

    /// The activation function chosen at run time.
    pub closed spec fn spec_activation(self) -> ActivationVal {
        self.activation
    }

    /// The activation function the network evaluates with: the one chosen
    /// at run time, or else the one named by `Activation`.
    pub open spec fn spec_effective_activation(self) -> ActivationVal {
        match self.spec_activation() {
            ActivationVal::Unset => Activation::spec_to_val(),
            chosen => chosen,
        }
    }

    /// Creates a network holding a copy of every parameter of `params`,
    /// with the given activation function.
    pub fn new<P: Params<Layers::Value>>(params: &P, activation: ActivationVal) -> (r: Self)
        requires
            Layers::consistent(),
            layout_fits(Layers::spec_topology()),
            params.wf(),
            params.spec_params().len() == param_total(Layers::spec_topology()),
        ensures
            r.spec_params().wf(),
            r.spec_params().spec_params() == params.spec_params(),
            r.spec_activation() == activation,
    {
        FFNNStack {
            params: ParamsStack::from_params(params),
            activation: activation,
            phantom: PhantomData,
        }
    }

    /// Creates a network with every parameter set to the default value and
    /// the given activation function.
    pub fn with_activation(activation: ActivationVal) -> (r: Self)
        ensures
            r.spec_params().wf() <==> Layers::consistent() && layout_fits(Layers::spec_topology()),
            r.spec_params().spec_layer_sizes() == Layers::spec_topology(),
            forall|i: int|
                0 <= i < r.spec_params().spec_params().len() ==> call_ensures(
                    Layers::Value::default,
                    (),
                    #[trigger] r.spec_params().spec_params()[i],
                ),
            r.spec_activation() == activation,
    {
        let mut result = Self::default();
        result.activation = activation;
        result
    }

    /// Creates a network holding a copy of every parameter of `params`, with
    /// no activation function chosen at run time.
    pub fn from_params<P: Params<Layers::Value>>(params: &P) -> (r: Self)
        requires
            Layers::consistent(),
            layout_fits(Layers::spec_topology()),
            params.wf(),
            params.spec_params().len() == param_total(Layers::spec_topology()),
        ensures
            r.spec_params().wf(),
            r.spec_params().spec_params() == params.spec_params(),
            r.spec_activation() == ActivationVal::Unset,
    {
        let mut result = Self::default();
        result.params = ParamsStack::from_params(params);
        result
    }

    /// Returns the parameter store.
    pub fn params(&self) -> (r: &ParamsStack<Layers>)
        ensures
            *r == self.spec_params(),
    {
        &self.params
    }

    /// Returns the parameter store for changing.
    pub fn params_mut(&mut self) -> (r: &mut ParamsStack<Layers>)
        ensures
            *r == old(self).spec_params(),
            final(self).spec_params() == *final(r),
            final(self).spec_activation() == old(self).spec_activation(),
    {
        &mut self.params
    }

    /// Feeds `inputs` forward through the network, using `buffer` for the
    /// layer values; `outputs` receives the first `outputs.len()` values of
    /// the output layer.
    ///
    /// `mul_add(acc, w, x)` adds the weighted input `w * x` to `acc`;
    /// `activate` is the activation function to apply, the one
    /// `effective_activation` names.
    pub fn forward_with_act<F: Fn(Layers::Value, Layers::Value, Layers::Value) -> Layers::Value, G: Fn(
        Layers::Value,
    ) -> Layers::Value>(
        &self,
        mul_add: &F,
        activate: &G,
        inputs: &[Layers::Value],
        outputs: &mut [Layers::Value],
        buffer: &mut [Layers::Value],
    )
        requires
            self.spec_params().wf(),
            forall|a: Layers::Value, b: Layers::Value, c: Layers::Value|
                call_requires(*mul_add, (a, b, c)),
            forall|a: Layers::Value| call_requires(*activate, (a,)),
            inputs@.len() == Layers::spec_topology()[0],
            old(outputs)@.len() <= Layers::spec_topology().last(),
            old(buffer)@.len() >= 2 * widest(Layers::spec_topology()),
        ensures
            exists|values: Seq<Layers::Value>|
                #[trigger] network_output(
                    *mul_add,
                    *activate,
                    bias_layers(Layers::spec_topology(), self.spec_params().spec_params()),
                    weight_layers(Layers::spec_topology(), self.spec_params().spec_params()),
                    inputs@,
                    values,
                ) && final(outputs)@ == values.take(old(outputs)@.len() as int),
    {
        feed_forward(&self.params, mul_add, activate, inputs, outputs, buffer)
    }

    /// Feeds `inputs` forward through the network with the activation
    /// function it evaluates with (`effective_activation`), without
    /// allocating: `buffer` holds the layer values and `outputs` receives the
    /// first `outputs.len()` values of the output layer.
    ///
    /// `mul_add(acc, w, x)` adds the weighted input `w * x` to `acc`;
    /// `relu` and `linear` are the two activation functions a network can
    /// name. Returns `false`, leaving `outputs` as they are, when neither the
    /// network nor `Activation` names an activation function.
    pub fn forward<
        F: Fn(Layers::Value, Layers::Value, Layers::Value) -> Layers::Value,
        G: Fn(Layers::Value) -> Layers::Value,
        H: Fn(Layers::Value) -> Layers::Value,
    >(
        &self,
        mul_add: &F,
        relu: &G,
        linear: &H,
        inputs: &[Layers::Value],
        outputs: &mut [Layers::Value],
        buffer: &mut [Layers::Value],
    ) -> (ok: bool)
        requires
            self.spec_params().wf(),
            forall|a: Layers::Value, b: Layers::Value, c: Layers::Value| call_requires(*mul_add, (a, b, c)),
            forall|a: Layers::Value| call_requires(*relu, (a,)),
            forall|a: Layers::Value| call_requires(*linear, (a,)),
            inputs@.len() == Layers::spec_topology()[0],
            old(outputs)@.len() <= Layers::spec_topology().last(),
            old(buffer)@.len() >= 2 * widest(Layers::spec_topology()),
        ensures
            ok <==> self.spec_effective_activation() != ActivationVal::Unset,
            !ok ==> final(outputs)@ == old(outputs)@,
            ({
                let sizes = Layers::spec_topology();
                let params = self.spec_params().spec_params();
                self.spec_effective_activation() == ActivationVal::ReLU ==> exists|values: Seq<Layers::Value>|
                    #[trigger] network_output(
                        *mul_add,
                        *relu,
                        bias_layers(sizes, params),
                        weight_layers(sizes, params),
                        inputs@,
                        values,
                    ) && final(outputs)@ == values.take(old(outputs)@.len() as int)
            }),
            ({
                let sizes = Layers::spec_topology();
                let params = self.spec_params().spec_params();
                self.spec_effective_activation() == ActivationVal::Linear ==> exists|values: Seq<Layers::Value>|
                    #[trigger] network_output(
                        *mul_add,
                        *linear,
                        bias_layers(sizes, params),
                        weight_layers(sizes, params),
                        inputs@,
                        values,
                    ) && final(outputs)@ == values.take(old(outputs)@.len() as int)
            }),
    {
        match self.effective_activation() {
            ActivationVal::Unset => false,
            ActivationVal::ReLU => {
                feed_forward(&self.params, mul_add, relu, inputs, outputs, buffer);
                true
            },
            ActivationVal::Linear => {
                feed_forward(&self.params, mul_add, linear, inputs, outputs, buffer);
                true
            },
        }
    }

    /// Feeds `inputs` forward through the network with the activation
    /// function it evaluates with (`effective_activation`) and returns the
    /// values of the output layer in a new vector, or `None` when neither the
    /// network nor `Activation` names an activation function.
    pub fn forward_alloc<
        F: Fn(Layers::Value, Layers::Value, Layers::Value) -> Layers::Value,
        G: Fn(Layers::Value) -> Layers::Value,
        H: Fn(Layers::Value) -> Layers::Value,
    >(
        &self,
        mul_add: &F,
        relu: &G,
        linear: &H,
        inputs: &[Layers::Value],
    ) -> (r: Option<Vec<Layers::Value>>)
        requires
            self.spec_params().wf(),
            forall|a: Layers::Value, b: Layers::Value, c: Layers::Value| call_requires(*mul_add, (a, b, c)),
            forall|a: Layers::Value| call_requires(*relu, (a,)),
            forall|a: Layers::Value| call_requires(*linear, (a,)),
            inputs@.len() == Layers::spec_topology()[0],
        ensures
            r is None <==> self.spec_effective_activation() == ActivationVal::Unset,
            r is Some ==> r->0@.len() == Layers::spec_topology().last(),
            self.spec_effective_activation() == ActivationVal::ReLU ==> network_output(
                *mul_add,
                *relu,
                bias_layers(Layers::spec_topology(), self.spec_params().spec_params()),
                weight_layers(Layers::spec_topology(), self.spec_params().spec_params()),
                inputs@,
                r->0@,
            ),
            self.spec_effective_activation() == ActivationVal::Linear ==> network_output(
                *mul_add,
                *linear,
                bias_layers(Layers::spec_topology(), self.spec_params().spec_params()),
                weight_layers(Layers::spec_topology(), self.spec_params().spec_params()),
                inputs@,
                r->0@,
            ),
    {
        match self.effective_activation() {
            ActivationVal::Unset => None,
            ActivationVal::ReLU => Some(forward_alloc(&self.params, mul_add, relu, inputs)),
            ActivationVal::Linear => Some(forward_alloc(&self.params, mul_add, linear, inputs)),
        }
    }

    /// Returns the activation function the network evaluates with: the one
    /// chosen at run time, or else the one named by `Activation`.
    pub fn effective_activation(&self) -> (r: ActivationVal)
        ensures
            r == self.spec_effective_activation(),
            self.spec_activation() == ActivationVal::Unset ==> r == Activation::spec_to_val(),
            self.spec_activation() != ActivationVal::Unset ==> r == self.spec_activation(),
    {
        match self.activation {
            ActivationVal::Unset => Activation::to_val(),
            chosen => chosen,
        }
    }
}

/// The activation function a stack network evaluates with is the one chosen
/// at run time, used as it is; only when none was chosen (as for a network
/// made by `default` or `from_params`) is it the one that the `Activation`
/// type parameter names.
pub proof fn lemma_effective_activation<Layers: Layer, Activation: ActivationType>(
    net: FFNNStack<Layers, Activation>,
)
    ensures
        net.spec_activation() == ActivationVal::Unset ==> net.spec_effective_activation()
            == Activation::spec_to_val(),
        net.spec_activation() != ActivationVal::Unset ==> net.spec_effective_activation()
            == net.spec_activation(),
        net.spec_effective_activation() == ActivationVal::Unset <==> (net.spec_activation()
            == ActivationVal::Unset && Activation::spec_to_val() == ActivationVal::Unset),
{
}

impl<Layers: Layer, Activation: ActivationType> Default for FFNNStack<Layers, Activation> {
    fn default() -> (r: Self)
        ensures
            r.spec_params().wf() <==> Layers::consistent() && layout_fits(Layers::spec_topology()),
            r.spec_params().spec_layer_sizes() == Layers::spec_topology(),
            forall|i: int|
                0 <= i < r.spec_params().spec_params().len() ==> call_ensures(
                    Layers::Value::default,
                    (),
                    #[trigger] r.spec_params().spec_params()[i],
                ),
            r.spec_activation() == ActivationVal::Unset,
    {
        FFNNStack { params: ParamsStack::new(), activation: ActivationVal::default(), phantom: PhantomData }
    }
}

} // verus!
