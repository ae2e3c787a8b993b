//! A network whose parameters live on the heap, and a builder for it.

use crate::ffnn::activation::ActivationVal;
use crate::ffnn::forward::{feed_forward, forward_alloc, network_output};
use crate::layout::{bias_layers, param_total, weight_layers, widest};
use crate::params::{Params, ParamsHeap};
use vstd::prelude::*;
use vstd::slice::slice_to_vec;

verus! {

/// A network whose parameters are stored in one contiguous heap buffer.
pub struct FFNNHeap<T> {
    /// Parameters of the network.
    params: ParamsHeap<T>,
    /// Activation function.
    activation: ActivationVal,
}

impl<T: Copy> Clone for FFNNHeap<T> {
    fn clone(&self) -> (r: Self)
        ensures
            r.spec_params().wf() == self.spec_params().wf(),
            r.spec_params().spec_layer_sizes() == self.spec_params().spec_layer_sizes(),
            r.spec_params().spec_params() == self.spec_params().spec_params(),
            r.spec_activation() == self.spec_activation(),
    {
        FFNNHeap { params: self.params.clone(), activation: self.activation }
    }
}

impl<T> FFNNHeap<T> {
    /// The parameter store of the network.
    pub closed spec fn spec_params(self) -> ParamsHeap<T> {
        self.params
    }

    /// The activation function of the network.
    pub closed spec fn spec_activation(self) -> ActivationVal {
        self.activation
    }
}

impl<T: Copy> FFNNHeap<T> {
    /// Takes ownership of `params` and sets the activation function.
    pub fn new(params: ParamsHeap<T>, activation: ActivationVal) -> (r: Self)
        ensures
            r.spec_params() == params,
            r.spec_activation() == activation,
    {
        FFNNHeap { params, activation }
    }

    /// Returns the parameter store.
    pub fn params(&self) -> (r: &ParamsHeap<T>)
        ensures
            *r == self.spec_params(),
    {
        &self.params
    }

    /// Returns the parameter store for changing.
    pub fn params_mut(&mut self) -> (r: &mut ParamsHeap<T>)
        ensures
            *r == old(self).spec_params(),
            final(self).spec_params() == *final(r),
            final(self).spec_activation() == old(self).spec_activation(),
    {
        &mut self.params
    }

    /// Returns the activation function.
    pub fn activation(&self) -> (r: ActivationVal)
        ensures
            r == self.spec_activation(),
    {
        self.activation
    }

    /// Feeds `input` forward through the network without allocating,
    /// using `buffer` for the layer values; `output` receives the first
    /// `output.len()` values of the output layer.
    ///
    /// `mul_add(acc, w, x)` adds the weighted input `w * x` to `acc`;
    /// `activate` is the activation function to apply.
    pub fn forward_with_act<F: Fn(T, T, T) -> T, G: Fn(T) -> T>(
        &self,
        mul_add: &F,
        activate: &G,
        input: &[T],
        output: &mut [T],
        buffer: &mut [T],
    )
        requires
            self.spec_params().wf(),
            forall|a: T, b: T, c: T| call_requires(*mul_add, (a, b, c)),
            forall|a: T| call_requires(*activate, (a,)),
            input@.len() == self.spec_params().spec_layer_sizes()[0],
            old(output)@.len() <= self.spec_params().spec_layer_sizes().last(),
            old(buffer)@.len() >= 2 * widest(self.spec_params().spec_layer_sizes()),
        ensures
            exists|values: Seq<T>|
                #[trigger] network_output(
                    *mul_add,
                    *activate,
                    bias_layers(
                        self.spec_params().spec_layer_sizes(),
                        self.spec_params().spec_params(),
                    ),
                    weight_layers(
                        self.spec_params().spec_layer_sizes(),
                        self.spec_params().spec_params(),
                    ),
                    input@,
                    values,
                ) && final(output)@ == values.take(old(output)@.len() as int),
    {
        feed_forward(&self.params, mul_add, activate, input, output, buffer)
    }
}

impl<T: Copy> FFNNHeap<T> {
    /// Feeds `input` forward through the network with its own activation
    /// function, without allocating: `buffer` holds the layer values and
    /// `output` receives the first `output.len()` values of the output
    /// layer.
    ///
    /// `mul_add(acc, w, x)` adds the weighted input `w * x` to `acc`;
    /// `relu` and `linear` are the two activation functions a network can
    /// name. Returns `false`, leaving `output` as it is, when the network has
    /// no activation function.
    pub fn forward_with_buff<F: Fn(T, T, T) -> T, G: Fn(T) -> T, H: Fn(T) -> T>(
        &self,
        mul_add: &F,
        relu: &G,
        linear: &H,
        input: &[T],
        output: &mut [T],
        buffer: &mut [T],
    ) -> (ok: bool)
        requires
            self.spec_params().wf(),
            forall|a: T, b: T, c: T| call_requires(*mul_add, (a, b, c)),
            forall|a: T| call_requires(*relu, (a,)),
            forall|a: T| call_requires(*linear, (a,)),
            input@.len() == self.spec_params().spec_layer_sizes()[0],
            old(output)@.len() <= self.spec_params().spec_layer_sizes().last(),
            old(buffer)@.len() >= 2 * widest(self.spec_params().spec_layer_sizes()),
        ensures
            ok <==> self.spec_activation() != ActivationVal::Unset,
            !ok ==> final(output)@ == old(output)@,
            ({
                let sizes = self.spec_params().spec_layer_sizes();
                let params = self.spec_params().spec_params();
                self.spec_activation() == ActivationVal::ReLU ==> exists|values: Seq<T>|
                    #[trigger] network_output(
                        *mul_add,
                        *relu,
                        bias_layers(sizes, params),
                        weight_layers(sizes, params),
                        input@,
                        values,
                    ) && final(output)@ == values.take(old(output)@.len() as int)
            }),
            ({
                let sizes = self.spec_params().spec_layer_sizes();
                let params = self.spec_params().spec_params();
                self.spec_activation() == ActivationVal::Linear ==> exists|values: Seq<T>|
                    #[trigger] network_output(
                        *mul_add,
                        *linear,
                        bias_layers(sizes, params),
                        weight_layers(sizes, params),
                        input@,
                        values,
                    ) && final(output)@ == values.take(old(output)@.len() as int)
            }),
    {
        match self.activation {
            ActivationVal::Unset => false,
            ActivationVal::ReLU => {
                feed_forward(&self.params, mul_add, relu, input, output, buffer);
                true
            },
            ActivationVal::Linear => {
                feed_forward(&self.params, mul_add, linear, input, output, buffer);
                true
            },
        }
    }
}

impl<T: Copy + Default> FFNNHeap<T> {
    /// Feeds `input` forward through the network with its own activation
    /// function and returns the values of the output layer in a new vector,
    /// or `None` when the network has no activation function.
    ///
    /// `mul_add(acc, w, x)` adds the weighted input `w * x` to `acc`;
    /// `relu` and `linear` are the two activation functions a network can
    /// name.
    pub fn forward_alloc<F: Fn(T, T, T) -> T, G: Fn(T) -> T, H: Fn(T) -> T>(
        &self,
        mul_add: &F,
        relu: &G,
        linear: &H,
        input: &[T],
    ) -> (r: Option<Vec<T>>)
        requires
            self.spec_params().wf(),
            forall|a: T, b: T, c: T| call_requires(*mul_add, (a, b, c)),
            forall|a: T| call_requires(*relu, (a,)),
            forall|a: T| call_requires(*linear, (a,)),
            input@.len() == self.spec_params().spec_layer_sizes()[0],
        ensures
            r is None <==> self.spec_activation() == ActivationVal::Unset,
            r is Some ==> r->0@.len() == self.spec_params().spec_layer_sizes().last(),
            self.spec_activation() == ActivationVal::ReLU ==> network_output(
                *mul_add,
                *relu,
                bias_layers(self.spec_params().spec_layer_sizes(), self.spec_params().spec_params()),
                weight_layers(
                    self.spec_params().spec_layer_sizes(),
                    self.spec_params().spec_params(),
                ),
                input@,
                r->0@,
            ),
            self.spec_activation() == ActivationVal::Linear ==> network_output(
                *mul_add,
                *linear,
                bias_layers(self.spec_params().spec_layer_sizes(), self.spec_params().spec_params()),
                weight_layers(
                    self.spec_params().spec_layer_sizes(),
                    self.spec_params().spec_params(),
                ),
                input@,
                r->0@,
            ),
    {
        match self.activation {
            ActivationVal::Unset => None,
            ActivationVal::ReLU => Some(forward_alloc(&self.params, mul_add, relu, input)),
            ActivationVal::Linear => Some(forward_alloc(&self.params, mul_add, linear, input)),
        }
    }
}

/// Builds an `FFNNHeap` step by step: layer sizes or parameters, and the
/// activation function, in any order.
pub struct HeapBuilder<T> {
    ffnn: Option<FFNNHeap<T>>,
    activation: ActivationVal,
}

impl<T> HeapBuilder<T> {
    /// The network built so far, if any.
    pub closed spec fn spec_ffnn(self) -> Option<FFNNHeap<T>> {
        self.ffnn
    }

    /// The activation function kept for a network not made yet.
    pub closed spec fn spec_pending_activation(self) -> ActivationVal {
        self.activation
    }

    /// The activation function the next network made by `params`,
    /// `topology` or `topology_owned` gets: that of the network built so
    /// far, or else the one kept for later.
    pub open spec fn spec_chosen_activation(self) -> ActivationVal {
        match self.spec_ffnn() {
            None => self.spec_pending_activation(),
            Some(net) => net.spec_activation(),
        }
    }

    /// The builder after `activation(act)`: the activation is kept for a
    /// later network and given to the network built so far.
    pub closed spec fn spec_with_activation(self, act: ActivationVal) -> Self {
        HeapBuilder {
            ffnn: match self.ffnn {
                None => None,
                Some(net) => Some(FFNNHeap { params: net.params, activation: act }),
            },
            activation: act,
        }
    }
}

impl<T: Copy> HeapBuilder<T> {
    /// `after` is this builder once a network with layer sizes `sizes` was
    /// made: the network has the chosen activation function, and no
    /// activation is kept for later.
    pub open spec fn spec_made_with_sizes(self, sizes: Seq<usize>, after: Self) -> bool {
        &&& after.spec_ffnn() is Some
        &&& after.spec_ffnn()->0.spec_params().wf()
        &&& after.spec_ffnn()->0.spec_params().spec_layer_sizes() == sizes
        &&& after.spec_ffnn()->0.spec_activation() == self.spec_chosen_activation()
        &&& after.spec_pending_activation() == ActivationVal::Unset
    }
}

impl<T: Copy> Clone for HeapBuilder<T> {
    fn clone(&self) -> (r: Self)
        ensures
            r.spec_pending_activation() == self.spec_pending_activation(),
            r.spec_ffnn() is Some <==> self.spec_ffnn() is Some,
            self.spec_ffnn() is Some ==> {
                let (a, b) = (r.spec_ffnn()->0, self.spec_ffnn()->0);
                &&& a.spec_activation() == b.spec_activation()
                &&& a.spec_params().wf() == b.spec_params().wf()
                &&& a.spec_params().spec_layer_sizes() == b.spec_params().spec_layer_sizes()
                &&& a.spec_params().spec_params() == b.spec_params().spec_params()
            },
    {
        let ffnn = match &self.ffnn {
            None => None,
            Some(net) => Some(net.clone()),
        };
        HeapBuilder { ffnn, activation: self.activation }
    }
}

impl<T> Default for HeapBuilder<T> {
    fn default() -> (r: Self)
        ensures
            r.spec_ffnn() is None,
            r.spec_pending_activation() == ActivationVal::Unset,
    {
        HeapBuilder { ffnn: None, activation: ActivationVal::Unset }
    }
}

impl<T: Copy> HeapBuilder<T> {
    /// Creates a builder with no network and no activation function.
    pub fn new() -> (r: Self)
        ensures
            r.spec_ffnn() is None,
            r.spec_pending_activation() == ActivationVal::Unset,
    {
        HeapBuilder::default()
    }

    /// Makes the network from `params`, taking ownership of them.
    ///
    /// The network keeps the activation function of the network built so
    /// far, if there is one, and has none otherwise.
    pub fn params_owned(self, params: ParamsHeap<T>) -> (r: Self)
        ensures
            r.spec_ffnn() is Some,
            r.spec_ffnn()->0.spec_params() == params,
            r.spec_ffnn()->0.spec_activation() == match self.spec_ffnn() {
                None => ActivationVal::Unset,
                Some(net) => net.spec_activation(),
            },
            r.spec_pending_activation() == ActivationVal::Unset,
    {
        let activation = match &self.ffnn {
            None => ActivationVal::Unset,
            Some(val) => val.activation,
        };
        HeapBuilder { ffnn: Some(FFNNHeap::new(params, activation)), activation: ActivationVal::Unset }
    }

    /// Makes the network from a copy of the layer sizes and parameters of
    /// `params`, with the chosen activation function.
    pub fn params<P: Params<T>>(self, params: &P) -> (r: Self)
        requires
            params.wf(),
            params.spec_layer_sizes().len() > 1,
        ensures
            self.spec_made_with_sizes(params.spec_layer_sizes(), r),
            r.spec_ffnn() is Some,
            r.spec_ffnn()->0.spec_params().wf(),
            r.spec_ffnn()->0.spec_params().spec_layer_sizes() == params.spec_layer_sizes(),
            r.spec_ffnn()->0.spec_params().spec_params() == params.spec_params(),
            r.spec_ffnn()->0.spec_activation() == self.spec_chosen_activation(),
            self.spec_ffnn() is Some ==> r.spec_ffnn()->0.spec_activation()
                == self.spec_ffnn()->0.spec_activation(),
            self.spec_ffnn() is None ==> r.spec_ffnn()->0.spec_activation()
                == self.spec_pending_activation(),
            r.spec_pending_activation() == ActivationVal::Unset,
    {
        let params = ParamsHeap::from_params(params);
        let activation = self.get_activation();
        HeapBuilder { ffnn: Some(FFNNHeap::new(params, activation)), activation: ActivationVal::Unset }
    }

    /// Makes the network with the given layer sizes, every parameter set to
    /// `T::default()`, and the chosen activation function.
    pub fn topology_owned(self, topology: Vec<usize>) -> (r: Self)
        where T: Default,
        requires
            topology.len() > 1,
            param_total(topology@) <= usize::MAX,
        ensures
            self.spec_made_with_sizes(topology@, r),
            r.spec_ffnn() is Some,
            r.spec_ffnn()->0.spec_params().wf(),
            r.spec_ffnn()->0.spec_params().spec_layer_sizes() == topology@,
            r.spec_ffnn()->0.spec_params().spec_params().len() == param_total(topology@),
            forall|i: int|
                0 <= i < r.spec_ffnn()->0.spec_params().spec_params().len() ==> call_ensures(
                    T::default,
                    (),
                    #[trigger] r.spec_ffnn()->0.spec_params().spec_params()[i],
                ),
            r.spec_ffnn()->0.spec_activation() == self.spec_chosen_activation(),
            self.spec_ffnn() is Some ==> r.spec_ffnn()->0.spec_activation()
                == self.spec_ffnn()->0.spec_activation(),
            self.spec_ffnn() is None ==> r.spec_ffnn()->0.spec_activation()
                == self.spec_pending_activation(),
            r.spec_pending_activation() == ActivationVal::Unset,
    {
        let params = ParamsHeap::new(topology);
        let activation = self.get_activation();
        HeapBuilder { ffnn: Some(FFNNHeap::new(params, activation)), activation: ActivationVal::Unset }
    }

    /// Makes the network with a copy of the given layer sizes, every
    /// parameter set to `T::default()`, and the chosen activation function.
    pub fn topology(self, topology: &[usize]) -> (r: Self)
        where T: Default,
        requires
            topology@.len() > 1,
            param_total(topology@) <= usize::MAX,
        ensures
            self.spec_made_with_sizes(topology@, r),
            r.spec_ffnn() is Some,
            r.spec_ffnn()->0.spec_params().wf(),
            r.spec_ffnn()->0.spec_params().spec_layer_sizes() == topology@,
            r.spec_ffnn()->0.spec_params().spec_params().len() == param_total(topology@),
            forall|i: int|
                0 <= i < r.spec_ffnn()->0.spec_params().spec_params().len() ==> call_ensures(
                    T::default,
                    (),
                    #[trigger] r.spec_ffnn()->0.spec_params().spec_params()[i],
                ),
            r.spec_ffnn()->0.spec_activation() == self.spec_chosen_activation(),
            self.spec_ffnn() is Some ==> r.spec_ffnn()->0.spec_activation()
                == self.spec_ffnn()->0.spec_activation(),
            self.spec_ffnn() is None ==> r.spec_ffnn()->0.spec_activation()
                == self.spec_pending_activation(),
            r.spec_pending_activation() == ActivationVal::Unset,
    {
        let params = ParamsHeap::new(slice_to_vec(topology));
        let activation = self.get_activation();
        HeapBuilder { ffnn: Some(FFNNHeap::new(params, activation)), activation: ActivationVal::Unset }
    }

    /// Chooses the activation function: for the network built so far, if
    /// any, and for a network made later.
    pub fn activation(self, act: ActivationVal) -> (r: Self)
        ensures
            r == self.spec_with_activation(act),
            r.spec_chosen_activation() == act,
            r.spec_pending_activation() == act,
            r.spec_ffnn() is Some <==> self.spec_ffnn() is Some,
            self.spec_ffnn() is Some ==> r.spec_ffnn()->0.spec_activation() == act
                && r.spec_ffnn()->0.spec_params() == self.spec_ffnn()->0.spec_params(),
    {
        let mut this = self;
        this.activation = act;
        match this.ffnn {
            None => this,
            Some(net) => HeapBuilder {
                ffnn: Some(FFNNHeap { params: net.params, activation: act }),
                activation: act,
            },
        }
    }

    fn get_activation(&self) -> (r: ActivationVal)
        ensures
            r == self.spec_chosen_activation(),
            self.spec_ffnn() is Some ==> r == self.spec_ffnn()->0.spec_activation(),
            self.spec_ffnn() is None ==> r == self.spec_pending_activation(),
    {
        match &self.ffnn {
            None => self.activation,
            Some(val) => val.activation,
        }
    }

    /// Returns the network, if layer sizes or parameters were given.
    pub fn build(self) -> (r: Option<FFNNHeap<T>>)
        ensures
            r == self.spec_ffnn(),
    {
        self.ffnn
    }
}

/// Choosing an activation function makes it the one of the network built so
/// far and of any network made later: whether it is chosen before or after
/// the layer sizes or parameters, the built network has it, and the
/// parameters already made are kept. Of two choices the later one counts.
pub proof fn lemma_chosen_activation_sticks<T>(
    b: HeapBuilder<T>,
    earlier: ActivationVal,
    act: ActivationVal,
)
    ensures
        b.spec_with_activation(earlier).spec_with_activation(act) == b.spec_with_activation(act),
        b.spec_with_activation(act).spec_chosen_activation() == act,
        b.spec_with_activation(act).spec_ffnn() is Some <==> b.spec_ffnn() is Some,
        b.spec_ffnn() is Some ==> b.spec_with_activation(act).spec_ffnn()->0.spec_activation()
            == act && b.spec_with_activation(act).spec_ffnn()->0.spec_params()
            == b.spec_ffnn()->0.spec_params(),
{
}

/// Choosing the activation function before or after making the network
/// with given layer sizes gives the same network activation and layer
/// sizes: `first` chose the activation, then made the network; `second`
/// made the network, then chose the activation.
pub proof fn lemma_activation_order_irrelevant<T: Copy>(
    b: HeapBuilder<T>,
    act: ActivationVal,
    sizes: Seq<usize>,
    first: HeapBuilder<T>,
    made: HeapBuilder<T>,
)
    requires
        b.spec_with_activation(act).spec_made_with_sizes(sizes, first),
        b.spec_made_with_sizes(sizes, made),
    ensures
        ({
            let second = made.spec_with_activation(act);
            &&& first.spec_ffnn() is Some
            &&& second.spec_ffnn() is Some
            &&& first.spec_ffnn()->0.spec_activation() == act
            &&& second.spec_ffnn()->0.spec_activation() == act
            &&& first.spec_ffnn()->0.spec_params().spec_layer_sizes() == sizes
            &&& second.spec_ffnn()->0.spec_params().spec_layer_sizes() == sizes
        }),
{
    lemma_chosen_activation_sticks(b, act, act);
    lemma_chosen_activation_sticks(made, act, act);
}

/// The network made by `params`, `topology` or `topology_owned` keeps the
/// activation function of the network the builder already holds; only a
/// builder without a network hands on the activation function kept for
/// later.
pub proof fn lemma_made_network_activation<T: Copy>(
    b: HeapBuilder<T>,
    sizes: Seq<usize>,
    after: HeapBuilder<T>,
)
    requires
        b.spec_made_with_sizes(sizes, after),
    ensures
        after.spec_ffnn() is Some,
        b.spec_ffnn() is Some ==> after.spec_ffnn()->0.spec_activation()
            == b.spec_ffnn()->0.spec_activation(),
        b.spec_ffnn() is None ==> after.spec_ffnn()->0.spec_activation()
            == b.spec_pending_activation(),
{
}

/// An activation function chosen once survives any number of later
/// network-making steps: after `activation(act)` and then two calls that
/// make a network (with layer sizes `first_sizes`, then `second_sizes`), the
/// last network still has `act`, though no activation is kept for later
/// after the first of those calls.
pub proof fn lemma_activation_survives_remaking<T: Copy>(
    b: HeapBuilder<T>,
    act: ActivationVal,
    first_sizes: Seq<usize>,
    first: HeapBuilder<T>,
    second_sizes: Seq<usize>,
    second: HeapBuilder<T>,
)
    requires
        b.spec_with_activation(act).spec_made_with_sizes(first_sizes, first),
        first.spec_made_with_sizes(second_sizes, second),
    ensures
        first.spec_pending_activation() == ActivationVal::Unset,
        second.spec_ffnn() is Some,
        second.spec_ffnn()->0.spec_activation() == act,
        second.spec_ffnn()->0.spec_params().spec_layer_sizes() == second_sizes,
{
    lemma_chosen_activation_sticks(b, act, act);
    lemma_made_network_activation(b.spec_with_activation(act), first_sizes, first);
    lemma_made_network_activation(first, second_sizes, second);
}

/// A step taken on a `HeapBuilder`: choosing an activation function, or
/// making the network (`params`, `params_owned`, `topology`,
/// `topology_owned`).
pub enum BuilderStep {
    /// `activation` with the given activation function.
    ChooseActivation(ActivationVal),
    /// One of the calls that make the network.
    MakeNetwork,
}

/// `after` is what the step can turn `before` into, as the contracts of the
/// builder's methods state it.
pub open spec fn spec_step_result<T: Copy>(
    before: HeapBuilder<T>,
    step: BuilderStep,
    after: HeapBuilder<T>,
) -> bool {
    match step {
        BuilderStep::ChooseActivation(act) => after == before.spec_with_activation(act),
        BuilderStep::MakeNetwork => after.spec_ffnn() is Some,
    }
}

/// Starting from a builder without a network, such as `HeapBuilder::new()`,
/// a sequence of steps leaves a network to `build` exactly when one of the
/// steps made one: choosing activation functions alone builds nothing.
pub proof fn lemma_built_iff_made<T: Copy>(states: Seq<HeapBuilder<T>>, steps: Seq<BuilderStep>)
    requires
        states.len() == steps.len() + 1,
        states[0].spec_ffnn() is None,
        forall|i: int|
            0 <= i < steps.len() ==> spec_step_result(states[i], #[trigger] steps[i], states[i + 1]),
    ensures
        states.last().spec_ffnn() is Some <==> exists|i: int|
            0 <= i < steps.len() && #[trigger] steps[i] is MakeNetwork,
    decreases steps.len(),
{
    if steps.len() > 0 {
        let n = steps.len() - 1;
        let prev_states = states.drop_last();
        let prev_steps = steps.drop_last();
        assert forall|i: int| 0 <= i < prev_steps.len() implies spec_step_result(
            prev_states[i],
            #[trigger] prev_steps[i],
            prev_states[i + 1],
        ) by {
            assert(spec_step_result(states[i], steps[i], states[i + 1]));
        }
        lemma_built_iff_made(prev_states, prev_steps);
        assert(spec_step_result(states[n], steps[n], states[n + 1]));
        if exists|i: int| 0 <= i < prev_steps.len() && #[trigger] prev_steps[i] is MakeNetwork {
            let i = choose|i: int| 0 <= i < prev_steps.len() && #[trigger] prev_steps[i] is MakeNetwork;
            assert(steps[i] is MakeNetwork);
        }
        if exists|i: int| 0 <= i < steps.len() && #[trigger] steps[i] is MakeNetwork {
            let i = choose|i: int| 0 <= i < steps.len() && #[trigger] steps[i] is MakeNetwork;
            if i < n {
                assert(prev_steps[i] is MakeNetwork);
            }
        }
    }
}

} // verus!
