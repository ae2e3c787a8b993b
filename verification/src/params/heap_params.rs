//! A parameter store backed by one contiguous `Vec`.

use crate::layout::{
    bias_layers, bias_total, count_biases, count_weights, layer_count, layout_fits,
    lemma_offsets_monotone, lemma_seq_sum_nonneg, lemma_split_biases, lemma_split_weights,
    lemma_weight_sum_nonneg, param_total, rows, seq_sum, split_by, split_weights, weight_layers,
    weight_sum, weight_total,
};
use crate::params::Params;
use vstd::prelude::*;
use vstd::slice::slice_subrange;

verus! {

/// A `Params` implementation backed by a single contiguous `Vec`.
///
/// Memory layout:
///
/// ```text
/// [ biases ......... | weights ................................. ]
/// ```
///
/// Biases are stored layer by layer, one per neuron of each non-input
/// layer. Weights are stored layer by layer and, within a layer, neuron by
/// neuron, with each neuron's incoming weights contiguous.
pub struct ParamsHeap<T> {
    topology: Vec<usize>,
    buffer: Vec<T>,
    bias_count: usize,
    weight_count: usize,
}

impl<T: Copy> Clone for ParamsHeap<T> {
    fn clone(&self) -> (r: Self)
        ensures
            r.wf() == self.wf(),
            r.spec_layer_sizes() == self.spec_layer_sizes(),
            r.spec_params() == self.spec_params(),
    {
        let n = self.buffer.len();
        let mut buffer: Vec<T> = Vec::with_capacity(n);
        let mut k: usize = 0;
        while k < n
            invariant
                n == self.buffer@.len(),
                k <= n,
                buffer@ == self.buffer@.take(k as int),
            decreases n - k,
        {
            buffer.push(self.buffer[k]);
            k = k + 1;
        }
        assert(buffer@ =~= self.buffer@);
        ParamsHeap {
            topology: self.topology.clone(),
            buffer,
            bias_count: self.bias_count,
            weight_count: self.weight_count,
        }
    }
}

impl<T: Copy> ParamsHeap<T> {
    /// Creates a store for a network with the given layer sizes.
    ///
    /// `topology` lists the number of neurons in each layer, starting with
    /// the input layer, and must contain at least two entries. Every
    /// parameter is set to `T::default()`.
    pub fn new(topology: Vec<usize>) -> (r: Self)
        where T: Default,
        requires
            topology.len() > 1,
            param_total(topology@) <= usize::MAX,
        ensures
            r.wf(),
            r.spec_layer_sizes() == topology@,
            r.spec_params().len() == param_total(topology@),
            forall|i: int| 0 <= i < r.spec_params().len() ==> call_ensures(T::default, (), #[trigger] r.spec_params()[i]),
    {
        let bias_count = count_biases(topology.as_slice());
        let weight_count = count_weights(topology.as_slice());
        let zero = T::default();
        let total = bias_count + weight_count;
        let mut buffer: Vec<T> = Vec::with_capacity(total);
        let mut k: usize = 0;
        while k < total
            invariant
                k <= total,
                buffer@.len() == k,
                forall|i: int| 0 <= i < k ==> buffer@[i] == zero,
            decreases total - k,
        {
            buffer.push(zero);
            k = k + 1;
        }
        ParamsHeap { topology, buffer, bias_count, weight_count }
    }

    /// Returns the bias region as a contiguous slice.
    pub fn bias_slice(&self) -> (r: &[T])
        requires
            self.wf(),
        ensures
            r@ == self.spec_params().take(bias_total(self.spec_layer_sizes())),
    {
        proof {
            lemma_offsets_monotone(self.topology@, 0, layer_count(self.topology@));
        }
        let r = slice_subrange(self.buffer.as_slice(), 0, self.bias_count);
        assert(r@ =~= self.buffer@.take(self.bias_count as int));
        r
    }

    /// Returns the weight region as a contiguous slice.
    pub fn weight_slice(&self) -> (r: &[T])
        requires
            self.wf(),
        ensures
            r@ == self.spec_params().skip(bias_total(self.spec_layer_sizes())),
    {
        proof {
            lemma_offsets_monotone(self.topology@, 0, layer_count(self.topology@));
        }
        let r = slice_subrange(self.buffer.as_slice(), self.bias_count, self.buffer.len());
        assert(r@ =~= self.buffer@.skip(self.bias_count as int));
        r
    }

    /// Returns the bias region as a mutable contiguous slice. The weights
    /// are left as they are; the biases become what is written through the
    /// slice.
    pub fn bias_slice_mut(&mut self) -> (r: &mut [T])
        requires
            old(self).wf(),
        ensures
            r@ == old(self).spec_params().take(bias_total(old(self).spec_layer_sizes())),
            final(r)@.len() == r@.len() ==> final(self).wf(),
            final(self).spec_layer_sizes() == old(self).spec_layer_sizes(),
            final(self).spec_params() == final(r)@ + old(self).spec_params().skip(
                bias_total(old(self).spec_layer_sizes()),
            ),
    {
        proof {
            lemma_offsets_monotone(self.topology@, 0, layer_count(self.topology@));
        }
        let bias_count = self.bias_count;
        let (biases, weights) = self.buffer.as_mut_slice().split_at_mut(bias_count);
        assert(biases@ =~= old(self).buffer@.take(bias_count as int));
        assert(weights@ =~= old(self).buffer@.skip(bias_count as int));
        biases
    }

    /// Returns the weight region as a mutable contiguous slice. The biases
    /// are left as they are; the weights become what is written through the
    /// slice.
    pub fn weight_slice_mut(&mut self) -> (r: &mut [T])
        requires
            old(self).wf(),
        ensures
            r@ == old(self).spec_params().skip(bias_total(old(self).spec_layer_sizes())),
            final(r)@.len() == r@.len() ==> final(self).wf(),
            final(self).spec_layer_sizes() == old(self).spec_layer_sizes(),
            final(self).spec_params() == old(self).spec_params().take(
                bias_total(old(self).spec_layer_sizes()),
            ) + final(r)@,
    {
        proof {
            lemma_offsets_monotone(self.topology@, 0, layer_count(self.topology@));
        }
        let bias_count = self.bias_count;
        let (biases, weights) = self.buffer.as_mut_slice().split_at_mut(bias_count);
        assert(biases@ =~= old(self).buffer@.take(bias_count as int));
        assert(weights@ =~= old(self).buffer@.skip(bias_count as int));
        weights
    }

    /// Returns an iterator over the bias layers: each call of `next` yields
    /// one non-input layer's biases as a slice.
    pub fn bias_layers(&self) -> (r: BiasIter<'_, '_, T>)
        requires
            self.wf(),
        ensures
            r@ == bias_layers(self.spec_layer_sizes(), self.spec_params()),
    {
        proof {
            lemma_split_biases(self.topology@, self.buffer@, 0);
            lemma_offsets_monotone(self.topology@, 0, layer_count(self.topology@));
            assert(self.topology@.subrange(1, self.topology@.len() as int) =~= self.topology@.drop_first());
            assert(self.buffer@.subrange(0, self.bias_count as int) =~= self.buffer@.take(self.bias_count as int));
            assert(bias_layers(self.topology@, self.buffer@).subrange(0, layer_count(self.topology@))
                =~= bias_layers(self.topology@, self.buffer@));
        }
        let biases = slice_subrange(self.buffer.as_slice(), 0, self.bias_count);
        BiasIter::new(biases, self.topology.as_slice())
    }

    /// Returns an iterator over the weight layers: each call of `next`
    /// yields one non-input layer's weights, neuron by neuron.
    pub fn weight_layers(&self) -> (r: WeightsIter<'_, '_, T>)
        requires
            self.wf(),
        ensures
            r@ == weight_layers(self.spec_layer_sizes(), self.spec_params()),
    {
        proof {
            lemma_split_weights(self.topology@, self.buffer@, 0);
            lemma_offsets_monotone(self.topology@, 0, layer_count(self.topology@));
            assert(self.topology@.subrange(1, self.topology@.len() as int) =~= self.topology@.drop_first());
            assert(weight_layers(self.topology@, self.buffer@).subrange(0, layer_count(self.topology@))
                =~= weight_layers(self.topology@, self.buffer@));
        }
        let weights = slice_subrange(self.buffer.as_slice(), self.bias_count, self.buffer.len());
        WeightsIter::new(weights, self.topology.as_slice())
    }

    /// Returns a mutable iterator over the bias layers: each call of `next`
    /// yields one non-input layer's biases as a mutable slice. The weights
    /// are left as they are; the biases become what is written through the
    /// iterator.
    pub fn bias_layers_mut(&mut self) -> (r: BiasIterMut<'_, '_, T>)
        requires
            old(self).wf(),
        ensures
            r.buffer@ == old(self).spec_params().take(bias_total(old(self).spec_layer_sizes())),
            r.topology@ == old(self).spec_layer_sizes().drop_first(),
            r.buffer@.len() == seq_sum(r.topology@),
            final(r.buffer)@.len() == r.buffer@.len() ==> final(self).wf(),
            final(self).spec_layer_sizes() == old(self).spec_layer_sizes(),
            final(self).spec_params() == final(r.buffer)@ + old(self).spec_params().skip(
                bias_total(old(self).spec_layer_sizes()),
            ),
    {
        proof {
            lemma_split_biases(self.topology@, self.buffer@, 0);
            lemma_offsets_monotone(self.topology@, 0, layer_count(self.topology@));
            assert(self.topology@.subrange(1, self.topology@.len() as int) =~= self.topology@.drop_first());
        }
        let bias_count = self.bias_count;
        let (biases, weights) = self.buffer.as_mut_slice().split_at_mut(bias_count);
        assert(weights@ =~= old(self).buffer@.skip(bias_count as int));
        assert(biases@ =~= old(self).buffer@.take(bias_count as int));
        BiasIterMut::new(biases, self.topology.as_slice())
    }

    /// Returns a mutable iterator over the weight layers: each call of
    /// `next` yields one non-input layer's weights, neuron by neuron, for
    /// changing. The biases are left as they are; the weights become what
    /// is written through the iterator.
    pub fn weight_layers_mut(&mut self) -> (r: WeightsIterMut<'_, '_, T>)
        requires
            old(self).wf(),
        ensures
            r.buffer@ == old(self).spec_params().skip(bias_total(old(self).spec_layer_sizes())),
            r.topology@ == old(self).spec_layer_sizes().drop_first(),
            r.prev_layer_len == old(self).spec_layer_sizes()[0],
            r.buffer@.len() == weight_sum(r.prev_layer_len, r.topology@),
            final(r.buffer)@.len() == r.buffer@.len() ==> final(self).wf(),
            final(self).spec_layer_sizes() == old(self).spec_layer_sizes(),
            final(self).spec_params() == old(self).spec_params().take(
                bias_total(old(self).spec_layer_sizes()),
            ) + final(r.buffer)@,
    {
        proof {
            lemma_split_weights(self.topology@, self.buffer@, 0);
            lemma_offsets_monotone(self.topology@, 0, layer_count(self.topology@));
            assert(self.topology@.subrange(1, self.topology@.len() as int) =~= self.topology@.drop_first());
            assert(self.buffer@.subrange(self.bias_count as int, self.buffer@.len() as int) =~= self.buffer@.skip(self.bias_count as int));
        }
        let bias_count = self.bias_count;
        let (biases, weights) = self.buffer.as_mut_slice().split_at_mut(bias_count);
        assert(biases@ =~= old(self).buffer@.take(bias_count as int));
        assert(weights@ =~= old(self).buffer@.skip(bias_count as int));
        WeightsIterMut::new(weights, self.topology.as_slice())
    }

    /// Creates a new store with the layer sizes and every parameter of `src`.
    pub fn from_params<P: Params<T>>(src: &P) -> (r: Self)
        requires
            src.wf(),
            src.spec_layer_sizes().len() > 1,
        ensures
            r.wf(),
            r.spec_layer_sizes() == src.spec_layer_sizes(),
            r.spec_params() == src.spec_params(),
    {
        let topology = src.layer_sizes();
        proof {
            src.lemma_layout();
        }
        let bias_count = count_biases(topology.as_slice());
        let weight_count = count_weights(topology.as_slice());
        let total = src.param_count();
        let mut buffer: Vec<T> = Vec::with_capacity(total);
        let mut k: usize = 0;
        while k < total
            invariant
                src.wf(),
                total == src.spec_params().len(),
                k <= total,
                buffer@ == src.spec_params().take(k as int),
            decreases total - k,
        {
            buffer.push(src.param(k));
            k = k + 1;
        }
        ParamsHeap { topology, buffer, bias_count, weight_count }
    }
}

impl<T: Copy> Params<T> for ParamsHeap<T> {
    closed spec fn spec_layer_sizes(&self) -> Seq<usize> {
        self.topology@
    }

    closed spec fn spec_params(&self) -> Seq<T> {
        self.buffer@
    }

    closed spec fn wf(&self) -> bool {
        &&& self.topology@.len() > 1
        &&& layout_fits(self.topology@)
        &&& self.bias_count == bias_total(self.topology@)
        &&& self.weight_count == weight_total(self.topology@)
        &&& self.buffer@.len() == param_total(self.topology@)
    }

    proof fn lemma_layout(&self) {
    }

    fn layer_sizes(&self) -> (r: Vec<usize>) {
        self.topology.clone()
    }

    fn depth(&self) -> (n: usize) {
        self.topology.len()
    }

    fn layer_size(&self, l: usize) -> (n: usize) {
        self.topology[l]
    }

    fn bias_count(&self) -> (n: usize) {
        self.bias_count
    }

    fn param_count(&self) -> (n: usize) {
        self.buffer.len()
    }

    fn param(&self, i: usize) -> (v: T) {
        self.buffer[i]
    }

    fn set_param(&mut self, i: usize, v: T) {
        self.buffer.set(i, v);
    }
}

/// Iterator over the bias layers of a `ParamsHeap`.
///
/// Yields one slice per non-input layer. The input layer is skipped; this is
/// why the constructor takes the full topology and discards its first entry.
pub struct BiasIter<'buf, 'top, T> {
    buffer: &'buf [T],
    topology: &'top [usize],
}

impl<'buf, 'top, T> View for BiasIter<'buf, 'top, T> {
    type V = Seq<Seq<T>>;

    /// The slices that are still to come.
    closed spec fn view(&self) -> Seq<Seq<T>> {
        split_by(self.buffer@, self.topology@)
    }
}

impl<'buf, 'top, T> BiasIter<'buf, 'top, T> {
    #[verifier::type_invariant]
    closed spec fn sizes_match(self) -> bool {
        self.buffer@.len() >= seq_sum(self.topology@)
    }

    /// Creates an iterator over `bias_buffer`, driven by `topology`.
    ///
    /// The first entry of `topology` (the input layer) is skipped.
    fn new(bias_buffer: &'buf [T], topology: &'top [usize]) -> (r: Self)
        requires
            topology@.len() >= 1,
            bias_buffer@.len() >= seq_sum(topology@.drop_first()),
        ensures
            r@ == split_by(bias_buffer@, topology@.drop_first()),
    {
        let rest = slice_subrange(topology, 1, topology.len());
        assert(rest@ =~= topology@.drop_first());
        BiasIter { buffer: bias_buffer, topology: rest }
    }

    /// Returns the biases of the next layer, or `None` after the last one.
    pub fn next(&mut self) -> (r: Option<&'buf [T]>)
        ensures
            old(self)@.len() == 0 ==> r is None && final(self)@ == old(self)@,
            old(self)@.len() > 0 ==> r is Some && r->0@ == old(self)@[0] && final(self)@
                == old(self)@.drop_first(),
    {
        proof {
            use_type_invariant(&*self);
        }
        let topology = self.topology;
        if topology.len() == 0 {
            return None;
        }
        let neurons_in_layer = topology[0];
        proof {
            lemma_seq_sum_nonneg(topology@.drop_first());
        }
        let rest_topology = slice_subrange(topology, 1, topology.len());
        assert(rest_topology@ =~= topology@.drop_first());
        let buffer = self.buffer;
        let (curr_data, rest_buffer) = buffer.split_at(neurons_in_layer);
        assert(curr_data@ =~= buffer@.take(neurons_in_layer as int));
        assert(rest_buffer@ =~= buffer@.skip(neurons_in_layer as int));
        *self = BiasIter { buffer: rest_buffer, topology: rest_topology };
        Some(curr_data)
    }
}

/// The incoming weights of every neuron of one layer, one run per neuron.
pub struct WeightNeurons<'buf, T> {
    data: &'buf [T],
    inputs: usize,
    neurons: usize,
}

impl<'buf, T> View for WeightNeurons<'buf, T> {
    type V = Seq<Seq<T>>;

    /// One sequence of incoming weights per neuron.
    closed spec fn view(&self) -> Seq<Seq<T>> {
        rows(self.data@, self.inputs as int, self.neurons as int)
    }
}

impl<'buf, T> WeightNeurons<'buf, T> {
    #[verifier::type_invariant]
    closed spec fn sizes_match(self) -> bool {
        self.data@.len() == self.inputs * self.neurons
    }

    /// Returns the number of neurons of the layer.
    pub fn len(&self) -> (n: usize)
        ensures
            n == self@.len(),
    {
        self.neurons
    }

    /// Returns the incoming weights of neuron `j`.
    pub fn neuron(&self, j: usize) -> (r: &'buf [T])
        requires
            j < self@.len(),
        ensures
            r@ == self@[j as int],
    {
        let data_len = self.data.len();
        proof {
            use_type_invariant(self);
            assert(0 <= j * self.inputs && j * self.inputs + self.inputs == (j + 1) * self.inputs
                && (j + 1) * self.inputs <= self.inputs * self.neurons) by (nonlinear_arith)
                requires j < self.neurons, self.inputs >= 0;
            assert((j + 1) * self.inputs <= data_len);
        }
        let start = j * self.inputs;
        slice_subrange(self.data, start, start + self.inputs)
    }
}

/// Iterator over the weight layers of a `ParamsHeap`.
///
/// Yields one `WeightNeurons` per non-input layer.
pub struct WeightsIter<'buf, 'top, T> {
    buffer: &'buf [T],
    topology: &'top [usize],
    prev_layer_len: usize,
}

impl<'buf, 'top, T> View for WeightsIter<'buf, 'top, T> {
    type V = Seq<Seq<Seq<T>>>;

    /// The weight layers that are still to come.
    closed spec fn view(&self) -> Seq<Seq<Seq<T>>> {
        split_weights(self.buffer@, self.prev_layer_len, self.topology@)
    }
}

impl<'buf, 'top, T> WeightsIter<'buf, 'top, T> {
    #[verifier::type_invariant]
    closed spec fn sizes_match(self) -> bool {
        self.buffer@.len() >= weight_sum(self.prev_layer_len, self.topology@)
    }

    /// Creates an iterator over `weights_buffer`, driven by `topology`.
    ///
    /// The first entry of `topology` is the input layer, which has no
    /// weights of its own.
    fn new(weights_buffer: &'buf [T], topology: &'top [usize]) -> (r: Self)
        requires
            topology@.len() >= 1,
            weights_buffer@.len() >= weight_sum(topology@[0], topology@.drop_first()),
        ensures
            r@ == split_weights(weights_buffer@, topology@[0], topology@.drop_first()),
    {
        let input_layer = topology[0];
        let rest = slice_subrange(topology, 1, topology.len());
        assert(rest@ =~= topology@.drop_first());
        WeightsIter { buffer: weights_buffer, topology: rest, prev_layer_len: input_layer }
    }

    /// Returns the weights of the next layer, or `None` after the last one.
    pub fn next(&mut self) -> (r: Option<WeightNeurons<'buf, T>>)
        ensures
            old(self)@.len() == 0 ==> r is None && final(self)@ == old(self)@,
            old(self)@.len() > 0 ==> r is Some && r->0@ == old(self)@[0] && final(self)@
                == old(self)@.drop_first(),
    {
        proof {
            use_type_invariant(&*self);
        }
        let topology = self.topology;
        if topology.len() == 0 {
            return None;
        }
        let neurons_in_layer = topology[0];
        let prev_layer_len = self.prev_layer_len;
        let buffer = self.buffer;
        let buffer_len = buffer.len();
        proof {
            lemma_weight_sum_nonneg(neurons_in_layer, topology@.drop_first());
            assert(neurons_in_layer * prev_layer_len == prev_layer_len * neurons_in_layer)
                by (nonlinear_arith);
            assert(prev_layer_len * neurons_in_layer >= 0) by (nonlinear_arith);
            assert(prev_layer_len * neurons_in_layer <= buffer_len);
        }
        let weights_in_layer = neurons_in_layer * prev_layer_len;
        let rest_topology = slice_subrange(topology, 1, topology.len());
        assert(rest_topology@ =~= topology@.drop_first());
        let (curr_data, rest_buffer) = buffer.split_at(weights_in_layer);
        assert(curr_data@ =~= buffer@.take(weights_in_layer as int));
        assert(rest_buffer@ =~= buffer@.skip(weights_in_layer as int));
        *self = WeightsIter {
            buffer: rest_buffer,
            topology: rest_topology,
            prev_layer_len: neurons_in_layer,
        };
        Some(WeightNeurons { data: curr_data, inputs: prev_layer_len, neurons: neurons_in_layer })
    }
}

/// Mutable counterpart of `BiasIter`: yields one mutable slice per
/// non-input layer.
pub struct BiasIterMut<'buf, 'top, T> {
    /// The biases of the layers still to come.
    pub buffer: &'buf mut [T],
    /// The sizes of the layers still to come.
    pub topology: &'top [usize],
}

impl<'buf, 'top, T> BiasIterMut<'buf, 'top, T> {
    /// Creates a mutable iterator over `bias_buffer`, driven by `topology`.
    ///
    /// The first entry of `topology` (the input layer) is skipped.
    fn new(bias_buffer: &'buf mut [T], topology: &'top [usize]) -> (r: Self)
        requires
            topology@.len() >= 1,
        ensures
            r.buffer@ == old(bias_buffer)@,
            r.topology@ == topology@.drop_first(),
            final(bias_buffer)@ == final(r.buffer)@,
    {
        let rest = slice_subrange(topology, 1, topology.len());
        assert(rest@ =~= topology@.drop_first());
        BiasIterMut { buffer: bias_buffer, topology: rest }
    }

    /// Returns the biases of the next layer for changing, or `None` after
    /// the last one. What is written through the returned slice and through
    /// the iterator afterwards lands, in order, in the buffer the iterator
    /// was made from.
    pub fn next(&mut self) -> (r: Option<&'buf mut [T]>)
        requires
            old(self).topology@.len() > 0 ==> old(self).topology@[0] <= old(self).buffer@.len(),
        ensures
            old(self).topology@.len() == 0 ==> {
                &&& r is None
                &&& final(self).topology@ == old(self).topology@
                &&& final(self).buffer@ == old(self).buffer@
                &&& final(old(self).buffer)@ == final(final(self).buffer)@
            },
            old(self).topology@.len() > 0 ==> {
                let n = old(self).topology@[0] as int;
                &&& r is Some
                &&& r->0@ == old(self).buffer@.take(n)
                &&& final(self).buffer@ == old(self).buffer@.skip(n)
                &&& final(self).topology@ == old(self).topology@.drop_first()
                &&& final(old(self).buffer)@ == final(r->0)@ + final(final(self).buffer)@
            },
    {
        let topology = self.topology;
        if topology.len() == 0 {
            return None;
        }
        let neurons_in_layer = topology[0];
        let rest_topology = slice_subrange(topology, 1, topology.len());
        assert(rest_topology@ =~= topology@.drop_first());
        let mut buffer: &'buf mut [T] = &mut [];
        core::mem::swap(&mut self.buffer, &mut buffer);
        let (curr_data, rest_buffer) = buffer.split_at_mut(neurons_in_layer);
        assert(curr_data@ =~= old(self).buffer@.take(neurons_in_layer as int));
        assert(rest_buffer@ =~= old(self).buffer@.skip(neurons_in_layer as int));
        self.buffer = rest_buffer;
        self.topology = rest_topology;
        Some(curr_data)
    }
}

/// The incoming weights of every neuron of one layer, for changing: yields
/// one mutable run of incoming weights per neuron.
pub struct WeightNeuronsMut<'buf, T> {
    /// The weights of the neurons still to come.
    pub data: &'buf mut [T],
    /// The number of incoming weights of each neuron.
    pub inputs: usize,
    /// The number of neurons still to come.
    pub neurons: usize,
}

impl<'buf, T> WeightNeuronsMut<'buf, T> {
    /// Returns the incoming weights of the next neuron for changing, or
    /// `None` after the last one.
    pub fn next(&mut self) -> (r: Option<&'buf mut [T]>)
        requires
            old(self).data@.len() == old(self).inputs * old(self).neurons,
        ensures
            final(self).inputs == old(self).inputs,
            final(self).data@.len() == final(self).inputs * final(self).neurons,
            old(self).neurons == 0 ==> {
                &&& r is None
                &&& final(self).neurons == 0
                &&& final(self).data@ == old(self).data@
                &&& final(old(self).data)@ == final(final(self).data)@
            },
            old(self).neurons > 0 ==> {
                let n = old(self).inputs as int;
                &&& r is Some
                &&& r->0@ == old(self).data@.take(n)
                &&& final(self).data@ == old(self).data@.skip(n)
                &&& final(self).neurons == old(self).neurons - 1
                &&& final(old(self).data)@ == final(r->0)@ + final(final(self).data)@
            },
    {
        if self.neurons == 0 {
            return None;
        }
        let inputs = self.inputs;
        proof {
            assert(inputs * self.neurons == inputs + inputs * (self.neurons - 1) && inputs * (
            self.neurons - 1) >= 0) by (nonlinear_arith)
                requires
                    self.neurons > 0,
                    inputs >= 0,
            ;
        }
        let mut data: &'buf mut [T] = &mut [];
        core::mem::swap(&mut self.data, &mut data);
        let (curr_data, rest_data) = data.split_at_mut(inputs);
        assert(curr_data@ =~= old(self).data@.take(inputs as int));
        assert(rest_data@ =~= old(self).data@.skip(inputs as int));
        self.data = rest_data;
        self.neurons = self.neurons - 1;
        Some(curr_data)
    }
}

/// Mutable counterpart of `WeightsIter`: yields one `WeightNeuronsMut` per
/// non-input layer.
pub struct WeightsIterMut<'buf, 'top, T> {
    /// The weights of the layers still to come.
    pub buffer: &'buf mut [T],
    /// The sizes of the layers still to come.
    pub topology: &'top [usize],
    /// The size of the layer before the next one.
    pub prev_layer_len: usize,
}

impl<'buf, 'top, T> WeightsIterMut<'buf, 'top, T> {
    /// Creates a mutable iterator over `weights_buffer`, driven by
    /// `topology`, whose first entry is the input layer.
    fn new(weights_buffer: &'buf mut [T], topology: &'top [usize]) -> (r: Self)
        requires
            topology@.len() >= 1,
        ensures
            r.buffer@ == old(weights_buffer)@,
            r.topology@ == topology@.drop_first(),
            r.prev_layer_len == topology@[0],
            final(weights_buffer)@ == final(r.buffer)@,
    {
        let input_layer = topology[0];
        let rest = slice_subrange(topology, 1, topology.len());
        assert(rest@ =~= topology@.drop_first());
        WeightsIterMut { buffer: weights_buffer, topology: rest, prev_layer_len: input_layer }
    }

    /// Returns the weights of the next layer for changing, or `None` after
    /// the last one. What is written through the returned neurons and
    /// through the iterator afterwards lands, in order, in the buffer the
    /// iterator was made from.
    pub fn next(&mut self) -> (r: Option<WeightNeuronsMut<'buf, T>>)
        requires
            old(self).topology@.len() > 0 ==> old(self).prev_layer_len * old(self).topology@[0]
                <= old(self).buffer@.len(),
        ensures
            old(self).topology@.len() == 0 ==> {
                &&& r is None
                &&& final(self).topology@ == old(self).topology@
                &&& final(self).prev_layer_len == old(self).prev_layer_len
                &&& final(self).buffer@ == old(self).buffer@
                &&& final(old(self).buffer)@ == final(final(self).buffer)@
            },
            old(self).topology@.len() > 0 ==> {
                let n = old(self).prev_layer_len * old(self).topology@[0];
                &&& r is Some
                &&& r->0.data@ == old(self).buffer@.take(n)
                &&& r->0.inputs == old(self).prev_layer_len
                &&& r->0.neurons == old(self).topology@[0]
                &&& final(self).buffer@ == old(self).buffer@.skip(n)
                &&& final(self).topology@ == old(self).topology@.drop_first()
                &&& final(self).prev_layer_len == old(self).topology@[0]
                &&& final(old(self).buffer)@ == final(r->0.data)@ + final(final(self).buffer)@
            },
    {
        let topology = self.topology;
        if topology.len() == 0 {
            return None;
        }
        let neurons_in_layer = topology[0];
        let prev_layer_len = self.prev_layer_len;
        let buffer_len = self.buffer.len();
        proof {
            assert(neurons_in_layer * prev_layer_len == prev_layer_len * neurons_in_layer)
                by (nonlinear_arith);
            assert(prev_layer_len * neurons_in_layer >= 0) by (nonlinear_arith);
            assert(prev_layer_len * neurons_in_layer <= buffer_len);
        }
        let weights_in_layer = neurons_in_layer * prev_layer_len;
        let rest_topology = slice_subrange(topology, 1, topology.len());
        assert(rest_topology@ =~= topology@.drop_first());
        let mut buffer: &'buf mut [T] = &mut [];
        core::mem::swap(&mut self.buffer, &mut buffer);
        let (curr_data, rest_buffer) = buffer.split_at_mut(weights_in_layer);
        assert(curr_data@ =~= old(self).buffer@.take(weights_in_layer as int));
        assert(rest_buffer@ =~= old(self).buffer@.skip(weights_in_layer as int));
        self.buffer = rest_buffer;
        self.topology = rest_topology;
        self.prev_layer_len = neurons_in_layer;
        Some(WeightNeuronsMut { data: curr_data, inputs: prev_layer_len, neurons: neurons_in_layer })
    }
}

} // verus!
