//! Storage of a network's weights and biases.

pub mod heap_params;
pub mod stack_params;

pub use heap_params::ParamsHeap;
pub use stack_params::{Layer, OutputLayer, ParamsStack, WorkingLayer};

use crate::layout::{
    bias_layers, bias_offset, bias_total, count_biases, layer_count, layout_fits,
    lemma_neuron_in_layer, lemma_offsets_monotone, param_total, weight_index, weight_layers,
    weight_offset, widest,
};
use vstd::prelude::*;

verus! {

/// Access to a feed-forward network's weights and biases.
///
/// Implementors decide how the parameters are stored. All of them expose the
/// same flat order (see `crate::layout`): every bias, layer by layer, then
/// every weight, layer by layer and neuron by neuron.
///
/// `layer_sizes` gives the sizes of all layers, input layer first: for an
/// input layer of 5, a hidden layer of 6 and an output layer of 7 neurons it
/// is `[5, 6, 7]`.
pub trait Params<T: Copy>: Sized {
    /// Sizes of all layers, input layer first.
    spec fn spec_layer_sizes(&self) -> Seq<usize>;

    /// Every parameter in the flat order.
    spec fn spec_params(&self) -> Seq<T>;

    /// The internal invariant of the store.
    spec fn wf(&self) -> bool;

    /// A well-formed store holds exactly as many parameters as its layer
    /// sizes call for.
    proof fn lemma_layout(&self)
        requires
            self.wf(),
        ensures
            layout_fits(self.spec_layer_sizes()),
            self.spec_params().len() == param_total(self.spec_layer_sizes()),
    ;

    /// Returns the sizes of all layers, input layer first.
    fn layer_sizes(&self) -> (r: Vec<usize>)
        requires
            self.wf(),
        ensures
            r@ == self.spec_layer_sizes(),
    ;

    /// Returns the number of layers, input layer included.
    fn depth(&self) -> (n: usize)
        requires
            self.wf(),
        ensures
            n == self.spec_layer_sizes().len(),
    ;

    /// Returns the size of layer `l`, the input layer being layer 0.
    fn layer_size(&self, l: usize) -> (n: usize)
        requires
            self.wf(),
            l < self.spec_layer_sizes().len(),
        ensures
            n == self.spec_layer_sizes()[l as int],
    ;

    /// Returns the number of biases; the weights start at this position of
    /// the flat order.
    fn bias_count(&self) -> (n: usize)
        requires
            self.wf(),
        ensures
            n == bias_total(self.spec_layer_sizes()),
    ;

    /// Returns the number of parameters.
    fn param_count(&self) -> (n: usize)
        requires
            self.wf(),
        ensures
            n == self.spec_params().len(),
    ;

    /// Returns the parameter at position `i` of the flat order.
    fn param(&self, i: usize) -> (v: T)
        requires
            self.wf(),
            i < self.spec_params().len(),
        ensures
            v == self.spec_params()[i as int],
    ;

    /// Overwrites the parameter at position `i` of the flat order.
    fn set_param(&mut self, i: usize, v: T)
        requires
            old(self).wf(),
            i < old(self).spec_params().len(),
        ensures
            final(self).wf(),
            final(self).spec_layer_sizes() == old(self).spec_layer_sizes(),
            final(self).spec_params() == old(self).spec_params().update(i as int, v),
    ;

    /// Returns the size of the widest layer, which bounds the length of
    /// every layer's input and output during evaluation.
    fn widest_layer_size(&self) -> (n: usize)
        requires
            self.wf(),
        ensures
            n == widest(self.spec_layer_sizes()),
    {
        let depth = self.depth();
        let ghost s = self.spec_layer_sizes();
        let mut n: usize = 0;
        let mut k: usize = 0;
        while k < depth
            invariant
                self.wf(),
                s == self.spec_layer_sizes(),
                depth == s.len(),
                k <= depth,
                n == widest(s.take(k as int)),
            decreases depth - k,
        {
            assert(s.take(k + 1).drop_last() =~= s.take(k as int));
            let size = self.layer_size(k);
            if size > n {
                n = size;
            }
            k = k + 1;
        }
        assert(s.take(depth as int) =~= s);
        n
    }

    /// Copies every parameter into a flat `Vec`.
    fn collect_params_flat(&self) -> (r: Vec<T>)
        requires
            self.wf(),
        ensures
            r@ == self.spec_params(),
    {
        let n = self.param_count();
        let mut r: Vec<T> = Vec::with_capacity(n);
        let mut k: usize = 0;
        while k < n
            invariant
                self.wf(),
                n == self.spec_params().len(),
                k <= n,
                r@ == self.spec_params().take(k as int),
            decreases n - k,
        {
            r.push(self.param(k));
            k = k + 1;
        }
        r
    }

    /// Copies all biases into a flat `Vec`.
    fn collect_biases_flat(&self) -> (r: Vec<T>)
        requires
            self.wf(),
        ensures
            r@ == self.spec_params().take(bias_total(self.spec_layer_sizes())),
    {
        let sizes = self.layer_sizes();
        proof {
            self.lemma_layout();
            lemma_offsets_monotone(sizes@, 0, layer_count(sizes@));
        }
        let n = count_biases(sizes.as_slice());
        let mut r: Vec<T> = Vec::with_capacity(n);
        let mut k: usize = 0;
        while k < n
            invariant
                self.wf(),
                n <= self.spec_params().len(),
                k <= n,
                r@ == self.spec_params().take(k as int),
            decreases n - k,
        {
            r.push(self.param(k));
            k = k + 1;
        }
        r
    }

    /// Copies all weights into a flat `Vec`.
    fn collect_weights_flat(&self) -> (r: Vec<T>)
        requires
            self.wf(),
        ensures
            r@ == self.spec_params().skip(bias_total(self.spec_layer_sizes())),
    {
        let sizes = self.layer_sizes();
        proof {
            self.lemma_layout();
            lemma_offsets_monotone(sizes@, 0, layer_count(sizes@));
        }
        let start = count_biases(sizes.as_slice());
        let n = self.param_count();
        let mut r: Vec<T> = Vec::with_capacity(n - start);
        let mut k: usize = start;
        while k < n
            invariant
                self.wf(),
                n == self.spec_params().len(),
                start <= k <= n,
                r@ == self.spec_params().subrange(start as int, k as int),
            decreases n - k,
        {
            r.push(self.param(k));
            k = k + 1;
        }
        r
    }

    /// Copies all biases into a nested `Vec`: one item per non-input layer,
    /// holding that layer's biases.
    fn collect_biases(&self) -> (r: Vec<Vec<T>>)
        requires
            self.wf(),
        ensures
            r@.len() == layer_count(self.spec_layer_sizes()),
            forall|l: int|
                0 <= l < r@.len() ==> (#[trigger] r@[l])@ == bias_layers(
                    self.spec_layer_sizes(),
                    self.spec_params(),
                )[l],
    {
        let sizes = self.layer_sizes();
        let ghost s = sizes@;
        let ghost p = self.spec_params();
        proof {
            self.lemma_layout();
            lemma_offsets_monotone(s, 0, layer_count(s));
        }
        let layers = sizes.len() - 1;
        let mut r: Vec<Vec<T>> = Vec::with_capacity(layers);
        let mut start: usize = 0;
        let mut l: usize = 0;
        while l < layers
            invariant
                layers == layer_count(s),
                self.wf(),
                s == sizes@,
                s == self.spec_layer_sizes(),
                p == self.spec_params(),
                layout_fits(s),
                p.len() == param_total(s),
                l + 1 <= s.len(),
                start == bias_offset(s, l as int),
                r@.len() == l,
                forall|m: int|
                    0 <= m < l ==> (#[trigger] r@[m])@ == bias_layers(s, p)[m],
            decreases s.len() - l,
        {
            proof {
                lemma_offsets_monotone(s, l + 1, layer_count(s));
                lemma_offsets_monotone(s, 0, layer_count(s));
            }
            let end = start + sizes[l + 1];
            let mut layer: Vec<T> = Vec::with_capacity(sizes[l + 1]);
            let mut k: usize = start;
            while k < end
                invariant
                    self.wf(),
                    p == self.spec_params(),
                    end <= p.len(),
                    start <= k <= end,
                    layer@ == p.subrange(start as int, k as int),
                decreases end - k,
            {
                layer.push(self.param(k));
                k = k + 1;
            }
            r.push(layer);
            start = end;
            l = l + 1;
        }
        r
    }

    /// Copies all weights into a nested `Vec`, keeping the layout: one item
    /// per non-input layer, holding one item per neuron of that layer, which
    /// holds the neuron's incoming weights.
    fn collect_weights(&self) -> (r: Vec<Vec<Vec<T>>>)
        requires
            self.wf(),
        ensures
            r@.len() == layer_count(self.spec_layer_sizes()),
            forall|l: int|
                0 <= l < r@.len() ==> (#[trigger] r@[l])@.len() == self.spec_layer_sizes()[l + 1],
            forall|l: int, j: int|
                0 <= l < r@.len() && 0 <= j < r@[l]@.len() ==> (#[trigger] r@[l]@[j])@
                    == weight_layers(self.spec_layer_sizes(), self.spec_params())[l][j],
    {
        let sizes = self.layer_sizes();
        let ghost s = sizes@;
        let ghost p = self.spec_params();
        proof {
            self.lemma_layout();
            lemma_offsets_monotone(s, 0, layer_count(s));
        }
        let bias_count = count_biases(sizes.as_slice());
        let layers = sizes.len() - 1;
        let mut r: Vec<Vec<Vec<T>>> = Vec::with_capacity(layers);
        let mut start: usize = bias_count;
        let mut l: usize = 0;
        while l < layers
            invariant
                layers == layer_count(s),
                self.wf(),
                s == sizes@,
                s == self.spec_layer_sizes(),
                p == self.spec_params(),
                layout_fits(s),
                p.len() == param_total(s),
                bias_count == bias_total(s),
                l + 1 <= s.len(),
                start == bias_count + weight_offset(s, l as int),
                r@.len() == l,
                forall|m: int| 0 <= m < l ==> (#[trigger] r@[m])@.len() == s[m + 1],
                forall|m: int, j: int|
                    0 <= m < l && 0 <= j < r@[m]@.len() ==> (#[trigger] r@[m]@[j])@
                        == weight_layers(s, p)[m][j],
            decreases s.len() - l,
        {
            proof {
                lemma_offsets_monotone(s, l + 1, layer_count(s));
                lemma_offsets_monotone(s, 0, layer_count(s));
            }
            let inputs = sizes[l];
            let neurons = sizes[l + 1];
            let mut layer: Vec<Vec<T>> = Vec::with_capacity(neurons);
            let mut row_start: usize = start;
            let mut j: usize = 0;
            while j < neurons
                invariant
                    self.wf(),
                    s == self.spec_layer_sizes(),
                    p == self.spec_params(),
                    p.len() == param_total(s),
                    layout_fits(s),
                    bias_count == bias_total(s),
                    l + 1 < s.len(),
                    inputs == s[l as int],
                    neurons == s[l + 1],
                    weight_offset(s, l + 1) <= weight_offset(s, layer_count(s)),
                    j <= neurons,
                    row_start == weight_index(s, l as int, j as int, 0),
                    layer@.len() == j,
                    forall|m: int|
                        0 <= m < j ==> (#[trigger] layer@[m])@ == weight_layers(s, p)[l as int][m],
                decreases neurons - j,
            {
                proof {
                    lemma_neuron_in_layer(s, l as int, j as int);
                }
                let row_end = row_start + inputs;
                let mut row: Vec<T> = Vec::with_capacity(inputs);
                let mut k: usize = row_start;
                while k < row_end
                    invariant
                        self.wf(),
                        p == self.spec_params(),
                        row_end <= p.len(),
                        row_start <= k <= row_end,
                        row@ == p.subrange(row_start as int, k as int),
                    decreases row_end - k,
                {
                    row.push(self.param(k));
                    k = k + 1;
                }
                layer.push(row);
                row_start = row_end;
                j = j + 1;
            }
            assert(neurons * inputs == inputs * neurons) by (nonlinear_arith);
            r.push(layer);
            start = row_start;
            l = l + 1;
        }
        r
    }
}

/// Copies every parameter of `src` into `dst`, keeping `dst`'s layer sizes.
///
/// Both stores must hold the same number of parameters; their layer sizes
/// may differ.
pub fn copy_from<T: Copy, D: Params<T>, S: Params<T>>(dst: &mut D, src: &S)
    requires
        old(dst).wf(),
        src.wf(),
        src.spec_params().len() == old(dst).spec_params().len(),
    ensures
        final(dst).wf(),
        final(dst).spec_layer_sizes() == old(dst).spec_layer_sizes(),
        final(dst).spec_params() == src.spec_params(),
{
    let n = dst.param_count();
    let mut k: usize = 0;
    while k < n
        invariant
            dst.wf(),
            src.wf(),
            dst.spec_layer_sizes() == old(dst).spec_layer_sizes(),
            n == dst.spec_params().len(),
            n == src.spec_params().len(),
            k <= n,
            forall|i: int| 0 <= i < k ==> dst.spec_params()[i] == src.spec_params()[i],
        decreases n - k,
    {
        let v = src.param(k);
        dst.set_param(k, v);
        k = k + 1;
    }
    assert(dst.spec_params() =~= src.spec_params());
}

} // verus!
