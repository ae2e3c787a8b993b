//! A parameter store whose layer sizes are part of its type.
//!
//! The network is a chain of layers: `WorkingLayer<IN, OUT, Tail>` holds the
//! weights and biases of a layer of `OUT` neurons fed by `IN` inputs and is
//! followed by `Tail`; `OutputLayer<IN, T>` ends the chain, `IN` being the
//! size of the output layer. Every array has a size fixed by the type, so the
//! store needs no heap memory.

use crate::layout::{
    bias_offset, bias_total, layer_count, layout_fits, lemma_offsets_monotone,
    lemma_prepend_totals, param_total, weight_offset, weight_total,
};
use crate::params::{copy_from, Params};
use core::marker::PhantomData;
use vstd::prelude::*;

verus! {

/// One link of a chain of layers.
pub trait Layer: Sized {
    /// The type of one parameter.
    type Value: Copy + Default;

    /// The sizes of this link's input and of every layer after it.
    spec fn spec_topology() -> Seq<usize>;

    /// Whether the sizes of the links fit together: each link's output size
    /// is the next link's input size.
    spec fn consistent() -> bool;

    /// The biases of this link and of every link after it, in order.
    spec fn spec_biases(&self) -> Seq<Self::Value>;

    /// The weights of this link and of every link after it, in order;
    /// within a link neuron by neuron.
    spec fn spec_weights(&self) -> Seq<Self::Value>;

    /// A consistent chain holds as many biases and weights as its sizes
    /// call for.
    proof fn lemma_shape(&self)
        requires
            Self::consistent(),
        ensures
            Self::spec_topology().len() >= 1,
            self.spec_biases().len() == bias_total(Self::spec_topology()),
            self.spec_weights().len() == weight_total(Self::spec_topology()),
    ;

    /// Every chain names at least its own input layer.
    proof fn lemma_topology_nonempty()
        ensures
            Self::spec_topology().len() >= 1,
    ;

    /// Whether the sizes of the links fit together.
    fn is_consistent() -> (r: bool)
        ensures
            r == Self::consistent(),
    ;

    /// Returns the number of layers of this link and every link after it,
    /// input layer included, or `None` if a `usize` cannot hold it.
    fn checked_depth() -> (r: Option<usize>)
        ensures
            r == if Self::spec_topology().len() <= usize::MAX {
                Some(Self::spec_topology().len() as usize)
            } else {
                None::<usize>
            },
    ;

    /// Returns the number of layers of this link and every link after it,
    /// input layer included.
    fn depth() -> (n: usize)
        requires
            Self::spec_topology().len() <= usize::MAX,
        ensures
            n == Self::spec_topology().len(),
    ;

    /// Returns the size of layer `i`, this link's input being layer 0.
    fn size_at(i: usize) -> (n: usize)
        requires
            i < Self::spec_topology().len(),
        ensures
            n == Self::spec_topology()[i as int],
    ;

    /// Returns the number of biases of the chain.
    fn bias_len(&self) -> (n: usize)
        requires
            self.spec_biases().len() <= usize::MAX,
        ensures
            n == self.spec_biases().len(),
    ;

    /// Returns the number of weights of the chain.
    fn weight_len(&self) -> (n: usize)
        requires
            self.spec_weights().len() <= usize::MAX,
        ensures
            n == self.spec_weights().len(),
    ;

    /// Creates a chain with every parameter set to `Self::Value::default()`.
    fn new() -> (r: Self)
        ensures
            forall|i: int|
                0 <= i < r.spec_biases().len() ==> call_ensures(
                    Self::Value::default,
                    (),
                    #[trigger] r.spec_biases()[i],
                ),
            forall|i: int|
                0 <= i < r.spec_weights().len() ==> call_ensures(
                    Self::Value::default,
                    (),
                    #[trigger] r.spec_weights()[i],
                ),
    ;

    /// Returns the sizes of this link's input and of every layer after it.
    fn topology() -> (r: Vec<usize>)
        ensures
            r@ == Self::spec_topology(),
    ;

    /// Returns bias `i` of the chain, or `None` if the chain has fewer
    /// biases.
    fn bias(&self, i: usize) -> (v: Option<Self::Value>)
        ensures
            v == if i < self.spec_biases().len() {
                Some(self.spec_biases()[i as int])
            } else {
                None
            },
    ;

    /// Returns weight `i` of the chain, or `None` if the chain has fewer
    /// weights.
    fn weight(&self, i: usize) -> (v: Option<Self::Value>)
        ensures
            v == if i < self.spec_weights().len() {
                Some(self.spec_weights()[i as int])
            } else {
                None
            },
    ;

    /// Overwrites bias `i` of the chain; leaves the chain as it is if it
    /// has fewer biases.
    fn set_bias(&mut self, i: usize, v: Self::Value)
        ensures
            final(self).spec_biases() == if i < old(self).spec_biases().len() {
                old(self).spec_biases().update(i as int, v)
            } else {
                old(self).spec_biases()
            },
            final(self).spec_weights() == old(self).spec_weights(),
    ;

    /// Overwrites weight `i` of the chain; leaves the chain as it is if it
    /// has fewer weights.
    fn set_weight(&mut self, i: usize, v: Self::Value)
        ensures
            final(self).spec_biases() == old(self).spec_biases(),
            final(self).spec_weights() == if i < old(self).spec_weights().len() {
                old(self).spec_weights().update(i as int, v)
            } else {
                old(self).spec_weights()
            },
    ;
}

/// The end of a chain of layers: the output layer, of `INPUT_LEN` neurons.
/// It holds no parameters.
pub struct OutputLayer<const INPUT_LEN: usize, T> {
    phantom: PhantomData<T>,
}

impl<const INPUT_LEN: usize, T> Clone for OutputLayer<INPUT_LEN, T> {
    fn clone(&self) -> (r: Self)
        ensures
            r == *self,
    {
        OutputLayer { phantom: PhantomData }
    }
}

impl<const INPUT_LEN: usize, T> Copy for OutputLayer<INPUT_LEN, T> {
}

impl<const INPUT_LEN: usize, T: Copy + Default> Layer for OutputLayer<INPUT_LEN, T> {
    type Value = T;

    open spec fn spec_topology() -> Seq<usize> {
        seq![INPUT_LEN]
    }

    open spec fn consistent() -> bool {
        true
    }

    open spec fn spec_biases(&self) -> Seq<T> {
        Seq::empty()
    }

    open spec fn spec_weights(&self) -> Seq<T> {
        Seq::empty()
    }

    proof fn lemma_shape(&self) {
    }

    proof fn lemma_topology_nonempty() {
    }

    fn is_consistent() -> (r: bool) {
        true
    }

    fn checked_depth() -> (r: Option<usize>) {
        Some(1)
    }

    fn depth() -> (n: usize) {
        1
    }

    fn size_at(i: usize) -> (n: usize) {
        INPUT_LEN
    }

    fn bias_len(&self) -> (n: usize) {
        0
    }

    fn weight_len(&self) -> (n: usize) {
        0
    }

    fn new() -> (r: Self) {
        OutputLayer { phantom: PhantomData }
    }

    fn topology() -> (r: Vec<usize>) {
        let mut r = Vec::new();
        r.push(INPUT_LEN);
        r
    }

    fn bias(&self, i: usize) -> (v: Option<T>) {
        None
    }

    fn weight(&self, i: usize) -> (v: Option<T>) {
        None
    }

    fn set_bias(&mut self, i: usize, v: T) {
    }

    fn set_weight(&mut self, i: usize, v: T) {
    }
}

/// A layer of `OUTPUT_LEN` neurons fed by `INPUT_LEN` inputs, followed by
/// the rest of the chain.
pub struct WorkingLayer<const INPUT_LEN: usize, const OUTPUT_LEN: usize, Tail: Layer> {
    weights: [[Tail::Value; INPUT_LEN]; OUTPUT_LEN],
    biases: [Tail::Value; OUTPUT_LEN],
    next: Tail,
}

impl<const INPUT_LEN: usize, const OUTPUT_LEN: usize, Tail: Layer + Copy> Clone for WorkingLayer<
    INPUT_LEN,
    OUTPUT_LEN,
    Tail,
> {
    fn clone(&self) -> (r: Self)
        ensures
            r == *self,
    {
        *self
    }
}

impl<const INPUT_LEN: usize, const OUTPUT_LEN: usize, Tail: Layer + Copy> Copy for WorkingLayer<
    INPUT_LEN,
    OUTPUT_LEN,
    Tail,
> {
}

impl<const INPUT_LEN: usize, const OUTPUT_LEN: usize, Tail: Layer> WorkingLayer<
    INPUT_LEN,
    OUTPUT_LEN,
    Tail,
> {
    /// The weights of this layer alone, neuron by neuron.
    pub closed spec fn own_weights(&self) -> Seq<Tail::Value> {
        Seq::new(
            (INPUT_LEN * OUTPUT_LEN) as nat,
            |i: int| self.weights@[i / (INPUT_LEN as int)]@[i % (INPUT_LEN as int)],
        )
    }
}

/// Weight `i` of a layer with `width` inputs per neuron is input `i % width`
/// of neuron `i / width`.
proof fn lemma_row_major(i: int, width: int, count: int)
    requires
        0 <= i < width * count,
        0 < width,
    ensures
        0 <= i / width < count,
        0 <= i % width < width,
{
    vstd::arithmetic::div_mod::lemma_fundamental_div_mod(i, width);
    assert(0 <= i % width < width) by {
        vstd::arithmetic::div_mod::lemma_mod_pos_bound(i, width);
    }
    assert(0 <= i / width < count) by (nonlinear_arith)
        requires
            i == width * (i / width) + i % width,
            0 <= i % width < width,
            0 <= i < width * count,
            0 < width,
    ;
}

/// Whether a position lies in a layer with `width` inputs per neuron and
/// `count` neurons can be told from its neuron index alone.
proof fn lemma_row_major_bound(i: int, width: int, count: int)
    requires
        0 <= i,
        0 < width,
        0 <= count,
    ensures
        i < width * count <==> i / width < count,
        i >= width * count ==> width * count <= i,
{
    vstd::arithmetic::div_mod::lemma_fundamental_div_mod(i, width);
    vstd::arithmetic::div_mod::lemma_mod_pos_bound(i, width);
    assert(i < width * count <==> i / width < count) by (nonlinear_arith)
        requires
            i == width * (i / width) + i % width,
            0 <= i % width < width,
            0 < width,
            0 <= count,
    ;
}

/// Two positions of a layer with `width` inputs per neuron name the same
/// weight only if they are equal.
proof fn lemma_row_major_unique(i: int, k: int, width: int)
    requires
        0 <= i,
        0 <= k,
        0 < width,
        i / width == k / width,
        i % width == k % width,
    ensures
        i == k,
{
    vstd::arithmetic::div_mod::lemma_fundamental_div_mod(i, width);
    vstd::arithmetic::div_mod::lemma_fundamental_div_mod(k, width);
}

impl<const INPUT_LEN: usize, const OUTPUT_LEN: usize, Tail: Layer> Layer for WorkingLayer<
    INPUT_LEN,
    OUTPUT_LEN,
    Tail,
> {
    type Value = Tail::Value;

    open spec fn spec_topology() -> Seq<usize> {
        seq![INPUT_LEN] + Tail::spec_topology()
    }

    open spec fn consistent() -> bool {
        &&& Tail::consistent()
        &&& Tail::spec_topology().len() >= 1
        &&& Tail::spec_topology()[0] == OUTPUT_LEN
    }

    closed spec fn spec_biases(&self) -> Seq<Tail::Value> {
        self.biases@ + self.next.spec_biases()
    }

    closed spec fn spec_weights(&self) -> Seq<Tail::Value> {
        self.own_weights() + self.next.spec_weights()
    }

    proof fn lemma_shape(&self) {
        self.next.lemma_shape();
        lemma_prepend_totals(INPUT_LEN, Tail::spec_topology());
    }

    proof fn lemma_topology_nonempty() {
    }

    fn is_consistent() -> (r: bool)
        ensures
            r == (Tail::consistent() && Tail::spec_topology()[0] == OUTPUT_LEN),
    {
        proof {
            Tail::lemma_topology_nonempty();
        }
        Tail::is_consistent() && Tail::size_at(0) == OUTPUT_LEN
    }

    fn checked_depth() -> (r: Option<usize>) {
        proof {
            Tail::lemma_topology_nonempty();
        }
        match Tail::checked_depth() {
            None => None,
            Some(d) => d.checked_add(1),
        }
    }

    fn depth() -> (n: usize) {
        proof {
            Tail::lemma_topology_nonempty();
        }
        1 + Tail::depth()
    }

    fn size_at(i: usize) -> (n: usize) {
        if i == 0 {
            INPUT_LEN
        } else {
            Tail::size_at(i - 1)
        }
    }

    fn bias_len(&self) -> (n: usize) {
        OUTPUT_LEN + self.next.bias_len()
    }

    fn weight_len(&self) -> (n: usize) {
        INPUT_LEN * OUTPUT_LEN + self.next.weight_len()
    }

    fn new() -> (r: Self) {
        let zero = Tail::Value::default();
        let weights = [[zero; INPUT_LEN]; OUTPUT_LEN];
        let biases = [zero; OUTPUT_LEN];
        let r = WorkingLayer { weights, biases, next: Tail::new() };
        assert forall|i: int| 0 <= i < r.own_weights().len() implies #[trigger] r.own_weights()[i]
            == zero by {
            lemma_row_major(i, INPUT_LEN as int, OUTPUT_LEN as int);
        }
        r
    }

    fn topology() -> (r: Vec<usize>) {
        let mut r = Vec::new();
        r.push(INPUT_LEN);
        let mut rest = Tail::topology();
        r.append(&mut rest);
        r
    }

    fn bias(&self, i: usize) -> (v: Option<Tail::Value>) {
        if i < OUTPUT_LEN {
            Some(self.biases[i])
        } else {
            self.next.bias(i - OUTPUT_LEN)
        }
    }

    fn weight(&self, i: usize) -> (v: Option<Tail::Value>) {
        if INPUT_LEN > 0 {
            proof {
                lemma_row_major_bound(i as int, INPUT_LEN as int, OUTPUT_LEN as int);
            }
        }
        if INPUT_LEN > 0 && i / INPUT_LEN < OUTPUT_LEN {
            proof {
                lemma_row_major(i as int, INPUT_LEN as int, OUTPUT_LEN as int);
            }
            Some(self.weights[i / INPUT_LEN][i % INPUT_LEN])
        } else {
            self.next.weight(i - INPUT_LEN * OUTPUT_LEN)
        }
    }

    fn set_bias(&mut self, i: usize, v: Tail::Value) {
        if i < OUTPUT_LEN {
            self.biases[i] = v;
        } else {
            self.next.set_bias(i - OUTPUT_LEN, v);
        }
    }

    fn set_weight(&mut self, i: usize, v: Tail::Value) {
        if INPUT_LEN > 0 {
            proof {
                lemma_row_major_bound(i as int, INPUT_LEN as int, OUTPUT_LEN as int);
            }
        }
        if INPUT_LEN > 0 && i / INPUT_LEN < OUTPUT_LEN {
            proof {
                lemma_row_major(i as int, INPUT_LEN as int, OUTPUT_LEN as int);
            }
            let neuron = i / INPUT_LEN;
            let input = i % INPUT_LEN;
            let mut row = self.weights[neuron];
            row[input] = v;
            self.weights[neuron] = row;
            proof {
                let ghost w = old(self).own_weights().update(i as int, v);
                assert forall|k: int| 0 <= k < w.len() implies #[trigger] self.own_weights()[k] == w[k] by {
                    lemma_row_major(k, INPUT_LEN as int, OUTPUT_LEN as int);
                    if k != i {
                        if k / (INPUT_LEN as int) == neuron && k % (INPUT_LEN as int) == input {
                            lemma_row_major_unique(k, i as int, INPUT_LEN as int);
                        }
                    }
                }
                assert(self.own_weights() =~= w);
            }
        } else {
            self.next.set_weight(i - INPUT_LEN * OUTPUT_LEN, v);
        }
    }
}

/// A chain that ends in an `OutputLayer` names only that layer's size, and
/// always fits together.
pub proof fn lemma_output_layer_consistent<const INPUT_LEN: usize, T: Copy + Default>()
    ensures
        OutputLayer::<INPUT_LEN, T>::spec_topology() == seq![INPUT_LEN],
        OutputLayer::<INPUT_LEN, T>::consistent(),
{
}

/// A chain that starts with a `WorkingLayer` names the link's input size
/// and then the sizes of the rest of the chain; it fits together exactly
/// when the rest of the chain does and the link's output size is the input
/// size of the next link, whatever the two sizes of the link are.
pub proof fn lemma_working_layer_consistent<
    const INPUT_LEN: usize,
    const OUTPUT_LEN: usize,
    Tail: Layer,
>()
    ensures
        WorkingLayer::<INPUT_LEN, OUTPUT_LEN, Tail>::spec_topology() == seq![INPUT_LEN]
            + Tail::spec_topology(),
        WorkingLayer::<INPUT_LEN, OUTPUT_LEN, Tail>::spec_topology()[1] == Tail::spec_topology()[0],
        WorkingLayer::<INPUT_LEN, OUTPUT_LEN, Tail>::consistent() <==> (Tail::consistent()
            && Tail::spec_topology()[0] == OUTPUT_LEN),
{
    Tail::lemma_topology_nonempty();
}

/// A `Params` implementation whose layer sizes are part of its type: a chain
/// of `WorkingLayer`s ended by an `OutputLayer`.
pub struct ParamsStack<Layers> {
    layers: Layers,
}

impl<Layers: Copy> Clone for ParamsStack<Layers> {
    fn clone(&self) -> (r: Self)
        ensures
            r == *self,
    {
        *self
    }
}

impl<Layers: Copy> Copy for ParamsStack<Layers> {
}

impl<Layers: Layer> ParamsStack<Layers> {
    /// Creates a store with every parameter set to `Layers::Value::default()`.
    ///
    /// The store is well formed when the sizes of its layers fit together
    /// and its parameters can be counted in a `usize`.
    pub fn new() -> (r: Self)
        ensures
            r.wf() <==> Layers::consistent() && layout_fits(Layers::spec_topology()),
            r.spec_layer_sizes() == Layers::spec_topology(),
            forall|i: int|
                0 <= i < r.spec_params().len() ==> call_ensures(
                    Layers::Value::default,
                    (),
                    #[trigger] r.spec_params()[i],
                ),
    {
        let r = ParamsStack { layers: Layers::new() };
        assert forall|i: int| 0 <= i < r.spec_params().len() implies call_ensures(
            Layers::Value::default,
            (),
            #[trigger] r.spec_params()[i],
        ) by {
            if i >= r.layers.spec_biases().len() {
                assert(r.spec_params()[i] == r.layers.spec_weights()[i - r.layers.spec_biases().len()]);
            }
        }
        r
    }

    /// Creates a store of this type holding every parameter of `src`.
    ///
    /// `src` must hold as many parameters as the store; its layer sizes may
    /// differ.
    pub fn from_params<P: Params<Layers::Value>>(src: &P) -> (r: Self)
        requires
            Layers::consistent(),
            layout_fits(Layers::spec_topology()),
            src.wf(),
            src.spec_params().len() == param_total(Layers::spec_topology()),
        ensures
            r.wf(),
            r.spec_layer_sizes() == Layers::spec_topology(),
            r.spec_params() == src.spec_params(),
    {
        let mut result = Self::new();
        proof {
            result.lemma_layout();
        }
        copy_from(&mut result, src);
        result
    }
}

impl<Layers: Layer> ParamsStack<Layers> {
    /// Whether stores of this type are well formed: the sizes of the links
    /// fit together, and the layers and parameters can be counted in a
    /// `usize`.
    pub fn is_well_formed() -> (r: bool)
        ensures
            r == (Layers::consistent() && layout_fits(Layers::spec_topology())),
    {
        if !Layers::is_consistent() {
            return false;
        }
        let depth = match Layers::checked_depth() {
            None => return false,
            Some(d) => d,
        };
        let ghost s = Layers::spec_topology();
        proof {
            Layers::lemma_topology_nonempty();
            lemma_offsets_monotone(s, 0, layer_count(s));
            lemma_offsets_monotone(s, layer_count(s), layer_count(s));
        }
        let mut biases: usize = 0;
        let mut weights: usize = 0;
        let mut l: usize = 1;
        while l < depth
            invariant
                depth == s.len(),
                s == Layers::spec_topology(),
                1 <= l <= depth,
                biases == bias_offset(s, l - 1),
                weights == weight_offset(s, l - 1),
                biases + weights <= usize::MAX,
            decreases depth - l,
        {
            proof {
                lemma_offsets_monotone(s, l as int, layer_count(s));
                lemma_offsets_monotone(s, l - 1, l as int);
            }
            let prev = Layers::size_at(l - 1);
            let cur = Layers::size_at(l);
            let layer_weights = match prev.checked_mul(cur) {
                None => return false,
                Some(n) => n,
            };
            let total = match biases.checked_add(weights) {
                None => return false,
                Some(n) => n,
            };
            let total = match total.checked_add(cur) {
                None => return false,
                Some(n) => n,
            };
            match total.checked_add(layer_weights) {
                None => return false,
                Some(_) => {},
            }
            biases = biases + cur;
            weights = weights + layer_weights;
            l = l + 1;
        }
        true
    }
}

impl<Layers: Layer> Default for ParamsStack<Layers> {
    fn default() -> (r: Self)
        ensures
            r.wf() <==> Layers::consistent() && layout_fits(Layers::spec_topology()),
            r.spec_layer_sizes() == Layers::spec_topology(),
            forall|i: int|
                0 <= i < r.spec_params().len() ==> call_ensures(
                    Layers::Value::default,
                    (),
                    #[trigger] r.spec_params()[i],
                ),
    {
        Self::new()
    }
}

impl<Layers: Layer> Params<Layers::Value> for ParamsStack<Layers> {
    open spec fn spec_layer_sizes(&self) -> Seq<usize> {
        Layers::spec_topology()
    }

    closed spec fn spec_params(&self) -> Seq<Layers::Value> {
        self.layers.spec_biases() + self.layers.spec_weights()
    }

    open spec fn wf(&self) -> bool {
        &&& Layers::consistent()
        &&& layout_fits(Layers::spec_topology())
    }

    proof fn lemma_layout(&self) {
        self.layers.lemma_shape();
    }

    fn layer_sizes(&self) -> (r: Vec<usize>) {
        Layers::topology()
    }

    fn depth(&self) -> (n: usize) {
        Layers::depth()
    }

    fn layer_size(&self, l: usize) -> (n: usize) {
        Layers::size_at(l)
    }

    fn bias_count(&self) -> (n: usize) {
        proof {
            self.layers.lemma_shape();
        }
        self.layers.bias_len()
    }

    fn param_count(&self) -> (n: usize) {
        proof {
            self.layers.lemma_shape();
        }
        self.layers.bias_len() + self.layers.weight_len()
    }

    fn param(&self, i: usize) -> (v: Layers::Value) {
        proof {
            self.layers.lemma_shape();
        }
        let bias_count = self.layers.bias_len();
        if i < bias_count {
            self.layers.bias(i).unwrap()
        } else {
            self.layers.weight(i - bias_count).unwrap()
        }
    }

    fn set_param(&mut self, i: usize, v: Layers::Value) {
        proof {
            self.layers.lemma_shape();
        }
        let bias_count = self.layers.bias_len();
        if i < bias_count {
            self.layers.set_bias(i, v);
        } else {
            self.layers.set_weight(i - bias_count, v);
        }
        assert(self.spec_params() =~= old(self).spec_params().update(i as int, v));
    }
}

} // verus!
