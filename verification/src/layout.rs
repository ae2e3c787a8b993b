//! The flat parameter layout of a feed-forward network.
//!
//! A network is described by its layer sizes `sizes`, input layer first.
//! Every layer but the input one carries parameters: layer `l` (counted
//! from 0 among the non-input layers) has `sizes[l + 1]` biases and
//! `sizes[l] * sizes[l + 1]` weights. The flat sequence of all parameters
//! holds every bias, layer by layer, followed by every weight, layer by
//! layer, neuron by neuron, each neuron's `sizes[l]` incoming weights
//! contiguous.

use vstd::prelude::*;

verus! {

/// Number of layers that carry parameters: all but the input layer.
pub open spec fn layer_count(sizes: Seq<usize>) -> int {
    sizes.len() - 1
}

/// Position of the first bias of layer `l` among all biases.
pub open spec fn bias_offset(sizes: Seq<usize>, l: int) -> int
    decreases l,
{
    if l <= 0 {
        0
    } else {
        bias_offset(sizes, l - 1) + sizes[l]
    }
}

/// Position of the first weight of layer `l` among all weights.
pub open spec fn weight_offset(sizes: Seq<usize>, l: int) -> int
    decreases l,
{
    if l <= 0 {
        0
    } else {
        weight_offset(sizes, l - 1) + sizes[l - 1] * sizes[l]
    }
}

/// Number of biases: the sum of all layer sizes but the input one.
pub open spec fn bias_total(sizes: Seq<usize>) -> int {
    bias_offset(sizes, layer_count(sizes))
}

/// Number of weights: the sum of the products of adjacent layer sizes.
pub open spec fn weight_total(sizes: Seq<usize>) -> int {
    weight_offset(sizes, layer_count(sizes))
}

/// Number of parameters.
pub open spec fn param_total(sizes: Seq<usize>) -> int {
    bias_total(sizes) + weight_total(sizes)
}

/// The sizes name at least the input layer, the layers and every parameter
/// can be counted in a `usize`.
pub open spec fn layout_fits(sizes: Seq<usize>) -> bool {
    &&& sizes.len() >= 1
    &&& sizes.len() <= usize::MAX
    &&& param_total(sizes) <= usize::MAX
}

/// Position in the flat parameters of weight `i` of neuron `j` of layer `l`.
pub open spec fn weight_index(sizes: Seq<usize>, l: int, j: int, i: int) -> int {
    bias_total(sizes) + weight_offset(sizes, l) + j * sizes[l] + i
}

/// The biases of every layer, one sequence per non-input layer.
pub open spec fn bias_layers<T>(sizes: Seq<usize>, params: Seq<T>) -> Seq<Seq<T>> {
    Seq::new(
        layer_count(sizes) as nat,
        |l: int| params.subrange(bias_offset(sizes, l), bias_offset(sizes, l + 1)),
    )
}

/// The incoming weights of neuron `j` of layer `l`.
pub open spec fn neuron_weights<T>(sizes: Seq<usize>, params: Seq<T>, l: int, j: int) -> Seq<T> {
    params.subrange(weight_index(sizes, l, j, 0), weight_index(sizes, l, j + 1, 0))
}

/// The weights of every layer: one sequence per non-input layer, holding
/// one sequence of incoming weights per neuron.
pub open spec fn weight_layers<T>(sizes: Seq<usize>, params: Seq<T>) -> Seq<Seq<Seq<T>>> {
    Seq::new(
        layer_count(sizes) as nat,
        |l: int| Seq::new(sizes[l + 1] as nat, |j: int| neuron_weights(sizes, params, l, j)),
    )
}

/// Offsets grow with the layer index.
pub proof fn lemma_offsets_monotone(sizes: Seq<usize>, a: int, b: int)
    requires
        0 <= a <= b,
    ensures
        bias_offset(sizes, a) <= bias_offset(sizes, b),
        weight_offset(sizes, a) <= weight_offset(sizes, b),
        0 <= bias_offset(sizes, a),
        0 <= weight_offset(sizes, a),
    decreases b,
{
    if a < b {
        lemma_offsets_monotone(sizes, a, b - 1);
        assert(sizes[b - 1] * sizes[b] >= 0) by (nonlinear_arith)
            requires sizes[b - 1] >= 0, sizes[b] >= 0;
    } else if a > 0 {
        lemma_offsets_monotone(sizes, a - 1, a - 1);
        assert(sizes[a - 1] * sizes[a] >= 0) by (nonlinear_arith)
            requires sizes[a - 1] >= 0, sizes[a] >= 0;
    }
}

/// The incoming weights of a neuron lie inside its layer's weights.
pub proof fn lemma_neuron_in_layer(sizes: Seq<usize>, l: int, j: int)
    requires
        0 <= l,
        0 <= j < sizes[l + 1],
    ensures
        weight_offset(sizes, l) <= weight_offset(sizes, l) + j * sizes[l],
        j * sizes[l] + sizes[l] == (j + 1) * sizes[l],
        weight_offset(sizes, l) + (j + 1) * sizes[l] <= weight_offset(sizes, l + 1),
{
    let s = sizes[l] as int;
    let t = sizes[l + 1] as int;
    assert(0 <= j * s && j * s + s == (j + 1) * s && (j + 1) * s <= s * t) by (nonlinear_arith)
        requires 0 <= j < t, 0 <= s;
}

/// The sum of a sequence of sizes.
pub open spec fn seq_sum(s: Seq<usize>) -> int
    decreases s.len(),
{
    if s.len() == 0 {
        0
    } else {
        s[0] + seq_sum(s.drop_first())
    }
}

/// A sum of sizes is never negative.
pub proof fn lemma_seq_sum_nonneg(s: Seq<usize>)
    ensures
        seq_sum(s) >= 0,
    decreases s.len(),
{
    if s.len() > 0 {
        lemma_seq_sum_nonneg(s.drop_first());
    }
}

/// Cuts `buffer` into consecutive pieces of the lengths in `counts`.
pub open spec fn split_by<T>(buffer: Seq<T>, counts: Seq<usize>) -> Seq<Seq<T>>
    decreases counts.len(),
{
    if counts.len() == 0 {
        Seq::empty()
    } else {
        seq![buffer.take(counts[0] as int)] + split_by(buffer.skip(counts[0] as int), counts.drop_first())
    }
}

/// Cutting the bias region by the sizes of the layers after `l` gives the
/// bias layers from `l` on.
pub proof fn lemma_split_biases<T>(sizes: Seq<usize>, params: Seq<T>, l: int)
    requires
        sizes.len() >= 1,
        0 <= l <= layer_count(sizes),
        params.len() >= bias_total(sizes),
    ensures
        seq_sum(sizes.subrange(l + 1, sizes.len() as int)) == bias_total(sizes) - bias_offset(sizes, l),
        split_by(
            params.subrange(bias_offset(sizes, l), bias_total(sizes)),
            sizes.subrange(l + 1, sizes.len() as int),
        ) == bias_layers(sizes, params).subrange(l, layer_count(sizes)),
    decreases layer_count(sizes) - l,
{
    let n = sizes.len() as int;
    let counts = sizes.subrange(l + 1, n);
    let buffer = params.subrange(bias_offset(sizes, l), bias_total(sizes));
    lemma_offsets_monotone(sizes, l, layer_count(sizes));
    if l == layer_count(sizes) {
        assert(counts =~= Seq::<usize>::empty());
        assert(bias_layers(sizes, params).subrange(l, layer_count(sizes)) =~= Seq::<Seq<T>>::empty());
    } else {
        lemma_offsets_monotone(sizes, l + 1, layer_count(sizes));
        lemma_split_biases(sizes, params, l + 1);
        assert(counts.drop_first() =~= sizes.subrange(l + 2, n));
        assert(counts[0] == sizes[l + 1]);
        assert(buffer.take(counts[0] as int) =~= bias_layers(sizes, params)[l]);
        assert(buffer.skip(counts[0] as int) =~= params.subrange(
            bias_offset(sizes, l + 1),
            bias_total(sizes),
        ));
        assert(split_by(buffer, counts) =~= bias_layers(sizes, params).subrange(l, layer_count(sizes)));
    }
}

/// `count` consecutive runs of `width` items each, taken from the start of
/// `data`.
pub open spec fn rows<T>(data: Seq<T>, width: int, count: int) -> Seq<Seq<T>> {
    Seq::new(count as nat, |j: int| data.subrange(j * width, (j + 1) * width))
}

/// The number of weights of consecutive layers of sizes `counts`, the layer
/// before the first of them having `prev` neurons.
pub open spec fn weight_sum(prev: usize, counts: Seq<usize>) -> int
    decreases counts.len(),
{
    if counts.len() == 0 {
        0
    } else {
        prev * counts[0] + weight_sum(counts[0], counts.drop_first())
    }
}

/// Cuts `buffer` into the weight layers of consecutive layers of sizes
/// `counts`, the layer before the first of them having `prev` neurons; each
/// layer is cut into one run of incoming weights per neuron.
pub open spec fn split_weights<T>(buffer: Seq<T>, prev: usize, counts: Seq<usize>) -> Seq<
    Seq<Seq<T>>,
>
    decreases counts.len(),
{
    if counts.len() == 0 {
        Seq::empty()
    } else {
        let n = prev * counts[0];
        seq![rows(buffer.take(n), prev as int, counts[0] as int)] + split_weights(
            buffer.skip(n),
            counts[0],
            counts.drop_first(),
        )
    }
}

/// A sum of weight counts is never negative.
pub proof fn lemma_weight_sum_nonneg(prev: usize, s: Seq<usize>)
    ensures
        weight_sum(prev, s) >= 0,
    decreases s.len(),
{
    if s.len() > 0 {
        lemma_weight_sum_nonneg(s[0], s.drop_first());
        assert(prev * s[0] >= 0) by (nonlinear_arith)
            requires prev >= 0, s[0] >= 0;
    }
}

/// Cutting the weight region by the sizes of the layers after `l` gives the
/// weight layers from `l` on.
pub proof fn lemma_split_weights<T>(sizes: Seq<usize>, params: Seq<T>, l: int)
    requires
        sizes.len() >= 1,
        0 <= l <= layer_count(sizes),
        params.len() == bias_total(sizes) + weight_total(sizes),
    ensures
        weight_sum(sizes[l], sizes.subrange(l + 1, sizes.len() as int)) == weight_total(sizes)
            - weight_offset(sizes, l),
        split_weights(
            params.subrange(bias_total(sizes) + weight_offset(sizes, l), params.len() as int),
            sizes[l],
            sizes.subrange(l + 1, sizes.len() as int),
        ) == weight_layers(sizes, params).subrange(l, layer_count(sizes)),
    decreases layer_count(sizes) - l,
{
    let n = sizes.len() as int;
    let counts = sizes.subrange(l + 1, n);
    let bt = bias_total(sizes);
    let buffer = params.subrange(bt + weight_offset(sizes, l), params.len() as int);
    lemma_offsets_monotone(sizes, l, layer_count(sizes));
    lemma_offsets_monotone(sizes, 0, layer_count(sizes));
    if l == layer_count(sizes) {
        assert(counts =~= Seq::<usize>::empty());
        assert(weight_layers(sizes, params).subrange(l, layer_count(sizes)) =~= Seq::<
            Seq<Seq<T>>,
        >::empty());
    } else {
        lemma_offsets_monotone(sizes, l + 1, layer_count(sizes));
        lemma_split_weights(sizes, params, l + 1);
        let width = sizes[l] as int;
        let count = sizes[l + 1] as int;
        assert(counts.drop_first() =~= sizes.subrange(l + 2, n));
        assert(counts[0] == sizes[l + 1]);
        assert(width * count == weight_offset(sizes, l + 1) - weight_offset(sizes, l));
        let layer = buffer.take(width * count);
        assert forall|j: int| 0 <= j < count implies #[trigger] rows(layer, width, count)[j]
            == weight_layers(sizes, params)[l][j] by {
            lemma_neuron_in_layer(sizes, l, j);
            assert(rows(layer, width, count)[j] =~= neuron_weights(sizes, params, l, j));
        }
        assert(rows(layer, width, count) =~= weight_layers(sizes, params)[l]);
        assert(buffer.skip(width * count) =~= params.subrange(
            bt + weight_offset(sizes, l + 1),
            params.len() as int,
        ));
        assert(split_weights(buffer, sizes[l], counts) =~= weight_layers(sizes, params).subrange(
            l,
            layer_count(sizes),
        ));
    }
}

/// The shapes of the nested views: one item per non-input layer; layer `l`
/// has `sizes[l + 1]` biases and `sizes[l + 1]` neurons, each with the
/// `sizes[l]` incoming weights from the layer before.
pub proof fn lemma_layer_shapes<T>(sizes: Seq<usize>, params: Seq<T>)
    requires
        sizes.len() >= 1,
        params.len() == param_total(sizes),
    ensures
        bias_layers(sizes, params).len() == layer_count(sizes),
        weight_layers(sizes, params).len() == layer_count(sizes),
        forall|l: int|
            0 <= l < layer_count(sizes) ==> (#[trigger] bias_layers(sizes, params)[l]).len()
                == sizes[l + 1],
        forall|l: int|
            0 <= l < layer_count(sizes) ==> (#[trigger] weight_layers(sizes, params)[l]).len()
                == sizes[l + 1],
        forall|l: int, j: int|
            0 <= l < layer_count(sizes) && 0 <= j < sizes[l + 1] ==> (#[trigger] weight_layers(
                sizes,
                params,
            )[l][j]).len() == sizes[l],
{
    assert forall|l: int| 0 <= l < layer_count(sizes) implies (#[trigger] bias_layers(
        sizes,
        params,
    )[l]).len() == sizes[l + 1] by {
        lemma_offsets_monotone(sizes, l + 1, layer_count(sizes));
        lemma_offsets_monotone(sizes, l, l + 1);
        lemma_offsets_monotone(sizes, layer_count(sizes), layer_count(sizes));
    }
    assert forall|l: int, j: int|
        0 <= l < layer_count(sizes) && 0 <= j < sizes[l + 1] implies (#[trigger] weight_layers(
        sizes,
        params,
    )[l][j]).len() == sizes[l] by {
        lemma_offsets_monotone(sizes, l + 1, layer_count(sizes));
        lemma_offsets_monotone(sizes, l, l + 1);
        lemma_offsets_monotone(sizes, layer_count(sizes), layer_count(sizes));
        lemma_neuron_in_layer(sizes, l, j);
    }
}

/// Offsets of a network with one more layer in front.
pub proof fn lemma_prepend_offsets(a: usize, s: Seq<usize>, l: int)
    requires
        1 <= l <= s.len(),
    ensures
        bias_offset(seq![a] + s, l) == s[0] + bias_offset(s, l - 1),
        weight_offset(seq![a] + s, l) == a * s[0] + weight_offset(s, l - 1),
    decreases l,
{
    let p = seq![a] + s;
    assert(p[l] == s[l - 1]);
    assert(bias_offset(p, l) == bias_offset(p, l - 1) + p[l]);
    assert(weight_offset(p, l) == weight_offset(p, l - 1) + p[l - 1] * p[l]);
    if l > 1 {
        lemma_prepend_offsets(a, s, l - 1);
        assert(p[l - 1] == s[l - 2]);
        assert(bias_offset(s, l - 1) == bias_offset(s, l - 2) + s[l - 1]);
        assert(weight_offset(s, l - 1) == weight_offset(s, l - 2) + s[l - 2] * s[l - 1]);
    } else {
        assert(p[0] == a);
        assert(bias_offset(p, 0) == 0);
        assert(weight_offset(p, 0) == 0);
        assert(bias_offset(s, 0) == 0);
        assert(weight_offset(s, 0) == 0);
    }
}

/// Totals of a network with one more layer in front.
pub proof fn lemma_prepend_totals(a: usize, s: Seq<usize>)
    requires
        s.len() >= 1,
    ensures
        layer_count(seq![a] + s) == layer_count(s) + 1,
        bias_total(seq![a] + s) == s[0] + bias_total(s),
        weight_total(seq![a] + s) == a * s[0] + weight_total(s),
{
    lemma_prepend_offsets(a, s, s.len() as int);
}

/// The size of the widest layer.
pub open spec fn widest(sizes: Seq<usize>) -> int
    decreases sizes.len(),
{
    if sizes.len() == 0 {
        0
    } else {
        let rest = widest(sizes.drop_last());
        if sizes.last() > rest {
            sizes.last() as int
        } else {
            rest
        }
    }
}

/// No layer is wider than the widest one.
pub proof fn lemma_widest_bounds(sizes: Seq<usize>)
    ensures
        widest(sizes) >= 0,
        forall|l: int| 0 <= l < sizes.len() ==> sizes[l] <= widest(sizes),
    decreases sizes.len(),
{
    if sizes.len() > 0 {
        lemma_widest_bounds(sizes.drop_last());
        assert forall|l: int| 0 <= l < sizes.len() implies sizes[l] <= widest(sizes) by {
            if l < sizes.len() - 1 {
                assert(sizes[l] == sizes.drop_last()[l]);
            }
        }
    }
}

/// Returns the size of the widest layer, which bounds the length of every
/// layer's input and output during evaluation.
pub fn widest_layer(sizes: &[usize]) -> (n: usize)
    ensures
        n == widest(sizes@),
        forall|l: int| 0 <= l < sizes@.len() ==> sizes@[l] <= n,
        sizes@.len() > 0 ==> exists|l: int| 0 <= l < sizes@.len() && sizes@[l] == n,
{
    let mut n: usize = 0;
    let mut k: usize = 0;
    while k < sizes.len()
        invariant
            k <= sizes@.len(),
            n == widest(sizes@.take(k as int)),
            forall|l: int| 0 <= l < k ==> sizes@[l] <= n,
            k > 0 ==> exists|l: int| 0 <= l < k && sizes@[l] == n,
            k == 0 ==> n == 0,
        decreases sizes@.len() - k,
    {
        assert(sizes@.take(k + 1).drop_last() =~= sizes@.take(k as int));
        if sizes[k] > n {
            n = sizes[k];
        }
        k = k + 1;
    }
    assert(sizes@.take(sizes@.len() as int) =~= sizes@);
    n
}

/// Counts the biases of a network with layer sizes `sizes`: the sum of
/// every size but the input one.
pub fn count_biases(sizes: &[usize]) -> (n: usize)
    requires
        layout_fits(sizes@),
    ensures
        n == bias_total(sizes@),
{
    let ghost s = sizes@;
    proof {
        lemma_offsets_monotone(s, 0, layer_count(s));
    }
    let mut n: usize = 0;
    let mut l: usize = 1;
    while l < sizes.len()
        invariant
            s == sizes@,
            layout_fits(s),
            1 <= l <= s.len(),
            n == bias_offset(s, l - 1),
        decreases s.len() - l,
    {
        proof {
            lemma_offsets_monotone(s, l as int, layer_count(s));
            lemma_offsets_monotone(s, 0, layer_count(s));
        }
        n = n + sizes[l];
        l = l + 1;
    }
    n
}

/// Counts the weights of a network with layer sizes `sizes`: the sum of the
/// products of adjacent sizes.
pub fn count_weights(sizes: &[usize]) -> (n: usize)
    requires
        layout_fits(sizes@),
    ensures
        n == weight_total(sizes@),
{
    let ghost s = sizes@;
    proof {
        lemma_offsets_monotone(s, 0, layer_count(s));
    }
    let mut n: usize = 0;
    let mut l: usize = 1;
    while l < sizes.len()
        invariant
            s == sizes@,
            layout_fits(s),
            1 <= l <= s.len(),
            n == weight_offset(s, l - 1),
        decreases s.len() - l,
    {
        proof {
            lemma_offsets_monotone(s, l as int, layer_count(s));
            lemma_offsets_monotone(s, 0, layer_count(s));
            lemma_offsets_monotone(s, l - 1, l - 1);
        }
        let product = sizes[l - 1] * sizes[l];
        n = n + product;
        l = l + 1;
    }
    n
}

/// Cutting a buffer into pieces and joining them again gives the buffer.
pub proof fn lemma_flatten_split_by<T>(buffer: Seq<T>, counts: Seq<usize>)
    requires
        buffer.len() == seq_sum(counts),
    ensures
        split_by(buffer, counts).flatten() == buffer,
    decreases counts.len(),
{
    if counts.len() == 0 {
        assert(buffer =~= Seq::<T>::empty());
    } else {
        let c = counts[0] as int;
        lemma_seq_sum_nonneg(counts.drop_first());
        lemma_flatten_split_by(buffer.skip(c), counts.drop_first());
        let parts = split_by(buffer, counts);
        assert(parts.first() == buffer.take(c));
        assert(parts.drop_first() =~= split_by(buffer.skip(c), counts.drop_first()));
        assert(buffer.take(c) + buffer.skip(c) =~= buffer);
    }
}

/// Cutting a buffer into rows of equal width and joining them again gives
/// the buffer.
pub proof fn lemma_flatten_rows<T>(data: Seq<T>, width: int, count: int)
    requires
        0 <= width,
        0 <= count,
        data.len() == width * count,
    ensures
        rows(data, width, count).flatten() == data,
    decreases count,
{
    if count == 0 {
        assert(width * count == 0) by (nonlinear_arith)
            requires count == 0;
        assert(data =~= Seq::<T>::empty());
    } else {
        assert(width * count == width + width * (count - 1) && width * (count - 1) >= 0)
            by (nonlinear_arith)
            requires 0 <= width, 1 <= count;
        let rest = data.skip(width);
        lemma_flatten_rows(rest, width, count - 1);
        let r = rows(data, width, count);
        assert(r.first() =~= data.take(width));
        assert forall|j: int| 0 <= j < count - 1 implies #[trigger] r.drop_first()[j]
            == rows(rest, width, count - 1)[j] by {
            assert((j + 1) * width == width + j * width && (j + 2) * width == width + (j + 1)
                * width) by (nonlinear_arith);
            assert(0 <= j * width && (j + 1) * width <= width * (count - 1)) by (nonlinear_arith)
                requires 0 <= j < count - 1, 0 <= width;
            assert(r.drop_first()[j] =~= rows(rest, width, count - 1)[j]);
        }
        assert(r.drop_first() =~= rows(rest, width, count - 1));
        assert(data.take(width) + rest =~= data);
    }
}

/// Cutting a buffer into weight layers and joining them again, neuron by
/// neuron and layer by layer, gives the buffer.
pub proof fn lemma_flatten_split_weights<T>(buffer: Seq<T>, prev: usize, counts: Seq<usize>)
    requires
        buffer.len() == weight_sum(prev, counts),
    ensures
        split_weights(buffer, prev, counts).map_values(|layer: Seq<Seq<T>>| layer.flatten()).flatten()
            == buffer,
    decreases counts.len(),
{
    let f = |layer: Seq<Seq<T>>| layer.flatten();
    if counts.len() == 0 {
        assert(buffer =~= Seq::<T>::empty());
        assert(split_weights(buffer, prev, counts).map_values(f) =~= Seq::<Seq<T>>::empty());
    } else {
        let n = prev * counts[0];
        assert(n >= 0) by (nonlinear_arith)
            requires n == prev * counts[0], prev >= 0, counts[0] >= 0;
        lemma_weight_sum_nonneg(counts[0], counts.drop_first());
        lemma_flatten_split_weights(buffer.skip(n), counts[0], counts.drop_first());
        lemma_flatten_rows(buffer.take(n), prev as int, counts[0] as int);
        let layers = split_weights(buffer, prev, counts);
        let joined = layers.map_values(f);
        assert(joined.first() == buffer.take(n));
        assert(joined.drop_first() =~= split_weights(buffer.skip(n), counts[0], counts.drop_first()).map_values(f));
        assert(buffer.take(n) + buffer.skip(n) =~= buffer);
    }
}

/// The nested views cover the flat parameters exactly: the bias layers,
/// joined end to end, are the bias region, and the weight layers, joined
/// neuron by neuron and layer by layer, are the weight region. Every
/// parameter thus has exactly one place in the nested views, and the flat
/// views hold the same data in the same order.
pub proof fn lemma_nested_views_cover_flat<T>(sizes: Seq<usize>, params: Seq<T>)
    requires
        sizes.len() >= 1,
        params.len() == param_total(sizes),
    ensures
        bias_layers(sizes, params).flatten() == params.take(bias_total(sizes)),
        weight_layers(sizes, params).map_values(|layer: Seq<Seq<T>>| layer.flatten()).flatten()
            == params.skip(bias_total(sizes)),
{
    let n = sizes.len() as int;
    let bt = bias_total(sizes);
    lemma_offsets_monotone(sizes, 0, layer_count(sizes));
    lemma_split_biases(sizes, params, 0);
    lemma_split_weights(sizes, params, 0);
    assert(sizes.subrange(1, n) =~= sizes.drop_first());
    assert(params.subrange(0, bt) =~= params.take(bt));
    assert(params.subrange(bt, params.len() as int) =~= params.skip(bt));
    assert(bias_layers(sizes, params).subrange(0, layer_count(sizes)) =~= bias_layers(sizes, params));
    assert(weight_layers(sizes, params).subrange(0, layer_count(sizes)) =~= weight_layers(sizes, params));
    lemma_flatten_split_by(params.take(bt), sizes.drop_first());
    lemma_flatten_split_weights(params.skip(bt), sizes[0], sizes.drop_first());
}

} // verus!
