//! The forward pass of a network, over the arithmetic its caller supplies.
//!
//! The pass is written once for every parameter type: the caller hands in
//! the multiply-accumulate step and the activation function, and the pass
//! walks the layers in the flat layout, keeping the values of one layer in a
//! caller-provided buffer. The contract says which calls of the two
//! functions the output results from.

use crate::layout::{
    bias_layers, bias_offset, bias_total, layer_count, layout_fits,
    lemma_layer_shapes, lemma_neuron_in_layer, lemma_offsets_monotone, neuron_weights,
    lemma_widest_bounds, param_total, weight_index, weight_layers, weight_offset, widest,
};
use crate::params::Params;
use vstd::prelude::*;

verus! {

/// `partial` is a run of `mul_add` over `weights` and `inputs`: each entry
/// after the first is what `mul_add` can give on the one before it and the
/// weight and input at its position.
pub open spec fn accumulates<T, F: Fn(T, T, T) -> T>(
    mul_add: F,
    partial: Seq<T>,
    weights: Seq<T>,
    inputs: Seq<T>,
) -> bool {
    forall|i: int|
        0 <= i < partial.len() - 1 ==> call_ensures(
            mul_add,
            (partial[i], weights[i], inputs[i]),
            #[trigger] partial[i + 1],
        )
}

/// `out` is a value a neuron with bias `bias` and incoming weights
/// `weights` can give on `inputs`: the activation of what folding
/// `mul_add` over every weight and input, starting from the bias, gives.
pub open spec fn neuron_output<T, F: Fn(T, T, T) -> T, G: Fn(T) -> T>(
    mul_add: F,
    activate: G,
    bias: T,
    weights: Seq<T>,
    inputs: Seq<T>,
    out: T,
) -> bool {
    exists|partial: Seq<T>|
        #[trigger] accumulates(mul_add, partial, weights, inputs) && partial.len() == weights.len()
            + 1 && partial[0] == bias && call_ensures(activate, (partial.last(),), out)
}

/// `outputs` are values a layer with biases `biases` and neuron weights
/// `neurons` can give on `inputs`, one per neuron.
pub open spec fn layer_output<T, F: Fn(T, T, T) -> T, G: Fn(T) -> T>(
    mul_add: F,
    activate: G,
    biases: Seq<T>,
    neurons: Seq<Seq<T>>,
    inputs: Seq<T>,
    outputs: Seq<T>,
) -> bool {
    &&& outputs.len() == biases.len()
    &&& forall|j: int|
        0 <= j < outputs.len() ==> #[trigger] neuron_output(
            mul_add,
            activate,
            biases[j],
            neurons[j],
            inputs,
            outputs[j],
        )
}

/// `trace` holds the values of successive layers: each entry after the
/// first is what the layer at its position can give on the entry before.
pub open spec fn layers_trace<T, F: Fn(T, T, T) -> T, G: Fn(T) -> T>(
    mul_add: F,
    activate: G,
    biases: Seq<Seq<T>>,
    weights: Seq<Seq<Seq<T>>>,
    trace: Seq<Seq<T>>,
) -> bool {
    forall|l: int|
        0 <= l < trace.len() - 1 ==> #[trigger] layer_output(
            mul_add,
            activate,
            biases[l],
            weights[l],
            trace[l],
            trace[l + 1],
        )
}

/// `values` are values the network with the given bias and weight layers
/// can give on `input`: the output layer's values of a trace of every layer
/// that starts with the input.
pub open spec fn network_output<T, F: Fn(T, T, T) -> T, G: Fn(T) -> T>(
    mul_add: F,
    activate: G,
    biases: Seq<Seq<T>>,
    weights: Seq<Seq<Seq<T>>>,
    input: Seq<T>,
    values: Seq<T>,
) -> bool {
    exists|trace: Seq<Seq<T>>|
        #[trigger] layers_trace(mul_add, activate, biases, weights, trace) && trace.len()
            == biases.len() + 1 && trace[0] == input && trace.last() == values
}

/// `f` gives one result for each argument triple.
pub open spec fn deterministic_step<T, F: Fn(T, T, T) -> T>(f: F) -> bool {
    forall|a: T, b: T, c: T, r1: T, r2: T|
        call_ensures(f, (a, b, c), r1) && call_ensures(f, (a, b, c), r2) ==> r1 == r2
}

/// `f` gives one result for each argument.
pub open spec fn deterministic_map<T, G: Fn(T) -> T>(f: G) -> bool {
    forall|a: T, r1: T, r2: T| call_ensures(f, (a,), r1) && call_ensures(f, (a,), r2) ==> r1 == r2
}

/// Two runs of a deterministic step over the same weights and inputs from
/// the same start agree everywhere.
proof fn lemma_accumulates_unique<T, F: Fn(T, T, T) -> T>(
    f: F,
    p1: Seq<T>,
    p2: Seq<T>,
    weights: Seq<T>,
    inputs: Seq<T>,
    k: int,
)
    requires
        deterministic_step(f),
        accumulates(f, p1, weights, inputs),
        accumulates(f, p2, weights, inputs),
        p1.len() == p2.len(),
        p1[0] == p2[0],
        0 <= k < p1.len(),
    ensures
        p1[k] == p2[k],
    decreases k,
{
    if k > 0 {
        lemma_accumulates_unique(f, p1, p2, weights, inputs, k - 1);
        assert(call_ensures(f, (p1[k - 1], weights[k - 1], inputs[k - 1]), p1[(k - 1) + 1]));
        assert(call_ensures(f, (p2[k - 1], weights[k - 1], inputs[k - 1]), p2[(k - 1) + 1]));
    }
}

/// A neuron evaluated with deterministic functions has one output.
proof fn lemma_neuron_output_unique<T, F: Fn(T, T, T) -> T, G: Fn(T) -> T>(
    mul_add: F,
    activate: G,
    bias: T,
    weights: Seq<T>,
    inputs: Seq<T>,
    o1: T,
    o2: T,
)
    requires
        deterministic_step(mul_add),
        deterministic_map(activate),
        neuron_output(mul_add, activate, bias, weights, inputs, o1),
        neuron_output(mul_add, activate, bias, weights, inputs, o2),
    ensures
        o1 == o2,
{
    let p1 = choose|partial: Seq<T>|
        #[trigger] accumulates(mul_add, partial, weights, inputs) && partial.len() == weights.len()
            + 1 && partial[0] == bias && call_ensures(activate, (partial.last(),), o1);
    let p2 = choose|partial: Seq<T>|
        #[trigger] accumulates(mul_add, partial, weights, inputs) && partial.len() == weights.len()
            + 1 && partial[0] == bias && call_ensures(activate, (partial.last(),), o2);
    lemma_accumulates_unique(mul_add, p1, p2, weights, inputs, weights.len() as int);
}

/// A layer evaluated with deterministic functions has one output.
proof fn lemma_layer_output_unique<T, F: Fn(T, T, T) -> T, G: Fn(T) -> T>(
    mul_add: F,
    activate: G,
    biases: Seq<T>,
    neurons: Seq<Seq<T>>,
    inputs: Seq<T>,
    o1: Seq<T>,
    o2: Seq<T>,
)
    requires
        deterministic_step(mul_add),
        deterministic_map(activate),
        layer_output(mul_add, activate, biases, neurons, inputs, o1),
        layer_output(mul_add, activate, biases, neurons, inputs, o2),
    ensures
        o1 == o2,
{
    assert forall|j: int| 0 <= j < o1.len() implies o1[j] == o2[j] by {
        assert(neuron_output(mul_add, activate, biases[j], neurons[j], inputs, o1[j]));
        assert(neuron_output(mul_add, activate, biases[j], neurons[j], inputs, o2[j]));
        lemma_neuron_output_unique(mul_add, activate, biases[j], neurons[j], inputs, o1[j], o2[j]);
    }
    assert(o1 =~= o2);
}

/// Two traces of the same network on the same input, with deterministic
/// functions, agree layer by layer.
proof fn lemma_traces_agree<T, F: Fn(T, T, T) -> T, G: Fn(T) -> T>(
    mul_add: F,
    activate: G,
    biases: Seq<Seq<T>>,
    weights: Seq<Seq<Seq<T>>>,
    t1: Seq<Seq<T>>,
    t2: Seq<Seq<T>>,
    l: int,
)
    requires
        deterministic_step(mul_add),
        deterministic_map(activate),
        layers_trace(mul_add, activate, biases, weights, t1),
        layers_trace(mul_add, activate, biases, weights, t2),
        t1.len() == t2.len(),
        t1[0] == t2[0],
        0 <= l < t1.len(),
    ensures
        t1[l] == t2[l],
    decreases l,
{
    if l > 0 {
        lemma_traces_agree(mul_add, activate, biases, weights, t1, t2, l - 1);
        assert(layer_output(mul_add, activate, biases[l - 1], weights[l - 1], t1[l - 1], t1[(l - 1) + 1]));
        assert(layer_output(mul_add, activate, biases[l - 1], weights[l - 1], t2[l - 1], t2[(l - 1) + 1]));
        lemma_layer_output_unique(
            mul_add,
            activate,
            biases[l - 1],
            weights[l - 1],
            t1[l - 1],
            t1[l],
            t2[l],
        );
    }
}

/// With a deterministic step and activation, a network has exactly one
/// output on a given input: the forward pass gives the same output whatever
/// its buffers held before, and however often it runs.
pub proof fn lemma_network_output_unique<T, F: Fn(T, T, T) -> T, G: Fn(T) -> T>(
    mul_add: F,
    activate: G,
    biases: Seq<Seq<T>>,
    weights: Seq<Seq<Seq<T>>>,
    input: Seq<T>,
    v1: Seq<T>,
    v2: Seq<T>,
)
    requires
        deterministic_step(mul_add),
        deterministic_map(activate),
        network_output(mul_add, activate, biases, weights, input, v1),
        network_output(mul_add, activate, biases, weights, input, v2),
    ensures
        v1 == v2,
{
    let t1 = choose|trace: Seq<Seq<T>>|
        #[trigger] layers_trace(mul_add, activate, biases, weights, trace) && trace.len()
            == biases.len() + 1 && trace[0] == input && trace.last() == v1;
    let t2 = choose|trace: Seq<Seq<T>>|
        #[trigger] layers_trace(mul_add, activate, biases, weights, trace) && trace.len()
            == biases.len() + 1 && trace[0] == input && trace.last() == v2;
    lemma_traces_agree(mul_add, activate, biases, weights, t1, t2, biases.len() as int);
}

/// An output of a network on an input as long as its input layer is as
/// long as its output layer.
pub proof fn lemma_network_output_len<T, F: Fn(T, T, T) -> T, G: Fn(T) -> T>(
    mul_add: F,
    activate: G,
    sizes: Seq<usize>,
    params: Seq<T>,
    input: Seq<T>,
    values: Seq<T>,
)
    requires
        sizes.len() >= 1,
        params.len() == param_total(sizes),
        input.len() == sizes[0],
        network_output(
            mul_add,
            activate,
            bias_layers(sizes, params),
            weight_layers(sizes, params),
            input,
            values,
        ),
    ensures
        values.len() == sizes.last(),
{
    let bl = bias_layers(sizes, params);
    let wl = weight_layers(sizes, params);
    lemma_layer_shapes(sizes, params);
    let t = choose|trace: Seq<Seq<T>>|
        #[trigger] layers_trace(mul_add, activate, bl, wl, trace) && trace.len() == bl.len() + 1
            && trace[0] == input && trace.last() == values;
    let n = layer_count(sizes);
    if n > 0 {
        assert(layer_output(mul_add, activate, bl[n - 1], wl[n - 1], t[n - 1], t[(n - 1) + 1]));
    }
}

/// Feeds `input` forward through the network whose parameters `params`
/// holds and returns the values of the output layer in a new vector.
pub fn forward_alloc<T: Copy + Default, P: Params<T>, F: Fn(T, T, T) -> T, G: Fn(T) -> T>(
    params: &P,
    mul_add: &F,
    activate: &G,
    input: &[T],
) -> (r: Vec<T>)
    requires
        params.wf(),
        forall|a: T, b: T, c: T| call_requires(*mul_add, (a, b, c)),
        forall|a: T| call_requires(*activate, (a,)),
        input@.len() == params.spec_layer_sizes()[0],
    ensures
        r@.len() == params.spec_layer_sizes().last(),
        network_output(
            *mul_add,
            *activate,
            bias_layers(params.spec_layer_sizes(), params.spec_params()),
            weight_layers(params.spec_layer_sizes(), params.spec_params()),
            input@,
            r@,
        ),
{
    proof {
        params.lemma_layout();
    }
    let width = params.widest_layer_size();
    let zero = T::default();
    let mut in_buff: Vec<T> = vec![zero; width];
    let mut out_buff: Vec<T> = vec![zero; width];
    let output_len = params.layer_size(params.depth() - 1);
    let mut output: Vec<T> = vec![zero; output_len];
    feed_forward_halves(
        params,
        mul_add,
        activate,
        input,
        output.as_mut_slice(),
        in_buff.as_mut_slice(),
        out_buff.as_mut_slice(),
    );
    proof {
        let values = choose|values: Seq<T>|
            #[trigger] network_output(
                *mul_add,
                *activate,
                bias_layers(params.spec_layer_sizes(), params.spec_params()),
                weight_layers(params.spec_layer_sizes(), params.spec_params()),
                input@,
                values,
            ) && output@ == values.take(output_len as int);
        lemma_network_output_len(
            *mul_add,
            *activate,
            params.spec_layer_sizes(),
            params.spec_params(),
            input@,
            values,
        );
        assert(output@ =~= values);
    }
    output
}

/// Feeds `input` forward through the network whose parameters `params`
/// holds, without allocating: the values of a layer are kept in the first
/// half of `buffer`, those of the next layer in the second half. `output`
/// receives the first `output.len()` values of the output layer.
///
/// `mul_add(acc, w, x)` is the step that adds the weighted input `w * x` to
/// `acc`; `activate` is the activation function.
pub fn feed_forward<T: Copy, P: Params<T>, F: Fn(T, T, T) -> T, G: Fn(T) -> T>(
    params: &P,
    mul_add: &F,
    activate: &G,
    input: &[T],
    output: &mut [T],
    buffer: &mut [T],
)
    requires
        params.wf(),
        forall|a: T, b: T, c: T| call_requires(*mul_add, (a, b, c)),
        forall|a: T| call_requires(*activate, (a,)),
        input@.len() == params.spec_layer_sizes()[0],
        old(output)@.len() <= params.spec_layer_sizes().last(),
        old(buffer)@.len() >= 2 * widest(params.spec_layer_sizes()),
    ensures
        exists|values: Seq<T>|
            #[trigger] network_output(
                *mul_add,
                *activate,
                bias_layers(params.spec_layer_sizes(), params.spec_params()),
                weight_layers(params.spec_layer_sizes(), params.spec_params()),
                input@,
                values,
            ) && final(output)@ == values.take(old(output)@.len() as int),
{
    let width = params.widest_layer_size();
    let (in_buff, out_buff) = buffer.split_at_mut(width);
    feed_forward_halves(params, mul_add, activate, input, output, in_buff, out_buff)
}

/// Feeds `input` forward, keeping the values of a layer in `in_buff` and
/// computing those of the next layer into `out_buff`; each must be as long
/// as the widest layer.
pub fn feed_forward_halves<T: Copy, P: Params<T>, F: Fn(T, T, T) -> T, G: Fn(T) -> T>(
    params: &P,
    mul_add: &F,
    activate: &G,
    input: &[T],
    output: &mut [T],
    in_buff: &mut [T],
    out_buff: &mut [T],
)
    requires
        params.wf(),
        forall|a: T, b: T, c: T| call_requires(*mul_add, (a, b, c)),
        forall|a: T| call_requires(*activate, (a,)),
        input@.len() == params.spec_layer_sizes()[0],
        old(output)@.len() <= params.spec_layer_sizes().last(),
        old(in_buff)@.len() >= widest(params.spec_layer_sizes()),
        old(out_buff)@.len() >= widest(params.spec_layer_sizes()),
    ensures
        exists|values: Seq<T>|
            #[trigger] network_output(
                *mul_add,
                *activate,
                bias_layers(params.spec_layer_sizes(), params.spec_params()),
                weight_layers(params.spec_layer_sizes(), params.spec_params()),
                input@,
                values,
            ) && final(output)@ == values.take(old(output)@.len() as int),
{
    let ghost s = params.spec_layer_sizes();
    let ghost p = params.spec_params();
    let ghost bl = bias_layers(s, p);
    let ghost wl = weight_layers(s, p);
    proof {
        params.lemma_layout();
        lemma_offsets_monotone(s, 0, layer_count(s));
        lemma_offsets_monotone(s, layer_count(s), layer_count(s));
        lemma_layer_shapes(s, p);
        lemma_widest_bounds(s);
    }
    let ghost width = widest(s);
    let in_len0 = input.len();
    let mut k: usize = 0;
    while k < in_len0
        invariant
            in_len0 == input@.len(),
            in_len0 <= width,
            in_buff@.len() >= width,
            k <= in_len0,
            forall|m: int| 0 <= m < k ==> in_buff@[m] == input@[m],
        decreases in_len0 - k,
    {
        in_buff[k] = input[k];
        k = k + 1;
    }
    assert(in_buff@.take(in_len0 as int) =~= input@);
    let layers = params.depth() - 1;
    let bias_count = params.bias_count();
    let mut in_len: usize = in_len0;
    let ghost mut trace: Seq<Seq<T>> = seq![input@];
    let mut bias_pos: usize = 0;
    let mut weight_pos: usize = bias_count;
    let mut l: usize = 0;
    while l < layers
        invariant
            params.wf(),
            s == params.spec_layer_sizes(),
            p == params.spec_params(),
            bl == bias_layers(s, p),
            wl == weight_layers(s, p),
            layout_fits(s),
            p.len() == param_total(s),
            bias_count <= p.len(),
            layers == layer_count(s),
            bias_count == bias_total(s),
            forall|m: int| 0 <= m < s.len() ==> s[m] <= width,
            forall|a: T, b: T, c: T| call_requires(*mul_add, (a, b, c)),
            forall|a: T| call_requires(*activate, (a,)),
            in_buff@.len() >= width,
            out_buff@.len() >= width,
            l <= layers,
            in_len == s[l as int],
            bias_pos == bias_offset(s, l as int),
            weight_pos == bias_count + weight_offset(s, l as int),
            trace.len() == l + 1,
            trace[0] == input@,
            trace.last().len() == in_len,
            in_buff@.take(in_len as int) == trace.last(),
            layers_trace(*mul_add, *activate, bl, wl, trace),
        decreases layers - l,
    {
        proof {
            lemma_offsets_monotone(s, l + 1, layer_count(s));
            lemma_offsets_monotone(s, l as int, l + 1);
            assert(bias_offset(s, l + 1) == bias_offset(s, l as int) + s[l + 1]);
        }
        let ghost values = trace.last();
        let neurons = params.layer_size(l + 1);
        let ghost biases_l = bl[l as int];
        let ghost neurons_l = wl[l as int];
        let mut row_start: usize = weight_pos;
        let mut j: usize = 0;
        while j < neurons
            invariant
                params.wf(),
                s == params.spec_layer_sizes(),
                p == params.spec_params(),
                bl == bias_layers(s, p),
                wl == weight_layers(s, p),
                biases_l == bl[l as int],
                neurons_l == wl[l as int],
                layout_fits(s),
                p.len() == param_total(s),
                bias_count <= p.len(),
                l < layer_count(s),
                bias_count == bias_total(s),
                forall|a: T, b: T, c: T| call_requires(*mul_add, (a, b, c)),
                forall|a: T| call_requires(*activate, (a,)),
                neurons == s[l + 1],
                neurons <= width,
                in_len <= width,
                in_buff@.len() >= width,
                out_buff@.len() >= width,
                in_len == s[l as int],
                in_buff@.take(in_len as int) == values,
                values.len() == in_len,
                bias_pos == bias_offset(s, l as int),
                bias_offset(s, l + 1) == bias_offset(s, l as int) + s[l + 1],
                bias_offset(s, l + 1) <= bias_count,
                weight_offset(s, l + 1) <= weight_offset(s, layer_count(s)),
                j <= neurons,
                row_start == weight_index(s, l as int, j as int, 0),
                forall|m: int|
                    0 <= m < j ==> #[trigger] neuron_output(
                        *mul_add,
                        *activate,
                        biases_l[m],
                        neurons_l[m],
                        values,
                        out_buff@[m],
                    ),
            decreases neurons - j,
        {
            proof {
                lemma_neuron_in_layer(s, l as int, j as int);
            }
            let mut acc = params.param(bias_pos + j);
            let ghost bias = acc;
            let ghost row = neurons_l[j as int];
            assert(biases_l == p.subrange(bias_offset(s, l as int), bias_offset(s, l + 1)));
            assert(bias == biases_l[j as int]);
            assert(row == neuron_weights(s, p, l as int, j as int));
            assert(row =~= p.subrange(row_start as int, row_start + in_len));
            let ghost mut partial: Seq<T> = seq![acc];
            let mut k: usize = 0;
            while k < in_len
                invariant
                    params.wf(),
                    p == params.spec_params(),
                    p.len() == param_total(s),
                    layout_fits(s),
                    forall|a: T, b: T, c: T| call_requires(*mul_add, (a, b, c)),
                    in_buff@.len() >= width,
                    in_len <= width,
                    in_buff@.take(in_len as int) == values,
                    values.len() == in_len,
                    row_start + in_len <= p.len(),
                    row == p.subrange(row_start as int, row_start + in_len),
                    k <= in_len,
                    partial.len() == k + 1,
                    partial[0] == bias,
                    partial.last() == acc,
                    accumulates(*mul_add, partial, row, values),
                decreases in_len - k,
            {
                let weight = params.param(row_start + k);
                let value = in_buff[k];
                assert(weight == row[k as int]);
                assert(value == values[k as int]);
                acc = mul_add(acc, weight, value);
                proof {
                    let ghost next = partial.push(acc);
                    assert forall|i: int| 0 <= i < next.len() - 1 implies call_ensures(
                        *mul_add,
                        (next[i], row[i], values[i]),
                        #[trigger] next[i + 1],
                    ) by {
                        if i < partial.len() - 1 {
                            assert(next[i + 1] == partial[i + 1]);
                        }
                    }
                    partial = next;
                }
                k = k + 1;
            }
            let out = activate(acc);
            assert(neuron_output(*mul_add, *activate, bias, row, values, out));
            out_buff[j] = out;
            row_start = row_start + in_len;
            j = j + 1;
        }
        let ghost next_values = out_buff@.take(neurons as int);
        assert(layer_output(*mul_add, *activate, biases_l, neurons_l, values, next_values));
        let mut m: usize = 0;
        while m < neurons
            invariant
                neurons <= width,
                in_buff@.len() >= width,
                out_buff@.len() >= width,
                next_values == out_buff@.take(neurons as int),
                m <= neurons,
                forall|i: int| 0 <= i < m ==> in_buff@[i] == next_values[i],
            decreases neurons - m,
        {
            in_buff[m] = out_buff[m];
            m = m + 1;
        }
        assert(in_buff@.take(neurons as int) =~= next_values);
        proof {
            let ghost next_trace = trace.push(next_values);
            assert forall|i: int| 0 <= i < next_trace.len() - 1 implies #[trigger] layer_output(
                *mul_add,
                *activate,
                bl[i],
                wl[i],
                next_trace[i],
                next_trace[i + 1],
            ) by {
                if i < trace.len() - 1 {
                    assert(next_trace[i] == trace[i]);
                    assert(next_trace[i + 1] == trace[i + 1]);
                } else {
                    assert(next_trace[i] == values);
                    assert(next_trace[i + 1] == next_values);
                }
            }
            trace = next_trace;
        }
        assert(neurons * in_len == in_len * neurons) by (nonlinear_arith);
        in_len = neurons;
        bias_pos = bias_pos + neurons;
        weight_pos = row_start;
        l = l + 1;
    }
    let out_len = output.len();
    let mut i: usize = 0;
    while i < out_len
        invariant
            out_len == output@.len(),
            out_len <= in_len,
            in_len <= width,
            in_buff@.len() >= width,
            in_buff@.take(in_len as int) == trace.last(),
            trace.last().len() == in_len,
            i <= out_len,
            forall|m: int| 0 <= m < i ==> output@[m] == trace.last()[m],
        decreases out_len - i,
    {
        output[i] = in_buff[i];
        i = i + 1;
    }
    assert(output@ =~= trace.last().take(out_len as int));
    assert(network_output(*mul_add, *activate, bl, wl, input@, trace.last()));
}

} // verus!
