use ffnn::ffnn::{FFNNHeap, FFNNStack, HeapBuilder};
use ffnn::params::{OutputLayer, Params, ParamsHeap, ParamsStack, WorkingLayer};
use ffnn::{ActivationType, ActivationVal, Linear, ReLU, Unset};

type Layers221 = WorkingLayer<2, 2, WorkingLayer<2, 1, OutputLayer<1, f32>>>;

#[test]
fn activation_types_name_their_values() {
    assert_eq!(ReLU::to_val(), ActivationVal::ReLU);
    assert_eq!(Linear::to_val(), ActivationVal::Linear);
    assert_eq!(Unset::to_val(), ActivationVal::Unset);
    assert_eq!(ActivationVal::default(), ActivationVal::Unset);
}

#[test]
fn builder_without_layers_builds_nothing() {
    let builder: HeapBuilder<f32> = HeapBuilder::new();
    assert!(builder.activation(ActivationVal::ReLU).build().is_none());
}

#[test]
fn builder_activation_before_topology() {
    let net: FFNNHeap<f32> = HeapBuilder::new()
        .activation(ActivationVal::ReLU)
        .topology(&[2, 2, 1])
        .build()
        .expect("Unable to build ffnn");
    assert_eq!(net.activation(), ActivationVal::ReLU);
    assert_eq!(net.params().layer_sizes(), vec![2, 2, 1]);
    assert_eq!(net.params().collect_params_flat(), vec![0.0f32; 9]);
}

#[test]
fn builder_activation_after_topology() {
    let net: FFNNHeap<f32> = HeapBuilder::new()
        .topology_owned(vec![2, 2, 1])
        .activation(ActivationVal::Linear)
        .build()
        .unwrap();
    assert_eq!(net.activation(), ActivationVal::Linear);
    assert_eq!(net.params().layer_sizes(), vec![2, 2, 1]);
}

#[test]
fn builder_params_copies_and_keeps_activation() {
    let mut src: ParamsHeap<f32> = ParamsHeap::new(vec![1, 2]);
    src.set_param(3, 4.5);
    let net = HeapBuilder::new()
        .activation(ActivationVal::ReLU)
        .params(&src)
        .build()
        .unwrap();
    assert_eq!(net.activation(), ActivationVal::ReLU);
    assert_eq!(net.params().collect_params_flat(), vec![0.0, 0.0, 0.0, 4.5]);
}

#[test]
fn builder_params_owned_keeps_network_activation_only() {
    let first: ParamsHeap<f32> = ParamsHeap::new(vec![1, 1]);
    let net = HeapBuilder::new()
        .activation(ActivationVal::ReLU)
        .params_owned(first)
        .build()
        .unwrap();
    assert_eq!(net.activation(), ActivationVal::Unset);

    let net: FFNNHeap<f32> = HeapBuilder::new()
        .topology(&[3, 1])
        .activation(ActivationVal::Linear)
        .params_owned(ParamsHeap::new(vec![1, 1]))
        .build()
        .unwrap();
    assert_eq!(net.activation(), ActivationVal::Linear);
    assert_eq!(net.params().layer_sizes(), vec![1, 1]);
}

#[test]
fn heap_network_params_mut_changes_params() {
    let mut net = FFNNHeap::new(ParamsHeap::<f32>::new(vec![1, 1]), ActivationVal::ReLU);
    net.params_mut().set_param(1, 3.0);
    assert_eq!(net.params().collect_params_flat(), vec![0.0, 3.0]);
    assert_eq!(net.activation(), ActivationVal::ReLU);
    let copy = net.clone();
    assert_eq!(copy.params().collect_params_flat(), vec![0.0, 3.0]);
}

#[test]
fn stack_network_effective_activation() {
    let net: FFNNStack<Layers221, ReLU> = FFNNStack::default();
    assert_eq!(net.effective_activation(), ActivationVal::ReLU);
    let net: FFNNStack<Layers221, ReLU> = FFNNStack::with_activation(ActivationVal::Linear);
    assert_eq!(net.effective_activation(), ActivationVal::Linear);
    let net: FFNNStack<Layers221> = FFNNStack::default();
    assert_eq!(net.effective_activation(), ActivationVal::Unset);
}

#[test]
fn stack_network_from_params() {
    let mut heap: ParamsHeap<f32> = ParamsHeap::new(vec![2, 2, 1]);
    for i in 0..heap.param_count() {
        heap.set_param(i, i as f32);
    }
    let net: FFNNStack<Layers221, Linear> = FFNNStack::from_params(&heap);
    assert_eq!(net.params().collect_params_flat(), heap.collect_params_flat());
    let net: FFNNStack<Layers221> = FFNNStack::new(&heap, ActivationVal::ReLU);
    assert_eq!(net.effective_activation(), ActivationVal::ReLU);
    let mut copy = net;
    copy.params_mut().set_param(0, 42.0);
    assert_eq!(copy.params().param(0), 42.0);
    assert_eq!(net.params().param(0), 0.0);
    let p: ParamsStack<Layers221> = *net.params();
    assert_eq!(p.layer_sizes(), vec![2, 2, 1]);
}

fn mul_add(acc: f32, weight: f32, value: f32) -> f32 {
    acc + weight * value
}

fn relu(val: f32) -> f32 {
    val.max(0_f32)
}

fn linear(val: f32) -> f32 {
    val
}

fn heap_forward_alloc(net: &FFNNHeap<f32>, input: &[f32]) -> Vec<f32> {
    net.forward_alloc(&mul_add, &relu, &linear, input).expect("No activation function was set")
}

#[test]
fn heap_ffnn_check_forward() {
    let mut foo: FFNNHeap<f32> = HeapBuilder::new()
        .topology(&[2, 2, 1])
        .activation(ActivationVal::ReLU)
        .build()
        .expect("Unable to build ffnn");

    for (weight, val) in foo.params_mut().weight_slice_mut().iter_mut().zip([1, 1, 0, 0, 1, 0].iter().copied()) {
        *weight = val as f32;
    }

    for (bias, val) in foo.params_mut().bias_slice_mut().iter_mut().zip([-1, 0, 0].iter().copied()) {
        *bias = val as f32;
    }

    let output = heap_forward_alloc(&foo, &[0_f32, 0_f32]);
    assert_eq!(output, vec![0_f32]);

    let output = heap_forward_alloc(&foo, &[0_f32, 1_f32]);
    assert_eq!(output, vec![0_f32]);

    let output = heap_forward_alloc(&foo, &[1_f32, 0_f32]);
    assert_eq!(output, vec![0_f32]);

    let output = heap_forward_alloc(&foo, &[1_f32, 1_f32]);
    assert_eq!(output, vec![1_f32]);
}

fn stack_forward_alloc(net: &FFNNStack<Layers221, ReLU>, input: &[f32]) -> Vec<f32> {
    assert_eq!(net.effective_activation(), ActivationVal::ReLU);
    net.forward_alloc(&mul_add, &relu, &linear, input).unwrap()
}

#[test]
fn stack_ffnn_check_forward() {
    let mut foo: FFNNStack<Layers221, ReLU> = FFNNStack::default();
    let bias_count = 3;

    for (i, val) in [1, 1, 0, 0, 1, 0].iter().copied().enumerate() {
        foo.params_mut().set_param(bias_count + i, val as f32);
    }

    for (i, val) in [-1, 0, 0].iter().copied().enumerate() {
        foo.params_mut().set_param(i, val as f32);
    }

    let output = stack_forward_alloc(&foo, &[0_f32, 0_f32]);
    assert_eq!(output, vec![0_f32]);

    let output = stack_forward_alloc(&foo, &[0_f32, 1_f32]);
    assert_eq!(output, vec![0_f32]);

    let output = stack_forward_alloc(&foo, &[1_f32, 0_f32]);
    assert_eq!(output, vec![0_f32]);

    let output = stack_forward_alloc(&foo, &[1_f32, 1_f32]);
    assert_eq!(output, vec![1_f32]);
}

#[test]
fn forward_linear_network_sums_weighted_inputs() {
    let mut params: ParamsHeap<f32> = ParamsHeap::new(vec![3, 2]);
    let values = [0.5, -1.0, 1.0, 2.0, 3.0, -1.0, -2.0, 0.0];
    for (i, v) in values.iter().enumerate() {
        params.set_param(i, *v);
    }
    let net = FFNNHeap::new(params, ActivationVal::Linear);
    let mut output = vec![0_f32; 2];
    let mut buffer = vec![0_f32; 6];
    net.forward_with_act(&mul_add, &|v: f32| v, &[1.0, 2.0, 3.0], &mut output, &mut buffer);
    assert_eq!(output, vec![0.5 + 1.0 + 4.0 + 9.0, -1.0 - 1.0 - 4.0]);
}

#[test]
fn forward_writes_only_requested_outputs() {
    let mut params: ParamsHeap<u64> = ParamsHeap::new(vec![1, 3]);
    for i in 0..params.param_count() {
        params.set_param(i, i as u64);
    }
    let mut output = vec![0u64; 2];
    let mut buffer = vec![0u64; 6];
    ffnn::ffnn::forward::feed_forward(
        &params,
        &|acc: u64, w: u64, x: u64| acc + w * x,
        &|v: u64| v,
        &[10],
        &mut output,
        &mut buffer,
    );
    assert_eq!(output, vec![30, 41]);
}

#[test]
fn builder_later_activation_wins() {
    let net: FFNNHeap<f32> = HeapBuilder::new()
        .activation(ActivationVal::ReLU)
        .activation(ActivationVal::Linear)
        .topology(&[1, 1])
        .build()
        .unwrap();
    assert_eq!(net.activation(), ActivationVal::Linear);
}

#[test]
fn forward_through_input_layer_only_copies_input() {
    let params: ParamsStack<OutputLayer<3, u32>> = ParamsStack::new();
    let mut output = vec![0u32; 2];
    let mut buffer = vec![0u32; 6];
    ffnn::ffnn::forward::feed_forward(
        &params,
        &|acc: u32, w: u32, x: u32| acc + w * x,
        &|v: u32| v,
        &[7, 8, 9],
        &mut output,
        &mut buffer,
    );
    assert_eq!(output, vec![7, 8]);
}

#[test]
fn forward_ignores_previous_buffer_contents() {
    let mut params: ParamsHeap<i64> = ParamsHeap::new(vec![2, 3, 2]);
    for i in 0..params.param_count() {
        params.set_param(i, i as i64 - 7);
    }
    let step = |acc: i64, w: i64, x: i64| acc + w * x;
    let id = |v: i64| v;
    let mut out1 = vec![0i64; 2];
    let mut buf1 = vec![0i64; 6];
    ffnn::ffnn::forward::feed_forward(&params, &step, &id, &[3, -2], &mut out1, &mut buf1);
    let mut out2 = vec![99i64; 2];
    let mut buf2 = vec![-5i64; 9];
    ffnn::ffnn::forward::feed_forward(&params, &step, &id, &[3, -2], &mut out2, &mut buf2);
    assert_eq!(out1, out2);
    assert_eq!(ffnn::ffnn::forward::forward_alloc(&params, &step, &id, &[3, -2]), out1);
}

#[test]
fn builder_clone_keeps_state() {
    let b: HeapBuilder<f32> = HeapBuilder::new().activation(ActivationVal::ReLU);
    let c = b.clone();
    let n1 = b.topology(&[2, 1]).build().unwrap();
    let n2 = c.topology(&[2, 1]).build().unwrap();
    assert_eq!(n1.activation(), n2.activation());
    assert_eq!(n1.params().layer_sizes(), n2.params().layer_sizes());
}

#[test]
fn builder_activation_order_gives_same_network() {
    let b: HeapBuilder<f32> = HeapBuilder::new();
    let first = b.clone().activation(ActivationVal::ReLU).topology(&[3, 2]).build().unwrap();
    let second = b.topology(&[3, 2]).activation(ActivationVal::ReLU).build().unwrap();
    assert_eq!(first.activation(), ActivationVal::ReLU);
    assert_eq!(second.activation(), ActivationVal::ReLU);
    assert_eq!(first.params().layer_sizes(), second.params().layer_sizes());
    assert_eq!(first.params().collect_params_flat(), second.params().collect_params_flat());
}

#[test]
fn builder_builds_only_after_a_network_is_made() {
    let b: HeapBuilder<f32> = HeapBuilder::new();
    assert!(b.clone().build().is_none());
    assert!(b.clone().activation(ActivationVal::Linear).activation(ActivationVal::ReLU).build().is_none());
    assert!(b.clone().params_owned(ParamsHeap::new(vec![1, 1])).build().is_some());
    assert!(b.activation(ActivationVal::ReLU).topology_owned(vec![1, 2]).build().is_some());
}

#[test]
fn stack_well_formedness_is_checked() {
    assert!(ParamsStack::<Layers221>::is_well_formed());
    assert!(ParamsStack::<OutputLayer<4, f32>>::is_well_formed());
    assert!(!ParamsStack::<WorkingLayer<2, 3, OutputLayer<2, f32>>>::is_well_formed());
}

#[test]
fn stack_forward_alloc_linear() {
    let mut net: FFNNStack<Layers221, Linear> = FFNNStack::default();
    for i in 0..net.params().param_count() {
        net.params_mut().set_param(i, 1.0);
    }
    let out = net.forward_alloc(&mul_add, &relu, &linear, &[1.0, 2.0]).unwrap();
    assert_eq!(out, vec![1.0 + 2.0 * (1.0 + 1.0 + 2.0)]);
}

#[test]
fn heap_forward_uses_network_activation() {
    let mut params: ParamsHeap<f32> = ParamsHeap::new(vec![1, 1]);
    params.set_param(0, -3.0);
    params.set_param(1, 1.0);
    let linear_net = FFNNHeap::new(params.clone(), ActivationVal::Linear);
    assert_eq!(linear_net.forward_alloc(&mul_add, &relu, &linear, &[1.0]), Some(vec![-2.0]));
    let relu_net = FFNNHeap::new(params.clone(), ActivationVal::ReLU);
    assert_eq!(relu_net.forward_alloc(&mul_add, &relu, &linear, &[1.0]), Some(vec![0.0]));
    let mut output = vec![0.0f32; 1];
    let mut buffer = vec![0.0f32; 2];
    assert!(relu_net.forward_with_buff(&mul_add, &relu, &linear, &[5.0], &mut output, &mut buffer));
    assert_eq!(output, vec![2.0]);
}

#[test]
fn heap_forward_refuses_unset_activation() {
    let net = FFNNHeap::new(ParamsHeap::<f32>::new(vec![1, 1]), ActivationVal::Unset);
    assert_eq!(net.forward_alloc(&mul_add, &relu, &linear, &[1.0]), None);
    let mut output = vec![7.0f32; 1];
    let mut buffer = vec![0.0f32; 2];
    assert!(!net.forward_with_buff(&mul_add, &relu, &linear, &[1.0], &mut output, &mut buffer));
    assert_eq!(output, vec![7.0]);
}

#[test]
fn stack_forward_dispatches_on_activation() {
    let mut linear_net: FFNNStack<Layers221, ReLU> = FFNNStack::with_activation(ActivationVal::Linear);
    for i in 0..linear_net.params().param_count() {
        linear_net.params_mut().set_param(i, -1.0);
    }
    let mut outputs = [0.0f32; 1];
    let mut buffer = [0.0f32; 4];
    assert!(linear_net.forward(&mul_add, &relu, &linear, &[1.0, 1.0], &mut outputs, &mut buffer));
    assert_eq!(outputs, [-1.0 + 2.0 * 3.0]);
    let relu_net: FFNNStack<Layers221, ReLU> = FFNNStack::new(linear_net.params(), ActivationVal::Unset);
    assert!(relu_net.forward(&mul_add, &relu, &linear, &[1.0, 1.0], &mut outputs, &mut buffer));
    assert_eq!(outputs, [0.0]);
    let unset_net: FFNNStack<Layers221> = FFNNStack::new(linear_net.params(), ActivationVal::Unset);
    assert!(!unset_net.forward(&mul_add, &relu, &linear, &[1.0, 1.0], &mut outputs, &mut buffer));
    assert_eq!(unset_net.forward_alloc(&mul_add, &relu, &linear, &[1.0, 1.0]), None);
}
