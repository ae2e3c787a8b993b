use ffnn::params::{copy_from, OutputLayer, Params, ParamsHeap, ParamsStack, WorkingLayer};

type StackParams22 = ParamsStack<WorkingLayer<2, 2, OutputLayer<2, f32>>>;
type StackParams232 = ParamsStack<WorkingLayer<2, 3, WorkingLayer<3, 2, OutputLayer<2, f32>>>>;

#[test]
fn check_params_print_output() {
    let mut params = StackParams22::new();

    let n = params.param_count();
    for idx in 0..n {
        params.set_param(idx, idx as f32);
    }

    let biases = params.collect_biases();
    assert_eq!(biases, vec![vec![0.0_f32, 1.0_f32]]);

    let weights = params.collect_weights();
    assert_eq!(weights, vec![vec![vec![2.0_f32, 3.0_f32], vec![4.0_f32, 5.0_f32]]]);

    let topology: Vec<usize> = params.layer_sizes();
    assert_eq!(topology, vec![2usize, 2usize]);
}

#[test]
fn copy_test() {
    let a: StackParams232 = Default::default();
    let mut b = a.clone();
    for i in 0..b.param_count() {
        b.set_param(i, 0.5f32);
    }
    let raw = a.collect_params_flat();
    assert_eq!(raw.iter().sum::<f32>(), 0_f32);
    let raw = b.collect_params_flat();
    assert_eq!(raw, vec![0.5f32; raw.len()]);
}

#[test]
fn layer_sizes_include_input_layer() {
    let params: ParamsHeap<f32> = ParamsHeap::new(vec![5, 6, 7]);
    assert_eq!(params.layer_sizes(), vec![5, 6, 7]);
    assert_eq!(params.param_count(), 6 + 7 + 5 * 6 + 6 * 7);
}

#[test]
fn heap_new_fills_with_default() {
    let params: ParamsHeap<f32> = ParamsHeap::new(vec![2, 2, 1]);
    assert_eq!(params.param_count(), 9);
    assert_eq!(params.collect_params_flat(), vec![0.0f32; 9]);
}

fn numbered_heap(topology: Vec<usize>) -> ParamsHeap<u32> {
    let mut params: ParamsHeap<u32> = ParamsHeap::new(topology);
    for i in 0..params.param_count() {
        params.set_param(i, i as u32);
    }
    params
}

#[test]
fn heap_layout_biases_then_weights() {
    let params = numbered_heap(vec![2, 3, 1]);
    assert_eq!(params.collect_biases(), vec![vec![0, 1, 2], vec![3]]);
    assert_eq!(
        params.collect_weights(),
        vec![vec![vec![4, 5], vec![6, 7], vec![8, 9]], vec![vec![10, 11, 12]]]
    );
    assert_eq!(params.collect_biases_flat(), vec![0, 1, 2, 3]);
    assert_eq!(params.collect_weights_flat(), (4..13).collect::<Vec<u32>>());
    assert_eq!(params.collect_params_flat(), (0..13).collect::<Vec<u32>>());
    assert_eq!(params.bias_slice(), &[0, 1, 2, 3]);
    assert_eq!(params.weight_slice(), &[4, 5, 6, 7, 8, 9, 10, 11, 12]);
}

#[test]
fn nested_views_join_to_flat_views() {
    let params = numbered_heap(vec![3, 2, 4, 1]);
    let joined_biases: Vec<u32> = params.collect_biases().into_iter().flatten().collect();
    assert_eq!(joined_biases, params.collect_biases_flat());
    let joined_weights: Vec<u32> =
        params.collect_weights().into_iter().flatten().flatten().collect();
    assert_eq!(joined_weights, params.collect_weights_flat());
    let mut all = params.collect_biases_flat();
    all.extend(params.collect_weights_flat());
    assert_eq!(all, params.collect_params_flat());
}

#[test]
fn bias_iter_yields_each_layer_then_none() {
    let params = numbered_heap(vec![2, 3, 1]);
    let mut it = params.bias_layers();
    assert_eq!(it.next(), Some(&[0u32, 1, 2][..]));
    assert_eq!(it.next(), Some(&[3u32][..]));
    assert_eq!(it.next(), None);
    assert_eq!(it.next(), None);
}

#[test]
fn weights_iter_yields_neurons_of_each_layer() {
    let params = numbered_heap(vec![2, 3, 1]);
    let mut it = params.weight_layers();
    let first = it.next().unwrap();
    assert_eq!(first.len(), 3);
    assert_eq!(first.neuron(0), &[4, 5]);
    assert_eq!(first.neuron(1), &[6, 7]);
    assert_eq!(first.neuron(2), &[8, 9]);
    let second = it.next().unwrap();
    assert_eq!(second.len(), 1);
    assert_eq!(second.neuron(0), &[10, 11, 12]);
    assert!(it.next().is_none());
}

#[test]
fn bias_iter_mut_writes_into_store() {
    let mut params = numbered_heap(vec![2, 3, 1]);
    {
        let mut it = params.bias_layers_mut();
        let first = it.next().unwrap();
        first[1] = 100;
        let second = it.next().unwrap();
        second[0] = 200;
        assert!(it.next().is_none());
    }
    assert_eq!(params.collect_biases(), vec![vec![0, 100, 2], vec![200]]);
    assert_eq!(params.collect_weights_flat(), (4..13).collect::<Vec<u32>>());
}

#[test]
fn weights_iter_mut_writes_into_store() {
    let mut params = numbered_heap(vec![2, 3, 1]);
    {
        let mut it = params.weight_layers_mut();
        let mut first = it.next().unwrap();
        assert_eq!(first.neurons, 3);
        assert_eq!(first.inputs, 2);
        let n0 = first.next().unwrap();
        n0[0] = 40;
        let n1 = first.next().unwrap();
        n1[1] = 70;
        let n2 = first.next().unwrap();
        assert_eq!(n2, &[8, 9]);
        assert!(first.next().is_none());
        let mut second = it.next().unwrap();
        let m0 = second.next().unwrap();
        m0[2] = 120;
        assert!(it.next().is_none());
    }
    assert_eq!(
        params.collect_weights(),
        vec![vec![vec![40, 5], vec![6, 70], vec![8, 9]], vec![vec![10, 11, 120]]]
    );
    assert_eq!(params.collect_biases_flat(), vec![0, 1, 2, 3]);
}

#[test]
fn slice_mut_writes_into_store() {
    let mut params = numbered_heap(vec![1, 2]);
    params.bias_slice_mut()[0] = 9;
    params.weight_slice_mut()[1] = 8;
    assert_eq!(params.collect_params_flat(), vec![9, 1, 2, 8]);
}

#[test]
fn set_param_changes_one_parameter() {
    let mut params = numbered_heap(vec![2, 2]);
    params.set_param(3, 77);
    assert_eq!(params.collect_params_flat(), vec![0, 1, 2, 77, 4, 5]);
    assert_eq!(params.param(3), 77);
    assert_eq!(params.layer_sizes(), vec![2, 2]);
}

#[test]
fn copy_from_keeps_destination_topology() {
    let src = numbered_heap(vec![1, 2]);
    let mut dst: ParamsHeap<u32> = ParamsHeap::new(vec![3, 1]);
    copy_from(&mut dst, &src);
    assert_eq!(dst.layer_sizes(), vec![3, 1]);
    assert_eq!(dst.collect_params_flat(), vec![0, 1, 2, 3]);
    assert_eq!(dst.collect_biases(), vec![vec![0]]);
}

#[test]
fn heap_from_params_copies_stack() {
    let mut stack = StackParams22::new();
    for i in 0..stack.param_count() {
        stack.set_param(i, i as f32 * 2.0);
    }
    let heap = ParamsHeap::from_params(&stack);
    assert_eq!(heap.layer_sizes(), vec![2, 2]);
    assert_eq!(heap.collect_params_flat(), stack.collect_params_flat());
    let back = StackParams22::from_params(&heap);
    assert_eq!(back.collect_params_flat(), stack.collect_params_flat());
}

#[test]
fn stack_layout_matches_heap_layout() {
    let mut stack = StackParams232::new();
    for i in 0..stack.param_count() {
        stack.set_param(i, i as f32);
    }
    assert_eq!(stack.layer_sizes(), vec![2, 3, 2]);
    let mut heap: ParamsHeap<f32> = ParamsHeap::new(vec![2, 3, 2]);
    for i in 0..heap.param_count() {
        heap.set_param(i, i as f32);
    }
    assert_eq!(stack.collect_biases(), heap.collect_biases());
    assert_eq!(stack.collect_weights(), heap.collect_weights());
    assert_eq!(stack.collect_weights()[1][0], vec![11.0f32, 12.0, 13.0]);
}

#[test]
fn heap_clone_is_independent() {
    let a = numbered_heap(vec![1, 1]);
    let mut b = a.clone();
    b.set_param(0, 5);
    assert_eq!(a.collect_params_flat(), vec![0, 1]);
    assert_eq!(b.collect_params_flat(), vec![5, 1]);
}

#[test]
fn sizes_read_without_collecting() {
    let heap = numbered_heap(vec![2, 5, 3]);
    assert_eq!(heap.depth(), 3);
    assert_eq!(heap.layer_size(1), 5);
    assert_eq!(heap.bias_count(), 8);
    assert_eq!(heap.widest_layer_size(), 5);
    let stack = StackParams232::new();
    assert_eq!(stack.depth(), 3);
    assert_eq!(stack.layer_size(2), 2);
    assert_eq!(stack.bias_count(), 5);
    assert_eq!(stack.widest_layer_size(), 3);
    assert_eq!(stack.param_count(), 5 + 6 + 6);
}
