use ffnn::layout::{count_biases, count_weights, widest_layer};

#[test]
fn counts_of_a_small_network() {
    assert_eq!(count_biases(&[2, 2, 1]), 3);
    assert_eq!(count_weights(&[2, 2, 1]), 6);
    assert_eq!(count_biases(&[5, 6, 7]), 13);
    assert_eq!(count_weights(&[5, 6, 7]), 72);
}

#[test]
fn counts_of_input_layer_only() {
    assert_eq!(count_biases(&[4]), 0);
    assert_eq!(count_weights(&[4]), 0);
}

#[test]
fn counts_with_an_empty_layer() {
    assert_eq!(count_biases(&[3, 0, 2]), 2);
    assert_eq!(count_weights(&[3, 0, 2]), 0);
}

#[test]
fn widest_layer_is_the_maximum() {
    assert_eq!(widest_layer(&[2, 7, 3]), 7);
    assert_eq!(widest_layer(&[1]), 1);
    assert_eq!(widest_layer(&[]), 0);
}
