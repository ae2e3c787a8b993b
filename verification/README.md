# ffnn

Parameter storage and evaluation for fully connected feed-forward neural
networks, with proofs of their layout and evaluation.

- `src/layout.rs` defines the flat parameter layout (all biases layer by layer,
  then all weights layer by layer and neuron by neuron) as spec functions,
  with the lemmas that relate the nested and flat views.
- `src/params.rs` holds the `Params` trait: flat access, nested copies and
  `copy_from`, proved against the layout.
- `src/params/heap_params.rs` stores everything in one `Vec` and offers
  layer iterators (read-only and mutable); `src/params/stack_params.rs` keeps
  the layer sizes in the type, as a chain of fixed-size arrays.
- `src/ffnn/` pairs a store with an activation function, provides a builder
  for heap networks, and holds the forward pass (`src/ffnn/forward.rs`), which
  takes the multiply-accumulate step and the activation function from its
  caller.

Parameter values are of any `Copy` type. The `f32` arithmetic and activation
functions handed to the forward pass live in `app/lib.rs`.
