# zk-ml-private-model-baseline

Plain computations of small neural networks, the baseline for proving their
inference in zero knowledge: plain `i8` layers, zero-point quantized `u8` layers
that requantize with fixed-point multipliers (2^22 = 1.0) and record what each
requantization drops, a two-layer perceptron, LeNet, a cosine-similarity test,
and BLAKE2s commitments to inputs and outputs.

Layout:

- `src/` — the verified library (Verus). `sums`, `tensor`: mathematical
  vocabulary; `activation`, `linear`, `conv`, `conv_layer`, `pool`: the layers;
  `similarity`: cosine test and arg-max; `network`: the perceptron; `lenet`:
  LeNet and the stage-by-stage check of a run; `commit`: commitments.
- `tests/` — tests of the library on concrete values.
- `app/` — the entry points that take real-valued multipliers and print.
