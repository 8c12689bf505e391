# gguf_qwen

The Qwen decoder as it is loaded from a quantized GGUF file, written in Verus. What the model
decides and computes is stated in contracts and proved; tensors are candle's.

## Layout

- `src/tensor.rs`, `src/weight.rs`, `src/metadata.rs`: candle's tensors, weights and GGUF values.
  The items marked external are believed; each says which call of candle it describes and what is
  claimed of it.
- `src/params.rs`, `src/config.rs`, `src/text.rs`: hyperparameters, the configuration, and the names
  under which metadata and tensors are found.
- `src/loader.rs`, `src/gguf.rs`, `src/progress.rs`: loading a model from an engine that brings
  tensors and blocks, and telling how far it has come.
- `src/mlp.rs`, `src/layer.rs`, `src/batch.rs`, `src/logits.rs`, `src/model.rs`: running it.
- `src/checked.rs`: the model's steps without a condition on weights or bounds.
- `src/laws.rs`, `src/mlp_laws.rs`, `src/stack_laws.rs`, `src/row_laws.rs`, `src/repeat_laws.rs`,
  `src/loading_laws.rs`: what holds of running and of loading as a whole.
- `app/`: the environment, the progress reporter, and floats.

The blocks that a serving engine brings (attention, RMS norm, rotary embedding, vocabulary
projection, causal mask, sum over ranks, fused SwiGLU kernel) are functions handed to the model, and
contracts speak of them through what those functions ensure.

## Reading the contracts

A kernel's rounding, and what fails, depends on the machine. So a call into candle is described by a
relation between its arguments and its end, a tensor or an error, together with what is certain of
the end: shape, element type, layout, and for lookup, selection, narrowing, conversion to 32-bit
floats and the sums and products of 32- and 64-bit floats every element. A function of the model is
described by a predicate `.._ends(arguments, result)` that chains those relations in the order in
which the calls are made, each error ending the chain.
