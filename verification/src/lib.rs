//! The Qwen decoder loaded from a GGUF file, with its rules stated and proved.
//!
//! The crate holds what a Qwen model built from quantized GGUF tensors decides and computes:
//! which metadata keys give which hyperparameters, which tensors are loaded under which names,
//! how the decoder layers are chained, which rows of the activations reach the vocabulary
//! projection, and how its padded columns are dropped. Tensors are candle's; the blocks that the
//! serving engine brings (attention, RMS norm, rotary embedding, vocabulary projection, causal
//! mask, collectives) are functions handed to the model.

pub mod batch;
pub mod call_laws;
pub mod check_laws;
pub mod checked;
pub mod config;
pub mod entry_laws;
pub mod error;
pub mod gguf;
pub mod laws;
pub mod layer;
pub mod loader;
pub mod loading_laws;
pub mod logits;
pub mod metadata;
pub mod mlp;
pub mod mlp_laws;
pub mod model;
pub mod param_laws;
pub mod params;
pub mod progress;
pub mod repeat_laws;
pub mod row_laws;
pub mod run_laws;
pub mod source_laws;
pub mod stack_laws;
pub mod tensor;
pub mod text;
pub mod weight;
