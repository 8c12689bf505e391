//! The configuration of a model, as the engine's blocks read it.

use vstd::prelude::*;

verus! {

/// A 32-bit float, carried by its bit pattern.
#[derive(Clone, Copy, PartialEq, Eq, Structural, Debug)]
pub struct Single {
    pub bits: u32,
}

/// A 64-bit float: one that is as precise as it is wide, carried by its bit pattern, or one that
/// was widened from 32 bits.
#[derive(Clone, Copy, PartialEq, Eq, Structural, Debug)]
pub enum Real {
    Widened(Single),
    Double { bits: u64 },
}

/// A quotient of two lengths, not divided yet.
#[derive(Clone, Copy, PartialEq, Eq, Structural, Debug)]
pub struct Ratio {
    pub num: usize,
    pub den: usize,
}

/// How the engine stores keys and values.
#[derive(Clone, Debug)]
pub enum KvCacheDtype {
    /// As the model computes them.
    Auto,
    /// Compressed, in the mode of this name.
    Compressed(String),
}

/// A special token: one id, or several that serve alike.
#[derive(Clone, Debug)]
pub enum TokenID {
    Single(Option<u32>),
    Several(Option<Vec<u32>>),
}

/// The configuration of a model. `D` is a number in double precision and `S` one in single
/// precision; sections that a GGUF file does not fill are kept as JSON text.
#[derive(Clone, Debug)]
pub struct Config<D, S> {
    pub architectures: Option<Vec<String>>,
    pub hidden_size: usize,
    pub head_dim: Option<usize>,
    pub intermediate_size: usize,
    pub vocab_size: usize,
    pub num_hidden_layers: usize,
    pub num_attention_heads: usize,
    pub num_key_value_heads: Option<usize>,
    pub rms_norm_eps: D,
    pub rope_theta: D,
    pub rope_local_base_freq: Option<D>,
    pub bos_token_id: Option<TokenID>,
    pub eos_token_id: Option<TokenID>,
    pub max_seq_len: usize,
    pub sliding_window: Option<usize>,
    pub sliding_window_pattern: Option<usize>,
    pub hidden_act: Option<String>,
    pub hidden_activation: Option<String>,
    pub tie_word_embeddings: bool,
    pub rope_scaling: Option<String>,
    pub max_position_embeddings: Option<usize>,
    pub original_max_position_embeddings: Option<usize>,
    pub attention_bias: Option<bool>,
    pub partial_rotary_factor: Option<S>,
    pub qk_layernorm: bool,
    pub use_qkv_bias: Option<bool>,
    pub custom_stop_tokens: Option<Vec<String>>,
    pub attn_logit_softcapping: Option<D>,
    pub final_logit_softcapping: Option<D>,
    pub quantization_config: Option<String>,
    pub moe_config: Option<String>,
    pub isq_quant: Option<String>,
    pub kvcache_dtype: KvCacheDtype,
    pub extra_config_json: Option<String>,
    pub is_f16_mode: bool,
}

/// The token that opens a turn of a Qwen conversation.
pub const BOS_TOKEN_ID: u32 = 151644;

/// The token that closes a turn of a Qwen conversation.
pub const EOS_TOKEN_ID: u32 = 151645;

/// The vocabulary of Qwen3, without the rows that pad its tensors.
pub const QWEN3_VOCAB_SIZE: usize = 151936;

impl<D, S> Config<D, S> {
    /// What every Qwen model is configured with.
    pub open spec fn has_qwen_constants(self) -> bool {
        &&& self.architectures matches Some(names) && names@.len() == 1 && names@[0]@ == "qwen"@
        &&& self.bos_token_id == Some(TokenID::Single(Some(BOS_TOKEN_ID)))
        &&& self.eos_token_id == Some(TokenID::Single(Some(EOS_TOKEN_ID)))
        &&& self.attention_bias == Some(false)
        &&& !self.tie_word_embeddings
        &&& !self.qk_layernorm
        &&& !self.is_f16_mode
    }

    /// Whether the sections that a GGUF file does not fill are absent.
    pub open spec fn has_no_extras(self) -> bool {
        &&& self.rope_local_base_freq is None
        &&& self.sliding_window is None
        &&& self.sliding_window_pattern is None
        &&& self.hidden_act is None
        &&& self.hidden_activation is None
        &&& self.rope_scaling is None
        &&& self.use_qkv_bias is None
        &&& self.custom_stop_tokens is None
        &&& self.attn_logit_softcapping is None
        &&& self.final_logit_softcapping is None
        &&& self.quantization_config is None
        &&& self.moe_config is None
        &&& self.isq_quant is None
        &&& self.extra_config_json is None
    }
}

} // verus!
