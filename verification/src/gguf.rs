//! A model from the metadata and the tensors of a GGUF file.

use crate::config::{
    Config, KvCacheDtype, Ratio, Real, Single, TokenID, BOS_TOKEN_ID, EOS_TOKEN_ID,
};
use crate::error::{lift, lifted, ModelError};
use crate::layer::LayerWeights;
use crate::loader::{Engine, Heads, Placement};
use crate::metadata::Metadata;
use crate::model::GGUFQWen;
use crate::params::{
    asks_to_divide_by_zero, fields_end, names_arch, read_fields, reports, true_vocab,
    true_vocab_size, CoreFields, CoreParams, RopeFields, RopeParams,
};
use crate::progress::ProgressReporter;
use crate::tensor::{embedding_table, embedding_width, tensor_value};
use candle_core::quantized::gguf_file::Value;
use candle_core::quantized::QTensor;
use candle_core::{DType, Device, Error};
use candle_nn::Embedding;
use std::sync::Arc;
use vstd::prelude::*;

verus! {

impl GGUFQWen<(), (), (), (), (), ()> {
    /// The configuration of a Qwen model of this shape. The size of the vocabulary is not known
    /// here and stands at zero; the cache is left to the engine.
    pub fn into_config<D, S>(
        embedding_length: usize,
        head_dim: usize,
        i_size: usize,
        block_count: usize,
        head_count: usize,
        head_count_kv: usize,
        rope_theta: D,
        rms_eps: D,
        max_seq_len: usize,
        original_max_position_embeddings: Option<usize>,
        partial_rotary_factor: Option<S>,
        _kv_cache_dtype: DType,
    ) -> (cfg: Config<D, S>)
        ensures
            cfg.has_qwen_constants(),
            cfg.has_no_extras(),
            cfg.hidden_size == embedding_length,
            cfg.head_dim == Some(head_dim),
            cfg.intermediate_size == i_size,
            cfg.vocab_size == 0,
            cfg.num_hidden_layers == block_count,
            cfg.num_attention_heads == head_count,
            cfg.num_key_value_heads == Some(head_count_kv),
            cfg.rms_norm_eps == rms_eps,
            cfg.rope_theta == rope_theta,
            cfg.max_seq_len == max_seq_len,
            cfg.max_position_embeddings == Some(max_seq_len),
            cfg.original_max_position_embeddings == original_max_position_embeddings,
            cfg.partial_rotary_factor == partial_rotary_factor,
            cfg.kvcache_dtype == KvCacheDtype::Auto,
    {
        let mut names: Vec<String> = Vec::new();
        names.push("qwen".to_owned());
        Config {
            architectures: Some(names),
            hidden_size: embedding_length,
            head_dim: Some(head_dim),
            intermediate_size: i_size,
            vocab_size: 0,
            num_hidden_layers: block_count,
            num_attention_heads: head_count,
            num_key_value_heads: Some(head_count_kv),
            rms_norm_eps: rms_eps,
            rope_theta,
            rope_local_base_freq: None,
            bos_token_id: Some(TokenID::Single(Some(BOS_TOKEN_ID))),
            eos_token_id: Some(TokenID::Single(Some(EOS_TOKEN_ID))),
            max_seq_len,
            sliding_window: None,
            sliding_window_pattern: None,
            hidden_act: None,
            hidden_activation: None,
            tie_word_embeddings: false,
            rope_scaling: None,
            max_position_embeddings: Some(max_seq_len),
            original_max_position_embeddings,
            attention_bias: Some(false),
            partial_rotary_factor,
            qk_layernorm: false,
            use_qkv_bias: None,
            custom_stop_tokens: None,
            attn_logit_softcapping: None,
            final_logit_softcapping: None,
            quantization_config: None,
            moe_config: None,
            isq_quant: None,
            kvcache_dtype: KvCacheDtype::Auto,
            extra_config_json: None,
            is_f16_mode: false,
        }
    }
}

/// Whether `cfg` is the configuration that the hyperparameters give, before what was asked for at
/// run time is applied.
pub open spec fn is_base_config(
    cfg: Config<Real, Ratio>,
    p: CoreParams,
    rope: RopeParams,
    vocab: nat,
    compression: KvCacheDtype,
) -> bool {
    &&& cfg.has_qwen_constants()
    &&& cfg.has_no_extras()
    &&& cfg.hidden_size == p.embedding_length
    &&& cfg.head_dim == Some(p.head_dim)
    &&& cfg.intermediate_size == 0
    &&& cfg.vocab_size == vocab
    &&& cfg.num_hidden_layers == p.block_count
    &&& cfg.num_attention_heads == p.head_count
    &&& cfg.num_key_value_heads == Some(p.head_count_kv)
    &&& cfg.rms_norm_eps == Real::Widened(p.rms_norm_eps)
    &&& cfg.rope_theta == Real::Widened(p.rope_freq_base)
    &&& cfg.max_seq_len == p.context_length
    &&& cfg.max_position_embeddings == Some(p.context_length)
    &&& cfg.original_max_position_embeddings == rope.original_max_position_embeddings
    &&& cfg.partial_rotary_factor == rope.partial_rotary_factor
    &&& cfg.kvcache_dtype == compression
}

/// The configuration that the hyperparameters give, with the true size of the vocabulary and the
/// compression of the cache that was asked for.
pub fn base_config(
    p: &CoreParams,
    rope: RopeParams,
    vocab: usize,
    kv_cache_dtype: DType,
    compression: KvCacheDtype,
) -> (cfg: Config<Real, Ratio>)
    ensures
        is_base_config(cfg, *p, rope, vocab as nat, compression),
{
    let mut cfg = GGUFQWen::<(), (), (), (), (), ()>::into_config(
        p.embedding_length,
        p.head_dim,
        0,
        p.block_count,
        p.head_count,
        p.head_count_kv,
        Real::Widened(p.rope_freq_base),
        Real::Widened(p.rms_norm_eps),
        p.context_length,
        rope.original_max_position_embeddings,
        rope.partial_rotary_factor,
        kv_cache_dtype,
    );
    cfg.vocab_size = vocab;
    cfg.kvcache_dtype = compression;
    cfg
}

/// The kernels that a model runs with.
pub struct Kernels<M, F> {
    pub mask: M,
    pub fused: F,
    /// Whether the fused gate kernel is tried.
    pub fused_glu: bool,
}

/// Whether `model` is made of these parts.
pub open spec fn is_made_of<N, A, O, R, M, F>(
    model: GGUFQWen<N, A, O, R, M, F>,
    p: CoreParams,
    heads: Heads<N, O>,
    cfg: Config<Real, Ratio>,
    layers: Vec<LayerWeights<N, A, R>>,
    place: Placement,
    kernels: Kernels<M, F>,
) -> bool {
    &&& embedding_table(model.tok_embeddings) == tensor_value(heads.table)
    &&& embedding_width(model.tok_embeddings) == p.embedding_length
    &&& model.layers == layers
    &&& model.norm == heads.norm
    &&& model.output == heads.output
    &&& model.cfg == cfg
    &&& model.dtype == place.dtype
    &&& model.device == place.device
    &&& model.true_vocab_size == true_vocab(p.arch@, heads.rows as nat)
    &&& model.mask == kernels.mask
    &&& model.fused == kernels.fused
    &&& model.fused_glu == kernels.fused_glu
}

impl<G, S, H, NF, OF, YF, EF, AF, RF, N, O, E, A, R> Engine<
    G,
    S,
    H,
    NF,
    OF,
    YF,
    EF,
    AF,
    RF,
> where
    G: Fn(Option<&str>, &str) -> Result<Arc<QTensor>, Error>,
    S: Fn(&str, &str, usize, usize, usize) -> Result<Arc<QTensor>, Error>,
    H: Fn(&str) -> bool,
    NF: Fn(Arc<QTensor>, Single) -> Result<N, Error>,
    OF: Fn(&str, usize, DType) -> Result<O, Error>,
    YF: Fn(Config<Real, Ratio>) -> Config<Real, Ratio>,
    EF: Fn(&Config<Real, Ratio>, &Device) -> Result<E, Error>,
    AF: Fn(
        &Config<Real, Ratio>,
        &str,
        &Device,
        DType,
        Arc<E>,
        Option<usize>,
        usize,
        usize,
    ) -> Result<A, Error>,
    RF: Fn() -> R,
 {
    /// Whether making the rotary embedding ends in `r`.
    pub open spec fn rotary_ends(
        self,
        cfg: Config<Real, Ratio>,
        device: Device,
        r: Result<Arc<E>, Error>,
    ) -> bool {
        exists|e: Result<E, Error>| #[trigger]
            call_ensures(self.rotary, (&cfg, &device), e) && match e {
                Err(e) => r == Err::<Arc<E>, Error>(e),
                Ok(e) => r matches Ok(shared) && *shared == e,
            }
    }

    /// Whether building the layers for the configuration `cfg`, and the model of them, ends in `r`,
    /// and `told` are the numbers that are told meanwhile.
    pub open spec fn configured_ends<M, F>(
        self,
        p: CoreParams,
        heads: Heads<N, O>,
        cfg: Config<Real, Ratio>,
        place: Placement,
        kernels: Kernels<M, F>,
        told: Seq<usize>,
        r: Result<GGUFQWen<N, A, O, R, M, F>, Error>,
    ) -> bool {
        exists|e: Result<Arc<E>, Error>| #[trigger]
            self.rotary_ends(cfg, place.device, e) && match e {
                Err(e) => told.len() == 0 && r == Err::<GGUFQWen<N, A, O, R, M, F>, Error>(e),
                Ok(rotary) => exists|ls: Result<Vec<LayerWeights<N, A, R>>, Error>| #[trigger]
                    self.layers_end(cfg, p.block_count, place, rotary, p.rms_norm_eps, told, ls)
                        && match ls {
                        Err(e) => r == Err::<GGUFQWen<N, A, O, R, M, F>, Error>(e),
                        Ok(layers) => r matches Ok(model) && is_made_of(
                            model,
                            p,
                            heads,
                            cfg,
                            layers,
                            place,
                            kernels,
                        ),
                    },
            }
    }

    /// Builds the layers for the configuration `cfg`, and the model of them.
    fn build_configured<M, F, PF>(
        &self,
        p: CoreParams,
        heads: Heads<N, O>,
        cfg: Config<Real, Ratio>,
        place: &Placement,
        kernels: Kernels<M, F>,
        progress_reporter: &mut ProgressReporter<PF>,
    ) -> (r: Result<GGUFQWen<N, A, O, R, M, F>, Error>) where PF: Fn(usize)
        requires
            self.is_callable(),
            old(progress_reporter).is_callable(),
        ensures
            exists|told: Seq<usize>| #[trigger]
                old(progress_reporter).hears(told, *final(progress_reporter))
                    && self.configured_ends(
                    p,
                    heads,
                    cfg,
                    *place,
                    kernels,
                    told,
                    r,
                ),
    {
        proof {
            (*progress_reporter).hears_nothing();
        }
        let rotary = match (self.rotary)(&cfg, &place.device) {
            Ok(e) => Arc::new(e),
            Err(e) => {
                assert(self.rotary_ends(cfg, place.device, Err(e)));
                return Err(e);
            },
        };
        assert(self.rotary_ends(cfg, place.device, Ok(rotary)));
        let ls = self.load_layers(
            &cfg,
            p.block_count,
            place,
            rotary,
            p.rms_norm_eps,
            progress_reporter,
        );
        let layers = match ls {
            Ok(layers) => layers,
            Err(e) => return Err(e),
        };
        let true_vocab_size = true_vocab_size(&p.arch, heads.rows);
        Ok(
            GGUFQWen {
                tok_embeddings: Embedding::new(heads.table, p.embedding_length),
                layers,
                norm: heads.norm,
                output: heads.output,
                cfg,
                dtype: place.dtype,
                device: place.device.clone(),
                true_vocab_size,
                mask: kernels.mask,
                fused: kernels.fused,
                fused_glu: kernels.fused_glu,
            },
        )
    }

    /// Whether building a model of resolved hyperparameters ends in `r`, and `told` are the numbers
    /// that are told meanwhile. What stands before and behind the layers is loaded first; only then
    /// are the rotary fields looked at.
    pub open spec fn params_end<M, F>(
        self,
        p: CoreParams,
        rope: RopeFields,
        place: Placement,
        compression: KvCacheDtype,
        kernels: Kernels<M, F>,
        told: Seq<usize>,
        r: Result<GGUFQWen<N, A, O, R, M, F>, ModelError>,
    ) -> bool {
        exists|h: Result<Heads<N, O>, Error>| #[trigger]
            self.heads_end(place, p.rms_norm_eps, h) && match h {
                Err(e) => told.len() == 0 && r == Err::<GGUFQWen<N, A, O, R, M, F>, ModelError>(
                    ModelError::Candle(e),
                ),
                Ok(heads) => match rope.fault() {
                    Some(fault) => told.len() == 0 && r is Err && reports(r->Err_0, fault),
                    None => exists|
                        base: Config<Real, Ratio>,
                        cfg: Config<Real, Ratio>,
                    | #[trigger]
                        call_ensures(self.rope_overrides, (base,), cfg) && is_base_config(
                            base,
                            p,
                            rope.give(p.head_dim),
                            true_vocab(p.arch@, heads.rows as nat),
                            compression,
                        ) && exists|m: Result<GGUFQWen<N, A, O, R, M, F>, Error>| #[trigger]
                            self.configured_ends(p, heads, cfg, place, kernels, told, m) && r
                                == lifted(m),
                },
            }
    }

    /// Builds a model of resolved hyperparameters.
    fn build_from_params<M, F, PF>(
        &self,
        p: CoreParams,
        rope: RopeFields,
        place: &Placement,
        kv_cache_dtype: DType,
        compression: KvCacheDtype,
        kernels: Kernels<M, F>,
        progress_reporter: &mut ProgressReporter<PF>,
    ) -> (r: Result<GGUFQWen<N, A, O, R, M, F>, ModelError>) where PF: Fn(usize)
        requires
            self.is_callable(),
            old(progress_reporter).is_callable(),
        ensures
            exists|told: Seq<usize>| #[trigger]
                old(progress_reporter).hears(told, *final(progress_reporter)) && self.params_end(
                    p,
                    rope,
                    *place,
                    compression,
                    kernels,
                    told,
                    r,
                ),
    {
        proof {
            (*progress_reporter).hears_nothing();
        }
        let heads = match self.load_heads(place, p.rms_norm_eps) {
            Ok(heads) => heads,
            Err(e) => return Err(ModelError::Candle(e)),
        };
        let rope = match rope.resolve(p.head_dim) {
            Ok(rope) => rope,
            Err(e) => return Err(e),
        };
        let vocab = true_vocab_size(&p.arch, heads.rows);
        let base = base_config(&p, rope, vocab, kv_cache_dtype, compression);
        let cfg = (self.rope_overrides)(base);
        lift(self.build_configured(p, heads, cfg, place, kernels, progress_reporter))
    }

    /// Whether building a model of the fields of its metadata ends in `r`, and `told` are the
    /// numbers that are told meanwhile.
    pub open spec fn fields_model_ends<M, F>(
        self,
        core: CoreFields,
        rope: RopeFields,
        place: Placement,
        compression: KvCacheDtype,
        kernels: Kernels<M, F>,
        told: Seq<usize>,
        r: Result<GGUFQWen<N, A, O, R, M, F>, ModelError>,
    ) -> bool {
        match core.fault() {
            Some(fault) => told.len() == 0 && r is Err && reports(r->Err_0, fault),
            None => exists|p: CoreParams| #[trigger]
                core.give(p) && self.params_end(p, rope, place, compression, kernels, told, r),
        }
    }

    /// Builds a model of the fields of its metadata.
    pub fn build_from_fields<M, F, PF>(
        &self,
        core: CoreFields,
        rope: RopeFields,
        place: &Placement,
        kv_cache_dtype: DType,
        compression: KvCacheDtype,
        kernels: Kernels<M, F>,
        progress_reporter: &mut ProgressReporter<PF>,
    ) -> (r: Result<GGUFQWen<N, A, O, R, M, F>, ModelError>) where PF: Fn(usize)
        requires
            self.is_callable(),
            old(progress_reporter).is_callable(),
            !core.divides_by_zero(),
        ensures
            exists|told: Seq<usize>| #[trigger]
                old(progress_reporter).hears(told, *final(progress_reporter))
                    && self.fields_model_ends(
                    core,
                    rope,
                    *place,
                    compression,
                    kernels,
                    told,
                    r,
                ),
    {
        proof {
            (*progress_reporter).hears_nothing();
        }
        let p = match core.resolve() {
            Ok(p) => p,
            Err(e) => return Err(e),
        };
        self.build_from_params(
            p,
            rope,
            place,
            kv_cache_dtype,
            compression,
            kernels,
            progress_reporter,
        )
    }

    /// Whether building a model of its metadata ends in `r`, and `told` are the numbers that are
    /// told meanwhile.
    pub open spec fn gguf_ends<M, F>(
        self,
        md: Map<Seq<char>, Value>,
        place: Placement,
        compression: KvCacheDtype,
        kernels: Kernels<M, F>,
        told: Seq<usize>,
        r: Result<GGUFQWen<N, A, O, R, M, F>, ModelError>,
    ) -> bool {
        exists|f: Result<(CoreFields, RopeFields), ModelError>| #[trigger]
            fields_end(md, f) && match f {
                Err(e) => told.len() == 0 && r == Err::<GGUFQWen<N, A, O, R, M, F>, ModelError>(e),
                Ok((core, rope)) => self.fields_model_ends(
                    core,
                    rope,
                    place,
                    compression,
                    kernels,
                    told,
                    r,
                ),
            }
    }

    /// Whether building a model of its metadata ends in `r`, and turns the reporter `before` into
    /// `after`.
    pub open spec fn loads<M, F, PF>(
        self,
        md: Map<Seq<char>, Value>,
        place: Placement,
        compression: KvCacheDtype,
        kernels: Kernels<M, F>,
        before: ProgressReporter<PF>,
        after: ProgressReporter<PF>,
        r: Result<GGUFQWen<N, A, O, R, M, F>, ModelError>,
    ) -> bool {
        exists|told: Seq<usize>| #[trigger]
            before.hears(told, after) && self.gguf_ends(
                md,
                place,
                compression,
                kernels,
                told,
                r,
            )
    }
}

impl<N, A, O, R, M, F> GGUFQWen<N, A, O, R, M, F> {
    /// Builds the model that a GGUF file describes. `metadata` is the file's, the tensors are what
    /// the engine gives, and the reporter is told after each layer how many are loaded. The
    /// compression of the cache is put into the configuration, so that the attention allocates what
    /// the cache's kernels read.
    pub fn from_gguf<G, S, H, NF, OF, YF, EF, AF, RF, PF, E>(
        metadata: &Metadata,
        engine: &Engine<G, S, H, NF, OF, YF, EF, AF, RF>,
        place: &Placement,
        kv_cache_dtype: DType,
        progress_reporter: &mut ProgressReporter<PF>,
        kvcache_compression: KvCacheDtype,
        kernels: Kernels<M, F>,
    ) -> (r: Result<GGUFQWen<N, A, O, R, M, F>, ModelError>) where
        G: Fn(Option<&str>, &str) -> Result<Arc<QTensor>, Error>,
        S: Fn(&str, &str, usize, usize, usize) -> Result<Arc<QTensor>, Error>,
        H: Fn(&str) -> bool,
        NF: Fn(Arc<QTensor>, Single) -> Result<N, Error>,
        OF: Fn(&str, usize, DType) -> Result<O, Error>,
        YF: Fn(Config<Real, Ratio>) -> Config<Real, Ratio>,
        EF: Fn(&Config<Real, Ratio>, &Device) -> Result<E, Error>,
        AF: Fn(
            &Config<Real, Ratio>,
            &str,
            &Device,
            DType,
            Arc<E>,
            Option<usize>,
            usize,
            usize,
        ) -> Result<A, Error>,
        RF: Fn() -> R,
        PF: Fn(usize),

        requires
            engine.is_callable(),
            old(progress_reporter).is_callable(),
            !asks_to_divide_by_zero(metadata@),
        ensures
            engine.loads(
                metadata@,
                *place,
                kvcache_compression,
                kernels,
                *old(progress_reporter),
                *final(progress_reporter),
                r,
            ),
    {
        proof {
            (*progress_reporter).hears_nothing();
        }
        let (core, rope) = match read_fields(metadata) {
            Ok(fields) => fields,
            Err(e) => return Err(e),
        };
        assert(names_arch(metadata@, core.arch@));
        engine.build_from_fields(
            core,
            rope,
            place,
            kv_cache_dtype,
            kvcache_compression,
            kernels,
            progress_reporter,
        )
    }

    /// Builds the model that a GGUF file describes, unless its metadata asks for a division by
    /// zero: then there is none.
    pub fn try_from_gguf<G, S, H, NF, OF, YF, EF, AF, RF, PF, E>(
        metadata: &Metadata,
        engine: &Engine<G, S, H, NF, OF, YF, EF, AF, RF>,
        place: &Placement,
        kv_cache_dtype: DType,
        progress_reporter: &mut ProgressReporter<PF>,
        kvcache_compression: KvCacheDtype,
        kernels: Kernels<M, F>,
    ) -> (r: Result<Option<GGUFQWen<N, A, O, R, M, F>>, ModelError>) where
        G: Fn(Option<&str>, &str) -> Result<Arc<QTensor>, Error>,
        S: Fn(&str, &str, usize, usize, usize) -> Result<Arc<QTensor>, Error>,
        H: Fn(&str) -> bool,
        NF: Fn(Arc<QTensor>, Single) -> Result<N, Error>,
        OF: Fn(&str, usize, DType) -> Result<O, Error>,
        YF: Fn(Config<Real, Ratio>) -> Config<Real, Ratio>,
        EF: Fn(&Config<Real, Ratio>, &Device) -> Result<E, Error>,
        AF: Fn(
            &Config<Real, Ratio>,
            &str,
            &Device,
            DType,
            Arc<E>,
            Option<usize>,
            usize,
            usize,
        ) -> Result<A, Error>,
        RF: Fn() -> R,
        PF: Fn(usize),

        requires
            engine.is_callable(),
            old(progress_reporter).is_callable(),
        ensures
            match r {
                Ok(None) => asks_to_divide_by_zero(metadata@) && *final(progress_reporter) == *old(
                    progress_reporter,
                ),
                Ok(Some(model)) => !asks_to_divide_by_zero(metadata@) && engine.loads(
                    metadata@,
                    *place,
                    kvcache_compression,
                    kernels,
                    *old(progress_reporter),
                    *final(progress_reporter),
                    Ok(model),
                ),
                Err(e) => !asks_to_divide_by_zero(metadata@) && engine.loads::<M, F, PF>(
                    metadata@,
                    *place,
                    kvcache_compression,
                    kernels,
                    *old(progress_reporter),
                    *final(progress_reporter),
                    Err(e),
                ),
            },
    {
        proof {
            (*progress_reporter).hears_nothing();
        }
        let (core, rope) = match read_fields(metadata) {
            Ok(fields) => fields,
            Err(e) => return Err(e),
        };
        assert(names_arch(metadata@, core.arch@));
        if core.check_division() {
            return Ok(None);
        }
        match engine.build_from_fields(
            core,
            rope,
            place,
            kv_cache_dtype,
            kvcache_compression,
            kernels,
            progress_reporter,
        ) {
            Ok(model) => Ok(Some(model)),
            Err(e) => Err(e),
        }
    }
}

} // verus!
