//! What the functions that are offered can be called with.

use crate::batch::{last_token_positions, select_last_rows, InputMetadata};
use crate::config::{Config, KvCacheDtype, Ratio, Real, Single};
use crate::gguf::Kernels;
use crate::layer::LayerWeights;
use crate::loader::{Engine, Placement};
use crate::metadata::Metadata;
use crate::mlp::Mlp;
use crate::model::GGUFQWen;
use crate::params::{asks_to_divide_by_zero, CoreFields, RopeFields};
use crate::progress::ProgressReporter;
use crate::tensor::{elem_count, is_floating, tensor_value};
use crate::weight::{block_bytes, block_len, can_multiply, qtensor_value, weight_value};
use candle_core::quantized::{QMatMul, QTensor};
use candle_core::{DType, Device, Error, Tensor};
use std::sync::Arc;
use vstd::prelude::*;

verus! {

/// A layer can be run where its attention, its norms and its sum over ranks take all that they are
/// handed, and its attention and the norm before its feed-forward block give floats. Nothing more
/// is asked of it.
pub proof fn a_layer_of_willing_blocks_can_be_run<N, A, R, X>(layer: LayerWeights<N, A, R>) where
    N: Fn(&Tensor) -> Result<Tensor, Error>,
    R: Fn(&Tensor) -> Result<Tensor, Error>,
    A: Fn(
        &Tensor,
        Option<&Vec<Tensor>>,
        &Tensor,
        Option<(&Tensor, &Tensor)>,
        &InputMetadata<X>,
    ) -> Result<Tensor, Error>,

    requires
        forall|
            t: &Tensor,
            mask: Option<&Vec<Tensor>>,
            positions: &Tensor,
            cache: Option<(&Tensor, &Tensor)>,
            metadata: &InputMetadata<X>,
        | #[trigger]
            call_requires(layer.self_attn, (t, mask, positions, cache, metadata)),
        forall|
            t: &Tensor,
            mask: Option<&Vec<Tensor>>,
            positions: &Tensor,
            cache: Option<(&Tensor, &Tensor)>,
            metadata: &InputMetadata<X>,
            y: Tensor,
        | #[trigger]
            call_ensures(layer.self_attn, (t, mask, positions, cache, metadata), Ok(y))
                ==> is_floating(tensor_value(y).dtype),
        forall|t: &Tensor| #[trigger] call_requires(layer.attention_norm, (t,)),
        forall|t: &Tensor| #[trigger] call_requires(layer.ffn_norm, (t,)),
        forall|t: &Tensor, y: Tensor| #[trigger]
            call_ensures(layer.ffn_norm, (t,), Ok(y)) ==> is_floating(tensor_value(y).dtype),
        layer.mlp.all_reduce matches Some(f) ==> forall|t: &Tensor| #[trigger]
            call_requires(f, (t,)),
    ensures
        layer.is_callable::<X>(),
        layer.mlp.is_callable(),
{
}

/// A model can be run where each of its layers can, and its norm, its projection, its mask and its
/// fused kernel take all that they are handed, the last giving floats where it applies. Nothing
/// more is asked of it.
pub proof fn a_model_of_willing_blocks_can_be_run<N, A, O, R, M, F, X>(
    model: GGUFQWen<N, A, O, R, M, F>,
) where
    N: Fn(&Tensor) -> Result<Tensor, Error>,
    R: Fn(&Tensor) -> Result<Tensor, Error>,
    O: Fn(&Tensor) -> Result<Tensor, Error>,
    M: Fn(&Device, DType, &Tensor, &Vec<u32>, Option<usize>, bool) -> Option<Vec<Tensor>>,
    A: Fn(
        &Tensor,
        Option<&Vec<Tensor>>,
        &Tensor,
        Option<(&Tensor, &Tensor)>,
        &InputMetadata<X>,
    ) -> Result<Tensor, Error>,
    F: Fn(&QMatMul, &QMatMul, &Tensor) -> Result<Option<Tensor>, Error>,

    requires
        forall|i: int|
            0 <= i < model.layers@.len() ==> #[trigger] model.layers@[i].is_callable::<X>(),
        forall|t: &Tensor| #[trigger] call_requires(model.norm, (t,)),
        forall|t: &Tensor| #[trigger] call_requires(model.output, (t,)),
        forall|
            device: &Device,
            dtype: DType,
            positions: &Tensor,
            ends: &Vec<u32>,
            window: Option<usize>,
            is_prefill: bool,
        | #[trigger]
            call_requires(model.mask, (device, dtype, positions, ends, window, is_prefill)),
        forall|w1: &QMatMul, w3: &QMatMul, t: &Tensor| #[trigger]
            call_requires(model.fused, (w1, w3, t)),
        forall|w1: &QMatMul, w3: &QMatMul, t: &Tensor, y: Tensor| #[trigger]
            call_ensures(model.fused, (w1, w3, t), Ok(Some(y))) ==> is_floating(
                tensor_value(y).dtype,
            ),
    ensures
        model.is_callable::<X>(),
{
}

/// A model that can be run takes every batch whose bounds fit, with or without caches, where the
/// weights of the layers that are run can be multiplied by. The steps that test this first take
/// every batch.
pub proof fn every_batch_that_fits_can_be_run<N, A, O, R, M, F, X>(
    model: GGUFQWen<N, A, O, R, M, F>,
    x: Tensor,
    input_positions: Tensor,
    kv_caches: Option<&Vec<(Tensor, Tensor)>>,
    input_metadata: InputMetadata<X>,
) where
    N: Fn(&Tensor) -> Result<Tensor, Error>,
    R: Fn(&Tensor) -> Result<Tensor, Error>,
    O: Fn(&Tensor) -> Result<Tensor, Error>,
    M: Fn(&Device, DType, &Tensor, &Vec<u32>, Option<usize>, bool) -> Option<Vec<Tensor>>,
    A: Fn(
        &Tensor,
        Option<&Vec<Tensor>>,
        &Tensor,
        Option<(&Tensor, &Tensor)>,
        &InputMetadata<X>,
    ) -> Result<Tensor, Error>,
    F: Fn(&QMatMul, &QMatMul, &Tensor) -> Result<Option<Tensor>, Error>,

    requires
        model.is_callable::<X>(),
    ensures
        call_requires(
            GGUFQWen::<N, A, O, R, M, F>::try_forward::<X>,
            (&model, &x, &input_positions, kv_caches, &input_metadata),
        ),
        call_requires(
            GGUFQWen::<N, A, O, R, M, F>::try_forward_embedding::<X>,
            (&model, &x, &input_positions, kv_caches, &input_metadata),
        ),
        call_requires(
            GGUFQWen::<N, A, O, R, M, F>::try_forward_from_embeddings::<X>,
            (&model, &x, &input_positions, kv_caches, &input_metadata),
        ),
        model.weights_multiply(kv_caches) && input_metadata.fits(true) ==> call_requires(
            GGUFQWen::<N, A, O, R, M, F>::forward::<X>,
            (&model, &x, &input_positions, kv_caches, &input_metadata),
        ),
        model.weights_multiply(kv_caches) && input_metadata.fits(false) ==> {
            &&& call_requires(
                GGUFQWen::<N, A, O, R, M, F>::forward_embedding::<X>,
                (&model, &x, &input_positions, kv_caches, &input_metadata),
            )
            &&& call_requires(
                GGUFQWen::<N, A, O, R, M, F>::forward_from_embeddings::<X>,
                (&model, &x, &input_positions, kv_caches, &input_metadata),
            )
            &&& call_requires(
                GGUFQWen::<N, A, O, R, M, F>::forward_layers::<X>,
                (&model, x, &input_positions, kv_caches, &input_metadata),
            )
        },
{
}

/// A layer that can be run takes every batch, under every mask and with every cache, where its
/// weights can be multiplied by.
pub proof fn a_layer_takes_every_batch<N, A, R, X, F>(
    layer: LayerWeights<N, A, R>,
    x: Tensor,
    mask: Option<&Vec<Tensor>>,
    input_positions: Tensor,
    cache: Option<(&Tensor, &Tensor)>,
    input_metadata: InputMetadata<X>,
    fused: F,
    fused_glu: bool,
) where
    N: Fn(&Tensor) -> Result<Tensor, Error>,
    R: Fn(&Tensor) -> Result<Tensor, Error>,
    A: Fn(
        &Tensor,
        Option<&Vec<Tensor>>,
        &Tensor,
        Option<(&Tensor, &Tensor)>,
        &InputMetadata<X>,
    ) -> Result<Tensor, Error>,
    F: Fn(&QMatMul, &QMatMul, &Tensor) -> Result<Option<Tensor>, Error>,

    requires
        layer.is_callable::<X>(),
        can_multiply(weight_value(layer.mlp.feed_forward_w1)),
        can_multiply(weight_value(layer.mlp.feed_forward_w2)),
        can_multiply(weight_value(layer.mlp.feed_forward_w3)),
        forall|w1: &QMatMul, w3: &QMatMul, t: &Tensor| #[trigger]
            call_requires(fused, (w1, w3, t)),
        forall|w1: &QMatMul, w3: &QMatMul, t: &Tensor, y: Tensor| #[trigger]
            call_ensures(fused, (w1, w3, t), Ok(Some(y))) ==> is_floating(tensor_value(y).dtype),
    ensures
        call_requires(
            LayerWeights::<N, A, R>::forward::<X, F>,
            (
                &layer,
                &x,
                mask,
                &input_positions,
                cache,
                &input_metadata,
                &fused,
                fused_glu,
            ),
        ),
        call_requires(
            LayerWeights::<N, A, R>::forward_attn::<X>,
            (&layer, &x, mask, &input_positions, cache, &input_metadata),
        ),
        call_requires(Mlp::<R>::forward::<F>, (&layer.mlp, &x, &fused, fused_glu)),
{
}

/// An engine can be loaded from where all that it brings takes all that it is handed, and the
/// embedding table and the shares of weights that it gives have all their blocks. Nothing more is
/// asked of it.
pub proof fn a_willing_engine_can_be_loaded_from<
    G,
    S,
    H,
    NF,
    OF,
    YF,
    EF,
    AF,
    RF,
    N,
    O,
    E,
    A,
    R,
>(
    engine: Engine<G, S, H, NF, OF, YF, EF, AF, RF>,
) where
    G: Fn(Option<&str>, &str) -> Result<Arc<QTensor>, Error>,
    S: Fn(&str, &str, usize, usize, usize) -> Result<Arc<QTensor>, Error>,
    H: Fn(&str) -> bool,
    NF: Fn(Arc<QTensor>, Single) -> Result<N, Error>,
    OF: Fn(&str, usize, DType) -> Result<O, Error>,
    YF: Fn(Config<Real, Ratio>) -> Config<Real, Ratio>,
    EF: Fn(&Config<Real, Ratio>, &Device) -> Result<E, Error>,
    AF: Fn(
        &Config<Real, Ratio>,
        &str,
        &Device,
        DType,
        Arc<E>,
        Option<usize>,
        usize,
        usize,
    ) -> Result<A, Error>,
    RF: Fn() -> R,

    requires
        forall|q: Arc<QTensor>| #[trigger]
            call_ensures(engine.get, (None, "token_embd.weight"), Ok(q)) ==> {
                let w = qtensor_value(*q);
                w.blocks matches Some(d) ==> w.bytes * block_len(d) == elem_count(w.dims)
                    * block_bytes(d)
            },
        forall|prefix: &str, name: &str, dim: usize, rank: usize, world: usize, q: Arc<QTensor>|
            #[trigger] call_ensures(engine.get_sharded, (prefix, name, dim, rank, world), Ok(q))
                ==> {
                let w = qtensor_value(*q);
                w.blocks matches Some(d) ==> w.bytes * block_len(d) == elem_count(w.dims)
                    * block_bytes(d)
            },
        forall|prefix: Option<&str>, name: &str| #[trigger]
            call_requires(engine.get, (prefix, name)),
        forall|prefix: &str, name: &str, dim: usize, rank: usize, world: usize| #[trigger]
            call_requires(engine.get_sharded, (prefix, name, dim, rank, world)),
        forall|name: &str| #[trigger] call_requires(engine.contains_key, (name,)),
        forall|q: Arc<QTensor>, eps: Single| #[trigger] call_requires(engine.norm, (q, eps)),
        forall|name: &str, rows: usize, dtype: DType| #[trigger]
            call_requires(engine.output, (name, rows, dtype)),
        forall|cfg: Config<Real, Ratio>| #[trigger] call_requires(engine.rope_overrides, (cfg,)),
        forall|cfg: &Config<Real, Ratio>, device: &Device| #[trigger]
            call_requires(engine.rotary, (cfg, device)),
        forall|
            cfg: &Config<Real, Ratio>,
            prefix: &str,
            device: &Device,
            dtype: DType,
            rotary: Arc<E>,
            window: Option<usize>,
            rank: usize,
            world: usize,
        | #[trigger]
            call_requires(
                engine.attention,
                (cfg, prefix, device, dtype, rotary, window, rank, world),
            ),
        call_requires(engine.all_reduce, ()),
    ensures
        engine.is_callable(),
{
}

/// From an engine that can be loaded from, with a reporter whose listener takes every number, every
/// model is loaded whose metadata does not ask for a division by zero.
pub proof fn every_model_can_be_loaded<
    G,
    S,
    H,
    NF,
    OF,
    YF,
    EF,
    AF,
    RF,
    N,
    O,
    E,
    A,
    R,
    M,
    F,
    PF,
>(
    metadata: Metadata,
    engine: Engine<G, S, H, NF, OF, YF, EF, AF, RF>,
    place: Placement,
    kv_cache_dtype: DType,
    reporter: &mut ProgressReporter<PF>,
    compression: KvCacheDtype,
    kernels: Kernels<M, F>,
) where
    G: Fn(Option<&str>, &str) -> Result<Arc<QTensor>, Error>,
    S: Fn(&str, &str, usize, usize, usize) -> Result<Arc<QTensor>, Error>,
    H: Fn(&str) -> bool,
    NF: Fn(Arc<QTensor>, Single) -> Result<N, Error>,
    OF: Fn(&str, usize, DType) -> Result<O, Error>,
    YF: Fn(Config<Real, Ratio>) -> Config<Real, Ratio>,
    EF: Fn(&Config<Real, Ratio>, &Device) -> Result<E, Error>,
    AF: Fn(
        &Config<Real, Ratio>,
        &str,
        &Device,
        DType,
        Arc<E>,
        Option<usize>,
        usize,
        usize,
    ) -> Result<A, Error>,
    RF: Fn() -> R,
    PF: Fn(usize),

    requires
        engine.is_callable(),
        forall|n: usize| #[trigger] call_requires(old(reporter).listener(), (n,)),
    ensures
        !asks_to_divide_by_zero(metadata@) ==> call_requires(
            GGUFQWen::<N, A, O, R, M, F>::from_gguf::<G, S, H, NF, OF, YF, EF, AF, RF, PF, E>,
            (&metadata, &engine, &place, kv_cache_dtype, reporter, compression, kernels),
        ),
        call_requires(
            GGUFQWen::<N, A, O, R, M, F>::try_from_gguf::<G, S, H, NF, OF, YF, EF, AF, RF, PF, E>,
            (&metadata, &engine, &place, kv_cache_dtype, reporter, compression, kernels),
        ),
{
}

/// The heads and every layer can be loaded from an engine that can be loaded from.
pub proof fn every_part_can_be_loaded<
    G,
    S,
    H,
    NF,
    OF,
    YF,
    EF,
    AF,
    RF,
    N,
    O,
    E,
    A,
    R,
    PF,
>(
    engine: Engine<G, S, H, NF, OF, YF, EF, AF, RF>,
    cfg: Config<Real, Ratio>,
    index: usize,
    place: Placement,
    rotary: Arc<E>,
    eps: Single,
    reporter: &mut ProgressReporter<PF>,
) where
    G: Fn(Option<&str>, &str) -> Result<Arc<QTensor>, Error>,
    S: Fn(&str, &str, usize, usize, usize) -> Result<Arc<QTensor>, Error>,
    H: Fn(&str) -> bool,
    NF: Fn(Arc<QTensor>, Single) -> Result<N, Error>,
    OF: Fn(&str, usize, DType) -> Result<O, Error>,
    YF: Fn(Config<Real, Ratio>) -> Config<Real, Ratio>,
    EF: Fn(&Config<Real, Ratio>, &Device) -> Result<E, Error>,
    AF: Fn(
        &Config<Real, Ratio>,
        &str,
        &Device,
        DType,
        Arc<E>,
        Option<usize>,
        usize,
        usize,
    ) -> Result<A, Error>,
    RF: Fn() -> R,
    PF: Fn(usize),

    requires
        engine.is_callable(),
        forall|n: usize| #[trigger] call_requires(old(reporter).listener(), (n,)),
    ensures
        call_requires(
            Engine::<G, S, H, NF, OF, YF, EF, AF, RF>::load_heads,
            (&engine, &place, eps),
        ),
        call_requires(
            Engine::<G, S, H, NF, OF, YF, EF, AF, RF>::load_layer,
            (&engine, &cfg, index, &place, rotary, eps),
        ),
        call_requires(
            Engine::<G, S, H, NF, OF, YF, EF, AF, RF>::load_layers::<PF>,
            (&engine, &cfg, index, &place, rotary, eps, reporter),
        ),
{
}

/// Fields can be resolved unless they ask for a division by zero, rotary fields always. Ends can be
/// read where they are, and last tokens taken where every sequence has one.
pub proof fn fields_and_bounds_can_be_read<X>(
    core: CoreFields,
    rope: RopeFields,
    head_dim: usize,
    input_metadata: InputMetadata<X>,
    ends: Vec<u32>,
    x: Tensor,
)
    ensures
        !core.divides_by_zero() ==> call_requires(CoreFields::resolve, (core,)),
        call_requires(RopeFields::resolve, (rope, head_dim)),
        input_metadata.fits(false) ==> call_requires(
            InputMetadata::<X>::sequence_ends,
            (&input_metadata,),
        ),
        (forall|i: int| 0 <= i < ends@.len() ==> #[trigger] ends@[i] > 0) ==> call_requires(
            last_token_positions,
            (&ends,),
        ) && call_requires(select_last_rows, (&x, &ends)),
{
}

} // verus!
