//! What holds of loading the model as a whole.

use crate::batch::InputMetadata;
use crate::config::{Config, KvCacheDtype, Ratio, Real, Single, QWEN3_VOCAB_SIZE};
use crate::error::ModelError;
use crate::gguf::{is_base_config, Kernels};
use crate::laws::{forward_gives_logits, from_embeddings_gives_logits};
use crate::layer::LayerWeights;
use crate::loader::{Engine, Heads, Placement};
use crate::model::GGUFQWen;
use crate::params::{
    fields_end, names_arch, true_vocab, u32_at, CoreFields, CoreParams, RopeFields,
};
use crate::progress::counted;
use crate::tensor::{embedding_table, tensor_value};
use crate::text::arch_key;
use crate::weight::{can_multiply, qtensor_value};
use candle_core::quantized::gguf_file::Value;
use candle_core::quantized::{QMatMul, QTensor};
use candle_core::{DType, Device, Error, Tensor};
use std::sync::Arc;
use vstd::prelude::*;

verus! {

/// Where all layers are loaded there are as many as were asked for, and the numbers from one to
/// that were told. Where one fails, those before it were told, and no more.
pub proof fn progress_is_told_layer_by_layer<G, S, H, NF, OF, YF, EF, AF, RF, N, O, E, A, R>(
    engine: Engine<G, S, H, NF, OF, YF, EF, AF, RF>,
    cfg: Config<Real, Ratio>,
    count: usize,
    place: Placement,
    rotary: Arc<E>,
    eps: Single,
    told: Seq<usize>,
    r: Result<Vec<LayerWeights<N, A, R>>, Error>,
) where
    G: Fn(Option<&str>, &str) -> Result<Arc<QTensor>, Error>,
    S: Fn(&str, &str, usize, usize, usize) -> Result<Arc<QTensor>, Error>,
    H: Fn(&str) -> bool,
    NF: Fn(Arc<QTensor>, Single) -> Result<N, Error>,
    OF: Fn(&str, usize, DType) -> Result<O, Error>,
    YF: Fn(Config<Real, Ratio>) -> Config<Real, Ratio>,
    EF: Fn(&Config<Real, Ratio>, &Device) -> Result<E, Error>,
    AF: Fn(
        &Config<Real, Ratio>,
        &str,
        &Device,
        DType,
        Arc<E>,
        Option<usize>,
        usize,
        usize,
    ) -> Result<A, Error>,
    RF: Fn() -> R,

    requires
        engine.layers_end(cfg, count, place, rotary, eps, told, r),
    ensures
        forall|i: int| 0 <= i < told.len() ==> #[trigger] told[i] == i + 1,
        r matches Ok(layers) ==> layers@.len() == count && told.len() == count,
        r matches Err(e) ==> told.len() < count && engine.layer_ends(
            cfg,
            told.len(),
            place,
            rotary,
            eps,
            Err(e),
        ),
{
}

/// A layer made of tensors that activations can be multiplied by can be run: they can be multiplied
/// by its weights.
pub proof fn a_loaded_layer_can_be_run<G, S, H, NF, OF, YF, EF, AF, RF, N, O, E, A, R>(
    engine: Engine<G, S, H, NF, OF, YF, EF, AF, RF>,
    cfg: Config<Real, Ratio>,
    index: nat,
    place: Placement,
    rotary: Arc<E>,
    eps: Single,
    layer: LayerWeights<N, A, R>,
) where
    G: Fn(Option<&str>, &str) -> Result<Arc<QTensor>, Error>,
    S: Fn(&str, &str, usize, usize, usize) -> Result<Arc<QTensor>, Error>,
    H: Fn(&str) -> bool,
    NF: Fn(Arc<QTensor>, Single) -> Result<N, Error>,
    OF: Fn(&str, usize, DType) -> Result<O, Error>,
    YF: Fn(Config<Real, Ratio>) -> Config<Real, Ratio>,
    EF: Fn(&Config<Real, Ratio>, &Device) -> Result<E, Error>,
    AF: Fn(
        &Config<Real, Ratio>,
        &str,
        &Device,
        DType,
        Arc<E>,
        Option<usize>,
        usize,
        usize,
    ) -> Result<A, Error>,
    RF: Fn() -> R,

    requires
        forall|prefix: &str, name: &str, dim: usize, rank: usize, world: usize, q: Arc<QTensor>|
            #[trigger] call_ensures(engine.get_sharded, (prefix, name, dim, rank, world), Ok(q))
                ==> can_multiply(qtensor_value(*q)),
        engine.layer_ends(cfg, index, place, rotary, eps, Ok(layer)),
    ensures
        layer.mlp.weights_multiply(),
{
}

/// The results of a loaded feed-forward block are summed over the ranks where there are several
/// and the engine can, and nowhere else.
pub proof fn several_ranks_are_summed<G, S, H, NF, OF, YF, EF, AF, RF, N, O, E, A, R>(
    engine: Engine<G, S, H, NF, OF, YF, EF, AF, RF>,
    cfg: Config<Real, Ratio>,
    index: nat,
    place: Placement,
    rotary: Arc<E>,
    eps: Single,
    layer: LayerWeights<N, A, R>,
) where
    G: Fn(Option<&str>, &str) -> Result<Arc<QTensor>, Error>,
    S: Fn(&str, &str, usize, usize, usize) -> Result<Arc<QTensor>, Error>,
    H: Fn(&str) -> bool,
    NF: Fn(Arc<QTensor>, Single) -> Result<N, Error>,
    OF: Fn(&str, usize, DType) -> Result<O, Error>,
    YF: Fn(Config<Real, Ratio>) -> Config<Real, Ratio>,
    EF: Fn(&Config<Real, Ratio>, &Device) -> Result<E, Error>,
    AF: Fn(
        &Config<Real, Ratio>,
        &str,
        &Device,
        DType,
        Arc<E>,
        Option<usize>,
        usize,
        usize,
    ) -> Result<A, Error>,
    RF: Fn() -> R,

    requires
        engine.layer_ends(cfg, index, place, rotary, eps, Ok(layer)),
    ensures
        layer.mlp.all_reduce is Some == (place.nccl && place.world_size > 1),
        layer.mlp.dtype == place.dtype,
{
}

/// What a loaded model was made of: the fields of its metadata, the hyperparameters and the heads,
/// and its configuration before and after what was asked for at run time.
pub proof fn parts_of_a_loaded_model<G, S, H, NF, OF, YF, EF, AF, RF, N, O, E, A, R, M, F>(
    engine: Engine<G, S, H, NF, OF, YF, EF, AF, RF>,
    md: Map<Seq<char>, Value>,
    place: Placement,
    compression: KvCacheDtype,
    kernels: Kernels<M, F>,
    told: Seq<usize>,
    model: GGUFQWen<N, A, O, R, M, F>,
) -> (parts: (
    CoreFields,
    RopeFields,
    CoreParams,
    Heads<N, O>,
    Config<Real, Ratio>,
    Config<Real, Ratio>,
)) where
    G: Fn(Option<&str>, &str) -> Result<Arc<QTensor>, Error>,
    S: Fn(&str, &str, usize, usize, usize) -> Result<Arc<QTensor>, Error>,
    H: Fn(&str) -> bool,
    NF: Fn(Arc<QTensor>, Single) -> Result<N, Error>,
    OF: Fn(&str, usize, DType) -> Result<O, Error>,
    YF: Fn(Config<Real, Ratio>) -> Config<Real, Ratio>,
    EF: Fn(&Config<Real, Ratio>, &Device) -> Result<E, Error>,
    AF: Fn(
        &Config<Real, Ratio>,
        &str,
        &Device,
        DType,
        Arc<E>,
        Option<usize>,
        usize,
        usize,
    ) -> Result<A, Error>,
    RF: Fn() -> R,

    requires
        engine.gguf_ends(md, place, compression, kernels, told, Ok(model)),
    ensures
        ({
            let (core, rope, p, heads, base, cfg) = parts;
            &&& fields_end(md, Ok((core, rope)))
            &&& core.fault() is None
            &&& rope.fault() is None
            &&& core.give(p)
            &&& engine.heads_end(place, p.rms_norm_eps, Ok(heads))
            &&& call_ensures(engine.rope_overrides, (base,), cfg)
            &&& is_base_config(
                base,
                p,
                rope.give(p.head_dim),
                true_vocab(p.arch@, heads.rows as nat),
                compression,
            )
            &&& engine.configured_ends(p, heads, cfg, place, kernels, told, Ok(model))
        }),
{
    let r = Ok::<GGUFQWen<N, A, O, R, M, F>, ModelError>(model);
    let f = choose|f: Result<(CoreFields, RopeFields), ModelError>| #[trigger]
        fields_end(md, f) && match f {
            Err(e) => r == Err::<GGUFQWen<N, A, O, R, M, F>, ModelError>(e),
            Ok((core, rope)) => engine.fields_model_ends(
                core,
                rope,
                place,
                compression,
                kernels,
                told,
                r,
            ),
        };
    let (core, rope) = f->Ok_0;
    let p = choose|p: CoreParams| #[trigger]
        core.give(p) && engine.params_end(p, rope, place, compression, kernels, told, r);
    let h = choose|h: Result<Heads<N, O>, Error>| #[trigger]
        engine.heads_end(place, p.rms_norm_eps, h) && match h {
            Err(e) => false,
            Ok(heads) => rope.fault() is None && exists|
                base: Config<Real, Ratio>,
                cfg: Config<Real, Ratio>,
            | #[trigger]
                call_ensures(engine.rope_overrides, (base,), cfg) && is_base_config(
                    base,
                    p,
                    rope.give(p.head_dim),
                    true_vocab(p.arch@, heads.rows as nat),
                    compression,
                ) && engine.configured_ends(p, heads, cfg, place, kernels, told, Ok(model)),
        };
    let heads = h->Ok_0;
    let (base, cfg) = choose|base: Config<Real, Ratio>, cfg: Config<Real, Ratio>| #[trigger]
        call_ensures(engine.rope_overrides, (base,), cfg) && is_base_config(
            base,
            p,
            rope.give(p.head_dim),
            true_vocab(p.arch@, heads.rows as nat),
            compression,
        ) && engine.configured_ends(p, heads, cfg, place, kernels, told, Ok(model));
    (core, rope, p, heads, base, cfg)
}

/// A loaded model has as many layers as its metadata says, all of them told one after the other,
/// and lies where it was to be put.
pub proof fn a_loaded_model_is_as_deep_as_its_metadata_says<
    G,
    S,
    H,
    NF,
    OF,
    YF,
    EF,
    AF,
    RF,
    N,
    O,
    E,
    A,
    R,
    M,
    F,
>(
    engine: Engine<G, S, H, NF, OF, YF, EF, AF, RF>,
    md: Map<Seq<char>, Value>,
    arch: Seq<char>,
    place: Placement,
    compression: KvCacheDtype,
    kernels: Kernels<M, F>,
    told: Seq<usize>,
    model: GGUFQWen<N, A, O, R, M, F>,
) where
    G: Fn(Option<&str>, &str) -> Result<Arc<QTensor>, Error>,
    S: Fn(&str, &str, usize, usize, usize) -> Result<Arc<QTensor>, Error>,
    H: Fn(&str) -> bool,
    NF: Fn(Arc<QTensor>, Single) -> Result<N, Error>,
    OF: Fn(&str, usize, DType) -> Result<O, Error>,
    YF: Fn(Config<Real, Ratio>) -> Config<Real, Ratio>,
    EF: Fn(&Config<Real, Ratio>, &Device) -> Result<E, Error>,
    AF: Fn(
        &Config<Real, Ratio>,
        &str,
        &Device,
        DType,
        Arc<E>,
        Option<usize>,
        usize,
        usize,
    ) -> Result<A, Error>,
    RF: Fn() -> R,

    requires
        names_arch(md, arch),
        engine.gguf_ends(md, place, compression, kernels, told, Ok(model)),
    ensures
        u32_at(md, arch_key(arch, "block_count"@)) == Some(model.layers@.len() as u32),
        model.layers@.len() <= u32::MAX,
        told == counted(model.layers@.len()),
        model.device == place.device,
        model.dtype == place.dtype,
{
    let (core, rope, p, heads, base, cfg) = parts_of_a_loaded_model(
        engine,
        md,
        place,
        compression,
        kernels,
        told,
        model,
    );
}

/// The vocabulary of a loaded model is that of Qwen3 where its metadata names that architecture,
/// and the rows of its embedding table otherwise.
pub proof fn a_loaded_model_knows_its_vocabulary<
    G,
    S,
    H,
    NF,
    OF,
    YF,
    EF,
    AF,
    RF,
    N,
    O,
    E,
    A,
    R,
    M,
    F,
>(
    engine: Engine<G, S, H, NF, OF, YF, EF, AF, RF>,
    md: Map<Seq<char>, Value>,
    arch: Seq<char>,
    place: Placement,
    compression: KvCacheDtype,
    kernels: Kernels<M, F>,
    told: Seq<usize>,
    model: GGUFQWen<N, A, O, R, M, F>,
) where
    G: Fn(Option<&str>, &str) -> Result<Arc<QTensor>, Error>,
    S: Fn(&str, &str, usize, usize, usize) -> Result<Arc<QTensor>, Error>,
    H: Fn(&str) -> bool,
    NF: Fn(Arc<QTensor>, Single) -> Result<N, Error>,
    OF: Fn(&str, usize, DType) -> Result<O, Error>,
    YF: Fn(Config<Real, Ratio>) -> Config<Real, Ratio>,
    EF: Fn(&Config<Real, Ratio>, &Device) -> Result<E, Error>,
    AF: Fn(
        &Config<Real, Ratio>,
        &str,
        &Device,
        DType,
        Arc<E>,
        Option<usize>,
        usize,
        usize,
    ) -> Result<A, Error>,
    RF: Fn() -> R,

    requires
        names_arch(md, arch),
        engine.gguf_ends(md, place, compression, kernels, told, Ok(model)),
    ensures
        arch == "qwen3"@ ==> model.true_vocab_size == QWEN3_VOCAB_SIZE,
        arch != "qwen3"@ ==> {
            &&& embedding_table(model.tok_embeddings).dims.len() > 0
            &&& embedding_table(model.tok_embeddings).dims[0] == model.true_vocab_size
        },
{
    let (core, rope, p, heads, base, cfg) = parts_of_a_loaded_model(
        engine,
        md,
        place,
        compression,
        kernels,
        told,
        model,
    );
    let table = Ok::<(usize, Tensor), Error>((heads.rows, heads.table));
    assert(engine.table_ends(place.device, table));
}

/// The size of the vocabulary and the compression of the cache that was asked for are in the
/// configuration that a loaded model and its attention read, unless what is applied at run time
/// changes them.
pub proof fn what_was_asked_for_reaches_the_configuration<
    G,
    S,
    H,
    NF,
    OF,
    YF,
    EF,
    AF,
    RF,
    N,
    O,
    E,
    A,
    R,
    M,
    F,
>(
    engine: Engine<G, S, H, NF, OF, YF, EF, AF, RF>,
    md: Map<Seq<char>, Value>,
    place: Placement,
    compression: KvCacheDtype,
    kernels: Kernels<M, F>,
    told: Seq<usize>,
    model: GGUFQWen<N, A, O, R, M, F>,
) where
    G: Fn(Option<&str>, &str) -> Result<Arc<QTensor>, Error>,
    S: Fn(&str, &str, usize, usize, usize) -> Result<Arc<QTensor>, Error>,
    H: Fn(&str) -> bool,
    NF: Fn(Arc<QTensor>, Single) -> Result<N, Error>,
    OF: Fn(&str, usize, DType) -> Result<O, Error>,
    YF: Fn(Config<Real, Ratio>) -> Config<Real, Ratio>,
    EF: Fn(&Config<Real, Ratio>, &Device) -> Result<E, Error>,
    AF: Fn(
        &Config<Real, Ratio>,
        &str,
        &Device,
        DType,
        Arc<E>,
        Option<usize>,
        usize,
        usize,
    ) -> Result<A, Error>,
    RF: Fn() -> R,

    requires
        forall|base: Config<Real, Ratio>, cfg: Config<Real, Ratio>| #[trigger]
            call_ensures(engine.rope_overrides, (base,), cfg) ==> cfg.kvcache_dtype
                == base.kvcache_dtype && cfg.vocab_size == base.vocab_size,
        engine.gguf_ends(md, place, compression, kernels, told, Ok(model)),
    ensures
        model.cfg.kvcache_dtype == compression,
        model.cfg.vocab_size == model.true_vocab_size,
{
    let (core, rope, p, heads, base, cfg) = parts_of_a_loaded_model(
        engine,
        md,
        place,
        compression,
        kernels,
        told,
        model,
    );
    assert(cfg.kvcache_dtype == base.kvcache_dtype);
}

/// The logits of a loaded model are as wide as its configuration says that the vocabulary is,
/// unless what is applied at run time changes that.
pub proof fn logits_are_as_wide_as_configured<
    G,
    S,
    H,
    NF,
    OF,
    YF,
    EF,
    AF,
    RF,
    N,
    O,
    E,
    A,
    R,
    M,
    F,
    X,
>(
    engine: Engine<G, S, H, NF, OF, YF, EF, AF, RF>,
    md: Map<Seq<char>, Value>,
    place: Placement,
    compression: KvCacheDtype,
    kernels: Kernels<M, F>,
    told: Seq<usize>,
    model: GGUFQWen<N, A, O, R, M, F>,
    x: Tensor,
    input_positions: Tensor,
    kv_caches: Option<&Vec<(Tensor, Tensor)>>,
    input_metadata: InputMetadata<X>,
    logits: Tensor,
) where
    G: Fn(Option<&str>, &str) -> Result<Arc<QTensor>, Error>,
    S: Fn(&str, &str, usize, usize, usize) -> Result<Arc<QTensor>, Error>,
    H: Fn(&str) -> bool,
    NF: Fn(Arc<QTensor>, Single) -> Result<N, Error>,
    OF: Fn(&str, usize, DType) -> Result<O, Error>,
    YF: Fn(Config<Real, Ratio>) -> Config<Real, Ratio>,
    EF: Fn(&Config<Real, Ratio>, &Device) -> Result<E, Error>,
    AF: Fn(
        &Config<Real, Ratio>,
        &str,
        &Device,
        DType,
        Arc<E>,
        Option<usize>,
        usize,
        usize,
    ) -> Result<A, Error>,
    RF: Fn() -> R,
    N: Fn(&Tensor) -> Result<Tensor, Error>,
    R: Fn(&Tensor) -> Result<Tensor, Error>,
    O: Fn(&Tensor) -> Result<Tensor, Error>,
    M: Fn(&Device, DType, &Tensor, &Vec<u32>, Option<usize>, bool) -> Option<Vec<Tensor>>,
    A: Fn(
        &Tensor,
        Option<&Vec<Tensor>>,
        &Tensor,
        Option<(&Tensor, &Tensor)>,
        &InputMetadata<X>,
    ) -> Result<Tensor, Error>,
    F: Fn(&QMatMul, &QMatMul, &Tensor) -> Result<Option<Tensor>, Error>,

    requires
        forall|base: Config<Real, Ratio>, cfg: Config<Real, Ratio>| #[trigger]
            call_ensures(engine.rope_overrides, (base,), cfg) ==> cfg.vocab_size
                == base.vocab_size,
        engine.gguf_ends(md, place, compression, kernels, told, Ok(model)),
        model.inner_ends(x, input_positions, kv_caches, input_metadata, false, Ok(logits)),
    ensures
        tensor_value(logits).dims.len() > 0,
        tensor_value(logits).dims.last() == model.cfg.vocab_size,
{
    let (core, rope, p, heads, base, cfg) = parts_of_a_loaded_model(
        engine,
        md,
        place,
        compression,
        kernels,
        told,
        model,
    );
    assert(cfg.vocab_size == base.vocab_size);
    forward_gives_logits(model, x, input_positions, kv_caches, input_metadata, logits);
}

/// The logits that a loaded model decodes from embeddings are as wide as its configuration says
/// that the vocabulary is, unless what is applied at run time changes that.
pub proof fn decoded_logits_are_as_wide_as_configured<
    G,
    S,
    H,
    NF,
    OF,
    YF,
    EF,
    AF,
    RF,
    N,
    O,
    E,
    A,
    R,
    M,
    F,
    X,
>(
    engine: Engine<G, S, H, NF, OF, YF, EF, AF, RF>,
    md: Map<Seq<char>, Value>,
    place: Placement,
    compression: KvCacheDtype,
    kernels: Kernels<M, F>,
    told: Seq<usize>,
    model: GGUFQWen<N, A, O, R, M, F>,
    embeddings: Tensor,
    input_positions: Tensor,
    kv_caches: Option<&Vec<(Tensor, Tensor)>>,
    input_metadata: InputMetadata<X>,
    logits: Tensor,
    hidden: Tensor,
) where
    G: Fn(Option<&str>, &str) -> Result<Arc<QTensor>, Error>,
    S: Fn(&str, &str, usize, usize, usize) -> Result<Arc<QTensor>, Error>,
    H: Fn(&str) -> bool,
    NF: Fn(Arc<QTensor>, Single) -> Result<N, Error>,
    OF: Fn(&str, usize, DType) -> Result<O, Error>,
    YF: Fn(Config<Real, Ratio>) -> Config<Real, Ratio>,
    EF: Fn(&Config<Real, Ratio>, &Device) -> Result<E, Error>,
    AF: Fn(
        &Config<Real, Ratio>,
        &str,
        &Device,
        DType,
        Arc<E>,
        Option<usize>,
        usize,
        usize,
    ) -> Result<A, Error>,
    RF: Fn() -> R,
    N: Fn(&Tensor) -> Result<Tensor, Error>,
    R: Fn(&Tensor) -> Result<Tensor, Error>,
    O: Fn(&Tensor) -> Result<Tensor, Error>,
    M: Fn(&Device, DType, &Tensor, &Vec<u32>, Option<usize>, bool) -> Option<Vec<Tensor>>,
    A: Fn(
        &Tensor,
        Option<&Vec<Tensor>>,
        &Tensor,
        Option<(&Tensor, &Tensor)>,
        &InputMetadata<X>,
    ) -> Result<Tensor, Error>,
    F: Fn(&QMatMul, &QMatMul, &Tensor) -> Result<Option<Tensor>, Error>,

    requires
        forall|base: Config<Real, Ratio>, cfg: Config<Real, Ratio>| #[trigger]
            call_ensures(engine.rope_overrides, (base,), cfg) ==> cfg.vocab_size
                == base.vocab_size,
        engine.gguf_ends(md, place, compression, kernels, told, Ok(model)),
        model.from_embeddings_ends(
            embeddings,
            input_positions,
            kv_caches,
            input_metadata,
            Ok((logits, hidden)),
        ),
    ensures
        tensor_value(logits).dims.len() > 0,
        tensor_value(logits).dims.last() == model.cfg.vocab_size,
        model.cfg.vocab_size == model.true_vocab_size,
{
    let (core, rope, p, heads, base, cfg) = parts_of_a_loaded_model(
        engine,
        md,
        place,
        compression,
        kernels,
        told,
        model,
    );
    assert(cfg.vocab_size == base.vocab_size);
    from_embeddings_gives_logits(
        model,
        embeddings,
        input_positions,
        kv_caches,
        input_metadata,
        logits,
        hidden,
    );
}

/// A model made of tensors that activations can be multiplied by can be run.
pub proof fn a_loaded_model_can_be_run<
    G,
    S,
    H,
    NF,
    OF,
    YF,
    EF,
    AF,
    RF,
    N,
    O,
    E,
    A,
    R,
    M,
    F,
>(
    engine: Engine<G, S, H, NF, OF, YF, EF, AF, RF>,
    md: Map<Seq<char>, Value>,
    place: Placement,
    compression: KvCacheDtype,
    kernels: Kernels<M, F>,
    told: Seq<usize>,
    model: GGUFQWen<N, A, O, R, M, F>,
    kv_caches: Option<&Vec<(Tensor, Tensor)>>,
) where
    G: Fn(Option<&str>, &str) -> Result<Arc<QTensor>, Error>,
    S: Fn(&str, &str, usize, usize, usize) -> Result<Arc<QTensor>, Error>,
    H: Fn(&str) -> bool,
    NF: Fn(Arc<QTensor>, Single) -> Result<N, Error>,
    OF: Fn(&str, usize, DType) -> Result<O, Error>,
    YF: Fn(Config<Real, Ratio>) -> Config<Real, Ratio>,
    EF: Fn(&Config<Real, Ratio>, &Device) -> Result<E, Error>,
    AF: Fn(
        &Config<Real, Ratio>,
        &str,
        &Device,
        DType,
        Arc<E>,
        Option<usize>,
        usize,
        usize,
    ) -> Result<A, Error>,
    RF: Fn() -> R,
    N: Fn(&Tensor) -> Result<Tensor, Error>,
    O: Fn(&Tensor) -> Result<Tensor, Error>,
    R: Fn(&Tensor) -> Result<Tensor, Error>,
    M: Fn(&Device, DType, &Tensor, &Vec<u32>, Option<usize>, bool) -> Option<Vec<Tensor>>,
    F: Fn(&QMatMul, &QMatMul, &Tensor) -> Result<Option<Tensor>, Error>,

    requires
        forall|prefix: &str, name: &str, dim: usize, rank: usize, world: usize, q: Arc<QTensor>|
            #[trigger] call_ensures(engine.get_sharded, (prefix, name, dim, rank, world), Ok(q))
                ==> can_multiply(qtensor_value(*q)),
        engine.gguf_ends(md, place, compression, kernels, told, Ok(model)),
    ensures
        model.weights_multiply(kv_caches),
{
    let (core, rope, p, heads, base, cfg) = parts_of_a_loaded_model(
        engine,
        md,
        place,
        compression,
        kernels,
        told,
        model,
    );
    let e = choose|e: Result<Arc<E>, Error>| #[trigger]
        engine.rotary_ends(cfg, place.device, e) && match e {
            Err(e) => false,
            Ok(rotary) => engine.are_layers(cfg, place, rotary, p.rms_norm_eps, model.layers@),
        };
    let rotary = e->Ok_0;
    assert forall|i: int| 0 <= i < model.depth(kv_caches) implies #[trigger] model.layers@[
        i
    ].mlp.weights_multiply() by {
        a_loaded_layer_can_be_run(
            engine,
            cfg,
            i as nat,
            place,
            rotary,
            p.rms_norm_eps,
            model.layers@[i],
        );
    }
}

/// Whether a model of the architecture `arch` cannot be loaded without this parameter.
pub open spec fn is_needed(parameter: Seq<char>) -> bool {
    ||| parameter == "attention.head_count"@
    ||| parameter == "attention.head_count_kv"@
    ||| parameter == "embedding_length"@
    ||| parameter == "context_length"@
    ||| parameter == "block_count"@
    ||| parameter == "attention.layer_norm_rms_epsilon"@
}

/// Without one of the parameters that it needs, no model is loaded.
pub proof fn a_model_needs_its_parameters<G, S, H, NF, OF, YF, EF, AF, RF, N, O, E, A, R, M, F>(
    engine: Engine<G, S, H, NF, OF, YF, EF, AF, RF>,
    md: Map<Seq<char>, Value>,
    arch: Seq<char>,
    parameter: Seq<char>,
    place: Placement,
    compression: KvCacheDtype,
    kernels: Kernels<M, F>,
    told: Seq<usize>,
    r: Result<GGUFQWen<N, A, O, R, M, F>, ModelError>,
) where
    G: Fn(Option<&str>, &str) -> Result<Arc<QTensor>, Error>,
    S: Fn(&str, &str, usize, usize, usize) -> Result<Arc<QTensor>, Error>,
    H: Fn(&str) -> bool,
    NF: Fn(Arc<QTensor>, Single) -> Result<N, Error>,
    OF: Fn(&str, usize, DType) -> Result<O, Error>,
    YF: Fn(Config<Real, Ratio>) -> Config<Real, Ratio>,
    EF: Fn(&Config<Real, Ratio>, &Device) -> Result<E, Error>,
    AF: Fn(
        &Config<Real, Ratio>,
        &str,
        &Device,
        DType,
        Arc<E>,
        Option<usize>,
        usize,
        usize,
    ) -> Result<A, Error>,
    RF: Fn() -> R,

    requires
        names_arch(md, arch),
        is_needed(parameter),
        !md.contains_key(arch_key(arch, parameter)),
        engine.gguf_ends(md, place, compression, kernels, told, r),
    ensures
        r is Err,
{
    if r is Ok {
        let (core, rope, p, heads, base, cfg) = parts_of_a_loaded_model(
            engine,
            md,
            place,
            compression,
            kernels,
            told,
            r->Ok_0,
        );
    }
}

/// Metadata that names no architecture is refused with the name of that key.
pub proof fn an_unnamed_architecture_is_reported<
    G,
    S,
    H,
    NF,
    OF,
    YF,
    EF,
    AF,
    RF,
    N,
    O,
    E,
    A,
    R,
    M,
    F,
>(
    engine: Engine<G, S, H, NF, OF, YF, EF, AF, RF>,
    md: Map<Seq<char>, Value>,
    place: Placement,
    compression: KvCacheDtype,
    kernels: Kernels<M, F>,
    told: Seq<usize>,
    r: Result<GGUFQWen<N, A, O, R, M, F>, ModelError>,
) where
    G: Fn(Option<&str>, &str) -> Result<Arc<QTensor>, Error>,
    S: Fn(&str, &str, usize, usize, usize) -> Result<Arc<QTensor>, Error>,
    H: Fn(&str) -> bool,
    NF: Fn(Arc<QTensor>, Single) -> Result<N, Error>,
    OF: Fn(&str, usize, DType) -> Result<O, Error>,
    YF: Fn(Config<Real, Ratio>) -> Config<Real, Ratio>,
    EF: Fn(&Config<Real, Ratio>, &Device) -> Result<E, Error>,
    AF: Fn(
        &Config<Real, Ratio>,
        &str,
        &Device,
        DType,
        Arc<E>,
        Option<usize>,
        usize,
        usize,
    ) -> Result<A, Error>,
    RF: Fn() -> R,

    requires
        !md.contains_key("general.architecture"@),
        engine.gguf_ends(md, place, compression, kernels, told, r),
    ensures
        r matches Err(ModelError::MissingKey(key)) && key@ == "general.architecture"@,
{
}

} // verus!
