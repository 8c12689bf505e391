//! What a loaded model is made of, tensor by tensor and entry by entry.

use crate::config::{Config, KvCacheDtype, Ratio, Real, Single, TokenID};
use crate::error::{lifted, ModelError};
use crate::gguf::{is_base_config, is_made_of, Kernels};
use crate::layer::LayerWeights;
use crate::loader::{Engine, Heads, Placement};
use crate::loading_laws::parts_of_a_loaded_model;
use crate::metadata::{
    is_f32_field, is_u32_field, to_string_may_fail, value_f32_bits, value_text, value_u32, Field,
};
use crate::mlp::Mlp;
use crate::model::GGUFQWen;
use crate::param_laws::{
    a_shape_is_what_the_fields_say, fields_stand_under_the_architecture,
    the_rotary_reach_is_what_the_fields_say,
};
use crate::params::{
    fields_end, reports, true_vocab, CoreFields, CoreParams, RopeFields, RopeParams,
};
use crate::progress::ProgressReporter;
use crate::tensor::{embedding_table, embedding_width, tensor_end};
use crate::text::{decimal, layer_prefix};
use crate::weight::{
    dequantize_ends, dequantize_may_end, qtensor_value, weight_end, weight_ends, weight_may_end,
    weight_value,
};
use candle_core::quantized::gguf_file::Value;
use candle_core::quantized::{QMatMul, QTensor};
use candle_core::{DType, Device, Error, Tensor};
use std::sync::Arc;
use vstd::prelude::*;

verus! {

/// What each step of loading the heads ended in.
pub ghost struct HeadEnds<N, O> {
    /// The tensor of the embedding table.
    pub table_tensor: Result<Arc<QTensor>, Error>,
    /// The embedding table.
    pub table: Result<Tensor, Error>,
    /// The tensor of the final norm.
    pub norm_tensor: Result<Arc<QTensor>, Error>,
    /// The final norm.
    pub norm: Result<N, Error>,
    /// Whether there is a tensor of the projection's own.
    pub own: bool,
    /// The projection.
    pub output: Result<O, Error>,
}

/// What stands before and behind the layers is made of the tensors of these names: the table of
/// `token_embd.weight`, the final norm of `output_norm.weight`, and the projection of
/// `output.weight` where there is one and of the table's tensor otherwise, with as many rows as the
/// table has. It fails with what the first of these fails with, and only then.
pub proof fn what_heads_are_made_of<G, S, H, NF, OF, YF, EF, AF, RF, N, O, E, A, R>(
    engine: Engine<G, S, H, NF, OF, YF, EF, AF, RF>,
    place: Placement,
    eps: Single,
    r: Result<Heads<N, O>, Error>,
) -> (s: HeadEnds<N, O>) where
    G: Fn(Option<&str>, &str) -> Result<Arc<QTensor>, Error>,
    S: Fn(&str, &str, usize, usize, usize) -> Result<Arc<QTensor>, Error>,
    H: Fn(&str) -> bool,
    NF: Fn(Arc<QTensor>, Single) -> Result<N, Error>,
    OF: Fn(&str, usize, DType) -> Result<O, Error>,
    YF: Fn(Config<Real, Ratio>) -> Config<Real, Ratio>,
    EF: Fn(&Config<Real, Ratio>, &Device) -> Result<E, Error>,
    AF: Fn(
        &Config<Real, Ratio>,
        &str,
        &Device,
        DType,
        Arc<E>,
        Option<usize>,
        usize,
        usize,
    ) -> Result<A, Error>,
    RF: Fn() -> R,

    requires
        engine.heads_end(place, eps, r),
    ensures
        call_ensures(engine.get, (None, "token_embd.weight"), s.table_tensor),
        match s.table_tensor {
            Err(e) => r == Err::<Heads<N, O>, Error>(e),
            Ok(q) => {
                &&& dequantize_may_end(qtensor_value(*q), place.device, tensor_end(s.table))
                &&& match s.table {
                    Err(e) => r == Err::<Heads<N, O>, Error>(e),
                    Ok(table) => {
                        &&& call_ensures(engine.get, (None, "output_norm.weight"), s.norm_tensor)
                        &&& match s.norm_tensor {
                            Err(e) => r == Err::<Heads<N, O>, Error>(e),
                            Ok(n) => {
                                &&& call_ensures(engine.norm, (n, eps), s.norm)
                                &&& match s.norm {
                                    Err(e) => r == Err::<Heads<N, O>, Error>(e),
                                    Ok(norm) => {
                                        let rows = qtensor_value(*q).dims[0] as usize;
                                        &&& qtensor_value(*q).dims.len() > 0
                                        &&& qtensor_value(*q).dims[0] <= usize::MAX
                                        &&& call_ensures(
                                            engine.contains_key,
                                            ("output.weight",),
                                            s.own,
                                        )
                                        &&& s.own ==> call_ensures(
                                            engine.output,
                                            ("output.weight", rows, place.dtype),
                                            s.output,
                                        )
                                        &&& !s.own ==> call_ensures(
                                            engine.output,
                                            ("token_embd.weight", rows, place.dtype),
                                            s.output,
                                        )
                                        &&& match s.output {
                                            Err(e) => r == Err::<Heads<N, O>, Error>(e),
                                            Ok(output) => r matches Ok(heads) && heads.rows
                                                == qtensor_value(*q).dims[0] && heads.table == table
                                                && heads.norm == norm && heads.output == output,
                                        }
                                    },
                                }
                            },
                        }
                    },
                }
            },
        },
{
    let t = choose|t: Result<(usize, Tensor), Error>| #[trigger]
        engine.table_ends(place.device, t) && match t {
            Err(e) => r == Err::<Heads<N, O>, Error>(e),
            Ok((rows, table)) => exists|n: Result<N, Error>| #[trigger]
                engine.norm_ends(eps, n) && match n {
                    Err(e) => r == Err::<Heads<N, O>, Error>(e),
                    Ok(norm) => exists|o: Result<O, Error>| #[trigger]
                        engine.output_ends(rows, place.dtype, o) && match o {
                            Err(e) => r == Err::<Heads<N, O>, Error>(e),
                            Ok(output) => r == Ok::<Heads<N, O>, Error>(
                                Heads { rows, table, norm, output },
                            ),
                        },
                },
        };
    let q = choose|q: Result<Arc<QTensor>, Error>| #[trigger]
        call_ensures(engine.get, (None, "token_embd.weight"), q) && match q {
            Err(e) => t == Err::<(usize, Tensor), Error>(e),
            Ok(q) => exists|d: Result<Tensor, Error>| #[trigger]
                dequantize_ends(*q, place.device, d) && match d {
                    Err(e) => t == Err::<(usize, Tensor), Error>(e),
                    Ok(d) => t is Ok && t->Ok_0.1 == d && qtensor_value(*q).dims.len() > 0
                        && t->Ok_0.0 == qtensor_value(*q).dims[0],
                },
        };
    let tensor = q->Ok_0;
    let d = choose|d: Result<Tensor, Error>| #[trigger]
        dequantize_ends(*tensor, place.device, d) && match d {
            Err(e) => t == Err::<(usize, Tensor), Error>(e),
            Ok(d) => t is Ok && t->Ok_0.1 == d && qtensor_value(*tensor).dims.len() > 0
                && t->Ok_0.0 == qtensor_value(*tensor).dims[0],
        };
    let (rows, table) = t->Ok_0;
    let n = choose|n: Result<N, Error>| #[trigger]
        engine.norm_ends(eps, n) && match n {
            Err(e) => r == Err::<Heads<N, O>, Error>(e),
            Ok(norm) => exists|o: Result<O, Error>| #[trigger]
                engine.output_ends(rows, place.dtype, o) && match o {
                    Err(e) => r == Err::<Heads<N, O>, Error>(e),
                    Ok(output) => r == Ok::<Heads<N, O>, Error>(
                        Heads { rows, table, norm, output },
                    ),
                },
        };
    let norm_tensor = choose|q: Result<Arc<QTensor>, Error>| #[trigger]
        call_ensures(engine.get, (None, "output_norm.weight"), q) && match q {
            Err(e) => n == Err::<N, Error>(e),
            Ok(q) => call_ensures(engine.norm, (q, eps), n),
        };
    let norm = n->Ok_0;
    let o = choose|o: Result<O, Error>| #[trigger]
        engine.output_ends(rows, place.dtype, o) && match o {
            Err(e) => r == Err::<Heads<N, O>, Error>(e),
            Ok(output) => r == Ok::<Heads<N, O>, Error>(Heads { rows, table, norm, output }),
        };
    let own = choose|own: bool| #[trigger]
        call_ensures(engine.contains_key, ("output.weight",), own) && if own {
            call_ensures(engine.output, ("output.weight", rows, place.dtype), o)
        } else {
            call_ensures(engine.output, ("token_embd.weight", rows, place.dtype), o)
        };
    HeadEnds { table_tensor: q, table: d, norm_tensor, norm: n, own, output: o }
}

/// What each step of loading a layer ended in.
pub ghost struct LayerSource<N, A> {
    /// The prefix of its tensors.
    pub prefix: &'static str,
    pub gate_tensor: Result<Arc<QTensor>, Error>,
    pub down_tensor: Result<Arc<QTensor>, Error>,
    pub up_tensor: Result<Arc<QTensor>, Error>,
    pub gate: Result<QMatMul, Error>,
    pub down: Result<QMatMul, Error>,
    pub up: Result<QMatMul, Error>,
    pub attention_norm_tensor: Result<Arc<QTensor>, Error>,
    pub ffn_norm_tensor: Result<Arc<QTensor>, Error>,
    pub attention: Result<A, Error>,
    pub attention_norm: Result<N, Error>,
    pub ffn_norm: Result<N, Error>,
}

/// A loaded layer is made of the tensors under its own number: gating of `ffn_gate.weight` and the
/// way up of `ffn_up.weight`, this rank's share of each cut along the rows, the way down of
/// `ffn_down.weight`, cut along the columns, the norm before the attention of `attn_norm.weight`
/// and that before the feed-forward block of `ffn_norm.weight`, and the attention that the engine
/// makes for this number. It fails with what the first of these fails with, and only then.
pub proof fn what_a_loaded_layer_is_made_of<G, S, H, NF, OF, YF, EF, AF, RF, N, O, E, A, R>(
    engine: Engine<G, S, H, NF, OF, YF, EF, AF, RF>,
    cfg: Config<Real, Ratio>,
    index: nat,
    place: Placement,
    rotary: Arc<E>,
    eps: Single,
    r: Result<LayerWeights<N, A, R>, Error>,
) -> (s: LayerSource<N, A>) where
    G: Fn(Option<&str>, &str) -> Result<Arc<QTensor>, Error>,
    S: Fn(&str, &str, usize, usize, usize) -> Result<Arc<QTensor>, Error>,
    H: Fn(&str) -> bool,
    NF: Fn(Arc<QTensor>, Single) -> Result<N, Error>,
    OF: Fn(&str, usize, DType) -> Result<O, Error>,
    YF: Fn(Config<Real, Ratio>) -> Config<Real, Ratio>,
    EF: Fn(&Config<Real, Ratio>, &Device) -> Result<E, Error>,
    AF: Fn(
        &Config<Real, Ratio>,
        &str,
        &Device,
        DType,
        Arc<E>,
        Option<usize>,
        usize,
        usize,
    ) -> Result<A, Error>,
    RF: Fn() -> R,

    requires
        engine.layer_ends(cfg, index, place, rotary, eps, r),
    ensures
        s.prefix@ == "blk."@ + decimal(index),
        ({
            let (rank, world) = (place.rank, place.world_size);
            let shared = s.gate_tensor is Ok && s.down_tensor is Ok && s.up_tensor is Ok;
            let weighed = shared && s.gate is Ok && s.down is Ok && s.up is Ok;
            let found = weighed && s.attention_norm_tensor is Ok && s.ffn_norm_tensor is Ok;
            &&& call_ensures(
                engine.get_sharded,
                (s.prefix, "ffn_gate.weight", 0, rank, world),
                s.gate_tensor,
            )
            &&& s.gate_tensor is Ok ==> call_ensures(
                engine.get_sharded,
                (s.prefix, "ffn_down.weight", 1, rank, world),
                s.down_tensor,
            )
            &&& s.gate_tensor is Ok && s.down_tensor is Ok ==> call_ensures(
                engine.get_sharded,
                (s.prefix, "ffn_up.weight", 0, rank, world),
                s.up_tensor,
            )
            &&& shared ==> weight_may_end(qtensor_value(*s.gate_tensor->Ok_0), weight_end(s.gate))
            &&& shared && s.gate is Ok ==> weight_may_end(
                qtensor_value(*s.down_tensor->Ok_0),
                weight_end(s.down),
            )
            &&& shared && s.gate is Ok && s.down is Ok ==> weight_may_end(
                qtensor_value(*s.up_tensor->Ok_0),
                weight_end(s.up),
            )
            &&& weighed ==> call_ensures(
                engine.get,
                (Some(s.prefix), "attn_norm.weight"),
                s.attention_norm_tensor,
            )
            &&& weighed && s.attention_norm_tensor is Ok ==> call_ensures(
                engine.get,
                (Some(s.prefix), "ffn_norm.weight"),
                s.ffn_norm_tensor,
            )
            &&& found ==> call_ensures(
                engine.attention,
                (
                    &cfg,
                    s.prefix,
                    &place.device,
                    place.dtype,
                    rotary,
                    cfg.sliding_window,
                    rank,
                    world,
                ),
                s.attention,
            )
            &&& found && s.attention is Ok ==> call_ensures(
                engine.norm,
                (s.attention_norm_tensor->Ok_0, eps),
                s.attention_norm,
            )
            &&& found && s.attention is Ok && s.attention_norm is Ok ==> call_ensures(
                engine.norm,
                (s.ffn_norm_tensor->Ok_0, eps),
                s.ffn_norm,
            )
            &&& match r {
                Ok(layer) => {
                    &&& found && s.attention is Ok && s.attention_norm is Ok && s.ffn_norm is Ok
                    &&& layer.mlp.feed_forward_w1 == s.gate->Ok_0
                    &&& layer.mlp.feed_forward_w2 == s.down->Ok_0
                    &&& layer.mlp.feed_forward_w3 == s.up->Ok_0
                    &&& weight_value(layer.mlp.feed_forward_w1).dims == qtensor_value(
                        *s.gate_tensor->Ok_0,
                    ).dims
                    &&& weight_value(layer.mlp.feed_forward_w2).dims == qtensor_value(
                        *s.down_tensor->Ok_0,
                    ).dims
                    &&& weight_value(layer.mlp.feed_forward_w3).dims == qtensor_value(
                        *s.up_tensor->Ok_0,
                    ).dims
                    &&& layer.mlp.dtype == place.dtype
                    &&& layer.mlp.all_reduce is Some == (place.nccl && place.world_size > 1)
                    &&& layer.mlp.all_reduce matches Some(f) ==> call_ensures(
                        engine.all_reduce,
                        (),
                        f,
                    )
                    &&& layer.self_attn == s.attention->Ok_0
                    &&& layer.attention_norm == s.attention_norm->Ok_0
                    &&& layer.ffn_norm == s.ffn_norm->Ok_0
                },
                Err(e) => {
                    ||| s.gate_tensor == Err::<Arc<QTensor>, Error>(e)
                    ||| s.gate_tensor is Ok && s.down_tensor == Err::<Arc<QTensor>, Error>(e)
                    ||| s.gate_tensor is Ok && s.down_tensor is Ok && s.up_tensor == Err::<
                        Arc<QTensor>,
                        Error,
                    >(e)
                    ||| shared && s.gate == Err::<QMatMul, Error>(e)
                    ||| shared && s.gate is Ok && s.down == Err::<QMatMul, Error>(e)
                    ||| shared && s.gate is Ok && s.down is Ok && s.up == Err::<QMatMul, Error>(e)
                    ||| weighed && s.attention_norm_tensor == Err::<Arc<QTensor>, Error>(e)
                    ||| weighed && s.attention_norm_tensor is Ok && s.ffn_norm_tensor == Err::<
                        Arc<QTensor>,
                        Error,
                    >(e)
                    ||| found && s.attention == Err::<A, Error>(e)
                    ||| found && s.attention is Ok && s.attention_norm == Err::<N, Error>(e)
                    ||| found && s.attention is Ok && s.attention_norm is Ok && s.ffn_norm == Err::<
                        N,
                        Error,
                    >(e)
                },
            }
        }),
{
    let prefix = choose|prefix: &str| #[trigger]
        engine.layer_under_ends(cfg, prefix, place, rotary, eps, r) && prefix@ == layer_prefix(
            index,
        );
    let m = choose|m: Result<Mlp<R>, Error>| #[trigger]
        engine.mlp_ends(prefix, place, m) && match m {
            Err(e) => r == Err::<LayerWeights<N, A, R>, Error>(e),
            Ok(mlp) => exists|b: Result<(A, N, N), Error>| #[trigger]
                engine.blocks_end(cfg, prefix, place, rotary, eps, b) && match b {
                    Err(e) => r == Err::<LayerWeights<N, A, R>, Error>(e),
                    Ok((self_attn, attention_norm, ffn_norm)) => r == Ok::<
                        LayerWeights<N, A, R>,
                        Error,
                    >(LayerWeights { self_attn, attention_norm, mlp, ffn_norm }),
                },
        };
    let q = choose|q: Result<(Arc<QTensor>, Arc<QTensor>, Arc<QTensor>), Error>| #[trigger]
        engine.shares_end(prefix, place, q) && match q {
            Err(e) => m == Err::<Mlp<R>, Error>(e),
            Ok((q1, q2, q3)) => exists|w1: Result<QMatMul, Error>| #[trigger]
                weight_ends(*q1, w1) && match w1 {
                    Err(e) => m == Err::<Mlp<R>, Error>(e),
                    Ok(w1) => exists|w2: Result<QMatMul, Error>| #[trigger]
                        weight_ends(*q2, w2) && match w2 {
                            Err(e) => m == Err::<Mlp<R>, Error>(e),
                            Ok(w2) => exists|w3: Result<QMatMul, Error>| #[trigger]
                                weight_ends(*q3, w3) && match w3 {
                                    Err(e) => m == Err::<Mlp<R>, Error>(e),
                                    Ok(w3) => m is Ok && engine.is_mlp(
                                        w1,
                                        w2,
                                        w3,
                                        place,
                                        m->Ok_0,
                                    ),
                                },
                        },
                },
        };
    let (gate_tensor, down_tensor, up_tensor) = ends_of_the_shares(engine, prefix, place, q);
    let (q1, q2, q3) = q->Ok_0;
    let w1 = choose|w1: Result<QMatMul, Error>| #[trigger]
        weight_ends(*q1, w1) && match w1 {
            Err(e) => m == Err::<Mlp<R>, Error>(e),
            Ok(w1) => exists|w2: Result<QMatMul, Error>| #[trigger]
                weight_ends(*q2, w2) && match w2 {
                    Err(e) => m == Err::<Mlp<R>, Error>(e),
                    Ok(w2) => exists|w3: Result<QMatMul, Error>| #[trigger]
                        weight_ends(*q3, w3) && match w3 {
                            Err(e) => m == Err::<Mlp<R>, Error>(e),
                            Ok(w3) => m is Ok && engine.is_mlp(w1, w2, w3, place, m->Ok_0),
                        },
                },
        };
    let gate = w1->Ok_0;
    let w2 = choose|w2: Result<QMatMul, Error>| #[trigger]
        weight_ends(*q2, w2) && match w2 {
            Err(e) => m == Err::<Mlp<R>, Error>(e),
            Ok(w2) => exists|w3: Result<QMatMul, Error>| #[trigger]
                weight_ends(*q3, w3) && match w3 {
                    Err(e) => m == Err::<Mlp<R>, Error>(e),
                    Ok(w3) => m is Ok && engine.is_mlp(gate, w2, w3, place, m->Ok_0),
                },
        };
    let down = w2->Ok_0;
    let w3 = choose|w3: Result<QMatMul, Error>| #[trigger]
        weight_ends(*q3, w3) && match w3 {
            Err(e) => m == Err::<Mlp<R>, Error>(e),
            Ok(w3) => m is Ok && engine.is_mlp(gate, down, w3, place, m->Ok_0),
        };
    let mlp = m->Ok_0;
    let b = choose|b: Result<(A, N, N), Error>| #[trigger]
        engine.blocks_end(cfg, prefix, place, rotary, eps, b) && match b {
            Err(e) => r == Err::<LayerWeights<N, A, R>, Error>(e),
            Ok((self_attn, attention_norm, ffn_norm)) => r == Ok::<LayerWeights<N, A, R>, Error>(
                LayerWeights { self_attn, attention_norm, mlp, ffn_norm },
            ),
        };
    let qa = choose|qa: Result<Arc<QTensor>, Error>| #[trigger]
        call_ensures(engine.get, (Some(prefix), "attn_norm.weight"), qa) && match qa {
            Err(e) => b == Err::<(A, N, N), Error>(e),
            Ok(qa) => exists|qf: Result<Arc<QTensor>, Error>| #[trigger]
                call_ensures(engine.get, (Some(prefix), "ffn_norm.weight"), qf) && match qf {
                    Err(e) => b == Err::<(A, N, N), Error>(e),
                    Ok(qf) => engine.blocks_of_end(cfg, prefix, place, rotary, eps, qa, qf, b),
                },
        };
    let before = qa->Ok_0;
    let qf = choose|qf: Result<Arc<QTensor>, Error>| #[trigger]
        call_ensures(engine.get, (Some(prefix), "ffn_norm.weight"), qf) && match qf {
            Err(e) => b == Err::<(A, N, N), Error>(e),
            Ok(qf) => engine.blocks_of_end(cfg, prefix, place, rotary, eps, before, qf, b),
        };
    let (attention, attention_norm, ffn_norm) = ends_of_the_blocks(
        engine,
        cfg,
        prefix,
        place,
        rotary,
        eps,
        before,
        qf->Ok_0,
        b,
    );
    LayerSource {
        prefix,
        gate_tensor,
        down_tensor,
        up_tensor,
        gate: w1,
        down: w2,
        up: w3,
        attention_norm_tensor: qa,
        ffn_norm_tensor: qf,
        attention,
        attention_norm,
        ffn_norm,
    }
}

/// What taking each share of a feed-forward block's tensors ended in.
proof fn ends_of_the_shares<G, S, H, NF, OF, YF, EF, AF, RF, N, O, E, A, R>(
    engine: Engine<G, S, H, NF, OF, YF, EF, AF, RF>,
    prefix: &str,
    place: Placement,
    r: Result<(Arc<QTensor>, Arc<QTensor>, Arc<QTensor>), Error>,
) -> (s: (Result<Arc<QTensor>, Error>, Result<Arc<QTensor>, Error>, Result<Arc<QTensor>, Error>))
    where
    G: Fn(Option<&str>, &str) -> Result<Arc<QTensor>, Error>,
    S: Fn(&str, &str, usize, usize, usize) -> Result<Arc<QTensor>, Error>,
    H: Fn(&str) -> bool,
    NF: Fn(Arc<QTensor>, Single) -> Result<N, Error>,
    OF: Fn(&str, usize, DType) -> Result<O, Error>,
    YF: Fn(Config<Real, Ratio>) -> Config<Real, Ratio>,
    EF: Fn(&Config<Real, Ratio>, &Device) -> Result<E, Error>,
    AF: Fn(
        &Config<Real, Ratio>,
        &str,
        &Device,
        DType,
        Arc<E>,
        Option<usize>,
        usize,
        usize,
    ) -> Result<A, Error>,
    RF: Fn() -> R,

    requires
        engine.shares_end(prefix, place, r),
    ensures
        ({
            let (rank, world) = (place.rank, place.world_size);
            &&& call_ensures(engine.get_sharded, (prefix, "ffn_gate.weight", 0, rank, world), s.0)
            &&& s.0 is Ok ==> call_ensures(
                engine.get_sharded,
                (prefix, "ffn_down.weight", 1, rank, world),
                s.1,
            )
            &&& s.0 is Ok && s.1 is Ok ==> call_ensures(
                engine.get_sharded,
                (prefix, "ffn_up.weight", 0, rank, world),
                s.2,
            )
            &&& r is Ok ==> s.0 is Ok && s.1 is Ok && s.2 is Ok && r->Ok_0 == (
                s.0->Ok_0,
                s.1->Ok_0,
                s.2->Ok_0,
            )
            &&& r matches Err(e) ==> {
                ||| s.0 == Err::<Arc<QTensor>, Error>(e)
                ||| s.0 is Ok && s.1 == Err::<Arc<QTensor>, Error>(e)
                ||| s.0 is Ok && s.1 is Ok && s.2 == Err::<Arc<QTensor>, Error>(e)
            }
        }),
{
    let (rank, world) = (place.rank, place.world_size);
    let w1 = choose|w1: Result<Arc<QTensor>, Error>| #[trigger]
        call_ensures(engine.get_sharded, (prefix, "ffn_gate.weight", 0, rank, world), w1)
            && match w1 {
            Err(e) => r == Err::<(Arc<QTensor>, Arc<QTensor>, Arc<QTensor>), Error>(e),
            Ok(w1) => exists|w2: Result<Arc<QTensor>, Error>| #[trigger]
                call_ensures(engine.get_sharded, (prefix, "ffn_down.weight", 1, rank, world), w2)
                    && match w2 {
                    Err(e) => r == Err::<(Arc<QTensor>, Arc<QTensor>, Arc<QTensor>), Error>(e),
                    Ok(w2) => exists|w3: Result<Arc<QTensor>, Error>| #[trigger]
                        call_ensures(
                            engine.get_sharded,
                            (prefix, "ffn_up.weight", 0, rank, world),
                            w3,
                        ) && match w3 {
                            Err(e) => r == Err::<
                                (Arc<QTensor>, Arc<QTensor>, Arc<QTensor>),
                                Error,
                            >(e),
                            Ok(w3) => r == Ok::<
                                (Arc<QTensor>, Arc<QTensor>, Arc<QTensor>),
                                Error,
                            >((w1, w2, w3)),
                        },
                },
        };
    let a = w1->Ok_0;
    let w2 = choose|w2: Result<Arc<QTensor>, Error>| #[trigger]
        call_ensures(engine.get_sharded, (prefix, "ffn_down.weight", 1, rank, world), w2)
            && match w2 {
            Err(e) => r == Err::<(Arc<QTensor>, Arc<QTensor>, Arc<QTensor>), Error>(e),
            Ok(w2) => exists|w3: Result<Arc<QTensor>, Error>| #[trigger]
                call_ensures(engine.get_sharded, (prefix, "ffn_up.weight", 0, rank, world), w3)
                    && match w3 {
                    Err(e) => r == Err::<(Arc<QTensor>, Arc<QTensor>, Arc<QTensor>), Error>(e),
                    Ok(w3) => r == Ok::<(Arc<QTensor>, Arc<QTensor>, Arc<QTensor>), Error>(
                        (a, w2, w3),
                    ),
                },
        };
    let b = w2->Ok_0;
    let w3 = choose|w3: Result<Arc<QTensor>, Error>| #[trigger]
        call_ensures(engine.get_sharded, (prefix, "ffn_up.weight", 0, rank, world), w3)
            && match w3 {
            Err(e) => r == Err::<(Arc<QTensor>, Arc<QTensor>, Arc<QTensor>), Error>(e),
            Ok(w3) => r == Ok::<(Arc<QTensor>, Arc<QTensor>, Arc<QTensor>), Error>((a, b, w3)),
        };
    (w1, w2, w3)
}

/// What making a layer's attention and its norms ended in.
proof fn ends_of_the_blocks<G, S, H, NF, OF, YF, EF, AF, RF, N, O, E, A, R>(
    engine: Engine<G, S, H, NF, OF, YF, EF, AF, RF>,
    cfg: Config<Real, Ratio>,
    prefix: &str,
    place: Placement,
    rotary: Arc<E>,
    eps: Single,
    qa: Arc<QTensor>,
    qf: Arc<QTensor>,
    r: Result<(A, N, N), Error>,
) -> (s: (Result<A, Error>, Result<N, Error>, Result<N, Error>)) where
    G: Fn(Option<&str>, &str) -> Result<Arc<QTensor>, Error>,
    S: Fn(&str, &str, usize, usize, usize) -> Result<Arc<QTensor>, Error>,
    H: Fn(&str) -> bool,
    NF: Fn(Arc<QTensor>, Single) -> Result<N, Error>,
    OF: Fn(&str, usize, DType) -> Result<O, Error>,
    YF: Fn(Config<Real, Ratio>) -> Config<Real, Ratio>,
    EF: Fn(&Config<Real, Ratio>, &Device) -> Result<E, Error>,
    AF: Fn(
        &Config<Real, Ratio>,
        &str,
        &Device,
        DType,
        Arc<E>,
        Option<usize>,
        usize,
        usize,
    ) -> Result<A, Error>,
    RF: Fn() -> R,

    ensures
        engine.blocks_of_end(cfg, prefix, place, rotary, eps, qa, qf, r) ==> {
            &&& call_ensures(
                engine.attention,
                (
                    &cfg,
                    prefix,
                    &place.device,
                    place.dtype,
                    rotary,
                    cfg.sliding_window,
                    place.rank,
                    place.world_size,
                ),
                s.0,
            )
            &&& s.0 is Ok ==> call_ensures(engine.norm, (qa, eps), s.1)
            &&& s.0 is Ok && s.1 is Ok ==> call_ensures(engine.norm, (qf, eps), s.2)
            &&& r is Ok ==> s.0 is Ok && s.1 is Ok && s.2 is Ok && r->Ok_0 == (
                s.0->Ok_0,
                s.1->Ok_0,
                s.2->Ok_0,
            )
            &&& r matches Err(e) ==> {
                ||| s.0 == Err::<A, Error>(e)
                ||| s.0 is Ok && s.1 == Err::<N, Error>(e)
                ||| s.0 is Ok && s.1 is Ok && s.2 == Err::<N, Error>(e)
            }
        },
{
    let a = choose|a: Result<A, Error>| #[trigger]
        call_ensures(
            engine.attention,
            (
                &cfg,
                prefix,
                &place.device,
                place.dtype,
                rotary,
                cfg.sliding_window,
                place.rank,
                place.world_size,
            ),
            a,
        ) && match a {
            Err(e) => r == Err::<(A, N, N), Error>(e),
            Ok(a) => exists|na: Result<N, Error>| #[trigger]
                call_ensures(engine.norm, (qa, eps), na) && match na {
                    Err(e) => r == Err::<(A, N, N), Error>(e),
                    Ok(na) => exists|nf: Result<N, Error>| #[trigger]
                        call_ensures(engine.norm, (qf, eps), nf) && match nf {
                            Err(e) => r == Err::<(A, N, N), Error>(e),
                            Ok(nf) => r == Ok::<(A, N, N), Error>((a, na, nf)),
                        },
                },
        };
    let attention = a->Ok_0;
    let na = choose|na: Result<N, Error>| #[trigger]
        call_ensures(engine.norm, (qa, eps), na) && match na {
            Err(e) => r == Err::<(A, N, N), Error>(e),
            Ok(na) => exists|nf: Result<N, Error>| #[trigger]
                call_ensures(engine.norm, (qf, eps), nf) && match nf {
                    Err(e) => r == Err::<(A, N, N), Error>(e),
                    Ok(nf) => r == Ok::<(A, N, N), Error>((attention, na, nf)),
                },
        };
    let norm = na->Ok_0;
    let nf = choose|nf: Result<N, Error>| #[trigger]
        call_ensures(engine.norm, (qf, eps), nf) && match nf {
            Err(e) => r == Err::<(A, N, N), Error>(e),
            Ok(nf) => r == Ok::<(A, N, N), Error>((attention, norm, nf)),
        };
    (a, na, nf)
}

/// What every Qwen model is configured with, and what none is.
pub proof fn a_qwen_configuration_has_its_constants<D, S>(cfg: Config<D, S>)
    requires
        cfg.has_qwen_constants(),
        cfg.has_no_extras(),
    ensures
        cfg.architectures is Some,
        cfg.architectures->Some_0@.len() == 1,
        cfg.architectures->Some_0@[0]@ == "qwen"@,
        cfg.bos_token_id == Some(TokenID::Single(Some(151644))),
        cfg.eos_token_id == Some(TokenID::Single(Some(151645))),
        cfg.attention_bias == Some(false),
        !cfg.tie_word_embeddings,
        !cfg.qk_layernorm,
        !cfg.is_f16_mode,
        cfg.rope_local_base_freq is None,
        cfg.sliding_window is None,
        cfg.sliding_window_pattern is None,
        cfg.hidden_act is None,
        cfg.hidden_activation is None,
        cfg.rope_scaling is None,
        cfg.use_qkv_bias is None,
        cfg.custom_stop_tokens is None,
        cfg.attn_logit_softcapping is None,
        cfg.final_logit_softcapping is None,
        cfg.quantization_config is None,
        cfg.moe_config is None,
        cfg.isq_quant is None,
        cfg.extra_config_json is None,
{
}

/// The configuration of a decoder holds its hyperparameters, one by one, the size of its vocabulary
/// and the compression that was asked for.
pub proof fn a_configuration_holds_the_hyperparameters(
    cfg: Config<Real, Ratio>,
    p: CoreParams,
    rope: RopeParams,
    vocab: nat,
    compression: KvCacheDtype,
)
    requires
        is_base_config(cfg, p, rope, vocab, compression),
    ensures
        cfg.has_qwen_constants(),
        cfg.has_no_extras(),
        cfg.hidden_size == p.embedding_length,
        cfg.head_dim == Some(p.head_dim),
        cfg.intermediate_size == 0,
        cfg.vocab_size == vocab,
        cfg.num_hidden_layers == p.block_count,
        cfg.num_attention_heads == p.head_count,
        cfg.num_key_value_heads == Some(p.head_count_kv),
        cfg.rms_norm_eps == Real::Widened(p.rms_norm_eps),
        cfg.rope_theta == Real::Widened(p.rope_freq_base),
        cfg.max_seq_len == p.context_length,
        cfg.max_position_embeddings == Some(p.context_length),
        cfg.original_max_position_embeddings == rope.original_max_position_embeddings,
        cfg.partial_rotary_factor == rope.partial_rotary_factor,
        cfg.kvcache_dtype == compression,
{
}

/// The configuration of a loaded model is what the engine makes, for what was asked for at run
/// time, of one that holds what the metadata says under the name of its architecture, entry by
/// entry: no entry plays a part in what another is read as, but for the length of a head, which is
/// an even share of the embedding where none is given, and the factor of the rotary embedding,
/// which there is only where another number of dimensions than a head has is rotated.
pub proof fn a_loaded_configuration_holds_the_metadata<
    G,
    S,
    H,
    NF,
    OF,
    YF,
    EF,
    AF,
    RF,
    N,
    O,
    E,
    A,
    R,
    M,
    F,
    PF,
>(
    engine: Engine<G, S, H, NF, OF, YF, EF, AF, RF>,
    md: Map<Seq<char>, Value>,
    place: Placement,
    compression: KvCacheDtype,
    kernels: Kernels<M, F>,
    before: ProgressReporter<PF>,
    after: ProgressReporter<PF>,
    model: GGUFQWen<N, A, O, R, M, F>,
) -> (base: Config<Real, Ratio>) where
    G: Fn(Option<&str>, &str) -> Result<Arc<QTensor>, Error>,
    S: Fn(&str, &str, usize, usize, usize) -> Result<Arc<QTensor>, Error>,
    H: Fn(&str) -> bool,
    NF: Fn(Arc<QTensor>, Single) -> Result<N, Error>,
    OF: Fn(&str, usize, DType) -> Result<O, Error>,
    YF: Fn(Config<Real, Ratio>) -> Config<Real, Ratio>,
    EF: Fn(&Config<Real, Ratio>, &Device) -> Result<E, Error>,
    AF: Fn(
        &Config<Real, Ratio>,
        &str,
        &Device,
        DType,
        Arc<E>,
        Option<usize>,
        usize,
        usize,
    ) -> Result<A, Error>,
    RF: Fn() -> R,

    requires
        engine.loads(md, place, compression, kernels, before, after, Ok(model)),
    ensures
        md.contains_key("general.architecture"@),
        value_text(md["general.architecture"@]) is Some,
        call_ensures(engine.rope_overrides, (base,), model.cfg),
        base.has_qwen_constants(),
        base.has_no_extras(),
        base.intermediate_size == 0,
        base.kvcache_dtype == compression,
        ({
            let arch = value_text(md["general.architecture"@])->Some_0;
            let heads = arch + "."@ + "attention.head_count"@;
            let keys = arch + "."@ + "attention.head_count_kv"@;
            let width = arch + "."@ + "embedding_length"@;
            let length = arch + "."@ + "attention.key_length"@;
            let context = arch + "."@ + "context_length"@;
            let blocks = arch + "."@ + "block_count"@;
            let epsilon = arch + "."@ + "attention.layer_norm_rms_epsilon"@;
            let frequency = arch + "."@ + "rope.freq_base"@;
            let original = arch + "."@ + "rope.scaling.original_context_length"@;
            let rotated = arch + "."@ + "rope.dimension_count"@;
            &&& md.contains_key(heads) && value_u32(md[heads]) is Some
            &&& base.num_attention_heads == value_u32(md[heads])->Some_0
            &&& md.contains_key(keys) && value_u32(md[keys]) is Some
            &&& base.num_key_value_heads is Some
            &&& base.num_key_value_heads->Some_0 == value_u32(md[keys])->Some_0
            &&& md.contains_key(width) && value_u32(md[width]) is Some
            &&& base.hidden_size == value_u32(md[width])->Some_0
            &&& base.head_dim is Some
            &&& md.contains_key(length) ==> value_u32(md[length]) is Some
                && base.head_dim->Some_0 == value_u32(md[length])->Some_0
            &&& !md.contains_key(length) && base.num_attention_heads > 0 ==> base.head_dim->Some_0
                * base.num_attention_heads <= base.hidden_size && base.hidden_size < (
            base.head_dim->Some_0 + 1) * base.num_attention_heads
            &&& md.contains_key(context) && value_u32(md[context]) is Some
            &&& base.max_seq_len == value_u32(md[context])->Some_0
            &&& base.max_position_embeddings == Some(base.max_seq_len)
            &&& md.contains_key(blocks) && value_u32(md[blocks]) is Some
            &&& base.num_hidden_layers == value_u32(md[blocks])->Some_0
            &&& model.layers@.len() == value_u32(md[blocks])->Some_0
            &&& md.contains_key(epsilon) && value_f32_bits(md[epsilon]) is Some
            &&& base.rms_norm_eps == Real::Widened(
                Single { bits: value_f32_bits(md[epsilon])->Some_0 },
            )
            &&& base.rope_theta == Real::Widened(
                Single {
                    bits: if md.contains_key(frequency) && value_f32_bits(md[frequency]) is Some {
                        value_f32_bits(md[frequency])->Some_0
                    } else {
                        0x461C4000
                    },
                },
            )
            &&& base.original_max_position_embeddings is Some == md.contains_key(original)
            &&& md.contains_key(original) ==> value_u32(md[original]) is Some
                && base.original_max_position_embeddings->Some_0 == value_u32(
                md[original],
            )->Some_0
            &&& md.contains_key(rotated) ==> value_u32(md[rotated]) is Some
            &&& base.partial_rotary_factor is Some == (md.contains_key(rotated) && value_u32(
                md[rotated],
            )->Some_0 != base.head_dim->Some_0)
            &&& base.partial_rotary_factor is Some ==> base.partial_rotary_factor->Some_0.num
                == value_u32(md[rotated])->Some_0 && base.partial_rotary_factor->Some_0.den
                == base.head_dim->Some_0
            &&& base.vocab_size == if arch == "qwen3"@ {
                151936
            } else {
                embedding_table(model.tok_embeddings).dims[0]
            }
            &&& model.true_vocab_size == base.vocab_size
            &&& embedding_width(model.tok_embeddings) == value_u32(md[width])->Some_0
        }),
{
    let told = choose|told: Seq<usize>| #[trigger]
        before.hears(told, after) && engine.gguf_ends(
            md,
            place,
            compression,
            kernels,
            told,
            Ok(model),
        );
    let (core, rope, p, heads, base, cfg) = parts_of_a_loaded_model(
        engine,
        md,
        place,
        compression,
        kernels,
        told,
        model,
    );
    fields_stand_under_the_architecture(md, Ok((core, rope)));
    the_rotary_reach_is_what_the_fields_say(rope, p.head_dim, Ok(rope.give(p.head_dim)));
    a_configuration_holds_the_hyperparameters(
        base,
        p,
        rope.give(p.head_dim),
        true_vocab(p.arch@, heads.rows as nat),
        compression,
    );
    let h = what_heads_are_made_of(engine, place, p.rms_norm_eps, Ok(heads));
    if core.head_count->Found_0 != 0 || core.key_length !is Missing {
        a_shape_is_what_the_fields_say(core, Ok(p));
    }
    base
}

/// What a loaded model was made of.
pub ghost struct ModelSource<N, O, E, A> {
    /// The epsilon of its norms.
    pub eps: Single,
    /// What stands before and behind its layers.
    pub heads: HeadEnds<N, O>,
    /// The rotary embedding.
    pub rotary: Arc<E>,
    /// Its layers.
    pub layers: Seq<LayerSource<N, A>>,
}

/// A loaded model is made of the tensors of the file, each in its place: the table of
/// `token_embd.weight`, the final norm of `output_norm.weight`, the projection of `output.weight`
/// or of the table's tensor, and every layer of the tensors under its own number. All norms share
/// one epsilon, which the metadata holds, and all layers one rotary embedding, which is made for
/// the model's configuration. The kernels are those that were handed in, and the reporter was told
/// one layer after the other, behind what it was told before.
pub proof fn what_a_loaded_model_is_made_of<
    G,
    S,
    H,
    NF,
    OF,
    YF,
    EF,
    AF,
    RF,
    N,
    O,
    E,
    A,
    R,
    M,
    F,
    PF,
>(
    engine: Engine<G, S, H, NF, OF, YF, EF, AF, RF>,
    md: Map<Seq<char>, Value>,
    place: Placement,
    compression: KvCacheDtype,
    kernels: Kernels<M, F>,
    before: ProgressReporter<PF>,
    after: ProgressReporter<PF>,
    model: GGUFQWen<N, A, O, R, M, F>,
) -> (s: ModelSource<N, O, E, A>) where
    G: Fn(Option<&str>, &str) -> Result<Arc<QTensor>, Error>,
    S: Fn(&str, &str, usize, usize, usize) -> Result<Arc<QTensor>, Error>,
    H: Fn(&str) -> bool,
    NF: Fn(Arc<QTensor>, Single) -> Result<N, Error>,
    OF: Fn(&str, usize, DType) -> Result<O, Error>,
    YF: Fn(Config<Real, Ratio>) -> Config<Real, Ratio>,
    EF: Fn(&Config<Real, Ratio>, &Device) -> Result<E, Error>,
    AF: Fn(
        &Config<Real, Ratio>,
        &str,
        &Device,
        DType,
        Arc<E>,
        Option<usize>,
        usize,
        usize,
    ) -> Result<A, Error>,
    RF: Fn() -> R,

    requires
        engine.loads(md, place, compression, kernels, before, after, Ok(model)),
    ensures
        ({
            let arch = value_text(md["general.architecture"@])->Some_0;
            let epsilon = arch + "."@ + "attention.layer_norm_rms_epsilon"@;
            &&& md.contains_key(epsilon)
            &&& value_f32_bits(md[epsilon]) == Some(s.eps.bits)
        }),
        call_ensures(engine.get, (None, "token_embd.weight"), s.heads.table_tensor),
        s.heads.table_tensor is Ok,
        dequantize_may_end(
            qtensor_value(*s.heads.table_tensor->Ok_0),
            place.device,
            Ok(embedding_table(model.tok_embeddings)),
        ),
        call_ensures(engine.get, (None, "output_norm.weight"), s.heads.norm_tensor),
        s.heads.norm_tensor is Ok,
        call_ensures(engine.norm, (s.heads.norm_tensor->Ok_0, s.eps), Ok(model.norm)),
        call_ensures(engine.contains_key, ("output.weight",), s.heads.own),
        qtensor_value(*s.heads.table_tensor->Ok_0).dims.len() > 0,
        qtensor_value(*s.heads.table_tensor->Ok_0).dims[0] <= usize::MAX,
        s.heads.own ==> call_ensures(
            engine.output,
            (
                "output.weight",
                qtensor_value(*s.heads.table_tensor->Ok_0).dims[0] as usize,
                place.dtype,
            ),
            Ok(model.output),
        ),
        !s.heads.own ==> call_ensures(
            engine.output,
            (
                "token_embd.weight",
                qtensor_value(*s.heads.table_tensor->Ok_0).dims[0] as usize,
                place.dtype,
            ),
            Ok(model.output),
        ),
        call_ensures(engine.rotary, (&model.cfg, &place.device), Ok(*s.rotary)),
        model.device == place.device,
        model.dtype == place.dtype,
        model.mask == kernels.mask,
        model.fused == kernels.fused,
        model.fused_glu == kernels.fused_glu,
        after.listener() == before.listener(),
        after.told() == before.told() + Seq::new(model.layers@.len(), |i: int| (i + 1) as usize),
        s.layers.len() == model.layers@.len(),
        forall|i: int| #![trigger s.layers[i]] 0 <= i < s.layers.len() ==> {
            &&& s.layers[i].prefix@ == "blk."@ + decimal(i as nat)
            &&& call_ensures(
                engine.get_sharded,
                (s.layers[i].prefix, "ffn_gate.weight", 0, place.rank, place.world_size),
                s.layers[i].gate_tensor,
            )
            &&& call_ensures(
                engine.get_sharded,
                (s.layers[i].prefix, "ffn_down.weight", 1, place.rank, place.world_size),
                s.layers[i].down_tensor,
            )
            &&& call_ensures(
                engine.get_sharded,
                (s.layers[i].prefix, "ffn_up.weight", 0, place.rank, place.world_size),
                s.layers[i].up_tensor,
            )
            &&& s.layers[i].gate_tensor is Ok
            &&& s.layers[i].down_tensor is Ok
            &&& s.layers[i].up_tensor is Ok
            &&& weight_may_end(
                qtensor_value(*s.layers[i].gate_tensor->Ok_0),
                Ok(weight_value(model.layers@[i].mlp.feed_forward_w1)),
            )
            &&& weight_may_end(
                qtensor_value(*s.layers[i].down_tensor->Ok_0),
                Ok(weight_value(model.layers@[i].mlp.feed_forward_w2)),
            )
            &&& weight_may_end(
                qtensor_value(*s.layers[i].up_tensor->Ok_0),
                Ok(weight_value(model.layers@[i].mlp.feed_forward_w3)),
            )
            &&& model.layers@[i].mlp.dtype == place.dtype
            &&& model.layers@[i].mlp.all_reduce is Some == (place.nccl && place.world_size > 1)
            &&& model.layers@[i].mlp.all_reduce matches Some(f) ==> call_ensures(
                engine.all_reduce,
                (),
                f,
            )
            &&& call_ensures(
                engine.get,
                (Some(s.layers[i].prefix), "attn_norm.weight"),
                s.layers[i].attention_norm_tensor,
            )
            &&& call_ensures(
                engine.get,
                (Some(s.layers[i].prefix), "ffn_norm.weight"),
                s.layers[i].ffn_norm_tensor,
            )
            &&& s.layers[i].attention_norm_tensor is Ok && s.layers[i].ffn_norm_tensor is Ok
            &&& call_ensures(
                engine.norm,
                (s.layers[i].attention_norm_tensor->Ok_0, s.eps),
                Ok(model.layers@[i].attention_norm),
            )
            &&& call_ensures(
                engine.norm,
                (s.layers[i].ffn_norm_tensor->Ok_0, s.eps),
                Ok(model.layers@[i].ffn_norm),
            )
            &&& call_ensures(
                engine.attention,
                (
                    &model.cfg,
                    s.layers[i].prefix,
                    &place.device,
                    place.dtype,
                    s.rotary,
                    model.cfg.sliding_window,
                    place.rank,
                    place.world_size,
                ),
                Ok(model.layers@[i].self_attn),
            )
        },
{
    let told = choose|told: Seq<usize>| #[trigger]
        before.hears(told, after) && engine.gguf_ends(
            md,
            place,
            compression,
            kernels,
            told,
            Ok(model),
        );
    let (core, rope, p, heads, base, cfg) = parts_of_a_loaded_model(
        engine,
        md,
        place,
        compression,
        kernels,
        told,
        model,
    );
    fields_stand_under_the_architecture(md, Ok((core, rope)));
    let eps = p.rms_norm_eps;
    let h = what_heads_are_made_of(engine, place, eps, Ok(heads));
    let r = Ok::<GGUFQWen<N, A, O, R, M, F>, Error>(model);
    let e = choose|e: Result<Arc<E>, Error>| #[trigger]
        engine.rotary_ends(cfg, place.device, e) && match e {
            Err(e) => told.len() == 0 && r == Err::<GGUFQWen<N, A, O, R, M, F>, Error>(e),
            Ok(rotary) => exists|ls: Result<Vec<LayerWeights<N, A, R>>, Error>| #[trigger]
                engine.layers_end(cfg, p.block_count, place, rotary, p.rms_norm_eps, told, ls)
                    && match ls {
                    Err(e) => r == Err::<GGUFQWen<N, A, O, R, M, F>, Error>(e),
                    Ok(layers) => r is Ok && is_made_of(
                        r->Ok_0,
                        p,
                        heads,
                        cfg,
                        layers,
                        place,
                        kernels,
                    ),
                },
        };
    let rotary = e->Ok_0;
    let ls = choose|ls: Result<Vec<LayerWeights<N, A, R>>, Error>| #[trigger]
        engine.layers_end(cfg, p.block_count, place, rotary, p.rms_norm_eps, told, ls) && match ls {
            Err(e) => r == Err::<GGUFQWen<N, A, O, R, M, F>, Error>(e),
            Ok(layers) => r is Ok && is_made_of(
                r->Ok_0,
                p,
                heads,
                cfg,
                layers,
                place,
                kernels,
            ),
        };
    assert(ls == Ok::<Vec<LayerWeights<N, A, R>>, Error>(model.layers));
    assert(told =~= Seq::new(model.layers@.len(), |i: int| (i + 1) as usize));
    let layers = sources_of_layers(engine, cfg, place, rotary, eps, model.layers@);
    let s = ModelSource { eps, heads: h, rotary, layers };
    assert forall|i: int| #![trigger s.layers[i]] 0 <= i < s.layers.len() implies {
        &&& s.layers[i].prefix@ == "blk."@ + decimal(i as nat)
        &&& call_ensures(
            engine.get_sharded,
            (s.layers[i].prefix, "ffn_gate.weight", 0, place.rank, place.world_size),
            s.layers[i].gate_tensor,
        )
        &&& call_ensures(
            engine.get_sharded,
            (s.layers[i].prefix, "ffn_down.weight", 1, place.rank, place.world_size),
            s.layers[i].down_tensor,
        )
        &&& call_ensures(
            engine.get_sharded,
            (s.layers[i].prefix, "ffn_up.weight", 0, place.rank, place.world_size),
            s.layers[i].up_tensor,
        )
        &&& s.layers[i].gate_tensor is Ok
        &&& s.layers[i].down_tensor is Ok
        &&& s.layers[i].up_tensor is Ok
        &&& weight_may_end(
            qtensor_value(*s.layers[i].gate_tensor->Ok_0),
            Ok(weight_value(model.layers@[i].mlp.feed_forward_w1)),
        )
        &&& weight_may_end(
            qtensor_value(*s.layers[i].down_tensor->Ok_0),
            Ok(weight_value(model.layers@[i].mlp.feed_forward_w2)),
        )
        &&& weight_may_end(
            qtensor_value(*s.layers[i].up_tensor->Ok_0),
            Ok(weight_value(model.layers@[i].mlp.feed_forward_w3)),
        )
        &&& model.layers@[i].mlp.dtype == place.dtype
        &&& model.layers@[i].mlp.all_reduce is Some == (place.nccl && place.world_size > 1)
        &&& model.layers@[i].mlp.all_reduce matches Some(f) ==> call_ensures(
            engine.all_reduce,
            (),
            f,
        )
        &&& call_ensures(
            engine.get,
            (Some(s.layers[i].prefix), "attn_norm.weight"),
            s.layers[i].attention_norm_tensor,
        )
        &&& call_ensures(
            engine.get,
            (Some(s.layers[i].prefix), "ffn_norm.weight"),
            s.layers[i].ffn_norm_tensor,
        )
        &&& s.layers[i].attention_norm_tensor is Ok && s.layers[i].ffn_norm_tensor is Ok
        &&& call_ensures(
            engine.norm,
            (s.layers[i].attention_norm_tensor->Ok_0, s.eps),
            Ok(model.layers@[i].attention_norm),
        )
        &&& call_ensures(
            engine.norm,
            (s.layers[i].ffn_norm_tensor->Ok_0, s.eps),
            Ok(model.layers@[i].ffn_norm),
        )
        &&& call_ensures(
            engine.attention,
            (
                &model.cfg,
                s.layers[i].prefix,
                &place.device,
                place.dtype,
                s.rotary,
                model.cfg.sliding_window,
                place.rank,
                place.world_size,
            ),
            Ok(model.layers@[i].self_attn),
        )
    } by {
        assert(s.layers[i] == layers[i]);
        assert(is_source(engine, cfg, place, rotary, eps, i, model.layers@[i], layers[i]));
    }
    s
}

/// Whether `s` is what the layer `index` was made of.
spec fn is_source<G, S, H, NF, OF, YF, EF, AF, RF, N, O, E, A, R>(
    engine: Engine<G, S, H, NF, OF, YF, EF, AF, RF>,
    cfg: Config<Real, Ratio>,
    place: Placement,
    rotary: Arc<E>,
    eps: Single,
    index: int,
    layer: LayerWeights<N, A, R>,
    s: LayerSource<N, A>,
) -> bool where
    G: Fn(Option<&str>, &str) -> Result<Arc<QTensor>, Error>,
    S: Fn(&str, &str, usize, usize, usize) -> Result<Arc<QTensor>, Error>,
    H: Fn(&str) -> bool,
    NF: Fn(Arc<QTensor>, Single) -> Result<N, Error>,
    OF: Fn(&str, usize, DType) -> Result<O, Error>,
    YF: Fn(Config<Real, Ratio>) -> Config<Real, Ratio>,
    EF: Fn(&Config<Real, Ratio>, &Device) -> Result<E, Error>,
    AF: Fn(
        &Config<Real, Ratio>,
        &str,
        &Device,
        DType,
        Arc<E>,
        Option<usize>,
        usize,
        usize,
    ) -> Result<A, Error>,
    RF: Fn() -> R,
 {
    &&& s.prefix@ == "blk."@ + decimal(index as nat)
    &&& call_ensures(
        engine.get_sharded,
        (s.prefix, "ffn_gate.weight", 0, place.rank, place.world_size),
        s.gate_tensor,
    )
    &&& call_ensures(
        engine.get_sharded,
        (s.prefix, "ffn_down.weight", 1, place.rank, place.world_size),
        s.down_tensor,
    )
    &&& call_ensures(
        engine.get_sharded,
        (s.prefix, "ffn_up.weight", 0, place.rank, place.world_size),
        s.up_tensor,
    )
    &&& s.gate_tensor is Ok && s.down_tensor is Ok && s.up_tensor is Ok
    &&& weight_may_end(
        qtensor_value(*s.gate_tensor->Ok_0),
        Ok(weight_value(layer.mlp.feed_forward_w1)),
    )
    &&& weight_may_end(
        qtensor_value(*s.down_tensor->Ok_0),
        Ok(weight_value(layer.mlp.feed_forward_w2)),
    )
    &&& weight_may_end(
        qtensor_value(*s.up_tensor->Ok_0),
        Ok(weight_value(layer.mlp.feed_forward_w3)),
    )
    &&& layer.mlp.dtype == place.dtype
    &&& layer.mlp.all_reduce is Some == (place.nccl && place.world_size > 1)
    &&& layer.mlp.all_reduce matches Some(f) ==> call_ensures(engine.all_reduce, (), f)
    &&& call_ensures(engine.get, (Some(s.prefix), "attn_norm.weight"), s.attention_norm_tensor)
    &&& call_ensures(engine.get, (Some(s.prefix), "ffn_norm.weight"), s.ffn_norm_tensor)
    &&& s.attention_norm_tensor is Ok && s.ffn_norm_tensor is Ok
    &&& call_ensures(
        engine.norm,
        (s.attention_norm_tensor->Ok_0, eps),
        Ok(layer.attention_norm),
    )
    &&& call_ensures(engine.norm, (s.ffn_norm_tensor->Ok_0, eps), Ok(layer.ffn_norm))
    &&& call_ensures(
        engine.attention,
        (
            &cfg,
            s.prefix,
            &place.device,
            place.dtype,
            rotary,
            cfg.sliding_window,
            place.rank,
            place.world_size,
        ),
        Ok(layer.self_attn),
    )
}

/// What each of the first layers was made of.
proof fn sources_of_layers<G, S, H, NF, OF, YF, EF, AF, RF, N, O, E, A, R>(
    engine: Engine<G, S, H, NF, OF, YF, EF, AF, RF>,
    cfg: Config<Real, Ratio>,
    place: Placement,
    rotary: Arc<E>,
    eps: Single,
    layers: Seq<LayerWeights<N, A, R>>,
) -> (s: Seq<LayerSource<N, A>>) where
    G: Fn(Option<&str>, &str) -> Result<Arc<QTensor>, Error>,
    S: Fn(&str, &str, usize, usize, usize) -> Result<Arc<QTensor>, Error>,
    H: Fn(&str) -> bool,
    NF: Fn(Arc<QTensor>, Single) -> Result<N, Error>,
    OF: Fn(&str, usize, DType) -> Result<O, Error>,
    YF: Fn(Config<Real, Ratio>) -> Config<Real, Ratio>,
    EF: Fn(&Config<Real, Ratio>, &Device) -> Result<E, Error>,
    AF: Fn(
        &Config<Real, Ratio>,
        &str,
        &Device,
        DType,
        Arc<E>,
        Option<usize>,
        usize,
        usize,
    ) -> Result<A, Error>,
    RF: Fn() -> R,

    requires
        engine.are_layers(cfg, place, rotary, eps, layers),
    ensures
        s.len() == layers.len(),
        forall|i: int|
            0 <= i < s.len() ==> #[trigger] is_source(
                engine,
                cfg,
                place,
                rotary,
                eps,
                i,
                layers[i],
                s[i],
            ),
    decreases layers.len(),
{
    if layers.len() == 0 {
        Seq::empty()
    } else {
        let first = layers.drop_last();
        let last = (layers.len() - 1) as nat;
        assert forall|i: int| 0 <= i < first.len() implies engine.layer_ends(
            cfg,
            i as nat,
            place,
            rotary,
            eps,
            Ok(#[trigger] first[i]),
        ) by {
            assert(first[i] == layers[i]);
        }
        let rest = sources_of_layers(engine, cfg, place, rotary, eps, first);
        assert(engine.layer_ends(cfg, last, place, rotary, eps, Ok(layers[last as int])));
        let source = what_a_loaded_layer_is_made_of(
            engine,
            cfg,
            last,
            place,
            rotary,
            eps,
            Ok(layers[last as int]),
        );
        let s = rest.push(source);
        assert forall|i: int| 0 <= i < s.len() implies #[trigger] is_source(
            engine,
            cfg,
            place,
            rotary,
            eps,
            i,
            layers[i],
            s[i],
        ) by {
            if i < last {
                assert(is_source(engine, cfg, place, rotary, eps, i, first[i], rest[i]));
            }
        }
        s
    }
}

/// What loading that failed had read, and how far it had come.
pub ghost struct FailedLoad<N, O, E> {
    pub core: CoreFields,
    pub rope: RopeFields,
    pub heads: Heads<N, O>,
    pub rotary: Arc<E>,
    /// The configuration before and after what was asked for at run time.
    pub base: Config<Real, Ratio>,
    pub cfg: Config<Real, Ratio>,
    /// How many layers were loaded.
    pub loaded: nat,
}

/// Loading fails only for these reasons, the first that holds: no architecture is named; an entry
/// that has to be there is missing, and its key is reported, or one is of another type; the heads
/// cannot be loaded; a rotary entry is of another type; the rotary embedding cannot be made; a
/// layer cannot be loaded. As many layers as were loaded before were told, and no more.
pub proof fn loading_fails_with_the_first_that_fails<
    G,
    S,
    H,
    NF,
    OF,
    YF,
    EF,
    AF,
    RF,
    N,
    O,
    E,
    A,
    R,
    M,
    F,
    PF,
>(
    engine: Engine<G, S, H, NF, OF, YF, EF, AF, RF>,
    md: Map<Seq<char>, Value>,
    place: Placement,
    compression: KvCacheDtype,
    kernels: Kernels<M, F>,
    before: ProgressReporter<PF>,
    after: ProgressReporter<PF>,
    error: ModelError,
) -> (s: FailedLoad<N, O, E>) where
    G: Fn(Option<&str>, &str) -> Result<Arc<QTensor>, Error>,
    S: Fn(&str, &str, usize, usize, usize) -> Result<Arc<QTensor>, Error>,
    H: Fn(&str) -> bool,
    NF: Fn(Arc<QTensor>, Single) -> Result<N, Error>,
    OF: Fn(&str, usize, DType) -> Result<O, Error>,
    YF: Fn(Config<Real, Ratio>) -> Config<Real, Ratio>,
    EF: Fn(&Config<Real, Ratio>, &Device) -> Result<E, Error>,
    AF: Fn(
        &Config<Real, Ratio>,
        &str,
        &Device,
        DType,
        Arc<E>,
        Option<usize>,
        usize,
        usize,
    ) -> Result<A, Error>,
    RF: Fn() -> R,

    requires
        engine.loads::<M, F, PF>(
            md,
            place,
            compression,
            kernels,
            before,
            after,
            Err::<GGUFQWen<N, A, O, R, M, F>, ModelError>(error),
        ),
    ensures
        after.listener() == before.listener(),
        !md.contains_key("general.architecture"@) ==> {
            &&& after.told() == before.told()
            &&& error is MissingKey
            &&& error->MissingKey_0@ == "general.architecture"@
        },
        md.contains_key("general.architecture"@) && value_text(md["general.architecture"@]) is None
            ==> {
            &&& after.told() == before.told()
            &&& error is Candle
            &&& to_string_may_fail(md["general.architecture"@], error->Candle_0)
        },
        md.contains_key("general.architecture"@) && value_text(md["general.architecture"@]) is Some
            ==> {
            let (core, rope) = (s.core, s.rope);
            let silent = after.told() == before.told();
            let stem = core.arch@ + "."@;
            &&& value_text(md["general.architecture"@]) == Some(core.arch@)
            &&& is_u32_field(md, stem + "attention.head_count"@, core.head_count)
            &&& is_u32_field(md, stem + "attention.head_count_kv"@, core.head_count_kv)
            &&& is_u32_field(md, stem + "attention.key_length"@, core.key_length)
            &&& is_u32_field(md, stem + "embedding_length"@, core.embedding_length)
            &&& is_u32_field(md, stem + "context_length"@, core.context_length)
            &&& is_u32_field(md, stem + "block_count"@, core.block_count)
            &&& is_f32_field(
                md,
                stem + "attention.layer_norm_rms_epsilon"@,
                core.layer_norm_rms_epsilon,
            )
            &&& is_u32_field(
                md,
                stem + "rope.scaling.original_context_length"@,
                rope.original_context_length,
            )
            &&& is_u32_field(md, stem + "rope.dimension_count"@, rope.dimension_count)
            &&& {
                &&& core.head_count is Missing ==> {
                    &&& silent
                    &&& error is MissingKey
                    &&& error->MissingKey_0@ == core.arch@ + "."@ + "attention.head_count"@
                }
                &&& core.head_count matches Field::Invalid(e) ==> {
                    &&& silent
                    &&& error == ModelError::Candle(e)
                }
            }
            &&& core.head_count is Found ==> {
                &&& core.head_count_kv is Missing ==> {
                    &&& silent
                    &&& error is MissingKey
                    &&& error->MissingKey_0@ == core.arch@ + "."@ + "attention.head_count_kv"@
                }
                &&& core.head_count_kv matches Field::Invalid(e) ==> {
                    &&& silent
                    &&& error == ModelError::Candle(e)
                }
            }
            &&& core.head_count is Found
                && core.head_count_kv is Found ==> {
                &&& core.embedding_length is Missing ==> {
                    &&& silent
                    &&& error is MissingKey
                    &&& error->MissingKey_0@ == core.arch@ + "."@ + "embedding_length"@
                }
                &&& core.embedding_length matches Field::Invalid(e) ==> {
                    &&& silent
                    &&& error == ModelError::Candle(e)
                }
            }
            &&& core.head_count is Found
                && core.head_count_kv is Found
                && core.embedding_length is Found ==> {
                &&& core.key_length matches Field::Invalid(e) ==> {
                    &&& silent
                    &&& error == ModelError::Candle(e)
                }
            }
            &&& core.head_count is Found
                && core.head_count_kv is Found
                && core.embedding_length is Found
                && core.key_length !is Invalid ==> {
                &&& core.context_length is Missing ==> {
                    &&& silent
                    &&& error is MissingKey
                    &&& error->MissingKey_0@ == core.arch@ + "."@ + "context_length"@
                }
                &&& core.context_length matches Field::Invalid(e) ==> {
                    &&& silent
                    &&& error == ModelError::Candle(e)
                }
            }
            &&& core.head_count is Found
                && core.head_count_kv is Found
                && core.embedding_length is Found
                && core.key_length !is Invalid
                && core.context_length is Found ==> {
                &&& core.block_count is Missing ==> {
                    &&& silent
                    &&& error is MissingKey
                    &&& error->MissingKey_0@ == core.arch@ + "."@ + "block_count"@
                }
                &&& core.block_count matches Field::Invalid(e) ==> {
                    &&& silent
                    &&& error == ModelError::Candle(e)
                }
            }
            &&& core.head_count is Found
                && core.head_count_kv is Found
                && core.embedding_length is Found
                && core.key_length !is Invalid
                && core.context_length is Found
                && core.block_count is Found ==> {
                &&& core.layer_norm_rms_epsilon is Missing ==> {
                    &&& silent
                    &&& error is MissingKey
                    &&& error->MissingKey_0@ == core.arch@ + "."@
                        + "attention.layer_norm_rms_epsilon"@
                }
                &&& core.layer_norm_rms_epsilon matches Field::Invalid(e) ==> {
                    &&& silent
                    &&& error == ModelError::Candle(e)
                }
            }
            &&& core.head_count is Found
                && core.head_count_kv is Found
                && core.embedding_length is Found
                && core.key_length !is Invalid
                && core.context_length is Found
                && core.block_count is Found
                && core.layer_norm_rms_epsilon is Found ==> {
                let eps = core.layer_norm_rms_epsilon->Found_0;
                &&& error is Candle
                &&& {
                    ||| silent && engine.heads_end(
                        place,
                        eps,
                        Err::<Heads<N, O>, Error>(error->Candle_0),
                    )
                    ||| {
                        &&& engine.heads_end(place, eps, Ok(s.heads))
                        &&& {
                            ||| silent && rope.original_context_length == Field::<u32>::Invalid(
                                error->Candle_0,
                            )
                            ||| silent && rope.original_context_length !is Invalid
                                && rope.dimension_count == Field::<u32>::Invalid(error->Candle_0)
                            ||| {
                                &&& rope.original_context_length !is Invalid
                                &&& rope.dimension_count !is Invalid
                                &&& call_ensures(engine.rope_overrides, (s.base,), s.cfg)
                                &&& {
                                    ||| silent && call_ensures(
                                        engine.rotary,
                                        (&s.cfg, &place.device),
                                        Err::<E, Error>(error->Candle_0),
                                    )
                                    ||| {
                                        &&& call_ensures(
                                            engine.rotary,
                                            (&s.cfg, &place.device),
                                            Ok(*s.rotary),
                                        )
                                        &&& s.loaded < core.block_count->Found_0
                                        &&& after.told() == before.told() + Seq::new(
                                            s.loaded,
                                            |i: int| (i + 1) as usize,
                                        )
                                        &&& engine.layer_ends(
                                            s.cfg,
                                            s.loaded,
                                            place,
                                            s.rotary,
                                            eps,
                                            Err::<LayerWeights<N, A, R>, Error>(error->Candle_0),
                                        )
                                    }
                                }
                            }
                        }
                    }
                }
            }
        },
{
    let r = Err::<GGUFQWen<N, A, O, R, M, F>, ModelError>(error);
    let told = choose|told: Seq<usize>| #[trigger]
        before.hears(told, after) && engine.gguf_ends(md, place, compression, kernels, told, r);
    if told.len() == 0 {
        assert(before.told() + told =~= before.told());
    }
    let f = choose|f: Result<(CoreFields, RopeFields), ModelError>| #[trigger]
        fields_end(md, f) && match f {
            Err(e) => told.len() == 0 && r == Err::<GGUFQWen<N, A, O, R, M, F>, ModelError>(e),
            Ok((core, rope)) => engine.fields_model_ends(
                core,
                rope,
                place,
                compression,
                kernels,
                told,
                r,
            ),
        };
    fields_stand_under_the_architecture(md, f);
    let (core, rope) = f->Ok_0;
    let p = choose|p: CoreParams| #[trigger]
        core.give(p) && engine.params_end(p, rope, place, compression, kernels, told, r);
    let h = choose|h: Result<Heads<N, O>, Error>| #[trigger]
        engine.heads_end(place, p.rms_norm_eps, h) && match h {
            Err(e) => told.len() == 0 && r == Err::<GGUFQWen<N, A, O, R, M, F>, ModelError>(
                ModelError::Candle(e),
            ),
            Ok(heads) => match rope.fault() {
                Some(fault) => told.len() == 0 && r is Err && reports(r->Err_0, fault),
                None => exists|base: Config<Real, Ratio>, cfg: Config<Real, Ratio>| #[trigger]
                    call_ensures(engine.rope_overrides, (base,), cfg) && is_base_config(
                        base,
                        p,
                        rope.give(p.head_dim),
                        true_vocab(p.arch@, heads.rows as nat),
                        compression,
                    ) && exists|m: Result<GGUFQWen<N, A, O, R, M, F>, Error>| #[trigger]
                        engine.configured_ends(p, heads, cfg, place, kernels, told, m) && r
                            == lifted(m),
            },
        };
    let heads = h->Ok_0;
    let (base, cfg) = choose|base: Config<Real, Ratio>, cfg: Config<Real, Ratio>| #[trigger]
        call_ensures(engine.rope_overrides, (base,), cfg) && is_base_config(
            base,
            p,
            rope.give(p.head_dim),
            true_vocab(p.arch@, heads.rows as nat),
            compression,
        ) && exists|m: Result<GGUFQWen<N, A, O, R, M, F>, Error>| #[trigger]
            engine.configured_ends(p, heads, cfg, place, kernels, told, m) && r == lifted(m);
    let m = choose|m: Result<GGUFQWen<N, A, O, R, M, F>, Error>| #[trigger]
        engine.configured_ends(p, heads, cfg, place, kernels, told, m) && r == lifted(m);
    let e = choose|e: Result<Arc<E>, Error>| #[trigger]
        engine.rotary_ends(cfg, place.device, e) && match e {
            Err(e) => told.len() == 0 && m == Err::<GGUFQWen<N, A, O, R, M, F>, Error>(e),
            Ok(rotary) => exists|ls: Result<Vec<LayerWeights<N, A, R>>, Error>| #[trigger]
                engine.layers_end(cfg, p.block_count, place, rotary, p.rms_norm_eps, told, ls)
                    && match ls {
                    Err(e) => m == Err::<GGUFQWen<N, A, O, R, M, F>, Error>(e),
                    Ok(layers) => m is Ok && is_made_of(
                        m->Ok_0,
                        p,
                        heads,
                        cfg,
                        layers,
                        place,
                        kernels,
                    ),
                },
        };
    let rotary = e->Ok_0;
    let ls = choose|ls: Result<Vec<LayerWeights<N, A, R>>, Error>| #[trigger]
        engine.layers_end(cfg, p.block_count, place, rotary, p.rms_norm_eps, told, ls) && match ls {
            Err(e) => m == Err::<GGUFQWen<N, A, O, R, M, F>, Error>(e),
            Ok(layers) => m is Ok && is_made_of(
                m->Ok_0,
                p,
                heads,
                cfg,
                layers,
                place,
                kernels,
            ),
        };
    if f is Ok && core.fault() is None && h is Ok && rope.fault() is None && e is Ok {
        assert(told =~= Seq::new(told.len(), |i: int| (i + 1) as usize));
    }
    FailedLoad { core, rope, heads, rotary, base, cfg, loaded: told.len() }
}

} // verus!
