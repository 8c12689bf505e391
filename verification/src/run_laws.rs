//! What the steps of a run are, call by call.

use crate::batch::{last_rows_end, last_tokens, InputMetadata};
use crate::laws::{logits_are_the_first_columns, one_row_for_each_sequence};
use crate::layer::LayerWeights;
use crate::logits::{cut_logits_end, flat_logits_end};
use crate::mlp::Mlp;
use crate::model::{cache_at, lent, GGUFQWen};
use crate::tensor::{
    as_f32, cast_ends, cast_may_end, dtype_name, elem_count, embed_ends, embed_may_end,
    embedding_table, embedding_width, f32_elem, is_row_major, is_stored, narrowed, product_elem,
    product_ends, product_may_end, read_ends, read_may_end, row_len, select_ends, select_may_end,
    silu_ends, silu_may_end, sum_elem, sum_ends, sum_may_end, tensor_end, tensor_value,
    u32_tensor_ends, u32_tensor_may_end,
};
use crate::weight::{matmul_ends, matmul_may_end, weight_value};
use candle_core::quantized::QMatMul;
use candle_core::{DType, Device, Error, Tensor};
use vstd::prelude::*;

verus! {

/// What a feed-forward block made on its way.
pub ghost struct BlockSteps {
    /// What the fused kernel gave.
    pub fused: Option<Tensor>,
    /// The gating product.
    pub gate: Tensor,
    /// The way up.
    pub up: Tensor,
    /// The activated gating product.
    pub activated: Tensor,
    /// The gated activation.
    pub gated: Tensor,
    /// The way down.
    pub down: Tensor,
    /// The way down in the model's element type.
    pub cast: Tensor,
    /// The sum over all ranks.
    pub summed: Tensor,
}

/// A feed-forward block that succeeds gives the way down of its gated activation, which is what the
/// fused kernel gave where it was tried and applied, and otherwise the SiLU of the gating product
/// times the way up. Where the block is sharded, the way down is summed over all ranks in the
/// model's element type and comes back as 32-bit floats.
pub proof fn what_a_block_gives<R, F>(
    mlp: Mlp<R>,
    fused: F,
    fused_glu: bool,
    xs: Tensor,
    y: Tensor,
) -> (s: BlockSteps) where
    R: Fn(&Tensor) -> Result<Tensor, Error>,
    F: Fn(&QMatMul, &QMatMul, &Tensor) -> Result<Option<Tensor>, Error>,

    requires
        mlp.forward_ends(fused, fused_glu, xs, Ok(y)),
    ensures
        fused_glu ==> call_ensures(
            fused,
            (&mlp.feed_forward_w1, &mlp.feed_forward_w3, &xs),
            Ok(s.fused),
        ),
        !fused_glu ==> s.fused is None,
        s.fused is Some ==> s.gated == s.fused->Some_0,
        s.fused is None ==> {
            &&& matmul_may_end(
                weight_value(mlp.feed_forward_w1),
                tensor_value(xs),
                Ok(tensor_value(s.gate)),
            )
            &&& matmul_may_end(
                weight_value(mlp.feed_forward_w3),
                tensor_value(xs),
                Ok(tensor_value(s.up)),
            )
            &&& silu_may_end(tensor_value(s.gate), Ok(tensor_value(s.activated)))
            &&& product_may_end(
                tensor_value(s.activated),
                tensor_value(s.up),
                Ok(tensor_value(s.gated)),
            )
            &&& tensor_value(s.activated).dims == tensor_value(s.up).dims
            &&& tensor_value(s.activated).dtype == "f32"@ ==> forall|k: int|
                0 <= k < tensor_value(s.activated).elems.len()
                    ==> #[trigger] tensor_value(s.gated).elems[k] == product_elem(
                    "f32"@,
                    tensor_value(s.activated).elems[k],
                    tensor_value(s.up).elems[k],
                )
        },
        matmul_may_end(
            weight_value(mlp.feed_forward_w2),
            tensor_value(s.gated),
            Ok(tensor_value(s.down)),
        ),
        mlp.all_reduce is None ==> y == s.down,
        mlp.all_reduce is Some ==> {
            &&& cast_may_end(
                tensor_value(s.down),
                dtype_name(mlp.dtype),
                Ok(tensor_value(s.cast)),
            )
            &&& call_ensures(mlp.all_reduce->Some_0, (&s.cast,), Ok(s.summed))
            &&& cast_may_end(tensor_value(s.summed), "f32"@, Ok(tensor_value(y)))
            &&& tensor_value(y).dims == tensor_value(s.summed).dims
            &&& tensor_value(y).dtype == "f32"@
            &&& forall|k: int|
                0 <= k < tensor_value(s.summed).elems.len() ==> #[trigger] tensor_value(y).elems[k]
                    == f32_elem(tensor_value(s.summed).dtype, tensor_value(s.summed).elems[k])
        },
{
    let r = Ok::<Tensor, Error>(y);
    let fused_end = if fused_glu {
        choose|o: Result<Option<Tensor>, Error>| #[trigger]
            call_ensures(fused, (&mlp.feed_forward_w1, &mlp.feed_forward_w3, &xs), o) && match o {
                Err(e) => r == Err::<Tensor, Error>(e),
                Ok(o) => mlp.gated_ends(o, xs, r),
            }
    } else {
        Ok(None)
    };
    let o = fused_end->Ok_0;
    assert(mlp.gated_ends(o, xs, r));
    let g = choose|g: Result<Tensor, Error>| #[trigger]
        mlp.gate_ends(o, xs, g) && match g {
            Err(e) => r == Err::<Tensor, Error>(e),
            Ok(g) => mlp.down_ends(g, r),
        };
    let gated = g->Ok_0;
    let (gate, up, activated) = if o is None {
        steps_of_unfused_gating(mlp, xs, gated)
    } else {
        (gated, gated, gated)
    };
    assert(mlp.down_ends(gated, r));
    let d = choose|t: Result<Tensor, Error>| #[trigger]
        matmul_ends(mlp.feed_forward_w2, gated, t) && match (t, mlp.all_reduce) {
            (Ok(t), Some(f)) => mlp.reduce_ends(f, t, r),
            _ => r == t,
        };
    let down = d->Ok_0;
    let (cast, summed) = if mlp.all_reduce is Some {
        steps_of_summing(mlp, mlp.all_reduce->Some_0, down, y)
    } else {
        (down, down)
    };
    BlockSteps { fused: o, gate, up, activated, gated, down, cast, summed }
}

/// The gating product, the way up and the activation that gating in separate steps went through.
proof fn steps_of_unfused_gating<R>(mlp: Mlp<R>, xs: Tensor, gated: Tensor) -> (s: (
    Tensor,
    Tensor,
    Tensor,
))
    requires
        mlp.unfused_ends(xs, Ok(gated)),
    ensures
        matmul_ends(mlp.feed_forward_w1, xs, Ok(s.0)),
        matmul_ends(mlp.feed_forward_w3, xs, Ok(s.1)),
        silu_ends(s.0, Ok(s.2)),
        product_ends(s.2, s.1, Ok(gated)),
{
    let r = Ok::<Tensor, Error>(gated);
    let w1 = choose|w1: Result<Tensor, Error>| #[trigger]
        matmul_ends(mlp.feed_forward_w1, xs, w1) && match w1 {
            Err(e) => r == Err::<Tensor, Error>(e),
            Ok(w1) => exists|w3: Result<Tensor, Error>| #[trigger]
                matmul_ends(mlp.feed_forward_w3, xs, w3) && match w3 {
                    Err(e) => r == Err::<Tensor, Error>(e),
                    Ok(w3) => exists|s: Result<Tensor, Error>| #[trigger]
                        silu_ends(w1, s) && match s {
                            Err(e) => r == Err::<Tensor, Error>(e),
                            Ok(s) => product_ends(s, w3, r),
                        },
                },
        };
    let g = w1->Ok_0;
    let w3 = choose|w3: Result<Tensor, Error>| #[trigger]
        matmul_ends(mlp.feed_forward_w3, xs, w3) && match w3 {
            Err(e) => r == Err::<Tensor, Error>(e),
            Ok(w3) => exists|s: Result<Tensor, Error>| #[trigger]
                silu_ends(g, s) && match s {
                    Err(e) => r == Err::<Tensor, Error>(e),
                    Ok(s) => product_ends(s, w3, r),
                },
        };
    let u = w3->Ok_0;
    let s = choose|s: Result<Tensor, Error>| #[trigger]
        silu_ends(g, s) && match s {
            Err(e) => r == Err::<Tensor, Error>(e),
            Ok(s) => product_ends(s, u, r),
        };
    (g, u, s->Ok_0)
}

/// What was handed to the sum over all ranks, and what came of it.
proof fn steps_of_summing<R>(mlp: Mlp<R>, f: R, down: Tensor, y: Tensor) -> (s: (
    Tensor,
    Tensor,
)) where R: Fn(&Tensor) -> Result<Tensor, Error>
    requires
        mlp.reduce_ends(f, down, Ok(y)),
    ensures
        cast_ends(down, mlp.dtype, Ok(s.0)),
        call_ensures(f, (&s.0,), Ok(s.1)),
        exists|d: DType| #[trigger] cast_ends(s.1, d, Ok(y)) && dtype_name(d) == "f32"@,
{
    let r = Ok::<Tensor, Error>(y);
    let c = choose|c: Result<Tensor, Error>| #[trigger]
        cast_ends(down, mlp.dtype, c) && match c {
            Err(e) => r == Err::<Tensor, Error>(e),
            Ok(c) => exists|s: Result<Tensor, Error>| #[trigger]
                call_ensures(f, (&c,), s) && match s {
                    Err(e) => r == Err::<Tensor, Error>(e),
                    Ok(s) => exists|d: DType| #[trigger]
                        cast_ends(s, d, r) && dtype_name(d) == "f32"@,
                },
        };
    let c = c->Ok_0;
    let s = choose|s: Result<Tensor, Error>| #[trigger]
        call_ensures(f, (&c,), s) && match s {
            Err(e) => r == Err::<Tensor, Error>(e),
            Ok(s) => exists|d: DType| #[trigger] cast_ends(s, d, r) && dtype_name(d) == "f32"@,
        };
    (c, s->Ok_0)
}

/// What a layer made on its way.
pub ghost struct LayerSteps {
    /// The normed activations that the attention was run on.
    pub normed: Tensor,
    /// What the attention gave.
    pub attended: Tensor,
    /// The activations with the attention added to them.
    pub middle: Tensor,
    /// The normed activations that the feed-forward block was run on.
    pub renormed: Tensor,
    /// What the feed-forward block gave.
    pub fed: Tensor,
}

/// A layer that succeeds has run its attention on the normed activations, with the mask, the
/// positions, the cache and the batch that it was handed, and its feed-forward block on the normed
/// sum of the two, and gives the sum of that and of what the block gave. This is so in every batch.
pub proof fn what_a_layer_gives<N, A, R, X, F>(
    layer: LayerWeights<N, A, R>,
    fused: F,
    fused_glu: bool,
    x: Tensor,
    mask: Option<&Vec<Tensor>>,
    input_positions: Tensor,
    cache: Option<(&Tensor, &Tensor)>,
    input_metadata: InputMetadata<X>,
    y: Tensor,
) -> (s: LayerSteps) where
    N: Fn(&Tensor) -> Result<Tensor, Error>,
    R: Fn(&Tensor) -> Result<Tensor, Error>,
    A: Fn(
        &Tensor,
        Option<&Vec<Tensor>>,
        &Tensor,
        Option<(&Tensor, &Tensor)>,
        &InputMetadata<X>,
    ) -> Result<Tensor, Error>,
    F: Fn(&QMatMul, &QMatMul, &Tensor) -> Result<Option<Tensor>, Error>,

    requires
        layer.forward_ends(
            fused,
            fused_glu,
            x,
            mask,
            input_positions,
            cache,
            input_metadata,
            Ok(y),
        ),
    ensures
        call_ensures(layer.attention_norm, (&x,), Ok(s.normed)),
        call_ensures(
            layer.self_attn,
            (&s.normed, mask, &input_positions, cache, &input_metadata),
            Ok(s.attended),
        ),
        sum_may_end(tensor_value(s.attended), tensor_value(x), Ok(tensor_value(s.middle))),
        call_ensures(layer.ffn_norm, (&s.middle,), Ok(s.renormed)),
        layer.mlp.forward_ends(fused, fused_glu, s.renormed, Ok(s.fed)),
        sum_may_end(tensor_value(s.fed), tensor_value(s.middle), Ok(tensor_value(y))),
        tensor_value(s.attended).dims == tensor_value(x).dims,
        tensor_value(s.middle).dims == tensor_value(x).dims,
        tensor_value(s.fed).dims == tensor_value(x).dims,
        tensor_value(y).dims == tensor_value(x).dims,
        tensor_value(s.attended).dtype == "f32"@ ==> forall|k: int|
            0 <= k < tensor_value(s.attended).elems.len()
                ==> #[trigger] tensor_value(s.middle).elems[k] == sum_elem(
                "f32"@,
                tensor_value(s.attended).elems[k],
                tensor_value(x).elems[k],
            ),
        tensor_value(s.fed).dtype == "f32"@ ==> forall|k: int|
            0 <= k < tensor_value(s.fed).elems.len() ==> #[trigger] tensor_value(y).elems[k]
                == sum_elem(
                "f32"@,
                tensor_value(s.fed).elems[k],
                tensor_value(s.middle).elems[k],
            ),
{
    let r = Ok::<Tensor, Error>(y);
    let h = choose|h: Result<Tensor, Error>| #[trigger]
        layer.attention_half_ends(x, mask, input_positions, cache, input_metadata, h) && match h {
            Err(e) => r == Err::<Tensor, Error>(e),
            Ok(h) => layer.mlp_half_ends(fused, fused_glu, h, r),
        };
    let n = choose|n: Result<Tensor, Error>| #[trigger]
        call_ensures(layer.attention_norm, (&x,), n) && match n {
            Err(e) => h == Err::<Tensor, Error>(e),
            Ok(n) => exists|a: Result<Tensor, Error>| #[trigger]
                layer.attn_ends(n, mask, input_positions, cache, input_metadata, a) && match a {
                    Err(e) => h == Err::<Tensor, Error>(e),
                    Ok(a) => sum_ends(a, x, h),
                },
        };
    let normed = n->Ok_0;
    let a = choose|a: Result<Tensor, Error>| #[trigger]
        layer.attn_ends(normed, mask, input_positions, cache, input_metadata, a) && match a {
            Err(e) => h == Err::<Tensor, Error>(e),
            Ok(a) => sum_ends(a, x, h),
        };
    let middle = h->Ok_0;
    let m = choose|m: Result<Tensor, Error>| #[trigger]
        call_ensures(layer.ffn_norm, (&middle,), m) && match m {
            Err(e) => r == Err::<Tensor, Error>(e),
            Ok(m) => exists|d: Result<Tensor, Error>| #[trigger]
                layer.mlp.forward_ends(fused, fused_glu, m, d) && match d {
                    Err(e) => r == Err::<Tensor, Error>(e),
                    Ok(d) => sum_ends(d, middle, r),
                },
        };
    let renormed = m->Ok_0;
    let d = choose|d: Result<Tensor, Error>| #[trigger]
        layer.mlp.forward_ends(fused, fused_glu, renormed, d) && match d {
            Err(e) => r == Err::<Tensor, Error>(e),
            Ok(d) => sum_ends(d, middle, r),
        };
    LayerSteps { normed, attended: a->Ok_0, middle, renormed, fed: d->Ok_0 }
}

/// What each step of a feed-forward block ended in.
pub ghost struct BlockEnds {
    pub fused: Result<Option<Tensor>, Error>,
    pub gate: Result<Tensor, Error>,
    pub up: Result<Tensor, Error>,
    pub activated: Result<Tensor, Error>,
    pub gated: Result<Tensor, Error>,
    pub down: Result<Tensor, Error>,
    pub cast: Result<Tensor, Error>,
    pub summed: Result<Tensor, Error>,
}

/// A feed-forward block fails with what its first failing step failed with, and only then.
pub proof fn a_block_fails_with_its_first_failing_step<R, F>(
    mlp: Mlp<R>,
    fused: F,
    fused_glu: bool,
    xs: Tensor,
    e: Error,
) -> (s: BlockEnds) where
    R: Fn(&Tensor) -> Result<Tensor, Error>,
    F: Fn(&QMatMul, &QMatMul, &Tensor) -> Result<Option<Tensor>, Error>,

    requires
        mlp.forward_ends(fused, fused_glu, xs, Err(e)),
    ensures
        fused_glu ==> call_ensures(
            fused,
            (&mlp.feed_forward_w1, &mlp.feed_forward_w3, &xs),
            s.fused,
        ),
        !fused_glu ==> s.fused == Ok::<Option<Tensor>, Error>(None),
        match s.fused {
            Err(f) => f == e,
            Ok(o) => {
                &&& match o {
                    Some(t) => s.gated == Ok::<Tensor, Error>(t),
                    None => {
                        &&& matmul_may_end(
                            weight_value(mlp.feed_forward_w1),
                            tensor_value(xs),
                            tensor_end(s.gate),
                        )
                        &&& match s.gate {
                            Err(f) => s.gated == Err::<Tensor, Error>(f),
                            Ok(gate) => {
                                &&& matmul_may_end(
                                    weight_value(mlp.feed_forward_w3),
                                    tensor_value(xs),
                                    tensor_end(s.up),
                                )
                                &&& match s.up {
                                    Err(f) => s.gated == Err::<Tensor, Error>(f),
                                    Ok(up) => {
                                        &&& silu_may_end(
                                            tensor_value(gate),
                                            tensor_end(s.activated),
                                        )
                                        &&& match s.activated {
                                            Err(f) => s.gated == Err::<Tensor, Error>(f),
                                            Ok(activated) => product_may_end(
                                                tensor_value(activated),
                                                tensor_value(up),
                                                tensor_end(s.gated),
                                            ),
                                        }
                                    },
                                }
                            },
                        }
                    },
                }
                &&& match s.gated {
                    Err(f) => f == e,
                    Ok(gated) => {
                        &&& matmul_may_end(
                            weight_value(mlp.feed_forward_w2),
                            tensor_value(gated),
                            tensor_end(s.down),
                        )
                        &&& match (s.down, mlp.all_reduce) {
                            (Err(f), _) => f == e,
                            (Ok(_), None) => false,
                            (Ok(down), Some(sum)) => {
                                &&& cast_may_end(
                                    tensor_value(down),
                                    dtype_name(mlp.dtype),
                                    tensor_end(s.cast),
                                )
                                &&& match s.cast {
                                    Err(f) => f == e,
                                    Ok(cast) => {
                                        &&& call_ensures(sum, (&cast,), s.summed)
                                        &&& match s.summed {
                                            Err(f) => f == e,
                                            Ok(summed) => cast_may_end(
                                                tensor_value(summed),
                                                "f32"@,
                                                Err(e),
                                            ),
                                        }
                                    },
                                }
                            },
                        }
                    },
                }
            },
        },
{
    let r = Err::<Tensor, Error>(e);
    let o = if fused_glu {
        choose|o: Result<Option<Tensor>, Error>| #[trigger]
            call_ensures(fused, (&mlp.feed_forward_w1, &mlp.feed_forward_w3, &xs), o) && match o {
                Err(e) => r == Err::<Tensor, Error>(e),
                Ok(o) => mlp.gated_ends(o, xs, r),
            }
    } else {
        Ok(None)
    };
    if o is Err {
        BlockEnds {
            fused: o,
            gate: r,
            up: r,
            activated: r,
            gated: r,
            down: r,
            cast: r,
            summed: r,
        }
    } else {
        let given = o->Ok_0;
        assert(mlp.gated_ends(given, xs, r));
        let g = choose|g: Result<Tensor, Error>| #[trigger]
            mlp.gate_ends(given, xs, g) && match g {
                Err(e) => r == Err::<Tensor, Error>(e),
                Ok(g) => mlp.down_ends(g, r),
            };
        let (gate, up, activated) = if given is None {
            ends_of_unfused_gating(mlp, xs, g)
        } else {
            (g, g, g)
        };
        if g is Err {
            BlockEnds { fused: o, gate, up, activated, gated: g, down: r, cast: r, summed: r }
        } else {
            let gated = g->Ok_0;
            assert(mlp.down_ends(gated, r));
            let down = choose|t: Result<Tensor, Error>| #[trigger]
                matmul_ends(mlp.feed_forward_w2, gated, t) && match (t, mlp.all_reduce) {
                    (Ok(t), Some(f)) => mlp.reduce_ends(f, t, r),
                    _ => r == t,
                };
            let (cast, summed) = if down is Ok {
                ends_of_summing(mlp, mlp.all_reduce->Some_0, down->Ok_0, e)
            } else {
                (r, r)
            };
            BlockEnds { fused: o, gate, up, activated, gated: g, down, cast, summed }
        }
    }
}

/// What the gating product, the way up and the activation ended in, each where it was reached.
proof fn ends_of_unfused_gating<R>(mlp: Mlp<R>, xs: Tensor, g: Result<Tensor, Error>) -> (s: (
    Result<Tensor, Error>,
    Result<Tensor, Error>,
    Result<Tensor, Error>,
))
    requires
        mlp.unfused_ends(xs, g),
    ensures
        matmul_ends(mlp.feed_forward_w1, xs, s.0),
        s.0 is Err ==> g == s.0,
        s.0 is Ok ==> matmul_ends(mlp.feed_forward_w3, xs, s.1),
        s.0 is Ok && s.1 is Err ==> g == s.1,
        s.0 is Ok && s.1 is Ok ==> silu_ends(s.0->Ok_0, s.2),
        s.0 is Ok && s.1 is Ok && s.2 is Err ==> g == s.2,
        s.0 is Ok && s.1 is Ok && s.2 is Ok ==> product_ends(s.2->Ok_0, s.1->Ok_0, g),
        s.0 is Err || s.1 is Err || s.2 is Err ==> g is Err,
{
    let w1 = choose|w1: Result<Tensor, Error>| #[trigger]
        matmul_ends(mlp.feed_forward_w1, xs, w1) && match w1 {
            Err(e) => g == Err::<Tensor, Error>(e),
            Ok(w1) => exists|w3: Result<Tensor, Error>| #[trigger]
                matmul_ends(mlp.feed_forward_w3, xs, w3) && match w3 {
                    Err(e) => g == Err::<Tensor, Error>(e),
                    Ok(w3) => exists|s: Result<Tensor, Error>| #[trigger]
                        silu_ends(w1, s) && match s {
                            Err(e) => g == Err::<Tensor, Error>(e),
                            Ok(s) => product_ends(s, w3, g),
                        },
                },
        };
    if w1 is Err {
        (w1, w1, w1)
    } else {
        let p = w1->Ok_0;
        let w3 = choose|w3: Result<Tensor, Error>| #[trigger]
            matmul_ends(mlp.feed_forward_w3, xs, w3) && match w3 {
                Err(e) => g == Err::<Tensor, Error>(e),
                Ok(w3) => exists|s: Result<Tensor, Error>| #[trigger]
                    silu_ends(p, s) && match s {
                        Err(e) => g == Err::<Tensor, Error>(e),
                        Ok(s) => product_ends(s, w3, g),
                    },
            };
        if w3 is Err {
            (w1, w3, w3)
        } else {
            let u = w3->Ok_0;
            let s = choose|s: Result<Tensor, Error>| #[trigger]
                silu_ends(p, s) && match s {
                    Err(e) => g == Err::<Tensor, Error>(e),
                    Ok(s) => product_ends(s, u, g),
                };
            (w1, w3, s)
        }
    }
}

/// What the conversion before the sum over all ranks, and the sum, ended in.
proof fn ends_of_summing<R>(mlp: Mlp<R>, f: R, down: Tensor, e: Error) -> (s: (
    Result<Tensor, Error>,
    Result<Tensor, Error>,
)) where R: Fn(&Tensor) -> Result<Tensor, Error>
    requires
        mlp.reduce_ends(f, down, Err(e)),
    ensures
        cast_ends(down, mlp.dtype, s.0),
        s.0 is Err ==> s.0->Err_0 == e,
        s.0 is Ok ==> call_ensures(f, (&s.0->Ok_0,), s.1),
        s.0 is Ok && s.1 is Err ==> s.1->Err_0 == e,
        s.0 is Ok && s.1 is Ok ==> cast_may_end(tensor_value(s.1->Ok_0), "f32"@, Err(e)),
{
    let r = Err::<Tensor, Error>(e);
    let c = choose|c: Result<Tensor, Error>| #[trigger]
        cast_ends(down, mlp.dtype, c) && match c {
            Err(e) => r == Err::<Tensor, Error>(e),
            Ok(c) => exists|s: Result<Tensor, Error>| #[trigger]
                call_ensures(f, (&c,), s) && match s {
                    Err(e) => r == Err::<Tensor, Error>(e),
                    Ok(s) => exists|d: DType| #[trigger]
                        cast_ends(s, d, r) && dtype_name(d) == "f32"@,
                },
        };
    if c is Err {
        (c, c)
    } else {
        let t = c->Ok_0;
        let s = choose|s: Result<Tensor, Error>| #[trigger]
            call_ensures(f, (&t,), s) && match s {
                Err(e) => r == Err::<Tensor, Error>(e),
                Ok(s) => exists|d: DType| #[trigger] cast_ends(s, d, r) && dtype_name(d) == "f32"@,
            };
        (c, s)
    }
}

/// What each step of a layer ended in.
pub ghost struct LayerEnds {
    pub normed: Result<Tensor, Error>,
    pub attended: Result<Tensor, Error>,
    pub middle: Result<Tensor, Error>,
    pub renormed: Result<Tensor, Error>,
    pub fed: Result<Tensor, Error>,
}

/// A layer fails with what its first failing step failed with, and only then.
pub proof fn a_layer_fails_with_its_first_failing_step<N, A, R, X, F>(
    layer: LayerWeights<N, A, R>,
    fused: F,
    fused_glu: bool,
    x: Tensor,
    mask: Option<&Vec<Tensor>>,
    input_positions: Tensor,
    cache: Option<(&Tensor, &Tensor)>,
    input_metadata: InputMetadata<X>,
    e: Error,
) -> (s: LayerEnds) where
    N: Fn(&Tensor) -> Result<Tensor, Error>,
    R: Fn(&Tensor) -> Result<Tensor, Error>,
    A: Fn(
        &Tensor,
        Option<&Vec<Tensor>>,
        &Tensor,
        Option<(&Tensor, &Tensor)>,
        &InputMetadata<X>,
    ) -> Result<Tensor, Error>,
    F: Fn(&QMatMul, &QMatMul, &Tensor) -> Result<Option<Tensor>, Error>,

    requires
        layer.forward_ends(
            fused,
            fused_glu,
            x,
            mask,
            input_positions,
            cache,
            input_metadata,
            Err(e),
        ),
    ensures
        call_ensures(layer.attention_norm, (&x,), s.normed),
        match s.normed {
            Err(f) => f == e,
            Ok(normed) => {
                &&& call_ensures(
                    layer.self_attn,
                    (&normed, mask, &input_positions, cache, &input_metadata),
                    s.attended,
                )
                &&& match s.attended {
                    Err(f) => f == e,
                    Ok(attended) => {
                        &&& sum_may_end(
                            tensor_value(attended),
                            tensor_value(x),
                            tensor_end(s.middle),
                        )
                        &&& match s.middle {
                            Err(f) => f == e,
                            Ok(middle) => {
                                &&& call_ensures(layer.ffn_norm, (&middle,), s.renormed)
                                &&& match s.renormed {
                                    Err(f) => f == e,
                                    Ok(renormed) => {
                                        &&& layer.mlp.forward_ends(
                                            fused,
                                            fused_glu,
                                            renormed,
                                            s.fed,
                                        )
                                        &&& match s.fed {
                                            Err(f) => f == e,
                                            Ok(fed) => sum_may_end(
                                                tensor_value(fed),
                                                tensor_value(middle),
                                                Err(e),
                                            ),
                                        }
                                    },
                                }
                            },
                        }
                    },
                }
            },
        },
{
    let r = Err::<Tensor, Error>(e);
    let h = choose|h: Result<Tensor, Error>| #[trigger]
        layer.attention_half_ends(x, mask, input_positions, cache, input_metadata, h) && match h {
            Err(e) => r == Err::<Tensor, Error>(e),
            Ok(h) => layer.mlp_half_ends(fused, fused_glu, h, r),
        };
    let n = choose|n: Result<Tensor, Error>| #[trigger]
        call_ensures(layer.attention_norm, (&x,), n) && match n {
            Err(e) => h == Err::<Tensor, Error>(e),
            Ok(n) => exists|a: Result<Tensor, Error>| #[trigger]
                layer.attn_ends(n, mask, input_positions, cache, input_metadata, a) && match a {
                    Err(e) => h == Err::<Tensor, Error>(e),
                    Ok(a) => sum_ends(a, x, h),
                },
        };
    let normed = n->Ok_0;
    let a = choose|a: Result<Tensor, Error>| #[trigger]
        layer.attn_ends(normed, mask, input_positions, cache, input_metadata, a) && match a {
            Err(e) => h == Err::<Tensor, Error>(e),
            Ok(a) => sum_ends(a, x, h),
        };
    let middle = h->Ok_0;
    let m = choose|m: Result<Tensor, Error>| #[trigger]
        call_ensures(layer.ffn_norm, (&middle,), m) && match m {
            Err(e) => r == Err::<Tensor, Error>(e),
            Ok(m) => exists|d: Result<Tensor, Error>| #[trigger]
                layer.mlp.forward_ends(fused, fused_glu, m, d) && match d {
                    Err(e) => r == Err::<Tensor, Error>(e),
                    Ok(d) => sum_ends(d, middle, r),
                },
        };
    let renormed = m->Ok_0;
    let d = choose|d: Result<Tensor, Error>| #[trigger]
        layer.mlp.forward_ends(fused, fused_glu, renormed, d) && match d {
            Err(e) => r == Err::<Tensor, Error>(e),
            Ok(d) => sum_ends(d, middle, r),
        };
    LayerEnds { normed: n, attended: a, middle: h, renormed: m, fed: d }
}

/// What running layers one after the other made on its way.
pub ghost struct ChainSteps {
    /// The activations before each layer, then those behind the last that succeeded.
    pub activations: Seq<Tensor>,
    /// What each layer that succeeded made on its way.
    pub layers: Seq<LayerSteps>,
}

/// Layers are run one after the other, each on what the one before gave, under one mask and with
/// its own cache: all of them, or as many as there are caches, unless one fails, which ends it.
pub proof fn layers_are_run_in_order<N, A, O, R, M, F, X>(
    model: GGUFQWen<N, A, O, R, M, F>,
    start: nat,
    x: Tensor,
    mask: Option<Vec<Tensor>>,
    input_positions: Tensor,
    kv_caches: Option<&Vec<(Tensor, Tensor)>>,
    input_metadata: InputMetadata<X>,
    r: Result<Tensor, Error>,
) -> (s: ChainSteps) where
    N: Fn(&Tensor) -> Result<Tensor, Error>,
    R: Fn(&Tensor) -> Result<Tensor, Error>,
    O: Fn(&Tensor) -> Result<Tensor, Error>,
    M: Fn(&Device, DType, &Tensor, &Vec<u32>, Option<usize>, bool) -> Option<Vec<Tensor>>,
    A: Fn(
        &Tensor,
        Option<&Vec<Tensor>>,
        &Tensor,
        Option<(&Tensor, &Tensor)>,
        &InputMetadata<X>,
    ) -> Result<Tensor, Error>,
    F: Fn(&QMatMul, &QMatMul, &Tensor) -> Result<Option<Tensor>, Error>,

    requires
        start <= model.layers@.len(),
        kv_caches matches Some(caches) ==> start <= caches@.len(),
        model.layers_end(start, x, mask, input_positions, kv_caches, input_metadata, r),
    ensures
        s.activations.len() == s.layers.len() + 1,
        s.activations[0] == x,
        start + s.layers.len() <= model.layers@.len(),
        kv_caches matches Some(caches) ==> start + s.layers.len() <= caches@.len(),
        forall|j: int| #![trigger s.layers[j]] 0 <= j < s.layers.len() ==> {
            &&& call_ensures(
                model.layers@[start + j].attention_norm,
                (&s.activations[j],),
                Ok(s.layers[j].normed),
            )
            &&& call_ensures(
                model.layers@[start + j].self_attn,
                (
                    &s.layers[j].normed,
                    match mask {
                        Some(m) => Some(&m),
                        None => None,
                    },
                    &input_positions,
                    match kv_caches {
                        Some(caches) => Some((&caches@[start + j].0, &caches@[start + j].1)),
                        None => None,
                    },
                    &input_metadata,
                ),
                Ok(s.layers[j].attended),
            )
            &&& sum_may_end(
                tensor_value(s.layers[j].attended),
                tensor_value(s.activations[j]),
                Ok(tensor_value(s.layers[j].middle)),
            )
            &&& call_ensures(
                model.layers@[start + j].ffn_norm,
                (&s.layers[j].middle,),
                Ok(s.layers[j].renormed),
            )
            &&& model.layers@[start + j].mlp.forward_ends(
                model.fused,
                model.fused_glu,
                s.layers[j].renormed,
                Ok(s.layers[j].fed),
            )
            &&& sum_may_end(
                tensor_value(s.layers[j].fed),
                tensor_value(s.layers[j].middle),
                Ok(tensor_value(s.activations[j + 1])),
            )
        },
        match r {
            Ok(y) => {
                &&& s.activations.last() == y
                &&& start + s.layers.len() == model.layers@.len() || (kv_caches is Some && start
                    + s.layers.len() == kv_caches->Some_0@.len())
            },
            Err(e) => {
                let at = start + s.layers.len() as int;
                &&& at < model.layers@.len()
                &&& kv_caches is Some ==> at < kv_caches->Some_0@.len()
                &&& model.layers@[at].forward_ends(
                    model.fused,
                    model.fused_glu,
                    s.activations.last(),
                    match mask {
                        Some(m) => Some(&m),
                        None => None,
                    },
                    input_positions,
                    match kv_caches {
                        Some(caches) => Some((&caches@[at].0, &caches@[at].1)),
                        None => None,
                    },
                    input_metadata,
                    Err(e),
                )
            },
        },
    decreases model.layers@.len() - start,
{
    if start >= model.depth(kv_caches) {
        ChainSteps { activations: seq![x], layers: Seq::empty() }
    } else {
        let y = choose|y: Result<Tensor, Error>| #[trigger]
            model.layers@[start as int].forward_ends(
                model.fused,
                model.fused_glu,
                x,
                lent(&mask),
                input_positions,
                cache_at(kv_caches, start as int),
                input_metadata,
                y,
            ) && match y {
                Err(e) => r == Err::<Tensor, Error>(e),
                Ok(y) => model.layers_end(
                    start + 1,
                    y,
                    mask,
                    input_positions,
                    kv_caches,
                    input_metadata,
                    r,
                ),
            };
        if y is Err {
            ChainSteps { activations: seq![x], layers: Seq::empty() }
        } else {
            let next = y->Ok_0;
            let step = what_a_layer_gives(
                model.layers@[start as int],
                model.fused,
                model.fused_glu,
                x,
                lent(&mask),
                input_positions,
                cache_at(kv_caches, start as int),
                input_metadata,
                next,
            );
            let rest = layers_are_run_in_order(
                model,
                start + 1,
                next,
                mask,
                input_positions,
                kv_caches,
                input_metadata,
                r,
            );
            let s = ChainSteps {
                activations: seq![x] + rest.activations,
                layers: seq![step] + rest.layers,
            };
            assert forall|j: int| #![trigger s.layers[j]] 0 <= j < s.layers.len() implies {
                &&& call_ensures(
                    model.layers@[start + j].attention_norm,
                    (&s.activations[j],),
                    Ok(s.layers[j].normed),
                )
                &&& call_ensures(
                    model.layers@[start + j].self_attn,
                    (
                        &s.layers[j].normed,
                        match mask {
                            Some(m) => Some(&m),
                            None => None,
                        },
                        &input_positions,
                        match kv_caches {
                            Some(caches) => Some((&caches@[start + j].0, &caches@[start + j].1)),
                            None => None,
                        },
                        &input_metadata,
                    ),
                    Ok(s.layers[j].attended),
                )
                &&& sum_may_end(
                    tensor_value(s.layers[j].attended),
                    tensor_value(s.activations[j]),
                    Ok(tensor_value(s.layers[j].middle)),
                )
                &&& call_ensures(
                    model.layers@[start + j].ffn_norm,
                    (&s.layers[j].middle,),
                    Ok(s.layers[j].renormed),
                )
                &&& model.layers@[start + j].mlp.forward_ends(
                    model.fused,
                    model.fused_glu,
                    s.layers[j].renormed,
                    Ok(s.layers[j].fed),
                )
                &&& sum_may_end(
                    tensor_value(s.layers[j].fed),
                    tensor_value(s.layers[j].middle),
                    Ok(tensor_value(s.activations[j + 1])),
                )
            } by {
                if j > 0 {
                    let k = j - 1;
                    assert(s.layers[j] == rest.layers[k]);
                    assert(s.activations[j] == rest.activations[k]);
                    assert(s.activations[j + 1] == rest.activations[k + 1]);
                } else {
                    assert(s.layers[j] == step);
                    assert(s.activations[j + 1] == rest.activations[0]);
                }
            }
            s
        }
    }
}

/// The ends that are read are all bounds but the first, and reading them fails only where the
/// bounds cannot be read.
pub proof fn ends_are_all_bounds_but_the_first<X>(
    input_metadata: InputMetadata<X>,
    r: Result<Vec<u32>, Error>,
)
    requires
        input_metadata.cu_seqlens_q matches Some(t) ==> tensor_value(t).dtype == "u32"@
            && tensor_value(t).dims.len() == 1 ==> tensor_value(t).dims[0] > 0,
        input_metadata.sequence_ends_end(r),
    ensures
        match r {
            Err(e) => input_metadata.cu_seqlens_q matches Some(t) && read_may_end(
                tensor_value(t),
                Err(e),
            ),
            Ok(ends) => {
                match input_metadata.cu_seqlens_q {
                    None => ends@.len() == 0,
                    Some(t) => {
                        &&& tensor_value(t).elems.len() == ends@.len() + 1
                        &&& forall|i: int|
                            0 <= i < ends@.len() ==> #[trigger] ends@[i] == tensor_value(
                                t,
                            ).elems[i + 1]
                    },
                }
            },
        },
        input_metadata.cu_seqlens_q matches Some(t) ==> (r is Ok == (tensor_value(t).dtype == "u32"@
            && tensor_value(t).dims.len() == 1)),
{
    if input_metadata.cu_seqlens_q is Some {
        let t = input_metadata.cu_seqlens_q->Some_0;
        let all = choose|all: Result<Vec<u32>, Error>| #[trigger]
            read_ends(t, all) && match all {
                Err(e) => r == Err::<Vec<u32>, Error>(e),
                Ok(all) => r is Ok && r->Ok_0@ == all@.skip(1),
            };
        if all is Ok {
            let read = all->Ok_0@;
            let ends = r->Ok_0@;
            assert(tensor_value(t).dims[0] == read.len());
            assert forall|i: int| 0 <= i < ends.len() implies #[trigger] ends[i] == tensor_value(
                t,
            ).elems[i + 1] by {
                assert(tensor_value(t).elems[i + 1] == read[i + 1]);
                assert(ends[i] == read[i + 1]);
            }
        }
    }
}

/// What running all layers made on its way.
pub ghost struct StackSteps {
    /// Where the sequences end.
    pub ends: Vec<u32>,
    /// What the mask gave.
    pub mask: Option<Vec<Tensor>>,
    /// What the layers made.
    pub chain: ChainSteps,
}

/// Running all layers that succeeds has asked once for the mask of the batch, by its positions, by
/// the ends of its sequences, by the configured window and by whether it is a prefill, and has run
/// every layer under that mask and with its own cache, with or without caches.
pub proof fn every_layer_is_run_under_the_mask_of_the_batch<N, A, O, R, M, F, X>(
    model: GGUFQWen<N, A, O, R, M, F>,
    x: Tensor,
    input_positions: Tensor,
    kv_caches: Option<&Vec<(Tensor, Tensor)>>,
    input_metadata: InputMetadata<X>,
    y: Tensor,
) -> (s: StackSteps) where
    N: Fn(&Tensor) -> Result<Tensor, Error>,
    R: Fn(&Tensor) -> Result<Tensor, Error>,
    O: Fn(&Tensor) -> Result<Tensor, Error>,
    M: Fn(&Device, DType, &Tensor, &Vec<u32>, Option<usize>, bool) -> Option<Vec<Tensor>>,
    A: Fn(
        &Tensor,
        Option<&Vec<Tensor>>,
        &Tensor,
        Option<(&Tensor, &Tensor)>,
        &InputMetadata<X>,
    ) -> Result<Tensor, Error>,
    F: Fn(&QMatMul, &QMatMul, &Tensor) -> Result<Option<Tensor>, Error>,

    requires
        input_metadata.cu_seqlens_q matches Some(t) ==> tensor_value(t).dtype == "u32"@
            && tensor_value(t).dims.len() == 1 ==> tensor_value(t).dims[0] > 0,
        model.stack_ends(x, input_positions, kv_caches, input_metadata, Ok(y)),
    ensures
        match input_metadata.cu_seqlens_q {
            None => s.ends@.len() == 0,
            Some(t) => {
                &&& tensor_value(t).elems.len() == s.ends@.len() + 1
                &&& forall|i: int|
                    0 <= i < s.ends@.len() ==> #[trigger] s.ends@[i] == tensor_value(t).elems[i + 1]
            },
        },
        call_ensures(
            model.mask,
            (
                &model.device,
                model.dtype,
                &input_positions,
                &s.ends,
                model.cfg.sliding_window,
                input_metadata.is_prefill,
            ),
            s.mask,
        ),
        s.chain.layers.len() == match kv_caches {
            Some(caches) if caches@.len() < model.layers@.len() => caches@.len(),
            _ => model.layers@.len(),
        },
        s.chain.activations.len() == s.chain.layers.len() + 1,
        s.chain.activations[0] == x,
        s.chain.activations.last() == y,
        forall|i: int| #![trigger s.chain.layers[i]] 0 <= i < s.chain.layers.len() ==> {
            &&& call_ensures(
                model.layers@[i].attention_norm,
                (&s.chain.activations[i],),
                Ok(s.chain.layers[i].normed),
            )
            &&& call_ensures(
                model.layers@[i].self_attn,
                (
                    &s.chain.layers[i].normed,
                    match s.mask {
                        Some(m) => Some(&m),
                        None => None,
                    },
                    &input_positions,
                    match kv_caches {
                        Some(caches) => Some((&caches@[i].0, &caches@[i].1)),
                        None => None,
                    },
                    &input_metadata,
                ),
                Ok(s.chain.layers[i].attended),
            )
            &&& sum_may_end(
                tensor_value(s.chain.layers[i].attended),
                tensor_value(s.chain.activations[i]),
                Ok(tensor_value(s.chain.layers[i].middle)),
            )
            &&& call_ensures(
                model.layers@[i].ffn_norm,
                (&s.chain.layers[i].middle,),
                Ok(s.chain.layers[i].renormed),
            )
            &&& model.layers@[i].mlp.forward_ends(
                model.fused,
                model.fused_glu,
                s.chain.layers[i].renormed,
                Ok(s.chain.layers[i].fed),
            )
            &&& sum_may_end(
                tensor_value(s.chain.layers[i].fed),
                tensor_value(s.chain.layers[i].middle),
                Ok(tensor_value(s.chain.activations[i + 1])),
            )
        },
{
    let r = Ok::<Tensor, Error>(y);
    let (ends, mask) = mask_of_the_batch(model, x, input_positions, kv_caches, input_metadata, r);
    ends_are_all_bounds_but_the_first(input_metadata, ends);
    let chain = layers_are_run_in_order(
        model,
        0,
        x,
        mask,
        input_positions,
        kv_caches,
        input_metadata,
        r,
    );
    let s = StackSteps { ends: ends->Ok_0, mask, chain };
    assert forall|i: int| #![trigger s.chain.layers[i]] 0 <= i < s.chain.layers.len() implies {
        &&& call_ensures(
            model.layers@[i].attention_norm,
            (&s.chain.activations[i],),
            Ok(s.chain.layers[i].normed),
        )
        &&& call_ensures(
            model.layers@[i].self_attn,
            (
                &s.chain.layers[i].normed,
                match s.mask {
                    Some(m) => Some(&m),
                    None => None,
                },
                &input_positions,
                match kv_caches {
                    Some(caches) => Some((&caches@[i].0, &caches@[i].1)),
                    None => None,
                },
                &input_metadata,
            ),
            Ok(s.chain.layers[i].attended),
        )
        &&& sum_may_end(
            tensor_value(s.chain.layers[i].attended),
            tensor_value(s.chain.activations[i]),
            Ok(tensor_value(s.chain.layers[i].middle)),
        )
        &&& call_ensures(
            model.layers@[i].ffn_norm,
            (&s.chain.layers[i].middle,),
            Ok(s.chain.layers[i].renormed),
        )
        &&& model.layers@[i].mlp.forward_ends(
            model.fused,
            model.fused_glu,
            s.chain.layers[i].renormed,
            Ok(s.chain.layers[i].fed),
        )
        &&& sum_may_end(
            tensor_value(s.chain.layers[i].fed),
            tensor_value(s.chain.layers[i].middle),
            Ok(tensor_value(s.chain.activations[i + 1])),
        )
    } by {
        assert(chain.layers[i] == s.chain.layers[i]);
        assert(model.layers@[0 + i] == model.layers@[i]);
    }
    s
}

/// The bounds that were read, and the mask that was given for them.
proof fn mask_of_the_batch<N, A, O, R, M, F, X>(
    model: GGUFQWen<N, A, O, R, M, F>,
    x: Tensor,
    input_positions: Tensor,
    kv_caches: Option<&Vec<(Tensor, Tensor)>>,
    input_metadata: InputMetadata<X>,
    r: Result<Tensor, Error>,
) -> (s: (Result<Vec<u32>, Error>, Option<Vec<Tensor>>)) where
    N: Fn(&Tensor) -> Result<Tensor, Error>,
    R: Fn(&Tensor) -> Result<Tensor, Error>,
    O: Fn(&Tensor) -> Result<Tensor, Error>,
    M: Fn(&Device, DType, &Tensor, &Vec<u32>, Option<usize>, bool) -> Option<Vec<Tensor>>,
    A: Fn(
        &Tensor,
        Option<&Vec<Tensor>>,
        &Tensor,
        Option<(&Tensor, &Tensor)>,
        &InputMetadata<X>,
    ) -> Result<Tensor, Error>,
    F: Fn(&QMatMul, &QMatMul, &Tensor) -> Result<Option<Tensor>, Error>,

    requires
        model.stack_ends(x, input_positions, kv_caches, input_metadata, r),
    ensures
        input_metadata.sequence_ends_end(s.0),
        s.0 is Err ==> r == Err::<Tensor, Error>(s.0->Err_0),
        s.0 is Ok ==> {
            &&& model.mask_gives(input_positions, s.0->Ok_0, input_metadata, s.1)
            &&& model.layers_end(0, x, s.1, input_positions, kv_caches, input_metadata, r)
        },
{
    let ends = choose|ends: Result<Vec<u32>, Error>| #[trigger]
        input_metadata.sequence_ends_end(ends) && match ends {
            Err(e) => r == Err::<Tensor, Error>(e),
            Ok(ends) => exists|mask: Option<Vec<Tensor>>| #[trigger]
                model.mask_gives(input_positions, ends, input_metadata, mask) && model.layers_end(
                    0,
                    x,
                    mask,
                    input_positions,
                    kv_caches,
                    input_metadata,
                    r,
                ),
        };
    let bound = ends->Ok_0;
    let mask = choose|mask: Option<Vec<Tensor>>| #[trigger]
        model.mask_gives(input_positions, bound, input_metadata, mask) && model.layers_end(
            0,
            x,
            mask,
            input_positions,
            kv_caches,
            input_metadata,
            r,
        );
    (ends, mask)
}

/// Running all layers fails only where the bounds cannot be read, or with what the first failing
/// layer failed with on what the layers before it gave.
pub proof fn the_layers_fail_with_the_first_that_fails<N, A, O, R, M, F, X>(
    model: GGUFQWen<N, A, O, R, M, F>,
    x: Tensor,
    input_positions: Tensor,
    kv_caches: Option<&Vec<(Tensor, Tensor)>>,
    input_metadata: InputMetadata<X>,
    e: Error,
) -> (s: StackSteps) where
    N: Fn(&Tensor) -> Result<Tensor, Error>,
    R: Fn(&Tensor) -> Result<Tensor, Error>,
    O: Fn(&Tensor) -> Result<Tensor, Error>,
    M: Fn(&Device, DType, &Tensor, &Vec<u32>, Option<usize>, bool) -> Option<Vec<Tensor>>,
    A: Fn(
        &Tensor,
        Option<&Vec<Tensor>>,
        &Tensor,
        Option<(&Tensor, &Tensor)>,
        &InputMetadata<X>,
    ) -> Result<Tensor, Error>,
    F: Fn(&QMatMul, &QMatMul, &Tensor) -> Result<Option<Tensor>, Error>,

    requires
        input_metadata.cu_seqlens_q matches Some(t) ==> tensor_value(t).dtype == "u32"@
            && tensor_value(t).dims.len() == 1 ==> tensor_value(t).dims[0] > 0,
        model.stack_ends(x, input_positions, kv_caches, input_metadata, Err(e)),
    ensures
        ({
            let at = s.chain.layers.len() as int;
            ||| input_metadata.cu_seqlens_q matches Some(t) && read_may_end(
                tensor_value(t),
                Err(e),
            )
            ||| {
                &&& call_ensures(
                    model.mask,
                    (
                        &model.device,
                        model.dtype,
                        &input_positions,
                        &s.ends,
                        model.cfg.sliding_window,
                        input_metadata.is_prefill,
                    ),
                    s.mask,
                )
                &&& at < model.layers@.len()
                &&& kv_caches is Some ==> at < kv_caches->Some_0@.len()
                &&& s.chain.activations.len() == at + 1
                &&& s.chain.activations[0] == x
                &&& forall|i: int| #![trigger s.chain.layers[i]] 0 <= i < at ==> {
                    &&& call_ensures(
                        model.layers@[i].attention_norm,
                        (&s.chain.activations[i],),
                        Ok(s.chain.layers[i].normed),
                    )
                    &&& call_ensures(
                        model.layers@[i].self_attn,
                        (
                            &s.chain.layers[i].normed,
                            match s.mask {
                                Some(m) => Some(&m),
                                None => None,
                            },
                            &input_positions,
                            match kv_caches {
                                Some(caches) => Some((&caches@[i].0, &caches@[i].1)),
                                None => None,
                            },
                            &input_metadata,
                        ),
                        Ok(s.chain.layers[i].attended),
                    )
                    &&& sum_may_end(
                        tensor_value(s.chain.layers[i].attended),
                        tensor_value(s.chain.activations[i]),
                        Ok(tensor_value(s.chain.layers[i].middle)),
                    )
                    &&& call_ensures(
                        model.layers@[i].ffn_norm,
                        (&s.chain.layers[i].middle,),
                        Ok(s.chain.layers[i].renormed),
                    )
                    &&& model.layers@[i].mlp.forward_ends(
                        model.fused,
                        model.fused_glu,
                        s.chain.layers[i].renormed,
                        Ok(s.chain.layers[i].fed),
                    )
                    &&& sum_may_end(
                        tensor_value(s.chain.layers[i].fed),
                        tensor_value(s.chain.layers[i].middle),
                        Ok(tensor_value(s.chain.activations[i + 1])),
                    )
                }
                &&& model.layers@[at].forward_ends(
                    model.fused,
                    model.fused_glu,
                    s.chain.activations[at],
                    match s.mask {
                        Some(m) => Some(&m),
                        None => None,
                    },
                    input_positions,
                    match kv_caches {
                        Some(caches) => Some((&caches@[at].0, &caches@[at].1)),
                        None => None,
                    },
                    input_metadata,
                    Err(e),
                )
            }
        }),
{
    let r = Err::<Tensor, Error>(e);
    let (ends, mask) = mask_of_the_batch(model, x, input_positions, kv_caches, input_metadata, r);
    ends_are_all_bounds_but_the_first(input_metadata, ends);
    if ends is Err {
        let chain = ChainSteps { activations: seq![x], layers: Seq::empty() };
        StackSteps { ends: ends->Ok_0, mask, chain }
    } else {
        let chain = layers_are_run_in_order(
            model,
            0,
            x,
            mask,
            input_positions,
            kv_caches,
            input_metadata,
            r,
        );
        let s = StackSteps { ends: ends->Ok_0, mask, chain };
        assert forall|i: int| #![trigger s.chain.layers[i]] 0 <= i < s.chain.layers.len() implies {
            &&& call_ensures(
                model.layers@[i].attention_norm,
                (&s.chain.activations[i],),
                Ok(s.chain.layers[i].normed),
            )
            &&& call_ensures(
                model.layers@[i].self_attn,
                (
                    &s.chain.layers[i].normed,
                    match s.mask {
                        Some(m) => Some(&m),
                        None => None,
                    },
                    &input_positions,
                    match kv_caches {
                        Some(caches) => Some((&caches@[i].0, &caches@[i].1)),
                        None => None,
                    },
                    &input_metadata,
                ),
                Ok(s.chain.layers[i].attended),
            )
            &&& sum_may_end(
                tensor_value(s.chain.layers[i].attended),
                tensor_value(s.chain.activations[i]),
                Ok(tensor_value(s.chain.layers[i].middle)),
            )
            &&& call_ensures(
                model.layers@[i].ffn_norm,
                (&s.chain.layers[i].middle,),
                Ok(s.chain.layers[i].renormed),
            )
            &&& model.layers@[i].mlp.forward_ends(
                model.fused,
                model.fused_glu,
                s.chain.layers[i].renormed,
                Ok(s.chain.layers[i].fed),
            )
            &&& sum_may_end(
                tensor_value(s.chain.layers[i].fed),
                tensor_value(s.chain.layers[i].middle),
                Ok(tensor_value(s.chain.activations[i + 1])),
            )
        } by {
            assert(chain.layers[i] == s.chain.layers[i]);
            assert(model.layers@[0 + i] == model.layers@[i]);
        }
        s
    }
}

/// What each step of a pass over tokens ended in.
pub ghost struct PassEnds {
    /// Where the sequences end.
    pub ends: Result<Vec<u32>, Error>,
    /// The embedded tokens.
    pub embedded: Result<Tensor, Error>,
    /// What the layers gave.
    pub behind: Result<Tensor, Error>,
    /// The positions of the last tokens.
    pub positions: Result<Tensor, Error>,
    /// The rows that go on.
    pub picked: Result<Tensor, Error>,
    /// The normed activations.
    pub normed: Result<Tensor, Error>,
    /// Their projection to the vocabulary.
    pub projected: Result<Tensor, Error>,
}

/// The row of each sequence's last token is taken, the one before the sequence ends, in the order
/// of the sequences. This fails only where the positions cannot be put into a tensor, or the rows
/// cannot be taken.
pub proof fn the_rows_of_the_last_tokens_are_taken(
    x: Tensor,
    ends: Seq<u32>,
    r: Result<Tensor, Error>,
) -> (positions: Result<Tensor, Error>)
    requires
        forall|i: int| 0 <= i < ends.len() ==> #[trigger] ends[i] > 0,
        last_rows_end(x, ends, r),
    ensures
        u32_tensor_may_end(
            Seq::new(ends.len(), |i: int| (ends[i] - 1) as u32),
            tensor_value(x).device,
            tensor_end(positions),
        ),
        match positions {
            Err(e) => r == Err::<Tensor, Error>(e),
            Ok(ids) => {
                &&& select_may_end(tensor_value(x), tensor_value(ids), tensor_end(r))
                &&& tensor_value(ids).dims == seq![ends.len()]
                &&& tensor_value(ids).elems.len() == ends.len()
                &&& forall|i: int|
                    0 <= i < ends.len() ==> #[trigger] tensor_value(ids).elems[i] == ends[i] - 1
            },
        },
        r matches Ok(y) ==> {
            &&& tensor_value(y).dims == tensor_value(x).dims.update(0, ends.len())
            &&& tensor_value(y).dtype == tensor_value(x).dtype
            &&& forall|i: int, k: int|
                0 <= i < ends.len() && 0 <= k < row_len(tensor_value(x).dims)
                    ==> #[trigger] tensor_value(y).elems[i * row_len(tensor_value(x).dims) + k]
                    == tensor_value(x).elems[(ends[i] - 1) * row_len(tensor_value(x).dims) + k]
        },
{
    let before = Seq::new(ends.len(), |i: int| (ends[i] - 1) as u32);
    assert(before =~= last_tokens(ends));
    let ids = choose|ids: Result<Tensor, Error>| #[trigger]
        u32_tensor_ends(last_tokens(ends), tensor_value(x).device, ids) && match ids {
            Err(e) => r == Err::<Tensor, Error>(e),
            Ok(ids) => select_ends(x, ids, r),
        };
    if ids is Ok {
        let read = tensor_value(ids->Ok_0).elems;
        assert forall|i: int| 0 <= i < ends.len() implies #[trigger] read[i] == ends[i] - 1 by {
            assert(read[i] == last_tokens(ends)[i] as int);
        }
        if r is Ok {
            let y = r->Ok_0;
            assert(!read.contains(u32::MAX as int)) by {
                assert forall|i: int| 0 <= i < read.len() implies read[i] != u32::MAX as int by {
                    assert(read[i] == ends[i] - 1);
                }
            }
            assert forall|i: int, k: int|
                0 <= i < ends.len() && 0 <= k < row_len(
                    tensor_value(x).dims,
                ) implies #[trigger] tensor_value(y).elems[i * row_len(tensor_value(x).dims) + k]
                == tensor_value(x).elems[(ends[i] - 1) * row_len(tensor_value(x).dims) + k] by {
                one_row_for_each_sequence(x, ends, y, i, k);
            }
        }
    }
    ids
}

/// Logits are the first columns of the projection, as many as the vocabulary has tokens, as 32-bit
/// floats, whichever way they are cut. Cutting fails only where there are fewer columns, or where
/// candle cannot convert the elements.
pub proof fn logits_are_cut_from_the_projection(p: Tensor, vocab: nat, r: Result<Tensor, Error>)
    requires
        cut_logits_end(p, vocab, r) || flat_logits_end(p, vocab, r),
    ensures
        match r {
            Ok(logits) => {
                &&& tensor_value(p).dims.len() > 0
                &&& vocab <= tensor_value(p).dims.last()
                &&& tensor_value(logits).dims == tensor_value(p).dims.drop_last().push(vocab)
                &&& tensor_value(logits).dtype == "f32"@
                &&& tensor_value(logits).device == tensor_value(p).device
                &&& tensor_value(logits).elems == Seq::new(
                    elem_count(tensor_value(p).dims.drop_last()) * vocab,
                    |k: int|
                        f32_elem(
                            tensor_value(p).dtype,
                            tensor_value(p).elems[(k / vocab as int) * tensor_value(p).dims.last()
                                + k % vocab as int],
                        ),
                )
            },
            Err(_) => {
                ||| !is_stored(tensor_value(p).dtype)
                ||| tensor_value(p).dims.len() == 0
                ||| tensor_value(p).dims.last() < vocab
            },
        },
        flat_logits_end(p, vocab, r) && r is Ok ==> is_row_major(r->Ok_0),
{
    if r is Ok {
        logits_are_the_first_columns(p, vocab, r->Ok_0);
        assert(tensor_value(r->Ok_0).elems =~= Seq::new(
            elem_count(tensor_value(p).dims.drop_last()) * vocab,
            |k: int|
                f32_elem(
                    tensor_value(p).dtype,
                    tensor_value(p).elems[(k / vocab as int) * tensor_value(p).dims.last() + k
                        % vocab as int],
                ),
        ));
    }
}

/// A pass over tokens reads where the sequences end, looks the tokens up in the table, runs the
/// layers on what was found, and goes on with the last token of each sequence, or with all rows
/// where no sequence is closed or the activations are asked for. It gives the normed activations
/// where these are asked for, and otherwise the logits of them. It ends where one of these fails.
pub proof fn what_a_pass_gives<N, A, O, R, M, F, X>(
    model: GGUFQWen<N, A, O, R, M, F>,
    x: Tensor,
    input_positions: Tensor,
    kv_caches: Option<&Vec<(Tensor, Tensor)>>,
    input_metadata: InputMetadata<X>,
    return_hidden: bool,
    r: Result<Tensor, Error>,
) -> (s: PassEnds) where
    N: Fn(&Tensor) -> Result<Tensor, Error>,
    R: Fn(&Tensor) -> Result<Tensor, Error>,
    O: Fn(&Tensor) -> Result<Tensor, Error>,
    M: Fn(&Device, DType, &Tensor, &Vec<u32>, Option<usize>, bool) -> Option<Vec<Tensor>>,
    A: Fn(
        &Tensor,
        Option<&Vec<Tensor>>,
        &Tensor,
        Option<(&Tensor, &Tensor)>,
        &InputMetadata<X>,
    ) -> Result<Tensor, Error>,
    F: Fn(&QMatMul, &QMatMul, &Tensor) -> Result<Option<Tensor>, Error>,

    requires
        input_metadata.cu_seqlens_q matches Some(t) ==> tensor_value(t).dtype == "u32"@
            && tensor_value(t).dims.len() == 1 ==> tensor_value(t).dims[0] > 0,
        !return_hidden ==> (input_metadata.cu_seqlens_q matches Some(t) ==> forall|i: int|
            1 <= i < tensor_value(t).elems.len() ==> #[trigger] tensor_value(t).elems[i] > 0),
        model.inner_ends(x, input_positions, kv_caches, input_metadata, return_hidden, r),
    ensures
        match s.ends {
            Err(e) => {
                &&& r == Err::<Tensor, Error>(e)
                &&& input_metadata.cu_seqlens_q matches Some(t) && read_may_end(
                    tensor_value(t),
                    Err(e),
                )
            },
            Ok(ends) => {
                &&& match input_metadata.cu_seqlens_q {
                    None => ends@.len() == 0,
                    Some(t) => {
                        &&& tensor_value(t).elems.len() == ends@.len() + 1
                        &&& forall|i: int|
                            0 <= i < ends@.len() ==> #[trigger] ends@[i] == tensor_value(
                                t,
                            ).elems[i + 1]
                    },
                }
                &&& embed_may_end(
                    embedding_table(model.tok_embeddings),
                    embedding_width(model.tok_embeddings),
                    tensor_value(x),
                    tensor_end(s.embedded),
                )
            },
        },
        s.ends is Ok && s.embedded is Err ==> r == Err::<Tensor, Error>(s.embedded->Err_0),
        s.ends is Ok && s.embedded is Ok ==> model.stack_ends(
            s.embedded->Ok_0,
            input_positions,
            kv_caches,
            input_metadata,
            s.behind,
        ),
        s.ends is Ok && s.embedded is Ok && s.behind is Err ==> r == Err::<Tensor, Error>(
            s.behind->Err_0,
        ),
        s.ends is Ok && s.embedded is Ok && s.behind is Ok ==> {
            let (ends, behind) = (s.ends->Ok_0@, s.behind->Ok_0);
            &&& return_hidden || ends.len() == 0 ==> s.picked == s.behind
            &&& !return_hidden && ends.len() > 0 ==> {
                &&& u32_tensor_may_end(
                    Seq::new(ends.len(), |i: int| (ends[i] - 1) as u32),
                    tensor_value(behind).device,
                    tensor_end(s.positions),
                )
                &&& s.positions is Err ==> s.picked == s.positions
                &&& s.positions is Ok ==> select_may_end(
                    tensor_value(behind),
                    tensor_value(s.positions->Ok_0),
                    tensor_end(s.picked),
                )
                &&& s.picked is Ok ==> {
                    let len = row_len(tensor_value(behind).dims);
                    &&& tensor_value(s.picked->Ok_0).dims == tensor_value(behind).dims.update(
                        0,
                        ends.len(),
                    )
                    &&& forall|i: int, k: int|
                        0 <= i < ends.len() && 0 <= k < len ==> #[trigger] tensor_value(
                            s.picked->Ok_0,
                        ).elems[i * len + k] == tensor_value(behind).elems[(ends[i] - 1) * len + k]
                }
            }
            &&& match s.picked {
                Err(e) => r == Err::<Tensor, Error>(e),
                Ok(picked) => {
                    &&& call_ensures(model.norm, (&picked,), s.normed)
                    &&& match s.normed {
                        Err(e) => r == Err::<Tensor, Error>(e),
                        Ok(normed) => {
                            &&& return_hidden ==> r == Ok::<Tensor, Error>(normed)
                            &&& !return_hidden ==> call_ensures(
                                model.output,
                                (&normed,),
                                s.projected,
                            )
                            &&& !return_hidden && s.projected is Err ==> r == s.projected
                            &&& !return_hidden && s.projected is Ok ==> {
                                let p = tensor_value(s.projected->Ok_0);
                                match r {
                                    Ok(y) => {
                                        &&& p.dims.len() > 0
                                        &&& model.true_vocab_size <= p.dims.last()
                                        &&& tensor_value(y) == as_f32(
                                            narrowed(p, model.true_vocab_size as nat),
                                        )
                                    },
                                    Err(_) => {
                                        ||| !is_stored(p.dtype)
                                        ||| p.dims.len() == 0
                                        ||| p.dims.last() < model.true_vocab_size
                                    },
                                }
                            }
                        },
                    }
                },
            }
        },
{
    let ends = choose|ends: Result<Vec<u32>, Error>| #[trigger]
        input_metadata.sequence_ends_end(ends) && match ends {
            Err(e) => r == Err::<Tensor, Error>(e),
            Ok(ends) => exists|xs: Result<Tensor, Error>| #[trigger]
                embed_ends(model.tok_embeddings, x, xs) && match xs {
                    Err(e) => r == Err::<Tensor, Error>(e),
                    Ok(xs) => model.embedded_ends(
                        ends@,
                        xs,
                        input_positions,
                        kv_caches,
                        input_metadata,
                        return_hidden,
                        r,
                    ),
                },
        };
    ends_are_all_bounds_but_the_first(input_metadata, ends);
    let bound = ends->Ok_0;
    let embedded = choose|xs: Result<Tensor, Error>| #[trigger]
        embed_ends(model.tok_embeddings, x, xs) && match xs {
            Err(e) => r == Err::<Tensor, Error>(e),
            Ok(xs) => model.embedded_ends(
                bound@,
                xs,
                input_positions,
                kv_caches,
                input_metadata,
                return_hidden,
                r,
            ),
        };
    let e = embedded->Ok_0;
    let behind = choose|s: Result<Tensor, Error>| #[trigger]
        model.stack_ends(e, input_positions, kv_caches, input_metadata, s) && match s {
            Err(e) => r == Err::<Tensor, Error>(e),
            Ok(s) => model.tail_ends(bound@, s, return_hidden, r),
        };
    if ends is Ok && embedded is Ok && behind is Ok {
        let b = behind->Ok_0;
        assert(model.tail_ends(bound@, b, return_hidden, r));
        if bound@.len() > 0 && !return_hidden {
            let picked = choose|p: Result<Tensor, Error>| #[trigger]
                last_rows_end(b, bound@, p) && match p {
                    Err(e) => r == Err::<Tensor, Error>(e),
                    Ok(p) => model.head_ends(p, return_hidden, r),
                };
            assert forall|i: int| 0 <= i < bound@.len() implies #[trigger] bound@[i] > 0 by {
                let t = input_metadata.cu_seqlens_q->Some_0;
                assert(tensor_value(t).elems[i + 1] > 0);
            }
            let positions = the_rows_of_the_last_tokens_are_taken(b, bound@, picked);
            let (normed, projected) = if picked is Ok {
                ends_of_the_head(model, picked->Ok_0, return_hidden, r)
            } else {
                (r, r)
            };
            PassEnds { ends, embedded, behind, positions, picked, normed, projected }
        } else {
            let (normed, projected) = ends_of_the_head(model, b, return_hidden, r);
            PassEnds { ends, embedded, behind, positions: r, picked: behind, normed, projected }
        }
    } else {
        PassEnds {
            ends,
            embedded,
            behind,
            positions: r,
            picked: r,
            normed: r,
            projected: r,
        }
    }
}

/// What the final norm and the projection ended in.
proof fn ends_of_the_head<N, A, O, R, M, F>(
    model: GGUFQWen<N, A, O, R, M, F>,
    x: Tensor,
    return_hidden: bool,
    r: Result<Tensor, Error>,
) -> (s: (Result<Tensor, Error>, Result<Tensor, Error>)) where
    N: Fn(&Tensor) -> Result<Tensor, Error>,
    R: Fn(&Tensor) -> Result<Tensor, Error>,
    O: Fn(&Tensor) -> Result<Tensor, Error>,
    M: Fn(&Device, DType, &Tensor, &Vec<u32>, Option<usize>, bool) -> Option<Vec<Tensor>>,
    F: Fn(&QMatMul, &QMatMul, &Tensor) -> Result<Option<Tensor>, Error>,

    requires
        model.head_ends(x, return_hidden, r),
    ensures
        call_ensures(model.norm, (&x,), s.0),
        s.0 is Err ==> r == s.0,
        s.0 is Ok && return_hidden ==> r == s.0,
        s.0 is Ok && !return_hidden ==> call_ensures(model.output, (&s.0->Ok_0,), s.1),
        s.0 is Ok && !return_hidden && s.1 is Err ==> r == s.1,
        s.0 is Ok && !return_hidden && s.1 is Ok ==> {
            let p = tensor_value(s.1->Ok_0);
            match r {
                Ok(y) => {
                    &&& p.dims.len() > 0
                    &&& model.true_vocab_size <= p.dims.last()
                    &&& tensor_value(y) == as_f32(narrowed(p, model.true_vocab_size as nat))
                },
                Err(_) => {
                    ||| !is_stored(p.dtype)
                    ||| p.dims.len() == 0
                    ||| p.dims.last() < model.true_vocab_size
                },
            }
        },
{
    let h = choose|h: Result<Tensor, Error>| #[trigger]
        call_ensures(model.norm, (&x,), h) && match h {
            Err(e) => r == Err::<Tensor, Error>(e),
            Ok(h) => if return_hidden {
                r == Ok::<Tensor, Error>(h)
            } else {
                model.logits_end(h, r)
            },
        };
    if h is Ok && !return_hidden {
        let hidden = h->Ok_0;
        assert(model.logits_end(hidden, r));
        let p = choose|p: Result<Tensor, Error>| #[trigger]
            call_ensures(model.output, (&hidden,), p) && match p {
                Err(e) => r == Err::<Tensor, Error>(e),
                Ok(p) => cut_logits_end(p, model.true_vocab_size as nat, r),
            };
        if p is Ok {
            logits_are_cut_from_the_projection(p->Ok_0, model.true_vocab_size as nat, r);
            if r is Ok {
                logits_are_the_first_columns(p->Ok_0, model.true_vocab_size as nat, r->Ok_0);
            }
        }
        (h, p)
    } else {
        (h, h)
    }
}

/// What each step of decoding from embeddings ended in.
pub ghost struct DecodeEnds {
    /// What the layers gave.
    pub behind: Result<Tensor, Error>,
    /// The normed activations.
    pub normed: Result<Tensor, Error>,
    /// Their projection to the vocabulary.
    pub projected: Result<Tensor, Error>,
}

/// Decoding from embeddings runs the layers on them and gives the normed activations of every
/// position, and the logits of these, which lie in one piece. It ends where one of these fails.
pub proof fn what_decoding_gives<N, A, O, R, M, F, X>(
    model: GGUFQWen<N, A, O, R, M, F>,
    embeddings: Tensor,
    input_positions: Tensor,
    kv_caches: Option<&Vec<(Tensor, Tensor)>>,
    input_metadata: InputMetadata<X>,
    r: Result<(Tensor, Tensor), Error>,
) -> (s: DecodeEnds) where
    N: Fn(&Tensor) -> Result<Tensor, Error>,
    R: Fn(&Tensor) -> Result<Tensor, Error>,
    O: Fn(&Tensor) -> Result<Tensor, Error>,
    M: Fn(&Device, DType, &Tensor, &Vec<u32>, Option<usize>, bool) -> Option<Vec<Tensor>>,
    A: Fn(
        &Tensor,
        Option<&Vec<Tensor>>,
        &Tensor,
        Option<(&Tensor, &Tensor)>,
        &InputMetadata<X>,
    ) -> Result<Tensor, Error>,
    F: Fn(&QMatMul, &QMatMul, &Tensor) -> Result<Option<Tensor>, Error>,

    requires
        model.from_embeddings_ends(embeddings, input_positions, kv_caches, input_metadata, r),
    ensures
        model.stack_ends(embeddings, input_positions, kv_caches, input_metadata, s.behind),
        match s.behind {
            Err(e) => r == Err::<(Tensor, Tensor), Error>(e),
            Ok(behind) => {
                &&& call_ensures(model.norm, (&behind,), s.normed)
                &&& match s.normed {
                    Err(e) => r == Err::<(Tensor, Tensor), Error>(e),
                    Ok(normed) => {
                        &&& call_ensures(model.output, (&normed,), s.projected)
                        &&& match s.projected {
                            Err(e) => r == Err::<(Tensor, Tensor), Error>(e),
                            Ok(projected) => {
                                let p = tensor_value(projected);
                                match r {
                                    Ok((logits, hidden)) => {
                                        &&& hidden == normed
                                        &&& p.dims.len() > 0
                                        &&& model.true_vocab_size <= p.dims.last()
                                        &&& tensor_value(logits) == as_f32(
                                            narrowed(p, model.true_vocab_size as nat),
                                        )
                                        &&& is_row_major(logits)
                                    },
                                    Err(_) => {
                                        ||| !is_stored(p.dtype)
                                        ||| p.dims.len() == 0
                                        ||| p.dims.last() < model.true_vocab_size
                                    },
                                }
                            },
                        }
                    },
                }
            },
        },
{
    let s = choose|s: Result<Tensor, Error>| #[trigger]
        model.stack_ends(embeddings, input_positions, kv_caches, input_metadata, s) && match s {
            Err(e) => r == Err::<(Tensor, Tensor), Error>(e),
            Ok(s) => exists|h: Result<Tensor, Error>| #[trigger]
                call_ensures(model.norm, (&s,), h) && match h {
                    Err(e) => r == Err::<(Tensor, Tensor), Error>(e),
                    Ok(h) => model.flat_head_ends(h, r),
                },
        };
    let behind = s->Ok_0;
    let h = choose|h: Result<Tensor, Error>| #[trigger]
        call_ensures(model.norm, (&behind,), h) && match h {
            Err(e) => r == Err::<(Tensor, Tensor), Error>(e),
            Ok(h) => model.flat_head_ends(h, r),
        };
    let normed = h->Ok_0;
    let p = choose|p: Result<Tensor, Error>| #[trigger]
        call_ensures(model.output, (&normed,), p) && match p {
            Err(e) => r == Err::<(Tensor, Tensor), Error>(e),
            Ok(p) => exists|l: Result<Tensor, Error>| #[trigger]
                flat_logits_end(p, model.true_vocab_size as nat, l) && match l {
                    Err(e) => r == Err::<(Tensor, Tensor), Error>(e),
                    Ok(l) => r == Ok::<(Tensor, Tensor), Error>((l, normed)),
                },
        };
    if s is Ok && h is Ok && p is Ok {
        let projected = p->Ok_0;
        let l = choose|l: Result<Tensor, Error>| #[trigger]
            flat_logits_end(projected, model.true_vocab_size as nat, l) && match l {
                Err(e) => r == Err::<(Tensor, Tensor), Error>(e),
                Ok(l) => r == Ok::<(Tensor, Tensor), Error>((l, normed)),
            };
        logits_are_cut_from_the_projection(projected, model.true_vocab_size as nat, l);
        if l is Ok {
            logits_are_the_first_columns(projected, model.true_vocab_size as nat, l->Ok_0);
        }
    }
    DecodeEnds { behind: s, normed: h, projected: p }
}

} // verus!
