//! What holds of two runs of a model whose blocks repeat themselves.

use crate::batch::InputMetadata;
use crate::laws::{
    keeps_the_rows, keeps_the_shape, parts_of_a_forward_pass, the_stack_keeps_the_shape,
};
use crate::layer::LayerWeights;
use crate::mlp_laws::{a_block_repeats, are_alike, fused_repeats, kernels_repeat, repeats};
use crate::model::{cache_at, lent, GGUFQWen};
use crate::row_laws::{
    activations_are_those_of_decoding, agree_on_columns, decoding_runs, decoding_runs_its_layers,
    forward_gives_the_last_rows_of_decoding, last_positions, padding_plays_no_part, pass_runs,
    picked, the_modes_differ_by_selection_and_projection, works_row_by_row,
};
use crate::stack_laws::{
    are_stacked, have_one_stack, is_stacked, stacks_compose, the_stack_rests_on_its_layers,
};
use crate::tensor::{
    embed_ends, read_ends, sum_ends, sum_may_end, tensor_end, tensor_value, u32_vector, TensorValue,
};
use candle_core::quantized::QMatMul;
use candle_core::{DType, Device, Error, Tensor};
use vstd::prelude::*;

verus! {

/// Whether adding tensors makes the same of the same.
pub open spec fn sums_repeat() -> bool {
    forall|
        x: TensorValue,
        y: TensorValue,
        a: Result<TensorValue, Error>,
        b: Result<TensorValue, Error>,
    |
        #![trigger sum_may_end(x, y, a), sum_may_end(x, y, b)]
        sum_may_end(x, y, a) && sum_may_end(x, y, b) ==> are_alike(a, b)
}

/// Whether two masks hold the same.
pub open spec fn masks_alike(a: Option<&Vec<Tensor>>, b: Option<&Vec<Tensor>>) -> bool {
    match (a, b) {
        (Some(a), Some(b)) => {
            &&& a@.len() == b@.len()
            &&& forall|i: int|
                0 <= i < a@.len() ==> tensor_value(#[trigger] a@[i]) == tensor_value(b@[i])
        },
        (None, None) => true,
        _ => false,
    }
}

/// Whether `f`, an attention, makes the same of the same.
pub open spec fn attention_repeats<A, X>(f: A) -> bool where
    A: Fn(
        &Tensor,
        Option<&Vec<Tensor>>,
        &Tensor,
        Option<(&Tensor, &Tensor)>,
        &InputMetadata<X>,
    ) -> Result<Tensor, Error>,
 {
    forall|
        t: Tensor,
        u: Tensor,
        mask: Option<&Vec<Tensor>>,
        other: Option<&Vec<Tensor>>,
        positions: Tensor,
        cache: Option<(&Tensor, &Tensor)>,
        metadata: InputMetadata<X>,
        a: Result<Tensor, Error>,
        b: Result<Tensor, Error>,
    |
        #![trigger call_ensures(f, (&t, mask, &positions, cache, &metadata), a),
            call_ensures(f, (&u, other, &positions, cache, &metadata), b)]
        call_ensures(f, (&t, mask, &positions, cache, &metadata), a) && call_ensures(
            f,
            (&u, other, &positions, cache, &metadata),
            b,
        ) && tensor_value(t) == tensor_value(u) && masks_alike(mask, other) ==> are_alike(
            tensor_end(a),
            tensor_end(b),
        )
}

/// Whether `f`, a causal mask, makes the same of the same.
pub open spec fn mask_repeats<M>(f: M) -> bool where
    M: Fn(&Device, DType, &Tensor, &Vec<u32>, Option<usize>, bool) -> Option<Vec<Tensor>>,
 {
    forall|
        device: Device,
        dtype: DType,
        positions: Tensor,
        ends: Vec<u32>,
        others: Vec<u32>,
        window: Option<usize>,
        is_prefill: bool,
        a: Option<Vec<Tensor>>,
        b: Option<Vec<Tensor>>,
    |
        #![trigger call_ensures(f, (&device, dtype, &positions, &ends, window, is_prefill), a),
            call_ensures(f, (&device, dtype, &positions, &others, window, is_prefill), b)]
        call_ensures(f, (&device, dtype, &positions, &ends, window, is_prefill), a) && call_ensures(
            f,
            (&device, dtype, &positions, &others, window, is_prefill),
            b,
        ) && ends@ == others@ ==> masks_alike(lent(&a), lent(&b))
}

/// Whether the blocks of a layer repeat themselves.
pub open spec fn layer_repeats<N, A, R, X>(layer: LayerWeights<N, A, R>) -> bool where
    N: Fn(&Tensor) -> Result<Tensor, Error>,
    R: Fn(&Tensor) -> Result<Tensor, Error>,
    A: Fn(
        &Tensor,
        Option<&Vec<Tensor>>,
        &Tensor,
        Option<(&Tensor, &Tensor)>,
        &InputMetadata<X>,
    ) -> Result<Tensor, Error>,
 {
    &&& attention_repeats::<A, X>(layer.self_attn)
    &&& repeats(layer.attention_norm)
    &&& repeats(layer.ffn_norm)
    &&& layer.mlp.all_reduce matches Some(f) ==> repeats(f)
}

/// Whether the kernels and the blocks in the layers of a model repeat themselves.
pub open spec fn layers_repeat<N, A, O, R, M, F, X>(model: GGUFQWen<N, A, O, R, M, F>) -> bool where
    N: Fn(&Tensor) -> Result<Tensor, Error>,
    R: Fn(&Tensor) -> Result<Tensor, Error>,
    O: Fn(&Tensor) -> Result<Tensor, Error>,
    M: Fn(&Device, DType, &Tensor, &Vec<u32>, Option<usize>, bool) -> Option<Vec<Tensor>>,
    A: Fn(
        &Tensor,
        Option<&Vec<Tensor>>,
        &Tensor,
        Option<(&Tensor, &Tensor)>,
        &InputMetadata<X>,
    ) -> Result<Tensor, Error>,
    F: Fn(&QMatMul, &QMatMul, &Tensor) -> Result<Option<Tensor>, Error>,
 {
    &&& kernels_repeat()
    &&& sums_repeat()
    &&& mask_repeats(model.mask)
    &&& model.fused_glu ==> fused_repeats(model.fused)
    &&& forall|i: int|
        0 <= i < model.layers@.len() ==> #[trigger] layer_repeats::<N, A, R, X>(model.layers@[i])
}

/// The first half of a layer repeats itself where its blocks do.
proof fn an_attention_half_repeats<N, A, R, X>(
    layer: LayerWeights<N, A, R>,
    x: Tensor,
    y: Tensor,
    mask: Option<&Vec<Tensor>>,
    other: Option<&Vec<Tensor>>,
    input_positions: Tensor,
    cache: Option<(&Tensor, &Tensor)>,
    input_metadata: InputMetadata<X>,
    a: Result<Tensor, Error>,
    b: Result<Tensor, Error>,
) where
    N: Fn(&Tensor) -> Result<Tensor, Error>,
    R: Fn(&Tensor) -> Result<Tensor, Error>,
    A: Fn(
        &Tensor,
        Option<&Vec<Tensor>>,
        &Tensor,
        Option<(&Tensor, &Tensor)>,
        &InputMetadata<X>,
    ) -> Result<Tensor, Error>,

    requires
        sums_repeat(),
        layer_repeats::<N, A, R, X>(layer),
        tensor_value(x) == tensor_value(y),
        masks_alike(mask, other),
        layer.attention_half_ends(x, mask, input_positions, cache, input_metadata, a),
        layer.attention_half_ends(y, other, input_positions, cache, input_metadata, b),
    ensures
        are_alike(tensor_end(a), tensor_end(b)),
{
    let m = choose|n: Result<Tensor, Error>| #[trigger]
        call_ensures(layer.attention_norm, (&x,), n) && match n {
            Err(e) => a == Err::<Tensor, Error>(e),
            Ok(n) => exists|s: Result<Tensor, Error>| #[trigger]
                layer.attn_ends(n, mask, input_positions, cache, input_metadata, s) && match s {
                    Err(e) => a == Err::<Tensor, Error>(e),
                    Ok(s) => sum_ends(s, x, a),
                },
        };
    let n = choose|n: Result<Tensor, Error>| #[trigger]
        call_ensures(layer.attention_norm, (&y,), n) && match n {
            Err(e) => b == Err::<Tensor, Error>(e),
            Ok(n) => exists|s: Result<Tensor, Error>| #[trigger]
                layer.attn_ends(n, other, input_positions, cache, input_metadata, s) && match s {
                    Err(e) => b == Err::<Tensor, Error>(e),
                    Ok(s) => sum_ends(s, y, b),
                },
        };
    assert(are_alike(tensor_end(m), tensor_end(n)));
    if m is Ok {
        let (p, q) = (m->Ok_0, n->Ok_0);
        let s = choose|s: Result<Tensor, Error>| #[trigger]
            layer.attn_ends(p, mask, input_positions, cache, input_metadata, s) && match s {
                Err(e) => a == Err::<Tensor, Error>(e),
                Ok(s) => sum_ends(s, x, a),
            };
        let t = choose|s: Result<Tensor, Error>| #[trigger]
            layer.attn_ends(q, other, input_positions, cache, input_metadata, s) && match s {
                Err(e) => b == Err::<Tensor, Error>(e),
                Ok(s) => sum_ends(s, y, b),
            };
        assert(are_alike(tensor_end(s), tensor_end(t)));
    }
}

/// The second half of a layer repeats itself where its blocks do.
proof fn an_mlp_half_repeats<N, A, R, X, F>(
    layer: LayerWeights<N, A, R>,
    fused: F,
    fused_glu: bool,
    x: Tensor,
    y: Tensor,
    a: Result<Tensor, Error>,
    b: Result<Tensor, Error>,
) where
    N: Fn(&Tensor) -> Result<Tensor, Error>,
    R: Fn(&Tensor) -> Result<Tensor, Error>,
    A: Fn(
        &Tensor,
        Option<&Vec<Tensor>>,
        &Tensor,
        Option<(&Tensor, &Tensor)>,
        &InputMetadata<X>,
    ) -> Result<Tensor, Error>,
    F: Fn(&QMatMul, &QMatMul, &Tensor) -> Result<Option<Tensor>, Error>,

    requires
        kernels_repeat(),
        sums_repeat(),
        fused_glu ==> fused_repeats(fused),
        layer_repeats::<N, A, R, X>(layer),
        tensor_value(x) == tensor_value(y),
        layer.mlp_half_ends(fused, fused_glu, x, a),
        layer.mlp_half_ends(fused, fused_glu, y, b),
    ensures
        are_alike(tensor_end(a), tensor_end(b)),
{
    let m = choose|n: Result<Tensor, Error>| #[trigger]
        call_ensures(layer.ffn_norm, (&x,), n) && match n {
            Err(e) => a == Err::<Tensor, Error>(e),
            Ok(n) => exists|d: Result<Tensor, Error>| #[trigger]
                layer.mlp.forward_ends(fused, fused_glu, n, d) && match d {
                    Err(e) => a == Err::<Tensor, Error>(e),
                    Ok(d) => sum_ends(d, x, a),
                },
        };
    let n = choose|n: Result<Tensor, Error>| #[trigger]
        call_ensures(layer.ffn_norm, (&y,), n) && match n {
            Err(e) => b == Err::<Tensor, Error>(e),
            Ok(n) => exists|d: Result<Tensor, Error>| #[trigger]
                layer.mlp.forward_ends(fused, fused_glu, n, d) && match d {
                    Err(e) => b == Err::<Tensor, Error>(e),
                    Ok(d) => sum_ends(d, y, b),
                },
        };
    assert(are_alike(tensor_end(m), tensor_end(n)));
    if m is Ok {
        let (p, q) = (m->Ok_0, n->Ok_0);
        let s = choose|d: Result<Tensor, Error>| #[trigger]
            layer.mlp.forward_ends(fused, fused_glu, p, d) && match d {
                Err(e) => a == Err::<Tensor, Error>(e),
                Ok(d) => sum_ends(d, x, a),
            };
        let t = choose|d: Result<Tensor, Error>| #[trigger]
            layer.mlp.forward_ends(fused, fused_glu, q, d) && match d {
                Err(e) => b == Err::<Tensor, Error>(e),
                Ok(d) => sum_ends(d, y, b),
            };
        a_block_repeats(layer.mlp, fused, fused_glu, p, q, s, t);
    }
}

/// A layer makes the same of the same where its blocks and the kernels repeat themselves.
pub proof fn a_layer_repeats<N, A, R, X, F>(
    layer: LayerWeights<N, A, R>,
    fused: F,
    fused_glu: bool,
    x: Tensor,
    y: Tensor,
    mask: Option<&Vec<Tensor>>,
    other: Option<&Vec<Tensor>>,
    input_positions: Tensor,
    cache: Option<(&Tensor, &Tensor)>,
    input_metadata: InputMetadata<X>,
    a: Result<Tensor, Error>,
    b: Result<Tensor, Error>,
) where
    N: Fn(&Tensor) -> Result<Tensor, Error>,
    R: Fn(&Tensor) -> Result<Tensor, Error>,
    A: Fn(
        &Tensor,
        Option<&Vec<Tensor>>,
        &Tensor,
        Option<(&Tensor, &Tensor)>,
        &InputMetadata<X>,
    ) -> Result<Tensor, Error>,
    F: Fn(&QMatMul, &QMatMul, &Tensor) -> Result<Option<Tensor>, Error>,

    requires
        kernels_repeat(),
        sums_repeat(),
        fused_glu ==> fused_repeats(fused),
        layer_repeats::<N, A, R, X>(layer),
        tensor_value(x) == tensor_value(y),
        masks_alike(mask, other),
        layer.forward_ends(
            fused,
            fused_glu,
            x,
            mask,
            input_positions,
            cache,
            input_metadata,
            a,
        ),
        layer.forward_ends(
            fused,
            fused_glu,
            y,
            other,
            input_positions,
            cache,
            input_metadata,
            b,
        ),
    ensures
        are_alike(tensor_end(a), tensor_end(b)),
{
    let g = choose|h: Result<Tensor, Error>| #[trigger]
        layer.attention_half_ends(x, mask, input_positions, cache, input_metadata, h) && match h {
            Err(e) => a == Err::<Tensor, Error>(e),
            Ok(h) => layer.mlp_half_ends(fused, fused_glu, h, a),
        };
    let h = choose|h: Result<Tensor, Error>| #[trigger]
        layer.attention_half_ends(y, other, input_positions, cache, input_metadata, h) && match h {
            Err(e) => b == Err::<Tensor, Error>(e),
            Ok(h) => layer.mlp_half_ends(fused, fused_glu, h, b),
        };
    an_attention_half_repeats(
        layer,
        x,
        y,
        mask,
        other,
        input_positions,
        cache,
        input_metadata,
        g,
        h,
    );
    if g is Ok {
        an_mlp_half_repeats::<N, A, R, X, F>(layer, fused, fused_glu, g->Ok_0, h->Ok_0, a, b);
    }
}

/// The layers from `i` on make the same of the same where they repeat themselves.
proof fn the_rest_repeats<N, A, O, R, M, F, X>(
    model: GGUFQWen<N, A, O, R, M, F>,
    i: nat,
    x: Tensor,
    y: Tensor,
    mask: Option<Vec<Tensor>>,
    other: Option<Vec<Tensor>>,
    input_positions: Tensor,
    kv_caches: Option<&Vec<(Tensor, Tensor)>>,
    input_metadata: InputMetadata<X>,
    a: Result<Tensor, Error>,
    b: Result<Tensor, Error>,
) where
    N: Fn(&Tensor) -> Result<Tensor, Error>,
    R: Fn(&Tensor) -> Result<Tensor, Error>,
    O: Fn(&Tensor) -> Result<Tensor, Error>,
    M: Fn(&Device, DType, &Tensor, &Vec<u32>, Option<usize>, bool) -> Option<Vec<Tensor>>,
    A: Fn(
        &Tensor,
        Option<&Vec<Tensor>>,
        &Tensor,
        Option<(&Tensor, &Tensor)>,
        &InputMetadata<X>,
    ) -> Result<Tensor, Error>,
    F: Fn(&QMatMul, &QMatMul, &Tensor) -> Result<Option<Tensor>, Error>,

    requires
        layers_repeat::<N, A, O, R, M, F, X>(model),
        tensor_value(x) == tensor_value(y),
        masks_alike(lent(&mask), lent(&other)),
        model.layers_end(i, x, mask, input_positions, kv_caches, input_metadata, a),
        model.layers_end(i, y, other, input_positions, kv_caches, input_metadata, b),
    ensures
        are_alike(tensor_end(a), tensor_end(b)),
    decreases model.depth(kv_caches) - i,
{
    if i < model.depth(kv_caches) {
        let layer = model.layers@[i as int];
        let cache = cache_at(kv_caches, i as int);
        let s = choose|s: Result<Tensor, Error>| #[trigger]
            model.layers@[i as int].forward_ends(
                model.fused,
                model.fused_glu,
                x,
                lent(&mask),
                input_positions,
                cache_at(kv_caches, i as int),
                input_metadata,
                s,
            ) && match s {
                Err(e) => a == Err::<Tensor, Error>(e),
                Ok(s) => model.layers_end(
                    i + 1,
                    s,
                    mask,
                    input_positions,
                    kv_caches,
                    input_metadata,
                    a,
                ),
            };
        let t = choose|t: Result<Tensor, Error>| #[trigger]
            model.layers@[i as int].forward_ends(
                model.fused,
                model.fused_glu,
                y,
                lent(&other),
                input_positions,
                cache_at(kv_caches, i as int),
                input_metadata,
                t,
            ) && match t {
                Err(e) => b == Err::<Tensor, Error>(e),
                Ok(t) => model.layers_end(
                    i + 1,
                    t,
                    other,
                    input_positions,
                    kv_caches,
                    input_metadata,
                    b,
                ),
            };
        assert(layer_repeats::<N, A, R, X>(model.layers@[i as int]));
        a_layer_repeats(
            layer,
            model.fused,
            model.fused_glu,
            x,
            y,
            lent(&mask),
            lent(&other),
            input_positions,
            cache,
            input_metadata,
            s,
            t,
        );
        if s is Ok {
            the_rest_repeats(
                model,
                i + 1,
                s->Ok_0,
                t->Ok_0,
                mask,
                other,
                input_positions,
                kv_caches,
                input_metadata,
                a,
                b,
            );
        }
    }
}

/// A vector of 32-bit integers holds what it was made of.
proof fn vectors_hold_their_elements(a: Seq<u32>, b: Seq<u32>, device: Device)
    requires
        u32_vector(a, device) == u32_vector(b, device),
    ensures
        a == b,
{
    let (v, w) = (u32_vector(a, device), u32_vector(b, device));
    assert(v.dims[0] == w.dims[0]);
    assert forall|i: int| 0 <= i < a.len() implies a[i] == b[i] by {
        assert(v.elems[i] == a[i] as int && w.elems[i] == b[i] as int);
    }
    assert(a =~= b);
}

/// Bounds are read alike whenever they are read.
pub proof fn bounds_are_read_alike<X>(
    input_metadata: InputMetadata<X>,
    a: Result<Vec<u32>, Error>,
    b: Result<Vec<u32>, Error>,
)
    requires
        input_metadata.sequence_ends_end(a),
        input_metadata.sequence_ends_end(b),
    ensures
        a is Ok == b is Ok,
        a is Ok ==> a->Ok_0@ == b->Ok_0@,
{
    if input_metadata.cu_seqlens_q is Some {
        let bounds = input_metadata.cu_seqlens_q->Some_0;
        let p = choose|all: Result<Vec<u32>, Error>| #[trigger]
            read_ends(bounds, all) && match all {
                Err(e) => a == Err::<Vec<u32>, Error>(e),
                Ok(all) => a is Ok && a->Ok_0@ == all@.skip(1),
            };
        let q = choose|all: Result<Vec<u32>, Error>| #[trigger]
            read_ends(bounds, all) && match all {
                Err(e) => b == Err::<Vec<u32>, Error>(e),
                Ok(all) => b is Ok && b->Ok_0@ == all@.skip(1),
            };
        if p is Ok && q is Ok {
            vectors_hold_their_elements(p->Ok_0@, q->Ok_0@, tensor_value(bounds).device);
        }
    }
}

/// Where the kernels and the blocks in the layers repeat themselves, the layers make the same of
/// the same.
pub proof fn the_stack_repeats<N, A, O, R, M, F, X>(
    model: GGUFQWen<N, A, O, R, M, F>,
    x: Tensor,
    y: Tensor,
    input_positions: Tensor,
    kv_caches: Option<&Vec<(Tensor, Tensor)>>,
    input_metadata: InputMetadata<X>,
    a: Result<Tensor, Error>,
    b: Result<Tensor, Error>,
) where
    N: Fn(&Tensor) -> Result<Tensor, Error>,
    R: Fn(&Tensor) -> Result<Tensor, Error>,
    O: Fn(&Tensor) -> Result<Tensor, Error>,
    M: Fn(&Device, DType, &Tensor, &Vec<u32>, Option<usize>, bool) -> Option<Vec<Tensor>>,
    A: Fn(
        &Tensor,
        Option<&Vec<Tensor>>,
        &Tensor,
        Option<(&Tensor, &Tensor)>,
        &InputMetadata<X>,
    ) -> Result<Tensor, Error>,
    F: Fn(&QMatMul, &QMatMul, &Tensor) -> Result<Option<Tensor>, Error>,

    requires
        layers_repeat::<N, A, O, R, M, F, X>(model),
        tensor_value(x) == tensor_value(y),
        model.stack_ends(x, input_positions, kv_caches, input_metadata, a),
        model.stack_ends(y, input_positions, kv_caches, input_metadata, b),
    ensures
        are_alike(tensor_end(a), tensor_end(b)),
{
    let p = choose|ends: Result<Vec<u32>, Error>| #[trigger]
        input_metadata.sequence_ends_end(ends) && match ends {
            Err(e) => a == Err::<Tensor, Error>(e),
            Ok(ends) => exists|mask: Option<Vec<Tensor>>| #[trigger]
                model.mask_gives(input_positions, ends, input_metadata, mask) && model.layers_end(
                    0,
                    x,
                    mask,
                    input_positions,
                    kv_caches,
                    input_metadata,
                    a,
                ),
        };
    let q = choose|ends: Result<Vec<u32>, Error>| #[trigger]
        input_metadata.sequence_ends_end(ends) && match ends {
            Err(e) => b == Err::<Tensor, Error>(e),
            Ok(ends) => exists|mask: Option<Vec<Tensor>>| #[trigger]
                model.mask_gives(input_positions, ends, input_metadata, mask) && model.layers_end(
                    0,
                    y,
                    mask,
                    input_positions,
                    kv_caches,
                    input_metadata,
                    b,
                ),
        };
    bounds_are_read_alike(input_metadata, p, q);
    if p is Ok {
        let (ends, others) = (p->Ok_0, q->Ok_0);
        let mask = choose|mask: Option<Vec<Tensor>>| #[trigger]
            model.mask_gives(input_positions, ends, input_metadata, mask) && model.layers_end(
                0,
                x,
                mask,
                input_positions,
                kv_caches,
                input_metadata,
                a,
            );
        let other = choose|mask: Option<Vec<Tensor>>| #[trigger]
            model.mask_gives(input_positions, others, input_metadata, mask) && model.layers_end(
                0,
                y,
                mask,
                input_positions,
                kv_caches,
                input_metadata,
                b,
            );
        assert(masks_alike(lent(&mask), lent(&other)));
        the_rest_repeats(
            model,
            0,
            x,
            y,
            mask,
            other,
            input_positions,
            kv_caches,
            input_metadata,
            a,
            b,
        );
    }
}

/// Running one stack, then another on what it gave, and running the stack of the two end alike,
/// where the layers repeat themselves.
pub proof fn stacks_that_repeat_compose<N, A, O, R, M, F, X>(
    a: GGUFQWen<N, A, O, R, M, F>,
    b: GGUFQWen<N, A, O, R, M, F>,
    m: GGUFQWen<N, A, O, R, M, F>,
    x: Tensor,
    input_positions: Tensor,
    first: Option<&Vec<(Tensor, Tensor)>>,
    rest: Option<&Vec<(Tensor, Tensor)>>,
    whole: Option<&Vec<(Tensor, Tensor)>>,
    input_metadata: InputMetadata<X>,
    y: Result<Tensor, Error>,
    r: Result<Tensor, Error>,
    z: Result<Tensor, Error>,
) where
    N: Fn(&Tensor) -> Result<Tensor, Error>,
    R: Fn(&Tensor) -> Result<Tensor, Error>,
    O: Fn(&Tensor) -> Result<Tensor, Error>,
    M: Fn(&Device, DType, &Tensor, &Vec<u32>, Option<usize>, bool) -> Option<Vec<Tensor>>,
    A: Fn(
        &Tensor,
        Option<&Vec<Tensor>>,
        &Tensor,
        Option<(&Tensor, &Tensor)>,
        &InputMetadata<X>,
    ) -> Result<Tensor, Error>,
    F: Fn(&QMatMul, &QMatMul, &Tensor) -> Result<Option<Tensor>, Error>,

    requires
        layers_repeat::<N, A, O, R, M, F, X>(m),
        is_stacked(a, b, m),
        are_stacked(first, a.layers@.len(), rest, b.layers@.len(), whole),
        a.stack_ends(x, input_positions, first, input_metadata, y),
        match y {
            Err(e) => r == Err::<Tensor, Error>(e),
            Ok(y) => b.stack_ends(y, input_positions, rest, input_metadata, r),
        },
        m.stack_ends(x, input_positions, whole, input_metadata, z),
    ensures
        are_alike(tensor_end(r), tensor_end(z)),
{
    assert forall|i: int| 0 <= i < a.layers@.len() implies #[trigger] layer_repeats::<N, A, R, X>(
        a.layers@[i],
    ) by {
        assert(m.layers@[i] == a.layers@[i]);
    }
    assert forall|i: int| 0 <= i < b.layers@.len() implies #[trigger] layer_repeats::<N, A, R, X>(
        b.layers@[i],
    ) by {
        assert(m.layers@[a.layers@.len() + i] == b.layers@[i]);
    }
    stacks_compose(a, b, m, x, input_positions, first, rest, whole, input_metadata, z);
    let w = choose|w: Result<Tensor, Error>| #[trigger]
        a.stack_ends(x, input_positions, first, input_metadata, w) && match w {
            Err(e) => z == Err::<Tensor, Error>(e),
            Ok(w) => b.stack_ends(w, input_positions, rest, input_metadata, z),
        };
    the_stack_repeats(a, x, x, input_positions, first, input_metadata, y, w);
    if y is Ok {
        the_stack_repeats(b, y->Ok_0, w->Ok_0, input_positions, rest, input_metadata, r, z);
    }
}

/// Whether `embeddings` hold what looking up the tokens `x` gives.
pub open spec fn are_embeddings_of<N, A, O, R, M, F>(
    embeddings: Tensor,
    model: GGUFQWen<N, A, O, R, M, F>,
    x: Tensor,
) -> bool {
    forall|e: Tensor| #[trigger]
        embed_ends(model.tok_embeddings, x, Ok(e)) ==> tensor_value(e) == tensor_value(embeddings)
}

/// In a model whose layers repeat themselves, `forward_embedding` on tokens gives the activations
/// that decoding from their embeddings gives.
pub proof fn tokens_give_the_activations_of_their_embeddings<N, A, O, R, M, F, X>(
    model: GGUFQWen<N, A, O, R, M, F>,
    x: Tensor,
    embeddings: Tensor,
    input_positions: Tensor,
    kv_caches: Option<&Vec<(Tensor, Tensor)>>,
    input_metadata: InputMetadata<X>,
    logits: Tensor,
    hidden: Tensor,
    activations: Tensor,
) where
    N: Fn(&Tensor) -> Result<Tensor, Error>,
    R: Fn(&Tensor) -> Result<Tensor, Error>,
    O: Fn(&Tensor) -> Result<Tensor, Error>,
    M: Fn(&Device, DType, &Tensor, &Vec<u32>, Option<usize>, bool) -> Option<Vec<Tensor>>,
    A: Fn(
        &Tensor,
        Option<&Vec<Tensor>>,
        &Tensor,
        Option<(&Tensor, &Tensor)>,
        &InputMetadata<X>,
    ) -> Result<Tensor, Error>,
    F: Fn(&QMatMul, &QMatMul, &Tensor) -> Result<Option<Tensor>, Error>,

    requires
        layers_repeat::<N, A, O, R, M, F, X>(model),
        repeats(model.norm),
        are_embeddings_of(embeddings, model, x),
        model.from_embeddings_ends(
            embeddings,
            input_positions,
            kv_caches,
            input_metadata,
            Ok((logits, hidden)),
        ),
        model.inner_ends(x, input_positions, kv_caches, input_metadata, true, Ok(activations)),
    ensures
        tensor_value(activations) == tensor_value(hidden),
{
    decoding_runs_its_layers(
        model,
        embeddings,
        input_positions,
        kv_caches,
        input_metadata,
        logits,
        hidden,
    );
    let decoded = Ok::<(Tensor, Tensor), Error>((logits, hidden));
    let s = choose|s: Tensor| #[trigger]
        decoding_runs(
            model,
            embeddings,
            input_positions,
            kv_caches,
            input_metadata,
            s,
            decoded,
        );
    let (ends, e, t) = parts_of_a_forward_pass(
        model,
        x,
        input_positions,
        kv_caches,
        input_metadata,
        true,
        activations,
    );
    let r = Ok::<Tensor, Error>(activations);
    assert(pass_runs(model, x, input_positions, kv_caches, input_metadata, true, t, r));
    the_stack_repeats(
        model,
        embeddings,
        e,
        input_positions,
        kv_caches,
        input_metadata,
        Ok(s),
        Ok(t),
    );
    activations_are_those_of_decoding(
        model,
        x,
        embeddings,
        input_positions,
        kv_caches,
        kv_caches,
        input_metadata,
        s,
        logits,
        hidden,
        t,
        r,
    );
}

/// In a model whose layers repeat themselves, and whose norm and projection do too and work row by
/// row, `forward` on tokens gives, out of the logits that decoding from their embeddings gives, the
/// rows of each sequence's last token, and all of them where no sequence is closed.
pub proof fn tokens_give_the_last_rows_of_their_embeddings<N, A, O, R, M, F, X>(
    model: GGUFQWen<N, A, O, R, M, F>,
    x: Tensor,
    embeddings: Tensor,
    input_positions: Tensor,
    kv_caches: Option<&Vec<(Tensor, Tensor)>>,
    input_metadata: InputMetadata<X>,
    all: Tensor,
    hidden: Tensor,
    logits: Tensor,
) where
    N: Fn(&Tensor) -> Result<Tensor, Error>,
    R: Fn(&Tensor) -> Result<Tensor, Error>,
    O: Fn(&Tensor) -> Result<Tensor, Error>,
    M: Fn(&Device, DType, &Tensor, &Vec<u32>, Option<usize>, bool) -> Option<Vec<Tensor>>,
    A: Fn(
        &Tensor,
        Option<&Vec<Tensor>>,
        &Tensor,
        Option<(&Tensor, &Tensor)>,
        &InputMetadata<X>,
    ) -> Result<Tensor, Error>,
    F: Fn(&QMatMul, &QMatMul, &Tensor) -> Result<Option<Tensor>, Error>,

    requires
        layers_repeat::<N, A, O, R, M, F, X>(model),
        repeats(model.norm),
        repeats(model.output),
        last_positions(input_metadata).len() > 0 ==> {
            &&& works_row_by_row(model.norm)
            &&& keeps_the_shape(model.norm)
            &&& works_row_by_row(model.output)
            &&& keeps_the_rows(model.output)
            &&& tensor_value(embeddings).dims.len() > 1
        },
        input_metadata.fits(true),
        are_embeddings_of(embeddings, model, x),
        model.from_embeddings_ends(
            embeddings,
            input_positions,
            kv_caches,
            input_metadata,
            Ok((all, hidden)),
        ),
        model.inner_ends(x, input_positions, kv_caches, input_metadata, false, Ok(logits)),
    ensures
        tensor_value(logits) == picked(tensor_value(all), input_metadata),
{
    decoding_runs_its_layers(
        model,
        embeddings,
        input_positions,
        kv_caches,
        input_metadata,
        all,
        hidden,
    );
    let decoded = Ok::<(Tensor, Tensor), Error>((all, hidden));
    let s = choose|s: Tensor| #[trigger]
        decoding_runs(
            model,
            embeddings,
            input_positions,
            kv_caches,
            input_metadata,
            s,
            decoded,
        );
    let (ends, e, t) = parts_of_a_forward_pass(
        model,
        x,
        input_positions,
        kv_caches,
        input_metadata,
        false,
        logits,
    );
    let r = Ok::<Tensor, Error>(logits);
    assert(pass_runs(model, x, input_positions, kv_caches, input_metadata, false, t, r));
    the_stack_repeats(
        model,
        embeddings,
        e,
        input_positions,
        kv_caches,
        input_metadata,
        Ok(s),
        Ok(t),
    );
    the_stack_keeps_the_shape(
        model,
        embeddings,
        input_positions,
        kv_caches,
        input_metadata,
        s,
    );
    forward_gives_the_last_rows_of_decoding(
        model,
        x,
        embeddings,
        input_positions,
        kv_caches,
        kv_caches,
        input_metadata,
        s,
        all,
        hidden,
        t,
        r,
    );
}

/// In a model whose layers and norm repeat themselves, with a norm that works row by row, the
/// logits that `forward` gives are those of the picked rows of what `forward_embedding` gives.
pub proof fn logits_are_those_of_the_picked_activations<N, A, O, R, M, F, X>(
    model: GGUFQWen<N, A, O, R, M, F>,
    x: Tensor,
    embeddings: Tensor,
    input_positions: Tensor,
    kv_caches: Option<&Vec<(Tensor, Tensor)>>,
    input_metadata: InputMetadata<X>,
    hidden: Tensor,
    logits: Tensor,
) where
    N: Fn(&Tensor) -> Result<Tensor, Error>,
    R: Fn(&Tensor) -> Result<Tensor, Error>,
    O: Fn(&Tensor) -> Result<Tensor, Error>,
    M: Fn(&Device, DType, &Tensor, &Vec<u32>, Option<usize>, bool) -> Option<Vec<Tensor>>,
    A: Fn(
        &Tensor,
        Option<&Vec<Tensor>>,
        &Tensor,
        Option<(&Tensor, &Tensor)>,
        &InputMetadata<X>,
    ) -> Result<Tensor, Error>,
    F: Fn(&QMatMul, &QMatMul, &Tensor) -> Result<Option<Tensor>, Error>,

    requires
        layers_repeat::<N, A, O, R, M, F, X>(model),
        repeats(model.norm),
        works_row_by_row(model.norm),
        input_metadata.fits(true),
        are_embeddings_of(embeddings, model, x),
        model.inner_ends(x, input_positions, kv_caches, input_metadata, true, Ok(hidden)),
        model.inner_ends(x, input_positions, kv_caches, input_metadata, false, Ok(logits)),
    ensures
        exists|rows: Tensor| #[trigger]
            model.logits_end(rows, Ok(logits)) && tensor_value(rows) == picked(
                tensor_value(hidden),
                input_metadata,
            ),
{
    let (ends, e, s) = parts_of_a_forward_pass(
        model,
        x,
        input_positions,
        kv_caches,
        input_metadata,
        true,
        hidden,
    );
    let (other_ends, f, t) = parts_of_a_forward_pass(
        model,
        x,
        input_positions,
        kv_caches,
        input_metadata,
        false,
        logits,
    );
    let (h, r) = (Ok::<Tensor, Error>(hidden), Ok::<Tensor, Error>(logits));
    assert(pass_runs(model, x, input_positions, kv_caches, input_metadata, true, s, h));
    assert(pass_runs(model, x, input_positions, kv_caches, input_metadata, false, t, r));
    the_stack_repeats(model, e, f, input_positions, kv_caches, input_metadata, Ok(s), Ok(t));
    the_modes_differ_by_selection_and_projection(
        model,
        x,
        input_positions,
        kv_caches,
        kv_caches,
        input_metadata,
        s,
        hidden,
        t,
        r,
    );
}

/// Two models that share layers and norm, which repeat themselves, and whose projections differ in
/// columns behind the vocabulary only, decode the same logits and activations.
pub proof fn padding_changes_nothing_that_is_decoded<N, A, O, P, R, M, F, X>(
    a: GGUFQWen<N, A, O, R, M, F>,
    b: GGUFQWen<N, A, P, R, M, F>,
    embeddings: Tensor,
    input_positions: Tensor,
    kv_caches: Option<&Vec<(Tensor, Tensor)>>,
    input_metadata: InputMetadata<X>,
    logits: Tensor,
    hidden: Tensor,
    other_logits: Tensor,
    other_hidden: Tensor,
) where
    N: Fn(&Tensor) -> Result<Tensor, Error>,
    R: Fn(&Tensor) -> Result<Tensor, Error>,
    O: Fn(&Tensor) -> Result<Tensor, Error>,
    P: Fn(&Tensor) -> Result<Tensor, Error>,
    M: Fn(&Device, DType, &Tensor, &Vec<u32>, Option<usize>, bool) -> Option<Vec<Tensor>>,
    A: Fn(
        &Tensor,
        Option<&Vec<Tensor>>,
        &Tensor,
        Option<(&Tensor, &Tensor)>,
        &InputMetadata<X>,
    ) -> Result<Tensor, Error>,
    F: Fn(&QMatMul, &QMatMul, &Tensor) -> Result<Option<Tensor>, Error>,

    requires
        layers_repeat::<N, A, O, R, M, F, X>(a),
        have_one_stack(a, b),
        a.norm == b.norm,
        repeats(a.norm),
        a.true_vocab_size == b.true_vocab_size,
        agree_on_columns(a.output, b.output, a.true_vocab_size as nat),
        a.from_embeddings_ends(
            embeddings,
            input_positions,
            kv_caches,
            input_metadata,
            Ok((logits, hidden)),
        ),
        b.from_embeddings_ends(
            embeddings,
            input_positions,
            kv_caches,
            input_metadata,
            Ok((other_logits, other_hidden)),
        ),
    ensures
        tensor_value(logits) == tensor_value(other_logits),
        tensor_value(hidden) == tensor_value(other_hidden),
        tensor_value(logits).dims.last() == a.true_vocab_size,
{
    decoding_runs_its_layers(
        a,
        embeddings,
        input_positions,
        kv_caches,
        input_metadata,
        logits,
        hidden,
    );
    decoding_runs_its_layers(
        b,
        embeddings,
        input_positions,
        kv_caches,
        input_metadata,
        other_logits,
        other_hidden,
    );
    let decoded = Ok::<(Tensor, Tensor), Error>((logits, hidden));
    let others = Ok::<(Tensor, Tensor), Error>((other_logits, other_hidden));
    let s = choose|s: Tensor| #[trigger]
        decoding_runs(a, embeddings, input_positions, kv_caches, input_metadata, s, decoded);
    let t = choose|t: Tensor| #[trigger]
        decoding_runs(b, embeddings, input_positions, kv_caches, input_metadata, t, others);
    the_stack_rests_on_its_layers(
        a,
        b,
        embeddings,
        input_positions,
        kv_caches,
        input_metadata,
        Ok(t),
    );
    the_stack_repeats(
        a,
        embeddings,
        embeddings,
        input_positions,
        kv_caches,
        input_metadata,
        Ok(s),
        Ok(t),
    );
    padding_plays_no_part(
        a,
        b,
        embeddings,
        input_positions,
        kv_caches,
        kv_caches,
        input_metadata,
        s,
        logits,
        hidden,
        t,
        other_logits,
        other_hidden,
    );
}

} // verus!
