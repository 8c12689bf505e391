//! What holds of running layers one after the other, and of what plays no part in it.

use crate::batch::InputMetadata;
use crate::laws::is_hidden;
use crate::model::{cache_at, lent, GGUFQWen};
use crate::tensor::{embed_ends, is_u32_vector, tensor_value};
use candle_core::quantized::QMatMul;
use candle_core::{DType, Device, Error, Tensor};
use vstd::prelude::*;

verus! {

/// Whether two models mask and run a layer alike, whatever their layers are.
pub open spec fn run_layers_alike<N, A, O, P, R, M, F>(
    a: GGUFQWen<N, A, O, R, M, F>,
    b: GGUFQWen<N, A, P, R, M, F>,
) -> bool {
    &&& a.cfg.sliding_window == b.cfg.sliding_window
    &&& a.dtype == b.dtype
    &&& a.device == b.device
    &&& a.mask == b.mask
    &&& a.fused == b.fused
    &&& a.fused_glu == b.fused_glu
}

/// Whether two models have the same layers and run them alike. Their embedding tables, their final
/// norms, their projections and their vocabularies may differ.
pub open spec fn have_one_stack<N, A, O, P, R, M, F>(
    a: GGUFQWen<N, A, O, R, M, F>,
    b: GGUFQWen<N, A, P, R, M, F>,
) -> bool {
    run_layers_alike(a, b) && a.layers@ == b.layers@
}

/// Models with one stack run it alike from any layer on.
proof fn one_stack_runs_alike<N, A, O, P, R, M, F, X>(
    a: GGUFQWen<N, A, O, R, M, F>,
    b: GGUFQWen<N, A, P, R, M, F>,
    i: nat,
    x: Tensor,
    mask: Option<Vec<Tensor>>,
    input_positions: Tensor,
    kv_caches: Option<&Vec<(Tensor, Tensor)>>,
    input_metadata: InputMetadata<X>,
    r: Result<Tensor, Error>,
) where
    N: Fn(&Tensor) -> Result<Tensor, Error>,
    R: Fn(&Tensor) -> Result<Tensor, Error>,
    O: Fn(&Tensor) -> Result<Tensor, Error>,
    P: Fn(&Tensor) -> Result<Tensor, Error>,
    M: Fn(&Device, DType, &Tensor, &Vec<u32>, Option<usize>, bool) -> Option<Vec<Tensor>>,
    A: Fn(
        &Tensor,
        Option<&Vec<Tensor>>,
        &Tensor,
        Option<(&Tensor, &Tensor)>,
        &InputMetadata<X>,
    ) -> Result<Tensor, Error>,
    F: Fn(&QMatMul, &QMatMul, &Tensor) -> Result<Option<Tensor>, Error>,

    requires
        have_one_stack(a, b),
        a.layers_end(i, x, mask, input_positions, kv_caches, input_metadata, r),
    ensures
        b.layers_end(i, x, mask, input_positions, kv_caches, input_metadata, r),
    decreases a.depth(kv_caches) - i,
{
    if i < a.depth(kv_caches) {
        let y = choose|y: Result<Tensor, Error>| #[trigger]
            a.layers@[i as int].forward_ends(
                a.fused,
                a.fused_glu,
                x,
                lent(&mask),
                input_positions,
                cache_at(kv_caches, i as int),
                input_metadata,
                y,
            ) && match y {
                Err(e) => r == Err::<Tensor, Error>(e),
                Ok(y) => a.layers_end(
                    i + 1,
                    y,
                    mask,
                    input_positions,
                    kv_caches,
                    input_metadata,
                    r,
                ),
            };
        assert(b.layers@[i as int].forward_ends(
            b.fused,
            b.fused_glu,
            x,
            lent(&mask),
            input_positions,
            cache_at(kv_caches, i as int),
            input_metadata,
            y,
        ));
        if y is Ok {
            one_stack_runs_alike(
                a,
                b,
                i + 1,
                y->Ok_0,
                mask,
                input_positions,
                kv_caches,
                input_metadata,
                r,
            );
        }
    }
}

/// One way in which a stack may end is one of the other model's with it.
proof fn one_stack_ends_alike<N, A, O, P, R, M, F, X>(
    a: GGUFQWen<N, A, O, R, M, F>,
    b: GGUFQWen<N, A, P, R, M, F>,
    x: Tensor,
    input_positions: Tensor,
    kv_caches: Option<&Vec<(Tensor, Tensor)>>,
    input_metadata: InputMetadata<X>,
    r: Result<Tensor, Error>,
) where
    N: Fn(&Tensor) -> Result<Tensor, Error>,
    R: Fn(&Tensor) -> Result<Tensor, Error>,
    O: Fn(&Tensor) -> Result<Tensor, Error>,
    P: Fn(&Tensor) -> Result<Tensor, Error>,
    M: Fn(&Device, DType, &Tensor, &Vec<u32>, Option<usize>, bool) -> Option<Vec<Tensor>>,
    A: Fn(
        &Tensor,
        Option<&Vec<Tensor>>,
        &Tensor,
        Option<(&Tensor, &Tensor)>,
        &InputMetadata<X>,
    ) -> Result<Tensor, Error>,
    F: Fn(&QMatMul, &QMatMul, &Tensor) -> Result<Option<Tensor>, Error>,

    requires
        have_one_stack(a, b),
        a.stack_ends(x, input_positions, kv_caches, input_metadata, r),
    ensures
        b.stack_ends(x, input_positions, kv_caches, input_metadata, r),
{
    let ends = choose|ends: Result<Vec<u32>, Error>| #[trigger]
        input_metadata.sequence_ends_end(ends) && match ends {
            Err(e) => r == Err::<Tensor, Error>(e),
            Ok(ends) => exists|mask: Option<Vec<Tensor>>| #[trigger]
                a.mask_gives(input_positions, ends, input_metadata, mask) && a.layers_end(
                    0,
                    x,
                    mask,
                    input_positions,
                    kv_caches,
                    input_metadata,
                    r,
                ),
        };
    if ends is Ok {
        let mask = choose|mask: Option<Vec<Tensor>>| #[trigger]
            a.mask_gives(input_positions, ends->Ok_0, input_metadata, mask) && a.layers_end(
                0,
                x,
                mask,
                input_positions,
                kv_caches,
                input_metadata,
                r,
            );
        one_stack_runs_alike(a, b, 0, x, mask, input_positions, kv_caches, input_metadata, r);
        assert(b.mask_gives(input_positions, ends->Ok_0, input_metadata, mask));
    }
}

/// Embedding table, final norm, projection and vocabulary play no part in running the layers.
pub proof fn the_stack_rests_on_its_layers<N, A, O, P, R, M, F, X>(
    a: GGUFQWen<N, A, O, R, M, F>,
    b: GGUFQWen<N, A, P, R, M, F>,
    x: Tensor,
    input_positions: Tensor,
    kv_caches: Option<&Vec<(Tensor, Tensor)>>,
    input_metadata: InputMetadata<X>,
    r: Result<Tensor, Error>,
) where
    N: Fn(&Tensor) -> Result<Tensor, Error>,
    R: Fn(&Tensor) -> Result<Tensor, Error>,
    O: Fn(&Tensor) -> Result<Tensor, Error>,
    P: Fn(&Tensor) -> Result<Tensor, Error>,
    M: Fn(&Device, DType, &Tensor, &Vec<u32>, Option<usize>, bool) -> Option<Vec<Tensor>>,
    A: Fn(
        &Tensor,
        Option<&Vec<Tensor>>,
        &Tensor,
        Option<(&Tensor, &Tensor)>,
        &InputMetadata<X>,
    ) -> Result<Tensor, Error>,
    F: Fn(&QMatMul, &QMatMul, &Tensor) -> Result<Option<Tensor>, Error>,

    requires
        have_one_stack(a, b),
    ensures
        a.stack_ends(x, input_positions, kv_caches, input_metadata, r) == b.stack_ends(
            x,
            input_positions,
            kv_caches,
            input_metadata,
            r,
        ),
{
    if a.stack_ends(x, input_positions, kv_caches, input_metadata, r) {
        one_stack_ends_alike(a, b, x, input_positions, kv_caches, input_metadata, r);
    }
    if b.stack_ends(x, input_positions, kv_caches, input_metadata, r) {
        one_stack_ends_alike(b, a, x, input_positions, kv_caches, input_metadata, r);
    }
}

/// Projection and vocabulary play no part in the normed activations.
pub proof fn hidden_states_rest_on_layers_and_norm<N, A, O, P, R, M, F, X>(
    a: GGUFQWen<N, A, O, R, M, F>,
    b: GGUFQWen<N, A, P, R, M, F>,
    embeddings: Tensor,
    input_positions: Tensor,
    kv_caches: Option<&Vec<(Tensor, Tensor)>>,
    input_metadata: InputMetadata<X>,
    hidden: Tensor,
) where
    N: Fn(&Tensor) -> Result<Tensor, Error>,
    R: Fn(&Tensor) -> Result<Tensor, Error>,
    O: Fn(&Tensor) -> Result<Tensor, Error>,
    P: Fn(&Tensor) -> Result<Tensor, Error>,
    M: Fn(&Device, DType, &Tensor, &Vec<u32>, Option<usize>, bool) -> Option<Vec<Tensor>>,
    A: Fn(
        &Tensor,
        Option<&Vec<Tensor>>,
        &Tensor,
        Option<(&Tensor, &Tensor)>,
        &InputMetadata<X>,
    ) -> Result<Tensor, Error>,
    F: Fn(&QMatMul, &QMatMul, &Tensor) -> Result<Option<Tensor>, Error>,

    requires
        have_one_stack(a, b),
        a.norm == b.norm,
        is_hidden(a, embeddings, input_positions, kv_caches, input_metadata, hidden),
    ensures
        is_hidden(b, embeddings, input_positions, kv_caches, input_metadata, hidden),
{
    let s = choose|s: Tensor|
        {
            &&& #[trigger] a.stack_ends(
                embeddings,
                input_positions,
                kv_caches,
                input_metadata,
                Ok(s),
            )
            &&& call_ensures(a.norm, (&s,), Ok(hidden))
        };
    one_stack_ends_alike(
        a,
        b,
        embeddings,
        input_positions,
        kv_caches,
        input_metadata,
        Ok(s),
    );
    assert(b.stack_ends(embeddings, input_positions, kv_caches, input_metadata, Ok(s)));
}

/// One way in which decoding may end is one of the other model's, whatever its embedding table.
proof fn decoding_ends_alike<N, A, O, R, M, F, X>(
    a: GGUFQWen<N, A, O, R, M, F>,
    b: GGUFQWen<N, A, O, R, M, F>,
    embeddings: Tensor,
    input_positions: Tensor,
    kv_caches: Option<&Vec<(Tensor, Tensor)>>,
    input_metadata: InputMetadata<X>,
    r: Result<(Tensor, Tensor), Error>,
) where
    N: Fn(&Tensor) -> Result<Tensor, Error>,
    R: Fn(&Tensor) -> Result<Tensor, Error>,
    O: Fn(&Tensor) -> Result<Tensor, Error>,
    M: Fn(&Device, DType, &Tensor, &Vec<u32>, Option<usize>, bool) -> Option<Vec<Tensor>>,
    A: Fn(
        &Tensor,
        Option<&Vec<Tensor>>,
        &Tensor,
        Option<(&Tensor, &Tensor)>,
        &InputMetadata<X>,
    ) -> Result<Tensor, Error>,
    F: Fn(&QMatMul, &QMatMul, &Tensor) -> Result<Option<Tensor>, Error>,

    requires
        have_one_stack(a, b),
        a.norm == b.norm,
        a.output == b.output,
        a.true_vocab_size == b.true_vocab_size,
        a.from_embeddings_ends(embeddings, input_positions, kv_caches, input_metadata, r),
    ensures
        b.from_embeddings_ends(embeddings, input_positions, kv_caches, input_metadata, r),
{
    let s = choose|s: Result<Tensor, Error>| #[trigger]
        a.stack_ends(embeddings, input_positions, kv_caches, input_metadata, s) && match s {
            Err(e) => r == Err::<(Tensor, Tensor), Error>(e),
            Ok(s) => exists|h: Result<Tensor, Error>| #[trigger]
                call_ensures(a.norm, (&s,), h) && match h {
                    Err(e) => r == Err::<(Tensor, Tensor), Error>(e),
                    Ok(h) => a.flat_head_ends(h, r),
                },
        };
    one_stack_ends_alike(a, b, embeddings, input_positions, kv_caches, input_metadata, s);
    if s is Ok {
        let t = s->Ok_0;
        let h = choose|h: Result<Tensor, Error>| #[trigger]
            call_ensures(a.norm, (&t,), h) && match h {
                Err(e) => r == Err::<(Tensor, Tensor), Error>(e),
                Ok(h) => a.flat_head_ends(h, r),
            };
        assert(call_ensures(b.norm, (&t,), h));
        if h is Ok {
            assert(b.flat_head_ends(h->Ok_0, r));
        }
    }
}

/// The embedding table plays no part in decoding from embeddings.
pub proof fn decoding_needs_no_table<N, A, O, R, M, F, X>(
    a: GGUFQWen<N, A, O, R, M, F>,
    b: GGUFQWen<N, A, O, R, M, F>,
    embeddings: Tensor,
    input_positions: Tensor,
    kv_caches: Option<&Vec<(Tensor, Tensor)>>,
    input_metadata: InputMetadata<X>,
    r: Result<(Tensor, Tensor), Error>,
) where
    N: Fn(&Tensor) -> Result<Tensor, Error>,
    R: Fn(&Tensor) -> Result<Tensor, Error>,
    O: Fn(&Tensor) -> Result<Tensor, Error>,
    M: Fn(&Device, DType, &Tensor, &Vec<u32>, Option<usize>, bool) -> Option<Vec<Tensor>>,
    A: Fn(
        &Tensor,
        Option<&Vec<Tensor>>,
        &Tensor,
        Option<(&Tensor, &Tensor)>,
        &InputMetadata<X>,
    ) -> Result<Tensor, Error>,
    F: Fn(&QMatMul, &QMatMul, &Tensor) -> Result<Option<Tensor>, Error>,

    requires
        have_one_stack(a, b),
        a.norm == b.norm,
        a.output == b.output,
        a.true_vocab_size == b.true_vocab_size,
    ensures
        a.from_embeddings_ends(embeddings, input_positions, kv_caches, input_metadata, r)
            == b.from_embeddings_ends(embeddings, input_positions, kv_caches, input_metadata, r),
{
    if a.from_embeddings_ends(embeddings, input_positions, kv_caches, input_metadata, r) {
        decoding_ends_alike(a, b, embeddings, input_positions, kv_caches, input_metadata, r);
    }
    if b.from_embeddings_ends(embeddings, input_positions, kv_caches, input_metadata, r) {
        decoding_ends_alike(b, a, embeddings, input_positions, kv_caches, input_metadata, r);
    }
}

/// One way in which the activations of tokens may end is one of the other model's, whatever its
/// projection.
proof fn activations_end_alike<N, A, O, P, R, M, F, X>(
    a: GGUFQWen<N, A, O, R, M, F>,
    b: GGUFQWen<N, A, P, R, M, F>,
    x: Tensor,
    input_positions: Tensor,
    kv_caches: Option<&Vec<(Tensor, Tensor)>>,
    input_metadata: InputMetadata<X>,
    r: Result<Tensor, Error>,
) where
    N: Fn(&Tensor) -> Result<Tensor, Error>,
    R: Fn(&Tensor) -> Result<Tensor, Error>,
    O: Fn(&Tensor) -> Result<Tensor, Error>,
    P: Fn(&Tensor) -> Result<Tensor, Error>,
    M: Fn(&Device, DType, &Tensor, &Vec<u32>, Option<usize>, bool) -> Option<Vec<Tensor>>,
    A: Fn(
        &Tensor,
        Option<&Vec<Tensor>>,
        &Tensor,
        Option<(&Tensor, &Tensor)>,
        &InputMetadata<X>,
    ) -> Result<Tensor, Error>,
    F: Fn(&QMatMul, &QMatMul, &Tensor) -> Result<Option<Tensor>, Error>,

    requires
        have_one_stack(a, b),
        a.norm == b.norm,
        a.tok_embeddings == b.tok_embeddings,
        a.inner_ends(x, input_positions, kv_caches, input_metadata, true, r),
    ensures
        b.inner_ends(x, input_positions, kv_caches, input_metadata, true, r),
{
    let ends = choose|ends: Result<Vec<u32>, Error>| #[trigger]
        input_metadata.sequence_ends_end(ends) && match ends {
            Err(e) => r == Err::<Tensor, Error>(e),
            Ok(ends) => exists|xs: Result<Tensor, Error>| #[trigger]
                embed_ends(a.tok_embeddings, x, xs) && match xs {
                    Err(e) => r == Err::<Tensor, Error>(e),
                    Ok(xs) => a.embedded_ends(
                        ends@,
                        xs,
                        input_positions,
                        kv_caches,
                        input_metadata,
                        true,
                        r,
                    ),
                },
        };
    if ends is Ok {
        let bound = ends->Ok_0@;
        let xs = choose|xs: Result<Tensor, Error>| #[trigger]
            embed_ends(a.tok_embeddings, x, xs) && match xs {
                Err(e) => r == Err::<Tensor, Error>(e),
                Ok(xs) => a.embedded_ends(
                    bound,
                    xs,
                    input_positions,
                    kv_caches,
                    input_metadata,
                    true,
                    r,
                ),
            };
        assert(embed_ends(b.tok_embeddings, x, xs));
        if xs is Ok {
            let e = xs->Ok_0;
            let s = choose|s: Result<Tensor, Error>| #[trigger]
                a.stack_ends(e, input_positions, kv_caches, input_metadata, s) && match s {
                    Err(e) => r == Err::<Tensor, Error>(e),
                    Ok(s) => a.tail_ends(bound, s, true, r),
                };
            one_stack_ends_alike(a, b, e, input_positions, kv_caches, input_metadata, s);
            if s is Ok {
                assert(a.head_ends(s->Ok_0, true, r));
                assert(b.head_ends(s->Ok_0, true, r));
                assert(b.tail_ends(bound, s->Ok_0, true, r));
            }
            assert(b.embedded_ends(
                bound,
                e,
                input_positions,
                kv_caches,
                input_metadata,
                true,
                r,
            ));
        }
    }
}

/// Projection and vocabulary play no part in `forward_embedding`.
pub proof fn activations_need_no_projection<N, A, O, P, R, M, F, X>(
    a: GGUFQWen<N, A, O, R, M, F>,
    b: GGUFQWen<N, A, P, R, M, F>,
    x: Tensor,
    input_positions: Tensor,
    kv_caches: Option<&Vec<(Tensor, Tensor)>>,
    input_metadata: InputMetadata<X>,
    r: Result<Tensor, Error>,
) where
    N: Fn(&Tensor) -> Result<Tensor, Error>,
    R: Fn(&Tensor) -> Result<Tensor, Error>,
    O: Fn(&Tensor) -> Result<Tensor, Error>,
    P: Fn(&Tensor) -> Result<Tensor, Error>,
    M: Fn(&Device, DType, &Tensor, &Vec<u32>, Option<usize>, bool) -> Option<Vec<Tensor>>,
    A: Fn(
        &Tensor,
        Option<&Vec<Tensor>>,
        &Tensor,
        Option<(&Tensor, &Tensor)>,
        &InputMetadata<X>,
    ) -> Result<Tensor, Error>,
    F: Fn(&QMatMul, &QMatMul, &Tensor) -> Result<Option<Tensor>, Error>,

    requires
        have_one_stack(a, b),
        a.norm == b.norm,
        a.tok_embeddings == b.tok_embeddings,
    ensures
        a.inner_ends(x, input_positions, kv_caches, input_metadata, true, r) == b.inner_ends(
            x,
            input_positions,
            kv_caches,
            input_metadata,
            true,
            r,
        ),
{
    if a.inner_ends(x, input_positions, kv_caches, input_metadata, true, r) {
        activations_end_alike(a, b, x, input_positions, kv_caches, input_metadata, r);
    }
    if b.inner_ends(x, input_positions, kv_caches, input_metadata, true, r) {
        activations_end_alike(b, a, x, input_positions, kv_caches, input_metadata, r);
    }
}

/// Without a layer to run, because there is none or no cache for one, and with bounds that can be
/// read or none, running the layers gives back what they are given.
pub proof fn no_layers_give_the_input_back<N, A, O, R, M, F, X>(
    model: GGUFQWen<N, A, O, R, M, F>,
    x: Tensor,
    input_positions: Tensor,
    kv_caches: Option<&Vec<(Tensor, Tensor)>>,
    input_metadata: InputMetadata<X>,
    r: Result<Tensor, Error>,
) where
    N: Fn(&Tensor) -> Result<Tensor, Error>,
    R: Fn(&Tensor) -> Result<Tensor, Error>,
    O: Fn(&Tensor) -> Result<Tensor, Error>,
    M: Fn(&Device, DType, &Tensor, &Vec<u32>, Option<usize>, bool) -> Option<Vec<Tensor>>,
    A: Fn(
        &Tensor,
        Option<&Vec<Tensor>>,
        &Tensor,
        Option<(&Tensor, &Tensor)>,
        &InputMetadata<X>,
    ) -> Result<Tensor, Error>,
    F: Fn(&QMatMul, &QMatMul, &Tensor) -> Result<Option<Tensor>, Error>,

    requires
        model.depth(kv_caches) == 0,
        input_metadata.cu_seqlens_q matches Some(t) ==> is_u32_vector(tensor_value(t)),
        model.stack_ends(x, input_positions, kv_caches, input_metadata, r),
    ensures
        r == Ok::<Tensor, Error>(x),
{
}

/// A vector of bounds can be read, and closes one sequence less than it has bounds: a single bound
/// closes none, as no bounds do.
pub proof fn bounds_close_one_sequence_less<X>(
    input_metadata: InputMetadata<X>,
    bounds: Tensor,
    r: Result<Vec<u32>, Error>,
)
    requires
        input_metadata.cu_seqlens_q == Some(bounds),
        is_u32_vector(tensor_value(bounds)),
        tensor_value(bounds).dims[0] > 0,
        input_metadata.sequence_ends_end(r),
    ensures
        r matches Ok(ends) && ends@.len() == tensor_value(bounds).dims[0] - 1,
{
}

/// Whether `m` has the layers of `a`, then those of `b`.
pub open spec fn is_stacked<N, A, O, R, M, F>(
    a: GGUFQWen<N, A, O, R, M, F>,
    b: GGUFQWen<N, A, O, R, M, F>,
    m: GGUFQWen<N, A, O, R, M, F>,
) -> bool {
    &&& m.layers@ == a.layers@ + b.layers@
    &&& run_layers_alike(a, m)
    &&& run_layers_alike(b, m)
}

/// Whether `whole` are the caches `first`, then `rest`, one for each of so many layers, or there
/// are none at all.
pub open spec fn are_stacked(
    first: Option<&Vec<(Tensor, Tensor)>>,
    layers: nat,
    rest: Option<&Vec<(Tensor, Tensor)>>,
    more: nat,
    whole: Option<&Vec<(Tensor, Tensor)>>,
) -> bool {
    match (first, rest, whole) {
        (None, None, None) => true,
        (Some(first), Some(rest), Some(whole)) => {
            &&& first@.len() == layers
            &&& rest@.len() == more
            &&& whole@ == first@ + rest@
        },
        _ => false,
    }
}

/// Whether running the layers of `b` ends in `r`, where what came before ended in `y`.
pub open spec fn goes_on<N, A, O, R, M, F, X>(
    b: GGUFQWen<N, A, O, R, M, F>,
    y: Result<Tensor, Error>,
    mask: Option<Vec<Tensor>>,
    input_positions: Tensor,
    kv_caches: Option<&Vec<(Tensor, Tensor)>>,
    input_metadata: InputMetadata<X>,
    r: Result<Tensor, Error>,
) -> bool where
    N: Fn(&Tensor) -> Result<Tensor, Error>,
    R: Fn(&Tensor) -> Result<Tensor, Error>,
    O: Fn(&Tensor) -> Result<Tensor, Error>,
    M: Fn(&Device, DType, &Tensor, &Vec<u32>, Option<usize>, bool) -> Option<Vec<Tensor>>,
    A: Fn(
        &Tensor,
        Option<&Vec<Tensor>>,
        &Tensor,
        Option<(&Tensor, &Tensor)>,
        &InputMetadata<X>,
    ) -> Result<Tensor, Error>,
    F: Fn(&QMatMul, &QMatMul, &Tensor) -> Result<Option<Tensor>, Error>,
 {
    match y {
        Err(e) => r == Err::<Tensor, Error>(e),
        Ok(y) => b.layers_end(0, y, mask, input_positions, kv_caches, input_metadata, r),
    }
}

/// Behind the layers of `a`, the layers of `m` are those of `b`.
proof fn the_rest_runs_alike<N, A, O, R, M, F, X>(
    a: GGUFQWen<N, A, O, R, M, F>,
    b: GGUFQWen<N, A, O, R, M, F>,
    m: GGUFQWen<N, A, O, R, M, F>,
    j: nat,
    x: Tensor,
    mask: Option<Vec<Tensor>>,
    input_positions: Tensor,
    first: Option<&Vec<(Tensor, Tensor)>>,
    rest: Option<&Vec<(Tensor, Tensor)>>,
    whole: Option<&Vec<(Tensor, Tensor)>>,
    input_metadata: InputMetadata<X>,
    r: Result<Tensor, Error>,
) where
    N: Fn(&Tensor) -> Result<Tensor, Error>,
    R: Fn(&Tensor) -> Result<Tensor, Error>,
    O: Fn(&Tensor) -> Result<Tensor, Error>,
    M: Fn(&Device, DType, &Tensor, &Vec<u32>, Option<usize>, bool) -> Option<Vec<Tensor>>,
    A: Fn(
        &Tensor,
        Option<&Vec<Tensor>>,
        &Tensor,
        Option<(&Tensor, &Tensor)>,
        &InputMetadata<X>,
    ) -> Result<Tensor, Error>,
    F: Fn(&QMatMul, &QMatMul, &Tensor) -> Result<Option<Tensor>, Error>,

    requires
        is_stacked(a, b, m),
        are_stacked(first, a.layers@.len(), rest, b.layers@.len(), whole),
    ensures
        m.layers_end(
            a.layers@.len() + j,
            x,
            mask,
            input_positions,
            whole,
            input_metadata,
            r,
        ) == b.layers_end(j, x, mask, input_positions, rest, input_metadata, r),
    decreases b.layers@.len() - j,
{
    let i = a.layers@.len() + j;
    if j < b.layers@.len() {
        assert(m.layers@[i as int] == b.layers@[j as int]);
        assert(cache_at(whole, i as int) == cache_at(rest, j as int)) by {
            if whole is Some {
                assert(whole->Some_0@[i as int] == rest->Some_0@[j as int]);
            }
        }
        let layer = b.layers@[j as int];
        let cache = cache_at(rest, j as int);
        assert forall|z: Tensor|
            m.layers_end(i + 1, z, mask, input_positions, whole, input_metadata, r)
                == #[trigger] b.layers_end(
                j + 1,
                z,
                mask,
                input_positions,
                rest,
                input_metadata,
                r,
            ) by {
            the_rest_runs_alike(
                a,
                b,
                m,
                j + 1,
                z,
                mask,
                input_positions,
                first,
                rest,
                whole,
                input_metadata,
                r,
            );
        }
        if b.layers_end(j, x, mask, input_positions, rest, input_metadata, r) {
            let y = choose|y: Result<Tensor, Error>| #[trigger]
                layer.forward_ends(
                    b.fused,
                    b.fused_glu,
                    x,
                    lent(&mask),
                    input_positions,
                    cache,
                    input_metadata,
                    y,
                ) && match y {
                    Err(e) => r == Err::<Tensor, Error>(e),
                    Ok(y) => b.layers_end(
                        j + 1,
                        y,
                        mask,
                        input_positions,
                        rest,
                        input_metadata,
                        r,
                    ),
                };
            assert(m.layers@[i as int].forward_ends(
                m.fused,
                m.fused_glu,
                x,
                lent(&mask),
                input_positions,
                cache_at(whole, i as int),
                input_metadata,
                y,
            ));
        }
        if m.layers_end(i, x, mask, input_positions, whole, input_metadata, r) {
            let y = choose|y: Result<Tensor, Error>| #[trigger]
                m.layers@[i as int].forward_ends(
                    m.fused,
                    m.fused_glu,
                    x,
                    lent(&mask),
                    input_positions,
                    cache_at(whole, i as int),
                    input_metadata,
                    y,
                ) && match y {
                    Err(e) => r == Err::<Tensor, Error>(e),
                    Ok(y) => m.layers_end(
                        i + 1,
                        y,
                        mask,
                        input_positions,
                        whole,
                        input_metadata,
                        r,
                    ),
                };
            assert(b.layers@[j as int].forward_ends(
                b.fused,
                b.fused_glu,
                x,
                lent(&mask),
                input_positions,
                cache_at(rest, j as int),
                input_metadata,
                y,
            ));
            if y is Ok {
                assert(b.layers_end(
                    j + 1,
                    y->Ok_0,
                    mask,
                    input_positions,
                    rest,
                    input_metadata,
                    r,
                ));
            }
        }
    }
}

/// From any layer of `a` on, running the layers of `m` is running those of `a` and then those of
/// `b`.
pub proof fn layers_compose<N, A, O, R, M, F, X>(
    a: GGUFQWen<N, A, O, R, M, F>,
    b: GGUFQWen<N, A, O, R, M, F>,
    m: GGUFQWen<N, A, O, R, M, F>,
    i: nat,
    x: Tensor,
    mask: Option<Vec<Tensor>>,
    input_positions: Tensor,
    first: Option<&Vec<(Tensor, Tensor)>>,
    rest: Option<&Vec<(Tensor, Tensor)>>,
    whole: Option<&Vec<(Tensor, Tensor)>>,
    input_metadata: InputMetadata<X>,
    r: Result<Tensor, Error>,
) where
    N: Fn(&Tensor) -> Result<Tensor, Error>,
    R: Fn(&Tensor) -> Result<Tensor, Error>,
    O: Fn(&Tensor) -> Result<Tensor, Error>,
    M: Fn(&Device, DType, &Tensor, &Vec<u32>, Option<usize>, bool) -> Option<Vec<Tensor>>,
    A: Fn(
        &Tensor,
        Option<&Vec<Tensor>>,
        &Tensor,
        Option<(&Tensor, &Tensor)>,
        &InputMetadata<X>,
    ) -> Result<Tensor, Error>,
    F: Fn(&QMatMul, &QMatMul, &Tensor) -> Result<Option<Tensor>, Error>,

    requires
        is_stacked(a, b, m),
        are_stacked(first, a.layers@.len(), rest, b.layers@.len(), whole),
        i <= a.layers@.len(),
    ensures
        m.layers_end(i, x, mask, input_positions, whole, input_metadata, r) == exists|
            y: Result<Tensor, Error>,
        |
            {
                &&& #[trigger] goes_on(b, y, mask, input_positions, rest, input_metadata, r)
                &&& a.layers_end(i, x, mask, input_positions, first, input_metadata, y)
            },
    decreases a.layers@.len() - i,
{
    if i == a.layers@.len() {
        the_rest_runs_alike(
            a,
            b,
            m,
            0,
            x,
            mask,
            input_positions,
            first,
            rest,
            whole,
            input_metadata,
            r,
        );
        let y = Ok::<Tensor, Error>(x);
        if m.layers_end(i, x, mask, input_positions, whole, input_metadata, r) {
            assert(goes_on(b, y, mask, input_positions, rest, input_metadata, r));
            assert(a.layers_end(i, x, mask, input_positions, first, input_metadata, y));
        }
    } else {
        let layer = a.layers@[i as int];
        let cache = cache_at(first, i as int);
        assert(m.layers@[i as int] == layer);
        assert(cache_at(whole, i as int) == cache) by {
            if whole is Some {
                assert(whole->Some_0@[i as int] == first->Some_0@[i as int]);
            }
        }
        if m.layers_end(i, x, mask, input_positions, whole, input_metadata, r) {
            let z = choose|z: Result<Tensor, Error>| #[trigger]
                m.layers@[i as int].forward_ends(
                    m.fused,
                    m.fused_glu,
                    x,
                    lent(&mask),
                    input_positions,
                    cache_at(whole, i as int),
                    input_metadata,
                    z,
                ) && match z {
                    Err(e) => r == Err::<Tensor, Error>(e),
                    Ok(z) => m.layers_end(
                        i + 1,
                        z,
                        mask,
                        input_positions,
                        whole,
                        input_metadata,
                        r,
                    ),
                };
            assert(layer.forward_ends(
                a.fused,
                a.fused_glu,
                x,
                lent(&mask),
                input_positions,
                cache,
                input_metadata,
                z,
            ));
            if z is Ok {
                layers_compose(
                    a,
                    b,
                    m,
                    i + 1,
                    z->Ok_0,
                    mask,
                    input_positions,
                    first,
                    rest,
                    whole,
                    input_metadata,
                    r,
                );
                let y = choose|y: Result<Tensor, Error>|
                    {
                        &&& #[trigger] goes_on(
                            b,
                            y,
                            mask,
                            input_positions,
                            rest,
                            input_metadata,
                            r,
                        )
                        &&& a.layers_end(
                            i + 1,
                            z->Ok_0,
                            mask,
                            input_positions,
                            first,
                            input_metadata,
                            y,
                        )
                    };
                assert(a.layers_end(i, x, mask, input_positions, first, input_metadata, y));
            } else {
                assert(goes_on(b, z, mask, input_positions, rest, input_metadata, r));
                assert(a.layers_end(i, x, mask, input_positions, first, input_metadata, z));
            }
        }
        if exists|y: Result<Tensor, Error>|
            {
                &&& #[trigger] goes_on(b, y, mask, input_positions, rest, input_metadata, r)
                &&& a.layers_end(i, x, mask, input_positions, first, input_metadata, y)
            } {
            let y = choose|y: Result<Tensor, Error>|
                {
                    &&& #[trigger] goes_on(b, y, mask, input_positions, rest, input_metadata, r)
                    &&& a.layers_end(i, x, mask, input_positions, first, input_metadata, y)
                };
            let z = choose|z: Result<Tensor, Error>| #[trigger]
                layer.forward_ends(
                    a.fused,
                    a.fused_glu,
                    x,
                    lent(&mask),
                    input_positions,
                    cache,
                    input_metadata,
                    z,
                ) && match z {
                    Err(e) => y == Err::<Tensor, Error>(e),
                    Ok(z) => a.layers_end(
                        i + 1,
                        z,
                        mask,
                        input_positions,
                        first,
                        input_metadata,
                        y,
                    ),
                };
            assert(m.layers@[i as int].forward_ends(
                m.fused,
                m.fused_glu,
                x,
                lent(&mask),
                input_positions,
                cache_at(whole, i as int),
                input_metadata,
                z,
            ));
            if z is Ok {
                layers_compose(
                    a,
                    b,
                    m,
                    i + 1,
                    z->Ok_0,
                    mask,
                    input_positions,
                    first,
                    rest,
                    whole,
                    input_metadata,
                    r,
                );
            }
        }
    }
}

/// However a stack of two ends, running the first ends so that the second, run on what it gave,
/// ends in that.
pub proof fn stacks_compose<N, A, O, R, M, F, X>(
    a: GGUFQWen<N, A, O, R, M, F>,
    b: GGUFQWen<N, A, O, R, M, F>,
    m: GGUFQWen<N, A, O, R, M, F>,
    x: Tensor,
    input_positions: Tensor,
    first: Option<&Vec<(Tensor, Tensor)>>,
    rest: Option<&Vec<(Tensor, Tensor)>>,
    whole: Option<&Vec<(Tensor, Tensor)>>,
    input_metadata: InputMetadata<X>,
    r: Result<Tensor, Error>,
) where
    N: Fn(&Tensor) -> Result<Tensor, Error>,
    R: Fn(&Tensor) -> Result<Tensor, Error>,
    O: Fn(&Tensor) -> Result<Tensor, Error>,
    M: Fn(&Device, DType, &Tensor, &Vec<u32>, Option<usize>, bool) -> Option<Vec<Tensor>>,
    A: Fn(
        &Tensor,
        Option<&Vec<Tensor>>,
        &Tensor,
        Option<(&Tensor, &Tensor)>,
        &InputMetadata<X>,
    ) -> Result<Tensor, Error>,
    F: Fn(&QMatMul, &QMatMul, &Tensor) -> Result<Option<Tensor>, Error>,

    requires
        is_stacked(a, b, m),
        are_stacked(first, a.layers@.len(), rest, b.layers@.len(), whole),
        m.stack_ends(x, input_positions, whole, input_metadata, r),
    ensures
        exists|y: Result<Tensor, Error>| #[trigger]
            a.stack_ends(x, input_positions, first, input_metadata, y) && match y {
                Err(e) => r == Err::<Tensor, Error>(e),
                Ok(y) => b.stack_ends(y, input_positions, rest, input_metadata, r),
            },
{
    let ends = choose|ends: Result<Vec<u32>, Error>| #[trigger]
        input_metadata.sequence_ends_end(ends) && match ends {
            Err(e) => r == Err::<Tensor, Error>(e),
            Ok(ends) => exists|mask: Option<Vec<Tensor>>| #[trigger]
                m.mask_gives(input_positions, ends, input_metadata, mask) && m.layers_end(
                    0,
                    x,
                    mask,
                    input_positions,
                    whole,
                    input_metadata,
                    r,
                ),
        };
    if ends is Err {
        assert(a.stack_ends(x, input_positions, first, input_metadata, r));
    } else {
        let mask = choose|mask: Option<Vec<Tensor>>| #[trigger]
            m.mask_gives(input_positions, ends->Ok_0, input_metadata, mask) && m.layers_end(
                0,
                x,
                mask,
                input_positions,
                whole,
                input_metadata,
                r,
            );
        layers_compose(
            a,
            b,
            m,
            0,
            x,
            mask,
            input_positions,
            first,
            rest,
            whole,
            input_metadata,
            r,
        );
        let y = choose|y: Result<Tensor, Error>|
            {
                &&& #[trigger] goes_on(b, y, mask, input_positions, rest, input_metadata, r)
                &&& a.layers_end(0, x, mask, input_positions, first, input_metadata, y)
            };
        assert(a.mask_gives(input_positions, ends->Ok_0, input_metadata, mask));
        assert(b.mask_gives(input_positions, ends->Ok_0, input_metadata, mask));
        assert(a.stack_ends(x, input_positions, first, input_metadata, y));
    }
}

/// Whether running all layers over `x`, under the mask `mask`, ends in `r`.
pub open spec fn stack_runs<N, A, O, R, M, F, X>(
    model: GGUFQWen<N, A, O, R, M, F>,
    x: Tensor,
    mask: Option<Vec<Tensor>>,
    input_positions: Tensor,
    kv_caches: Option<&Vec<(Tensor, Tensor)>>,
    input_metadata: InputMetadata<X>,
    r: Result<Tensor, Error>,
) -> bool where
    N: Fn(&Tensor) -> Result<Tensor, Error>,
    R: Fn(&Tensor) -> Result<Tensor, Error>,
    O: Fn(&Tensor) -> Result<Tensor, Error>,
    M: Fn(&Device, DType, &Tensor, &Vec<u32>, Option<usize>, bool) -> Option<Vec<Tensor>>,
    A: Fn(
        &Tensor,
        Option<&Vec<Tensor>>,
        &Tensor,
        Option<(&Tensor, &Tensor)>,
        &InputMetadata<X>,
    ) -> Result<Tensor, Error>,
    F: Fn(&QMatMul, &QMatMul, &Tensor) -> Result<Option<Tensor>, Error>,
 {
    exists|ends: Vec<u32>|
        {
            &&& #[trigger] input_metadata.sequence_ends_end(Ok(ends))
            &&& model.mask_gives(input_positions, ends, input_metadata, mask)
            &&& model.layers_end(0, x, mask, input_positions, kv_caches, input_metadata, r)
        }
}

/// Running all layers either fails to read the bounds or runs them under a mask.
pub proof fn a_stack_runs_under_a_mask<N, A, O, R, M, F, X>(
    model: GGUFQWen<N, A, O, R, M, F>,
    x: Tensor,
    input_positions: Tensor,
    kv_caches: Option<&Vec<(Tensor, Tensor)>>,
    input_metadata: InputMetadata<X>,
    r: Result<Tensor, Error>,
) where
    N: Fn(&Tensor) -> Result<Tensor, Error>,
    R: Fn(&Tensor) -> Result<Tensor, Error>,
    O: Fn(&Tensor) -> Result<Tensor, Error>,
    M: Fn(&Device, DType, &Tensor, &Vec<u32>, Option<usize>, bool) -> Option<Vec<Tensor>>,
    A: Fn(
        &Tensor,
        Option<&Vec<Tensor>>,
        &Tensor,
        Option<(&Tensor, &Tensor)>,
        &InputMetadata<X>,
    ) -> Result<Tensor, Error>,
    F: Fn(&QMatMul, &QMatMul, &Tensor) -> Result<Option<Tensor>, Error>,

    requires
        model.stack_ends(x, input_positions, kv_caches, input_metadata, r),
    ensures
        (r is Err && input_metadata.sequence_ends_end(Err(r->Err_0))) || exists|
            mask: Option<Vec<Tensor>>,
        | #[trigger]
            stack_runs(model, x, mask, input_positions, kv_caches, input_metadata, r),
{
    let ends = choose|ends: Result<Vec<u32>, Error>| #[trigger]
        input_metadata.sequence_ends_end(ends) && match ends {
            Err(e) => r == Err::<Tensor, Error>(e),
            Ok(ends) => exists|mask: Option<Vec<Tensor>>| #[trigger]
                model.mask_gives(input_positions, ends, input_metadata, mask) && model.layers_end(
                    0,
                    x,
                    mask,
                    input_positions,
                    kv_caches,
                    input_metadata,
                    r,
                ),
        };
    if ends is Ok {
        let bound = ends->Ok_0;
        let mask = choose|mask: Option<Vec<Tensor>>| #[trigger]
            model.mask_gives(input_positions, bound, input_metadata, mask) && model.layers_end(
                0,
                x,
                mask,
                input_positions,
                kv_caches,
                input_metadata,
                r,
            );
        assert(input_metadata.sequence_ends_end(Ok(bound)));
        assert(stack_runs(model, x, mask, input_positions, kv_caches, input_metadata, r));
    }
}

/// Running one stack, and then another on what it gave and under the same mask, ends in what the
/// stack of the two ends in.
pub proof fn stacks_run_one_after_the_other<N, A, O, R, M, F, X>(
    a: GGUFQWen<N, A, O, R, M, F>,
    b: GGUFQWen<N, A, O, R, M, F>,
    m: GGUFQWen<N, A, O, R, M, F>,
    x: Tensor,
    mask: Option<Vec<Tensor>>,
    input_positions: Tensor,
    first: Option<&Vec<(Tensor, Tensor)>>,
    rest: Option<&Vec<(Tensor, Tensor)>>,
    whole: Option<&Vec<(Tensor, Tensor)>>,
    input_metadata: InputMetadata<X>,
    y: Result<Tensor, Error>,
    r: Result<Tensor, Error>,
) where
    N: Fn(&Tensor) -> Result<Tensor, Error>,
    R: Fn(&Tensor) -> Result<Tensor, Error>,
    O: Fn(&Tensor) -> Result<Tensor, Error>,
    M: Fn(&Device, DType, &Tensor, &Vec<u32>, Option<usize>, bool) -> Option<Vec<Tensor>>,
    A: Fn(
        &Tensor,
        Option<&Vec<Tensor>>,
        &Tensor,
        Option<(&Tensor, &Tensor)>,
        &InputMetadata<X>,
    ) -> Result<Tensor, Error>,
    F: Fn(&QMatMul, &QMatMul, &Tensor) -> Result<Option<Tensor>, Error>,

    requires
        is_stacked(a, b, m),
        are_stacked(first, a.layers@.len(), rest, b.layers@.len(), whole),
        stack_runs(a, x, mask, input_positions, first, input_metadata, y),
        match y {
            Err(e) => r == Err::<Tensor, Error>(e),
            Ok(y) => stack_runs(b, y, mask, input_positions, rest, input_metadata, r),
        },
    ensures
        stack_runs(m, x, mask, input_positions, whole, input_metadata, r),
        m.stack_ends(x, input_positions, whole, input_metadata, r),
{
    let ends = choose|ends: Vec<u32>|
        {
            &&& #[trigger] input_metadata.sequence_ends_end(Ok(ends))
            &&& a.mask_gives(input_positions, ends, input_metadata, mask)
            &&& a.layers_end(0, x, mask, input_positions, first, input_metadata, y)
        };
    assert(m.mask_gives(input_positions, ends, input_metadata, mask));
    assert(goes_on(b, y, mask, input_positions, rest, input_metadata, r));
    layers_compose(
        a,
        b,
        m,
        0,
        x,
        mask,
        input_positions,
        first,
        rest,
        whole,
        input_metadata,
        r,
    );
    let read = Ok::<Vec<u32>, Error>(ends);
    assert(input_metadata.sequence_ends_end(read));
}

} // verus!
