//! What holds of running the model as a whole.

use crate::batch::{last_rows_end, last_tokens, InputMetadata};
use crate::layer::LayerWeights;
use crate::logits::{cut_logits_end, flat_logits_end};
use crate::model::{cache_at, lent, GGUFQWen};
use crate::tensor::{
    as_f32, elem_count, embed_ends, is_row_major, is_whole, narrowed, read_ends, row_len,
    tensor_value, u32_vector, TensorValue,
};
use candle_core::quantized::QMatMul;
use candle_core::{DType, Device, Error, Tensor};
use vstd::arithmetic::div_mod::lemma_fundamental_div_mod_converse;
use vstd::prelude::*;

verus! {

/// Cutting columns off and converting to 32-bit floats can be done in either order.
pub proof fn cutting_and_converting_commute(v: TensorValue, vocab: nat)
    requires
        is_whole(v),
        v.dims.len() > 0,
        vocab <= v.dims.last(),
    ensures
        as_f32(narrowed(v, vocab)) == narrowed(as_f32(v), vocab),
{
    let rows = elem_count(v.dims.drop_last());
    let width = v.dims.last();
    let a = as_f32(narrowed(v, vocab));
    let b = narrowed(as_f32(v), vocab);
    assert forall|k: int| 0 <= k < rows * vocab implies a.elems[k] == b.elems[k] by {
        let (i, j) = (k / vocab as int, k % vocab as int);
        assert(vocab > 0) by (nonlinear_arith)
            requires
                0 <= k < rows * vocab,
                vocab >= 0,
        ;
        assert(0 <= i < rows && 0 <= j < vocab) by (nonlinear_arith)
            requires
                0 <= k < rows * vocab,
                vocab > 0,
                i == k / vocab as int,
                j == k % vocab as int,
        ;
        assert(0 <= i * width + j < width * rows) by (nonlinear_arith)
            requires
                0 <= i < rows,
                0 <= j < vocab,
                vocab <= width,
        ;
    }
    assert(a.elems =~= b.elems);
}

/// The logits that `forward` and `forward_from_embeddings` cut from one projection are the same,
/// and the latter lie in one piece.
pub proof fn flat_logits_are_the_logits(p: Tensor, vocab: nat, cut: Tensor, flat: Tensor)
    requires
        cut_logits_end(p, vocab, Ok(cut)),
        flat_logits_end(p, vocab, Ok(flat)),
    ensures
        tensor_value(cut) == tensor_value(flat),
        is_row_major(flat),
{
    cutting_and_converting_commute(tensor_value(p), vocab);
}

/// Logits are 32-bit floats with one column for each token of the vocabulary, taken from the
/// projection's first columns; what its padding projects to is not among them.
pub proof fn logits_are_the_first_columns(p: Tensor, vocab: nat, logits: Tensor)
    requires
        cut_logits_end(p, vocab, Ok(logits)) || flat_logits_end(p, vocab, Ok(logits)),
    ensures
        tensor_value(p).dims.len() > 0,
        vocab <= tensor_value(p).dims.last(),
        tensor_value(logits).dims == tensor_value(p).dims.drop_last().push(vocab),
        tensor_value(logits) == as_f32(narrowed(tensor_value(p), vocab)),
{
    if cut_logits_end(p, vocab, Ok(logits)) {
        cutting_and_converting_commute(tensor_value(p), vocab);
    }
}

/// Of each sequence, the row of its last token is taken, and there is one row for each sequence.
pub proof fn one_row_for_each_sequence(x: Tensor, ends: Seq<u32>, y: Tensor, i: int, k: int)
    requires
        forall|j: int| 0 <= j < ends.len() ==> #[trigger] ends[j] > 0,
        last_rows_end(x, ends, Ok(y)),
        0 <= i < ends.len(),
        0 <= k < row_len(tensor_value(x).dims),
    ensures
        tensor_value(y).dims == tensor_value(x).dims.update(0, ends.len()),
        ends[i] <= tensor_value(x).dims[0],
        ({
            let len = row_len(tensor_value(x).dims);
            tensor_value(y).elems[i * len + k] == tensor_value(x).elems[(ends[i] - 1) * len + k]
        }),
{
    let len = row_len(tensor_value(x).dims);
    let ids = u32_vector(last_tokens(ends), tensor_value(x).device).elems;
    assert forall|j: int| 0 <= j < ids.len() implies ids[j] != u32::MAX as int by {
        assert(ids[j] == ends[j] - 1);
    }
    assert(!ids.contains(u32::MAX as int));
    assert(ids[i] == ends[i] - 1);
    lemma_fundamental_div_mod_converse(i * len + k, len as int, i, k);
    assert(0 <= i * len + k < ids.len() * len) by (nonlinear_arith)
        requires
            0 <= i < ids.len(),
            0 <= k < len,
    ;
}

/// A layer keeps the shape of the activations that it is given.
pub proof fn a_layer_keeps_the_shape<N, A, R, X, F>(
    layer: LayerWeights<N, A, R>,
    fused: F,
    fused_glu: bool,
    x: Tensor,
    mask: Option<&Vec<Tensor>>,
    input_positions: Tensor,
    cache: Option<(&Tensor, &Tensor)>,
    input_metadata: InputMetadata<X>,
    y: Tensor,
) where
    N: Fn(&Tensor) -> Result<Tensor, Error>,
    R: Fn(&Tensor) -> Result<Tensor, Error>,
    A: Fn(
        &Tensor,
        Option<&Vec<Tensor>>,
        &Tensor,
        Option<(&Tensor, &Tensor)>,
        &InputMetadata<X>,
    ) -> Result<Tensor, Error>,
    F: Fn(&QMatMul, &QMatMul, &Tensor) -> Result<Option<Tensor>, Error>,

    requires
        layer.forward_ends(
            fused,
            fused_glu,
            x,
            mask,
            input_positions,
            cache,
            input_metadata,
            Ok(y),
        ),
    ensures
        tensor_value(y).dims == tensor_value(x).dims,
{
}

/// The layers, run from any of them on, keep the shape of the activations that they are given.
pub proof fn the_layers_keep_the_shape<N, A, O, R, M, F, X>(
    model: GGUFQWen<N, A, O, R, M, F>,
    i: nat,
    x: Tensor,
    mask: Option<Vec<Tensor>>,
    input_positions: Tensor,
    kv_caches: Option<&Vec<(Tensor, Tensor)>>,
    input_metadata: InputMetadata<X>,
    y: Tensor,
) where
    N: Fn(&Tensor) -> Result<Tensor, Error>,
    R: Fn(&Tensor) -> Result<Tensor, Error>,
    O: Fn(&Tensor) -> Result<Tensor, Error>,
    M: Fn(&Device, DType, &Tensor, &Vec<u32>, Option<usize>, bool) -> Option<Vec<Tensor>>,
    A: Fn(
        &Tensor,
        Option<&Vec<Tensor>>,
        &Tensor,
        Option<(&Tensor, &Tensor)>,
        &InputMetadata<X>,
    ) -> Result<Tensor, Error>,
    F: Fn(&QMatMul, &QMatMul, &Tensor) -> Result<Option<Tensor>, Error>,

    requires
        model.layers_end(i, x, mask, input_positions, kv_caches, input_metadata, Ok(y)),
    ensures
        tensor_value(y).dims == tensor_value(x).dims,
    decreases model.depth(kv_caches) - i,
{
    if i < model.depth(kv_caches) {
        let cache = cache_at(kv_caches, i as int);
        let out = choose|out: Result<Tensor, Error>| #[trigger]
            model.layers@[i as int].forward_ends(
                model.fused,
                model.fused_glu,
                x,
                lent(&mask),
                input_positions,
                cache,
                input_metadata,
                out,
            ) && match out {
                Err(e) => Ok::<Tensor, Error>(y) == Err::<Tensor, Error>(e),
                Ok(z) => model.layers_end(
                    i + 1,
                    z,
                    mask,
                    input_positions,
                    kv_caches,
                    input_metadata,
                    Ok(y),
                ),
            };
        let z = out->Ok_0;
        a_layer_keeps_the_shape(
            model.layers@[i as int],
            model.fused,
            model.fused_glu,
            x,
            lent(&mask),
            input_positions,
            cache,
            input_metadata,
            z,
        );
        the_layers_keep_the_shape(
            model,
            i + 1,
            z,
            mask,
            input_positions,
            kv_caches,
            input_metadata,
            y,
        );
    }
}

/// Running all layers keeps the shape of the activations.
pub proof fn the_stack_keeps_the_shape<N, A, O, R, M, F, X>(
    model: GGUFQWen<N, A, O, R, M, F>,
    x: Tensor,
    input_positions: Tensor,
    kv_caches: Option<&Vec<(Tensor, Tensor)>>,
    input_metadata: InputMetadata<X>,
    y: Tensor,
) where
    N: Fn(&Tensor) -> Result<Tensor, Error>,
    R: Fn(&Tensor) -> Result<Tensor, Error>,
    O: Fn(&Tensor) -> Result<Tensor, Error>,
    M: Fn(&Device, DType, &Tensor, &Vec<u32>, Option<usize>, bool) -> Option<Vec<Tensor>>,
    A: Fn(
        &Tensor,
        Option<&Vec<Tensor>>,
        &Tensor,
        Option<(&Tensor, &Tensor)>,
        &InputMetadata<X>,
    ) -> Result<Tensor, Error>,
    F: Fn(&QMatMul, &QMatMul, &Tensor) -> Result<Option<Tensor>, Error>,

    requires
        model.stack_ends(x, input_positions, kv_caches, input_metadata, Ok(y)),
    ensures
        tensor_value(y).dims == tensor_value(x).dims,
{
    let ends = choose|ends: Result<Vec<u32>, Error>| #[trigger]
        input_metadata.sequence_ends_end(ends) && match ends {
            Err(e) => false,
            Ok(ends) => exists|mask: Option<Vec<Tensor>>| #[trigger]
                model.mask_gives(input_positions, ends, input_metadata, mask) && model.layers_end(
                    0,
                    x,
                    mask,
                    input_positions,
                    kv_caches,
                    input_metadata,
                    Ok(y),
                ),
        };
    let mask = choose|mask: Option<Vec<Tensor>>| #[trigger]
        model.mask_gives(input_positions, ends->Ok_0, input_metadata, mask) && model.layers_end(
            0,
            x,
            mask,
            input_positions,
            kv_caches,
            input_metadata,
            Ok(y),
        );
    the_layers_keep_the_shape(
        model,
        0,
        x,
        mask,
        input_positions,
        kv_caches,
        input_metadata,
        y,
    );
}

/// Whether `f` keeps the shape of what it is given.
pub open spec fn keeps_the_shape<N>(f: N) -> bool where N: Fn(&Tensor) -> Result<Tensor, Error> {
    forall|t: &Tensor, y: Tensor| #[trigger]
        call_ensures(f, (t,), Ok(y)) ==> tensor_value(y).dims == tensor_value(*t).dims
}

/// Whether `f` changes no more of the shape than the number of columns.
pub open spec fn keeps_the_rows<O>(f: O) -> bool where O: Fn(&Tensor) -> Result<Tensor, Error> {
    forall|t: &Tensor, y: Tensor| #[trigger]
        call_ensures(f, (t,), Ok(y)) ==> {
            &&& tensor_value(y).dims.len() == tensor_value(*t).dims.len()
            &&& tensor_value(y).dims.drop_last() == tensor_value(*t).dims.drop_last()
        }
}

/// Without a layer to run, because there is none or no cache for one, the activations pass
/// unchanged.
pub proof fn no_layers_change_nothing<N, A, O, R, M, F, X>(
    model: GGUFQWen<N, A, O, R, M, F>,
    x: Tensor,
    mask: Option<Vec<Tensor>>,
    input_positions: Tensor,
    kv_caches: Option<&Vec<(Tensor, Tensor)>>,
    input_metadata: InputMetadata<X>,
    r: Result<Tensor, Error>,
) where
    N: Fn(&Tensor) -> Result<Tensor, Error>,
    R: Fn(&Tensor) -> Result<Tensor, Error>,
    O: Fn(&Tensor) -> Result<Tensor, Error>,
    M: Fn(&Device, DType, &Tensor, &Vec<u32>, Option<usize>, bool) -> Option<Vec<Tensor>>,
    A: Fn(
        &Tensor,
        Option<&Vec<Tensor>>,
        &Tensor,
        Option<(&Tensor, &Tensor)>,
        &InputMetadata<X>,
    ) -> Result<Tensor, Error>,
    F: Fn(&QMatMul, &QMatMul, &Tensor) -> Result<Option<Tensor>, Error>,

    requires
        model.depth(kv_caches) == 0,
    ensures
        model.layers_end(0, x, mask, input_positions, kv_caches, input_metadata, r) <==> r == Ok::<
            Tensor,
            Error,
        >(x),
{
}

/// Layers that there is no cache for take no part: a model that has the same layers up to there,
/// and the same kernels, ends alike.
pub proof fn layers_without_a_cache_take_no_part<N, A, O, R, M, F, X>(
    model: GGUFQWen<N, A, O, R, M, F>,
    other: GGUFQWen<N, A, O, R, M, F>,
    i: nat,
    x: Tensor,
    mask: Option<Vec<Tensor>>,
    input_positions: Tensor,
    caches: &Vec<(Tensor, Tensor)>,
    input_metadata: InputMetadata<X>,
    r: Result<Tensor, Error>,
) where
    N: Fn(&Tensor) -> Result<Tensor, Error>,
    R: Fn(&Tensor) -> Result<Tensor, Error>,
    O: Fn(&Tensor) -> Result<Tensor, Error>,
    M: Fn(&Device, DType, &Tensor, &Vec<u32>, Option<usize>, bool) -> Option<Vec<Tensor>>,
    A: Fn(
        &Tensor,
        Option<&Vec<Tensor>>,
        &Tensor,
        Option<(&Tensor, &Tensor)>,
        &InputMetadata<X>,
    ) -> Result<Tensor, Error>,
    F: Fn(&QMatMul, &QMatMul, &Tensor) -> Result<Option<Tensor>, Error>,

    requires
        caches@.len() <= model.layers@.len(),
        caches@.len() <= other.layers@.len(),
        model.layers@.take(caches@.len() as int) == other.layers@.take(caches@.len() as int),
        model.fused == other.fused,
        model.fused_glu == other.fused_glu,
        model.layers_end(i, x, mask, input_positions, Some(caches), input_metadata, r),
    ensures
        other.layers_end(i, x, mask, input_positions, Some(caches), input_metadata, r),
    decreases caches@.len() - i,
{
    if i < caches@.len() {
        let n = caches@.len() as int;
        assert(model.layers@.take(n)[i as int] == other.layers@.take(n)[i as int]);
        let cache = cache_at(Some(caches), i as int);
        let out = choose|out: Result<Tensor, Error>| #[trigger]
            model.layers@[i as int].forward_ends(
                model.fused,
                model.fused_glu,
                x,
                lent(&mask),
                input_positions,
                cache,
                input_metadata,
                out,
            ) && match out {
                Err(e) => r == Err::<Tensor, Error>(e),
                Ok(z) => model.layers_end(
                    i + 1,
                    z,
                    mask,
                    input_positions,
                    Some(caches),
                    input_metadata,
                    r,
                ),
            };
        assert(other.layers@[i as int].forward_ends(
            other.fused,
            other.fused_glu,
            x,
            lent(&mask),
            input_positions,
            cache,
            input_metadata,
            out,
        ));
        if out is Ok {
            layers_without_a_cache_take_no_part(
                model,
                other,
                i + 1,
                out->Ok_0,
                mask,
                input_positions,
                caches,
                input_metadata,
                r,
            );
        }
    }
}

/// What comes of a forward pass are logits: 32-bit floats, as many to a row as the vocabulary has
/// tokens.
pub proof fn forward_gives_logits<N, A, O, R, M, F, X>(
    model: GGUFQWen<N, A, O, R, M, F>,
    x: Tensor,
    input_positions: Tensor,
    kv_caches: Option<&Vec<(Tensor, Tensor)>>,
    input_metadata: InputMetadata<X>,
    logits: Tensor,
) where
    N: Fn(&Tensor) -> Result<Tensor, Error>,
    R: Fn(&Tensor) -> Result<Tensor, Error>,
    O: Fn(&Tensor) -> Result<Tensor, Error>,
    M: Fn(&Device, DType, &Tensor, &Vec<u32>, Option<usize>, bool) -> Option<Vec<Tensor>>,
    A: Fn(
        &Tensor,
        Option<&Vec<Tensor>>,
        &Tensor,
        Option<(&Tensor, &Tensor)>,
        &InputMetadata<X>,
    ) -> Result<Tensor, Error>,
    F: Fn(&QMatMul, &QMatMul, &Tensor) -> Result<Option<Tensor>, Error>,

    requires
        model.inner_ends(x, input_positions, kv_caches, input_metadata, false, Ok(logits)),
    ensures
        tensor_value(logits).dims.len() > 0,
        tensor_value(logits).dims.last() == model.true_vocab_size,
        tensor_value(logits).dtype == "f32"@,
{
}

/// What comes of decoding from embeddings are logits: 32-bit floats, as many to a row as the
/// vocabulary has tokens.
pub proof fn from_embeddings_gives_logits<N, A, O, R, M, F, X>(
    model: GGUFQWen<N, A, O, R, M, F>,
    embeddings: Tensor,
    input_positions: Tensor,
    kv_caches: Option<&Vec<(Tensor, Tensor)>>,
    input_metadata: InputMetadata<X>,
    logits: Tensor,
    hidden: Tensor,
) where
    N: Fn(&Tensor) -> Result<Tensor, Error>,
    R: Fn(&Tensor) -> Result<Tensor, Error>,
    O: Fn(&Tensor) -> Result<Tensor, Error>,
    M: Fn(&Device, DType, &Tensor, &Vec<u32>, Option<usize>, bool) -> Option<Vec<Tensor>>,
    A: Fn(
        &Tensor,
        Option<&Vec<Tensor>>,
        &Tensor,
        Option<(&Tensor, &Tensor)>,
        &InputMetadata<X>,
    ) -> Result<Tensor, Error>,
    F: Fn(&QMatMul, &QMatMul, &Tensor) -> Result<Option<Tensor>, Error>,

    requires
        model.from_embeddings_ends(
            embeddings,
            input_positions,
            kv_caches,
            input_metadata,
            Ok((logits, hidden)),
        ),
    ensures
        tensor_value(logits).dims.len() > 0,
        tensor_value(logits).dims.last() == model.true_vocab_size,
        tensor_value(logits).dtype == "f32"@,
{
}

/// What a forward pass went through: where the sequences end, the embedded tokens, and what the
/// layers made of them.
pub proof fn parts_of_a_forward_pass<N, A, O, R, M, F, X>(
    model: GGUFQWen<N, A, O, R, M, F>,
    x: Tensor,
    input_positions: Tensor,
    kv_caches: Option<&Vec<(Tensor, Tensor)>>,
    input_metadata: InputMetadata<X>,
    return_hidden: bool,
    y: Tensor,
) -> (parts: (Vec<u32>, Tensor, Tensor)) where
    N: Fn(&Tensor) -> Result<Tensor, Error>,
    R: Fn(&Tensor) -> Result<Tensor, Error>,
    O: Fn(&Tensor) -> Result<Tensor, Error>,
    M: Fn(&Device, DType, &Tensor, &Vec<u32>, Option<usize>, bool) -> Option<Vec<Tensor>>,
    A: Fn(
        &Tensor,
        Option<&Vec<Tensor>>,
        &Tensor,
        Option<(&Tensor, &Tensor)>,
        &InputMetadata<X>,
    ) -> Result<Tensor, Error>,
    F: Fn(&QMatMul, &QMatMul, &Tensor) -> Result<Option<Tensor>, Error>,

    requires
        model.inner_ends(x, input_positions, kv_caches, input_metadata, return_hidden, Ok(y)),
    ensures
        input_metadata.sequence_ends_end(Ok(parts.0)),
        embed_ends(model.tok_embeddings, x, Ok(parts.1)),
        model.stack_ends(parts.1, input_positions, kv_caches, input_metadata, Ok(parts.2)),
        model.tail_ends(parts.0@, parts.2, return_hidden, Ok(y)),
{
    let ends = choose|ends: Result<Vec<u32>, Error>| #[trigger]
        input_metadata.sequence_ends_end(ends) && match ends {
            Err(e) => false,
            Ok(ends) => exists|xs: Result<Tensor, Error>| #[trigger]
                embed_ends(model.tok_embeddings, x, xs) && match xs {
                    Err(e) => false,
                    Ok(xs) => model.embedded_ends(
                        ends@,
                        xs,
                        input_positions,
                        kv_caches,
                        input_metadata,
                        return_hidden,
                        Ok(y),
                    ),
                },
        };
    let ends = ends->Ok_0;
    let xs = choose|xs: Result<Tensor, Error>| #[trigger]
        embed_ends(model.tok_embeddings, x, xs) && match xs {
            Err(e) => false,
            Ok(xs) => model.embedded_ends(
                ends@,
                xs,
                input_positions,
                kv_caches,
                input_metadata,
                return_hidden,
                Ok(y),
            ),
        };
    let e = xs->Ok_0;
    let s = choose|s: Result<Tensor, Error>| #[trigger]
        model.stack_ends(e, input_positions, kv_caches, input_metadata, s) && match s {
            Err(e) => false,
            Ok(s) => model.tail_ends(ends@, s, return_hidden, Ok(y)),
        };
    (ends, e, s->Ok_0)
}

/// Decoding from embeddings gives logits and activations for every position, with a norm that keeps
/// the shape and a projection that keeps the rows.
pub proof fn decoding_covers_every_position<N, A, O, R, M, F, X>(
    model: GGUFQWen<N, A, O, R, M, F>,
    embeddings: Tensor,
    input_positions: Tensor,
    kv_caches: Option<&Vec<(Tensor, Tensor)>>,
    input_metadata: InputMetadata<X>,
    logits: Tensor,
    hidden: Tensor,
) where
    N: Fn(&Tensor) -> Result<Tensor, Error>,
    R: Fn(&Tensor) -> Result<Tensor, Error>,
    O: Fn(&Tensor) -> Result<Tensor, Error>,
    M: Fn(&Device, DType, &Tensor, &Vec<u32>, Option<usize>, bool) -> Option<Vec<Tensor>>,
    A: Fn(
        &Tensor,
        Option<&Vec<Tensor>>,
        &Tensor,
        Option<(&Tensor, &Tensor)>,
        &InputMetadata<X>,
    ) -> Result<Tensor, Error>,
    F: Fn(&QMatMul, &QMatMul, &Tensor) -> Result<Option<Tensor>, Error>,

    requires
        keeps_the_shape(model.norm),
        keeps_the_rows(model.output),
        model.from_embeddings_ends(
            embeddings,
            input_positions,
            kv_caches,
            input_metadata,
            Ok((logits, hidden)),
        ),
    ensures
        tensor_value(hidden).dims == tensor_value(embeddings).dims,
        tensor_value(logits).dims == tensor_value(embeddings).dims.drop_last().push(
            model.true_vocab_size as nat,
        ),
{
    let s = choose|s: Result<Tensor, Error>| #[trigger]
        model.stack_ends(embeddings, input_positions, kv_caches, input_metadata, s) && match s {
            Err(e) => false,
            Ok(s) => exists|h: Result<Tensor, Error>| #[trigger]
                call_ensures(model.norm, (&s,), h) && match h {
                    Err(e) => false,
                    Ok(h) => model.flat_head_ends(h, Ok((logits, hidden))),
                },
        };
    the_stack_keeps_the_shape(
        model,
        embeddings,
        input_positions,
        kv_caches,
        input_metadata,
        s->Ok_0,
    );
}

/// Where sequence bounds are given, a forward pass gives one row of logits for each sequence, with
/// a norm that keeps the shape and a projection that keeps the rows.
pub proof fn forward_gives_one_row_for_each_sequence<N, A, O, R, M, F, X>(
    model: GGUFQWen<N, A, O, R, M, F>,
    x: Tensor,
    input_positions: Tensor,
    kv_caches: Option<&Vec<(Tensor, Tensor)>>,
    input_metadata: InputMetadata<X>,
    bounds: Tensor,
    logits: Tensor,
) where
    N: Fn(&Tensor) -> Result<Tensor, Error>,
    R: Fn(&Tensor) -> Result<Tensor, Error>,
    O: Fn(&Tensor) -> Result<Tensor, Error>,
    M: Fn(&Device, DType, &Tensor, &Vec<u32>, Option<usize>, bool) -> Option<Vec<Tensor>>,
    A: Fn(
        &Tensor,
        Option<&Vec<Tensor>>,
        &Tensor,
        Option<(&Tensor, &Tensor)>,
        &InputMetadata<X>,
    ) -> Result<Tensor, Error>,
    F: Fn(&QMatMul, &QMatMul, &Tensor) -> Result<Option<Tensor>, Error>,

    requires
        keeps_the_shape(model.norm),
        keeps_the_rows(model.output),
        tensor_value(x).dims.len() > 0,
        input_metadata.cu_seqlens_q == Some(bounds),
        tensor_value(bounds).dims != seq![1nat],
        input_metadata.fits(true),
        model.inner_ends(x, input_positions, kv_caches, input_metadata, false, Ok(logits)),
    ensures
        tensor_value(logits).dims.len() > 1,
        tensor_value(logits).dims[0] == tensor_value(bounds).dims[0] - 1,
        tensor_value(logits).dims.last() == model.true_vocab_size,
{
    let (ends, e, s) = parts_of_a_forward_pass(
        model,
        x,
        input_positions,
        kv_caches,
        input_metadata,
        false,
        logits,
    );
    let ends = ends@;
    the_stack_keeps_the_shape(model, e, input_positions, kv_caches, input_metadata, s);
    let all = choose|all: Result<Vec<u32>, Error>| #[trigger]
        read_ends(bounds, all) && all is Ok && ends == all->Ok_0@.skip(1);
    let all = all->Ok_0@;
    assert(tensor_value(bounds).dims =~= seq![all.len()]);
    assert forall|i: int| 0 <= i < ends.len() implies #[trigger] ends[i] > 0 by {
        assert(tensor_value(bounds).elems[i + 1] == all[i + 1]);
    }
    let y = choose|y: Result<Tensor, Error>| #[trigger]
        last_rows_end(s, ends, y) && match y {
            Err(e) => false,
            Ok(y) => model.head_ends(y, false, Ok(logits)),
        };
    let y = y->Ok_0;
    let ids = u32_vector(last_tokens(ends), tensor_value(s).device).elems;
    assert forall|j: int| 0 <= j < ids.len() implies ids[j] != u32::MAX as int by {
        assert(ids[j] == ends[j] - 1);
    }
    assert(!ids.contains(u32::MAX as int));
    assert(tensor_value(y).dims == tensor_value(s).dims.update(0, ends.len()));
    let h = choose|h: Result<Tensor, Error>| #[trigger]
        call_ensures(model.norm, (&y,), h) && match h {
            Err(e) => false,
            Ok(h) => model.logits_end(h, Ok(logits)),
        };
    let h = h->Ok_0;
    let p = choose|p: Result<Tensor, Error>| #[trigger]
        call_ensures(model.output, (&h,), p) && match p {
            Err(e) => false,
            Ok(p) => cut_logits_end(p, model.true_vocab_size as nat, Ok(logits)),
        };
    let p = p->Ok_0;
    assert(tensor_value(logits).dims == tensor_value(p).dims.drop_last().push(
        model.true_vocab_size as nat,
    ));
    assert(tensor_value(p).dims.drop_last()[0] == tensor_value(h).dims.drop_last()[0]);
}

/// Whether `hidden` are the normed activations that the layers make of `embeddings`.
pub open spec fn is_hidden<N, A, O, R, M, F, X>(
    model: GGUFQWen<N, A, O, R, M, F>,
    embeddings: Tensor,
    input_positions: Tensor,
    kv_caches: Option<&Vec<(Tensor, Tensor)>>,
    input_metadata: InputMetadata<X>,
    hidden: Tensor,
) -> bool where
    N: Fn(&Tensor) -> Result<Tensor, Error>,
    R: Fn(&Tensor) -> Result<Tensor, Error>,
    O: Fn(&Tensor) -> Result<Tensor, Error>,
    M: Fn(&Device, DType, &Tensor, &Vec<u32>, Option<usize>, bool) -> Option<Vec<Tensor>>,
    A: Fn(
        &Tensor,
        Option<&Vec<Tensor>>,
        &Tensor,
        Option<(&Tensor, &Tensor)>,
        &InputMetadata<X>,
    ) -> Result<Tensor, Error>,
    F: Fn(&QMatMul, &QMatMul, &Tensor) -> Result<Option<Tensor>, Error>,
 {
    exists|s: Tensor|
        {
            &&& #[trigger] model.stack_ends(
                embeddings,
                input_positions,
                kv_caches,
                input_metadata,
                Ok(s),
            )
            &&& call_ensures(model.norm, (&s,), Ok(hidden))
        }
}

/// The activations that `forward_embedding` gives are those that decoding from the embeddings of
/// the same tokens gives beside its logits, at every position and whatever the sequences.
pub proof fn forward_embedding_gives_the_hidden_state<N, A, O, R, M, F, X>(
    model: GGUFQWen<N, A, O, R, M, F>,
    x: Tensor,
    input_positions: Tensor,
    kv_caches: Option<&Vec<(Tensor, Tensor)>>,
    input_metadata: InputMetadata<X>,
    hidden: Tensor,
) where
    N: Fn(&Tensor) -> Result<Tensor, Error>,
    R: Fn(&Tensor) -> Result<Tensor, Error>,
    O: Fn(&Tensor) -> Result<Tensor, Error>,
    M: Fn(&Device, DType, &Tensor, &Vec<u32>, Option<usize>, bool) -> Option<Vec<Tensor>>,
    A: Fn(
        &Tensor,
        Option<&Vec<Tensor>>,
        &Tensor,
        Option<(&Tensor, &Tensor)>,
        &InputMetadata<X>,
    ) -> Result<Tensor, Error>,
    F: Fn(&QMatMul, &QMatMul, &Tensor) -> Result<Option<Tensor>, Error>,

    requires
        model.inner_ends(x, input_positions, kv_caches, input_metadata, true, Ok(hidden)),
    ensures
        exists|e: Tensor| #[trigger]
            embed_ends(model.tok_embeddings, x, Ok(e)) && is_hidden(
                model,
                e,
                input_positions,
                kv_caches,
                input_metadata,
                hidden,
            ),
{
    let (ends, e, s) = parts_of_a_forward_pass(
        model,
        x,
        input_positions,
        kv_caches,
        input_metadata,
        true,
        hidden,
    );
}

/// Decoding from embeddings ends as its head does, once the layers and the norm have given theirs.
proof fn decoding_goes_through_its_parts<N, A, O, R, M, F, X>(
    model: GGUFQWen<N, A, O, R, M, F>,
    embeddings: Tensor,
    input_positions: Tensor,
    kv_caches: Option<&Vec<(Tensor, Tensor)>>,
    input_metadata: InputMetadata<X>,
    s: Result<Tensor, Error>,
    h: Result<Tensor, Error>,
    r: Result<(Tensor, Tensor), Error>,
) where
    N: Fn(&Tensor) -> Result<Tensor, Error>,
    R: Fn(&Tensor) -> Result<Tensor, Error>,
    O: Fn(&Tensor) -> Result<Tensor, Error>,
    M: Fn(&Device, DType, &Tensor, &Vec<u32>, Option<usize>, bool) -> Option<Vec<Tensor>>,
    A: Fn(
        &Tensor,
        Option<&Vec<Tensor>>,
        &Tensor,
        Option<(&Tensor, &Tensor)>,
        &InputMetadata<X>,
    ) -> Result<Tensor, Error>,
    F: Fn(&QMatMul, &QMatMul, &Tensor) -> Result<Option<Tensor>, Error>,

    requires
        s is Ok,
        h is Ok,
        model.stack_ends(embeddings, input_positions, kv_caches, input_metadata, s),
        call_ensures(model.norm, (&s->Ok_0,), h),
        model.flat_head_ends(h->Ok_0, r),
    ensures
        model.from_embeddings_ends(embeddings, input_positions, kv_caches, input_metadata, r),
{
}

/// Where the bounds close no sequence, running the model on tokens gives the logits that decoding
/// from their embeddings gives: of the same activations and the same projection, to the last bit.
pub proof fn forward_agrees_with_decoding_from_embeddings<N, A, O, R, M, F, X>(
    model: GGUFQWen<N, A, O, R, M, F>,
    x: Tensor,
    input_positions: Tensor,
    kv_caches: Option<&Vec<(Tensor, Tensor)>>,
    input_metadata: InputMetadata<X>,
    logits: Tensor,
) where
    N: Fn(&Tensor) -> Result<Tensor, Error>,
    R: Fn(&Tensor) -> Result<Tensor, Error>,
    O: Fn(&Tensor) -> Result<Tensor, Error>,
    M: Fn(&Device, DType, &Tensor, &Vec<u32>, Option<usize>, bool) -> Option<Vec<Tensor>>,
    A: Fn(
        &Tensor,
        Option<&Vec<Tensor>>,
        &Tensor,
        Option<(&Tensor, &Tensor)>,
        &InputMetadata<X>,
    ) -> Result<Tensor, Error>,
    F: Fn(&QMatMul, &QMatMul, &Tensor) -> Result<Option<Tensor>, Error>,

    requires
        input_metadata.cu_seqlens_q matches Some(t) ==> tensor_value(t).dims == seq![1nat],
        model.inner_ends(x, input_positions, kv_caches, input_metadata, false, Ok(logits)),
    ensures
        exists|e: Tensor, h: Tensor, p: Tensor|
            {
                &&& #[trigger] embed_ends(model.tok_embeddings, x, Ok(e))
                &&& is_hidden(model, e, input_positions, kv_caches, input_metadata, h)
                &&& #[trigger] call_ensures(model.output, (&h,), Ok(p))
                &&& forall|flat: Tensor| #[trigger]
                    flat_logits_end(p, model.true_vocab_size as nat, Ok(flat)) ==> {
                        &&& tensor_value(flat) == tensor_value(logits)
                        &&& model.from_embeddings_ends(
                            e,
                            input_positions,
                            kv_caches,
                            input_metadata,
                            Ok((flat, h)),
                        )
                    }
            },
{
    let (ends, e, s) = parts_of_a_forward_pass(
        model,
        x,
        input_positions,
        kv_caches,
        input_metadata,
        false,
        logits,
    );
    assert(ends@.len() == 0) by {
        assert(seq![1nat][0] == 1);
    }
    assert(model.head_ends(s, false, Ok(logits)));
    let n = choose|n: Result<Tensor, Error>| #[trigger]
        call_ensures(model.norm, (&s,), n) && match n {
            Err(e) => false,
            Ok(h) => model.logits_end(h, Ok(logits)),
        };
    let h = n->Ok_0;
    let o = choose|o: Result<Tensor, Error>| #[trigger]
        call_ensures(model.output, (&h,), o) && match o {
            Err(e) => false,
            Ok(p) => cut_logits_end(p, model.true_vocab_size as nat, Ok(logits)),
        };
    let p = o->Ok_0;
    assert(embed_ends(model.tok_embeddings, x, Ok(e)));
    assert(call_ensures(model.norm, (&s,), Ok(h)));
    assert(is_hidden(model, e, input_positions, kv_caches, input_metadata, h));
    assert(call_ensures(model.output, (&h,), Ok(p)));
    assert forall|flat: Tensor| #[trigger]
        flat_logits_end(p, model.true_vocab_size as nat, Ok(flat)) implies {
        &&& tensor_value(flat) == tensor_value(logits)
        &&& model.from_embeddings_ends(
            e,
            input_positions,
            kv_caches,
            input_metadata,
            Ok((flat, h)),
        )
    } by {
        flat_logits_are_the_logits(p, model.true_vocab_size as nat, logits, flat);
        assert(model.flat_head_ends(h, Ok((flat, h))));
        decoding_goes_through_its_parts(
            model,
            e,
            input_positions,
            kv_caches,
            input_metadata,
            Ok(s),
            Ok(h),
            Ok((flat, h)),
        );
    }
}

} // verus!
