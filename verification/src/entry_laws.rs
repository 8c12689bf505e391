//! What each function that is offered ends in, by the laws of its steps.

use crate::batch::{last_rows_end, last_token_positions, select_last_rows, InputMetadata};
use crate::config::{Config, KvCacheDtype, Ratio, Real, Single};
use crate::error::{lifted, lifting_keeps_what_it_is_given, missing_key_message, ModelError};
use crate::gguf::{base_config, is_base_config, Kernels};
use crate::layer::LayerWeights;
use crate::loader::{Engine, Heads, Placement};
use crate::logits::{cut_logits, cut_logits_end, flat_logits, flat_logits_end};
use crate::metadata::{is_f32_field, is_u32_field, Field, Metadata};
use crate::mlp::{fused_glu_enabled, Mlp};
use crate::model::GGUFQWen;
use crate::params::{
    asks_to_divide_by_zero, fields_end, optional, read_fields, reports, required, true_vocab_size,
    CoreFields, CoreParams, RopeFields, RopeParams,
};
use crate::progress::ProgressReporter;
use crate::tensor::is_row_major;
use crate::text::{arch_key_string, decimal, decimal_string, layer_prefix_string};
use crate::weight::{
    can_multiply, check_blocks, check_weight, is_filled, qtensor_value, weight_value,
};
use candle_core::quantized::gguf_file::Value;
use candle_core::quantized::{QMatMul, QTensor};
use candle_core::{DType, Device, Error, Tensor};
use std::sync::Arc;
use vstd::prelude::*;

verus! {

/// `forward` is a pass that goes on to the logits of each sequence's last token.
pub proof fn forward_is_a_pass_to_the_logits<N, A, O, R, M, F, X>(
    model: GGUFQWen<N, A, O, R, M, F>,
    x: Tensor,
    input_positions: Tensor,
    kv_caches: Option<&Vec<(Tensor, Tensor)>>,
    input_metadata: InputMetadata<X>,
    r: Result<Tensor, ModelError>,
) where
    N: Fn(&Tensor) -> Result<Tensor, Error>,
    R: Fn(&Tensor) -> Result<Tensor, Error>,
    O: Fn(&Tensor) -> Result<Tensor, Error>,
    M: Fn(&Device, DType, &Tensor, &Vec<u32>, Option<usize>, bool) -> Option<Vec<Tensor>>,
    A: Fn(
        &Tensor,
        Option<&Vec<Tensor>>,
        &Tensor,
        Option<(&Tensor, &Tensor)>,
        &InputMetadata<X>,
    ) -> Result<Tensor, Error>,
    F: Fn(&QMatMul, &QMatMul, &Tensor) -> Result<Option<Tensor>, Error>,

    requires
        call_ensures(
            GGUFQWen::<N, A, O, R, M, F>::forward::<X>,
            (&model, &x, &input_positions, kv_caches, &input_metadata),
            r,
        ),
    ensures
        match r {
            Ok(y) => model.inner_ends(
                x,
                input_positions,
                kv_caches,
                input_metadata,
                false,
                Ok(y),
            ),
            Err(e) => e is Candle && model.inner_ends(
                x,
                input_positions,
                kv_caches,
                input_metadata,
                false,
                Err(e->Candle_0),
            ),
        },
{
    let t = choose|t: Result<Tensor, Error>| #[trigger]
        model.inner_ends(x, input_positions, kv_caches, input_metadata, false, t) && r == lifted(
            t,
        );
    lifting_keeps_what_it_is_given(t);
}

/// `forward_embedding` is a pass that ends at the normed activations of every token.
pub proof fn forward_embedding_is_a_pass_to_the_activations<N, A, O, R, M, F, X>(
    model: GGUFQWen<N, A, O, R, M, F>,
    x: Tensor,
    input_positions: Tensor,
    kv_caches: Option<&Vec<(Tensor, Tensor)>>,
    input_metadata: InputMetadata<X>,
    r: Result<Tensor, ModelError>,
) where
    N: Fn(&Tensor) -> Result<Tensor, Error>,
    R: Fn(&Tensor) -> Result<Tensor, Error>,
    O: Fn(&Tensor) -> Result<Tensor, Error>,
    M: Fn(&Device, DType, &Tensor, &Vec<u32>, Option<usize>, bool) -> Option<Vec<Tensor>>,
    A: Fn(
        &Tensor,
        Option<&Vec<Tensor>>,
        &Tensor,
        Option<(&Tensor, &Tensor)>,
        &InputMetadata<X>,
    ) -> Result<Tensor, Error>,
    F: Fn(&QMatMul, &QMatMul, &Tensor) -> Result<Option<Tensor>, Error>,

    requires
        call_ensures(
            GGUFQWen::<N, A, O, R, M, F>::forward_embedding::<X>,
            (&model, &x, &input_positions, kv_caches, &input_metadata),
            r,
        ),
    ensures
        match r {
            Ok(y) => model.inner_ends(
                x,
                input_positions,
                kv_caches,
                input_metadata,
                true,
                Ok(y),
            ),
            Err(e) => e is Candle && model.inner_ends(
                x,
                input_positions,
                kv_caches,
                input_metadata,
                true,
                Err(e->Candle_0),
            ),
        },
{
    let t = choose|t: Result<Tensor, Error>| #[trigger]
        model.inner_ends(x, input_positions, kv_caches, input_metadata, true, t) && r == lifted(
            t,
        );
    lifting_keeps_what_it_is_given(t);
}

/// `try_forward` is what `forward` is where the step is allowed, and gives nothing only where it is
/// not.
pub proof fn try_forward_is_a_pass_where_it_is_allowed<N, A, O, R, M, F, X>(
    model: GGUFQWen<N, A, O, R, M, F>,
    x: Tensor,
    input_positions: Tensor,
    kv_caches: Option<&Vec<(Tensor, Tensor)>>,
    input_metadata: InputMetadata<X>,
    r: Result<Option<Tensor>, ModelError>,
) where
    N: Fn(&Tensor) -> Result<Tensor, Error>,
    R: Fn(&Tensor) -> Result<Tensor, Error>,
    O: Fn(&Tensor) -> Result<Tensor, Error>,
    M: Fn(&Device, DType, &Tensor, &Vec<u32>, Option<usize>, bool) -> Option<Vec<Tensor>>,
    A: Fn(
        &Tensor,
        Option<&Vec<Tensor>>,
        &Tensor,
        Option<(&Tensor, &Tensor)>,
        &InputMetadata<X>,
    ) -> Result<Tensor, Error>,
    F: Fn(&QMatMul, &QMatMul, &Tensor) -> Result<Option<Tensor>, Error>,

    requires
        call_ensures(
            GGUFQWen::<N, A, O, R, M, F>::try_forward::<X>,
            (&model, &x, &input_positions, kv_caches, &input_metadata),
            r,
        ),
    ensures
        r matches Ok(None) ==> !model.allows(kv_caches, input_metadata, true),
        r matches Ok(Some(y)) ==> model.allows(kv_caches, input_metadata, true)
            && model.inner_ends(
            x,
            input_positions,
            kv_caches,
            input_metadata,
            false,
            Ok(y),
        ),
        r matches Err(e) ==> e is Candle && model.weights_multiply(kv_caches) && model.inner_ends(
            x,
            input_positions,
            kv_caches,
            input_metadata,
            false,
            Err(e->Candle_0),
        ),
{
}

/// `try_forward_embedding` is what `forward_embedding` is where the step is allowed, and gives
/// nothing only where it is not.
pub proof fn try_forward_embedding_is_a_pass_where_it_is_allowed<N, A, O, R, M, F, X>(
    model: GGUFQWen<N, A, O, R, M, F>,
    x: Tensor,
    input_positions: Tensor,
    kv_caches: Option<&Vec<(Tensor, Tensor)>>,
    input_metadata: InputMetadata<X>,
    r: Result<Option<Tensor>, ModelError>,
) where
    N: Fn(&Tensor) -> Result<Tensor, Error>,
    R: Fn(&Tensor) -> Result<Tensor, Error>,
    O: Fn(&Tensor) -> Result<Tensor, Error>,
    M: Fn(&Device, DType, &Tensor, &Vec<u32>, Option<usize>, bool) -> Option<Vec<Tensor>>,
    A: Fn(
        &Tensor,
        Option<&Vec<Tensor>>,
        &Tensor,
        Option<(&Tensor, &Tensor)>,
        &InputMetadata<X>,
    ) -> Result<Tensor, Error>,
    F: Fn(&QMatMul, &QMatMul, &Tensor) -> Result<Option<Tensor>, Error>,

    requires
        call_ensures(
            GGUFQWen::<N, A, O, R, M, F>::try_forward_embedding::<X>,
            (&model, &x, &input_positions, kv_caches, &input_metadata),
            r,
        ),
    ensures
        r matches Ok(None) ==> !model.allows(kv_caches, input_metadata, false),
        r matches Ok(Some(y)) ==> model.allows(kv_caches, input_metadata, false)
            && model.inner_ends(
            x,
            input_positions,
            kv_caches,
            input_metadata,
            true,
            Ok(y),
        ),
        r matches Err(e) ==> e is Candle && model.weights_multiply(kv_caches) && model.inner_ends(
            x,
            input_positions,
            kv_caches,
            input_metadata,
            true,
            Err(e->Candle_0),
        ),
{
}

/// `forward_from_embeddings` decodes from the embeddings that it is given, and its logits lie in
/// one piece.
pub proof fn forward_from_embeddings_decodes<N, A, O, R, M, F, X>(
    model: GGUFQWen<N, A, O, R, M, F>,
    embeddings: Tensor,
    input_positions: Tensor,
    kv_caches: Option<&Vec<(Tensor, Tensor)>>,
    input_metadata: InputMetadata<X>,
    r: Result<(Tensor, Tensor), ModelError>,
) where
    N: Fn(&Tensor) -> Result<Tensor, Error>,
    R: Fn(&Tensor) -> Result<Tensor, Error>,
    O: Fn(&Tensor) -> Result<Tensor, Error>,
    M: Fn(&Device, DType, &Tensor, &Vec<u32>, Option<usize>, bool) -> Option<Vec<Tensor>>,
    A: Fn(
        &Tensor,
        Option<&Vec<Tensor>>,
        &Tensor,
        Option<(&Tensor, &Tensor)>,
        &InputMetadata<X>,
    ) -> Result<Tensor, Error>,
    F: Fn(&QMatMul, &QMatMul, &Tensor) -> Result<Option<Tensor>, Error>,

    requires
        call_ensures(
            GGUFQWen::<N, A, O, R, M, F>::forward_from_embeddings::<X>,
            (&model, &embeddings, &input_positions, kv_caches, &input_metadata),
            r,
        ),
    ensures
        match r {
            Ok(y) => is_row_major(y.0) && model.from_embeddings_ends(
                embeddings,
                input_positions,
                kv_caches,
                input_metadata,
                Ok(y),
            ),
            Err(e) => e is Candle && model.from_embeddings_ends(
                embeddings,
                input_positions,
                kv_caches,
                input_metadata,
                Err(e->Candle_0),
            ),
        },
{
    let t = choose|t: Result<(Tensor, Tensor), Error>| #[trigger]
        model.from_embeddings_ends(embeddings, input_positions, kv_caches, input_metadata, t) && r
            == lifted(t);
    lifting_keeps_what_it_is_given(t);
}

/// `try_forward_from_embeddings` decodes where the step is allowed, and gives nothing only where it
/// is not.
pub proof fn try_forward_from_embeddings_decodes_where_it_is_allowed<N, A, O, R, M, F, X>(
    model: GGUFQWen<N, A, O, R, M, F>,
    embeddings: Tensor,
    input_positions: Tensor,
    kv_caches: Option<&Vec<(Tensor, Tensor)>>,
    input_metadata: InputMetadata<X>,
    r: Result<Option<(Tensor, Tensor)>, ModelError>,
) where
    N: Fn(&Tensor) -> Result<Tensor, Error>,
    R: Fn(&Tensor) -> Result<Tensor, Error>,
    O: Fn(&Tensor) -> Result<Tensor, Error>,
    M: Fn(&Device, DType, &Tensor, &Vec<u32>, Option<usize>, bool) -> Option<Vec<Tensor>>,
    A: Fn(
        &Tensor,
        Option<&Vec<Tensor>>,
        &Tensor,
        Option<(&Tensor, &Tensor)>,
        &InputMetadata<X>,
    ) -> Result<Tensor, Error>,
    F: Fn(&QMatMul, &QMatMul, &Tensor) -> Result<Option<Tensor>, Error>,

    requires
        call_ensures(
            GGUFQWen::<N, A, O, R, M, F>::try_forward_from_embeddings::<X>,
            (&model, &embeddings, &input_positions, kv_caches, &input_metadata),
            r,
        ),
    ensures
        r matches Ok(None) ==> !model.allows(kv_caches, input_metadata, false),
        r matches Ok(Some(y)) ==> is_row_major(y.0) && model.allows(
            kv_caches,
            input_metadata,
            false,
        ) && model.from_embeddings_ends(
            embeddings,
            input_positions,
            kv_caches,
            input_metadata,
            Ok(y),
        ),
        r matches Err(e) ==> e is Candle && model.weights_multiply(kv_caches)
            && model.from_embeddings_ends(
            embeddings,
            input_positions,
            kv_caches,
            input_metadata,
            Err(e->Candle_0),
        ),
{
}

/// `forward_layers` runs the layers on the activations that it is given, and `check_weights` tests
/// those of the same layers.
pub proof fn forward_layers_runs_the_layers<N, A, O, R, M, F, X>(
    model: GGUFQWen<N, A, O, R, M, F>,
    xs: Tensor,
    input_positions: Tensor,
    kv_caches: Option<&Vec<(Tensor, Tensor)>>,
    input_metadata: InputMetadata<X>,
    r: Result<Tensor, Error>,
    ok: bool,
) where
    N: Fn(&Tensor) -> Result<Tensor, Error>,
    R: Fn(&Tensor) -> Result<Tensor, Error>,
    O: Fn(&Tensor) -> Result<Tensor, Error>,
    M: Fn(&Device, DType, &Tensor, &Vec<u32>, Option<usize>, bool) -> Option<Vec<Tensor>>,
    A: Fn(
        &Tensor,
        Option<&Vec<Tensor>>,
        &Tensor,
        Option<(&Tensor, &Tensor)>,
        &InputMetadata<X>,
    ) -> Result<Tensor, Error>,
    F: Fn(&QMatMul, &QMatMul, &Tensor) -> Result<Option<Tensor>, Error>,

    requires
        call_ensures(
            GGUFQWen::<N, A, O, R, M, F>::forward_layers::<X>,
            (&model, xs, &input_positions, kv_caches, &input_metadata),
            r,
        ),
        call_ensures(GGUFQWen::<N, A, O, R, M, F>::check_weights, (&model, kv_caches), ok),
    ensures
        model.stack_ends(xs, input_positions, kv_caches, input_metadata, r),
        ok == model.weights_multiply(kv_caches),
{
}

/// `LayerWeights::forward` runs the layer with what it is given.
pub proof fn a_layer_is_run_with_what_it_is_given<N, A, R, X, F>(
    layer: LayerWeights<N, A, R>,
    x: Tensor,
    mask: Option<&Vec<Tensor>>,
    input_positions: Tensor,
    cache: Option<(&Tensor, &Tensor)>,
    input_metadata: InputMetadata<X>,
    fused: F,
    fused_glu: bool,
    r: Result<Tensor, Error>,
) where
    N: Fn(&Tensor) -> Result<Tensor, Error>,
    R: Fn(&Tensor) -> Result<Tensor, Error>,
    A: Fn(
        &Tensor,
        Option<&Vec<Tensor>>,
        &Tensor,
        Option<(&Tensor, &Tensor)>,
        &InputMetadata<X>,
    ) -> Result<Tensor, Error>,
    F: Fn(&QMatMul, &QMatMul, &Tensor) -> Result<Option<Tensor>, Error>,

    requires
        call_ensures(
            LayerWeights::<N, A, R>::forward::<X, F>,
            (
                &layer,
                &x,
                mask,
                &input_positions,
                cache,
                &input_metadata,
                &fused,
                fused_glu,
            ),
            r,
        ),
    ensures
        layer.forward_ends(
            fused,
            fused_glu,
            x,
            mask,
            input_positions,
            cache,
            input_metadata,
            r,
        ),
{
}

/// `LayerWeights::forward_attn` runs the attention on what it is given, with the mask and the cache
/// that it is given.
pub proof fn the_attention_is_run_with_what_it_is_given<N, A, R, X>(
    layer: LayerWeights<N, A, R>,
    x: Tensor,
    mask: Option<&Vec<Tensor>>,
    input_positions: Tensor,
    cache: Option<(&Tensor, &Tensor)>,
    input_metadata: InputMetadata<X>,
    r: Result<Tensor, Error>,
) where
    N: Fn(&Tensor) -> Result<Tensor, Error>,
    R: Fn(&Tensor) -> Result<Tensor, Error>,
    A: Fn(
        &Tensor,
        Option<&Vec<Tensor>>,
        &Tensor,
        Option<(&Tensor, &Tensor)>,
        &InputMetadata<X>,
    ) -> Result<Tensor, Error>,

    requires
        call_ensures(
            LayerWeights::<N, A, R>::forward_attn::<X>,
            (&layer, &x, mask, &input_positions, cache, &input_metadata),
            r,
        ),
    ensures
        call_ensures(
            layer.self_attn,
            (&x, mask, &input_positions, cache, &input_metadata),
            r,
        ),
{
}

/// `Mlp::forward` runs the block on what it is given, and `Mlp::check_weights` tests its weights.
pub proof fn a_block_is_run_on_what_it_is_given<R, F>(
    mlp: Mlp<R>,
    xs: Tensor,
    fused: F,
    fused_glu: bool,
    r: Result<Tensor, Error>,
    ok: bool,
) where
    R: Fn(&Tensor) -> Result<Tensor, Error>,
    F: Fn(&QMatMul, &QMatMul, &Tensor) -> Result<Option<Tensor>, Error>,

    requires
        call_ensures(Mlp::<R>::forward::<F>, (&mlp, &xs, &fused, fused_glu), r),
        call_ensures(Mlp::<R>::check_weights, (&mlp,), ok),
    ensures
        mlp.forward_ends(fused, fused_glu, xs, r),
        ok == mlp.weights_multiply(),
{
}

/// `check_weight` and `check_blocks` tell exactly whether a weight can be multiplied by and whether
/// a tensor is filled.
pub proof fn weights_are_tested_exactly(w: QMatMul, q: QTensor, multiplies: bool, filled: bool)
    requires
        call_ensures(check_weight, (&w,), multiplies),
        call_ensures(check_blocks, (&q,), filled),
    ensures
        multiplies == can_multiply(weight_value(w)),
        filled == is_filled(qtensor_value(q)),
{
}

/// `fused_glu_enabled` leaves the kernel on for everything but `0`.
pub proof fn the_setting_is_read_exactly(setting: Option<String>, on: bool)
    requires
        call_ensures(fused_glu_enabled, (setting,), on),
    ensures
        on == !(setting is Some && setting->Some_0@ == "0"@),
{
}

/// `InputMetadata::sequence_ends` reads the ends, and `InputMetadata::check_bounds` tells exactly
/// whether they fit.
pub proof fn bounds_are_read_and_tested<X>(
    input_metadata: InputMetadata<X>,
    picks_last: bool,
    ends: Result<Vec<u32>, Error>,
    fit: Result<bool, Error>,
)
    requires
        call_ensures(InputMetadata::<X>::sequence_ends, (&input_metadata,), ends),
        call_ensures(InputMetadata::<X>::check_bounds, (&input_metadata, picks_last), fit),
    ensures
        input_metadata.sequence_ends_end(ends),
        fit matches Ok(ok) ==> ok == input_metadata.fits(picks_last),
        fit is Err ==> input_metadata.cu_seqlens_q is Some,
{
}

/// `last_token_positions` gives the position before each end, and `select_last_rows` the rows
/// there.
pub proof fn last_tokens_stand_before_the_ends(
    ends: Vec<u32>,
    positions: Vec<u32>,
    x: Tensor,
    r: Result<Tensor, Error>,
)
    requires
        forall|i: int| 0 <= i < ends@.len() ==> #[trigger] ends@[i] > 0,
        call_ensures(last_token_positions, (&ends,), positions),
        call_ensures(select_last_rows, (&x, &ends), r),
    ensures
        positions@.len() == ends@.len(),
        forall|i: int| 0 <= i < ends@.len() ==> #[trigger] positions@[i] == ends@[i] - 1,
        last_rows_end(x, ends@, r),
{
}

/// `cut_logits` and `flat_logits` cut as many columns as they are told to, the latter in one piece.
pub proof fn as_many_columns_are_cut_as_asked_for(
    p: Tensor,
    vocab: usize,
    cut: Result<Tensor, Error>,
    flat: Result<Tensor, Error>,
)
    requires
        call_ensures(cut_logits, (&p, vocab), cut),
        call_ensures(flat_logits, (&p, vocab), flat),
    ensures
        cut_logits_end(p, vocab as nat, cut),
        flat_logits_end(p, vocab as nat, flat),
        flat matches Ok(y) ==> is_row_major(y),
{
}

/// Names are put together as they are looked up.
pub proof fn names_are_written_as_they_are_looked_up(
    n: usize,
    number: String,
    prefix: String,
    arch: &str,
    parameter: &str,
    key: String,
    text: String,
)
    requires
        call_ensures(decimal_string, (n,), number),
        call_ensures(layer_prefix_string, (n,), prefix),
        call_ensures(arch_key_string, (arch, parameter), key),
        call_ensures(missing_key_message, (arch,), text),
    ensures
        number@ == decimal(n as nat),
        prefix@ == "blk."@ + decimal(n as nat),
        key@ == arch@ + "."@ + parameter@,
        text@ == "cannot find "@ + arch@ + " in metadata"@,
{
}

/// Metadata gives back, under a key, the value, the number or the float that stands there.
pub proof fn metadata_is_read_under_its_key(
    md: Metadata,
    key: &str,
    number: Field<u32>,
    float: Field<Single>,
)
    requires
        call_ensures(Metadata::u32_field, (&md, key), number),
        call_ensures(Metadata::f32_field, (&md, key), float),
    ensures
        is_u32_field(md@, key@, number),
        is_f32_field(md@, key@, float),
{
}

/// What was put into metadata last stands under its key, every other key keeps what it had, and
/// metadata that nothing was put into has no key.
pub proof fn metadata_gives_back_what_was_put_in(
    md: &mut Metadata,
    key: String,
    value: Value,
    other: &str,
    got: Option<&Value>,
    empty: Metadata,
    nothing: Option<&Value>,
)
    requires
        call_ensures(Metadata::insert, (md, key, value), ()),
        call_ensures(Metadata::get, (&*final(md), other), got),
        call_ensures(Metadata::new, (), empty),
        call_ensures(Metadata::get, (&empty, other), nothing),
    ensures
        other@ == key@ ==> got is Some && *got->Some_0 == value,
        other@ != key@ ==> got is Some == old(md)@.contains_key(other@),
        other@ != key@ && got is Some ==> *got->Some_0 == old(md)@[other@],
        nothing is None,
{
}

/// A new reporter was told nothing, and one that is told a number passes it on and keeps what it
/// was told before.
pub proof fn a_reporter_passes_on_what_it_is_told<PF>(
    tell: PF,
    made: ProgressReporter<PF>,
    reporter: &mut ProgressReporter<PF>,
    n: usize,
) where PF: Fn(usize)
    requires
        call_ensures(ProgressReporter::<PF>::new, (tell,), made),
        call_ensures(ProgressReporter::<PF>::set_progress, (reporter, n), ()),
    ensures
        made.told().len() == 0,
        made.listener() == tell,
        final(reporter).told() == old(reporter).told() + seq![n],
        final(reporter).listener() == old(reporter).listener(),
        call_ensures(old(reporter).listener(), (n,), ()),
{
    assert(old(reporter).told() + seq![n] =~= old(reporter).told().push(n));
}

/// `required` and `optional` give what a field holds. Both report one of another type; only the
/// first asks for it to be there.
pub proof fn fields_are_taken_out<T>(
    field: Field<T>,
    arch: &str,
    parameter: &str,
    must: Result<T, ModelError>,
    may: Result<Option<T>, ModelError>,
)
    requires
        call_ensures(required::<T>, (field, arch, parameter), must),
        call_ensures(optional::<T>, (field,), may),
    ensures
        match field {
            Field::Found(v) => must == Ok::<T, ModelError>(v) && may == Ok::<Option<T>, ModelError>(
                Some(v),
            ),
            Field::Missing => {
                &&& must is Err
                &&& must->Err_0 is MissingKey
                &&& must->Err_0->MissingKey_0@ == arch@ + "."@ + parameter@
                &&& may == Ok::<Option<T>, ModelError>(None)
            },
            Field::Invalid(e) => {
                &&& must == Err::<T, ModelError>(ModelError::Candle(e))
                &&& may == Err::<Option<T>, ModelError>(ModelError::Candle(e))
            },
        },
{
}

/// The fields of metadata are read and resolved as the laws of hyperparameters say.
pub proof fn fields_are_read_and_resolved(
    md: Metadata,
    read: Result<(CoreFields, RopeFields), ModelError>,
    core: CoreFields,
    shape: Result<CoreParams, ModelError>,
    by_zero: bool,
    rope: RopeFields,
    head_dim: usize,
    reach: Result<RopeParams, ModelError>,
)
    requires
        call_ensures(read_fields, (&md,), read),
        call_ensures(CoreFields::resolve, (core,), shape),
        call_ensures(CoreFields::check_division, (&core,), by_zero),
        call_ensures(RopeFields::resolve, (rope, head_dim), reach),
    ensures
        fields_end(md@, read),
        match core.fault() {
            Some(fault) => shape is Err && reports(shape->Err_0, fault),
            None => shape is Ok && core.give(shape->Ok_0),
        },
        by_zero == core.divides_by_zero(),
        match rope.fault() {
            Some(fault) => reach is Err && reports(reach->Err_0, fault),
            None => reach == Ok::<RopeParams, ModelError>(rope.give(head_dim)),
        },
{
}

/// `true_vocab_size` is the number of rows of the table, but for Qwen3.
pub proof fn the_vocabulary_is_known_or_counted(arch: String, rows: usize, size: usize)
    requires
        call_ensures(true_vocab_size, (&arch, rows), size),
    ensures
        arch@ == "qwen3"@ ==> size == 151936,
        arch@ != "qwen3"@ ==> size == rows,
{
}

/// `GGUFQWen::into_config` puts each number in its place, leaves the vocabulary at zero and the
/// cache to the engine.
pub proof fn a_configuration_has_each_number_in_its_place<D, S>(
    embedding_length: usize,
    head_dim: usize,
    i_size: usize,
    block_count: usize,
    head_count: usize,
    head_count_kv: usize,
    rope_theta: D,
    rms_eps: D,
    max_seq_len: usize,
    original_max_position_embeddings: Option<usize>,
    partial_rotary_factor: Option<S>,
    kv_cache_dtype: DType,
    cfg: Config<D, S>,
)
    requires
        call_ensures(
            GGUFQWen::<(), (), (), (), (), ()>::into_config::<D, S>,
            (
                embedding_length,
                head_dim,
                i_size,
                block_count,
                head_count,
                head_count_kv,
                rope_theta,
                rms_eps,
                max_seq_len,
                original_max_position_embeddings,
                partial_rotary_factor,
                kv_cache_dtype,
            ),
            cfg,
        ),
    ensures
        cfg.has_qwen_constants(),
        cfg.has_no_extras(),
        cfg.hidden_size == embedding_length,
        cfg.head_dim == Some(head_dim),
        cfg.intermediate_size == i_size,
        cfg.vocab_size == 0,
        cfg.num_hidden_layers == block_count,
        cfg.num_attention_heads == head_count,
        cfg.num_key_value_heads == Some(head_count_kv),
        cfg.rms_norm_eps == rms_eps,
        cfg.rope_theta == rope_theta,
        cfg.max_seq_len == max_seq_len,
        cfg.max_position_embeddings == Some(max_seq_len),
        cfg.original_max_position_embeddings == original_max_position_embeddings,
        cfg.partial_rotary_factor == partial_rotary_factor,
        cfg.kvcache_dtype == KvCacheDtype::Auto,
{
}

/// `base_config` makes the configuration of the hyperparameters, and `GGUFQWen::get_config` hands
/// out that of the model.
pub proof fn a_configuration_is_made_and_handed_out<N, A, O, R, M, F>(
    p: CoreParams,
    rope: RopeParams,
    vocab: usize,
    kv_cache_dtype: DType,
    compression: KvCacheDtype,
    made: Config<Real, Ratio>,
    model: GGUFQWen<N, A, O, R, M, F>,
    handed: &Config<Real, Ratio>,
)
    requires
        call_ensures(base_config, (&p, rope, vocab, kv_cache_dtype, compression), made),
        call_ensures(GGUFQWen::<N, A, O, R, M, F>::get_config, (&model,), handed),
    ensures
        is_base_config(made, p, rope, vocab as nat, compression),
        *handed == model.cfg,
{
}

/// `Engine::load_heads` and `Engine::load_layer` load what they are asked for.
pub proof fn heads_and_layers_are_loaded_as_asked<G, S, H, NF, OF, YF, EF, AF, RF, N, O, E, A, R>(
    engine: Engine<G, S, H, NF, OF, YF, EF, AF, RF>,
    place: Placement,
    eps: Single,
    heads: Result<Heads<N, O>, Error>,
    cfg: Config<Real, Ratio>,
    index: usize,
    rotary: Arc<E>,
    layer: Result<LayerWeights<N, A, R>, Error>,
) where
    G: Fn(Option<&str>, &str) -> Result<Arc<QTensor>, Error>,
    S: Fn(&str, &str, usize, usize, usize) -> Result<Arc<QTensor>, Error>,
    H: Fn(&str) -> bool,
    NF: Fn(Arc<QTensor>, Single) -> Result<N, Error>,
    OF: Fn(&str, usize, DType) -> Result<O, Error>,
    YF: Fn(Config<Real, Ratio>) -> Config<Real, Ratio>,
    EF: Fn(&Config<Real, Ratio>, &Device) -> Result<E, Error>,
    AF: Fn(
        &Config<Real, Ratio>,
        &str,
        &Device,
        DType,
        Arc<E>,
        Option<usize>,
        usize,
        usize,
    ) -> Result<A, Error>,
    RF: Fn() -> R,

    requires
        call_ensures(
            Engine::<G, S, H, NF, OF, YF, EF, AF, RF>::load_heads,
            (&engine, &place, eps),
            heads,
        ),
        call_ensures(
            Engine::<G, S, H, NF, OF, YF, EF, AF, RF>::load_layer,
            (&engine, &cfg, index, &place, rotary, eps),
            layer,
        ),
    ensures
        engine.heads_end(place, eps, heads),
        engine.layer_ends(cfg, index as nat, place, rotary, eps, layer),
{
}

/// `GGUFQWen::from_gguf` loads the model that the metadata describes, and `GGUFQWen::try_from_gguf`
/// gives nothing only where the metadata asks for a division by zero, and tells nothing then.
pub proof fn a_model_is_loaded_from_its_metadata<
    G,
    S,
    H,
    NF,
    OF,
    YF,
    EF,
    AF,
    RF,
    N,
    O,
    E,
    A,
    R,
    M,
    F,
    PF,
>(
    metadata: Metadata,
    engine: Engine<G, S, H, NF, OF, YF, EF, AF, RF>,
    place: Placement,
    kv_cache_dtype: DType,
    reporter: &mut ProgressReporter<PF>,
    other_reporter: &mut ProgressReporter<PF>,
    compression: KvCacheDtype,
    kernels: Kernels<M, F>,
    r: Result<GGUFQWen<N, A, O, R, M, F>, ModelError>,
    tried: Result<Option<GGUFQWen<N, A, O, R, M, F>>, ModelError>,
) where
    G: Fn(Option<&str>, &str) -> Result<Arc<QTensor>, Error>,
    S: Fn(&str, &str, usize, usize, usize) -> Result<Arc<QTensor>, Error>,
    H: Fn(&str) -> bool,
    NF: Fn(Arc<QTensor>, Single) -> Result<N, Error>,
    OF: Fn(&str, usize, DType) -> Result<O, Error>,
    YF: Fn(Config<Real, Ratio>) -> Config<Real, Ratio>,
    EF: Fn(&Config<Real, Ratio>, &Device) -> Result<E, Error>,
    AF: Fn(
        &Config<Real, Ratio>,
        &str,
        &Device,
        DType,
        Arc<E>,
        Option<usize>,
        usize,
        usize,
    ) -> Result<A, Error>,
    RF: Fn() -> R,
    PF: Fn(usize),

    requires
        call_ensures(
            GGUFQWen::<N, A, O, R, M, F>::from_gguf::<G, S, H, NF, OF, YF, EF, AF, RF, PF, E>,
            (&metadata, &engine, &place, kv_cache_dtype, reporter, compression, kernels),
            r,
        ),
        call_ensures(
            GGUFQWen::<N, A, O, R, M, F>::try_from_gguf::<G, S, H, NF, OF, YF, EF, AF, RF, PF, E>,
            (&metadata, &engine, &place, kv_cache_dtype, other_reporter, compression, kernels),
            tried,
        ),
    ensures
        engine.loads(
            metadata@,
            place,
            compression,
            kernels,
            *old(reporter),
            *final(reporter),
            r,
        ),
        (tried matches Ok(None)) == asks_to_divide_by_zero(metadata@),
        tried matches Ok(None) ==> *final(other_reporter) == *old(other_reporter),
        tried matches Ok(Some(model)) ==> engine.loads(
            metadata@,
            place,
            compression,
            kernels,
            *old(other_reporter),
            *final(other_reporter),
            Ok(model),
        ),
        tried matches Err(e) ==> engine.loads(
            metadata@,
            place,
            compression,
            kernels,
            *old(other_reporter),
            *final(other_reporter),
            Err::<GGUFQWen<N, A, O, R, M, F>, ModelError>(e),
        ),
{
}

/// `Engine::load_layers` loads as many layers as it is asked for, from the first one on, and tells
/// the reporter of each that is loaded how many there are.
pub proof fn layers_are_loaded_from_the_first_on<
    G,
    S,
    H,
    NF,
    OF,
    YF,
    EF,
    AF,
    RF,
    N,
    O,
    E,
    A,
    R,
    PF,
>(
    engine: Engine<G, S, H, NF, OF, YF, EF, AF, RF>,
    cfg: Config<Real, Ratio>,
    count: usize,
    place: Placement,
    rotary: Arc<E>,
    eps: Single,
    reporter: &mut ProgressReporter<PF>,
    r: Result<Vec<LayerWeights<N, A, R>>, Error>,
) where
    G: Fn(Option<&str>, &str) -> Result<Arc<QTensor>, Error>,
    S: Fn(&str, &str, usize, usize, usize) -> Result<Arc<QTensor>, Error>,
    H: Fn(&str) -> bool,
    NF: Fn(Arc<QTensor>, Single) -> Result<N, Error>,
    OF: Fn(&str, usize, DType) -> Result<O, Error>,
    YF: Fn(Config<Real, Ratio>) -> Config<Real, Ratio>,
    EF: Fn(&Config<Real, Ratio>, &Device) -> Result<E, Error>,
    AF: Fn(
        &Config<Real, Ratio>,
        &str,
        &Device,
        DType,
        Arc<E>,
        Option<usize>,
        usize,
        usize,
    ) -> Result<A, Error>,
    RF: Fn() -> R,
    PF: Fn(usize),

    requires
        call_ensures(
            Engine::<G, S, H, NF, OF, YF, EF, AF, RF>::load_layers::<PF>,
            (&engine, &cfg, count, &place, rotary, eps, reporter),
            r,
        ),
    ensures
        final(reporter).listener() == old(reporter).listener(),
        match r {
            Ok(layers) => {
                &&& layers@.len() == count
                &&& final(reporter).told() == old(reporter).told() + Seq::new(
                    count as nat,
                    |i: int| (i + 1) as usize,
                )
                &&& forall|i: int|
                    0 <= i < layers@.len() ==> engine.layer_ends(
                        cfg,
                        i as nat,
                        place,
                        rotary,
                        eps,
                        Ok(#[trigger] layers@[i]),
                    )
            },
            Err(e) => {
                let loaded = final(reporter).told().len() - old(reporter).told().len();
                &&& 0 <= loaded < count
                &&& final(reporter).told() == old(reporter).told() + Seq::new(
                    loaded as nat,
                    |i: int| (i + 1) as usize,
                )
                &&& engine.layer_ends(
                    cfg,
                    loaded as nat,
                    place,
                    rotary,
                    eps,
                    Err::<LayerWeights<N, A, R>, Error>(e),
                )
            },
        },
{
    let told = choose|told: Seq<usize>| #[trigger]
        old(reporter).hears(told, *final(reporter)) && engine.layers_end(
            cfg,
            count,
            place,
            rotary,
            eps,
            told,
            r,
        );
    assert(told =~= Seq::new(told.len(), |i: int| (i + 1) as usize));
}

} // verus!
