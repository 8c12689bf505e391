//! What holds of the hyperparameters that metadata gives.

use crate::error::ModelError;
use crate::metadata::{
    is_f32_field, is_u32_field, to_string_may_fail, value_text, value_u32, Field,
};
use crate::params::{
    asks_to_divide_by_zero, fields_end, names_arch, reports, required_fault, true_vocab,
    CoreFields, CoreParams, RopeFields, RopeParams,
};
use candle_core::quantized::gguf_file::Value;
use vstd::prelude::*;

verus! {

/// A field that has to be there gives its value. Where it is missing, its key is reported, which is
/// the architecture's name, a dot and the parameter's name; where it is of another type, what
/// reading it failed with.
pub proof fn a_required_field_gives_its_value<T>(
    field: Field<T>,
    arch: Seq<char>,
    parameter: Seq<char>,
    r: Result<T, ModelError>,
)
    requires
        match required_fault(field, arch + "."@ + parameter) {
            Some(fault) => r matches Err(e) && reports(e, fault),
            None => r matches Ok(v) && field == Field::Found(v),
        },
    ensures
        match field {
            Field::Found(v) => r == Ok::<T, ModelError>(v),
            Field::Missing => r is Err && r->Err_0 is MissingKey && r->Err_0->MissingKey_0@ == arch
                + "."@ + parameter,
            Field::Invalid(e) => r == Err::<T, ModelError>(ModelError::Candle(e)),
        },
{
}

/// The shape of the decoder is what the fields say. A head is as long as they say, or else as long
/// as it can be with all heads together no longer than the embedding. The base of the rotary
/// frequencies is ten thousand where they say none. The first field that has to be there and is
/// not, or that is of another type, is reported, in the order in which the fields are looked at;
/// where there is none such, there is a shape.
pub proof fn a_shape_is_what_the_fields_say(core: CoreFields, r: Result<CoreParams, ModelError>)
    requires
        core.head_count is Found && core.head_count_kv is Found && core.embedding_length is Found
            && core.key_length is Missing ==> core.head_count->Found_0 != 0,
        match core.fault() {
            Some(fault) => r matches Err(e) && reports(e, fault),
            None => r matches Ok(p) && core.give(p),
        },
    ensures
        ({
            &&& core.head_count is Missing ==> r is Err && r->Err_0 is MissingKey
                && r->Err_0->MissingKey_0@ == core.arch@ + "."@ + "attention.head_count"@
            &&& core.head_count matches Field::Invalid(e) ==> r == Err::<CoreParams, ModelError>(
                ModelError::Candle(e),
            )
        }),
        core.head_count is Found ==> {
            &&& core.head_count_kv is Missing ==> r is Err && r->Err_0 is MissingKey
                && r->Err_0->MissingKey_0@ == core.arch@ + "."@ + "attention.head_count_kv"@
            &&& core.head_count_kv matches Field::Invalid(e) ==> r == Err::<CoreParams, ModelError>(
                ModelError::Candle(e),
            )
        },
        core.head_count is Found
            && core.head_count_kv is Found ==> {
            &&& core.embedding_length is Missing ==> r is Err && r->Err_0 is MissingKey
                && r->Err_0->MissingKey_0@ == core.arch@ + "."@ + "embedding_length"@
            &&& core.embedding_length matches Field::Invalid(e) ==> r == Err::<
                CoreParams,
                ModelError,
            >(ModelError::Candle(e))
        },
        core.head_count is Found
            && core.head_count_kv is Found
            && core.embedding_length is Found ==> {
            &&& core.key_length matches Field::Invalid(e) ==> r == Err::<CoreParams, ModelError>(
                ModelError::Candle(e),
            )
        },
        core.head_count is Found
            && core.head_count_kv is Found
            && core.embedding_length is Found
            && core.key_length !is Invalid ==> {
            &&& core.context_length is Missing ==> r is Err && r->Err_0 is MissingKey
                && r->Err_0->MissingKey_0@ == core.arch@ + "."@ + "context_length"@
            &&& core.context_length matches Field::Invalid(e) ==> r == Err::<
                CoreParams,
                ModelError,
            >(ModelError::Candle(e))
        },
        core.head_count is Found
            && core.head_count_kv is Found
            && core.embedding_length is Found
            && core.key_length !is Invalid
            && core.context_length is Found ==> {
            &&& core.block_count is Missing ==> r is Err && r->Err_0 is MissingKey
                && r->Err_0->MissingKey_0@ == core.arch@ + "."@ + "block_count"@
            &&& core.block_count matches Field::Invalid(e) ==> r == Err::<CoreParams, ModelError>(
                ModelError::Candle(e),
            )
        },
        core.head_count is Found
            && core.head_count_kv is Found
            && core.embedding_length is Found
            && core.key_length !is Invalid
            && core.context_length is Found
            && core.block_count is Found ==> {
            &&& core.layer_norm_rms_epsilon is Missing ==> r is Err && r->Err_0 is MissingKey
                && r->Err_0->MissingKey_0@ == core.arch@ + "."@
                + "attention.layer_norm_rms_epsilon"@
            &&& core.layer_norm_rms_epsilon matches Field::Invalid(e) ==> r == Err::<
                CoreParams,
                ModelError,
            >(ModelError::Candle(e))
        },
        core.head_count is Found
            && core.head_count_kv is Found
            && core.embedding_length is Found
            && core.key_length !is Invalid
            && core.context_length is Found
            && core.block_count is Found
            && core.layer_norm_rms_epsilon is Found ==> r is Ok,
        r matches Ok(p) ==> {
            &&& p.arch == core.arch
            &&& core.head_count is Found && p.head_count == core.head_count->Found_0
            &&& core.head_count_kv is Found && p.head_count_kv == core.head_count_kv->Found_0
            &&& core.embedding_length is Found && p.embedding_length
                == core.embedding_length->Found_0
            &&& core.context_length is Found && p.context_length == core.context_length->Found_0
            &&& core.block_count is Found && p.block_count == core.block_count->Found_0
            &&& core.layer_norm_rms_epsilon == Field::Found(p.rms_norm_eps)
            &&& core.key_length is Found ==> p.head_dim == core.key_length->Found_0
            &&& core.key_length !is Found ==> p.head_dim * p.head_count <= p.embedding_length
                && p.embedding_length < (p.head_dim + 1) * p.head_count
            &&& core.freq_base is Found ==> p.rope_freq_base == core.freq_base->Found_0
            &&& core.freq_base !is Found ==> p.rope_freq_base.bits == 0x461C4000
        },
{
    if r is Ok {
        let p = r->Ok_0;
        if core.key_length !is Found {
            let (a, b) = (p.embedding_length as int, p.head_count as int);
            assert(p.head_dim == a / b);
            assert((a / b) * b <= a < (a / b + 1) * b) by (nonlinear_arith)
                requires
                    b > 0,
            ;
        }
    }
}

/// What the rotary fields say of one another plays no part: the original context is known exactly
/// where its field is found, whatever the other says, and there is a factor exactly where another
/// number of dimensions than a head has is rotated, whatever the first says. A field of another
/// type is reported, the first one first.
pub proof fn the_rotary_reach_is_what_the_fields_say(
    rope: RopeFields,
    head_dim: usize,
    r: Result<RopeParams, ModelError>,
)
    requires
        match rope.fault() {
            Some(fault) => r matches Err(e) && reports(e, fault),
            None => r == Ok::<RopeParams, ModelError>(rope.give(head_dim)),
        },
    ensures
        rope.original_context_length matches Field::Invalid(e) ==> r == Err::<
            RopeParams,
            ModelError,
        >(ModelError::Candle(e)),
        rope.original_context_length !is Invalid ==> (rope.dimension_count matches Field::Invalid(e)
            ==> r == Err::<RopeParams, ModelError>(ModelError::Candle(e))),
        rope.original_context_length !is Invalid && rope.dimension_count !is Invalid ==> r is Ok,
        r matches Ok(p) ==> {
            &&& p.original_max_position_embeddings is Some == rope.original_context_length is Found
            &&& rope.original_context_length matches Field::Found(n)
                ==> p.original_max_position_embeddings->Some_0 == n
            &&& p.partial_rotary_factor is Some == (rope.dimension_count is Found
                && rope.dimension_count->Found_0 != head_dim)
            &&& p.partial_rotary_factor is Some ==> p.partial_rotary_factor->Some_0.num
                == rope.dimension_count->Found_0 && p.partial_rotary_factor->Some_0.den == head_dim
        },
{
}

/// The length of a head would be the quotient of a division by zero exactly where there are no
/// heads, no length of a head is given, and nothing fails before it is needed.
pub proof fn a_division_by_zero_needs_no_heads(core: CoreFields)
    ensures
        core.divides_by_zero() == {
            &&& core.head_count is Found
            &&& core.head_count->Found_0 == 0
            &&& core.head_count_kv is Found
            &&& core.embedding_length is Found
            &&& core.key_length is Missing
        },
{
}

/// Metadata asks for a division by zero exactly where it names an architecture, says that this has
/// no heads, says how many key heads it has and how long its embedding is, and does not say how
/// long a head is.
pub proof fn metadata_without_heads_asks_for_a_division_by_zero(md: Map<Seq<char>, Value>)
    ensures
        asks_to_divide_by_zero(md) == {
            &&& md.contains_key("general.architecture"@)
            &&& value_text(md["general.architecture"@]) is Some
            &&& {
                let arch = value_text(md["general.architecture"@])->Some_0;
                let heads = arch + "."@ + "attention.head_count"@;
                let keys = arch + "."@ + "attention.head_count_kv"@;
                let width = arch + "."@ + "embedding_length"@;
                let length = arch + "."@ + "attention.key_length"@;
                &&& md.contains_key(heads) && value_u32(md[heads]) == Some(0u32)
                &&& md.contains_key(keys) && value_u32(md[keys]) is Some
                &&& md.contains_key(width) && value_u32(md[width]) is Some
                &&& !md.contains_key(length)
            }
        },
{
    if md.contains_key("general.architecture"@) && value_text(md["general.architecture"@]) is Some {
        let arch = value_text(md["general.architecture"@])->Some_0;
        assert(names_arch(md, arch));
    }
}

/// The vocabulary of Qwen3 is known, whatever its table holds; that of every other architecture is
/// as large as its table has rows.
pub proof fn only_the_vocabulary_of_qwen3_is_known(arch: Seq<char>, rows: nat)
    ensures
        arch == "qwen3"@ ==> true_vocab(arch, rows) == 151936,
        arch != "qwen3"@ ==> true_vocab(arch, rows) == rows,
{
}

/// The fields that are read are what the metadata holds under the name of its architecture. Reading
/// fails only where no architecture is named: because there is no such entry, which is reported by
/// its key, or because it holds no text.
pub proof fn fields_stand_under_the_architecture(
    md: Map<Seq<char>, Value>,
    r: Result<(CoreFields, RopeFields), ModelError>,
)
    requires
        fields_end(md, r),
    ensures
        r is Ok == (md.contains_key("general.architecture"@) && value_text(
            md["general.architecture"@],
        ) is Some),
        r is Err && r->Err_0 is MissingKey ==> r->Err_0->MissingKey_0@ == "general.architecture"@
            && !md.contains_key("general.architecture"@),
        r is Err && r->Err_0 is Candle ==> md.contains_key("general.architecture"@)
            && to_string_may_fail(md["general.architecture"@], r->Err_0->Candle_0),
        r is Ok ==> {
            let (core, rope) = r->Ok_0;
            let stem = core.arch@ + "."@;
            &&& value_text(md["general.architecture"@]) == Some(core.arch@)
            &&& is_u32_field(md, stem + "attention.head_count"@, core.head_count)
            &&& is_u32_field(md, stem + "attention.head_count_kv"@, core.head_count_kv)
            &&& is_u32_field(md, stem + "attention.key_length"@, core.key_length)
            &&& is_u32_field(md, stem + "embedding_length"@, core.embedding_length)
            &&& is_u32_field(md, stem + "context_length"@, core.context_length)
            &&& is_u32_field(md, stem + "block_count"@, core.block_count)
            &&& is_f32_field(
                md,
                stem + "attention.layer_norm_rms_epsilon"@,
                core.layer_norm_rms_epsilon,
            )
            &&& is_f32_field(md, stem + "rope.freq_base"@, core.freq_base)
            &&& is_u32_field(
                md,
                stem + "rope.scaling.original_context_length"@,
                rope.original_context_length,
            )
            &&& is_u32_field(md, stem + "rope.dimension_count"@, rope.dimension_count)
        },
{
}

} // verus!
