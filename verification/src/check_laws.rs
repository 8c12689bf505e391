//! What holds of the tests that are made before a step, and of the settings that it is run with.

use crate::batch::InputMetadata;
use crate::mlp::{leaves_fused_glu_on, Mlp};
use crate::model::GGUFQWen;
use crate::tensor::{elem_count, tensor_value};
use crate::weight::{
    block_bytes, block_len, can_multiply, format_name, is_filled, weight_value, WeightValue,
};
use candle_core::quantized::QMatMul;
use candle_core::{DType, Device, Error, Tensor};
use vstd::prelude::*;

verus! {

/// The fused kernel is off only where the setting is the one character `0`.
pub proof fn only_a_single_zero_turns_the_fused_kernel_off(setting: Option<Seq<char>>)
    ensures
        leaves_fused_glu_on(setting) == !(setting is Some && setting->Some_0.len() == 1
            && setting->Some_0[0] == '0'),
{
    reveal_strlit("0");
    if setting is Some && setting->Some_0.len() == 1 && setting->Some_0[0] == '0' {
        assert(setting->Some_0 =~= "0"@);
    }
}

/// A tensor without dimensions has one element, and one more dimension multiplies the number of
/// elements by its length.
pub proof fn elements_are_counted_by_dimension(dims: Seq<nat>, len: nat)
    ensures
        elem_count(Seq::<nat>::empty()) == 1,
        elem_count(dims.push(len)) == len * elem_count(dims),
{
    assert(dims.push(len).drop_last() =~= dims);
}

/// A quantized tensor is filled exactly where its bytes hold as many whole blocks as its elements
/// fill. Nothing is asked of a weight that is spelled out.
pub proof fn a_filled_tensor_has_all_its_blocks(w: WeightValue)
    ensures
        w.blocks is None ==> is_filled(w),
        w.blocks matches Some(d) ==> is_filled(w) == (w.bytes * block_len(d) == elem_count(w.dims)
            * block_bytes(d)),
{
}

/// Activations can be multiplied by every weight that is spelled out. By a matrix that is kept in
/// blocks they can be exactly where it is filled, has rows and columns, and, in the three formats
/// whose blocks are multiplied in pairs, has an even number of blocks to a row; by a tensor in
/// blocks that is no matrix, exactly where it is filled.
pub proof fn a_weight_multiplies_where_its_rows_are_whole(w: WeightValue)
    ensures
        w.blocks is None ==> can_multiply(w),
        w.blocks matches Some(d) ==> {
            let paired = format_name(d) == "Q4_1"@ || format_name(d) == "Q5_0"@ || format_name(d)
                == "Q5_1"@;
            &&& w.dims.len() != 2 ==> can_multiply(w) == (w.bytes * block_len(d) == elem_count(
                w.dims,
            ) * block_bytes(d))
            &&& w.dims.len() == 2 ==> can_multiply(w) == {
                &&& w.bytes * block_len(d) == elem_count(w.dims) * block_bytes(d)
                &&& w.dims[0] > 0
                &&& w.dims[1] > 0
                &&& paired ==> (w.dims[1] / block_len(d)) % 2 == 0
            }
        },
{
}

/// A feed-forward block can be run exactly where activations can be multiplied by each of its three
/// weights.
pub proof fn a_block_needs_all_of_its_weights<R>(mlp: Mlp<R>)
    ensures
        mlp.weights_multiply() == {
            &&& can_multiply(weight_value(mlp.feed_forward_w1))
            &&& can_multiply(weight_value(mlp.feed_forward_w2))
            &&& can_multiply(weight_value(mlp.feed_forward_w3))
        },
{
}

/// Bounds fit exactly where there are none, where they are no vector of 32-bit integers, which
/// fails on its own, or where there is at least the first and, if the last token of each sequence
/// is asked for, all behind it are positive.
pub proof fn bounds_fit_where_every_sequence_has_a_token<X>(
    input_metadata: InputMetadata<X>,
    picks_last: bool,
)
    ensures
        input_metadata.cu_seqlens_q is None ==> input_metadata.fits(picks_last),
        input_metadata.cu_seqlens_q matches Some(t) ==> {
            let v = tensor_value(t);
            input_metadata.fits(picks_last) == (v.dims.len() == 1 && v.dtype == "u32"@ ==> {
                &&& v.dims[0] > 0
                &&& picks_last ==> forall|i: int|
                    1 <= i < v.elems.len() ==> #[trigger] v.elems[i] > 0
            })
        },
{
    if input_metadata.cu_seqlens_q is Some {
        let v = tensor_value(input_metadata.cu_seqlens_q->Some_0);
        assert(seq![0nat][0] == 0);
        if v.dims.len() == 1 && v.dims[0] == 0 {
            assert(v.dims =~= seq![0nat]);
        }
    }
}

/// A step is allowed exactly where the three weights of the feed-forward block of every layer that
/// it runs can be multiplied by, and the bounds fit. With caches, it runs no more layers than there
/// are caches.
pub proof fn a_step_is_allowed_where_its_layers_can_be_run<N, A, O, R, M, F, X>(
    model: GGUFQWen<N, A, O, R, M, F>,
    kv_caches: Option<&Vec<(Tensor, Tensor)>>,
    input_metadata: InputMetadata<X>,
    picks_last: bool,
) where
    N: Fn(&Tensor) -> Result<Tensor, Error>,
    R: Fn(&Tensor) -> Result<Tensor, Error>,
    O: Fn(&Tensor) -> Result<Tensor, Error>,
    M: Fn(&Device, DType, &Tensor, &Vec<u32>, Option<usize>, bool) -> Option<Vec<Tensor>>,
    F: Fn(&QMatMul, &QMatMul, &Tensor) -> Result<Option<Tensor>, Error>,

    ensures
        model.allows(kv_caches, input_metadata, picks_last) == {
            &&& forall|i: int|
                #![trigger model.layers@[i]]
                0 <= i < model.layers@.len() && (kv_caches is Some ==> i
                    < kv_caches->Some_0@.len()) ==> {
                    &&& can_multiply(weight_value(model.layers@[i].mlp.feed_forward_w1))
                    &&& can_multiply(weight_value(model.layers@[i].mlp.feed_forward_w2))
                    &&& can_multiply(weight_value(model.layers@[i].mlp.feed_forward_w3))
                }
            &&& input_metadata.fits(picks_last)
        },
        model.weights_multiply(kv_caches) == forall|i: int|
            #![trigger model.layers@[i]]
            0 <= i < model.layers@.len() && (kv_caches is Some ==> i < kv_caches->Some_0@.len())
                ==> {
                &&& can_multiply(weight_value(model.layers@[i].mlp.feed_forward_w1))
                &&& can_multiply(weight_value(model.layers@[i].mlp.feed_forward_w2))
                &&& can_multiply(weight_value(model.layers@[i].mlp.feed_forward_w3))
            },
{
    if model.weights_multiply(kv_caches) {
        assert forall|i: int|
            #![trigger model.layers@[i]]
            0 <= i < model.layers@.len() && (kv_caches is Some ==> i
                < kv_caches->Some_0@.len()) implies {
            &&& can_multiply(weight_value(model.layers@[i].mlp.feed_forward_w1))
            &&& can_multiply(weight_value(model.layers@[i].mlp.feed_forward_w2))
            &&& can_multiply(weight_value(model.layers@[i].mlp.feed_forward_w3))
        } by {
            assert(model.layers@[i].mlp.weights_multiply());
        }
    }
}

} // verus!
