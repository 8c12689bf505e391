//! Weights: quantized tensors as a GGUF file stores them, and the matrices that activations are
//! multiplied by.

use crate::tensor::{elem_count, tensor_end, tensor_value, TensorValue};
use candle_core::quantized::{GgmlDType, QMatMul, QTensor};
use candle_core::{Device, Error, Module, Tensor};
use std::sync::Arc;
use vstd::prelude::*;

verus! {

/// A quantized tensor, as a GGUF file stores it.
#[verifier::external_type_specification]
#[verifier::external_body]
pub struct ExQTensor(candle_core::quantized::QTensor);

/// A weight matrix that activations are multiplied by.
#[verifier::external_type_specification]
#[verifier::external_body]
pub struct ExQMatMul(candle_core::quantized::QMatMul);

/// The format of quantized blocks.
#[verifier::external_type_specification]
#[verifier::external_body]
pub struct ExGgmlDType(candle_core::quantized::GgmlDType);

/// What a quantized tensor or a weight matrix holds.
#[verifier::ext_equal]
pub struct WeightValue {
    /// The length of each dimension, the outermost first.
    pub dims: Seq<nat>,
    /// The format of its blocks, or none where its elements are spelled out.
    pub blocks: Option<GgmlDType>,
    /// The number of bytes that its blocks take.
    pub bytes: nat,
    /// Its storage, as integers.
    pub data: Seq<int>,
}

/// What a quantized tensor holds.
pub uninterp spec fn qtensor_value(q: QTensor) -> WeightValue;

/// What a weight matrix holds.
pub uninterp spec fn weight_value(w: QMatMul) -> WeightValue;

/// Candle's name for a format of blocks.
pub uninterp spec fn format_name(d: GgmlDType) -> Seq<char>;

/// The number of elements in a block.
pub uninterp spec fn block_len(d: GgmlDType) -> nat;

/// The number of bytes that a block takes.
pub uninterp spec fn block_bytes(d: GgmlDType) -> nat;

/// How multiplying the activations `x` by the weight `w`, transposed, may end.
pub uninterp spec fn matmul_may_end(
    w: WeightValue,
    x: TensorValue,
    r: Result<TensorValue, Error>,
) -> bool;

/// How making a weight of a quantized tensor may end.
pub uninterp spec fn weight_may_end(q: WeightValue, r: Result<WeightValue, Error>) -> bool;

/// How spelling out a quantized tensor on a device may end.
pub uninterp spec fn dequantize_may_end(
    q: WeightValue,
    device: Device,
    r: Result<TensorValue, Error>,
) -> bool;

/// Whether there are as many blocks as the dimensions say.
pub open spec fn is_filled(w: WeightValue) -> bool {
    w.blocks matches Some(d) ==> w.bytes * block_len(d) == elem_count(w.dims) * block_bytes(d)
}

/// Whether blocks of this format are multiplied in pairs.
pub open spec fn goes_in_pairs(d: GgmlDType) -> bool {
    ||| format_name(d) == "Q4_1"@
    ||| format_name(d) == "Q5_0"@
    ||| format_name(d) == "Q5_1"@
}

/// Whether a matrix of these dimensions, kept in blocks of the format `d`, is one that candle
/// multiplies by: it has rows and columns, and its rows are whole pairs of blocks where the format
/// asks for pairs.
pub open spec fn has_whole_rows(dims: Seq<nat>, d: GgmlDType) -> bool {
    &&& dims[0] > 0
    &&& dims[1] > 0
    &&& goes_in_pairs(d) ==> (dims[1] / block_len(d)) % 2 == 0
}

/// Whether activations can be multiplied by a weight. Nothing is asked of one that is spelled out.
pub open spec fn can_multiply(w: WeightValue) -> bool {
    w.blocks matches Some(d) ==> is_filled(w) && (w.dims.len() == 2 ==> has_whole_rows(w.dims, d))
}

/// What making a weight ended in.
pub open spec fn weight_end(r: Result<QMatMul, Error>) -> Result<WeightValue, Error> {
    match r {
        Ok(w) => Ok(weight_value(w)),
        Err(e) => Err(e),
    }
}

/// What `QMatMul::from_arc` ends in: a weight of the same shape, and the same weight where it stays
/// in blocks.
pub open spec fn weight_ends(q: QTensor, r: Result<QMatMul, Error>) -> bool {
    &&& weight_may_end(qtensor_value(q), weight_end(r))
    &&& r matches Ok(w) ==> {
        &&& weight_value(w).dims == qtensor_value(q).dims
        &&& weight_value(w).blocks is Some ==> weight_value(w) == qtensor_value(q)
    }
}

/// `QMatMul::from_arc` keeps the quantized tensor, or spells it out in the same shape. Which of the
/// two it does depends on the format and on the environment.
pub assume_specification[ QMatMul::from_arc ](qtensor: Arc<QTensor>) -> (r: Result<QMatMul, Error>)
    requires
        is_filled(qtensor_value(*qtensor)),
    ensures
        weight_may_end(qtensor_value(*qtensor), weight_end(r)),
        weight_ends(*qtensor, r),
;

/// What `QTensor::dequantize` ends in: floats in the same shape on the device that is named.
pub open spec fn dequantize_ends(q: QTensor, device: Device, r: Result<Tensor, Error>) -> bool {
    &&& dequantize_may_end(qtensor_value(q), device, tensor_end(r))
    &&& r matches Ok(y) ==> {
        &&& tensor_value(y).dims == qtensor_value(q).dims
        &&& tensor_value(y).dtype == "f32"@
        &&& tensor_value(y).device == device
    }
}

/// `QTensor::dequantize` spells the blocks out as 32-bit floats, in the same shape, on the device
/// that is asked for. Each format of blocks has its own arithmetic, and only the relation holds the
/// values.
pub assume_specification[ QTensor::dequantize ](q: &QTensor, device: &Device) -> (r: Result<
    Tensor,
    Error,
>)
    requires
        is_filled(qtensor_value(*q)),
    ensures
        dequantize_may_end(qtensor_value(*q), *device, tensor_end(r)),
        dequantize_ends(*q, *device, r),
;

/// `QTensor::dtype` tells the format of the blocks.
pub assume_specification[ QTensor::dtype ](q: &QTensor) -> (d: GgmlDType)
    ensures
        qtensor_value(*q).blocks == Some(d),
;

/// `QTensor::storage_size_in_bytes` counts the bytes that the blocks take.
pub assume_specification[ QTensor::storage_size_in_bytes ](q: &QTensor) -> (n: usize)
    ensures
        qtensor_value(*q).bytes == n,
;

/// `GgmlDType::block_size` tells how many elements there are in a block, at least one.
pub assume_specification[ GgmlDType::block_size ](d: &GgmlDType) -> (n: usize)
    ensures
        block_len(*d) == n,
        n > 0,
;

/// `GgmlDType::type_size` tells how many bytes a block takes, at least one.
pub assume_specification[ GgmlDType::type_size ](d: &GgmlDType) -> (n: usize)
    ensures
        block_bytes(*d) == n,
        n > 0,
;

/// The name of a format of blocks, as `Debug` of `GgmlDType` writes it: the variant's.
#[verifier::external_body]
fn format_name_string(d: GgmlDType) -> (name: String)
    ensures
        name@ == format_name(d),
{
    format!("{:?}", d)
}

/// `QTensor::shape`: the shape of a quantized tensor, which has at least one dimension.
#[verifier::external_body]
pub(crate) fn qtensor_dims(q: &QTensor) -> (dims: Vec<usize>)
    ensures
        dims@.len() > 0,
        dims@.map_values(|d: usize| d as nat) == qtensor_value(*q).dims,
{
    q.shape().dims().to_vec()
}

/// The quantized tensor that a `QMatMul` keeps, in the one of its forms that keeps one.
#[verifier::external_body]
fn quantized_form(w: &QMatMul) -> (r: Option<&QTensor>)
    ensures
        match r {
            Some(q) => weight_value(*w) == qtensor_value(*q),
            None => weight_value(*w).blocks is None,
        },
{
    match w {
        QMatMul::QTensor(q) => Some(q),
        QMatMul::Tensor(_) => None,
        QMatMul::TensorF16(_) => None,
    }
}

/// What `QMatMul::forward` ends in: activations in the same element type, with as many columns as
/// the weight matrix has rows.
pub open spec fn matmul_ends(w: QMatMul, x: Tensor, r: Result<Tensor, Error>) -> bool {
    let dims = weight_value(w).dims;
    &&& matmul_may_end(weight_value(w), tensor_value(x), tensor_end(r))
    &&& r matches Ok(y) ==> {
        &&& tensor_value(y).dtype == tensor_value(x).dtype
        &&& tensor_value(y).device == tensor_value(x).device
        &&& dims.len() == 2 ==> {
            &&& tensor_value(x).dims.len() >= 2
            &&& tensor_value(x).dims.last() == dims[1]
            &&& tensor_value(y).dims == tensor_value(x).dims.drop_last().push(dims[0])
        }
    }
}

/// `QMatMul::forward`: activations times the transposed weight, in the element type of the
/// activations. A weight matrix gives as many columns as it has rows. By one that is kept in blocks
/// candle multiplies only where it has rows and columns, and where its rows are whole pairs of
/// blocks in the formats that go in pairs. The order in which products are summed is the
/// machine's, so only the relation holds the values.
#[verifier::external_body]
pub(crate) fn matmul(w: &QMatMul, xs: &Tensor) -> (r: Result<Tensor, Error>)
    requires
        can_multiply(weight_value(*w)),
    ensures
        matmul_may_end(weight_value(*w), tensor_value(*xs), tensor_end(r)),
        matmul_ends(*w, *xs, r),
{
    w.forward(xs)
}

/// The prefixes of dimensions without a zero count no more elements than all of them.
proof fn prefixes_count_less(dims: Seq<nat>, i: nat)
    requires
        i <= dims.len(),
        forall|j: int| 0 <= j < dims.len() ==> #[trigger] dims[j] > 0,
    ensures
        0 < elem_count(dims.take(i as int)) <= elem_count(dims),
    decreases dims.len(),
{
    if dims.len() == 0 {
        assert(dims.take(i as int) =~= dims);
    } else if i == dims.len() {
        assert(dims.take(i as int) =~= dims);
        prefixes_count_less(dims.drop_last(), (i - 1) as nat);
        assert(dims.drop_last().take(i - 1) =~= dims.drop_last());
        assert(0 < dims.last() * elem_count(dims.drop_last())) by (nonlinear_arith)
            requires
                dims.last() > 0,
                elem_count(dims.drop_last()) > 0,
        ;
    } else {
        prefixes_count_less(dims.drop_last(), i);
        assert(dims.drop_last().take(i as int) =~= dims.take(i as int));
        assert(elem_count(dims.drop_last()) <= dims.last() * elem_count(dims.drop_last()))
            by (nonlinear_arith)
            requires
                dims.last() > 0,
                elem_count(dims.drop_last()) >= 0,
        ;
    }
}

/// Dimensions with a zero among them count no element.
proof fn a_zero_counts_nothing(dims: Seq<nat>, i: int)
    requires
        0 <= i < dims.len(),
        dims[i] == 0,
    ensures
        elem_count(dims) == 0,
    decreases dims.len(),
{
    if i < dims.len() - 1 {
        a_zero_counts_nothing(dims.drop_last(), i);
    }
    assert(dims.last() * elem_count(dims.drop_last()) == 0) by (nonlinear_arith)
        requires
            dims.last() == 0 || elem_count(dims.drop_last()) == 0,
    ;
}

/// The number of elements in a tensor of these dimensions, where it can be written in 128 bits.
fn count_elems(dims: &Vec<usize>) -> (count: Option<u128>)
    ensures
        match count {
            Some(n) => n == elem_count(dims@.map_values(|d: usize| d as nat)),
            None => elem_count(dims@.map_values(|d: usize| d as nat)) > u128::MAX,
        },
{
    let ghost all = dims@.map_values(|d: usize| d as nat);
    for i in 0..dims.len()
        invariant
            all == dims@.map_values(|d: usize| d as nat),
            forall|j: int| 0 <= j < i ==> #[trigger] all[j] > 0,
    {
        if dims[i] == 0 {
            proof {
                a_zero_counts_nothing(all, i as int);
            }
            return Some(0);
        }
    }
    let mut count: u128 = 1;
    for i in 0..dims.len()
        invariant
            all == dims@.map_values(|d: usize| d as nat),
            forall|j: int| 0 <= j < all.len() ==> #[trigger] all[j] > 0,
            count == elem_count(all.take(i as int)),
    {
        let ghost next = all.take(i + 1);
        proof {
            assert(next.drop_last() =~= all.take(i as int));
            assert(next.last() == dims@[i as int]);
            assert(elem_count(next) == dims@[i as int] * count);
            prefixes_count_less(all, (i + 1) as nat);
        }
        match (dims[i] as u128).checked_mul(count) {
            Some(n) => count = n,
            None => return None,
        }
    }
    assert(all.take(dims@.len() as int) =~= all);
    Some(count)
}

/// Tests whether a quantized tensor has as many blocks as its dimensions say.
pub fn check_blocks(q: &QTensor) -> (ok: bool)
    ensures
        ok == is_filled(qtensor_value(*q)),
{
    let d = q.dtype();
    let bytes = q.storage_size_in_bytes() as u128;
    let len = d.block_size() as u128;
    let size = d.type_size() as u128;
    assert(bytes * len <= usize::MAX * usize::MAX) by (nonlinear_arith)
        requires
            0 <= bytes <= usize::MAX,
            0 <= len <= usize::MAX,
    ;
    assert(usize::MAX * usize::MAX <= u128::MAX) by (nonlinear_arith)
        requires
            usize::MAX <= u64::MAX,
    ;
    let count = match count_elems(&qtensor_dims(q)) {
        Some(count) => count,
        None => {
            let ghost n = elem_count(qtensor_value(*q).dims);
            assert(n <= n * size) by (nonlinear_arith)
                requires
                    size > 0,
                    n >= 0,
            ;
            return false;
        },
    };
    match count.checked_mul(size) {
        Some(taken) => bytes * len == taken,
        None => false,
    }
}

/// Tests whether activations can be multiplied by a weight.
pub fn check_weight(w: &QMatMul) -> (ok: bool)
    ensures
        ok == can_multiply(weight_value(*w)),
{
    let q = match quantized_form(w) {
        None => return true,
        Some(q) => q,
    };
    let d = q.dtype();
    if !check_blocks(q) {
        return false;
    }
    let dims = qtensor_dims(q);
    assert(dims@.len() == weight_value(*w).dims.len());
    if dims.len() != 2 {
        return true;
    }
    assert(weight_value(*w).dims[0] == dims@[0]);
    assert(weight_value(*w).dims[1] == dims@[1]);
    if dims[0] == 0 || dims[1] == 0 {
        return false;
    }
    let len = d.block_size();
    let name = format_name_string(d);
    if name == "Q4_1".to_owned() || name == "Q5_0".to_owned() || name == "Q5_1".to_owned() {
        (dims[1] / len) % 2 == 0
    } else {
        true
    }
}

} // verus!
