//! Candle's tensors as the model sees them: the values that they hold, and the calls made on them.
//!
//! Every item of this file that is marked external is believed, not proved. What a call ends in is
//! described by a relation (`.._may_end`): the kernels that candle picks, and with them the
//! rounding, depend on the machine, and so does what fails. A relation holds the ends that a call
//! may have; beside it stands what is certain of them.
//!
//! What is claimed is what candle's CPU backend does, the one that it is built with here. Tensors
//! are taken to be valid, as candle asks of whoever puts one together from its storage: the storage
//! holds as many elements as the shape counts.
//!
//! A tensor's value is what it held when it was made. Candle can also write into a tensor in
//! place; nothing here does, and a block of the engine that is lent an activation must not.

use candle_core::quantized::gguf_file::Value;
use candle_core::{DType, Device, Error, Module, Tensor, D};
use candle_nn::Embedding;
use vstd::prelude::*;

verus! {

/// A candle tensor.
#[verifier::external_type_specification]
#[verifier::external_body]
pub struct ExTensor(candle_core::Tensor);

/// What a candle call fails with.
#[verifier::external_type_specification]
#[verifier::external_body]
pub struct ExError(candle_core::Error);

/// The type of a tensor's elements.
#[verifier::external_type_specification]
#[verifier::external_body]
pub struct ExDType(candle_core::DType);

/// Where a tensor lives.
#[verifier::external_type_specification]
#[verifier::external_body]
pub struct ExDevice(candle_core::Device);

/// A table of embeddings, one row per token.
#[verifier::external_type_specification]
#[verifier::external_body]
pub struct ExEmbedding(candle_nn::Embedding);

/// A metadata value of a GGUF file.
#[verifier::external_type_specification]
#[verifier::external_body]
pub struct ExValue(candle_core::quantized::gguf_file::Value);

/// What a tensor holds.
#[verifier::ext_equal]
pub struct TensorValue {
    /// The length of each dimension, the outermost first.
    pub dims: Seq<nat>,
    /// The element type, by candle's name for it.
    pub dtype: Seq<char>,
    /// The elements in row-major order: an integer as itself, a float by its bit pattern, where
    /// all that are not a number count as one pattern.
    pub elems: Seq<int>,
    /// Where they are stored.
    pub device: Device,
}

/// What a tensor holds.
pub uninterp spec fn tensor_value(t: Tensor) -> TensorValue;

/// Whether a tensor's elements lie in one piece, in row-major order.
pub uninterp spec fn is_row_major(t: Tensor) -> bool;

/// The rows that an embedding table holds.
pub uninterp spec fn embedding_table(e: Embedding) -> TensorValue;

/// The length that an embedding table claims for its rows.
pub uninterp spec fn embedding_width(e: Embedding) -> nat;

/// Candle's name for an element type.
pub uninterp spec fn dtype_name(d: DType) -> Seq<char>;

/// The number of elements in a tensor of these dimensions.
pub open spec fn elem_count(dims: Seq<nat>) -> nat
    decreases dims.len(),
{
    if dims.len() == 0 {
        1
    } else {
        dims.last() * elem_count(dims.drop_last())
    }
}

/// The number of elements under one index of the outermost dimension.
pub open spec fn row_len(dims: Seq<nat>) -> nat {
    elem_count(dims.drop_first())
}

/// Whether there are as many elements as the dimensions say.
pub open spec fn is_whole(v: TensorValue) -> bool {
    v.elems.len() == elem_count(v.dims)
}

/// Whether the elements are floats that candle computes with.
pub open spec fn is_floating(dtype: Seq<char>) -> bool {
    ||| dtype == "bf16"@
    ||| dtype == "f16"@
    ||| dtype == "f32"@
    ||| dtype == "f64"@
    ||| dtype == "f8e4m3"@
}

/// Whether the elements are of a type that candle can store on the CPU.
pub open spec fn is_stored(dtype: Seq<char>) -> bool {
    ||| is_floating(dtype)
    ||| dtype == "u8"@
    ||| dtype == "u32"@
    ||| dtype == "i16"@
    ||| dtype == "i32"@
    ||| dtype == "i64"@
}

/// Whether every element is zero.
pub open spec fn is_zero(v: TensorValue) -> bool {
    forall|i: int| 0 <= i < v.elems.len() ==> #[trigger] v.elems[i] == 0
}

/// Whether this is a vector of 32-bit unsigned integers.
pub open spec fn is_u32_vector(v: TensorValue) -> bool {
    v.dims.len() == 1 && v.dtype == "u32"@
}

/// A vector of 32-bit unsigned integers.
pub open spec fn u32_vector(ids: Seq<u32>, device: Device) -> TensorValue {
    TensorValue {
        dims: seq![ids.len()],
        dtype: "u32"@,
        elems: ids.map_values(|id: u32| id as int),
        device,
    }
}

/// The rows of length `len` that `ids` picks out of `elems`, one after the other.
pub open spec fn gathered(elems: Seq<int>, len: nat, ids: Seq<int>) -> Seq<int> {
    Seq::new(ids.len() * len, |k: int| elems[ids[k / len as int] * len + k % len as int])
}

/// The tensor made of the rows of `v` that `ids` names, in that order.
pub open spec fn selected(v: TensorValue, ids: Seq<int>) -> TensorValue {
    TensorValue {
        dims: v.dims.update(0, ids.len()),
        elems: gathered(v.elems, row_len(v.dims), ids),
        ..v
    }
}

/// `v` with only the first `len` indices of its innermost dimension.
pub open spec fn narrowed(v: TensorValue, len: nat) -> TensorValue {
    TensorValue {
        dims: v.dims.drop_last().push(len),
        elems: Seq::new(
            elem_count(v.dims.drop_last()) * len,
            |k: int| v.elems[(k / len as int) * v.dims.last() + k % len as int],
        ),
        ..v
    }
}

/// Every element of `v` as a 32-bit float.
pub open spec fn as_f32(v: TensorValue) -> TensorValue {
    TensorValue {
        dtype: "f32"@,
        elems: v.elems.map_values(|e: int| f32_elem(v.dtype, e)),
        ..v
    }
}

/// What a call that makes a tensor ended in.
pub open spec fn tensor_end(r: Result<Tensor, Error>) -> Result<TensorValue, Error> {
    match r {
        Ok(t) => Ok(tensor_value(t)),
        Err(e) => Err(e),
    }
}

/// What reading a vector ended in.
pub open spec fn read_end(r: Result<Vec<u32>, Error>) -> Result<Seq<u32>, Error> {
    match r {
        Ok(v) => Ok(v@),
        Err(e) => Err(e),
    }
}

/// The bit pattern of the 32-bit float nearest to an element, all that are not a number being one.
pub uninterp spec fn f32_elem(dtype: Seq<char>, e: int) -> int;

/// The sum of two 32- or 64-bit floats, by bit pattern, all that are not a number being one.
pub uninterp spec fn sum_elem(dtype: Seq<char>, a: int, b: int) -> int;

/// The product of two 32- or 64-bit floats, by bit pattern, all that are not a number being one.
pub uninterp spec fn product_elem(dtype: Seq<char>, a: int, b: int) -> int;

/// How converting `x` to the element type `dtype` may end.
pub uninterp spec fn cast_may_end(
    x: TensorValue,
    dtype: Seq<char>,
    r: Result<TensorValue, Error>,
) -> bool;

/// How copying `x` into row-major layout may end.
pub uninterp spec fn contiguous_may_end(x: TensorValue, r: Result<TensorValue, Error>) -> bool;

/// How the element-wise sum of `a` and `b` may end.
pub uninterp spec fn sum_may_end(
    a: TensorValue,
    b: TensorValue,
    r: Result<TensorValue, Error>,
) -> bool;

/// How the element-wise product of `a` and `b` may end.
pub uninterp spec fn product_may_end(
    a: TensorValue,
    b: TensorValue,
    r: Result<TensorValue, Error>,
) -> bool;

/// How the SiLU activation of `x` may end.
pub uninterp spec fn silu_may_end(x: TensorValue, r: Result<TensorValue, Error>) -> bool;

/// How looking tokens up in a table of rows of a claimed length may end.
pub uninterp spec fn embed_may_end(
    table: TensorValue,
    width: nat,
    tokens: TensorValue,
    r: Result<TensorValue, Error>,
) -> bool;

/// How reading a vector of 32-bit unsigned integers may end.
pub uninterp spec fn read_may_end(x: TensorValue, r: Result<Seq<u32>, Error>) -> bool;

/// How making a vector of 32-bit unsigned integers on a device may end.
pub uninterp spec fn u32_tensor_may_end(
    ids: Seq<u32>,
    device: Device,
    r: Result<TensorValue, Error>,
) -> bool;

/// How taking the rows of `x` that `ids` names may end.
pub uninterp spec fn select_may_end(
    x: TensorValue,
    ids: TensorValue,
    r: Result<TensorValue, Error>,
) -> bool;

/// How keeping the first `len` indices of the innermost dimension may end.
pub uninterp spec fn narrow_may_end(
    x: TensorValue,
    len: nat,
    r: Result<TensorValue, Error>,
) -> bool;

/// `Tensor::clone` hands out another handle on the same tensor.
pub assume_specification[ <Tensor as Clone>::clone ](t: &Tensor) -> (r: Tensor)
    ensures
        r == *t,
;

/// `Device::clone` gives the same device.
pub assume_specification[ <Device as Clone>::clone ](d: &Device) -> (r: Device)
    ensures
        r == *d,
;

/// `Tensor::device` says where the tensor is stored.
pub assume_specification[ Tensor::device ](t: &Tensor) -> (d: &Device)
    ensures
        *d == tensor_value(*t).device,
;

/// What `Tensor::contiguous` ends in: a tensor in row-major layout that holds the same.
pub open spec fn contiguous_ends(x: Tensor, r: Result<Tensor, Error>) -> bool {
    &&& contiguous_may_end(tensor_value(x), tensor_end(r))
    &&& is_stored(tensor_value(x).dtype) ==> r is Ok
    &&& r matches Ok(y) ==> tensor_value(y) == tensor_value(x) && is_row_major(y)
}

/// `Tensor::contiguous` gives a tensor in row-major layout that holds the same. It succeeds for
/// every element type that candle can store.
pub assume_specification[ Tensor::contiguous ](t: &Tensor) -> (r: Result<Tensor, Error>)
    ensures
        contiguous_may_end(tensor_value(*t), tensor_end(r)),
        r matches Ok(y) ==> is_row_major(y),
        contiguous_ends(*t, r),
;

/// What `Tensor::to_dtype` ends in: a tensor of the same shape in the type that was asked for.
pub open spec fn cast_ends(x: Tensor, dtype: DType, r: Result<Tensor, Error>) -> bool {
    let name = dtype_name(dtype);
    &&& cast_may_end(tensor_value(x), name, tensor_end(r))
    &&& tensor_value(x).dtype == name ==> r is Ok && tensor_value(r->Ok_0) == tensor_value(x)
    &&& name == "f32"@ ==> r is Ok == is_stored(tensor_value(x).dtype)
    &&& r matches Ok(y) ==> {
        &&& is_row_major(x) ==> is_row_major(y)
        &&& is_whole(tensor_value(y))
        &&& tensor_value(y).dims == tensor_value(x).dims
        &&& tensor_value(y).dtype == name
        &&& tensor_value(y).device == tensor_value(x).device
        &&& name == "f32"@ ==> tensor_value(y) == as_f32(tensor_value(x))
    }
}

/// `Tensor::to_dtype` converts each element. To the type that the tensor has already it gives the
/// same tensor; to 32-bit floats it converts exactly the element types that candle can store,
/// rounding each element to the nearest. What lies in row-major order stays so. Which other
/// conversions fail, and how they round, is left open.
pub assume_specification[ Tensor::to_dtype ](t: &Tensor, dtype: DType) -> (r: Result<Tensor, Error>)
    ensures
        cast_may_end(tensor_value(*t), dtype_name(dtype), tensor_end(r)),
        r matches Ok(y) ==> is_row_major(*t) ==> is_row_major(y),
        r matches Ok(y) ==> dtype_name(dtype) == "f32"@ ==> tensor_value(y).elems == tensor_value(
            *t,
        ).elems.map_values(|e: int| f32_elem(tensor_value(*t).dtype, e)),
        cast_ends(*t, dtype, r),
;

/// What `candle_nn::ops::silu` ends in: a tensor of the same shape and element type, and zeros
/// where that is no float.
pub open spec fn silu_ends(x: Tensor, r: Result<Tensor, Error>) -> bool {
    &&& silu_may_end(tensor_value(x), tensor_end(r))
    &&& r matches Ok(y) ==> {
        &&& tensor_value(y).dims == tensor_value(x).dims
        &&& tensor_value(y).dtype == tensor_value(x).dtype
        &&& tensor_value(y).device == tensor_value(x).device
        &&& is_floating(tensor_value(y).dtype) || is_zero(tensor_value(y))
    }
}

/// `candle_nn::ops::silu` keeps the shape and the element type. Of integers it makes zeros. The
/// values of floats rest on an exponential that is computed as the machine does it, so only the
/// relation holds them.
pub assume_specification[ candle_nn::ops::silu ](xs: &Tensor) -> (r: Result<Tensor, Error>)
    ensures
        silu_may_end(tensor_value(*xs), tensor_end(r)),
        silu_ends(*xs, r),
;

/// `Embedding::new` keeps the table and the row length that it is given.
pub assume_specification[ Embedding::new ](embeddings: Tensor, hidden_size: usize) -> (e: Embedding)
    ensures
        embedding_table(e) == tensor_value(embeddings),
        embedding_width(e) == hidden_size,
;

/// The element type of 32-bit floats: candle's `DType::F32`.
#[verifier::external_body]
pub(crate) fn f32_dtype() -> (d: DType)
    ensures
        dtype_name(d) == "f32"@,
{
    DType::F32
}

/// Whether `y` is the element-wise sum of `a` and `b`: of their shape, in the element type of the
/// first. The elements are claimed of 32- and 64-bit floats; narrower ones are rounded as the
/// machine and the layout have it.
pub open spec fn is_sum(a: TensorValue, b: TensorValue, y: TensorValue) -> bool {
    &&& y.dims == a.dims
    &&& y.dtype == a.dtype
    &&& y.device == a.device
    &&& a.dtype == "f32"@ || a.dtype == "f64"@ ==> y.elems == Seq::new(
        a.elems.len(),
        |i: int| sum_elem(a.dtype, a.elems[i], b.elems[i]),
    )
}

/// What adding two tensors ends in: their element-wise sum, where they have one shape.
pub open spec fn sum_ends(a: Tensor, b: Tensor, r: Result<Tensor, Error>) -> bool {
    &&& sum_may_end(tensor_value(a), tensor_value(b), tensor_end(r))
    &&& tensor_value(a).dims != tensor_value(b).dims ==> r is Err
    &&& r matches Ok(y) ==> is_sum(tensor_value(a), tensor_value(b), tensor_value(y))
}

/// `Tensor + &Tensor`: the element-wise sum of two tensors of one shape. It fails where the shapes
/// differ; the element type is that of the first. Integers could overflow, so it is asked of
/// floats only.
#[verifier::external_body]
pub(crate) fn tensor_sum(a: Tensor, b: &Tensor) -> (r: Result<Tensor, Error>)
    requires
        is_floating(tensor_value(a).dtype),
    ensures
        sum_may_end(tensor_value(a), tensor_value(*b), tensor_end(r)),
        r matches Ok(y) ==> (tensor_value(a).dtype == "f32"@ || tensor_value(a).dtype == "f64"@)
            ==> tensor_value(y).elems == Seq::new(
            tensor_value(a).elems.len(),
            |i: int|
                sum_elem(
                    tensor_value(a).dtype,
                    tensor_value(a).elems[i],
                    tensor_value(*b).elems[i],
                ),
        ),
        sum_ends(a, *b, r),
{
    a + b
}

/// Whether `y` is the element-wise product of `a` and `b`: of their shape, in the element type of
/// the first. The elements are claimed of 32- and 64-bit floats; narrower ones are rounded as the
/// machine and the layout have it.
pub open spec fn is_product(a: TensorValue, b: TensorValue, y: TensorValue) -> bool {
    &&& y.dims == a.dims
    &&& y.dtype == a.dtype
    &&& y.device == a.device
    &&& a.dtype == "f32"@ || a.dtype == "f64"@ ==> y.elems == Seq::new(
        a.elems.len(),
        |i: int| product_elem(a.dtype, a.elems[i], b.elems[i]),
    )
}

/// What multiplying two tensors ends in: their element-wise product, where they have one shape.
pub open spec fn product_ends(a: Tensor, b: Tensor, r: Result<Tensor, Error>) -> bool {
    &&& product_may_end(tensor_value(a), tensor_value(b), tensor_end(r))
    &&& tensor_value(a).dims != tensor_value(b).dims ==> r is Err
    &&& r matches Ok(y) ==> is_product(tensor_value(a), tensor_value(b), tensor_value(y))
}

/// `Tensor * Tensor`: the element-wise product of two tensors of one shape. It fails where the
/// shapes differ; the element type is that of the first. Integers could overflow, so it is asked
/// of floats only, and of zeros times anything.
#[verifier::external_body]
pub(crate) fn tensor_product(a: Tensor, b: Tensor) -> (r: Result<Tensor, Error>)
    requires
        is_floating(tensor_value(a).dtype) || is_zero(tensor_value(a)),
    ensures
        product_may_end(tensor_value(a), tensor_value(b), tensor_end(r)),
        r matches Ok(y) ==> (tensor_value(a).dtype == "f32"@ || tensor_value(a).dtype == "f64"@)
            ==> tensor_value(y).elems == Seq::new(
            tensor_value(a).elems.len(),
            |i: int|
                product_elem(
                    tensor_value(a).dtype,
                    tensor_value(a).elems[i],
                    tensor_value(b).elems[i],
                ),
        ),
        product_ends(a, b, r),
{
    a * b
}

/// What `Embedding::forward` ends in: the table row of each token.
pub open spec fn embed_ends(e: Embedding, tokens: Tensor, r: Result<Tensor, Error>) -> bool {
    let (table, ids) = (embedding_table(e), tensor_value(tokens));
    &&& embed_may_end(table, embedding_width(e), ids, tensor_end(r))
    &&& r matches Ok(y) ==> {
        &&& tensor_value(y).dims == ids.dims.push(embedding_width(e))
        &&& tensor_value(y).dtype == table.dtype
        &&& tensor_value(y).device == table.device
        &&& ids.dtype == "u32"@ && !ids.elems.contains(u32::MAX as int) ==> {
            &&& table.dims.len() > 0
            &&& forall|i: int|
                0 <= i < ids.elems.len() ==> 0 <= #[trigger] ids.elems[i] < table.dims[0]
            &&& tensor_value(y).elems == gathered(table.elems, row_len(table.dims), ids.elems)
        }
    }
}

/// `Embedding::forward`: the table row of each token, in the shape of the tokens with the row
/// length added. Tokens in 32-bit integers have to be rows of the table; the largest of all is
/// candle's mark for a row of zeros, and of tensors with that mark only the shape is claimed.
#[verifier::external_body]
pub(crate) fn embed(e: &Embedding, tokens: &Tensor) -> (r: Result<Tensor, Error>)
    ensures
        embed_may_end(
            embedding_table(*e),
            embedding_width(*e),
            tensor_value(*tokens),
            tensor_end(r),
        ),
        embed_ends(*e, *tokens, r),
{
    e.forward(tokens)
}

/// What `Tensor::to_vec1::<u32>` ends in: the elements of a vector of 32-bit unsigned integers.
pub open spec fn read_ends(t: Tensor, r: Result<Vec<u32>, Error>) -> bool {
    &&& read_may_end(tensor_value(t), read_end(r))
    &&& is_u32_vector(tensor_value(t)) ==> r is Ok
    &&& r matches Ok(v) ==> tensor_value(t) == u32_vector(v@, tensor_value(t).device)
}

/// `Tensor::to_vec1::<u32>`: the elements of a vector of 32-bit unsigned integers. It succeeds for
/// every such vector and fails for every other tensor.
#[verifier::external_body]
pub(crate) fn read_u32s(t: &Tensor) -> (r: Result<Vec<u32>, Error>)
    ensures
        read_may_end(tensor_value(*t), read_end(r)),
        read_ends(*t, r),
{
    t.to_vec1::<u32>()
}

/// What `Tensor::from_vec` ends in for a vector of 32-bit unsigned integers: a tensor of them.
pub open spec fn u32_tensor_ends(ids: Seq<u32>, device: Device, r: Result<Tensor, Error>) -> bool {
    &&& u32_tensor_may_end(ids, device, tensor_end(r))
    &&& (exists|t: Tensor| (#[trigger] tensor_value(t)).device == device) ==> r is Ok
    &&& r matches Ok(t) ==> tensor_value(t) == u32_vector(ids, device)
}

/// `Tensor::from_vec` with the length of the vector as the shape: a tensor of these integers. Where
/// any tensor is stored it succeeds.
#[verifier::external_body]
pub(crate) fn u32_tensor(ids: Vec<u32>, device: &Device) -> (r: Result<Tensor, Error>)
    ensures
        u32_tensor_may_end(ids@, *device, tensor_end(r)),
        u32_tensor_ends(ids@, *device, r),
{
    let len = ids.len();
    Tensor::from_vec(ids, (len,), device)
}

/// What `Tensor::index_select` along the outermost dimension ends in: the rows that are named.
pub open spec fn select_ends(t: Tensor, ids: Tensor, r: Result<Tensor, Error>) -> bool {
    let (x, ids) = (tensor_value(t), tensor_value(ids));
    &&& select_may_end(x, ids, tensor_end(r))
    &&& is_row_major(t) && is_stored(x.dtype) && x.dims.len() > 0 && is_u32_vector(ids) && (forall|
        i: int,
    | 0 <= i < ids.elems.len() ==> 0 <= #[trigger] ids.elems[i] < x.dims[0]) ==> r is Ok
    &&& r matches Ok(y) ==> {
        ids.dtype == "u32"@ && !ids.elems.contains(u32::MAX as int) ==> {
            &&& x.dims.len() > 0
            &&& forall|i: int|
                0 <= i < ids.elems.len() ==> 0 <= #[trigger] ids.elems[i] < x.dims[0]
            &&& tensor_value(y) == selected(x, ids.elems)
        }
    }
}

/// `Tensor::index_select` along the outermost dimension: the rows that the indices name. Indices
/// in 32-bit integers have to be rows of the tensor; the largest of all is candle's mark for a row
/// of zeros, and nothing is claimed of the rows where it stands among them. Of a tensor in
/// row-major order, in a type that candle can store, all its rows can be taken.
#[verifier::external_body]
pub(crate) fn select_rows(t: &Tensor, ids: &Tensor) -> (r: Result<Tensor, Error>)
    ensures
        select_may_end(tensor_value(*t), tensor_value(*ids), tensor_end(r)),
        select_ends(*t, *ids, r),
{
    t.index_select(ids, 0)
}

/// What `Tensor::narrow` along the innermost dimension, from its start, ends in.
pub open spec fn narrow_ends(t: Tensor, len: nat, r: Result<Tensor, Error>) -> bool {
    let x = tensor_value(t);
    &&& narrow_may_end(x, len, tensor_end(r))
    &&& r is Ok == (x.dims.len() > 0 && x.dims.last() >= len)
    &&& r matches Ok(y) ==> tensor_value(y) == narrowed(x, len)
}

/// `Tensor::narrow` along the innermost dimension, from its start: it succeeds exactly where there
/// is such a dimension and it is that long.
#[verifier::external_body]
pub(crate) fn narrow_last(t: &Tensor, len: usize) -> (r: Result<Tensor, Error>)
    ensures
        narrow_may_end(tensor_value(*t), len as nat, tensor_end(r)),
        narrow_ends(*t, len as nat, r),
{
    t.narrow(D::Minus1, 0, len)
}

} // verus!
