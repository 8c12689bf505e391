//! From the padded vocabulary projection to logits.

use crate::tensor::{
    cast_ends, contiguous_ends, dtype_name, f32_dtype, is_row_major, narrow_ends, narrow_last,
};
use candle_core::{DType, Error, Tensor};
use vstd::prelude::*;

verus! {

/// Whether cutting the projection `p` to the first `vocab` columns, as 32-bit floats, ends in `r`:
/// converted first, then cut.
pub open spec fn cut_logits_end(p: Tensor, vocab: nat, r: Result<Tensor, Error>) -> bool {
    exists|d: DType, c: Result<Tensor, Error>| #[trigger]
        cast_ends(p, d, c) && dtype_name(d) == "f32"@ && match c {
            Err(e) => r == Err::<Tensor, Error>(e),
            Ok(c) => narrow_ends(c, vocab, r),
        }
}

/// Cuts the projection to the first `vocab` columns, as 32-bit floats.
pub fn cut_logits(p: &Tensor, vocab: usize) -> (r: Result<Tensor, Error>)
    ensures
        cut_logits_end(*p, vocab as nat, r),
{
    let c = match p.to_dtype(f32_dtype()) {
        Ok(c) => c,
        Err(e) => return Err(e),
    };
    narrow_last(&c, vocab)
}

/// Whether cutting the projection `p` to the first `vocab` columns, as 32-bit floats in one piece,
/// ends in `r`: cut first, then copied into row-major layout, then converted.
pub open spec fn flat_logits_end(p: Tensor, vocab: nat, r: Result<Tensor, Error>) -> bool {
    exists|n: Result<Tensor, Error>| #[trigger]
        narrow_ends(p, vocab, n) && match n {
            Err(e) => r == Err::<Tensor, Error>(e),
            Ok(n) => exists|c: Result<Tensor, Error>| #[trigger]
                contiguous_ends(n, c) && match c {
                    Err(e) => r == Err::<Tensor, Error>(e),
                    Ok(c) => exists|d: DType| #[trigger]
                        cast_ends(c, d, r) && dtype_name(d) == "f32"@,
                },
        }
}

/// Cuts the projection to the first `vocab` columns, as 32-bit floats in one piece. It is cut
/// before it is converted, and made contiguous on its device: a later copy of it is then one copy
/// of memory and none of rows.
pub fn flat_logits(p: &Tensor, vocab: usize) -> (r: Result<Tensor, Error>)
    ensures
        flat_logits_end(*p, vocab as nat, r),
        r matches Ok(y) ==> is_row_major(y),
{
    let n = match narrow_last(p, vocab) {
        Ok(n) => n,
        Err(e) => return Err(e),
    };
    let c = match n.contiguous() {
        Ok(c) => c,
        Err(e) => return Err(e),
    };
    c.to_dtype(f32_dtype())
}

} // verus!
