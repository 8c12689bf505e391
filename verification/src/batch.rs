//! What a step of the model is told about the sequences that it runs.

use crate::tensor::{
    is_u32_vector, read_ends, read_u32s, select_ends, select_rows, tensor_value, u32_tensor,
    u32_tensor_ends, u32_vector,
};
use candle_core::{Error, Tensor};
use vstd::prelude::*;

verus! {

/// What a step of the model is told about its batch. `X` is what the engine tells its attention
/// besides.
pub struct InputMetadata<X> {
    /// Where each sequence of a prefill begins among the packed tokens, then where the last ends.
    pub cu_seqlens_q: Option<Tensor>,
    pub is_prefill: bool,
    pub engine: X,
}

impl<X> InputMetadata<X> {
    /// Whether the bounds of the sequences, where they are given, hold at least the first.
    pub open spec fn has_first_bound(self) -> bool {
        self.cu_seqlens_q matches Some(t) ==> is_u32_vector(tensor_value(t)) ==> tensor_value(
            t,
        ).dims != seq![0nat]
    }

    /// Whether no sequence, where bounds are given, ends before its first token.
    pub open spec fn ends_after_tokens(self) -> bool {
        self.cu_seqlens_q matches Some(t) ==> is_u32_vector(tensor_value(t)) ==> forall|i: int|
            1 <= i < tensor_value(t).elems.len() ==> #[trigger] tensor_value(t).elems[i] > 0
    }

    /// Whether reading where the sequences end gives `r`: nothing without bounds, and all but the
    /// first bound otherwise.
    pub open spec fn sequence_ends_end(self, r: Result<Vec<u32>, Error>) -> bool {
        match self.cu_seqlens_q {
            None => r matches Ok(v) && v@ == Seq::<u32>::empty(),
            Some(t) => exists|all: Result<Vec<u32>, Error>| #[trigger]
                read_ends(t, all) && match all {
                    Err(e) => r == Err::<Vec<u32>, Error>(e),
                    Ok(all) => r matches Ok(v) && v@ == all@.skip(1),
                },
        }
    }

    /// Reads where the sequences end among the packed tokens.
    pub fn sequence_ends(&self) -> (r: Result<Vec<u32>, Error>)
        requires
            self.has_first_bound(),
        ensures
            self.sequence_ends_end(r),
            r matches Ok(ends) ==> self.ends_after_tokens() ==> forall|i: int|
                0 <= i < ends@.len() ==> #[trigger] ends@[i] > 0,
    {
        match &self.cu_seqlens_q {
            None => Ok(Vec::new()),
            Some(t) => {
                let mut all = match read_u32s(t) {
                    Ok(all) => all,
                    Err(e) => return Err(e),
                };
                proof {
                    if all@.len() == 0 {
                        assert(tensor_value(*t).dims =~= seq![0nat]);
                    }
                }
                let ghost bounds = all@;
                let _first = all.remove(0);
                assert(all@ =~= bounds.skip(1));
                proof {
                    if self.ends_after_tokens() {
                        assert forall|i: int| 0 <= i < all@.len() implies #[trigger] all@[i]
                            > 0 by {
                            assert(tensor_value(*t).elems[i + 1] == bounds[i + 1]);
                        }
                    }
                }
                Ok(all)
            },
        }
    }
}

impl<X> InputMetadata<X> {
    /// Whether the bounds of the sequences can be read off, and, if `picks_last` asks for the last
    /// token of each sequence, whether there is one.
    pub open spec fn fits(self, picks_last: bool) -> bool {
        self.has_first_bound() && (picks_last ==> self.ends_after_tokens())
    }

    /// Tests whether the bounds of the sequences fit.
    pub fn check_bounds(&self, picks_last: bool) -> (r: Result<bool, Error>)
        ensures
            match r {
                Ok(ok) => ok == self.fits(picks_last),
                Err(e) => self.cu_seqlens_q matches Some(t) && read_ends(t, Err(e)),
            },
    {
        let t = match &self.cu_seqlens_q {
            None => return Ok(true),
            Some(t) => t,
        };
        let all = match read_u32s(t) {
            Ok(all) => all,
            Err(e) => return Err(e),
        };
        assert(tensor_value(*t).dims[0] == all@.len());
        assert(seq![0nat][0] == 0);
        if all.len() == 0 {
            assert(tensor_value(*t).dims =~= seq![0nat]);
            return Ok(false);
        }
        if picks_last {
            let mut i: usize = 1;
            while i < all.len()
                invariant
                    1 <= i <= all@.len(),
                    self.cu_seqlens_q == Some(*t),
                    tensor_value(*t) == u32_vector(all@, tensor_value(*t).device),
                    forall|j: int| 1 <= j < i ==> #[trigger] tensor_value(*t).elems[j] > 0,
                    picks_last,
                decreases all@.len() - i,
            {
                if all[i] == 0 {
                    assert(tensor_value(*t).elems[i as int] == 0);
                    return Ok(false);
                }
                i = i + 1;
            }
        }
        Ok(true)
    }
}

/// The last token of each sequence that ends at one of `ends`.
pub open spec fn last_tokens(ends: Seq<u32>) -> Seq<u32> {
    ends.map_values(|end: u32| (end - 1) as u32)
}

/// The last token of each sequence that ends at one of `ends`.
pub fn last_token_positions(ends: &Vec<u32>) -> (positions: Vec<u32>)
    requires
        forall|i: int| 0 <= i < ends@.len() ==> #[trigger] ends@[i] > 0,
    ensures
        positions@ == last_tokens(ends@),
{
    let mut positions: Vec<u32> = Vec::new();
    for i in 0..ends.len()
        invariant
            forall|i: int| 0 <= i < ends@.len() ==> #[trigger] ends@[i] > 0,
            positions@.len() == i,
            forall|j: int| 0 <= j < i ==> #[trigger] positions@[j] == (ends@[j] - 1) as u32,
    {
        positions.push(ends[i] - 1);
    }
    assert(positions@ =~= last_tokens(ends@));
    positions
}

/// Whether taking the row of each sequence's last token ends in `r`.
pub open spec fn last_rows_end(x: Tensor, ends: Seq<u32>, r: Result<Tensor, Error>) -> bool {
    exists|ids: Result<Tensor, Error>| #[trigger]
        u32_tensor_ends(last_tokens(ends), tensor_value(x).device, ids) && match ids {
            Err(e) => r == Err::<Tensor, Error>(e),
            Ok(ids) => select_ends(x, ids, r),
        }
}

/// Takes the row of each sequence's last token.
pub fn select_last_rows(x: &Tensor, ends: &Vec<u32>) -> (r: Result<Tensor, Error>)
    requires
        forall|i: int| 0 <= i < ends@.len() ==> #[trigger] ends@[i] > 0,
    ensures
        last_rows_end(*x, ends@, r),
{
    let ids = match u32_tensor(last_token_positions(ends), x.device()) {
        Ok(ids) => ids,
        Err(e) => return Err(e),
    };
    select_rows(x, &ids)
}

} // verus!
