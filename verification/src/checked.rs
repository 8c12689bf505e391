//! The model's steps, run only where the weights and the batch allow it.

use crate::batch::InputMetadata;
use crate::error::ModelError;
use crate::model::GGUFQWen;
use crate::tensor::is_row_major;
use candle_core::quantized::QMatMul;
use candle_core::{DType, Device, Error, Tensor};
use vstd::prelude::*;

verus! {

impl<N, A, O, R, M, F> GGUFQWen<N, A, O, R, M, F> where
    N: Fn(&Tensor) -> Result<Tensor, Error>,
    O: Fn(&Tensor) -> Result<Tensor, Error>,
    R: Fn(&Tensor) -> Result<Tensor, Error>,
    M: Fn(&Device, DType, &Tensor, &Vec<u32>, Option<usize>, bool) -> Option<Vec<Tensor>>,
    F: Fn(&QMatMul, &QMatMul, &Tensor) -> Result<Option<Tensor>, Error>,
 {
    /// Whether the weights that are multiplied by allow it and the bounds of the sequences fit.
    pub open spec fn allows<X>(
        self,
        kv_caches: Option<&Vec<(Tensor, Tensor)>>,
        input_metadata: InputMetadata<X>,
        picks_last: bool,
    ) -> bool {
        self.weights_multiply(kv_caches) && input_metadata.fits(picks_last)
    }

    /// The logits that `forward` gives. It first tests whether the weights
    /// and the bounds of the sequences allow it, and gives nothing where they do not.
    pub fn try_forward<X>(
        &self,
        x: &Tensor,
        input_positions: &Tensor,
        kv_caches: Option<&Vec<(Tensor, Tensor)>>,
        input_metadata: &InputMetadata<X>,
    ) -> (r: Result<Option<Tensor>, ModelError>) where
        A: Fn(
            &Tensor,
            Option<&Vec<Tensor>>,
            &Tensor,
            Option<(&Tensor, &Tensor)>,
            &InputMetadata<X>,
        ) -> Result<Tensor, Error>,

        requires
            self.is_callable::<X>(),
        ensures
            match r {
                Ok(None) => !self.allows(kv_caches, *input_metadata, true),
                Ok(Some(y)) => self.allows(kv_caches, *input_metadata, true) && self.inner_ends(
                    *x,
                    *input_positions,
                    kv_caches,
                    *input_metadata,
                    false,
                    Ok(y),
                ),
                Err(ModelError::Candle(e)) => self.weights_multiply(kv_caches) && self.inner_ends(
                    *x,
                    *input_positions,
                    kv_caches,
                    *input_metadata,
                    false,
                    Err(e),
                ),
                Err(ModelError::MissingKey(_)) => false,
            },
    {
        if !self.check_weights(kv_caches) {
            return Ok(None);
        }
        match input_metadata.check_bounds(true) {
            Ok(true) => {},
            Ok(false) => return Ok(None),
            Err(e) => {
                assert(input_metadata.sequence_ends_end(Err(e)));
                assert(self.inner_ends(
                    *x,
                    *input_positions,
                    kv_caches,
                    *input_metadata,
                    false,
                    Err(e),
                ));
                return Err(ModelError::Candle(e));
            },
        }
        match self.forward(x, input_positions, kv_caches, input_metadata) {
            Ok(y) => Ok(Some(y)),
            Err(e) => Err(e),
        }
    }

    /// The activations that `forward_embedding` gives. It first tests whether the weights
    /// and the bounds of the sequences allow it, and gives nothing where they do not.
    pub fn try_forward_embedding<X>(
        &self,
        x: &Tensor,
        input_positions: &Tensor,
        kv_caches: Option<&Vec<(Tensor, Tensor)>>,
        input_metadata: &InputMetadata<X>,
    ) -> (r: Result<Option<Tensor>, ModelError>) where
        A: Fn(
            &Tensor,
            Option<&Vec<Tensor>>,
            &Tensor,
            Option<(&Tensor, &Tensor)>,
            &InputMetadata<X>,
        ) -> Result<Tensor, Error>,

        requires
            self.is_callable::<X>(),
        ensures
            match r {
                Ok(None) => !self.allows(kv_caches, *input_metadata, false),
                Ok(Some(y)) => self.allows(kv_caches, *input_metadata, false) && self.inner_ends(
                    *x,
                    *input_positions,
                    kv_caches,
                    *input_metadata,
                    true,
                    Ok(y),
                ),
                Err(ModelError::Candle(e)) => self.weights_multiply(kv_caches) && self.inner_ends(
                    *x,
                    *input_positions,
                    kv_caches,
                    *input_metadata,
                    true,
                    Err(e),
                ),
                Err(ModelError::MissingKey(_)) => false,
            },
    {
        if !self.check_weights(kv_caches) {
            return Ok(None);
        }
        match input_metadata.check_bounds(false) {
            Ok(true) => {},
            Ok(false) => return Ok(None),
            Err(e) => {
                assert(input_metadata.sequence_ends_end(Err(e)));
                assert(self.inner_ends(
                    *x,
                    *input_positions,
                    kv_caches,
                    *input_metadata,
                    true,
                    Err(e),
                ));
                return Err(ModelError::Candle(e));
            },
        }
        match self.forward_embedding(x, input_positions, kv_caches, input_metadata) {
            Ok(y) => Ok(Some(y)),
            Err(e) => Err(e),
        }
    }

    /// The logits and activations that `forward_from_embeddings` gives. It first tests whether the
    /// weights and the bounds of the sequences allow it, and gives nothing where they do not.
    pub fn try_forward_from_embeddings<X>(
        &self,
        embeddings: &Tensor,
        input_positions: &Tensor,
        kv_caches: Option<&Vec<(Tensor, Tensor)>>,
        input_metadata: &InputMetadata<X>,
    ) -> (r: Result<Option<(Tensor, Tensor)>, ModelError>) where
        A: Fn(
            &Tensor,
            Option<&Vec<Tensor>>,
            &Tensor,
            Option<(&Tensor, &Tensor)>,
            &InputMetadata<X>,
        ) -> Result<Tensor, Error>,

        requires
            self.is_callable::<X>(),
        ensures
            match r {
                Ok(None) => !self.allows(kv_caches, *input_metadata, false),
                Ok(Some(y)) => self.allows(kv_caches, *input_metadata, false)
                    && self.from_embeddings_ends(
                    *embeddings,
                    *input_positions,
                    kv_caches,
                    *input_metadata,
                    Ok(y),
                ),
                Err(ModelError::Candle(e)) => self.weights_multiply(kv_caches)
                    && self.from_embeddings_ends(
                    *embeddings,
                    *input_positions,
                    kv_caches,
                    *input_metadata,
                    Err(e),
                ),
                Err(ModelError::MissingKey(_)) => false,
            },
            r matches Ok(Some((logits, _))) ==> is_row_major(logits),
    {
        if !self.check_weights(kv_caches) {
            return Ok(None);
        }
        match input_metadata.check_bounds(false) {
            Ok(true) => {},
            Ok(false) => return Ok(None),
            Err(e) => {
                assert(input_metadata.sequence_ends_end(Err(e)));
                assert(self.stack_ends(
                    *embeddings,
                    *input_positions,
                    kv_caches,
                    *input_metadata,
                    Err(e),
                ));
                return Err(ModelError::Candle(e));
            },
        }
        match self.forward_from_embeddings(embeddings, input_positions, kv_caches, input_metadata) {
            Ok(y) => Ok(Some(y)),
            Err(e) => Err(e),
        }
    }
}

} // verus!
