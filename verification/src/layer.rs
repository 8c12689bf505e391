//! One layer of the decoder.

use crate::batch::InputMetadata;
use crate::mlp::{is_fused_kernel, Mlp};
use crate::tensor::{is_floating, sum_ends, tensor_sum, tensor_value};
use candle_core::quantized::QMatMul;
use candle_core::{Error, Tensor};
use vstd::prelude::*;

verus! {

/// Whether `f` takes every tensor.
pub open spec fn takes_tensors<N>(f: N) -> bool where N: Fn(&Tensor) -> Result<Tensor, Error> {
    forall|t: &Tensor| #[trigger] call_requires(f, (t,))
}

/// Whether `f` gives floats.
pub open spec fn gives_floats<N>(f: N) -> bool where N: Fn(&Tensor) -> Result<Tensor, Error> {
    forall|t: &Tensor, y: Tensor| #[trigger]
        call_ensures(f, (t,), Ok(y)) ==> is_floating(tensor_value(y).dtype)
}

/// Whether `f` takes every batch, and gives floats.
pub open spec fn is_attention<A, X>(f: A) -> bool where
    A: Fn(
        &Tensor,
        Option<&Vec<Tensor>>,
        &Tensor,
        Option<(&Tensor, &Tensor)>,
        &InputMetadata<X>,
    ) -> Result<Tensor, Error>,
 {
    &&& forall|
        t: &Tensor,
        mask: Option<&Vec<Tensor>>,
        positions: &Tensor,
        cache: Option<(&Tensor, &Tensor)>,
        metadata: &InputMetadata<X>,
    | #[trigger]
        call_requires(f, (t, mask, positions, cache, metadata))
    &&& forall|
        t: &Tensor,
        mask: Option<&Vec<Tensor>>,
        positions: &Tensor,
        cache: Option<(&Tensor, &Tensor)>,
        metadata: &InputMetadata<X>,
        y: Tensor,
    | #[trigger]
        call_ensures(f, (t, mask, positions, cache, metadata), Ok(y)) ==> is_floating(
            tensor_value(y).dtype,
        )
}

/// The weights of one layer: the attention `A` and the feed-forward block, each behind an RMS norm
/// `N`.
pub struct LayerWeights<N, A, R> {
    pub self_attn: A,
    pub attention_norm: N,
    pub mlp: Mlp<R>,
    pub ffn_norm: N,
}

impl<N, A, R> LayerWeights<N, A, R> where
    N: Fn(&Tensor) -> Result<Tensor, Error>,
    R: Fn(&Tensor) -> Result<Tensor, Error>,
 {
    /// Whether the layer's blocks take what they are handed, and give floats.
    pub open spec fn is_callable<X>(self) -> bool where
        A: Fn(
            &Tensor,
            Option<&Vec<Tensor>>,
            &Tensor,
            Option<(&Tensor, &Tensor)>,
            &InputMetadata<X>,
        ) -> Result<Tensor, Error>,
     {
        &&& is_attention::<A, X>(self.self_attn)
        &&& takes_tensors(self.attention_norm)
        &&& takes_tensors(self.ffn_norm)
        &&& gives_floats(self.ffn_norm)
        &&& self.mlp.is_callable()
    }

    /// Whether the attention ends in `r`.
    pub open spec fn attn_ends<X>(
        self,
        x: Tensor,
        mask: Option<&Vec<Tensor>>,
        input_positions: Tensor,
        cache: Option<(&Tensor, &Tensor)>,
        input_metadata: InputMetadata<X>,
        r: Result<Tensor, Error>,
    ) -> bool where
        A: Fn(
            &Tensor,
            Option<&Vec<Tensor>>,
            &Tensor,
            Option<(&Tensor, &Tensor)>,
            &InputMetadata<X>,
        ) -> Result<Tensor, Error>,
     {
        call_ensures(self.self_attn, (&x, mask, &input_positions, cache, &input_metadata), r)
    }

    /// Runs the attention.
    pub fn forward_attn<X>(
        &self,
        x: &Tensor,
        mask: Option<&Vec<Tensor>>,
        input_positions: &Tensor,
        cache: Option<(&Tensor, &Tensor)>,
        input_metadata: &InputMetadata<X>,
    ) -> (r: Result<Tensor, Error>) where
        A: Fn(
            &Tensor,
            Option<&Vec<Tensor>>,
            &Tensor,
            Option<(&Tensor, &Tensor)>,
            &InputMetadata<X>,
        ) -> Result<Tensor, Error>,

        requires
            is_attention::<A, X>(self.self_attn),
        ensures
            self.attn_ends(*x, mask, *input_positions, cache, *input_metadata, r),
            r matches Ok(y) ==> is_floating(tensor_value(y).dtype),
    {
        (self.self_attn)(x, mask, input_positions, cache, input_metadata)
    }

    /// Whether the first half of the layer ends in `r`: the attention over the normed activations,
    /// added to them.
    pub open spec fn attention_half_ends<X>(
        self,
        x: Tensor,
        mask: Option<&Vec<Tensor>>,
        input_positions: Tensor,
        cache: Option<(&Tensor, &Tensor)>,
        input_metadata: InputMetadata<X>,
        r: Result<Tensor, Error>,
    ) -> bool where
        A: Fn(
            &Tensor,
            Option<&Vec<Tensor>>,
            &Tensor,
            Option<(&Tensor, &Tensor)>,
            &InputMetadata<X>,
        ) -> Result<Tensor, Error>,
     {
        exists|n: Result<Tensor, Error>| #[trigger]
            call_ensures(self.attention_norm, (&x,), n) && match n {
                Err(e) => r == Err::<Tensor, Error>(e),
                Ok(n) => exists|a: Result<Tensor, Error>| #[trigger]
                    self.attn_ends(n, mask, input_positions, cache, input_metadata, a) && match a {
                        Err(e) => r == Err::<Tensor, Error>(e),
                        Ok(a) => sum_ends(a, x, r),
                    },
            }
    }

    /// Runs the first half of the layer.
    pub fn forward_attention_half<X>(
        &self,
        x: &Tensor,
        mask: Option<&Vec<Tensor>>,
        input_positions: &Tensor,
        cache: Option<(&Tensor, &Tensor)>,
        input_metadata: &InputMetadata<X>,
    ) -> (r: Result<Tensor, Error>) where
        A: Fn(
            &Tensor,
            Option<&Vec<Tensor>>,
            &Tensor,
            Option<(&Tensor, &Tensor)>,
            &InputMetadata<X>,
        ) -> Result<Tensor, Error>,

        requires
            self.is_callable::<X>(),
        ensures
            self.attention_half_ends(*x, mask, *input_positions, cache, *input_metadata, r),
    {
        let n = match (self.attention_norm)(x) {
            Ok(n) => n,
            Err(e) => return Err(e),
        };
        let attn = match self.forward_attn(&n, mask, input_positions, cache, input_metadata) {
            Ok(a) => a,
            Err(e) => return Err(e),
        };
        tensor_sum(attn, x)
    }

    /// Whether the second half of the layer ends in `r`: the feed-forward block over the normed
    /// activations, added to them.
    pub open spec fn mlp_half_ends<F>(
        self,
        fused: F,
        fused_glu: bool,
        x: Tensor,
        r: Result<Tensor, Error>,
    ) -> bool where F: Fn(&QMatMul, &QMatMul, &Tensor) -> Result<Option<Tensor>, Error> {
        exists|n: Result<Tensor, Error>| #[trigger]
            call_ensures(self.ffn_norm, (&x,), n) && match n {
                Err(e) => r == Err::<Tensor, Error>(e),
                Ok(n) => exists|d: Result<Tensor, Error>| #[trigger]
                    self.mlp.forward_ends(fused, fused_glu, n, d) && match d {
                        Err(e) => r == Err::<Tensor, Error>(e),
                        Ok(d) => sum_ends(d, x, r),
                    },
            }
    }

    /// Runs the second half of the layer.
    pub fn forward_mlp_half<F>(&self, x: &Tensor, fused: &F, fused_glu: bool) -> (r: Result<
        Tensor,
        Error,
    >) where F: Fn(&QMatMul, &QMatMul, &Tensor) -> Result<Option<Tensor>, Error>
        requires
            takes_tensors(self.ffn_norm),
            gives_floats(self.ffn_norm),
            self.mlp.is_callable(),
            self.mlp.weights_multiply(),
            is_fused_kernel(*fused),
        ensures
            self.mlp_half_ends(*fused, fused_glu, *x, r),
    {
        let n = match (self.ffn_norm)(x) {
            Ok(n) => n,
            Err(e) => return Err(e),
        };
        let d = match self.mlp.forward(&n, fused, fused_glu) {
            Ok(d) => d,
            Err(e) => return Err(e),
        };
        tensor_sum(d, x)
    }

    /// Whether the layer ends in `r`.
    pub open spec fn forward_ends<X, F>(
        self,
        fused: F,
        fused_glu: bool,
        x: Tensor,
        mask: Option<&Vec<Tensor>>,
        input_positions: Tensor,
        cache: Option<(&Tensor, &Tensor)>,
        input_metadata: InputMetadata<X>,
        r: Result<Tensor, Error>,
    ) -> bool where
        A: Fn(
            &Tensor,
            Option<&Vec<Tensor>>,
            &Tensor,
            Option<(&Tensor, &Tensor)>,
            &InputMetadata<X>,
        ) -> Result<Tensor, Error>,
        F: Fn(&QMatMul, &QMatMul, &Tensor) -> Result<Option<Tensor>, Error>,
     {
        exists|h: Result<Tensor, Error>| #[trigger]
            self.attention_half_ends(x, mask, input_positions, cache, input_metadata, h)
                && match h {
                Err(e) => r == Err::<Tensor, Error>(e),
                Ok(h) => self.mlp_half_ends(fused, fused_glu, h, r),
            }
    }

    /// Runs the layer: the attention, then the feed-forward block, each over the normed activations
    /// and added to them.
    pub fn forward<X, F>(
        &self,
        x: &Tensor,
        mask: Option<&Vec<Tensor>>,
        input_positions: &Tensor,
        cache: Option<(&Tensor, &Tensor)>,
        input_metadata: &InputMetadata<X>,
        fused: &F,
        fused_glu: bool,
    ) -> (r: Result<Tensor, Error>) where
        A: Fn(
            &Tensor,
            Option<&Vec<Tensor>>,
            &Tensor,
            Option<(&Tensor, &Tensor)>,
            &InputMetadata<X>,
        ) -> Result<Tensor, Error>,
        F: Fn(&QMatMul, &QMatMul, &Tensor) -> Result<Option<Tensor>, Error>,

        requires
            self.is_callable::<X>(),
            self.mlp.weights_multiply(),
            is_fused_kernel(*fused),
        ensures
            self.forward_ends(
                *fused,
                fused_glu,
                *x,
                mask,
                *input_positions,
                cache,
                *input_metadata,
                r,
            ),
    {
        let h = match self.forward_attention_half(x, mask, input_positions, cache, input_metadata) {
            Ok(h) => h,
            Err(e) => return Err(e),
        };
        self.forward_mlp_half(&h, fused, fused_glu)
    }
}

} // verus!
