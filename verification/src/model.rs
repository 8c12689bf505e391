//! The decoder: its layers, and the way from tokens or embeddings to logits.

use crate::batch::{last_rows_end, select_last_rows, InputMetadata};
use crate::config::{Config, Ratio, Real};
use crate::error::{lift, lifted, ModelError};
use crate::layer::{takes_tensors, LayerWeights};
use crate::logits::{cut_logits, cut_logits_end, flat_logits, flat_logits_end};
use crate::mlp::is_fused_kernel;
use crate::tensor::{embed, embed_ends, is_row_major};
use candle_core::quantized::QMatMul;
use candle_core::{DType, Device, Error, Tensor};
use candle_nn::Embedding;
use vstd::prelude::*;

verus! {

/// A Qwen model. `N` is its RMS norm, `A` its attention, `O` its vocabulary projection, `R` the sum
/// over ranks, `M` the causal mask and `F` the fused gate kernel.
pub struct GGUFQWen<N, A, O, R, M, F> {
    pub tok_embeddings: Embedding,
    pub layers: Vec<LayerWeights<N, A, R>>,
    pub norm: N,
    pub output: O,
    pub cfg: Config<Real, Ratio>,
    pub dtype: DType,
    pub device: Device,
    /// The size of the vocabulary. The rows of the embedding table and of the projection are
    /// padded to whole quantization blocks, and what the padding projects to is arbitrary, so
    /// logits are cut to this size.
    pub true_vocab_size: usize,
    pub mask: M,
    pub fused: F,
    /// Whether the fused gate kernel is tried.
    pub fused_glu: bool,
}

/// The cache of the layer `i`.
pub open spec fn cache_at(
    kv_caches: Option<&Vec<(Tensor, Tensor)>>,
    i: int,
) -> Option<(&Tensor, &Tensor)> {
    match kv_caches {
        Some(caches) => Some((&caches@[i].0, &caches@[i].1)),
        None => None,
    }
}

/// The mask, lent.
pub open spec fn lent(mask: &Option<Vec<Tensor>>) -> Option<&Vec<Tensor>> {
    match mask {
        Some(m) => Some(m),
        None => None,
    }
}

impl<N, A, O, R, M, F> GGUFQWen<N, A, O, R, M, F> where
    N: Fn(&Tensor) -> Result<Tensor, Error>,
    O: Fn(&Tensor) -> Result<Tensor, Error>,
    R: Fn(&Tensor) -> Result<Tensor, Error>,
    M: Fn(&Device, DType, &Tensor, &Vec<u32>, Option<usize>, bool) -> Option<Vec<Tensor>>,
    F: Fn(&QMatMul, &QMatMul, &Tensor) -> Result<Option<Tensor>, Error>,
 {
    /// Whether the model's blocks take what they are handed, and those in its layers give floats.
    pub open spec fn is_callable<X>(self) -> bool where
        A: Fn(
            &Tensor,
            Option<&Vec<Tensor>>,
            &Tensor,
            Option<(&Tensor, &Tensor)>,
            &InputMetadata<X>,
        ) -> Result<Tensor, Error>,
     {
        &&& forall|i: int|
            0 <= i < self.layers@.len() ==> #[trigger] self.layers@[i].is_callable::<X>()
        &&& takes_tensors(self.norm)
        &&& takes_tensors(self.output)
        &&& forall|
            device: &Device,
            dtype: DType,
            positions: &Tensor,
            ends: &Vec<u32>,
            window: Option<usize>,
            is_prefill: bool,
        | #[trigger]
            call_requires(self.mask, (device, dtype, positions, ends, window, is_prefill))
        &&& is_fused_kernel(self.fused)
    }

    /// How many layers are run: all of them, or, with caches, as many as there are caches for.
    pub open spec fn depth(self, kv_caches: Option<&Vec<(Tensor, Tensor)>>) -> nat {
        match kv_caches {
            Some(caches) if caches@.len() < self.layers@.len() => caches@.len(),
            _ => self.layers@.len(),
        }
    }

    /// How many layers are run.
    fn count_layers(&self, kv_caches: Option<&Vec<(Tensor, Tensor)>>) -> (depth: usize)
        ensures
            depth == self.depth(kv_caches),
            depth <= self.layers@.len(),
            kv_caches matches Some(caches) ==> depth <= caches@.len(),
    {
        match kv_caches {
            Some(caches) => if caches.len() < self.layers.len() {
                caches.len()
            } else {
                self.layers.len()
            },
            None => self.layers.len(),
        }
    }

    /// Whether activations can be multiplied by every weight in the feed-forward blocks of the
    /// layers that are run.
    pub open spec fn weights_multiply(self, kv_caches: Option<&Vec<(Tensor, Tensor)>>) -> bool {
        forall|i: int|
            0 <= i < self.depth(kv_caches) ==> #[trigger] self.layers@[i].mlp.weights_multiply()
    }

    /// Tests whether activations can be multiplied by every weight in the feed-forward blocks of
    /// the layers that are run.
    pub fn check_weights(&self, kv_caches: Option<&Vec<(Tensor, Tensor)>>) -> (ok: bool)
        ensures
            ok == self.weights_multiply(kv_caches),
    {
        let depth = self.count_layers(kv_caches);
        for i in 0..depth
            invariant
                depth == self.depth(kv_caches),
                depth <= self.layers@.len(),
                forall|j: int| 0 <= j < i ==> #[trigger] self.layers@[j].mlp.weights_multiply(),
        {
            if !self.layers[i].mlp.check_weights() {
                assert(!self.layers@[i as int].mlp.weights_multiply());
                return false;
            }
        }
        true
    }

    /// Whether running the layers from `i` on, over `x`, ends in `r`.
    pub open spec fn layers_end<X>(
        self,
        i: nat,
        x: Tensor,
        mask: Option<Vec<Tensor>>,
        input_positions: Tensor,
        kv_caches: Option<&Vec<(Tensor, Tensor)>>,
        input_metadata: InputMetadata<X>,
        r: Result<Tensor, Error>,
    ) -> bool where
        A: Fn(
            &Tensor,
            Option<&Vec<Tensor>>,
            &Tensor,
            Option<(&Tensor, &Tensor)>,
            &InputMetadata<X>,
        ) -> Result<Tensor, Error>,

        decreases self.depth(kv_caches) - i,
    {
        if i >= self.depth(kv_caches) {
            r == Ok::<Tensor, Error>(x)
        } else {
            exists|y: Result<Tensor, Error>| #[trigger]
                self.layers@[i as int].forward_ends(
                    self.fused,
                    self.fused_glu,
                    x,
                    lent(&mask),
                    input_positions,
                    cache_at(kv_caches, i as int),
                    input_metadata,
                    y,
                ) && match y {
                    Err(e) => r == Err::<Tensor, Error>(e),
                    Ok(y) => self.layers_end(
                        i + 1,
                        y,
                        mask,
                        input_positions,
                        kv_caches,
                        input_metadata,
                        r,
                    ),
                }
        }
    }

    /// Whether the mask for sequences that end at `ends` is `mask`.
    pub open spec fn mask_gives<X>(
        self,
        input_positions: Tensor,
        ends: Vec<u32>,
        input_metadata: InputMetadata<X>,
        mask: Option<Vec<Tensor>>,
    ) -> bool {
        call_ensures(
            self.mask,
            (
                &self.device,
                self.dtype,
                &input_positions,
                &ends,
                self.cfg.sliding_window,
                input_metadata.is_prefill,
            ),
            mask,
        )
    }

    /// Whether running all layers over `x` ends in `r`.
    pub open spec fn stack_ends<X>(
        self,
        x: Tensor,
        input_positions: Tensor,
        kv_caches: Option<&Vec<(Tensor, Tensor)>>,
        input_metadata: InputMetadata<X>,
        r: Result<Tensor, Error>,
    ) -> bool where
        A: Fn(
            &Tensor,
            Option<&Vec<Tensor>>,
            &Tensor,
            Option<(&Tensor, &Tensor)>,
            &InputMetadata<X>,
        ) -> Result<Tensor, Error>,
     {
        exists|ends: Result<Vec<u32>, Error>| #[trigger]
            input_metadata.sequence_ends_end(ends) && match ends {
                Err(e) => r == Err::<Tensor, Error>(e),
                Ok(ends) => exists|mask: Option<Vec<Tensor>>| #[trigger]
                    self.mask_gives(input_positions, ends, input_metadata, mask)
                        && self.layers_end(
                        0,
                        x,
                        mask,
                        input_positions,
                        kv_caches,
                        input_metadata,
                        r,
                    ),
            }
    }

    /// Runs the layers over activations that are embedded already, without the final norm. With
    /// caches, each layer is given its own, and layers without one are left out.
    pub fn forward_layers<X>(
        &self,
        xs: Tensor,
        input_positions: &Tensor,
        kv_caches: Option<&Vec<(Tensor, Tensor)>>,
        input_metadata: &InputMetadata<X>,
    ) -> (r: Result<Tensor, Error>) where
        A: Fn(
            &Tensor,
            Option<&Vec<Tensor>>,
            &Tensor,
            Option<(&Tensor, &Tensor)>,
            &InputMetadata<X>,
        ) -> Result<Tensor, Error>,

        requires
            self.is_callable::<X>(),
            self.weights_multiply(kv_caches),
            input_metadata.has_first_bound(),
        ensures
            self.stack_ends(xs, *input_positions, kv_caches, *input_metadata, r),
    {
        let ends = match input_metadata.sequence_ends() {
            Ok(ends) => ends,
            Err(e) => return Err(e),
        };
        let mask = (self.mask)(
            &self.device,
            self.dtype,
            input_positions,
            &ends,
            self.cfg.sliding_window,
            input_metadata.is_prefill,
        );
        assert(self.mask_gives(*input_positions, ends, *input_metadata, mask));
        let depth = self.count_layers(kv_caches);
        let ghost first = xs;
        let mut cur = xs;
        let mut i: usize = 0;
        while i < depth
            invariant
                self.is_callable::<X>(),
                self.weights_multiply(kv_caches),
                depth == self.depth(kv_caches),
                first == xs,
                i <= depth <= self.layers@.len(),
                kv_caches matches Some(caches) ==> depth <= caches@.len(),
                input_metadata.sequence_ends_end(Ok(ends)),
                self.mask_gives(*input_positions, ends, *input_metadata, mask),
                forall|r: Result<Tensor, Error>|
                    self.layers_end(
                        i as nat,
                        cur,
                        mask,
                        *input_positions,
                        kv_caches,
                        *input_metadata,
                        r,
                    ) ==> #[trigger] self.layers_end(
                        0,
                        first,
                        mask,
                        *input_positions,
                        kv_caches,
                        *input_metadata,
                        r,
                    ),
            decreases depth - i,
        {
            let cache = match kv_caches {
                Some(caches) => Some((&caches[i].0, &caches[i].1)),
                None => None,
            };
            assert(cache == cache_at(kv_caches, i as int));
            let out = self.layers[i].forward(
                &cur,
                mask.as_ref(),
                input_positions,
                cache,
                input_metadata,
                &self.fused,
                self.fused_glu,
            );
            match out {
                Ok(y) => {
                    proof {
                        assert forall|r: Result<Tensor, Error>|
                            self.layers_end(
                                (i + 1) as nat,
                                y,
                                mask,
                                *input_positions,
                                kv_caches,
                                *input_metadata,
                                r,
                            ) implies #[trigger] self.layers_end(
                            0,
                            first,
                            mask,
                            *input_positions,
                            kv_caches,
                            *input_metadata,
                            r,
                        ) by {
                            assert(self.layers_end(
                                i as nat,
                                cur,
                                mask,
                                *input_positions,
                                kv_caches,
                                *input_metadata,
                                r,
                            ));
                        }
                    }
                    cur = y;
                },
                Err(e) => {
                    assert(self.layers_end(
                        i as nat,
                        cur,
                        mask,
                        *input_positions,
                        kv_caches,
                        *input_metadata,
                        Err(e),
                    ));
                    assert(self.layers_end(
                        0,
                        first,
                        mask,
                        *input_positions,
                        kv_caches,
                        *input_metadata,
                        Err(e),
                    ));
                    return Err(e);
                },
            }
            i = i + 1;
        }
        assert(self.layers_end(
            i as nat,
            cur,
            mask,
            *input_positions,
            kv_caches,
            *input_metadata,
            Ok(cur),
        ));
        Ok(cur)
    }

    /// Whether the vocabulary projection of `hidden`, cut to logits, ends in `r`.
    pub open spec fn logits_end(self, hidden: Tensor, r: Result<Tensor, Error>) -> bool {
        exists|p: Result<Tensor, Error>| #[trigger]
            call_ensures(self.output, (&hidden,), p) && match p {
                Err(e) => r == Err::<Tensor, Error>(e),
                Ok(p) => cut_logits_end(p, self.true_vocab_size as nat, r),
            }
    }

    /// Whether the final norm of `x`, and without `return_hidden` its logits, end in `r`.
    pub open spec fn head_ends(
        self,
        x: Tensor,
        return_hidden: bool,
        r: Result<Tensor, Error>,
    ) -> bool {
        exists|h: Result<Tensor, Error>| #[trigger]
            call_ensures(self.norm, (&x,), h) && match h {
                Err(e) => r == Err::<Tensor, Error>(e),
                Ok(h) => if return_hidden {
                    r == Ok::<Tensor, Error>(h)
                } else {
                    self.logits_end(h, r)
                },
            }
    }

    /// The final norm of the activations, and without `return_hidden` their logits.
    pub fn forward_head(&self, xs: &Tensor, return_hidden: bool) -> (r: Result<Tensor, Error>)
        requires
            takes_tensors(self.norm),
            takes_tensors(self.output),
        ensures
            self.head_ends(*xs, return_hidden, r),
    {
        let h = match (self.norm)(xs) {
            Ok(h) => h,
            Err(e) => return Err(e),
        };
        if return_hidden {
            return Ok(h);
        }
        let p = match (self.output)(&h) {
            Ok(p) => p,
            Err(e) => return Err(e),
        };
        let r = cut_logits(&p, self.true_vocab_size);
        assert(self.logits_end(h, r));
        r
    }

    /// Whether the way from the layers' result `s` to the end is `r`: the last token of each
    /// sequence is taken where there are ends and not all positions are asked for.
    pub open spec fn tail_ends(
        self,
        ends: Seq<u32>,
        s: Tensor,
        return_hidden: bool,
        r: Result<Tensor, Error>,
    ) -> bool {
        if ends.len() > 0 && !return_hidden {
            exists|x: Result<Tensor, Error>| #[trigger]
                last_rows_end(s, ends, x) && match x {
                    Err(e) => r == Err::<Tensor, Error>(e),
                    Ok(x) => self.head_ends(x, return_hidden, r),
                }
        } else {
            self.head_ends(s, return_hidden, r)
        }
    }

    /// Goes from the layers' result to the end, for sequences that end at `ends`.
    pub fn forward_tail(&self, ends: &Vec<u32>, xs: Tensor, return_hidden: bool) -> (r: Result<
        Tensor,
        Error,
    >)
        requires
            takes_tensors(self.norm),
            takes_tensors(self.output),
            !return_hidden ==> forall|i: int| 0 <= i < ends@.len() ==> #[trigger] ends@[i] > 0,
        ensures
            self.tail_ends(ends@, xs, return_hidden, r),
    {
        if ends.len() > 0 && !return_hidden {
            let x = match select_last_rows(&xs, ends) {
                Ok(x) => x,
                Err(e) => return Err(e),
            };
            self.forward_head(&x, return_hidden)
        } else {
            self.forward_head(&xs, return_hidden)
        }
    }

    /// Whether running the model on embedded tokens, for sequences that end at `ends`, ends in `r`.
    pub open spec fn embedded_ends<X>(
        self,
        ends: Seq<u32>,
        x: Tensor,
        input_positions: Tensor,
        kv_caches: Option<&Vec<(Tensor, Tensor)>>,
        input_metadata: InputMetadata<X>,
        return_hidden: bool,
        r: Result<Tensor, Error>,
    ) -> bool where
        A: Fn(
            &Tensor,
            Option<&Vec<Tensor>>,
            &Tensor,
            Option<(&Tensor, &Tensor)>,
            &InputMetadata<X>,
        ) -> Result<Tensor, Error>,
     {
        exists|s: Result<Tensor, Error>| #[trigger]
            self.stack_ends(x, input_positions, kv_caches, input_metadata, s) && match s {
                Err(e) => r == Err::<Tensor, Error>(e),
                Ok(s) => self.tail_ends(ends, s, return_hidden, r),
            }
    }

    /// Whether running the model on the tokens `x` ends in `r`.
    pub open spec fn inner_ends<X>(
        self,
        x: Tensor,
        input_positions: Tensor,
        kv_caches: Option<&Vec<(Tensor, Tensor)>>,
        input_metadata: InputMetadata<X>,
        return_hidden: bool,
        r: Result<Tensor, Error>,
    ) -> bool where
        A: Fn(
            &Tensor,
            Option<&Vec<Tensor>>,
            &Tensor,
            Option<(&Tensor, &Tensor)>,
            &InputMetadata<X>,
        ) -> Result<Tensor, Error>,
     {
        exists|ends: Result<Vec<u32>, Error>| #[trigger]
            input_metadata.sequence_ends_end(ends) && match ends {
                Err(e) => r == Err::<Tensor, Error>(e),
                Ok(ends) => exists|xs: Result<Tensor, Error>| #[trigger]
                    embed_ends(self.tok_embeddings, x, xs) && match xs {
                        Err(e) => r == Err::<Tensor, Error>(e),
                        Ok(xs) => self.embedded_ends(
                            ends@,
                            xs,
                            input_positions,
                            kv_caches,
                            input_metadata,
                            return_hidden,
                            r,
                        ),
                    },
            }
    }

    /// Runs the model on the tokens `x`: they are embedded, the layers run, and of each sequence
    /// the last token goes on to the final norm and to its logits. With `return_hidden` all
    /// positions go on, and no further than the norm.
    fn forward_inner<X>(
        &self,
        x: &Tensor,
        input_positions: &Tensor,
        kv_caches: Option<&Vec<(Tensor, Tensor)>>,
        input_metadata: &InputMetadata<X>,
        return_hidden: bool,
    ) -> (r: Result<Tensor, Error>) where
        A: Fn(
            &Tensor,
            Option<&Vec<Tensor>>,
            &Tensor,
            Option<(&Tensor, &Tensor)>,
            &InputMetadata<X>,
        ) -> Result<Tensor, Error>,

        requires
            self.is_callable::<X>(),
            self.weights_multiply(kv_caches),
            input_metadata.fits(!return_hidden),
        ensures
            self.inner_ends(*x, *input_positions, kv_caches, *input_metadata, return_hidden, r),
    {
        let ends = match input_metadata.sequence_ends() {
            Ok(ends) => ends,
            Err(e) => return Err(e),
        };
        let xs = match embed(&self.tok_embeddings, x) {
            Ok(xs) => xs,
            Err(e) => return Err(e),
        };
        let ghost embedded = xs;
        let s = match self.forward_layers(xs, input_positions, kv_caches, input_metadata) {
            Ok(s) => s,
            Err(e) => {
                assert(self.embedded_ends(
                    ends@,
                    embedded,
                    *input_positions,
                    kv_caches,
                    *input_metadata,
                    return_hidden,
                    Err(e),
                ));
                return Err(e);
            },
        };
        let r = self.forward_tail(&ends, s, return_hidden);
        assert(self.embedded_ends(
            ends@,
            embedded,
            *input_positions,
            kv_caches,
            *input_metadata,
            return_hidden,
            r,
        ));
        r
    }

    /// The logits of the last token of each sequence, or of every token where no sequence bounds
    /// are given: 32-bit floats, one for each token of the vocabulary.
    pub fn forward<X>(
        &self,
        x: &Tensor,
        input_positions: &Tensor,
        kv_caches: Option<&Vec<(Tensor, Tensor)>>,
        input_metadata: &InputMetadata<X>,
    ) -> (r: Result<Tensor, ModelError>) where
        A: Fn(
            &Tensor,
            Option<&Vec<Tensor>>,
            &Tensor,
            Option<(&Tensor, &Tensor)>,
            &InputMetadata<X>,
        ) -> Result<Tensor, Error>,

        requires
            self.is_callable::<X>(),
            self.weights_multiply(kv_caches),
            input_metadata.fits(true),
        ensures
            exists|t: Result<Tensor, Error>| #[trigger]
                self.inner_ends(*x, *input_positions, kv_caches, *input_metadata, false, t) && r
                    == lifted(t),
    {
        lift(self.forward_inner(x, input_positions, kv_caches, input_metadata, false))
    }

    /// The normed activations of every token.
    pub fn forward_embedding<X>(
        &self,
        x: &Tensor,
        input_positions: &Tensor,
        kv_caches: Option<&Vec<(Tensor, Tensor)>>,
        input_metadata: &InputMetadata<X>,
    ) -> (r: Result<Tensor, ModelError>) where
        A: Fn(
            &Tensor,
            Option<&Vec<Tensor>>,
            &Tensor,
            Option<(&Tensor, &Tensor)>,
            &InputMetadata<X>,
        ) -> Result<Tensor, Error>,

        requires
            self.is_callable::<X>(),
            self.weights_multiply(kv_caches),
            input_metadata.fits(false),
        ensures
            exists|t: Result<Tensor, Error>| #[trigger]
                self.inner_ends(*x, *input_positions, kv_caches, *input_metadata, true, t) && r
                    == lifted(t),
    {
        lift(self.forward_inner(x, input_positions, kv_caches, input_metadata, true))
    }

    /// Whether the vocabulary projection of `hidden`, cut to logits in one piece, ends in `r`
    /// beside it.
    pub open spec fn flat_head_ends(
        self,
        hidden: Tensor,
        r: Result<(Tensor, Tensor), Error>,
    ) -> bool {
        exists|p: Result<Tensor, Error>| #[trigger]
            call_ensures(self.output, (&hidden,), p) && match p {
                Err(e) => r == Err::<(Tensor, Tensor), Error>(e),
                Ok(p) => exists|l: Result<Tensor, Error>| #[trigger]
                    flat_logits_end(p, self.true_vocab_size as nat, l) && match l {
                        Err(e) => r == Err::<(Tensor, Tensor), Error>(e),
                        Ok(l) => r == Ok::<(Tensor, Tensor), Error>((l, hidden)),
                    },
            }
    }

    /// Whether decoding from embeddings ends in `r`.
    pub open spec fn from_embeddings_ends<X>(
        self,
        embeddings: Tensor,
        input_positions: Tensor,
        kv_caches: Option<&Vec<(Tensor, Tensor)>>,
        input_metadata: InputMetadata<X>,
        r: Result<(Tensor, Tensor), Error>,
    ) -> bool where
        A: Fn(
            &Tensor,
            Option<&Vec<Tensor>>,
            &Tensor,
            Option<(&Tensor, &Tensor)>,
            &InputMetadata<X>,
        ) -> Result<Tensor, Error>,
     {
        exists|s: Result<Tensor, Error>| #[trigger]
            self.stack_ends(embeddings, input_positions, kv_caches, input_metadata, s) && match s {
                Err(e) => r == Err::<(Tensor, Tensor), Error>(e),
                Ok(s) => exists|h: Result<Tensor, Error>| #[trigger]
                    call_ensures(self.norm, (&s,), h) && match h {
                        Err(e) => r == Err::<(Tensor, Tensor), Error>(e),
                        Ok(h) => self.flat_head_ends(h, r),
                    },
            }
    }

    /// The logits of normed activations in one piece, beside them.
    pub fn forward_flat_head(&self, hidden: Tensor) -> (r: Result<(Tensor, Tensor), Error>)
        requires
            takes_tensors(self.output),
        ensures
            self.flat_head_ends(hidden, r),
            r matches Ok((logits, _)) ==> is_row_major(logits),
    {
        let p = match (self.output)(&hidden) {
            Ok(p) => p,
            Err(e) => return Err(e),
        };
        match flat_logits(&p, self.true_vocab_size) {
            Ok(l) => Ok((l, hidden)),
            Err(e) => Err(e),
        }
    }

    /// Decodes from embeddings that were computed elsewhere, without looking tokens up. They have
    /// the shape that the lookup would have given them. Gives the logits, as 32-bit floats in one
    /// piece, and the normed activations, of every position.
    pub fn forward_from_embeddings<X>(
        &self,
        embeddings: &Tensor,
        input_positions: &Tensor,
        kv_caches: Option<&Vec<(Tensor, Tensor)>>,
        input_metadata: &InputMetadata<X>,
    ) -> (r: Result<(Tensor, Tensor), ModelError>) where
        A: Fn(
            &Tensor,
            Option<&Vec<Tensor>>,
            &Tensor,
            Option<(&Tensor, &Tensor)>,
            &InputMetadata<X>,
        ) -> Result<Tensor, Error>,

        requires
            self.is_callable::<X>(),
            self.weights_multiply(kv_caches),
            input_metadata.fits(false),
        ensures
            exists|t: Result<(Tensor, Tensor), Error>| #[trigger]
                self.from_embeddings_ends(
                    *embeddings,
                    *input_positions,
                    kv_caches,
                    *input_metadata,
                    t,
                ) && r == lifted(t),
            r matches Ok((logits, _)) ==> is_row_major(logits),
    {
        let s = match self.forward_layers(
            embeddings.clone(),
            input_positions,
            kv_caches,
            input_metadata,
        ) {
            Ok(s) => s,
            Err(e) => {
                assert(self.from_embeddings_ends(
                    *embeddings,
                    *input_positions,
                    kv_caches,
                    *input_metadata,
                    Err(e),
                ));
                return Err(ModelError::Candle(e));
            },
        };
        let h = match (self.norm)(&s) {
            Ok(h) => h,
            Err(e) => {
                assert(self.from_embeddings_ends(
                    *embeddings,
                    *input_positions,
                    kv_caches,
                    *input_metadata,
                    Err(e),
                ));
                return Err(ModelError::Candle(e));
            },
        };
        let r = self.forward_flat_head(h);
        assert(self.from_embeddings_ends(
            *embeddings,
            *input_positions,
            kv_caches,
            *input_metadata,
            r,
        ));
        lift(r)
    }
}

impl<N, A, O, R, M, F> GGUFQWen<N, A, O, R, M, F> {
    /// The model's configuration.
    pub fn get_config(&self) -> (cfg: &Config<Real, Ratio>)
        ensures
            *cfg == self.cfg,
    {
        &self.cfg
    }
}

} // verus!
