//! The feed-forward block of a decoder layer.

use crate::tensor::{
    cast_ends, dtype_name, f32_dtype, is_floating, product_ends, silu_ends, tensor_product,
    tensor_value,
};
use crate::weight::{can_multiply, check_weight, matmul, matmul_ends, weight_value};
use candle_core::quantized::QMatMul;
use candle_core::{DType, Error, Tensor};
use vstd::prelude::*;

verus! {

/// Whether the setting `MOSS_FUSED_GLUE` leaves the fused kernel on: all but `0` do.
pub open spec fn leaves_fused_glu_on(setting: Option<Seq<char>>) -> bool {
    setting != Some("0"@)
}

/// Whether the setting `MOSS_FUSED_GLUE` leaves the fused kernel on. It is on where nothing is
/// set; `0` forces the unfused path.
pub fn fused_glu_enabled(setting: Option<String>) -> (on: bool)
    ensures
        on == leaves_fused_glu_on(
            match setting {
                Some(s) => Some(s@),
                None => None,
            },
        ),
{
    match setting {
        None => true,
        Some(s) => {
            let off = "0".to_owned();
            !(s == off)
        },
    }
}

/// Whether `f` takes every pair of weights and activations.
pub open spec fn takes_weights<F>(f: F) -> bool where
    F: Fn(&QMatMul, &QMatMul, &Tensor) -> Result<Option<Tensor>, Error>,
 {
    forall|w1: &QMatMul, w3: &QMatMul, t: &Tensor| #[trigger] call_requires(f, (w1, w3, t))
}

/// Whether the fused kernel `f` gives floats, where it applies.
pub open spec fn gives_floats<F>(f: F) -> bool where
    F: Fn(&QMatMul, &QMatMul, &Tensor) -> Result<Option<Tensor>, Error>,
 {
    forall|w1: &QMatMul, w3: &QMatMul, t: &Tensor, y: Tensor| #[trigger]
        call_ensures(f, (w1, w3, t), Ok(Some(y))) ==> is_floating(tensor_value(y).dtype)
}

/// Whether `f` takes every pair of weights and activations, and gives floats.
pub open spec fn is_fused_kernel<F>(f: F) -> bool where
    F: Fn(&QMatMul, &QMatMul, &Tensor) -> Result<Option<Tensor>, Error>,
 {
    takes_weights(f) && gives_floats(f)
}

/// A gated feed-forward block: the gating weight `feed_forward_w1`, the way up `feed_forward_w3`
/// and the way down `feed_forward_w2`. `R` sums the results of all ranks where the block is
/// sharded.
pub struct Mlp<R> {
    pub feed_forward_w1: QMatMul,
    pub feed_forward_w2: QMatMul,
    pub feed_forward_w3: QMatMul,
    pub all_reduce: Option<R>,
    pub dtype: DType,
}

impl<R> Mlp<R> {
    /// Whether activations can be multiplied by each of the weights.
    pub open spec fn weights_multiply(self) -> bool {
        &&& can_multiply(weight_value(self.feed_forward_w1))
        &&& can_multiply(weight_value(self.feed_forward_w2))
        &&& can_multiply(weight_value(self.feed_forward_w3))
    }

    /// Tests whether activations can be multiplied by each of the weights.
    pub fn check_weights(&self) -> (ok: bool)
        ensures
            ok == self.weights_multiply(),
    {
        check_weight(&self.feed_forward_w1) && check_weight(&self.feed_forward_w2)
            && check_weight(&self.feed_forward_w3)
    }

    /// Whether computing the activated gating product times the way up, step by step, ends in `r`.
    pub open spec fn unfused_ends(self, xs: Tensor, r: Result<Tensor, Error>) -> bool {
        exists|w1: Result<Tensor, Error>| #[trigger]
            matmul_ends(self.feed_forward_w1, xs, w1) && match w1 {
                Err(e) => r == Err::<Tensor, Error>(e),
                Ok(w1) => exists|w3: Result<Tensor, Error>| #[trigger]
                    matmul_ends(self.feed_forward_w3, xs, w3) && match w3 {
                        Err(e) => r == Err::<Tensor, Error>(e),
                        Ok(w3) => exists|s: Result<Tensor, Error>| #[trigger]
                            silu_ends(w1, s) && match s {
                                Err(e) => r == Err::<Tensor, Error>(e),
                                Ok(s) => product_ends(s, w3, r),
                            },
                    },
            }
    }

    /// Whether gating ends in `r` where the fused kernel gave `fused`.
    pub open spec fn gate_ends(
        self,
        fused: Option<Tensor>,
        xs: Tensor,
        r: Result<Tensor, Error>,
    ) -> bool {
        match fused {
            Some(t) => r == Ok::<Tensor, Error>(t),
            None => self.unfused_ends(xs, r),
        }
    }

    /// The gated activation: what the fused kernel gave, or, where it did not apply, the SiLU of
    /// the gating product times the way up.
    pub fn gate(&self, fused: Option<Tensor>, xs: &Tensor) -> (r: Result<Tensor, Error>)
        requires
            self.weights_multiply(),
        ensures
            self.gate_ends(fused, *xs, r),
            r matches Ok(y) ==> is_floating(tensor_value(*xs).dtype) && (fused is Some
                ==> is_floating(tensor_value(fused->Some_0).dtype)) ==> is_floating(
                tensor_value(y).dtype,
            ),
    {
        match fused {
            Some(t) => Ok(t),
            None => {
                let w1 = match matmul(&self.feed_forward_w1, xs) {
                    Ok(t) => t,
                    Err(e) => return Err(e),
                };
                let w3 = match matmul(&self.feed_forward_w3, xs) {
                    Ok(t) => t,
                    Err(e) => return Err(e),
                };
                let s = match candle_nn::ops::silu(&w1) {
                    Ok(t) => t,
                    Err(e) => return Err(e),
                };
                tensor_product(s, w3)
            },
        }
    }
}

impl<R> Mlp<R> where R: Fn(&Tensor) -> Result<Tensor, Error> {
    /// Whether the sum over all ranks, where there is one, takes every tensor.
    pub open spec fn is_callable(self) -> bool {
        self.all_reduce matches Some(f) ==> forall|t: &Tensor| #[trigger] call_requires(f, (t,))
    }

    /// Whether summing `t` over all ranks, in the model's element type, ends in `r`.
    pub open spec fn reduce_ends(self, f: R, t: Tensor, r: Result<Tensor, Error>) -> bool {
        exists|c: Result<Tensor, Error>| #[trigger]
            cast_ends(t, self.dtype, c) && match c {
                Err(e) => r == Err::<Tensor, Error>(e),
                Ok(c) => exists|s: Result<Tensor, Error>| #[trigger]
                    call_ensures(f, (&c,), s) && match s {
                        Err(e) => r == Err::<Tensor, Error>(e),
                        Ok(s) => exists|d: DType| #[trigger]
                            cast_ends(s, d, r) && dtype_name(d) == "f32"@,
                    },
            }
    }

    /// Whether the way down from the gated activation, summed over all ranks, ends in `r`.
    pub open spec fn down_ends(self, gated: Tensor, r: Result<Tensor, Error>) -> bool {
        exists|t: Result<Tensor, Error>| #[trigger]
            matmul_ends(self.feed_forward_w2, gated, t) && match (t, self.all_reduce) {
                (Ok(t), Some(f)) => self.reduce_ends(f, t, r),
                _ => r == t,
            }
    }

    /// The way down from the gated activation. Where the block is sharded, the results of all
    /// ranks are summed in the model's element type and come back as 32-bit floats.
    pub fn down(&self, gated: &Tensor) -> (r: Result<Tensor, Error>)
        requires
            self.weights_multiply(),
            self.is_callable(),
        ensures
            self.down_ends(*gated, r),
            r matches Ok(y) ==> is_floating(tensor_value(*gated).dtype) ==> is_floating(
                tensor_value(y).dtype,
            ),
    {
        let t = match matmul(&self.feed_forward_w2, gated) {
            Ok(t) => t,
            Err(e) => return Err(e),
        };
        match &self.all_reduce {
            None => Ok(t),
            Some(f) => {
                let c = match t.to_dtype(self.dtype) {
                    Ok(c) => c,
                    Err(e) => return Err(e),
                };
                let s = match f(&c) {
                    Ok(s) => s,
                    Err(e) => return Err(e),
                };
                s.to_dtype(f32_dtype())
            },
        }
    }

    /// Whether the block ends in `r` for `xs`.
    pub open spec fn forward_ends<F>(
        self,
        fused: F,
        fused_glu: bool,
        xs: Tensor,
        r: Result<Tensor, Error>,
    ) -> bool where F: Fn(&QMatMul, &QMatMul, &Tensor) -> Result<Option<Tensor>, Error> {
        if fused_glu {
            exists|o: Result<Option<Tensor>, Error>| #[trigger]
                call_ensures(fused, (&self.feed_forward_w1, &self.feed_forward_w3, &xs), o)
                    && match o {
                    Err(e) => r == Err::<Tensor, Error>(e),
                    Ok(o) => self.gated_ends(o, xs, r),
                }
        } else {
            self.gated_ends(None, xs, r)
        }
    }

    /// Whether the block ends in `r` for `xs` where the fused kernel gave `fused`.
    pub open spec fn gated_ends(
        self,
        fused: Option<Tensor>,
        xs: Tensor,
        r: Result<Tensor, Error>,
    ) -> bool {
        exists|g: Result<Tensor, Error>| #[trigger]
            self.gate_ends(fused, xs, g) && match g {
                Err(e) => r == Err::<Tensor, Error>(e),
                Ok(g) => self.down_ends(g, r),
            }
    }

    /// Runs the block where the fused kernel gave `fused`.
    pub fn forward_gated(&self, fused: Option<Tensor>, xs: &Tensor) -> (r: Result<Tensor, Error>)
        requires
            self.weights_multiply(),
            self.is_callable(),
        ensures
            self.gated_ends(fused, *xs, r),
            r matches Ok(y) ==> is_floating(tensor_value(*xs).dtype) && (fused is Some
                ==> is_floating(tensor_value(fused->Some_0).dtype)) ==> is_floating(
                tensor_value(y).dtype,
            ),
    {
        let g = match self.gate(fused, xs) {
            Ok(g) => g,
            Err(e) => return Err(e),
        };
        self.down(&g)
    }

    /// Runs the block. With `fused_glu` the fused kernel is tried first; where it does not apply,
    /// or is off, gating and the way up are computed in separate steps.
    pub fn forward<F>(&self, xs: &Tensor, fused: &F, fused_glu: bool) -> (r: Result<Tensor, Error>)
        where F: Fn(&QMatMul, &QMatMul, &Tensor) -> Result<Option<Tensor>, Error>
        requires
            self.weights_multiply(),
            self.is_callable(),
            takes_weights(*fused),
        ensures
            self.forward_ends(*fused, fused_glu, *xs, r),
            r matches Ok(y) ==> is_floating(tensor_value(*xs).dtype) && gives_floats(*fused)
                ==> is_floating(tensor_value(y).dtype),
    {
        let o = if fused_glu {
            match fused(&self.feed_forward_w1, &self.feed_forward_w3, xs) {
                Ok(o) => o,
                Err(e) => return Err(e),
            }
        } else {
            None
        };
        self.forward_gated(o, xs)
    }
}

} // verus!
