//! What holds of the feed-forward block as a whole.

use crate::mlp::Mlp;
use crate::tensor::{
    cast_ends, cast_may_end, dtype_name, product_ends, product_may_end, silu_ends, silu_may_end,
    tensor_end, tensor_value, TensorValue,
};
use crate::weight::{matmul_ends, matmul_may_end, WeightValue};
use candle_core::quantized::QMatMul;
use candle_core::{DType, Error, Tensor};
use vstd::prelude::*;

verus! {

/// Whether the fused kernel does not apply to `xs`, and gives nothing.
pub open spec fn is_idle<R, F>(mlp: Mlp<R>, fused: F, xs: Tensor) -> bool where
    F: Fn(&QMatMul, &QMatMul, &Tensor) -> Result<Option<Tensor>, Error>,
 {
    forall|o: Result<Option<Tensor>, Error>| #[trigger]
        call_ensures(fused, (&mlp.feed_forward_w1, &mlp.feed_forward_w3, &xs), o) ==> o == Ok::<
            Option<Tensor>,
            Error,
        >(None)
}

/// A fused kernel that gives nothing changes nothing: the block ends in what it ends in with any
/// kernel that is off, and in nothing else.
pub proof fn an_idle_fused_kernel_changes_nothing<R, F, K>(
    mlp: Mlp<R>,
    idle: F,
    other: K,
    xs: Tensor,
    r: Result<Tensor, Error>,
) where
    R: Fn(&Tensor) -> Result<Tensor, Error>,
    F: Fn(&QMatMul, &QMatMul, &Tensor) -> Result<Option<Tensor>, Error>,
    K: Fn(&QMatMul, &QMatMul, &Tensor) -> Result<Option<Tensor>, Error>,

    requires
        is_idle(mlp, idle, xs),
        call_ensures(idle, (&mlp.feed_forward_w1, &mlp.feed_forward_w3, &xs), Ok(None)),
    ensures
        mlp.forward_ends(idle, true, xs, r) == mlp.forward_ends(other, false, xs, r),
{
    if mlp.forward_ends(other, false, xs, r) {
        let o = Ok::<Option<Tensor>, Error>(None);
        assert(call_ensures(idle, (&mlp.feed_forward_w1, &mlp.feed_forward_w3, &xs), o));
    }
}

/// With the fused kernel off, the block ends alike whatever the kernel is.
pub proof fn a_fused_kernel_that_is_off_does_not_matter<R, F, K>(
    mlp: Mlp<R>,
    fused: F,
    other: K,
    xs: Tensor,
    r: Result<Tensor, Error>,
) where
    R: Fn(&Tensor) -> Result<Tensor, Error>,
    F: Fn(&QMatMul, &QMatMul, &Tensor) -> Result<Option<Tensor>, Error>,
    K: Fn(&QMatMul, &QMatMul, &Tensor) -> Result<Option<Tensor>, Error>,

    ensures
        mlp.forward_ends(fused, false, xs, r) == mlp.forward_ends(other, false, xs, r),
{
}

/// Whether two ends are alike: tensors that hold the same, or two failures.
pub open spec fn are_alike(a: Result<TensorValue, Error>, b: Result<TensorValue, Error>) -> bool {
    match (a, b) {
        (Ok(a), Ok(b)) => a == b,
        (Err(_), Err(_)) => true,
        _ => false,
    }
}

/// Whether the kernels that a feed-forward block runs repeat themselves: of the same they make the
/// same.
pub open spec fn kernels_repeat() -> bool {
    &&& forall|
        w: WeightValue,
        x: TensorValue,
        a: Result<TensorValue, Error>,
        b: Result<TensorValue, Error>,
    |
        #![trigger matmul_may_end(w, x, a), matmul_may_end(w, x, b)]
        matmul_may_end(w, x, a) && matmul_may_end(w, x, b) ==> are_alike(a, b)
    &&& forall|x: TensorValue, a: Result<TensorValue, Error>, b: Result<TensorValue, Error>|
        #![trigger silu_may_end(x, a), silu_may_end(x, b)]
        silu_may_end(x, a) && silu_may_end(x, b) ==> are_alike(a, b)
    &&& forall|
        x: TensorValue,
        y: TensorValue,
        a: Result<TensorValue, Error>,
        b: Result<TensorValue, Error>,
    |
        #![trigger product_may_end(x, y, a), product_may_end(x, y, b)]
        product_may_end(x, y, a) && product_may_end(x, y, b) ==> are_alike(a, b)
    &&& forall|
        x: TensorValue,
        name: Seq<char>,
        a: Result<TensorValue, Error>,
        b: Result<TensorValue, Error>,
    |
        #![trigger cast_may_end(x, name, a), cast_may_end(x, name, b)]
        cast_may_end(x, name, a) && cast_may_end(x, name, b) ==> are_alike(a, b)
}

/// Whether `f` makes the same of the same.
pub open spec fn repeats<R>(f: R) -> bool where R: Fn(&Tensor) -> Result<Tensor, Error> {
    forall|t: Tensor, u: Tensor, a: Result<Tensor, Error>, b: Result<Tensor, Error>|
        #![trigger call_ensures(f, (&t,), a), call_ensures(f, (&u,), b)]
        call_ensures(f, (&t,), a) && call_ensures(f, (&u,), b) && tensor_value(t) == tensor_value(
            u,
        ) ==> are_alike(tensor_end(a), tensor_end(b))
}

/// Gating in separate steps repeats itself where the kernels do.
proof fn unfused_gating_repeats<R>(
    mlp: Mlp<R>,
    xs: Tensor,
    ys: Tensor,
    a: Result<Tensor, Error>,
    b: Result<Tensor, Error>,
)
    requires
        kernels_repeat(),
        tensor_value(xs) == tensor_value(ys),
        mlp.unfused_ends(xs, a),
        mlp.unfused_ends(ys, b),
    ensures
        are_alike(tensor_end(a), tensor_end(b)),
{
    let (p1, p3, ps) = steps_of_gating(mlp, xs, a);
    let (q1, q3, qs) = steps_of_gating(mlp, ys, b);
    assert(are_alike(tensor_end(p1), tensor_end(q1)));
    if p1 is Ok {
        assert(are_alike(tensor_end(p3), tensor_end(q3)));
        if p3 is Ok {
            assert(are_alike(tensor_end(ps), tensor_end(qs)));
        }
    }
}

/// The steps that gating went through: gating, the way up, and the activation.
proof fn steps_of_gating<R>(mlp: Mlp<R>, xs: Tensor, r: Result<Tensor, Error>) -> (steps: (
    Result<Tensor, Error>,
    Result<Tensor, Error>,
    Result<Tensor, Error>,
))
    requires
        mlp.unfused_ends(xs, r),
    ensures
        ({
            let (w1, w3, s) = steps;
            &&& matmul_ends(mlp.feed_forward_w1, xs, w1)
            &&& w1 is Err ==> r == w1
            &&& w1 is Ok ==> {
                &&& matmul_ends(mlp.feed_forward_w3, xs, w3)
                &&& w3 is Err ==> r == w3
                &&& w3 is Ok ==> {
                    &&& silu_ends(w1->Ok_0, s)
                    &&& s is Err ==> r == s
                    &&& s is Ok ==> product_ends(s->Ok_0, w3->Ok_0, r)
                }
            }
        }),
{
    let w1 = choose|w1: Result<Tensor, Error>| #[trigger]
        matmul_ends(mlp.feed_forward_w1, xs, w1) && match w1 {
            Err(e) => r == Err::<Tensor, Error>(e),
            Ok(w1) => exists|w3: Result<Tensor, Error>| #[trigger]
                matmul_ends(mlp.feed_forward_w3, xs, w3) && match w3 {
                    Err(e) => r == Err::<Tensor, Error>(e),
                    Ok(w3) => exists|s: Result<Tensor, Error>| #[trigger]
                        silu_ends(w1, s) && match s {
                            Err(e) => r == Err::<Tensor, Error>(e),
                            Ok(s) => product_ends(s, w3, r),
                        },
                },
        };
    if w1 is Err {
        (w1, w1, w1)
    } else {
        let g = w1->Ok_0;
        let w3 = choose|w3: Result<Tensor, Error>| #[trigger]
            matmul_ends(mlp.feed_forward_w3, xs, w3) && match w3 {
                Err(e) => r == Err::<Tensor, Error>(e),
                Ok(w3) => exists|s: Result<Tensor, Error>| #[trigger]
                    silu_ends(g, s) && match s {
                        Err(e) => r == Err::<Tensor, Error>(e),
                        Ok(s) => product_ends(s, w3, r),
                    },
            };
        if w3 is Err {
            (w1, w3, w3)
        } else {
            let up = w3->Ok_0;
            let s = choose|s: Result<Tensor, Error>| #[trigger]
                silu_ends(g, s) && match s {
                    Err(e) => r == Err::<Tensor, Error>(e),
                    Ok(s) => product_ends(s, up, r),
                };
            (w1, w3, s)
        }
    }
}

/// Summing over the ranks repeats itself where the kernels and the sum do.
proof fn reducing_repeats<R>(
    mlp: Mlp<R>,
    f: R,
    g: Tensor,
    h: Tensor,
    a: Result<Tensor, Error>,
    b: Result<Tensor, Error>,
) where R: Fn(&Tensor) -> Result<Tensor, Error>
    requires
        kernels_repeat(),
        repeats(f),
        tensor_value(g) == tensor_value(h),
        mlp.reduce_ends(f, g, a),
        mlp.reduce_ends(f, h, b),
    ensures
        are_alike(tensor_end(a), tensor_end(b)),
{
    let p = choose|c: Result<Tensor, Error>| #[trigger]
        cast_ends(g, mlp.dtype, c) && match c {
            Err(e) => a == Err::<Tensor, Error>(e),
            Ok(c) => exists|s: Result<Tensor, Error>| #[trigger]
                call_ensures(f, (&c,), s) && match s {
                    Err(e) => a == Err::<Tensor, Error>(e),
                    Ok(s) => exists|d: DType| #[trigger]
                        cast_ends(s, d, a) && dtype_name(d) == "f32"@,
                },
        };
    let q = choose|c: Result<Tensor, Error>| #[trigger]
        cast_ends(h, mlp.dtype, c) && match c {
            Err(e) => b == Err::<Tensor, Error>(e),
            Ok(c) => exists|s: Result<Tensor, Error>| #[trigger]
                call_ensures(f, (&c,), s) && match s {
                    Err(e) => b == Err::<Tensor, Error>(e),
                    Ok(s) => exists|d: DType| #[trigger]
                        cast_ends(s, d, b) && dtype_name(d) == "f32"@,
                },
        };
    assert(are_alike(tensor_end(p), tensor_end(q)));
    if p is Ok {
        let (c, d) = (p->Ok_0, q->Ok_0);
        let s = choose|s: Result<Tensor, Error>| #[trigger]
            call_ensures(f, (&c,), s) && match s {
                Err(e) => a == Err::<Tensor, Error>(e),
                Ok(s) => exists|d: DType| #[trigger]
                    cast_ends(s, d, a) && dtype_name(d) == "f32"@,
            };
        let t = choose|s: Result<Tensor, Error>| #[trigger]
            call_ensures(f, (&d,), s) && match s {
                Err(e) => b == Err::<Tensor, Error>(e),
                Ok(s) => exists|d: DType| #[trigger]
                    cast_ends(s, d, b) && dtype_name(d) == "f32"@,
            };
        assert(are_alike(tensor_end(s), tensor_end(t)));
    }
}

/// Whether the fused kernel gave the same twice, or did not apply twice.
pub open spec fn gave_alike(a: Option<Tensor>, b: Option<Tensor>) -> bool {
    match (a, b) {
        (Some(a), Some(b)) => tensor_value(a) == tensor_value(b),
        (None, None) => true,
        _ => false,
    }
}

/// What follows the fused kernel repeats itself where the kernels and the sum over ranks do.
proof fn gated_runs_repeat<R>(
    mlp: Mlp<R>,
    o: Option<Tensor>,
    u: Option<Tensor>,
    xs: Tensor,
    ys: Tensor,
    a: Result<Tensor, Error>,
    b: Result<Tensor, Error>,
) where R: Fn(&Tensor) -> Result<Tensor, Error>
    requires
        kernels_repeat(),
        mlp.all_reduce matches Some(f) ==> repeats(f),
        gave_alike(o, u),
        tensor_value(xs) == tensor_value(ys),
        mlp.gated_ends(o, xs, a),
        mlp.gated_ends(u, ys, b),
    ensures
        are_alike(tensor_end(a), tensor_end(b)),
{
    let g = choose|g: Result<Tensor, Error>| #[trigger]
        mlp.gate_ends(o, xs, g) && match g {
            Err(e) => a == Err::<Tensor, Error>(e),
            Ok(g) => mlp.down_ends(g, a),
        };
    let h = choose|h: Result<Tensor, Error>| #[trigger]
        mlp.gate_ends(u, ys, h) && match h {
            Err(e) => b == Err::<Tensor, Error>(e),
            Ok(h) => mlp.down_ends(h, b),
        };
    if o is None {
        unfused_gating_repeats(mlp, xs, ys, g, h);
    }
    if g is Ok {
        let (p, q) = (g->Ok_0, h->Ok_0);
        let s = choose|s: Result<Tensor, Error>| #[trigger]
            matmul_ends(mlp.feed_forward_w2, p, s) && match (s, mlp.all_reduce) {
                (Ok(s), Some(f)) => mlp.reduce_ends(f, s, a),
                _ => a == s,
            };
        let t = choose|t: Result<Tensor, Error>| #[trigger]
            matmul_ends(mlp.feed_forward_w2, q, t) && match (t, mlp.all_reduce) {
                (Ok(t), Some(f)) => mlp.reduce_ends(f, t, b),
                _ => b == t,
            };
        assert(are_alike(tensor_end(s), tensor_end(t)));
        if s is Ok && mlp.all_reduce is Some {
            reducing_repeats(mlp, mlp.all_reduce->Some_0, s->Ok_0, t->Ok_0, a, b);
        }
    }
}

/// Where the kernels and the sum over ranks repeat themselves, two runs of the block, one with a
/// fused kernel that does not apply and one with any kernel that is off, end alike.
pub proof fn an_idle_run_and_one_that_is_off_agree<R, F, K>(
    mlp: Mlp<R>,
    idle: F,
    other: K,
    xs: Tensor,
    tried: Result<Tensor, Error>,
    off: Result<Tensor, Error>,
) where
    R: Fn(&Tensor) -> Result<Tensor, Error>,
    F: Fn(&QMatMul, &QMatMul, &Tensor) -> Result<Option<Tensor>, Error>,
    K: Fn(&QMatMul, &QMatMul, &Tensor) -> Result<Option<Tensor>, Error>,

    requires
        is_idle(mlp, idle, xs),
        kernels_repeat(),
        mlp.all_reduce matches Some(f) ==> repeats(f),
        mlp.forward_ends(idle, true, xs, tried),
        mlp.forward_ends(other, false, xs, off),
    ensures
        are_alike(tensor_end(tried), tensor_end(off)),
{
    assert(mlp.gated_ends(None, xs, tried));
    assert(mlp.gated_ends(None, xs, off));
    gated_runs_repeat(mlp, None, None, xs, xs, tried, off);
}

/// Whether `f`, a fused kernel, makes the same of the same.
pub open spec fn fused_repeats<F>(f: F) -> bool where
    F: Fn(&QMatMul, &QMatMul, &Tensor) -> Result<Option<Tensor>, Error>,
 {
    forall|
        w1: QMatMul,
        w3: QMatMul,
        t: Tensor,
        u: Tensor,
        a: Result<Option<Tensor>, Error>,
        b: Result<Option<Tensor>, Error>,
    |
        #![trigger call_ensures(f, (&w1, &w3, &t), a), call_ensures(f, (&w1, &w3, &u), b)]
        call_ensures(f, (&w1, &w3, &t), a) && call_ensures(f, (&w1, &w3, &u), b) && tensor_value(t)
            == tensor_value(u) ==> match (a, b) {
            (Ok(a), Ok(b)) => gave_alike(a, b),
            (Err(_), Err(_)) => true,
            _ => false,
        }
}

/// Where the kernels, the fused kernel and the sum over ranks repeat themselves, the block makes
/// the same of the same.
pub proof fn a_block_repeats<R, F>(
    mlp: Mlp<R>,
    fused: F,
    fused_glu: bool,
    xs: Tensor,
    ys: Tensor,
    a: Result<Tensor, Error>,
    b: Result<Tensor, Error>,
) where
    R: Fn(&Tensor) -> Result<Tensor, Error>,
    F: Fn(&QMatMul, &QMatMul, &Tensor) -> Result<Option<Tensor>, Error>,

    requires
        kernels_repeat(),
        fused_glu ==> fused_repeats(fused),
        mlp.all_reduce matches Some(f) ==> repeats(f),
        tensor_value(xs) == tensor_value(ys),
        mlp.forward_ends(fused, fused_glu, xs, a),
        mlp.forward_ends(fused, fused_glu, ys, b),
    ensures
        are_alike(tensor_end(a), tensor_end(b)),
{
    if fused_glu {
        let (w1, w3) = (mlp.feed_forward_w1, mlp.feed_forward_w3);
        let o = choose|o: Result<Option<Tensor>, Error>| #[trigger]
            call_ensures(fused, (&mlp.feed_forward_w1, &mlp.feed_forward_w3, &xs), o) && match o {
                Err(e) => a == Err::<Tensor, Error>(e),
                Ok(o) => mlp.gated_ends(o, xs, a),
            };
        let p = choose|p: Result<Option<Tensor>, Error>| #[trigger]
            call_ensures(fused, (&mlp.feed_forward_w1, &mlp.feed_forward_w3, &ys), p) && match p {
                Err(e) => b == Err::<Tensor, Error>(e),
                Ok(p) => mlp.gated_ends(p, ys, b),
            };
        assert(call_ensures(fused, (&w1, &w3, &xs), o));
        assert(call_ensures(fused, (&w1, &w3, &ys), p));
        if o is Ok {
            gated_runs_repeat(mlp, o->Ok_0, p->Ok_0, xs, ys, a, b);
        }
    } else {
        gated_runs_repeat(mlp, None, None, xs, ys, a, b);
    }
}

} // verus!
