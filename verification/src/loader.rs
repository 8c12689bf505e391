//! Loading a model: which tensors are taken under which names, and what is built of them.

use crate::config::{Config, Ratio, Real, Single};
use crate::layer::LayerWeights;
use crate::mlp::Mlp;
use crate::progress::{counted, ProgressReporter};
use crate::weight::{dequantize_ends, is_filled, qtensor_dims, qtensor_value, weight_ends};
use crate::text::{layer_prefix, layer_prefix_string};
use candle_core::quantized::{QMatMul, QTensor};
use candle_core::{DType, Device, Error, Tensor};
use std::sync::Arc;
use vstd::prelude::*;

verus! {

/// What the engine brings to loading a model: its tensors, and the makers of its blocks.
pub struct Engine<G, S, H, NF, OF, YF, EF, AF, RF> {
    /// Gives the tensor of a name, under a prefix or under none.
    pub get: G,
    /// Gives one rank's share of the tensor of a name under a prefix, cut along a dimension.
    pub get_sharded: S,
    /// Tells whether there is a tensor of a name.
    pub contains_key: H,
    /// Makes an RMS norm of a weight and an epsilon.
    pub norm: NF,
    /// Makes the vocabulary projection of the tensor of a name with a number of rows.
    pub output: OF,
    /// Applies what was asked for at run time to the rotary settings.
    pub rope_overrides: YF,
    /// Makes the rotary embedding.
    pub rotary: EF,
    /// Makes the attention of the layer under a prefix.
    pub attention: AF,
    /// Makes the sum over ranks.
    pub all_reduce: RF,
}

/// Where a model is put, and in what form.
pub struct Placement {
    pub device: Device,
    pub dtype: DType,
    pub rank: usize,
    pub world_size: usize,
    /// Whether the engine can sum over ranks.
    pub nccl: bool,
}

/// What stands before and behind the layers.
pub struct Heads<N, O> {
    /// The rows of the embedding table, with those that pad it.
    pub rows: usize,
    pub table: Tensor,
    pub norm: N,
    pub output: O,
}

impl<G, S, H, NF, OF, YF, EF, AF, RF, N, O, E, A, R> Engine<
    G,
    S,
    H,
    NF,
    OF,
    YF,
    EF,
    AF,
    RF,
> where
    G: Fn(Option<&str>, &str) -> Result<Arc<QTensor>, Error>,
    S: Fn(&str, &str, usize, usize, usize) -> Result<Arc<QTensor>, Error>,
    H: Fn(&str) -> bool,
    NF: Fn(Arc<QTensor>, Single) -> Result<N, Error>,
    OF: Fn(&str, usize, DType) -> Result<O, Error>,
    YF: Fn(Config<Real, Ratio>) -> Config<Real, Ratio>,
    EF: Fn(&Config<Real, Ratio>, &Device) -> Result<E, Error>,
    AF: Fn(
        &Config<Real, Ratio>,
        &str,
        &Device,
        DType,
        Arc<E>,
        Option<usize>,
        usize,
        usize,
    ) -> Result<A, Error>,
    RF: Fn() -> R,
 {
    /// Whether the embedding table and the shares of weights that the engine gives have as many
    /// blocks as their dimensions say.
    pub open spec fn gives_filled_tensors(self) -> bool {
        &&& forall|q: Arc<QTensor>| #[trigger]
            call_ensures(self.get, (None, "token_embd.weight"), Ok(q)) ==> is_filled(
                qtensor_value(*q),
            )
        &&& forall|prefix: &str, name: &str, dim: usize, rank: usize, world: usize, q: Arc<QTensor>|
         #[trigger]
            call_ensures(self.get_sharded, (prefix, name, dim, rank, world), Ok(q)) ==> is_filled(
                qtensor_value(*q),
            )
    }

    /// Whether all that the engine brings takes what it is handed, and its tensors have their
    /// blocks.
    pub open spec fn is_callable(self) -> bool {
        &&& self.gives_filled_tensors()
        &&& forall|prefix: Option<&str>, name: &str| #[trigger]
            call_requires(self.get, (prefix, name))
        &&& forall|prefix: &str, name: &str, dim: usize, rank: usize, world: usize| #[trigger]
            call_requires(self.get_sharded, (prefix, name, dim, rank, world))
        &&& forall|name: &str| #[trigger] call_requires(self.contains_key, (name,))
        &&& forall|q: Arc<QTensor>, eps: Single| #[trigger] call_requires(self.norm, (q, eps))
        &&& forall|name: &str, rows: usize, dtype: DType| #[trigger]
            call_requires(self.output, (name, rows, dtype))
        &&& forall|cfg: Config<Real, Ratio>| #[trigger] call_requires(self.rope_overrides, (cfg,))
        &&& forall|cfg: &Config<Real, Ratio>, device: &Device| #[trigger]
            call_requires(self.rotary, (cfg, device))
        &&& forall|
            cfg: &Config<Real, Ratio>,
            prefix: &str,
            device: &Device,
            dtype: DType,
            rotary: Arc<E>,
            window: Option<usize>,
            rank: usize,
            world: usize,
        | #[trigger]
            call_requires(
                self.attention,
                (cfg, prefix, device, dtype, rotary, window, rank, world),
            )
        &&& call_requires(self.all_reduce, ())
    }

    /// Whether loading the embedding table ends in `r`: its rows, counted, and the table.
    pub open spec fn table_ends(self, device: Device, r: Result<(usize, Tensor), Error>) -> bool {
        exists|q: Result<Arc<QTensor>, Error>| #[trigger]
            call_ensures(self.get, (None, "token_embd.weight"), q) && match q {
                Err(e) => r == Err::<(usize, Tensor), Error>(e),
                Ok(q) => exists|t: Result<Tensor, Error>| #[trigger]
                    dequantize_ends(*q, device, t) && match t {
                        Err(e) => r == Err::<(usize, Tensor), Error>(e),
                        Ok(t) => r matches Ok((rows, table)) && table == t
                            && qtensor_value(*q).dims.len() > 0 && rows
                            == qtensor_value(*q).dims[0],
                    },
            }
    }

    /// Whether loading the final norm ends in `r`.
    pub open spec fn norm_ends(self, eps: Single, r: Result<N, Error>) -> bool {
        exists|q: Result<Arc<QTensor>, Error>| #[trigger]
            call_ensures(self.get, (None, "output_norm.weight"), q) && match q {
                Err(e) => r == Err::<N, Error>(e),
                Ok(q) => call_ensures(self.norm, (q, eps), r),
            }
    }

    /// Whether loading the vocabulary projection ends in `r`: of its own tensor where there is
    /// one, and of the embedding table otherwise.
    pub open spec fn output_ends(self, rows: usize, dtype: DType, r: Result<O, Error>) -> bool {
        exists|own: bool| #[trigger]
            call_ensures(self.contains_key, ("output.weight",), own) && if own {
                call_ensures(self.output, ("output.weight", rows, dtype), r)
            } else {
                call_ensures(self.output, ("token_embd.weight", rows, dtype), r)
            }
    }

    /// Whether loading what stands before and behind the layers ends in `r`.
    pub open spec fn heads_end(
        self,
        place: Placement,
        eps: Single,
        r: Result<Heads<N, O>, Error>,
    ) -> bool {
        exists|t: Result<(usize, Tensor), Error>| #[trigger]
            self.table_ends(place.device, t) && match t {
                Err(e) => r == Err::<Heads<N, O>, Error>(e),
                Ok((rows, table)) => exists|n: Result<N, Error>| #[trigger]
                    self.norm_ends(eps, n) && match n {
                        Err(e) => r == Err::<Heads<N, O>, Error>(e),
                        Ok(norm) => exists|o: Result<O, Error>| #[trigger]
                            self.output_ends(rows, place.dtype, o) && match o {
                                Err(e) => r == Err::<Heads<N, O>, Error>(e),
                                Ok(output) => r == Ok::<Heads<N, O>, Error>(
                                    Heads { rows, table, norm, output },
                                ),
                            },
                    },
            }
    }

    /// Loads the embedding table.
    fn load_table(&self, device: &Device) -> (r: Result<(usize, Tensor), Error>)
        requires
            self.is_callable(),
        ensures
            self.table_ends(*device, r),
    {
        let q = match (self.get)(None, "token_embd.weight") {
            Ok(q) => q,
            Err(e) => return Err(e),
        };
        let dims = qtensor_dims(&q);
        assert(qtensor_value(*q).dims[0] == dims@[0]);
        let rows: usize = dims[0];
        match q.dequantize(device) {
            Ok(table) => Ok((rows, table)),
            Err(e) => Err(e),
        }
    }

    /// Loads what stands before and behind the layers.
    pub fn load_heads(&self, place: &Placement, eps: Single) -> (r: Result<Heads<N, O>, Error>)
        requires
            self.is_callable(),
        ensures
            self.heads_end(*place, eps, r),
    {
        let (rows, table) = match self.load_table(&place.device) {
            Ok(t) => t,
            Err(e) => return Err(e),
        };
        let q = match (self.get)(None, "output_norm.weight") {
            Ok(q) => q,
            Err(e) => {
                assert(self.norm_ends(eps, Err(e)));
                return Err(e);
            },
        };
        let n = (self.norm)(q, eps);
        assert(self.norm_ends(eps, n));
        let norm = match n {
            Ok(norm) => norm,
            Err(e) => return Err(e),
        };
        let own = (self.contains_key)("output.weight");
        let o = if own {
            (self.output)("output.weight", rows, place.dtype)
        } else {
            (self.output)("token_embd.weight", rows, place.dtype)
        };
        assert(self.output_ends(rows, place.dtype, o));
        match o {
            Ok(output) => Ok(Heads { rows, table, norm, output }),
            Err(e) => Err(e),
        }
    }

    /// Whether taking this rank's share of a feed-forward block's tensors ends in `r`: gating and
    /// the way up cut along the rows, the way down along the columns.
    pub open spec fn shares_end(
        self,
        prefix: &str,
        place: Placement,
        r: Result<(Arc<QTensor>, Arc<QTensor>, Arc<QTensor>), Error>,
    ) -> bool {
        let (rank, world) = (place.rank, place.world_size);
        exists|w1: Result<Arc<QTensor>, Error>| #[trigger]
            call_ensures(self.get_sharded, (prefix, "ffn_gate.weight", 0, rank, world), w1)
                && match w1 {
                Err(e) => r == Err::<(Arc<QTensor>, Arc<QTensor>, Arc<QTensor>), Error>(e),
                Ok(w1) => exists|w2: Result<Arc<QTensor>, Error>| #[trigger]
                    call_ensures(self.get_sharded, (prefix, "ffn_down.weight", 1, rank, world), w2)
                        && match w2 {
                        Err(e) => r == Err::<(Arc<QTensor>, Arc<QTensor>, Arc<QTensor>), Error>(e),
                        Ok(w2) => exists|w3: Result<Arc<QTensor>, Error>| #[trigger]
                            call_ensures(
                                self.get_sharded,
                                (prefix, "ffn_up.weight", 0, rank, world),
                                w3,
                            ) && match w3 {
                                Err(e) => r == Err::<
                                    (Arc<QTensor>, Arc<QTensor>, Arc<QTensor>),
                                    Error,
                                >(e),
                                Ok(w3) => r == Ok::<
                                    (Arc<QTensor>, Arc<QTensor>, Arc<QTensor>),
                                    Error,
                                >((w1, w2, w3)),
                            },
                    },
            }
    }

    /// Takes this rank's share of a feed-forward block's tensors.
    fn load_shares(&self, prefix: &str, place: &Placement) -> (r: Result<
        (Arc<QTensor>, Arc<QTensor>, Arc<QTensor>),
        Error,
    >)
        requires
            self.is_callable(),
        ensures
            self.shares_end(prefix, *place, r),
            r matches Ok((q1, q2, q3)) ==> is_filled(qtensor_value(*q1)) && is_filled(
                qtensor_value(*q2),
            ) && is_filled(qtensor_value(*q3)),
    {
        let (rank, world) = (place.rank, place.world_size);
        let w1 = match (self.get_sharded)(prefix, "ffn_gate.weight", 0, rank, world) {
            Ok(w1) => w1,
            Err(e) => return Err(e),
        };
        let w2 = match (self.get_sharded)(prefix, "ffn_down.weight", 1, rank, world) {
            Ok(w2) => w2,
            Err(e) => return Err(e),
        };
        let w3 = match (self.get_sharded)(prefix, "ffn_up.weight", 0, rank, world) {
            Ok(w3) => w3,
            Err(e) => return Err(e),
        };
        Ok((w1, w2, w3))
    }

    /// Whether making the feed-forward block ends in `r`. Its results are summed over the ranks
    /// where there are several and the engine can.
    pub open spec fn mlp_ends(
        self,
        prefix: &str,
        place: Placement,
        r: Result<Mlp<R>, Error>,
    ) -> bool {
        exists|q: Result<(Arc<QTensor>, Arc<QTensor>, Arc<QTensor>), Error>| #[trigger]
            self.shares_end(prefix, place, q) && match q {
                Err(e) => r == Err::<Mlp<R>, Error>(e),
                Ok((q1, q2, q3)) => exists|w1: Result<QMatMul, Error>| #[trigger]
                    weight_ends(*q1, w1) && match w1 {
                        Err(e) => r == Err::<Mlp<R>, Error>(e),
                        Ok(w1) => exists|w2: Result<QMatMul, Error>| #[trigger]
                            weight_ends(*q2, w2) && match w2 {
                                Err(e) => r == Err::<Mlp<R>, Error>(e),
                                Ok(w2) => exists|w3: Result<QMatMul, Error>| #[trigger]
                                    weight_ends(*q3, w3) && match w3 {
                                        Err(e) => r == Err::<Mlp<R>, Error>(e),
                                        Ok(w3) => r matches Ok(mlp) && self.is_mlp(
                                            w1,
                                            w2,
                                            w3,
                                            place,
                                            mlp,
                                        ),
                                    },
                            },
                    },
            }
    }

    /// Whether `mlp` is the block of these weights.
    pub open spec fn is_mlp(
        self,
        w1: QMatMul,
        w2: QMatMul,
        w3: QMatMul,
        place: Placement,
        mlp: Mlp<R>,
    ) -> bool {
        &&& mlp.feed_forward_w1 == w1
        &&& mlp.feed_forward_w2 == w2
        &&& mlp.feed_forward_w3 == w3
        &&& mlp.dtype == place.dtype
        &&& match mlp.all_reduce {
            Some(f) => place.nccl && place.world_size > 1 && call_ensures(self.all_reduce, (), f),
            None => !(place.nccl && place.world_size > 1),
        }
    }

    /// Makes the feed-forward block of the layer under a prefix.
    fn load_mlp(&self, prefix: &str, place: &Placement) -> (r: Result<Mlp<R>, Error>)
        requires
            self.is_callable(),
        ensures
            self.mlp_ends(prefix, *place, r),
    {
        let (q1, q2, q3) = match self.load_shares(prefix, place) {
            Ok(q) => q,
            Err(e) => return Err(e),
        };
        let feed_forward_w1 = match QMatMul::from_arc(q1) {
            Ok(w) => w,
            Err(e) => return Err(e),
        };
        let feed_forward_w2 = match QMatMul::from_arc(q2) {
            Ok(w) => w,
            Err(e) => return Err(e),
        };
        let feed_forward_w3 = match QMatMul::from_arc(q3) {
            Ok(w) => w,
            Err(e) => return Err(e),
        };
        let all_reduce = if place.nccl && place.world_size > 1 {
            Some((self.all_reduce)())
        } else {
            None
        };
        Ok(
            Mlp {
                feed_forward_w1,
                feed_forward_w2,
                feed_forward_w3,
                all_reduce,
                dtype: place.dtype,
            },
        )
    }

    /// Whether making the blocks of the layer under a prefix, behind its feed-forward block, ends
    /// in `r`: its attention, then its two norms.
    pub open spec fn blocks_end(
        self,
        cfg: Config<Real, Ratio>,
        prefix: &str,
        place: Placement,
        rotary: Arc<E>,
        eps: Single,
        r: Result<(A, N, N), Error>,
    ) -> bool {
        exists|qa: Result<Arc<QTensor>, Error>| #[trigger]
            call_ensures(self.get, (Some(prefix), "attn_norm.weight"), qa) && match qa {
                Err(e) => r == Err::<(A, N, N), Error>(e),
                Ok(qa) => exists|qf: Result<Arc<QTensor>, Error>| #[trigger]
                    call_ensures(self.get, (Some(prefix), "ffn_norm.weight"), qf) && match qf {
                        Err(e) => r == Err::<(A, N, N), Error>(e),
                        Ok(qf) => self.blocks_of_end(cfg, prefix, place, rotary, eps, qa, qf, r),
                    },
            }
    }

    /// Whether making a layer's attention, and its norms of the tensors `qa` and `qf`, ends in `r`.
    pub open spec fn blocks_of_end(
        self,
        cfg: Config<Real, Ratio>,
        prefix: &str,
        place: Placement,
        rotary: Arc<E>,
        eps: Single,
        qa: Arc<QTensor>,
        qf: Arc<QTensor>,
        r: Result<(A, N, N), Error>,
    ) -> bool {
        exists|a: Result<A, Error>| #[trigger]
            call_ensures(
                self.attention,
                (
                    &cfg,
                    prefix,
                    &place.device,
                    place.dtype,
                    rotary,
                    cfg.sliding_window,
                    place.rank,
                    place.world_size,
                ),
                a,
            ) && match a {
                Err(e) => r == Err::<(A, N, N), Error>(e),
                Ok(a) => exists|na: Result<N, Error>| #[trigger]
                    call_ensures(self.norm, (qa, eps), na) && match na {
                        Err(e) => r == Err::<(A, N, N), Error>(e),
                        Ok(na) => exists|nf: Result<N, Error>| #[trigger]
                            call_ensures(self.norm, (qf, eps), nf) && match nf {
                                Err(e) => r == Err::<(A, N, N), Error>(e),
                                Ok(nf) => r == Ok::<(A, N, N), Error>((a, na, nf)),
                            },
                    },
            }
    }

    /// Makes a layer's attention, and its norms of the tensors `qa` and `qf`.
    fn make_blocks(
        &self,
        cfg: &Config<Real, Ratio>,
        prefix: &str,
        place: &Placement,
        rotary: Arc<E>,
        eps: Single,
        qa: Arc<QTensor>,
        qf: Arc<QTensor>,
    ) -> (r: Result<(A, N, N), Error>)
        requires
            self.is_callable(),
        ensures
            self.blocks_of_end(*cfg, prefix, *place, rotary, eps, qa, qf, r),
    {
        let a = match (self.attention)(
            cfg,
            prefix,
            &place.device,
            place.dtype,
            rotary,
            cfg.sliding_window,
            place.rank,
            place.world_size,
        ) {
            Ok(a) => a,
            Err(e) => return Err(e),
        };
        let na = match (self.norm)(qa, eps) {
            Ok(n) => n,
            Err(e) => return Err(e),
        };
        let nf = match (self.norm)(qf, eps) {
            Ok(n) => n,
            Err(e) => return Err(e),
        };
        Ok((a, na, nf))
    }

    /// Makes the blocks of the layer under a prefix, behind its feed-forward block.
    fn load_blocks(
        &self,
        cfg: &Config<Real, Ratio>,
        prefix: &str,
        place: &Placement,
        rotary: Arc<E>,
        eps: Single,
    ) -> (r: Result<(A, N, N), Error>)
        requires
            self.is_callable(),
        ensures
            self.blocks_end(*cfg, prefix, *place, rotary, eps, r),
    {
        let qa = match (self.get)(Some(prefix), "attn_norm.weight") {
            Ok(q) => q,
            Err(e) => return Err(e),
        };
        let qf = match (self.get)(Some(prefix), "ffn_norm.weight") {
            Ok(q) => q,
            Err(e) => return Err(e),
        };
        self.make_blocks(cfg, prefix, place, rotary, eps, qa, qf)
    }

    /// Whether loading the layer `index` ends in `r`.
    pub open spec fn layer_ends(
        self,
        cfg: Config<Real, Ratio>,
        index: nat,
        place: Placement,
        rotary: Arc<E>,
        eps: Single,
        r: Result<LayerWeights<N, A, R>, Error>,
    ) -> bool {
        exists|prefix: &str| #[trigger]
            self.layer_under_ends(cfg, prefix, place, rotary, eps, r) && prefix@ == layer_prefix(
                index,
            )
    }

    /// Whether loading the layer under a prefix ends in `r`.
    pub open spec fn layer_under_ends(
        self,
        cfg: Config<Real, Ratio>,
        prefix: &str,
        place: Placement,
        rotary: Arc<E>,
        eps: Single,
        r: Result<LayerWeights<N, A, R>, Error>,
    ) -> bool {
        exists|m: Result<Mlp<R>, Error>| #[trigger]
            self.mlp_ends(prefix, place, m) && match m {
                Err(e) => r == Err::<LayerWeights<N, A, R>, Error>(e),
                Ok(mlp) => exists|b: Result<(A, N, N), Error>| #[trigger]
                    self.blocks_end(cfg, prefix, place, rotary, eps, b) && match b {
                        Err(e) => r == Err::<LayerWeights<N, A, R>, Error>(e),
                        Ok((self_attn, attention_norm, ffn_norm)) => r == Ok::<
                            LayerWeights<N, A, R>,
                            Error,
                        >(LayerWeights { self_attn, attention_norm, mlp, ffn_norm }),
                    },
            }
    }

    /// Loads the layer `index`.
    pub fn load_layer(
        &self,
        cfg: &Config<Real, Ratio>,
        index: usize,
        place: &Placement,
        rotary: Arc<E>,
        eps: Single,
    ) -> (r: Result<LayerWeights<N, A, R>, Error>)
        requires
            self.is_callable(),
        ensures
            self.layer_ends(*cfg, index as nat, *place, rotary, eps, r),
    {
        let name = layer_prefix_string(index);
        let prefix = name.as_str();
        let mlp = match self.load_mlp(prefix, place) {
            Ok(mlp) => mlp,
            Err(e) => {
                assert(self.layer_under_ends(*cfg, prefix, *place, rotary, eps, Err(e)));
                return Err(e);
            },
        };
        let ghost shared = rotary;
        let (self_attn, attention_norm, ffn_norm) = match self.load_blocks(
            cfg,
            prefix,
            place,
            rotary,
            eps,
        ) {
            Ok(b) => b,
            Err(e) => {
                assert(self.layer_under_ends(*cfg, prefix, *place, shared, eps, Err(e)));
                return Err(e);
            },
        };
        let layer = LayerWeights { self_attn, attention_norm, mlp, ffn_norm };
        assert(self.layer_under_ends(*cfg, prefix, *place, shared, eps, Ok(layer)));
        Ok(layer)
    }

    /// Whether `layers` are the first layers.
    pub open spec fn are_layers(
        self,
        cfg: Config<Real, Ratio>,
        place: Placement,
        rotary: Arc<E>,
        eps: Single,
        layers: Seq<LayerWeights<N, A, R>>,
    ) -> bool {
        forall|i: int|
            0 <= i < layers.len() ==> self.layer_ends(
                cfg,
                i as nat,
                place,
                rotary,
                eps,
                Ok(#[trigger] layers[i]),
            )
    }

    /// Whether loading `count` layers ends in `r`, and `told` are the numbers that are told
    /// meanwhile: after each layer, how many there are. The first layer that cannot be loaded ends
    /// it.
    pub open spec fn layers_end(
        self,
        cfg: Config<Real, Ratio>,
        count: usize,
        place: Placement,
        rotary: Arc<E>,
        eps: Single,
        told: Seq<usize>,
        r: Result<Vec<LayerWeights<N, A, R>>, Error>,
    ) -> bool {
        match r {
            Ok(layers) => {
                &&& layers@.len() == count
                &&& told == counted(count as nat)
                &&& self.are_layers(cfg, place, rotary, eps, layers@)
            },
            Err(e) => exists|built: Seq<LayerWeights<N, A, R>>|
                {
                    &&& #[trigger] self.are_layers(cfg, place, rotary, eps, built)
                    &&& built.len() < count
                    &&& told == counted(built.len())
                    &&& self.layer_ends(cfg, built.len(), place, rotary, eps, Err(e))
                },
        }
    }

    /// Loads the layers one after the other, and tells after each how many there are.
    pub fn load_layers<PF>(
        &self,
        cfg: &Config<Real, Ratio>,
        count: usize,
        place: &Placement,
        rotary: Arc<E>,
        eps: Single,
        progress_reporter: &mut ProgressReporter<PF>,
    ) -> (r: Result<Vec<LayerWeights<N, A, R>>, Error>) where PF: Fn(usize)
        requires
            self.is_callable(),
            old(progress_reporter).is_callable(),
        ensures
            exists|told: Seq<usize>| #[trigger]
                old(progress_reporter).hears(told, *final(progress_reporter)) && self.layers_end(
                    *cfg,
                    count,
                    *place,
                    rotary,
                    eps,
                    told,
                    r,
                ),
    {
        let ghost start = *progress_reporter;
        let mut layers: Vec<LayerWeights<N, A, R>> = Vec::new();
        let mut i: usize = 0;
        proof {
            start.hears_nothing();
            assert(counted(0) =~= Seq::<usize>::empty());
        }
        while i < count
            invariant
                i <= count,
                self.is_callable(),
                start.is_callable(),
                start == *old(progress_reporter),
                start.hears(counted(i as nat), *progress_reporter),
                layers@.len() == i,
                self.are_layers(*cfg, *place, rotary, eps, layers@),
            decreases count - i,
        {
            let layer = match self.load_layer(cfg, i, place, rotary.clone(), eps) {
                Ok(layer) => layer,
                Err(e) => {
                    assert(self.layers_end(
                        *cfg,
                        count,
                        *place,
                        rotary,
                        eps,
                        counted(i as nat),
                        Err(e),
                    ));
                    return Err(e);
                },
            };
            layers.push(layer);
            assert(progress_reporter.is_callable());
            progress_reporter.set_progress(i + 1);
            proof {
                let next = (i + 1) as nat;
                assert(counted(i as nat).push((i + 1) as usize) =~= counted(next));
                assert(progress_reporter.told() =~= start.told() + counted(next));
            }
            i = i + 1;
        }
        Ok(layers)
    }
}

} // verus!
