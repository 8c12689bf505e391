//! What holds of a pass row by row and column by column.

use crate::batch::{last_rows_end, last_tokens, InputMetadata};
use crate::laws::{
    keeps_the_rows, keeps_the_shape, logits_are_the_first_columns, parts_of_a_forward_pass,
};
use crate::logits::{cut_logits_end, flat_logits_end};
use crate::mlp_laws::repeats;
use crate::model::GGUFQWen;
use crate::tensor::{
    as_f32, elem_count, embed_ends, is_row_major, is_stored, is_whole, narrowed, read_ends,
    row_len, select_ends, selected, tensor_value, u32_tensor_ends, u32_vector, TensorValue,
};
use candle_core::quantized::QMatMul;
use candle_core::{DType, Device, Error, Tensor};
use vstd::arithmetic::div_mod::lemma_fundamental_div_mod_converse;
use vstd::prelude::*;

verus! {

/// The number of elements is that of a row, once for each index of the outermost dimension.
proof fn elements_by_rows(dims: Seq<nat>)
    requires
        dims.len() > 0,
    ensures
        elem_count(dims) == dims[0] * row_len(dims),
    decreases dims.len(),
{
    if dims.len() == 1 {
        assert(dims.drop_last() =~= Seq::<nat>::empty());
        assert(dims.drop_first() =~= Seq::<nat>::empty());
    } else {
        elements_by_rows(dims.drop_last());
        let (first, last) = (dims[0], dims.last());
        let middle = elem_count(dims.drop_last().drop_first());
        assert(dims.drop_first().drop_last() =~= dims.drop_last().drop_first());
        assert(dims.drop_first().last() == last);
        assert(last * (first * middle) == first * (last * middle)) by (nonlinear_arith);
    }
}

/// Whether `ids` are rows of `v`.
pub open spec fn are_rows(v: TensorValue, ids: Seq<int>) -> bool {
    &&& v.dims.len() > 0
    &&& forall|i: int| 0 <= i < ids.len() ==> 0 <= #[trigger] ids[i] < v.dims[0]
}

/// Taking rows and keeping the first columns can be done in either order.
pub proof fn selecting_and_narrowing_commute(v: TensorValue, ids: Seq<int>, len: nat)
    requires
        v.dims.len() > 1,
        len <= v.dims.last(),
        are_rows(v, ids),
    ensures
        narrowed(selected(v, ids), len) == selected(narrowed(v, len), ids),
{
    let (a, b) = (narrowed(selected(v, ids), len), selected(narrowed(v, len), ids));
    let w = v.dims.last();
    let inner = v.dims.drop_first();
    let m = elem_count(inner.drop_last());
    let n = ids.len();
    assert(a.dims =~= b.dims);
    assert(selected(v, ids).dims.last() == w);
    assert(row_len(v.dims) == w * m) by {
        assert(inner.last() == w);
    }
    assert(row_len(narrowed(v, len).dims) == len * m) by {
        let cut = narrowed(v, len).dims.drop_first();
        assert(cut.last() == len);
        assert(cut.drop_last() =~= inner.drop_last());
    }
    assert(elem_count(selected(v, ids).dims.drop_last()) == n * m) by {
        let rows = selected(v, ids).dims.drop_last();
        elements_by_rows(rows);
        assert(rows.drop_first() =~= inner.drop_last());
        assert(rows[0] == n);
    }
    assert((n * m) * len == n * (len * m)) by (nonlinear_arith);
    assert forall|k: int| 0 <= k < n * (len * m) implies a.elems[k] == b.elems[k] by {
        assert(len > 0 && m > 0) by (nonlinear_arith)
            requires
                0 <= k < n * (len * m),
                len >= 0,
                m >= 0,
        ;
        let (c, t) = (k % len as int, k / len as int);
        let (q, r) = (t % m as int, t / m as int);
        assert(0 <= c < len && k == t * len + c && 0 <= t) by (nonlinear_arith)
            requires
                0 <= k,
                len > 0,
                c == k % len as int,
                t == k / len as int,
        ;
        assert(0 <= q < m && t == r * m + q && 0 <= r) by (nonlinear_arith)
            requires
                0 <= t,
                m > 0,
                q == t % m as int,
                r == t / m as int,
        ;
        assert(r < n) by (nonlinear_arith)
            requires
                k < n * (len * m),
                k == (r * m + q) * len + c,
                q >= 0,
                c >= 0,
                len > 0,
                m > 0,
        ;
        // Behind the selection, the element stands in row `r`, at `q * w + c`.
        let j = t * w + c;
        assert(j == r * (w * m) + (q * w + c)) by (nonlinear_arith)
            requires
                j == t * w + c,
                t == r * m + q,
        ;
        assert(0 <= q * w + c < w * m) by (nonlinear_arith)
            requires
                0 <= q < m,
                0 <= c < len,
                len <= w,
        ;
        lemma_fundamental_div_mod_converse(j, (w * m) as int, r, q * w + c);
        assert(0 <= j < n * (w * m)) by (nonlinear_arith)
            requires
                j == r * (w * m) + (q * w + c),
                0 <= r < n,
                0 <= q * w + c < w * m,
        ;
        assert(a.elems[k] == v.elems[ids[r] * (w * m) + (q * w + c)]);
        // Behind the cut, it stands in row `r`, at `q * len + c`.
        assert(k == r * (len * m) + (q * len + c)) by (nonlinear_arith)
            requires
                k == t * len + c,
                t == r * m + q,
        ;
        assert(0 <= q * len + c < len * m) by (nonlinear_arith)
            requires
                0 <= q < m,
                0 <= c < len,
        ;
        lemma_fundamental_div_mod_converse(k, (len * m) as int, r, q * len + c);
        let p = ids[r] * (len * m) + (q * len + c);
        assert(p == (ids[r] * m + q) * len + c) by (nonlinear_arith)
            requires
                p == ids[r] * (len * m) + (q * len + c),
        ;
        lemma_fundamental_div_mod_converse(p, len as int, ids[r] * m + q, c);
        assert(elem_count(v.dims.drop_last()) == v.dims[0] * m) by {
            elements_by_rows(v.dims.drop_last());
            assert(v.dims.drop_last().drop_first() =~= inner.drop_last());
        }
        assert(0 <= p < (v.dims[0] * m) * len) by (nonlinear_arith)
            requires
                p == (ids[r] * m + q) * len + c,
                0 <= ids[r] < v.dims[0],
                0 <= q < m,
                0 <= c < len,
        ;
        assert((ids[r] * m + q) * w + c == ids[r] * (w * m) + (q * w + c)) by (nonlinear_arith);
    }
    assert(a.elems =~= b.elems);
}

/// Taking rows and converting to 32-bit floats can be done in either order.
proof fn selecting_and_converting_commute(v: TensorValue, ids: Seq<int>)
    requires
        is_whole(v),
        are_rows(v, ids),
    ensures
        as_f32(selected(v, ids)) == selected(as_f32(v), ids),
{
    let (a, b) = (as_f32(selected(v, ids)), selected(as_f32(v), ids));
    let l = row_len(v.dims);
    let n = ids.len();
    elements_by_rows(v.dims);
    assert forall|k: int| 0 <= k < n * l implies a.elems[k] == b.elems[k] by {
        assert(l > 0) by (nonlinear_arith)
            requires
                0 <= k < n * l,
                l >= 0,
        ;
        let (r, c) = (k / l as int, k % l as int);
        assert(0 <= r < n && 0 <= c < l) by (nonlinear_arith)
            requires
                0 <= k < n * l,
                l > 0,
                r == k / l as int,
                c == k % l as int,
        ;
        assert(0 <= ids[r] * l + c < v.dims[0] * l) by (nonlinear_arith)
            requires
                0 <= ids[r] < v.dims[0],
                0 <= c < l,
        ;
    }
    assert(a.elems =~= b.elems);
}

/// The first columns of a tensor are as many elements as their shape counts.
proof fn narrowing_keeps_it_whole(v: TensorValue, len: nat)
    requires
        v.dims.len() > 0,
    ensures
        is_whole(narrowed(v, len)),
{
    let dims = narrowed(v, len).dims;
    assert(dims.drop_last() =~= v.dims.drop_last());
    assert(elem_count(v.dims.drop_last()) * len == len * elem_count(v.dims.drop_last()))
        by (nonlinear_arith);
}

/// All columns are the tensor itself.
pub proof fn all_columns_are_the_whole(v: TensorValue)
    requires
        is_whole(v),
        v.dims.len() > 0,
    ensures
        narrowed(v, v.dims.last()) == v,
{
    let w = v.dims.last();
    let n = elem_count(v.dims.drop_last());
    let a = narrowed(v, w);
    assert(a.dims =~= v.dims);
    assert(n * w == w * n) by (nonlinear_arith);
    assert forall|k: int| 0 <= k < n * w implies a.elems[k] == v.elems[k] by {
        assert(w > 0) by (nonlinear_arith)
            requires
                0 <= k < n * w,
                w >= 0,
        ;
        assert((k / w as int) * w + k % w as int == k) by (nonlinear_arith)
            requires
                w > 0,
        ;
    }
    assert(a.elems =~= v.elems);
}

/// Logits fail only where the vocabulary is wider than the projection.
pub proof fn logits_fail_only_where_the_vocabulary_is_wider(
    p: Tensor,
    vocab: nat,
    r: Result<Tensor, Error>,
)
    requires
        is_stored(tensor_value(p).dtype),
        tensor_value(p).dims.len() > 0,
        cut_logits_end(p, vocab, r) || flat_logits_end(p, vocab, r),
    ensures
        r is Ok == (tensor_value(p).dims.last() >= vocab),
{
}

/// Where the vocabulary is as wide as the projection, all of its columns come back, as 32-bit
/// floats.
pub proof fn all_columns_come_back(p: Tensor, r: Result<Tensor, Error>)
    requires
        is_stored(tensor_value(p).dtype),
        is_whole(tensor_value(p)),
        tensor_value(p).dims.len() > 0,
        cut_logits_end(p, tensor_value(p).dims.last(), r) || flat_logits_end(
            p,
            tensor_value(p).dims.last(),
            r,
        ),
    ensures
        r matches Ok(logits) && tensor_value(logits) == as_f32(tensor_value(p)),
{
    let width = tensor_value(p).dims.last();
    logits_fail_only_where_the_vocabulary_is_wider(p, width, r);
    logits_are_the_first_columns(p, width, r->Ok_0);
    all_columns_are_the_whole(tensor_value(p));
}

/// Whether `f` succeeds on every tensor and gives one of `width` columns, in a type that candle can
/// store.
pub open spec fn projects_to<O>(f: O, width: nat) -> bool where
    O: Fn(&Tensor) -> Result<Tensor, Error>,
 {
    forall|t: &Tensor, p: Result<Tensor, Error>| #[trigger]
        call_ensures(f, (t,), p) ==> {
            &&& p is Ok
            &&& is_stored(tensor_value(p->Ok_0).dtype)
            &&& tensor_value(p->Ok_0).dims.len() > 0
            &&& tensor_value(p->Ok_0).dims.last() == width
        }
}

/// Behind the layers, with a norm and a projection that succeed, a pass fails only where the
/// vocabulary is wider than the projection, and never where the activations are asked for.
pub proof fn a_pass_fails_only_where_the_vocabulary_is_wider<N, A, O, R, M, F>(
    model: GGUFQWen<N, A, O, R, M, F>,
    s: Tensor,
    width: nat,
    logits: Result<Tensor, Error>,
    hidden: Result<Tensor, Error>,
) where
    N: Fn(&Tensor) -> Result<Tensor, Error>,
    O: Fn(&Tensor) -> Result<Tensor, Error>,
    R: Fn(&Tensor) -> Result<Tensor, Error>,
    M: Fn(&Device, DType, &Tensor, &Vec<u32>, Option<usize>, bool) -> Option<Vec<Tensor>>,
    F: Fn(&QMatMul, &QMatMul, &Tensor) -> Result<Option<Tensor>, Error>,

    requires
        forall|h: Result<Tensor, Error>| #[trigger]
            call_ensures(model.norm, (&s,), h) ==> h is Ok,
        projects_to(model.output, width),
        model.head_ends(s, false, logits),
        model.head_ends(s, true, hidden),
    ensures
        logits is Ok == (model.true_vocab_size <= width),
        hidden is Ok,
{
    let h = choose|h: Result<Tensor, Error>| #[trigger]
        call_ensures(model.norm, (&s,), h) && match h {
            Err(e) => logits == Err::<Tensor, Error>(e),
            Ok(h) => model.logits_end(h, logits),
        };
    let t = h->Ok_0;
    let p = choose|p: Result<Tensor, Error>| #[trigger]
        call_ensures(model.output, (&t,), p) && match p {
            Err(e) => logits == Err::<Tensor, Error>(e),
            Ok(p) => cut_logits_end(p, model.true_vocab_size as nat, logits),
        };
    logits_fail_only_where_the_vocabulary_is_wider(
        p->Ok_0,
        model.true_vocab_size as nat,
        logits,
    );
}

/// Behind the norm, with a projection that succeeds, decoding from embeddings fails only where the
/// vocabulary is wider than the projection.
pub proof fn decoding_fails_only_where_the_vocabulary_is_wider<N, A, O, R, M, F>(
    model: GGUFQWen<N, A, O, R, M, F>,
    hidden: Tensor,
    width: nat,
    r: Result<(Tensor, Tensor), Error>,
) where
    N: Fn(&Tensor) -> Result<Tensor, Error>,
    O: Fn(&Tensor) -> Result<Tensor, Error>,
    R: Fn(&Tensor) -> Result<Tensor, Error>,
    M: Fn(&Device, DType, &Tensor, &Vec<u32>, Option<usize>, bool) -> Option<Vec<Tensor>>,
    F: Fn(&QMatMul, &QMatMul, &Tensor) -> Result<Option<Tensor>, Error>,

    requires
        projects_to(model.output, width),
        model.flat_head_ends(hidden, r),
    ensures
        r is Ok == (model.true_vocab_size <= width),
{
    let p = choose|p: Result<Tensor, Error>| #[trigger]
        call_ensures(model.output, (&hidden,), p) && match p {
            Err(e) => r == Err::<(Tensor, Tensor), Error>(e),
            Ok(p) => exists|l: Result<Tensor, Error>| #[trigger]
                flat_logits_end(p, model.true_vocab_size as nat, l) && match l {
                    Err(e) => r == Err::<(Tensor, Tensor), Error>(e),
                    Ok(l) => r == Ok::<(Tensor, Tensor), Error>((l, hidden)),
                },
        };
    let q = p->Ok_0;
    let l = choose|l: Result<Tensor, Error>| #[trigger]
        flat_logits_end(q, model.true_vocab_size as nat, l) && match l {
            Err(e) => r == Err::<(Tensor, Tensor), Error>(e),
            Ok(l) => r == Ok::<(Tensor, Tensor), Error>((l, hidden)),
        };
    logits_fail_only_where_the_vocabulary_is_wider(q, model.true_vocab_size as nat, l);
}

/// Projections that are equal in the first columns give equal logits, cut in either way.
pub proof fn equal_columns_give_equal_logits(
    p: Tensor,
    q: Tensor,
    vocab: nat,
    a: Tensor,
    b: Tensor,
)
    requires
        narrowed(tensor_value(p), vocab) == narrowed(tensor_value(q), vocab),
        cut_logits_end(p, vocab, Ok(a)) || flat_logits_end(p, vocab, Ok(a)),
        cut_logits_end(q, vocab, Ok(b)) || flat_logits_end(q, vocab, Ok(b)),
    ensures
        tensor_value(a) == tensor_value(b),
{
    logits_are_the_first_columns(p, vocab, a);
    logits_are_the_first_columns(q, vocab, b);
}

/// Whether two projections agree on the first columns of what they make of equal activations.
pub open spec fn agree_on_columns<O, P>(f: O, g: P, vocab: nat) -> bool where
    O: Fn(&Tensor) -> Result<Tensor, Error>,
    P: Fn(&Tensor) -> Result<Tensor, Error>,
 {
    forall|t: &Tensor, u: &Tensor, p: Tensor, q: Tensor|
        #![trigger call_ensures(f, (t,), Ok(p)), call_ensures(g, (u,), Ok(q))]
        call_ensures(f, (t,), Ok(p)) && call_ensures(g, (u,), Ok(q)) && tensor_value(*t)
            == tensor_value(*u) ==> narrowed(tensor_value(p), vocab) == narrowed(
            tensor_value(q),
            vocab,
        )
}

/// Whether a pass over the tokens `x`, in which the layers gave `s`, ends in `r`.
pub open spec fn pass_runs<N, A, O, R, M, F, X>(
    model: GGUFQWen<N, A, O, R, M, F>,
    x: Tensor,
    input_positions: Tensor,
    kv_caches: Option<&Vec<(Tensor, Tensor)>>,
    input_metadata: InputMetadata<X>,
    return_hidden: bool,
    s: Tensor,
    r: Result<Tensor, Error>,
) -> bool where
    N: Fn(&Tensor) -> Result<Tensor, Error>,
    R: Fn(&Tensor) -> Result<Tensor, Error>,
    O: Fn(&Tensor) -> Result<Tensor, Error>,
    M: Fn(&Device, DType, &Tensor, &Vec<u32>, Option<usize>, bool) -> Option<Vec<Tensor>>,
    A: Fn(
        &Tensor,
        Option<&Vec<Tensor>>,
        &Tensor,
        Option<(&Tensor, &Tensor)>,
        &InputMetadata<X>,
    ) -> Result<Tensor, Error>,
    F: Fn(&QMatMul, &QMatMul, &Tensor) -> Result<Option<Tensor>, Error>,
 {
    exists|ends: Vec<u32>, e: Tensor|
        {
            &&& #[trigger] input_metadata.sequence_ends_end(Ok(ends))
            &&& #[trigger] embed_ends(model.tok_embeddings, x, Ok(e))
            &&& model.stack_ends(e, input_positions, kv_caches, input_metadata, Ok(s))
            &&& model.tail_ends(ends@, s, return_hidden, r)
        }
}

/// A pass that succeeds has run its layers.
pub proof fn a_pass_runs_its_layers<N, A, O, R, M, F, X>(
    model: GGUFQWen<N, A, O, R, M, F>,
    x: Tensor,
    input_positions: Tensor,
    kv_caches: Option<&Vec<(Tensor, Tensor)>>,
    input_metadata: InputMetadata<X>,
    return_hidden: bool,
    y: Tensor,
) where
    N: Fn(&Tensor) -> Result<Tensor, Error>,
    R: Fn(&Tensor) -> Result<Tensor, Error>,
    O: Fn(&Tensor) -> Result<Tensor, Error>,
    M: Fn(&Device, DType, &Tensor, &Vec<u32>, Option<usize>, bool) -> Option<Vec<Tensor>>,
    A: Fn(
        &Tensor,
        Option<&Vec<Tensor>>,
        &Tensor,
        Option<(&Tensor, &Tensor)>,
        &InputMetadata<X>,
    ) -> Result<Tensor, Error>,
    F: Fn(&QMatMul, &QMatMul, &Tensor) -> Result<Option<Tensor>, Error>,

    requires
        model.inner_ends(x, input_positions, kv_caches, input_metadata, return_hidden, Ok(y)),
    ensures
        exists|s: Tensor| #[trigger]
            pass_runs(
                model,
                x,
                input_positions,
                kv_caches,
                input_metadata,
                return_hidden,
                s,
                Ok(y),
            ),
{
    let (ends, e, s) = parts_of_a_forward_pass(
        model,
        x,
        input_positions,
        kv_caches,
        input_metadata,
        return_hidden,
        y,
    );
    assert(pass_runs(
        model,
        x,
        input_positions,
        kv_caches,
        input_metadata,
        return_hidden,
        s,
        Ok(y),
    ));
}

/// Whether decoding from embeddings, in which the layers gave `s`, ends in `r`.
pub open spec fn decoding_runs<N, A, O, R, M, F, X>(
    model: GGUFQWen<N, A, O, R, M, F>,
    embeddings: Tensor,
    input_positions: Tensor,
    kv_caches: Option<&Vec<(Tensor, Tensor)>>,
    input_metadata: InputMetadata<X>,
    s: Tensor,
    r: Result<(Tensor, Tensor), Error>,
) -> bool where
    N: Fn(&Tensor) -> Result<Tensor, Error>,
    R: Fn(&Tensor) -> Result<Tensor, Error>,
    O: Fn(&Tensor) -> Result<Tensor, Error>,
    M: Fn(&Device, DType, &Tensor, &Vec<u32>, Option<usize>, bool) -> Option<Vec<Tensor>>,
    A: Fn(
        &Tensor,
        Option<&Vec<Tensor>>,
        &Tensor,
        Option<(&Tensor, &Tensor)>,
        &InputMetadata<X>,
    ) -> Result<Tensor, Error>,
    F: Fn(&QMatMul, &QMatMul, &Tensor) -> Result<Option<Tensor>, Error>,
 {
    &&& model.stack_ends(embeddings, input_positions, kv_caches, input_metadata, Ok(s))
    &&& exists|h: Result<Tensor, Error>| #[trigger]
        call_ensures(model.norm, (&s,), h) && match h {
            Err(e) => r == Err::<(Tensor, Tensor), Error>(e),
            Ok(h) => model.flat_head_ends(h, r),
        }
}

/// Decoding that succeeds has run its layers.
pub proof fn decoding_runs_its_layers<N, A, O, R, M, F, X>(
    model: GGUFQWen<N, A, O, R, M, F>,
    embeddings: Tensor,
    input_positions: Tensor,
    kv_caches: Option<&Vec<(Tensor, Tensor)>>,
    input_metadata: InputMetadata<X>,
    logits: Tensor,
    hidden: Tensor,
) where
    N: Fn(&Tensor) -> Result<Tensor, Error>,
    R: Fn(&Tensor) -> Result<Tensor, Error>,
    O: Fn(&Tensor) -> Result<Tensor, Error>,
    M: Fn(&Device, DType, &Tensor, &Vec<u32>, Option<usize>, bool) -> Option<Vec<Tensor>>,
    A: Fn(
        &Tensor,
        Option<&Vec<Tensor>>,
        &Tensor,
        Option<(&Tensor, &Tensor)>,
        &InputMetadata<X>,
    ) -> Result<Tensor, Error>,
    F: Fn(&QMatMul, &QMatMul, &Tensor) -> Result<Option<Tensor>, Error>,

    requires
        model.from_embeddings_ends(
            embeddings,
            input_positions,
            kv_caches,
            input_metadata,
            Ok((logits, hidden)),
        ),
    ensures
        exists|s: Tensor| #[trigger]
            decoding_runs(
                model,
                embeddings,
                input_positions,
                kv_caches,
                input_metadata,
                s,
                Ok((logits, hidden)),
            ),
{
    let r = Ok::<(Tensor, Tensor), Error>((logits, hidden));
    let s = choose|s: Result<Tensor, Error>| #[trigger]
        model.stack_ends(embeddings, input_positions, kv_caches, input_metadata, s) && match s {
            Err(e) => false,
            Ok(s) => exists|h: Result<Tensor, Error>| #[trigger]
                call_ensures(model.norm, (&s,), h) && match h {
                    Err(e) => false,
                    Ok(h) => model.flat_head_ends(h, r),
                },
        };
    let t = s->Ok_0;
    assert(model.stack_ends(embeddings, input_positions, kv_caches, input_metadata, Ok(t)));
    assert(decoding_runs(
        model,
        embeddings,
        input_positions,
        kv_caches,
        input_metadata,
        t,
        r,
    ));
}

/// What decoding went through: the projection that its logits are cut from.
proof fn projection_of_decoding<N, A, O, R, M, F, X>(
    model: GGUFQWen<N, A, O, R, M, F>,
    embeddings: Tensor,
    input_positions: Tensor,
    kv_caches: Option<&Vec<(Tensor, Tensor)>>,
    input_metadata: InputMetadata<X>,
    s: Tensor,
    logits: Tensor,
    hidden: Tensor,
) -> (p: Tensor) where
    N: Fn(&Tensor) -> Result<Tensor, Error>,
    R: Fn(&Tensor) -> Result<Tensor, Error>,
    O: Fn(&Tensor) -> Result<Tensor, Error>,
    M: Fn(&Device, DType, &Tensor, &Vec<u32>, Option<usize>, bool) -> Option<Vec<Tensor>>,
    A: Fn(
        &Tensor,
        Option<&Vec<Tensor>>,
        &Tensor,
        Option<(&Tensor, &Tensor)>,
        &InputMetadata<X>,
    ) -> Result<Tensor, Error>,
    F: Fn(&QMatMul, &QMatMul, &Tensor) -> Result<Option<Tensor>, Error>,

    requires
        decoding_runs(
            model,
            embeddings,
            input_positions,
            kv_caches,
            input_metadata,
            s,
            Ok((logits, hidden)),
        ),
    ensures
        call_ensures(model.norm, (&s,), Ok(hidden)),
        call_ensures(model.output, (&hidden,), Ok(p)),
        flat_logits_end(p, model.true_vocab_size as nat, Ok(logits)),
{
    let r = Ok::<(Tensor, Tensor), Error>((logits, hidden));
    let h = choose|h: Result<Tensor, Error>| #[trigger]
        call_ensures(model.norm, (&s,), h) && match h {
            Err(e) => false,
            Ok(h) => model.flat_head_ends(h, r),
        };
    let p = choose|p: Result<Tensor, Error>| #[trigger]
        call_ensures(model.output, (&hidden,), p) && match p {
            Err(e) => false,
            Ok(p) => exists|l: Result<Tensor, Error>| #[trigger]
                flat_logits_end(p, model.true_vocab_size as nat, l) && match l {
                    Err(e) => false,
                    Ok(l) => r == Ok::<(Tensor, Tensor), Error>((l, hidden)),
                },
        };
    assert(h == Ok::<Tensor, Error>(hidden));
    p->Ok_0
}

/// Whether `f` works row by row: of rows it makes the rows that it makes of them among others.
pub open spec fn works_row_by_row<N>(f: N) -> bool where N: Fn(&Tensor) -> Result<Tensor, Error> {
    forall|
        t: &Tensor,
        u: &Tensor,
        y: Result<Tensor, Error>,
        z: Result<Tensor, Error>,
        ids: Seq<int>,
    |
        #![trigger call_ensures(f, (t,), y), call_ensures(f, (u,), z),
            selected(tensor_value(*t), ids)]
        call_ensures(f, (t,), y) && call_ensures(f, (u,), z) && are_rows(tensor_value(*t), ids)
            && tensor_value(*u) == selected(tensor_value(*t), ids) && y is Ok ==> z is Ok
            && tensor_value(z->Ok_0) == selected(tensor_value(y->Ok_0), ids)
}

/// What pads the projection plays no part in decoding: two runs in which the layers gave the same,
/// with one norm and with projections that differ in columns behind the vocabulary only, give equal
/// logits and activations, and no more columns than the vocabulary has tokens.
pub proof fn padding_plays_no_part<N, A, O, P, R, M, F, X>(
    a: GGUFQWen<N, A, O, R, M, F>,
    b: GGUFQWen<N, A, P, R, M, F>,
    embeddings: Tensor,
    input_positions: Tensor,
    kv_caches: Option<&Vec<(Tensor, Tensor)>>,
    other_caches: Option<&Vec<(Tensor, Tensor)>>,
    input_metadata: InputMetadata<X>,
    s: Tensor,
    logits: Tensor,
    hidden: Tensor,
    t: Tensor,
    other_logits: Tensor,
    other_hidden: Tensor,
) where
    N: Fn(&Tensor) -> Result<Tensor, Error>,
    R: Fn(&Tensor) -> Result<Tensor, Error>,
    O: Fn(&Tensor) -> Result<Tensor, Error>,
    P: Fn(&Tensor) -> Result<Tensor, Error>,
    M: Fn(&Device, DType, &Tensor, &Vec<u32>, Option<usize>, bool) -> Option<Vec<Tensor>>,
    A: Fn(
        &Tensor,
        Option<&Vec<Tensor>>,
        &Tensor,
        Option<(&Tensor, &Tensor)>,
        &InputMetadata<X>,
    ) -> Result<Tensor, Error>,
    F: Fn(&QMatMul, &QMatMul, &Tensor) -> Result<Option<Tensor>, Error>,

    requires
        a.norm == b.norm,
        repeats(a.norm),
        a.true_vocab_size == b.true_vocab_size,
        agree_on_columns(a.output, b.output, a.true_vocab_size as nat),
        decoding_runs(
            a,
            embeddings,
            input_positions,
            kv_caches,
            input_metadata,
            s,
            Ok((logits, hidden)),
        ),
        decoding_runs(
            b,
            embeddings,
            input_positions,
            other_caches,
            input_metadata,
            t,
            Ok((other_logits, other_hidden)),
        ),
        tensor_value(s) == tensor_value(t),
    ensures
        tensor_value(logits) == tensor_value(other_logits),
        tensor_value(hidden) == tensor_value(other_hidden),
        tensor_value(logits).dims.last() == a.true_vocab_size,
{
    let p = projection_of_decoding(
        a,
        embeddings,
        input_positions,
        kv_caches,
        input_metadata,
        s,
        logits,
        hidden,
    );
    let q = projection_of_decoding(
        b,
        embeddings,
        input_positions,
        other_caches,
        input_metadata,
        t,
        other_logits,
        other_hidden,
    );
    let (g, h) = (Ok::<Tensor, Error>(hidden), Ok::<Tensor, Error>(other_hidden));
    assert(call_ensures(a.norm, (&s,), g) && call_ensures(a.norm, (&t,), h));
    assert(tensor_value(h->Ok_0) == tensor_value(g->Ok_0));
    equal_columns_give_equal_logits(p, q, a.true_vocab_size as nat, logits, other_logits);
    logits_are_the_first_columns(p, a.true_vocab_size as nat, logits);
}

/// The row of each sequence's last token.
pub open spec fn last_positions<X>(input_metadata: InputMetadata<X>) -> Seq<int> {
    match input_metadata.cu_seqlens_q {
        None => Seq::empty(),
        Some(bounds) => tensor_value(bounds).elems.skip(1).map_values(|end: int| end - 1),
    }
}

/// The rows that a pass goes on with: those of the last tokens, or all where no sequence is closed.
pub open spec fn picked<X>(v: TensorValue, input_metadata: InputMetadata<X>) -> TensorValue {
    if last_positions(input_metadata).len() > 0 {
        selected(v, last_positions(input_metadata))
    } else {
        v
    }
}

/// The positions that are read are those that the bounds name.
proof fn ends_are_the_bounds<X>(input_metadata: InputMetadata<X>, ends: Vec<u32>, device: Device)
    requires
        input_metadata.fits(true),
        input_metadata.sequence_ends_end(Ok(ends)),
    ensures
        u32_vector(last_tokens(ends@), device).elems == last_positions(input_metadata),
        !last_positions(input_metadata).contains(u32::MAX as int),
        last_positions(input_metadata).len() == ends@.len(),
{
    let ids = u32_vector(last_tokens(ends@), device).elems;
    let positions = last_positions(input_metadata);
    if input_metadata.cu_seqlens_q is Some {
        let bounds = input_metadata.cu_seqlens_q->Some_0;
        let all = choose|all: Result<Vec<u32>, Error>| #[trigger]
            read_ends(bounds, all) && all is Ok && ends@ == all->Ok_0@.skip(1);
        let all = all->Ok_0@;
        assert forall|i: int| 0 <= i < ends@.len() implies ids[i] == #[trigger] positions[i]
            && ids[i] != u32::MAX as int by {
            assert(tensor_value(bounds).elems[i + 1] == all[i + 1]);
            assert(ends@[i] == all[i + 1]);
            assert(ends@[i] > 0);
            assert(ids[i] == last_tokens(ends@)[i] as int);
        }
    }
    assert(ids =~= positions);
}

/// Whether the rows that a pass goes on with can be taken of `s`.
pub open spec fn can_be_picked<X>(s: Tensor, input_metadata: InputMetadata<X>) -> bool {
    last_positions(input_metadata).len() > 0 ==> {
        &&& is_row_major(s)
        &&& is_stored(tensor_value(s).dtype)
        &&& are_rows(tensor_value(s), last_positions(input_metadata))
    }
}

/// What goes on behind the layers are the picked rows.
proof fn the_picked_rows_go_on<N, A, O, R, M, F, X>(
    model: GGUFQWen<N, A, O, R, M, F>,
    input_metadata: InputMetadata<X>,
    ends: Vec<u32>,
    s: Tensor,
    r: Result<Tensor, Error>,
) -> (y: Tensor) where
    N: Fn(&Tensor) -> Result<Tensor, Error>,
    O: Fn(&Tensor) -> Result<Tensor, Error>,
    R: Fn(&Tensor) -> Result<Tensor, Error>,
    M: Fn(&Device, DType, &Tensor, &Vec<u32>, Option<usize>, bool) -> Option<Vec<Tensor>>,
    F: Fn(&QMatMul, &QMatMul, &Tensor) -> Result<Option<Tensor>, Error>,

    requires
        input_metadata.fits(true),
        input_metadata.sequence_ends_end(Ok(ends)),
        r is Ok || can_be_picked(s, input_metadata),
        model.tail_ends(ends@, s, false, r),
    ensures
        model.head_ends(y, false, r),
        tensor_value(y) == picked(tensor_value(s), input_metadata),
        last_positions(input_metadata).len() > 0 ==> are_rows(
            tensor_value(s),
            last_positions(input_metadata),
        ),
{
    ends_are_the_bounds(input_metadata, ends, tensor_value(s).device);
    if ends@.len() > 0 {
        let y = choose|y: Result<Tensor, Error>| #[trigger]
            last_rows_end(s, ends@, y) && match y {
                Err(e) => r == Err::<Tensor, Error>(e),
                Ok(y) => model.head_ends(y, false, r),
            };
        let ids = choose|ids: Result<Tensor, Error>| #[trigger]
            u32_tensor_ends(last_tokens(ends@), tensor_value(s).device, ids) && match ids {
                Err(e) => y == Err::<Tensor, Error>(e),
                Ok(ids) => select_ends(s, ids, y),
            };
        assert(tensor_value(s).device == tensor_value(s).device);
        assert(ids is Ok);
        y->Ok_0
    } else {
        s
    }
}

/// With a norm that works row by row, the two modes of a pass differ by the rows that are picked
/// and by the projection: where the layers gave the same in both, the logits are those of the
/// picked rows of the activations, and end as these do.
pub proof fn the_modes_differ_by_selection_and_projection<N, A, O, R, M, F, X>(
    model: GGUFQWen<N, A, O, R, M, F>,
    x: Tensor,
    input_positions: Tensor,
    kv_caches: Option<&Vec<(Tensor, Tensor)>>,
    other_caches: Option<&Vec<(Tensor, Tensor)>>,
    input_metadata: InputMetadata<X>,
    s: Tensor,
    hidden: Tensor,
    t: Tensor,
    r: Result<Tensor, Error>,
) where
    N: Fn(&Tensor) -> Result<Tensor, Error>,
    R: Fn(&Tensor) -> Result<Tensor, Error>,
    O: Fn(&Tensor) -> Result<Tensor, Error>,
    M: Fn(&Device, DType, &Tensor, &Vec<u32>, Option<usize>, bool) -> Option<Vec<Tensor>>,
    A: Fn(
        &Tensor,
        Option<&Vec<Tensor>>,
        &Tensor,
        Option<(&Tensor, &Tensor)>,
        &InputMetadata<X>,
    ) -> Result<Tensor, Error>,
    F: Fn(&QMatMul, &QMatMul, &Tensor) -> Result<Option<Tensor>, Error>,

    requires
        repeats(model.norm),
        works_row_by_row(model.norm),
        input_metadata.fits(true),
        pass_runs(
            model,
            x,
            input_positions,
            kv_caches,
            input_metadata,
            true,
            s,
            Ok(hidden),
        ),
        pass_runs(model, x, input_positions, other_caches, input_metadata, false, t, r),
        r is Ok || can_be_picked(t, input_metadata),
        tensor_value(s) == tensor_value(t),
    ensures
        exists|rows: Tensor| #[trigger]
            model.logits_end(rows, r) && tensor_value(rows) == picked(
                tensor_value(hidden),
                input_metadata,
            ),
{
    let g = Ok::<Tensor, Error>(hidden);
    assert(call_ensures(model.norm, (&s,), g));
    let (ends, e) = choose|ends: Vec<u32>, e: Tensor|
        {
            &&& #[trigger] input_metadata.sequence_ends_end(Ok(ends))
            &&& #[trigger] embed_ends(model.tok_embeddings, x, Ok(e))
            &&& model.stack_ends(e, input_positions, other_caches, input_metadata, Ok(t))
            &&& model.tail_ends(ends@, t, false, r)
        };
    let y = the_picked_rows_go_on(model, input_metadata, ends, t, r);
    let h = choose|h: Result<Tensor, Error>| #[trigger]
        call_ensures(model.norm, (&y,), h) && match h {
            Err(e) => r == Err::<Tensor, Error>(e),
            Ok(h) => model.logits_end(h, r),
        };
    let ids = last_positions(input_metadata);
    if ids.len() > 0 {
        assert(tensor_value(y) == selected(tensor_value(s), ids));
    }
    assert(h is Ok && tensor_value(h->Ok_0) == picked(tensor_value(g->Ok_0), input_metadata));
}

/// Where the layers gave the same for tokens and for embeddings, with a norm that repeats itself,
/// `forward_embedding` gives the activations that decoding gives.
pub proof fn activations_are_those_of_decoding<N, A, O, R, M, F, X>(
    model: GGUFQWen<N, A, O, R, M, F>,
    x: Tensor,
    embeddings: Tensor,
    input_positions: Tensor,
    kv_caches: Option<&Vec<(Tensor, Tensor)>>,
    other_caches: Option<&Vec<(Tensor, Tensor)>>,
    input_metadata: InputMetadata<X>,
    s: Tensor,
    logits: Tensor,
    hidden: Tensor,
    t: Tensor,
    r: Result<Tensor, Error>,
) where
    N: Fn(&Tensor) -> Result<Tensor, Error>,
    R: Fn(&Tensor) -> Result<Tensor, Error>,
    O: Fn(&Tensor) -> Result<Tensor, Error>,
    M: Fn(&Device, DType, &Tensor, &Vec<u32>, Option<usize>, bool) -> Option<Vec<Tensor>>,
    A: Fn(
        &Tensor,
        Option<&Vec<Tensor>>,
        &Tensor,
        Option<(&Tensor, &Tensor)>,
        &InputMetadata<X>,
    ) -> Result<Tensor, Error>,
    F: Fn(&QMatMul, &QMatMul, &Tensor) -> Result<Option<Tensor>, Error>,

    requires
        repeats(model.norm),
        decoding_runs(
            model,
            embeddings,
            input_positions,
            kv_caches,
            input_metadata,
            s,
            Ok((logits, hidden)),
        ),
        pass_runs(model, x, input_positions, other_caches, input_metadata, true, t, r),
        tensor_value(s) == tensor_value(t),
    ensures
        r matches Ok(h) && tensor_value(h) == tensor_value(hidden),
{
    let p = projection_of_decoding(
        model,
        embeddings,
        input_positions,
        kv_caches,
        input_metadata,
        s,
        logits,
        hidden,
    );
    let g = Ok::<Tensor, Error>(hidden);
    assert(call_ensures(model.norm, (&s,), g));
    assert(model.head_ends(t, true, r));
    let h = choose|h: Result<Tensor, Error>| #[trigger]
        call_ensures(model.norm, (&t,), h) && match h {
            Err(e) => r == Err::<Tensor, Error>(e),
            Ok(h) => r == Ok::<Tensor, Error>(h),
        };
    assert(h is Ok && tensor_value(h->Ok_0) == tensor_value(g->Ok_0));
}

/// Where the layers gave the same for tokens and for embeddings, with a norm and a projection that
/// work row by row and repeat themselves, a forward pass gives the rows of each sequence's last
/// token out of the logits that decoding gives, and all of them where no sequence is closed.
pub proof fn forward_gives_the_last_rows_of_decoding<N, A, O, R, M, F, X>(
    model: GGUFQWen<N, A, O, R, M, F>,
    x: Tensor,
    embeddings: Tensor,
    input_positions: Tensor,
    kv_caches: Option<&Vec<(Tensor, Tensor)>>,
    other_caches: Option<&Vec<(Tensor, Tensor)>>,
    input_metadata: InputMetadata<X>,
    s: Tensor,
    all: Tensor,
    hidden: Tensor,
    t: Tensor,
    r: Result<Tensor, Error>,
) where
    N: Fn(&Tensor) -> Result<Tensor, Error>,
    R: Fn(&Tensor) -> Result<Tensor, Error>,
    O: Fn(&Tensor) -> Result<Tensor, Error>,
    M: Fn(&Device, DType, &Tensor, &Vec<u32>, Option<usize>, bool) -> Option<Vec<Tensor>>,
    A: Fn(
        &Tensor,
        Option<&Vec<Tensor>>,
        &Tensor,
        Option<(&Tensor, &Tensor)>,
        &InputMetadata<X>,
    ) -> Result<Tensor, Error>,
    F: Fn(&QMatMul, &QMatMul, &Tensor) -> Result<Option<Tensor>, Error>,

    requires
        repeats(model.norm),
        repeats(model.output),
        last_positions(input_metadata).len() > 0 ==> {
            &&& works_row_by_row(model.norm)
            &&& keeps_the_shape(model.norm)
            &&& works_row_by_row(model.output)
            &&& keeps_the_rows(model.output)
            &&& tensor_value(s).dims.len() > 1
        },
        input_metadata.fits(true),
        decoding_runs(
            model,
            embeddings,
            input_positions,
            kv_caches,
            input_metadata,
            s,
            Ok((all, hidden)),
        ),
        pass_runs(model, x, input_positions, other_caches, input_metadata, false, t, r),
        r is Ok || can_be_picked(t, input_metadata),
        tensor_value(s) == tensor_value(t),
    ensures
        r matches Ok(logits) && tensor_value(logits) == picked(tensor_value(all), input_metadata),
{
    let vocab = model.true_vocab_size as nat;
    let ids = last_positions(input_metadata);
    let p = projection_of_decoding(
        model,
        embeddings,
        input_positions,
        kv_caches,
        input_metadata,
        s,
        all,
        hidden,
    );
    let (g, pg) = (Ok::<Tensor, Error>(hidden), Ok::<Tensor, Error>(p));
    assert(call_ensures(model.norm, (&s,), g));
    assert(call_ensures(model.output, (&hidden,), pg));
    let (ends, e) = choose|ends: Vec<u32>, e: Tensor|
        {
            &&& #[trigger] input_metadata.sequence_ends_end(Ok(ends))
            &&& #[trigger] embed_ends(model.tok_embeddings, x, Ok(e))
            &&& model.stack_ends(e, input_positions, other_caches, input_metadata, Ok(t))
            &&& model.tail_ends(ends@, t, false, r)
        };
    let y = the_picked_rows_go_on(model, input_metadata, ends, t, r);
    let h = choose|h: Result<Tensor, Error>| #[trigger]
        call_ensures(model.norm, (&y,), h) && match h {
            Err(e) => r == Err::<Tensor, Error>(e),
            Ok(h) => model.logits_end(h, r),
        };
    if ids.len() > 0 {
        assert(tensor_value(y) == selected(tensor_value(s), ids));
    }
    assert(h is Ok && tensor_value(h->Ok_0) == picked(tensor_value(g->Ok_0), input_metadata));
    let rows = h->Ok_0;
    let q = choose|q: Result<Tensor, Error>| #[trigger]
        call_ensures(model.output, (&rows,), q) && match q {
            Err(e) => r == Err::<Tensor, Error>(e),
            Ok(q) => cut_logits_end(q, vocab, r),
        };
    if ids.len() > 0 {
        assert(tensor_value(hidden).dims == tensor_value(s).dims);
        assert(are_rows(tensor_value(hidden), ids));
        assert(tensor_value(rows) == selected(tensor_value(hidden), ids));
    }
    assert(q is Ok && tensor_value(q->Ok_0) == picked(tensor_value(pg->Ok_0), input_metadata));
    let cut = q->Ok_0;
    logits_are_the_first_columns(p, vocab, all);
    assert(is_stored(tensor_value(p).dtype));
    if ids.len() > 0 {
        assert(tensor_value(p).dims.len() == tensor_value(hidden).dims.len());
        assert(tensor_value(cut).dims.last() == tensor_value(p).dims.last());
        assert(tensor_value(p).dims[0] == tensor_value(hidden).dims[0]) by {
            assert(tensor_value(p).dims.drop_last()[0] == tensor_value(
                hidden,
            ).dims.drop_last()[0]);
        }
    }
    logits_fail_only_where_the_vocabulary_is_wider(cut, vocab, r);
    logits_are_the_first_columns(cut, vocab, r->Ok_0);
    if ids.len() > 0 {
        selecting_and_narrowing_commute(tensor_value(p), ids, vocab);
        narrowing_keeps_it_whole(tensor_value(p), vocab);
        assert(narrowed(tensor_value(p), vocab).dims[0] == tensor_value(p).dims[0]);
        selecting_and_converting_commute(narrowed(tensor_value(p), vocab), ids);
    }
}

/// Without sequence bounds, and where the layers gave the same for tokens and for embeddings, a
/// forward pass gives the logits that decoding gives, with a norm and a projection that repeat
/// themselves.
pub proof fn forward_gives_the_logits_of_decoding<N, A, O, R, M, F, X>(
    model: GGUFQWen<N, A, O, R, M, F>,
    x: Tensor,
    embeddings: Tensor,
    input_positions: Tensor,
    kv_caches: Option<&Vec<(Tensor, Tensor)>>,
    other_caches: Option<&Vec<(Tensor, Tensor)>>,
    input_metadata: InputMetadata<X>,
    s: Tensor,
    all: Tensor,
    hidden: Tensor,
    t: Tensor,
    r: Result<Tensor, Error>,
) where
    N: Fn(&Tensor) -> Result<Tensor, Error>,
    R: Fn(&Tensor) -> Result<Tensor, Error>,
    O: Fn(&Tensor) -> Result<Tensor, Error>,
    M: Fn(&Device, DType, &Tensor, &Vec<u32>, Option<usize>, bool) -> Option<Vec<Tensor>>,
    A: Fn(
        &Tensor,
        Option<&Vec<Tensor>>,
        &Tensor,
        Option<(&Tensor, &Tensor)>,
        &InputMetadata<X>,
    ) -> Result<Tensor, Error>,
    F: Fn(&QMatMul, &QMatMul, &Tensor) -> Result<Option<Tensor>, Error>,

    requires
        repeats(model.norm),
        repeats(model.output),
        input_metadata.cu_seqlens_q is None,
        decoding_runs(
            model,
            embeddings,
            input_positions,
            kv_caches,
            input_metadata,
            s,
            Ok((all, hidden)),
        ),
        pass_runs(model, x, input_positions, other_caches, input_metadata, false, t, r),
        tensor_value(s) == tensor_value(t),
    ensures
        r matches Ok(logits) && tensor_value(logits) == tensor_value(all),
{
    forward_gives_the_last_rows_of_decoding(
        model,
        x,
        embeddings,
        input_positions,
        kv_caches,
        other_caches,
        input_metadata,
        s,
        all,
        hidden,
        t,
        r,
    );
}

} // verus!
