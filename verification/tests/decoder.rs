use candle_core::quantized::{GgmlDType, QMatMul, QTensor};
use candle_core::{DType, Device, Error, Tensor};
use candle_nn::Embedding;
use gguf_qwen::batch::InputMetadata;
use gguf_qwen::config::{Config, Ratio, Real, Single};
use gguf_qwen::error::ModelError;
use gguf_qwen::layer::LayerWeights;
use gguf_qwen::mlp::Mlp;
use gguf_qwen::model::GGUFQWen;
use std::cell::RefCell;
use std::rc::Rc;
use std::sync::Arc;

type Op = Box<dyn Fn(&Tensor) -> Result<Tensor, Error>>;
type Attention = Box<
    dyn Fn(
        &Tensor,
        Option<&Vec<Tensor>>,
        &Tensor,
        Option<(&Tensor, &Tensor)>,
        &InputMetadata<u8>,
    ) -> Result<Tensor, Error>,
>;
type Mask =
    Box<dyn Fn(&Device, DType, &Tensor, &Vec<u32>, Option<usize>, bool) -> Option<Vec<Tensor>>>;
type Fused = fn(&QMatMul, &QMatMul, &Tensor) -> Result<Option<Tensor>, Error>;
type Model = GGUFQWen<Op, Attention, Op, Op, Mask, Fused>;

fn matrix(rows: &[&[f32]]) -> Tensor {
    let width = rows[0].len();
    let elems: Vec<f32> = rows.iter().flat_map(|r| r.iter().copied()).collect();
    Tensor::from_vec(elems, (rows.len(), width), &Device::Cpu).unwrap()
}

fn idle(_: &QMatMul, _: &QMatMul, _: &Tensor) -> Result<Option<Tensor>, Error> {
    Ok(None)
}

fn config() -> Config<Real, Ratio> {
    let mut cfg = GGUFQWen::into_config(
        2,
        2,
        0,
        2,
        1,
        1,
        Real::Widened(Single { bits: 1 }),
        Real::Widened(Single { bits: 2 }),
        16,
        None,
        None,
        DType::F32,
    );
    cfg.sliding_window = Some(9);
    cfg
}

/// A layer that doubles: its attention gives back what it is given, and its block gives zeros.
fn doubling(attention: Attention) -> LayerWeights<Op, Attention, Op> {
    let zeros = || QMatMul::Tensor(Tensor::zeros((2, 2), DType::F32, &Device::Cpu).unwrap());
    LayerWeights {
        self_attn: attention,
        attention_norm: Box::new(|x: &Tensor| Ok(x.clone())),
        mlp: Mlp {
            feed_forward_w1: zeros(),
            feed_forward_w2: zeros(),
            feed_forward_w3: zeros(),
            all_reduce: None,
            dtype: DType::F32,
        },
        ffn_norm: Box::new(|x: &Tensor| Ok(x.clone())),
    }
}

fn echo() -> Attention {
    Box::new(|x, _, _, _, _| Ok(x.clone()))
}

/// Four tokens, two doubling layers, a norm that halves and a projection to three columns, of which
/// the last is padding.
fn model(attentions: Vec<Attention>) -> Model {
    let table = matrix(&[&[1., 0.], &[0., 1.], &[1., 1.], &[2., 0.]]);
    GGUFQWen {
        tok_embeddings: Embedding::new(table, 2),
        layers: attentions.into_iter().map(doubling).collect(),
        norm: Box::new(|x: &Tensor| x * 0.5),
        output: Box::new(|x: &Tensor| x.matmul(&matrix(&[&[1., 2., 9.], &[3., 4., 9.]]))),
        cfg: config(),
        dtype: DType::F32,
        device: Device::Cpu,
        true_vocab_size: 2,
        mask: Box::new(|_, _, _, _, _, _| None),
        fused: idle,
        fused_glu: true,
    }
}

fn ids(tokens: &[u32]) -> Tensor {
    Tensor::from_vec(tokens.to_vec(), (tokens.len(),), &Device::Cpu).unwrap()
}

fn batch(bounds: Option<&[u32]>) -> InputMetadata<u8> {
    InputMetadata { cu_seqlens_q: bounds.map(ids), is_prefill: true, engine: 7 }
}

fn rows(t: &Tensor) -> Vec<Vec<f32>> {
    t.to_vec2::<f32>().unwrap()
}

fn message<T>(r: Result<T, ModelError>) -> String {
    match r {
        Err(ModelError::Candle(e)) => e.to_string(),
        _ => panic!("the call did not fail"),
    }
}

#[test]
fn forward_gives_the_logits_of_each_last_token() {
    let m = model(vec![echo(), echo()]);
    let y = m.forward(&ids(&[0, 3, 1]), &ids(&[0, 1, 0]), None, &batch(Some(&[0, 2, 3]))).unwrap();
    assert_eq!(rows(&y), vec![vec![4f32, 8.], vec![6., 8.]]);
    assert_eq!(y.dtype(), DType::F32);
}

#[test]
fn forward_without_bounds_gives_the_logits_of_every_token() {
    let m = model(vec![echo(), echo()]);
    let y = m.forward(&ids(&[0, 3, 1]), &ids(&[0, 1, 2]), None, &batch(None)).unwrap();
    assert_eq!(rows(&y), vec![vec![2f32, 4.], vec![4., 8.], vec![6., 8.]]);
}

#[test]
fn a_first_bound_alone_gives_the_logits_of_every_token() {
    let m = model(vec![echo()]);
    let y = m.forward(&ids(&[0, 3]), &ids(&[0, 1]), None, &batch(Some(&[0]))).unwrap();
    assert_eq!(y.dims(), &[2, 2]);
}

#[test]
fn forward_embedding_gives_every_position() {
    let m = model(vec![echo(), echo()]);
    for md in [batch(None), batch(Some(&[0, 2, 3]))] {
        let h = m.forward_embedding(&ids(&[0, 3, 1]), &ids(&[0, 1, 2]), None, &md).unwrap();
        assert_eq!(rows(&h), vec![vec![2f32, 0.], vec![4., 0.], vec![0., 2.]]);
    }
}

#[test]
fn decoding_from_embeddings_gives_logits_and_activations() {
    let m = model(vec![echo(), echo()]);
    let e = matrix(&[&[1., 0.], &[0., 3.]]);
    let (logits, hidden) = m
        .forward_from_embeddings(&e, &ids(&[0, 1]), None, &batch(Some(&[0, 2])))
        .unwrap();
    assert_eq!(rows(&hidden), vec![vec![2f32, 0.], vec![0., 6.]]);
    assert_eq!(rows(&logits), vec![vec![2f32, 4.], vec![18., 24.]]);
    assert!(logits.is_contiguous());
    assert_eq!(logits.dtype(), DType::F32);
}

#[test]
fn running_on_tokens_agrees_with_decoding_from_their_embeddings() {
    let m = model(vec![echo(), echo()]);
    let tokens = ids(&[2, 0, 3]);
    let e = matrix(&[&[1., 1.], &[1., 0.], &[2., 0.]]);
    let y = m.forward(&tokens, &ids(&[0, 1, 2]), None, &batch(None)).unwrap();
    let h = m.forward_embedding(&tokens, &ids(&[0, 1, 2]), None, &batch(None)).unwrap();
    let (logits, hidden) =
        m.forward_from_embeddings(&e, &ids(&[0, 1, 2]), None, &batch(None)).unwrap();
    assert_eq!(rows(&y), rows(&logits));
    assert_eq!(rows(&h), rows(&hidden));
}

#[test]
fn the_layers_keep_the_shape() {
    let m = model(vec![echo(), echo(), echo()]);
    let x = matrix(&[&[1., 2.], &[3., 4.], &[5., 6.]]);
    let y = m.forward_layers(x.clone(), &ids(&[0, 1, 2]), None, &batch(None)).unwrap();
    assert_eq!(y.dims(), x.dims());
    assert_eq!(rows(&y), vec![vec![8f32, 16.], vec![24., 32.], vec![40., 48.]]);
}

#[test]
fn without_a_layer_the_activations_pass_unchanged() {
    let x = matrix(&[&[1., 2.]]);
    let y = model(vec![]).forward_layers(x.clone(), &ids(&[0]), None, &batch(None)).unwrap();
    assert_eq!(rows(&y), rows(&x));
    let no_caches = Vec::new();
    let m = model(vec![echo()]);
    let y = m.forward_layers(x.clone(), &ids(&[0]), Some(&no_caches), &batch(None)).unwrap();
    assert_eq!(rows(&y), rows(&x));
}

#[test]
fn each_layer_is_given_its_own_cache() {
    let log: Rc<RefCell<Vec<(u8, f32, f32)>>> = Rc::new(RefCell::new(Vec::new()));
    let watcher = |n: u8| -> Attention {
        let log = log.clone();
        Box::new(move |x, _, _, cache, md| {
            let (k, v) = cache.unwrap();
            let (k, v) = (k.to_vec1::<f32>()?[0], v.to_vec1::<f32>()?[0]);
            assert_eq!(md.engine, 7);
            log.borrow_mut().push((n, k, v));
            Ok(x.clone())
        })
    };
    let m = model(vec![watcher(0), watcher(1)]);
    let cell = |x: f32| Tensor::from_vec(vec![x], (1,), &Device::Cpu).unwrap();
    let caches = vec![(cell(1.), cell(2.)), (cell(3.), cell(4.)), (cell(5.), cell(6.))];
    let x = matrix(&[&[1., 2.]]);
    let y = m.forward_layers(x, &ids(&[0]), Some(&caches), &batch(None)).unwrap();
    assert_eq!(*log.borrow(), vec![(0, 1., 2.), (1, 3., 4.)]);
    assert_eq!(rows(&y), vec![vec![4f32, 8.]]);
}

#[test]
fn layers_without_a_cache_are_left_out() {
    let cell = |x: f32| Tensor::from_vec(vec![x], (1,), &Device::Cpu).unwrap();
    let caches = vec![(cell(1.), cell(2.))];
    let x = matrix(&[&[1., 2.]]);
    let long = model(vec![echo(), echo(), echo()]);
    let short = model(vec![echo()]);
    let a = long.forward_layers(x.clone(), &ids(&[0]), Some(&caches), &batch(None)).unwrap();
    let b = short.forward_layers(x, &ids(&[0]), Some(&caches), &batch(None)).unwrap();
    assert_eq!(rows(&a), vec![vec![2f32, 4.]]);
    assert_eq!(rows(&a), rows(&b));
}

#[test]
fn the_mask_is_asked_for_the_sequences_and_lent_to_the_attention() {
    let attention: Attention = Box::new(|x, mask, positions, cache, _| {
        assert_eq!(mask.unwrap()[0].to_vec1::<f32>()?, vec![42f32]);
        assert_eq!(positions.to_vec1::<u32>()?, vec![0, 1, 0]);
        assert!(cache.is_none());
        Ok(x.clone())
    });
    let mut m = model(vec![attention]);
    m.mask = Box::new(|device, dtype, positions, ends, window, is_prefill| {
        assert!(device.is_cpu());
        assert_eq!(dtype, DType::F32);
        assert_eq!(positions.dims(), &[3]);
        assert_eq!(*ends, vec![2, 3]);
        assert_eq!(window, Some(9));
        assert!(is_prefill);
        Some(vec![Tensor::from_vec(vec![42f32], (1,), &Device::Cpu).unwrap()])
    });
    let y = m.forward(&ids(&[0, 3, 1]), &ids(&[0, 1, 0]), None, &batch(Some(&[0, 2, 3])));
    assert_eq!(y.unwrap().dims(), &[2, 2]);
}

#[test]
fn a_failing_attention_fails_the_step() {
    let failing: Attention = Box::new(|_, _, _, _, _| Err(Error::Msg("no cache".to_string())));
    let m = model(vec![echo(), failing]);
    let (x, p) = (ids(&[0]), ids(&[0]));
    assert!(message(m.forward(&x, &p, None, &batch(None))).contains("no cache"));
    assert!(message(m.forward_embedding(&x, &p, None, &batch(None))).contains("no cache"));
    let e = matrix(&[&[1., 0.]]);
    let r = m.forward_from_embeddings(&e, &p, None, &batch(None));
    assert!(message(r).contains("no cache"));
}

#[test]
fn a_failing_norm_or_projection_fails_the_step() {
    let (x, p, e) = (ids(&[0]), ids(&[0]), matrix(&[&[1., 0.]]));
    let mut m = model(vec![echo()]);
    m.output = Box::new(|_: &Tensor| Err(Error::Msg("no projection".to_string())));
    assert!(message(m.forward(&x, &p, None, &batch(None))).contains("no projection"));
    assert!(m.forward_embedding(&x, &p, None, &batch(None)).is_ok());
    let r = m.forward_from_embeddings(&e, &p, None, &batch(None));
    assert!(message(r).contains("no projection"));
    m.norm = Box::new(|_: &Tensor| Err(Error::Msg("no norm".to_string())));
    assert!(message(m.forward(&x, &p, None, &batch(None))).contains("no norm"));
    assert!(message(m.forward_embedding(&x, &p, None, &batch(None))).contains("no norm"));
    let r = m.forward_from_embeddings(&e, &p, None, &batch(None));
    assert!(message(r).contains("no norm"));
}

#[test]
fn tokens_outside_the_table_are_refused() {
    let m = model(vec![echo()]);
    assert!(m.forward(&ids(&[4]), &ids(&[0]), None, &batch(None)).is_err());
}

#[test]
fn a_vocabulary_wider_than_the_projection_is_refused() {
    let mut m = model(vec![echo()]);
    m.true_vocab_size = 4;
    assert!(m.forward(&ids(&[0]), &ids(&[0]), None, &batch(None)).is_err());
    assert!(m.forward_embedding(&ids(&[0]), &ids(&[0]), None, &batch(None)).is_ok());
}

#[test]
fn bounds_that_cannot_be_read_fail_the_step() {
    let m = model(vec![echo()]);
    let bounds = Tensor::from_vec(vec![0i64, 1], (2,), &Device::Cpu).unwrap();
    let md = InputMetadata { cu_seqlens_q: Some(bounds), is_prefill: false, engine: 0 };
    let (x, p) = (ids(&[0]), ids(&[0]));
    assert!(m.forward(&x, &p, None, &md).is_err());
    assert!(m.try_forward(&x, &p, None, &md).is_err());
    assert!(m.try_forward_embedding(&x, &p, None, &md).is_err());
    assert!(m.try_forward_from_embeddings(&matrix(&[&[1., 0.]]), &p, None, &md).is_err());
}

#[test]
fn tested_steps_give_what_the_plain_ones_give() {
    let m = model(vec![echo(), echo()]);
    let (x, p, md) = (ids(&[0, 3, 1]), ids(&[0, 1, 0]), batch(Some(&[0, 2, 3])));
    let y = m.try_forward(&x, &p, None, &md).unwrap().unwrap();
    assert_eq!(rows(&y), vec![vec![4f32, 8.], vec![6., 8.]]);
    let h = m.try_forward_embedding(&x, &p, None, &md).unwrap().unwrap();
    assert_eq!(rows(&h), vec![vec![2f32, 0.], vec![4., 0.], vec![0., 2.]]);
    let e = matrix(&[&[1., 0.], &[0., 3.], &[0., 0.]]);
    let (logits, _) = m.try_forward_from_embeddings(&e, &p, None, &md).unwrap().unwrap();
    assert_eq!(rows(&logits), vec![vec![2f32, 4.], vec![18., 24.], vec![0., 0.]]);
}

#[test]
fn tested_steps_turn_down_bounds_without_a_token() {
    let m = model(vec![echo()]);
    let (x, p) = (ids(&[0]), ids(&[0]));
    assert!(m.try_forward(&x, &p, None, &batch(Some(&[]))).unwrap().is_none());
    assert!(m.try_forward(&x, &p, None, &batch(Some(&[0, 0]))).unwrap().is_none());
    assert!(m.try_forward_embedding(&x, &p, None, &batch(Some(&[]))).unwrap().is_none());
    assert!(m.try_forward_embedding(&x, &p, None, &batch(Some(&[0, 0]))).unwrap().is_some());
    let e = matrix(&[&[1., 0.]]);
    let r = m.try_forward_from_embeddings(&e, &p, None, &batch(Some(&[])));
    assert!(r.unwrap().is_none());
}

/// A weight without rows that stays in blocks.
fn no_rows() -> QMatMul {
    let zeros = Tensor::zeros((0, 32), DType::F32, &Device::Cpu).unwrap();
    QMatMul::QTensor(Arc::new(QTensor::quantize(&zeros, GgmlDType::Q8_0).unwrap()))
}

#[test]
fn tested_steps_turn_down_weights_that_cannot_be_multiplied_by() {
    let mut m = model(vec![echo()]);
    m.layers[0].mlp.feed_forward_w1 = no_rows();
    assert!(!m.check_weights(None));
    let (x, p) = (ids(&[0]), ids(&[0]));
    assert!(m.try_forward(&x, &p, None, &batch(None)).unwrap().is_none());
}

#[test]
fn weights_of_layers_that_are_not_run_do_not_matter() {
    let mut m = model(vec![echo(), echo()]);
    m.layers[1].mlp.feed_forward_w1 = no_rows();
    let cell = |x: f32| Tensor::from_vec(vec![x], (1,), &Device::Cpu).unwrap();
    let caches = vec![(cell(1.), cell(2.))];
    assert!(m.check_weights(Some(&caches)));
    assert!(!m.check_weights(None));
    let e = matrix(&[&[1., 0.]]);
    let p = ids(&[0]);
    let (logits, hidden) =
        m.try_forward_from_embeddings(&e, &p, Some(&caches), &batch(None)).unwrap().unwrap();
    assert_eq!(rows(&hidden), vec![vec![1f32, 0.]]);
    assert_eq!(rows(&logits), vec![vec![1f32, 2.]]);
    let r = m.try_forward_from_embeddings(&e, &p, Some(&Vec::new()), &batch(None));
    assert_eq!(rows(&r.unwrap().unwrap().1), vec![vec![0.5f32, 0.]]);
}

#[test]
fn no_layers_give_back_what_bounds_describe() {
    let x = matrix(&[&[1., 2.], &[3., 4.]]);
    let m = model(vec![]);
    for md in [batch(None), batch(Some(&[0])), batch(Some(&[0, 1, 2]))] {
        let y = m.forward_layers(x.clone(), &ids(&[0, 1]), None, &md).unwrap();
        assert_eq!(rows(&y), rows(&x));
    }
}

#[test]
fn stacks_compose() {
    let x = matrix(&[&[1., 2.], &[3., 4.]]);
    let tripled = || -> Attention { Box::new(|x, _, _, _, _| x * 2.) };
    let (p, md) = (ids(&[0, 1]), batch(Some(&[0, 2])));
    let first = model(vec![echo(), tripled()]);
    let rest = model(vec![tripled()]);
    let whole = model(vec![echo(), tripled(), tripled()]);
    let y = first.forward_layers(x.clone(), &p, None, &md).unwrap();
    let y = rest.forward_layers(y, &p, None, &md).unwrap();
    let z = whole.forward_layers(x, &p, None, &md).unwrap();
    assert_eq!(rows(&y), rows(&z));
    assert_eq!(rows(&z), vec![vec![18f32, 36.], vec![54., 72.]]);
}

#[test]
fn table_norm_and_projection_play_no_part_in_the_layers() {
    let x = matrix(&[&[1., 2.]]);
    let mut other = model(vec![echo()]);
    other.tok_embeddings = Embedding::new(matrix(&[&[9., 9.]]), 2);
    other.norm = Box::new(|_: &Tensor| Err(Error::Msg("norm".to_string())));
    other.output = Box::new(|_: &Tensor| Err(Error::Msg("output".to_string())));
    other.true_vocab_size = 77;
    let a = model(vec![echo()]).forward_layers(x.clone(), &ids(&[0]), None, &batch(None));
    let b = other.forward_layers(x, &ids(&[0]), None, &batch(None));
    assert_eq!(rows(&a.unwrap()), rows(&b.unwrap()));
}

#[test]
fn the_table_plays_no_part_in_decoding() {
    let e = matrix(&[&[1., 3.]]);
    let mut other = model(vec![echo()]);
    other.tok_embeddings = Embedding::new(matrix(&[&[9., 9.]]), 2);
    let a = model(vec![echo()]).forward_from_embeddings(&e, &ids(&[0]), None, &batch(None));
    let b = other.forward_from_embeddings(&e, &ids(&[0]), None, &batch(None));
    assert_eq!(rows(&a.unwrap().0), rows(&b.unwrap().0));
}

#[test]
fn the_projection_plays_no_part_in_the_activations() {
    let mut other = model(vec![echo()]);
    other.output = Box::new(|_: &Tensor| Err(Error::Msg("output".to_string())));
    other.true_vocab_size = 77;
    let (x, p) = (ids(&[2, 3]), ids(&[0, 1]));
    let a = model(vec![echo()]).forward_embedding(&x, &p, None, &batch(None)).unwrap();
    let b = other.forward_embedding(&x, &p, None, &batch(None)).unwrap();
    assert_eq!(rows(&a), rows(&b));
}

#[test]
fn padding_plays_no_part_in_decoding() {
    let e = matrix(&[&[1., 3.], &[2., 5.]]);
    let p = ids(&[0, 1]);
    let mut other = model(vec![echo()]);
    other.output =
        Box::new(|x: &Tensor| x.matmul(&matrix(&[&[1., 2., -4., 8.], &[3., 4., 0., 1e9]])));
    let (a, g) = model(vec![echo()]).forward_from_embeddings(&e, &p, None, &batch(None)).unwrap();
    let (b, h) = other.forward_from_embeddings(&e, &p, None, &batch(None)).unwrap();
    assert_eq!(rows(&a), rows(&b));
    assert_eq!(rows(&g), rows(&h));
    assert_eq!(a.dims(), &[2, 2]);
}

#[test]
fn forward_gives_the_last_rows_of_decoding() {
    let m = model(vec![echo(), echo()]);
    let (x, p, md) = (ids(&[0, 3, 1, 2]), ids(&[0, 1, 0, 1]), batch(Some(&[0, 2, 4])));
    let e = matrix(&[&[1., 0.], &[2., 0.], &[0., 1.], &[1., 1.]]);
    let (all, hidden) = m.forward_from_embeddings(&e, &p, None, &md).unwrap();
    let logits = m.forward(&x, &p, None, &md).unwrap();
    let all = rows(&all);
    assert_eq!(rows(&logits), vec![all[1].clone(), all[3].clone()]);
    let activations = m.forward_embedding(&x, &p, None, &md).unwrap();
    assert_eq!(rows(&activations), rows(&hidden));
}

#[test]
fn decoded_logits_are_as_wide_as_configured() {
    let mut m = model(vec![echo()]);
    m.cfg.vocab_size = m.true_vocab_size;
    let e = matrix(&[&[1., 3.], &[2., 5.], &[0., 1.]]);
    let (logits, _) = m.forward_from_embeddings(&e, &ids(&[0, 1, 2]), None, &batch(None)).unwrap();
    assert_eq!(logits.dims(), &[3, m.get_config().vocab_size]);
    let y = m.forward(&ids(&[0]), &ids(&[0]), None, &batch(None)).unwrap();
    assert_eq!(y.dims(), &[1, m.get_config().vocab_size]);
}

#[test]
fn an_idle_kernel_gives_what_one_that_is_off_gives() {
    let on = model(vec![echo(), echo()]);
    let mut off = model(vec![echo(), echo()]);
    off.fused = |_, _, _| Err(Error::Msg("tried".to_string()));
    off.fused_glu = false;
    let (x, p, md) = (ids(&[0, 3, 1]), ids(&[0, 1, 0]), batch(Some(&[0, 2, 3])));
    let a = on.forward(&x, &p, None, &md).unwrap();
    let b = off.forward(&x, &p, None, &md).unwrap();
    assert_eq!(rows(&a), rows(&b));
    off.fused_glu = true;
    assert!(message(off.forward(&x, &p, None, &md)).contains("tried"));
}

#[test]
fn the_configuration_can_be_read() {
    let m = model(vec![]);
    assert_eq!(m.get_config().hidden_size, 2);
    assert_eq!(m.get_config().sliding_window, Some(9));
    assert_eq!(m.get_config().max_seq_len, 16);
}
