use candle_core::quantized::gguf_file::Value;
use candle_core::quantized::{GgmlDType, QMatMul, QTensor};
use candle_core::{DType, Device, Error, Tensor};
use gguf_qwen::config::{Config, KvCacheDtype, Ratio, Real, Single};
use gguf_qwen::error::ModelError;
use gguf_qwen::gguf::Kernels;
use gguf_qwen::loader::{Engine, Placement};
use gguf_qwen::metadata::Metadata;
use gguf_qwen::model::GGUFQWen;
use gguf_qwen::progress::ProgressReporter;
use std::cell::RefCell;
use std::sync::Arc;

/// What a block was made of.
type Made = String;
type Loaded = GGUFQWen<Made, Made, Made, Made, (), ()>;

/// What an engine finds, and what is wrong with it.
struct Source {
    own_output: bool,
    /// The tensor or block that cannot be had.
    broken: &'static str,
    rows: usize,
    log: RefCell<Vec<String>>,
}

fn source() -> Source {
    Source { own_output: true, broken: "", rows: 3, log: RefCell::new(Vec::new()) }
}

impl Source {
    fn note(&self, line: String) -> Result<(), Error> {
        let fails = !self.broken.is_empty() && line.contains(self.broken);
        self.log.borrow_mut().push(line.clone());
        if fails {
            Err(Error::Msg(format!("no {line}")))
        } else {
            Ok(())
        }
    }

    fn tensor(&self, rows: usize) -> Arc<QTensor> {
        let elems: Vec<f32> = (0..rows * 2).map(|i| i as f32).collect();
        let t = Tensor::from_vec(elems, (rows, 2), &Device::Cpu).unwrap();
        Arc::new(QTensor::quantize(&t, GgmlDType::F32).unwrap())
    }
}

fn metadata(arch: &str, blocks: u32) -> Metadata {
    let mut md = Metadata::new();
    let mut put = |key: &str, value: Value| md.insert(format!("{arch}.{key}"), value);
    put("attention.head_count", Value::U32(4));
    put("attention.head_count_kv", Value::U32(2));
    put("embedding_length", Value::U32(2));
    put("context_length", Value::U32(64));
    put("block_count", Value::U32(blocks));
    put("attention.layer_norm_rms_epsilon", Value::F32(0.5));
    put("rope.dimension_count", Value::U32(1));
    md.insert("general.architecture".to_string(), Value::String(arch.to_string()));
    md
}

fn place(rank: usize, world_size: usize, nccl: bool) -> Placement {
    Placement { device: Device::Cpu, dtype: DType::F32, rank, world_size, nccl }
}

fn load(md: &Metadata, src: &Source, place: &Placement) -> Result<Option<Loaded>, ModelError> {
    let engine = Engine {
        get: |prefix: Option<&str>, name: &str| -> Result<Arc<QTensor>, Error> {
            match prefix {
                Some(p) => src.note(format!("get {p}/{name}"))?,
                None => src.note(format!("get {name}"))?,
            }
            Ok(src.tensor(src.rows))
        },
        get_sharded: |prefix: &str,
                      name: &str,
                      dim: usize,
                      rank: usize,
                      world: usize|
         -> Result<Arc<QTensor>, Error> {
            src.note(format!("share {prefix}/{name} dim {dim} of {rank}/{world}"))?;
            Ok(src.tensor(1))
        },
        contains_key: |name: &str| -> bool {
            src.log.borrow_mut().push(format!("has {name}"));
            src.own_output
        },
        norm: |q: Arc<QTensor>, eps: Single| -> Result<Made, Error> {
            let made = format!("norm {:?} {}", q.shape().dims(), f32::from_bits(eps.bits));
            src.note(made.clone())?;
            Ok(made)
        },
        output: |name: &str, rows: usize, dtype: DType| -> Result<Made, Error> {
            let made = format!("output {name} {rows} {dtype:?}");
            src.note(made.clone())?;
            Ok(made)
        },
        rope_overrides: |mut cfg: Config<Real, Ratio>| -> Config<Real, Ratio> {
            src.log.borrow_mut().push("overrides".to_string());
            cfg.rope_scaling = Some("yarn".to_string());
            cfg.sliding_window = Some(5);
            cfg.attn_logit_softcapping = Some(Real::Double { bits: 0.1f64.to_bits() });
            cfg
        },
        rotary: |cfg: &Config<Real, Ratio>, _: &Device| -> Result<Made, Error> {
            let made = format!("rotary {:?}", cfg.rope_scaling);
            src.note(made.clone())?;
            Ok(made)
        },
        attention: |cfg: &Config<Real, Ratio>,
                    prefix: &str,
                    _: &Device,
                    dtype: DType,
                    rotary: Arc<Made>,
                    window: Option<usize>,
                    rank: usize,
                    world: usize|
         -> Result<Made, Error> {
            let made = format!(
                "attention {prefix} {dtype:?} {rotary} {window:?} {rank}/{world} {:?}",
                cfg.kvcache_dtype
            );
            src.note(made.clone())?;
            Ok(made)
        },
        all_reduce: || -> Made { "sum".to_string() },
    };
    let mut reporter = ProgressReporter::new(|n: usize| {
        src.log.borrow_mut().push(format!("progress {n}"));
    });
    let turbo = KvCacheDtype::Compressed("turbo8".to_string());
    let kernels = Kernels { mask: (), fused: (), fused_glu: true };
    GGUFQWen::try_from_gguf(md, &engine, place, DType::BF16, &mut reporter, turbo, kernels)
}

fn loaded(md: &Metadata, src: &Source, place: &Placement) -> Loaded {
    load(md, src, place).unwrap().unwrap()
}

fn message<T>(r: Result<T, ModelError>) -> String {
    match r {
        Err(ModelError::Candle(e)) => e.to_string(),
        _ => panic!("loading did not fail"),
    }
}

fn missing_key<T>(r: Result<T, ModelError>) -> String {
    match r {
        Err(ModelError::MissingKey(key)) => key,
        _ => panic!("no key was reported missing"),
    }
}

#[test]
fn tensors_are_asked_for_by_name_and_in_order() {
    let src = source();
    loaded(&metadata("qwen2", 1), &src, &place(1, 2, false));
    let expected: Vec<&str> = vec![
        "get token_embd.weight",
        "get output_norm.weight",
        "norm [3, 2] 0.5",
        "has output.weight",
        "output output.weight 3 F32",
        "overrides",
        "rotary Some(\"yarn\")",
        "share blk.0/ffn_gate.weight dim 0 of 1/2",
        "share blk.0/ffn_down.weight dim 1 of 1/2",
        "share blk.0/ffn_up.weight dim 0 of 1/2",
        "get blk.0/attn_norm.weight",
        "get blk.0/ffn_norm.weight",
        "attention blk.0 F32 rotary Some(\"yarn\") Some(5) 1/2 Compressed(\"turbo8\")",
        "norm [3, 2] 0.5",
        "norm [3, 2] 0.5",
        "progress 1",
    ];
    assert_eq!(*src.log.borrow(), expected);
}

#[test]
fn progress_is_told_layer_by_layer() {
    let src = source();
    let m = loaded(&metadata("qwen2", 3), &src, &place(0, 1, false));
    assert_eq!(m.layers.len(), 3);
    let told: Vec<String> =
        src.log.borrow().iter().filter(|l| l.starts_with("progress")).cloned().collect();
    assert_eq!(told, vec!["progress 1", "progress 2", "progress 3"]);
    assert!(m.layers[2].self_attn.contains("blk.2"));
}

#[test]
fn a_model_without_layers_is_loaded() {
    let m = loaded(&metadata("qwen2", 0), &source(), &place(0, 1, false));
    assert_eq!(m.layers.len(), 0);
}

#[test]
fn a_model_without_an_own_projection_takes_its_table() {
    let src = Source { own_output: false, ..source() };
    let m = loaded(&metadata("qwen2", 1), &src, &place(0, 1, false));
    assert_eq!(m.output, "output token_embd.weight 3 F32");
    let m = loaded(&metadata("qwen2", 1), &source(), &place(0, 1, false));
    assert_eq!(m.output, "output output.weight 3 F32");
}

#[test]
fn the_vocabulary_is_known_or_counted() {
    let m = loaded(&metadata("qwen2", 1), &source(), &place(0, 1, false));
    assert_eq!(m.true_vocab_size, 3);
    assert_eq!(m.cfg.vocab_size, 3);
    let m = loaded(&metadata("qwen3", 1), &source(), &place(0, 1, false));
    assert_eq!(m.true_vocab_size, 151936);
    assert_eq!(m.cfg.vocab_size, 151936);
}

#[test]
fn the_requested_compression_reaches_the_model() {
    let m = loaded(&metadata("qwen2", 1), &source(), &place(0, 1, false));
    match &m.get_config().kvcache_dtype {
        KvCacheDtype::Compressed(mode) => assert_eq!(mode, "turbo8"),
        KvCacheDtype::Auto => panic!("the compression was lost"),
    }
}

#[test]
fn the_loaded_configuration_holds_the_hyperparameters() {
    let mut md = metadata("qwen2", 2);
    let key = "qwen2.rope.scaling.original_context_length".to_string();
    md.insert(key, Value::U32(32));
    md.insert("qwen2.attention.key_length".to_string(), Value::U32(8));
    let m = loaded(&md, &source(), &place(0, 1, false));
    let cfg = m.get_config();
    assert_eq!(cfg.hidden_size, 2);
    assert_eq!(cfg.head_dim, Some(8));
    assert_eq!(cfg.intermediate_size, 0);
    assert_eq!(cfg.num_hidden_layers, 2);
    assert_eq!(cfg.num_attention_heads, 4);
    assert_eq!(cfg.num_key_value_heads, Some(2));
    assert_eq!(cfg.max_seq_len, 64);
    assert_eq!(cfg.original_max_position_embeddings, Some(32));
    assert_eq!(cfg.partial_rotary_factor, Some(Ratio { num: 1, den: 8 }));
    assert_eq!(cfg.rope_theta, Real::Widened(Single { bits: 10000f32.to_bits() }));
    assert_eq!(cfg.rms_norm_eps, Real::Widened(Single { bits: 0.5f32.to_bits() }));
    assert_eq!(cfg.attn_logit_softcapping, Some(Real::Double { bits: 0.1f64.to_bits() }));
    assert_eq!(cfg.rope_scaling, Some("yarn".to_string()));
}

#[test]
fn a_configuration_can_be_kept() {
    let m = loaded(&metadata("qwen2", 1), &source(), &place(0, 1, false));
    let kept = m.get_config().clone();
    drop(m);
    assert_eq!(kept.rope_scaling, Some("yarn".to_string()));
    assert!(matches!(kept.kvcache_dtype, KvCacheDtype::Compressed(mode) if mode == "turbo8"));
}

#[test]
fn the_table_is_spelled_out_row_by_row() {
    let m = loaded(&metadata("qwen2", 1), &source(), &place(0, 1, false));
    let table = m.tok_embeddings.embeddings();
    assert_eq!(table.dtype(), DType::F32);
    assert_eq!(
        table.to_vec2::<f32>().unwrap(),
        vec![vec![0f32, 1.], vec![2., 3.], vec![4., 5.]]
    );
    assert_eq!(m.tok_embeddings.hidden_size(), 2);
}

#[test]
fn loaded_weights_are_those_of_the_file() {
    let m = loaded(&metadata("qwen2", 1), &source(), &place(0, 1, false));
    match &m.layers[0].mlp.feed_forward_w2 {
        QMatMul::Tensor(t) => assert_eq!(t.to_vec2::<f32>().unwrap(), vec![vec![0f32, 1.]]),
        _ => panic!("the weight is not spelled out"),
    }
    assert!(m.layers[0].mlp.check_weights());
    assert_eq!(m.layers[0].attention_norm, "norm [3, 2] 0.5");
    assert_eq!(m.layers[0].ffn_norm, "norm [3, 2] 0.5");
}

#[test]
fn ranks_are_summed_only_where_there_are_several() {
    let md = metadata("qwen2", 1);
    let sums = |p: Placement| loaded(&md, &source(), &p).layers[0].mlp.all_reduce.is_some();
    assert!(sums(place(0, 2, true)));
    assert!(!sums(place(0, 1, true)));
    assert!(!sums(place(0, 2, false)));
}

#[test]
fn a_missing_parameter_is_reported_before_any_tensor_is_read() {
    let src = source();
    let mut md = Metadata::new();
    assert_eq!(missing_key(load(&md, &src, &place(0, 1, false))), "general.architecture");
    md.insert("general.architecture".to_string(), Value::String("qwen2".to_string()));
    let key = missing_key(load(&md, &src, &place(0, 1, false)));
    assert_eq!(key, "qwen2.attention.head_count");
    assert!(src.log.borrow().is_empty());
}

#[test]
fn rotary_fields_are_looked_at_after_the_heads() {
    let mut md = metadata("qwen2", 1);
    md.insert("qwen2.rope.dimension_count".to_string(), Value::F32(1.));
    let src = source();
    assert!(load(&md, &src, &place(0, 1, false)).is_err());
    assert_eq!(src.log.borrow().last().unwrap(), "output output.weight 3 F32");
}

#[test]
fn each_tensor_that_cannot_be_had_fails_the_load() {
    let md = metadata("qwen2", 2);
    for broken in [
        "get token_embd.weight",
        "get output_norm.weight",
        "norm [3, 2] 0.5",
        "output output.weight",
        "rotary",
        "blk.0/ffn_gate.weight",
        "blk.1/ffn_down.weight",
        "blk.1/ffn_up.weight",
        "blk.0/attn_norm.weight",
        "blk.1/ffn_norm.weight",
        "attention blk.1",
    ] {
        let src = Source { broken, ..source() };
        let text = message(load(&md, &src, &place(0, 1, false)));
        assert!(text.contains(broken), "{text} does not name {broken}");
        assert!(src.log.borrow().last().unwrap().contains(broken));
    }
}

#[test]
fn a_layer_that_fails_is_not_told_as_progress() {
    let src = Source { broken: "attention blk.1", ..source() };
    assert!(load(&metadata("qwen2", 3), &src, &place(0, 1, false)).is_err());
    let told: Vec<String> =
        src.log.borrow().iter().filter(|l| l.starts_with("progress")).cloned().collect();
    assert_eq!(told, vec!["progress 1"]);
}

#[test]
fn a_model_that_is_not_loaded_is_not_told_as_progress() {
    let src = source();
    assert!(load(&Metadata::new(), &src, &place(0, 1, false)).is_err());
    let src = Source { broken: "rotary", ..source() };
    assert!(load(&metadata("qwen2", 3), &src, &place(0, 1, false)).is_err());
    assert!(!src.log.borrow().iter().any(|l| l.starts_with("progress")));
}

#[test]
fn a_reporter_passes_on_what_it_is_told() {
    let heard = RefCell::new(Vec::new());
    let mut reporter = ProgressReporter::new(|n: usize| heard.borrow_mut().push(n));
    reporter.set_progress(2);
    reporter.set_progress(7);
    assert_eq!(*heard.borrow(), vec![2, 7]);
}

#[test]
fn a_loaded_model_can_be_run() {
    let m = loaded(&metadata("qwen2", 2), &source(), &place(0, 1, false));
    assert!(m.layers.iter().all(|layer| layer.mlp.check_weights()));
}

#[test]
fn metadata_that_divides_by_zero_gives_no_model() {
    let mut md = metadata("qwen2", 1);
    md.insert("qwen2.attention.head_count".to_string(), Value::U32(0));
    assert!(load(&md, &source(), &place(0, 1, false)).unwrap().is_none());
    md.insert("qwen2.attention.key_length".to_string(), Value::U32(8));
    assert!(load(&md, &source(), &place(0, 1, false)).unwrap().is_some());
}
