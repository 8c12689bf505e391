use candle_core::quantized::gguf_file::Value;
use candle_core::DType;
use gguf_qwen::config::{KvCacheDtype, Ratio, Real, Single, TokenID};
use gguf_qwen::error::{missing_key_message, ModelError};
use gguf_qwen::gguf::base_config;
use gguf_qwen::metadata::{Field, Metadata};
use gguf_qwen::model::GGUFQWen;
use gguf_qwen::params::{
    optional, read_fields, required, true_vocab_size, CoreFields, CoreParams, RopeFields,
    RopeParams, DEFAULT_FREQ_BASE_BITS,
};
use gguf_qwen::text::{arch_key_string, decimal_string, layer_prefix_string};

fn fields() -> CoreFields {
    CoreFields {
        arch: "qwen2".to_string(),
        head_count: Field::Found(14),
        head_count_kv: Field::Found(2),
        key_length: Field::Missing,
        embedding_length: Field::Found(896),
        context_length: Field::Found(32768),
        block_count: Field::Found(24),
        layer_norm_rms_epsilon: Field::Found(Single { bits: 1e-6f32.to_bits() }),
        freq_base: Field::Found(Single { bits: 1_000_000f32.to_bits() }),
    }
}

fn metadata(entries: Vec<(&str, Value)>) -> Metadata {
    let mut md = Metadata::new();
    for (key, value) in entries {
        md.insert(key.to_string(), value);
    }
    md
}

fn missing_key<T>(r: Result<T, ModelError>) -> String {
    match r {
        Err(ModelError::MissingKey(key)) => key,
        _ => panic!("no key was reported missing"),
    }
}

fn is_candle_error<T>(r: Result<T, ModelError>) -> bool {
    matches!(r, Err(ModelError::Candle(_)))
}

#[test]
fn numbers_are_written_in_decimal() {
    for n in [0usize, 7, 9, 10, 11, 99, 100, 1024, 151936, usize::MAX] {
        assert_eq!(decimal_string(n), n.to_string());
    }
}

#[test]
fn layers_are_numbered_from_zero() {
    assert_eq!(layer_prefix_string(0), "blk.0");
    assert_eq!(layer_prefix_string(27), "blk.27");
}

#[test]
fn different_layers_have_different_prefixes() {
    assert_ne!(layer_prefix_string(1), layer_prefix_string(11));
    assert_ne!(layer_prefix_string(10), layer_prefix_string(100));
}

#[test]
fn keys_start_with_the_architecture() {
    assert_eq!(arch_key_string("qwen3", "attention.head_count"), "qwen3.attention.head_count");
    assert_eq!(arch_key_string("", "x"), ".x");
}

#[test]
fn a_missing_key_is_spelled_out() {
    assert_eq!(
        missing_key_message("qwen3.block_count"),
        "cannot find qwen3.block_count in metadata"
    );
}

#[test]
fn a_required_field_is_found_missing_or_invalid() {
    assert_eq!(required(Field::Found(3u32), "a", "b").unwrap(), 3);
    assert_eq!(missing_key(required(Field::<u32>::Missing, "a", "b")), "a.b");
    let md = metadata(vec![("k", Value::String("x".to_string()))]);
    assert!(is_candle_error(required(md.u32_field("k"), "a", "b")));
}

#[test]
fn an_optional_field_may_be_missing() {
    assert_eq!(optional(Field::Found(3u32)).unwrap(), Some(3));
    assert_eq!(optional(Field::<u32>::Missing).unwrap(), None);
    let md = metadata(vec![("k", Value::Bool(true))]);
    assert!(is_candle_error(optional(md.u32_field("k"))));
}

#[test]
fn metadata_gives_back_what_was_put_in() {
    let mut md = metadata(vec![("a", Value::U32(1)), ("b", Value::F32(0.5))]);
    assert!(matches!(md.get("a"), Some(Value::U32(1))));
    assert!(md.get("c").is_none());
    md.insert("a".to_string(), Value::U32(2));
    assert!(matches!(md.get("a"), Some(Value::U32(2))));
}

#[test]
fn numbers_are_read_only_from_their_own_type() {
    let md = metadata(vec![
        ("u32", Value::U32(41)),
        ("u64", Value::U64(41)),
        ("i32", Value::I32(41)),
        ("f32", Value::F32(2.5)),
        ("f64", Value::F64(2.5)),
    ]);
    assert!(matches!(md.u32_field("u32"), Field::Found(41)));
    assert!(matches!(md.u32_field("u64"), Field::Invalid(_)));
    assert!(matches!(md.u32_field("i32"), Field::Invalid(_)));
    assert!(matches!(md.u32_field("f32"), Field::Invalid(_)));
    assert!(matches!(md.u32_field("none"), Field::Missing));
    match md.f32_field("f32") {
        Field::Found(x) => assert_eq!(f32::from_bits(x.bits), 2.5),
        _ => panic!("no float was read"),
    }
    assert!(matches!(md.f32_field("f64"), Field::Invalid(_)));
    assert!(matches!(md.f32_field("u32"), Field::Invalid(_)));
    assert!(matches!(md.f32_field("none"), Field::Missing));
}

#[test]
fn the_default_base_of_the_frequencies_is_ten_thousand() {
    assert_eq!(f32::from_bits(DEFAULT_FREQ_BASE_BITS), 10000f32);
}

#[test]
fn fields_are_put_together() {
    let p = fields().resolve().unwrap();
    assert_eq!(p.arch, "qwen2");
    assert_eq!(p.head_count, 14);
    assert_eq!(p.head_count_kv, 2);
    assert_eq!(p.head_dim, 64);
    assert_eq!(p.embedding_length, 896);
    assert_eq!(p.context_length, 32768);
    assert_eq!(p.block_count, 24);
    assert_eq!(f32::from_bits(p.rms_norm_eps.bits), 1e-6f32);
    assert_eq!(f32::from_bits(p.rope_freq_base.bits), 1_000_000f32);
}

#[test]
fn a_given_head_length_is_taken_over_the_quotient() {
    let p = CoreFields { key_length: Field::Found(128), ..fields() }.resolve().unwrap();
    assert_eq!(p.head_dim, 128);
    let p = CoreFields { head_count: Field::Found(0), key_length: Field::Found(128), ..fields() };
    assert!(!p.check_division());
    assert_eq!(p.resolve().unwrap().head_dim, 128);
}

#[test]
fn a_head_length_is_rounded_down() {
    let p = CoreFields { embedding_length: Field::Found(900), ..fields() }.resolve().unwrap();
    assert_eq!(p.head_dim, 64);
}

#[test]
fn a_base_of_the_frequencies_that_is_missing_or_no_float_is_the_default() {
    let p = CoreFields { freq_base: Field::Missing, ..fields() }.resolve().unwrap();
    assert_eq!(p.rope_freq_base.bits, DEFAULT_FREQ_BASE_BITS);
    let md = metadata(vec![("k", Value::U32(500))]);
    let p = CoreFields { freq_base: md.f32_field("k"), ..fields() }.resolve().unwrap();
    assert_eq!(p.rope_freq_base.bits, DEFAULT_FREQ_BASE_BITS);
}

#[test]
fn each_required_field_is_reported_by_its_key() {
    let r = CoreFields { head_count: Field::Missing, ..fields() }.resolve();
    assert_eq!(missing_key(r), "qwen2.attention.head_count");
    let r = CoreFields { head_count_kv: Field::Missing, ..fields() }.resolve();
    assert_eq!(missing_key(r), "qwen2.attention.head_count_kv");
    let r = CoreFields { embedding_length: Field::Missing, ..fields() }.resolve();
    assert_eq!(missing_key(r), "qwen2.embedding_length");
    let r = CoreFields { context_length: Field::Missing, ..fields() }.resolve();
    assert_eq!(missing_key(r), "qwen2.context_length");
    let r = CoreFields { block_count: Field::Missing, ..fields() }.resolve();
    assert_eq!(missing_key(r), "qwen2.block_count");
    let r = CoreFields { layer_norm_rms_epsilon: Field::Missing, ..fields() }.resolve();
    assert_eq!(missing_key(r), "qwen2.attention.layer_norm_rms_epsilon");
}

#[test]
fn the_first_faulty_field_is_reported() {
    let md = metadata(vec![("k", Value::Bool(false))]);
    let r = CoreFields {
        embedding_length: Field::Missing,
        key_length: md.u32_field("k"),
        context_length: Field::Missing,
        ..fields()
    }
    .resolve();
    assert_eq!(missing_key(r), "qwen2.embedding_length");
    let r = CoreFields {
        key_length: md.u32_field("k"),
        context_length: Field::Missing,
        ..fields()
    }
    .resolve();
    assert!(is_candle_error(r));
}

#[test]
fn a_division_by_zero_is_noticed() {
    let none = CoreFields { head_count: Field::Found(0), ..fields() };
    assert!(none.check_division());
    assert!(!fields().check_division());
    let fails_before = CoreFields {
        head_count: Field::Found(0),
        embedding_length: Field::Missing,
        ..fields()
    };
    assert!(!fails_before.check_division());
    assert_eq!(missing_key(fails_before.resolve()), "qwen2.embedding_length");
}

#[test]
fn only_a_part_that_is_rotated_gives_a_factor() {
    let rope = RopeFields {
        original_context_length: Field::Found(4096),
        dimension_count: Field::Found(32),
    };
    assert_eq!(
        rope.resolve(64).unwrap(),
        RopeParams {
            original_max_position_embeddings: Some(4096),
            partial_rotary_factor: Some(Ratio { num: 32, den: 64 }),
        }
    );
    let rope = RopeFields {
        original_context_length: Field::Missing,
        dimension_count: Field::Found(64),
    };
    assert_eq!(
        rope.resolve(64).unwrap(),
        RopeParams { original_max_position_embeddings: None, partial_rotary_factor: None }
    );
    let rope = RopeFields {
        original_context_length: Field::Missing,
        dimension_count: Field::Missing,
    };
    assert_eq!(rope.resolve(64).unwrap().partial_rotary_factor, None);
}

#[test]
fn rotary_fields_of_another_type_are_refused() {
    let md = metadata(vec![("k", Value::U16(32))]);
    let rope = RopeFields {
        original_context_length: md.u32_field("k"),
        dimension_count: Field::Missing,
    };
    assert!(is_candle_error(rope.resolve(64)));
    let rope = RopeFields {
        original_context_length: Field::Missing,
        dimension_count: md.u32_field("k"),
    };
    assert!(is_candle_error(rope.resolve(64)));
}

#[test]
fn the_vocabulary_of_qwen3_is_known() {
    assert_eq!(true_vocab_size(&"qwen3".to_string(), 155648), 151936);
    assert_eq!(true_vocab_size(&"qwen2".to_string(), 155648), 155648);
    assert_eq!(true_vocab_size(&"qwen3moe".to_string(), 155648), 155648);
}

#[test]
fn metadata_is_read_under_its_architecture() {
    let md = metadata(vec![
        ("general.architecture", Value::String("qwen3".to_string())),
        ("qwen3.attention.head_count", Value::U32(16)),
        ("qwen2.attention.head_count_kv", Value::U32(8)),
        ("qwen3.attention.key_length", Value::U32(128)),
        ("qwen3.embedding_length", Value::U32(1024)),
        ("qwen3.context_length", Value::U32(40960)),
        ("qwen3.block_count", Value::U32(28)),
        ("qwen3.attention.layer_norm_rms_epsilon", Value::F32(1e-6)),
        ("qwen3.rope.freq_base", Value::F32(1e6)),
        ("qwen3.rope.scaling.original_context_length", Value::U32(4096)),
        ("qwen3.rope.dimension_count", Value::U32(64)),
    ]);
    let (core, rope) = read_fields(&md).unwrap();
    assert_eq!(core.arch, "qwen3");
    assert!(matches!(core.head_count, Field::Found(16)));
    assert!(matches!(core.head_count_kv, Field::Missing));
    assert!(matches!(core.key_length, Field::Found(128)));
    assert!(matches!(core.embedding_length, Field::Found(1024)));
    assert!(matches!(core.context_length, Field::Found(40960)));
    assert!(matches!(core.block_count, Field::Found(28)));
    assert!(matches!(core.layer_norm_rms_epsilon, Field::Found(_)));
    assert!(matches!(core.freq_base, Field::Found(Single { bits }) if f32::from_bits(bits) == 1e6));
    assert!(matches!(rope.original_context_length, Field::Found(4096)));
    assert!(matches!(rope.dimension_count, Field::Found(64)));
}

#[test]
fn metadata_has_to_name_its_architecture() {
    assert_eq!(missing_key(read_fields(&Metadata::new())), "general.architecture");
    let md = metadata(vec![("general.architecture", Value::U32(3))]);
    assert!(is_candle_error(read_fields(&md)));
}

#[test]
fn a_qwen_configuration_takes_the_shape_that_it_is_given() {
    let cfg = GGUFQWen::into_config::<f64, f32>(
        1024,
        128,
        3072,
        28,
        16,
        8,
        1e6,
        1e-6,
        40960,
        Some(4096),
        Some(0.5),
        DType::BF16,
    );
    assert_eq!(cfg.architectures, Some(vec!["qwen".to_string()]));
    assert_eq!(cfg.hidden_size, 1024);
    assert_eq!(cfg.head_dim, Some(128));
    assert_eq!(cfg.intermediate_size, 3072);
    assert_eq!(cfg.vocab_size, 0);
    assert_eq!(cfg.num_hidden_layers, 28);
    assert_eq!(cfg.num_attention_heads, 16);
    assert_eq!(cfg.num_key_value_heads, Some(8));
    assert_eq!(cfg.rope_theta, 1e6);
    assert_eq!(cfg.rms_norm_eps, 1e-6);
    assert_eq!(cfg.max_seq_len, 40960);
    assert_eq!(cfg.max_position_embeddings, Some(40960));
    assert_eq!(cfg.original_max_position_embeddings, Some(4096));
    assert_eq!(cfg.partial_rotary_factor, Some(0.5));
    assert_eq!(cfg.attention_bias, Some(false));
    assert!(matches!(cfg.bos_token_id, Some(TokenID::Single(Some(151644)))));
    assert!(matches!(cfg.eos_token_id, Some(TokenID::Single(Some(151645)))));
    assert!(matches!(cfg.kvcache_dtype, KvCacheDtype::Auto));
    assert!(!cfg.tie_word_embeddings && !cfg.qk_layernorm && !cfg.is_f16_mode);
    assert!(cfg.sliding_window.is_none() && cfg.rope_scaling.is_none());
    assert!(cfg.quantization_config.is_none() && cfg.moe_config.is_none());
}

#[test]
fn the_configuration_is_completed_with_what_the_file_does_not_hold() {
    let p = CoreParams { ..fields().resolve().unwrap() };
    let rope = RopeParams {
        original_max_position_embeddings: None,
        partial_rotary_factor: Some(Ratio { num: 32, den: 64 }),
    };
    let turbo = KvCacheDtype::Compressed("turbo8".to_string());
    let cfg = base_config(&p, rope, 151936, DType::BF16, turbo);
    assert_eq!(cfg.vocab_size, 151936);
    assert_eq!(cfg.intermediate_size, 0);
    assert_eq!(cfg.hidden_size, 896);
    assert_eq!(cfg.head_dim, Some(64));
    assert_eq!(cfg.max_seq_len, 32768);
    assert_eq!(cfg.rope_theta, Real::Widened(Single { bits: 1_000_000f32.to_bits() }));
    assert_eq!(cfg.rms_norm_eps, Real::Widened(Single { bits: 1e-6f32.to_bits() }));
    assert_eq!(cfg.partial_rotary_factor, Some(Ratio { num: 32, den: 64 }));
    match cfg.kvcache_dtype {
        KvCacheDtype::Compressed(mode) => assert_eq!(mode, "turbo8"),
        KvCacheDtype::Auto => panic!("the compression was lost"),
    }
}
