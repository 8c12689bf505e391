use candle_core::quantized::{GgmlDType, QMatMul, QStorage, QTensor};
use candle_core::{DType, Device, Error, Tensor};
use gguf_qwen::batch::{last_token_positions, select_last_rows, InputMetadata};
use gguf_qwen::layer::LayerWeights;
use gguf_qwen::logits::{cut_logits, flat_logits};
use gguf_qwen::mlp::{fused_glu_enabled, Mlp};
use gguf_qwen::weight::{check_blocks, check_weight};
use std::borrow::Cow;
use std::cell::RefCell;
use std::sync::Arc;

type Op = Box<dyn Fn(&Tensor) -> Result<Tensor, Error>>;

fn matrix(rows: &[&[f32]]) -> Tensor {
    let width = rows[0].len();
    let elems: Vec<f32> = rows.iter().flat_map(|r| r.iter().copied()).collect();
    Tensor::from_vec(elems, (rows.len(), width), &Device::Cpu).unwrap()
}

fn weight(rows: &[&[f32]]) -> QMatMul {
    let q = QTensor::quantize(&matrix(rows), GgmlDType::F32).unwrap();
    QMatMul::from_arc(Arc::new(q)).unwrap()
}

fn block(all_reduce: Option<Op>, dtype: DType) -> Mlp<Op> {
    Mlp {
        feed_forward_w1: weight(&[&[1., 0.], &[0., 1.]]),
        feed_forward_w2: weight(&[&[1., 1.], &[0., 1.]]),
        feed_forward_w3: weight(&[&[2., 0.], &[0., 3.]]),
        all_reduce,
        dtype,
    }
}

fn idle(_: &QMatMul, _: &QMatMul, _: &Tensor) -> Result<Option<Tensor>, Error> {
    Ok(None)
}

fn failing(_: &QMatMul, _: &QMatMul, _: &Tensor) -> Result<Option<Tensor>, Error> {
    Err(Error::Msg("no kernel".to_string()))
}

fn silu(x: f32) -> f32 {
    x / (1. + (-x).exp())
}

fn assert_close(y: &Tensor, expected: &[f32]) {
    let y = y.flatten_all().unwrap().to_vec1::<f32>().unwrap();
    assert_eq!(y.len(), expected.len());
    for (a, b) in y.iter().zip(expected) {
        assert!((a - b).abs() < 1e-4, "{a} is not {b}");
    }
}

fn batch(bounds: Option<Vec<u32>>) -> InputMetadata<()> {
    let cu_seqlens_q = bounds.map(|b| {
        let len = b.len();
        Tensor::from_vec(b, (len,), &Device::Cpu).unwrap()
    });
    InputMetadata { cu_seqlens_q, is_prefill: true, engine: () }
}

#[test]
fn only_zero_turns_the_fused_kernel_off() {
    assert!(fused_glu_enabled(None));
    assert!(!fused_glu_enabled(Some("0".to_string())));
    assert!(fused_glu_enabled(Some("1".to_string())));
    assert!(fused_glu_enabled(Some("00".to_string())));
    assert!(fused_glu_enabled(Some("".to_string())));
}

#[test]
fn gating_is_activated_and_multiplied() {
    let y = block(None, DType::F32).forward(&matrix(&[&[1., 2.]]), &idle, true).unwrap();
    let (a, b) = (silu(1.) * 2., silu(2.) * 6.);
    assert_close(&y, &[a + b, b]);
    assert_close(&y, &[12.031682, 10.569565]);
    assert_eq!(y.dims(), &[1, 2]);
}

#[test]
fn an_idle_kernel_ends_as_one_that_is_off() {
    let mlp = block(None, DType::F32);
    let x = matrix(&[&[1., 2.], &[-3., 0.5]]);
    let tried = mlp.forward(&x, &idle, true).unwrap();
    let off = mlp.forward(&x, &idle, false).unwrap();
    assert_eq!(tried.to_vec2::<f32>().unwrap(), off.to_vec2::<f32>().unwrap());
}

#[test]
fn what_the_fused_kernel_gives_is_taken() {
    let fused = |_: &QMatMul, _: &QMatMul, _: &Tensor| -> Result<Option<Tensor>, Error> {
        Ok(Some(matrix(&[&[5., 7.]])))
    };
    let y = block(None, DType::F32).forward(&matrix(&[&[1., 2.]]), &fused, true).unwrap();
    assert_close(&y, &[12., 7.]);
}

#[test]
fn the_fused_kernel_is_given_gating_and_the_way_up() {
    let fused = |w1: &QMatMul, w3: &QMatMul, x: &Tensor| -> Result<Option<Tensor>, Error> {
        match (w1, w3) {
            (QMatMul::Tensor(a), QMatMul::Tensor(b)) => {
                assert_eq!(a.to_vec2::<f32>().unwrap(), vec![vec![1f32, 0.], vec![0., 1.]]);
                assert_eq!(b.to_vec2::<f32>().unwrap(), vec![vec![2f32, 0.], vec![0., 3.]]);
            }
            _ => panic!("the weights are not spelled out"),
        }
        assert_eq!(x.to_vec2::<f32>().unwrap(), vec![vec![1f32, 2.]]);
        Ok(None)
    };
    assert!(block(None, DType::F32).forward(&matrix(&[&[1., 2.]]), &fused, true).is_ok());
}

#[test]
fn a_kernel_that_is_off_is_not_asked() {
    let mlp = block(None, DType::F32);
    let x = matrix(&[&[1., 2.]]);
    assert!(mlp.forward(&x, &failing, false).is_ok());
    let e = mlp.forward(&x, &failing, true).err().unwrap();
    assert!(e.to_string().contains("no kernel"));
}

#[test]
fn several_ranks_are_summed_in_the_model_type() {
    let seen: Arc<std::sync::Mutex<Vec<DType>>> = Arc::new(std::sync::Mutex::new(Vec::new()));
    let log = seen.clone();
    let sum: Op = Box::new(move |t: &Tensor| {
        log.lock().unwrap().push(t.dtype());
        t + t
    });
    let mlp = block(Some(sum), DType::F16);
    let fused = |_: &QMatMul, _: &QMatMul, _: &Tensor| -> Result<Option<Tensor>, Error> {
        Ok(Some(matrix(&[&[5., 7.]])))
    };
    let y = mlp.forward(&matrix(&[&[1., 2.]]), &fused, true).unwrap();
    assert_eq!(*seen.lock().unwrap(), vec![DType::F16]);
    assert_eq!(y.dtype(), DType::F32);
    assert_close(&y, &[24., 14.]);
}

#[test]
fn a_failing_sum_over_ranks_fails_the_block() {
    let sum: Op = Box::new(|_: &Tensor| Err(Error::Msg("rank lost".to_string())));
    let e = block(Some(sum), DType::F32).forward(&matrix(&[&[1., 2.]]), &idle, true);
    assert!(e.err().unwrap().to_string().contains("rank lost"));
}

#[test]
fn activations_of_another_width_are_refused() {
    assert!(block(None, DType::F32).forward(&matrix(&[&[1., 2., 3.]]), &idle, true).is_err());
}

/// A weight that stays in blocks of the format, all zero.
fn blocks(rows: usize, columns: usize, format: GgmlDType) -> QMatMul {
    let zeros = Tensor::zeros((rows, columns), DType::F32, &Device::Cpu).unwrap();
    QMatMul::QTensor(Arc::new(QTensor::quantize(&zeros, format).unwrap()))
}

#[test]
fn blocks_without_rows_or_columns_are_noticed() {
    let mut mlp = block(None, DType::F32);
    assert!(mlp.check_weights());
    mlp.feed_forward_w3 = blocks(0, 32, GgmlDType::Q8_0);
    assert!(!mlp.check_weights());
    assert!(!check_weight(&blocks(4, 0, GgmlDType::Q4_0)));
    assert!(check_weight(&blocks(4, 32, GgmlDType::Q4_0)));
}

#[test]
fn blocks_that_go_in_pairs_are_counted() {
    for format in [GgmlDType::Q4_1, GgmlDType::Q5_0, GgmlDType::Q5_1] {
        assert!(!check_weight(&blocks(2, 32, format)));
        assert!(check_weight(&blocks(2, 64, format)));
        assert!(!check_weight(&blocks(2, 608, format)));
    }
    assert!(check_weight(&blocks(2, 608, GgmlDType::Q8_0)));
    assert!(check_weight(&blocks(2, 256, GgmlDType::Q4K)));
}

#[test]
fn weights_that_are_spelled_out_are_taken_as_they_are() {
    let empty = Tensor::zeros((0, 2), DType::F32, &Device::Cpu).unwrap();
    assert!(check_weight(&QMatMul::Tensor(empty.clone())));
    assert!(check_weight(&QMatMul::TensorF16(empty)));
    let mlp: Mlp<Op> = Mlp {
        feed_forward_w1: QMatMul::Tensor(Tensor::zeros((0, 2), DType::F32, &Device::Cpu).unwrap()),
        feed_forward_w2: QMatMul::Tensor(Tensor::zeros((2, 0), DType::F32, &Device::Cpu).unwrap()),
        feed_forward_w3: QMatMul::Tensor(Tensor::zeros((0, 2), DType::F32, &Device::Cpu).unwrap()),
        all_reduce: None,
        dtype: DType::F32,
    };
    assert!(mlp.check_weights());
    assert_close(&mlp.forward(&matrix(&[&[1., 2.]]), &idle, true).unwrap(), &[0., 0.]);
}

#[test]
fn a_tensor_with_too_few_blocks_is_noticed() {
    let zeros = Tensor::zeros((2, 32), DType::F32, &Device::Cpu).unwrap();
    let whole = QTensor::quantize(&zeros, GgmlDType::Q8_0).unwrap();
    assert!(check_blocks(&whole));
    let bytes = whole.data().unwrap().into_owned();
    let storage = |len: usize| {
        let data = Cow::Borrowed(&bytes[..len]);
        QStorage::from_data(data, &Device::Cpu, GgmlDType::Q8_0).unwrap()
    };
    assert!(check_blocks(&QTensor::new(storage(bytes.len()), (2, 32)).unwrap()));
    let short = QTensor::new(storage(bytes.len()), (3, 32)).unwrap();
    assert!(!check_blocks(&short));
    let long = QTensor::new(storage(bytes.len()), (1, 32)).unwrap();
    assert!(!check_blocks(&long));
    assert!(!check_weight(&QMatMul::QTensor(Arc::new(long))));
    let none = QTensor::new(storage(0), (usize::MAX, 0, 32)).unwrap();
    assert!(check_blocks(&none));
    let huge = QTensor::new(storage(bytes.len()), (usize::MAX, usize::MAX, 1 << 40)).unwrap();
    assert!(!check_blocks(&huge));
}

#[test]
fn integer_activations_are_refused_or_give_zeros() {
    let mlp = block(None, DType::F32);
    let x = Tensor::from_vec(vec![200u8, 200], (1, 2), &Device::Cpu).unwrap();
    assert!(mlp.forward(&x, &idle, true).is_err());
    let w = || {
        QMatMul::Tensor(Tensor::from_vec(vec![200u8; 4], (2, 2), &Device::Cpu).unwrap())
    };
    let mlp: Mlp<Op> = Mlp {
        feed_forward_w1: w(),
        feed_forward_w2: w(),
        feed_forward_w3: w(),
        all_reduce: None,
        dtype: DType::F32,
    };
    assert!(mlp.forward(&x, &idle, false).is_err());
}

#[test]
fn quantized_weights_multiply_too() {
    let row = vec![1f32; 32];
    let q = QTensor::quantize(
        &Tensor::from_vec(row.clone(), (1, 32), &Device::Cpu).unwrap(),
        GgmlDType::Q8_0,
    )
    .unwrap();
    let w = QMatMul::from_arc(Arc::new(q)).unwrap();
    let one = || {
        QMatMul::Tensor(Tensor::from_vec(vec![1f32], (1, 1), &Device::Cpu).unwrap())
    };
    let mlp: Mlp<Op> = Mlp {
        feed_forward_w1: w.clone(),
        feed_forward_w2: one(),
        feed_forward_w3: w,
        all_reduce: None,
        dtype: DType::F32,
    };
    assert!(mlp.check_weights());
    let x = Tensor::from_vec(vec![0.25f32; 32], (1, 32), &Device::Cpu).unwrap();
    let y = mlp.forward(&x, &idle, false).unwrap();
    let y = y.to_vec2::<f32>().unwrap()[0][0];
    assert!((y - silu(8.) * 8.).abs() < 0.5, "{y}");
}

#[test]
fn sequences_end_at_all_bounds_but_the_first() {
    assert_eq!(batch(Some(vec![0, 3, 5])).sequence_ends().unwrap(), vec![3, 5]);
    assert_eq!(batch(Some(vec![0])).sequence_ends().unwrap(), Vec::<u32>::new());
    assert_eq!(batch(None).sequence_ends().unwrap(), Vec::<u32>::new());
}

#[test]
fn bounds_of_another_type_are_refused() {
    let t = Tensor::from_vec(vec![0i64, 3], (2,), &Device::Cpu).unwrap();
    let md = InputMetadata { cu_seqlens_q: Some(t), is_prefill: true, engine: () };
    assert!(md.sequence_ends().is_err());
    assert!(md.check_bounds(true).is_err());
    let t = Tensor::from_vec(Vec::<i64>::new(), (0,), &Device::Cpu).unwrap();
    let md = InputMetadata { cu_seqlens_q: Some(t), is_prefill: true, engine: () };
    assert!(md.sequence_ends().is_err());
    assert!(md.check_bounds(false).is_err());
    let t = Tensor::from_vec(vec![0u32, 3], (1, 2), &Device::Cpu).unwrap();
    let md = InputMetadata { cu_seqlens_q: Some(t), is_prefill: true, engine: () };
    assert!(md.sequence_ends().is_err());
}

#[test]
fn bounds_are_tested() {
    assert!(batch(None).check_bounds(true).unwrap());
    assert!(batch(Some(vec![0, 3, 5])).check_bounds(true).unwrap());
    assert!(!batch(Some(vec![])).check_bounds(false).unwrap());
    assert!(!batch(Some(vec![0, 0])).check_bounds(true).unwrap());
    assert!(batch(Some(vec![0, 0])).check_bounds(false).unwrap());
    assert!(batch(Some(vec![0])).check_bounds(true).unwrap());
}

#[test]
fn the_last_token_stands_before_the_end() {
    assert_eq!(last_token_positions(&vec![3, 5]), vec![2, 4]);
    assert_eq!(last_token_positions(&vec![u32::MAX]), vec![u32::MAX - 1]);
    assert_eq!(last_token_positions(&vec![]), Vec::<u32>::new());
}

#[test]
fn one_row_is_taken_for_each_sequence() {
    let x = matrix(&[&[1., 10.], &[2., 20.], &[3., 30.], &[4., 40.], &[5., 50.]]);
    let y = select_last_rows(&x, &vec![3, 5]).unwrap();
    assert_eq!(y.to_vec2::<f32>().unwrap(), vec![vec![3f32, 30.], vec![5., 50.]]);
}

#[test]
fn a_sequence_cannot_end_behind_the_tokens() {
    let x = matrix(&[&[1.], &[2.]]);
    assert!(select_last_rows(&x, &vec![3]).is_err());
}

#[test]
fn padding_is_cut_off_the_projection() {
    let p = matrix(&[&[1., 2., 99.], &[4., 5., 99.]]);
    let cut = cut_logits(&p, 2).unwrap();
    assert_eq!(cut.to_vec2::<f32>().unwrap(), vec![vec![1f32, 2.], vec![4., 5.]]);
    assert!(!cut.is_contiguous());
}

#[test]
fn flat_logits_hold_the_same_in_one_piece() {
    let p = matrix(&[&[1., 2., 99.], &[4., 5., 99.]]);
    let flat = flat_logits(&p, 2).unwrap();
    assert!(flat.is_contiguous());
    assert_eq!(
        flat.to_vec2::<f32>().unwrap(),
        cut_logits(&p, 2).unwrap().to_vec2::<f32>().unwrap()
    );
}

#[test]
fn logits_are_32_bit_floats() {
    let p = matrix(&[&[1.5, 2.25, 99.]]).to_dtype(DType::F16).unwrap();
    for logits in [cut_logits(&p, 2).unwrap(), flat_logits(&p, 2).unwrap()] {
        assert_eq!(logits.dtype(), DType::F32);
        assert_eq!(logits.to_vec2::<f32>().unwrap(), vec![vec![1.5f32, 2.25]]);
    }
}

#[test]
fn all_columns_come_back_where_the_widths_agree() {
    let p = matrix(&[&[1., 2., 3.], &[4., 5., 6.]]);
    for p in [p.clone(), p.to_dtype(DType::BF16).unwrap(), p.to_dtype(DType::F64).unwrap()] {
        for logits in [cut_logits(&p, 3).unwrap(), flat_logits(&p, 3).unwrap()] {
            let rows = logits.to_vec2::<f32>().unwrap();
            assert_eq!(rows, vec![vec![1f32, 2., 3.], vec![4., 5., 6.]]);
        }
    }
}

#[test]
fn columns_behind_the_vocabulary_do_not_matter() {
    let p = matrix(&[&[1., 2., 99.], &[4., 5., 99.]]);
    let q = matrix(&[&[1., 2., -7., 8.], &[4., 5., f32::NAN, 0.]]);
    assert_eq!(
        flat_logits(&p, 2).unwrap().to_vec2::<f32>().unwrap(),
        flat_logits(&q, 2).unwrap().to_vec2::<f32>().unwrap()
    );
}

#[test]
fn a_projection_narrower_than_the_vocabulary_is_refused() {
    let p = matrix(&[&[1., 2., 3.]]);
    assert!(cut_logits(&p, 4).is_err());
    assert!(flat_logits(&p, 4).is_err());
    assert_eq!(cut_logits(&p, 3).unwrap().dims(), &[1, 3]);
}

#[test]
fn a_layer_adds_its_blocks_to_what_it_is_given() {
    let order = RefCell::new(Vec::new());
    let attention = |x: &Tensor,
                     _: Option<&Vec<Tensor>>,
                     _: &Tensor,
                     _: Option<(&Tensor, &Tensor)>,
                     _: &InputMetadata<()>|
     -> Result<Tensor, Error> {
        order.borrow_mut().push("attention");
        x * 10.
    };
    let norm: Op = Box::new(|x: &Tensor| x + 1.);
    let ffn_norm: Op = Box::new(|x: &Tensor| x * 2.);
    let layer = LayerWeights {
        self_attn: attention,
        attention_norm: norm,
        mlp: block(None, DType::F32),
        ffn_norm,
    };
    let fused = |_: &QMatMul, _: &QMatMul, x: &Tensor| -> Result<Option<Tensor>, Error> {
        order.borrow_mut().push("mlp");
        Ok(Some(x.clone()))
    };
    let positions = Tensor::from_vec(vec![0u32], (1,), &Device::Cpu).unwrap();
    let x = matrix(&[&[1., 2.]]);
    let y = layer.forward(&x, None, &positions, None, &batch(None), &fused, true).unwrap();
    // (x + 1) * 10 + x = [21, 32]; doubled [42, 64]; down [106, 64]; summed [127, 96].
    assert_eq!(y.to_vec2::<f32>().unwrap(), vec![vec![127f32, 96.]]);
    assert_eq!(y.dims(), x.dims());
    assert_eq!(*order.borrow(), vec!["attention", "mlp"]);
}

#[test]
fn a_failing_norm_fails_the_layer_before_its_attention() {
    let attention = |_: &Tensor,
                     _: Option<&Vec<Tensor>>,
                     _: &Tensor,
                     _: Option<(&Tensor, &Tensor)>,
                     _: &InputMetadata<()>|
     -> Result<Tensor, Error> { panic!("the attention was run") };
    let norm: Op = Box::new(|_: &Tensor| Err(Error::Msg("norm".to_string())));
    let ffn_norm: Op = Box::new(|x: &Tensor| Ok(x.clone()));
    let layer = LayerWeights {
        self_attn: attention,
        attention_norm: norm,
        mlp: block(None, DType::F32),
        ffn_norm,
    };
    let positions = Tensor::from_vec(vec![0u32], (1,), &Device::Cpu).unwrap();
    let x = matrix(&[&[1., 2.]]);
    let e = layer.forward(&x, None, &positions, None, &batch(None), &idle, true);
    assert!(e.err().unwrap().to_string().contains("norm"));
}

#[test]
fn an_attention_of_another_shape_is_refused() {
    let attention = |_: &Tensor,
                     _: Option<&Vec<Tensor>>,
                     _: &Tensor,
                     _: Option<(&Tensor, &Tensor)>,
                     _: &InputMetadata<()>|
     -> Result<Tensor, Error> { Ok(matrix(&[&[1., 2., 3.]])) };
    let norm: Op = Box::new(|x: &Tensor| Ok(x.clone()));
    let ffn_norm: Op = Box::new(|x: &Tensor| Ok(x.clone()));
    let layer = LayerWeights {
        self_attn: attention,
        attention_norm: norm,
        mlp: block(None, DType::F32),
        ffn_norm,
    };
    let positions = Tensor::from_vec(vec![0u32], (1,), &Device::Cpu).unwrap();
    let x = matrix(&[&[1., 2.]]);
    assert!(layer.forward(&x, None, &positions, None, &batch(None), &idle, true).is_err());
}
