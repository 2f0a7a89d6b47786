use rwkv_hip::launch::{Launch, Unary, Wkv7};
use rwkv_hip::model::forward_chunks::check_chunk;
use rwkv_hip::model::forward_task::Progress;
use rwkv_hip::model::hip_prefill::HipPrefill;
use rwkv_hip::model::load::is_loadable;
use rwkv_hip::model::load_run::ModelLoadError;
use rwkv_hip::model::state::{HipState, StateLayout};
use rwkv_hip::model::{Rwkv7Hip, Rwkv7Model};
use rwkv_hip::probe::{HipHook, HipProbeBuilder};
use rwkv_hip::runtime::{HipRuntime, InferProgress, TensorCpu};
use rwkv_hip::scratch::HipRuntimeConfig;
use rwkv_hip::stream::{Command, CommandOf, Elem, HostData, Stream};
use rwkv_hip::tensor::TensorShape;
use rwkv_hip::tensor_file::{Entry, TensorFile, Values};
use std::collections::HashMap;

const N_LAYER: usize = 2;
const N_EMBD: usize = 8;
const N_HEAD: usize = 2;
const HEAD_SIZE: usize = 4;
const N_VOCAB: usize = 70;
const N_HIDDEN: usize = 16;

fn entry(name: &str, shape: &[usize]) -> Entry {
    let n: usize = shape.iter().product();
    let seed = name.len() as u16;
    Entry {
        name: name.to_string(),
        kind: "F16".to_string(),
        shape: shape.to_vec(),
        values: Values::Half((0..n).map(|i| seed.wrapping_add(i as u16)).collect()),
    }
}

fn entries() -> Vec<Entry> {
    let mut v = vec![
        entry("emb.weight", &[N_VOCAB, N_EMBD]),
        entry("blocks.0.ln0.weight", &[N_EMBD]),
        entry("blocks.0.ln0.bias", &[N_EMBD]),
        entry("ln_out.weight", &[N_EMBD]),
        entry("ln_out.bias", &[N_EMBD]),
        entry("head.weight", &[N_VOCAB, N_EMBD]),
    ];
    for i in 0..N_LAYER {
        let p = format!("blocks.{i}");
        for ln in ["ln1", "ln2", "att.ln_x"] {
            v.push(entry(&format!("{p}.{ln}.weight"), &[N_EMBD]));
            v.push(entry(&format!("{p}.{ln}.bias"), &[N_EMBD]));
        }
        for x in ["x_r", "x_w", "x_k", "x_v", "x_a", "x_g", "w0", "a0", "k_k", "k_a"] {
            v.push(entry(&format!("{p}.att.{x}"), &[1, 1, N_EMBD]));
        }
        for (x, rank) in [("w", 3), ("a", 2), ("g", 5)] {
            v.push(entry(&format!("{p}.att.{x}1"), &[rank, N_EMBD]));
            v.push(entry(&format!("{p}.att.{x}2"), &[N_EMBD, rank]));
        }
        if i > 0 {
            v.push(entry(&format!("{p}.att.v0"), &[1, 1, N_EMBD]));
            v.push(entry(&format!("{p}.att.v1"), &[6, N_EMBD]));
            v.push(entry(&format!("{p}.att.v2"), &[N_EMBD, 6]));
        }
        v.push(entry(&format!("{p}.att.r_k"), &[N_HEAD, HEAD_SIZE]));
        for x in ["receptance", "key", "value", "output"] {
            v.push(entry(&format!("{p}.att.{x}.weight"), &[N_EMBD, N_EMBD]));
        }
        v.push(entry(&format!("{p}.ffn.x_k"), &[1, 1, N_EMBD]));
        v.push(entry(&format!("{p}.ffn.key.weight"), &[N_HIDDEN, N_EMBD]));
        v.push(entry(&format!("{p}.ffn.value.weight"), &[N_EMBD, N_HIDDEN]));
    }
    v
}

fn load(stream: &mut Stream) -> Rwkv7Hip {
    let file = TensorFile::of(entries()).unwrap();
    assert!(is_loadable(&file));
    Rwkv7Hip::load(&file, stream).expect("Failed to load model")
}

fn configured(chunk: usize, batch: usize, stream: &mut Stream) -> Rwkv7Hip {
    load(stream)
        .with_config(HipRuntimeConfig::new(chunk, batch), stream)
        .expect("Failed to configure model")
}

/// A device that moves data and runs no kernel.
struct Device {
    buffers: HashMap<usize, Vec<u32>>,
}

fn bits(data: &HostData) -> Vec<u32> {
    match data {
        HostData::F16(v) => v.iter().map(|x| *x as u32).collect(),
        HostData::F32(v) => v.clone(),
        HostData::I32(v) => v.iter().map(|x| *x as u32).collect(),
        HostData::U32(v) => v.clone(),
    }
}

fn typed(elem: Elem, v: Vec<u32>) -> HostData {
    match elem {
        Elem::F16 => HostData::F16(v.iter().map(|x| *x as u16).collect()),
        Elem::F32 => HostData::F32(v),
        Elem::I32 => HostData::I32(v.iter().map(|x| *x as i32).collect()),
        Elem::U32 => HostData::U32(v),
    }
}

impl Device {
    fn new() -> Device {
        Device { buffers: HashMap::new() }
    }

    fn run(&mut self, stream: &mut Stream) -> Vec<HostData> {
        let mut replies = Vec::new();
        for command in stream.take() {
            match command {
                CommandOf::Alloc { buffer, len, zeroed, .. } => {
                    let fill = if zeroed { 0 } else { 0xdead_beef };
                    assert!(self.buffers.insert(buffer, vec![fill; len]).is_none());
                }
                CommandOf::Upload { dst, data } => {
                    let v = bits(&data);
                    let buffer = self.buffers.get_mut(&dst.buffer).unwrap();
                    buffer[dst.offset..dst.offset + v.len()].copy_from_slice(&v);
                }
                CommandOf::Download { src, elem, len } => {
                    let buffer = &self.buffers[&src.buffer];
                    replies.push(typed(elem, buffer[src.offset..src.offset + len].to_vec()));
                }
                CommandOf::Zero { dst, len, .. } => {
                    let buffer = self.buffers.get_mut(&dst.buffer).unwrap();
                    buffer[dst.offset..dst.offset + len].fill(0);
                }
                _ => {}
            }
        }
        replies
    }
}


fn launches(commands: &[Command]) -> Vec<Launch> {
    commands
        .iter()
        .filter_map(|c| match c {
            CommandOf::Launch(l) => Some(*l),
            _ => None,
        })
        .collect()
}

fn fused(commands: &[Command]) -> usize {
    launches(commands).iter().filter(|l| matches!(l, Launch::Wkv7FusedT1 { .. })).count()
}

fn chunked(commands: &[Command]) -> usize {
    launches(commands).iter().filter(|l| matches!(l, Launch::FlaChunkO { .. })).count()
}

#[test]
fn a_file_gives_the_dimensions() {
    let mut stream = Stream::new();
    let model = load(&mut stream);
    let info = model.info();
    assert_eq!(info.n_layer, 2);
    assert_eq!(info.n_embd, 8);
    assert_eq!(info.n_head, 2);
    assert_eq!(info.head_size, 4);
    assert_eq!(info.n_vocab, 70);
    assert_eq!(info.n_hidden, 16);
    let lora = model.lora_dims();
    assert_eq!((lora.w_dim, lora.a_dim, lora.g_dim, lora.v_dim), (3, 2, 5, Some(6)));
    assert_eq!(model.get_embedding().len(), 70 * 8);
    assert!(model.scratch.is_none());
}

#[test]
fn weights_reach_the_device_by_columns() {
    let mut device = Device::new();
    let mut stream = Stream::new();
    let model = load(&mut stream);
    device.run(&mut stream);
    let key = model.get_weight("blocks.1.ffn.key.weight").unwrap();
    assert_eq!(key.shape(), TensorShape::new(16, 8, 1, 1));
    let head = model.read_weight_head("blocks.1.ffn.key.weight", 3, &mut stream).unwrap();
    let got = head.finish(device.run(&mut stream)).unwrap();
    let seed = "blocks.1.ffn.key.weight".len() as u16;
    assert_eq!(got, vec![seed, seed + 8, seed + 16]);
    assert!(model.get_weight("blocks.2.ffn.key.weight").is_none());
    assert!(model.get_weight("blocks.0.att.v0").is_none());
}

#[test]
fn missing_tensors_are_named() {
    for name in ["emb.weight", "blocks.0.att.r_k", "blocks.1.att.g2", "head.weight"] {
        let v: Vec<Entry> = entries().into_iter().filter(|e| e.name != name).collect();
        let file = TensorFile::of(v).unwrap();
        let mut stream = Stream::new();
        match Rwkv7Hip::load(&file, &mut stream) {
            Err(ModelLoadError::SafeTensor(m)) => {
                assert_eq!(m, format!("{name}: tensor `{name}` not found"))
            }
            _ => panic!("a missing tensor was expected"),
        }
    }
}

#[test]
fn odd_tensors_are_refused() {
    let mut v = entries();
    for e in &mut v {
        if e.name == "head.weight" {
            e.shape = vec![1, N_VOCAB, N_EMBD];
        }
    }
    match Rwkv7Model::load(&TensorFile::of(v).unwrap(), &mut Stream::new()) {
        Err(ModelLoadError::InvalidModel(m)) => {
            assert_eq!(m, "Weight matrix head.weight must be 2D, got [1, 70, 8]")
        }
        _ => panic!("a matrix of three axes was to be refused"),
    }
    let mut v = entries();
    for e in &mut v {
        if e.name == "ln_out.bias" {
            e.kind = "I8".to_string();
            e.values = Values::Unsupported;
        }
    }
    match Rwkv7Model::load(&TensorFile::of(v).unwrap(), &mut Stream::new()) {
        Err(ModelLoadError::InvalidModel(m)) => {
            assert_eq!(m, "Unsupported dtype I8 for tensor ln_out.bias")
        }
        _ => panic!("an unknown element type was to be refused"),
    }
    let v: Vec<Entry> = entries().into_iter().filter(|e| !e.name.starts_with("blocks.")).collect();
    match Rwkv7Model::load(&TensorFile::of(v).unwrap(), &mut Stream::new()) {
        Err(ModelLoadError::SafeTensor(m)) => {
            assert_eq!(m, "blocks.0.att.r_k: tensor `blocks.0.att.r_k` not found")
        }
        _ => panic!("a model without layers was to be refused"),
    }
}

/// Test that step() API works with (logits, state) return.
#[test]
fn test_step_basic() {
    let mut device = Device::new();
    let mut stream = Stream::new();
    let mut model = configured(256, 1, &mut stream);

    let tokens: Vec<u32> = vec![1, 2, 3, 4, 5];
    let pending = model.step(&[&tokens], None, &mut stream).expect("step() failed");
    let (logits, _state) = pending.finish(device.run(&mut stream)).expect("step() failed");

    // Should return vocab_size * T logits
    let expected_len = model.info().n_vocab * tokens.len();
    assert_eq!(
        logits.len(),
        expected_len,
        "Expected {} logits, got {}",
        expected_len,
        logits.len()
    );
}

/// Test that forward() convenience wrapper works.
#[test]
fn test_forward_convenience_wrapper() {
    let mut device = Device::new();
    let mut stream = Stream::new();
    let mut model = configured(2, 1, &mut stream);
    let tokens = vec![1u32, 2, 3, 4, 5];

    let mut task = model.forward(&[&tokens], None, &mut stream).expect("forward() failed");
    let mut chunks = 1;
    let logits = loop {
        let replies = device.run(&mut stream);
        match task.advance(&mut model, replies, &mut stream).unwrap().expect("forward() failed") {
            Progress::Done { logits, .. } => break logits,
            Progress::More(next) => {
                task = next;
                chunks += 1;
            }
        }
    };

    // Should return vocab_size * T logits
    let expected_len = model.info().n_vocab * tokens.len();
    assert_eq!(
        logits.len(),
        expected_len,
        "Expected {} logits, got {}",
        expected_len,
        logits.len()
    );
    assert_eq!(chunks, 3);
}

/// Test batch size mismatch error when state batch_size != input batch size.
#[test]
fn step_test_batch_size_mismatch_error() {
    let mut stream = Stream::new();
    let mut model = configured(256, 3, &mut stream);

    // State with batch_size=2, but provide 3 sequences
    let state = HipState::new(model.info(), 2).expect("Failed to allocate state");
    let result = model.step(&[&[1u32], &[2u32], &[3u32]], Some(state), &mut stream);

    assert!(result.is_err(), "Should error on batch size mismatch");
    assert_eq!(
        result.err().unwrap().message,
        "State batch_size mismatch: state has 2 but input has 3 sequences"
    );
}

/// Test batch size mismatch error.
#[test]
fn mod_test_batch_size_mismatch_error() {
    let mut stream = Stream::new();
    let mut model = configured(256, 3, &mut stream);

    // State with batch_size=2, but provide 3 sequences
    let state = HipState::zeros(model.info(), 2);
    let result = model.forward(&[&[1u32], &[2u32], &[3u32]], Some(state), &mut stream);

    assert!(result.is_err(), "Should error on batch size mismatch");
}

/// Test sequence length mismatch error.
#[test]
fn test_sequence_length_mismatch_error() {
    // Two sequences with different lengths
    let result = check_chunk(
        &[&[1u32, 2, 3], &[4u32, 5]], // length 3 vs length 2
        &[3, 2],
        &HipRuntimeConfig::new(256, 2),
    );

    assert!(result.is_err(), "Should error on sequence length mismatch");
    assert_eq!(
        result.unwrap_err().message,
        "Sequence length mismatch: sequence 0 has 3 tokens but sequence 1 has 2"
    );
}

/// Test variable-length sequences (now supported, not an error).
#[test]
fn test_variable_length_sequences() {
    let mut device = Device::new();
    let mut stream = Stream::new();
    let mut model = configured(256, 2, &mut stream);

    // Two sequences with different lengths - should now work
    let seq1: Vec<u32> = vec![1, 2, 3]; // length 3
    let seq2: Vec<u32> = vec![4, 5]; // length 2
    let result = model.step(&[&seq1, &seq2], None, &mut stream);

    assert!(
        result.is_ok(),
        "Variable-length sequences should be supported"
    );

    let (logits, _) = result.unwrap().finish(device.run(&mut stream)).unwrap();
    let vocab = model.info().n_vocab;
    // Logits should have (3 + 2) * vocab elements
    assert_eq!(
        logits.len(),
        5 * vocab,
        "Should have logits for all 5 tokens"
    );
}

#[test]
fn one_token_is_fused_and_more_are_chunked() {
    let mut stream = Stream::new();
    let mut model = configured(256, 1, &mut stream);
    stream.take();
    let tokens: Vec<u32> = (1..=64).collect();

    model.step(&[&tokens[..1]], None, &mut stream).unwrap();
    let commands = stream.take();
    assert_eq!((fused(&commands), chunked(&commands)), (N_LAYER, 0));

    model.step(&[&tokens], None, &mut stream).unwrap();
    let commands = stream.take();
    assert_eq!((fused(&commands), chunked(&commands)), (0, N_LAYER));
    // 64 tokens in chunks of 16.
    assert!(launches(&commands).iter().any(|l| matches!(
        l,
        Launch::FlaCumsum { c: 16, total_chunks: 4, .. }
    )));

    model.step(&[&tokens[..2]], None, &mut stream).unwrap();
    let commands = stream.take();
    assert_eq!((fused(&commands), chunked(&commands)), (0, N_LAYER));
}

#[test]
fn prefill_is_always_chunked() {
    let mut device = Device::new();
    let mut stream = Stream::new();
    let model = load(&mut stream).model();
    let mut prefill = HipPrefill::new(model, HipRuntimeConfig::prefill(16), &mut stream).unwrap();
    let start = stream.commands().len();
    let pending = prefill.prefill(&[&[7u32]], &mut stream).unwrap();
    assert_eq!(fused(&stream.commands()[start..]), 0);
    assert_eq!(chunked(&stream.commands()[start..]), N_LAYER);
    let logits = pending.finish(device.run(&mut stream)).unwrap();
    assert_eq!(logits.len(), N_VOCAB);

    prefill.reset_state(&mut stream);
    let state = prefill.get_state(&mut stream).finish(device.run(&mut stream)).unwrap();
    assert_eq!(state.batch_size, 1);
    assert_eq!(state.layout, StateLayout::Fla);
    assert!(state.att_states.iter().all(|s| s.len() == 4 * 4 * 2 && s.iter().all(|&x| x == 0)));
}

#[test]
fn requests_that_do_not_fit_are_refused() {
    let mut stream = Stream::new();
    let mut bare = load(&mut stream);
    let text = |r: Result<_, rwkv_hip::error::HipErrorKind>| -> String {
        let e: Option<rwkv_hip::error::HipErrorKind> = match r {
            Ok(()) => None,
            Err(e) => Some(e),
        };
        e.unwrap().message
    };
    assert_eq!(
        text(bare.step(&[&[1u32]], None, &mut stream).map(|_| ())),
        "Scratch not initialized - call with_config() first"
    );
    assert_eq!(
        text(bare.reset_resident_state(&mut stream)),
        "Scratch not initialized - call with_config() first"
    );
    let mut model = configured(4, 2, &mut stream);
    assert_eq!(text(model.step(&[], None, &mut stream).map(|_| ())), "Empty batch");
    assert_eq!(
        text(model.step(&[&[1u32], &[1], &[1]], None, &mut stream).map(|_| ())),
        "Batch size 3 exceeds configured max 2"
    );
    assert_eq!(
        text(model.step(&[&[], &[]], None, &mut stream).map(|_| ())),
        "All sequences are empty"
    );
    assert_eq!(
        text(model.step(&[&[1u32, 2, 3], &[4]], None, &mut stream).map(|_| ())),
        "step() requires effective token count <= chunk_size (6 vs 4)"
    );
    assert_eq!(
        text(model.read_state(2, &mut stream).map(|_| ())),
        "batch_idx 2 out of range for batch_size 2"
    );
}

fn numbered(model: &Rwkv7Hip, from: u16) -> HipState {
    let mut state = HipState::zeros(model.info(), 1);
    let mut n = from;
    for i in 0..N_LAYER {
        for x in &mut state.att_states[i] {
            *x = 0x1_0000 + n as u32;
            n += 1;
        }
        for x in &mut state.att_shift_states[i] {
            *x = n;
            n += 1;
        }
        for x in &mut state.ffn_states[i] {
            *x = n;
            n += 1;
        }
    }
    state
}

fn same(a: &HipState, b: &HipState) -> bool {
    a.att_states == b.att_states
        && a.att_shift_states == b.att_shift_states
        && a.ffn_states == b.ffn_states
}

#[test]
fn a_written_state_is_read_back() {
    let mut device = Device::new();
    let mut stream = Stream::new();
    let model = configured(4, 3, &mut stream);
    let first = numbered(&model, 1);
    let second = numbered(&model, 1000);
    model.write_state(0, &first, &mut stream).unwrap();
    model.write_state(2, &second, &mut stream).unwrap();
    device.run(&mut stream);
    for (i, want) in [(0, &first), (2, &second)] {
        let pending = model.read_state(i, &mut stream).unwrap();
        let got = pending.finish(device.run(&mut stream)).unwrap();
        assert_eq!(got.batch_size, 1);
        assert!(got.v_first.is_none());
        assert!(same(&got, want));
    }
    let pending = model.read_state(1, &mut stream).unwrap();
    let got = pending.finish(device.run(&mut stream)).unwrap();
    assert!(same(&got, &HipState::zeros(model.info(), 1)));
}

#[test]
fn a_reset_state_reads_as_zeros() {
    let mut device = Device::new();
    let mut stream = Stream::new();
    let model = configured(4, 2, &mut stream);
    model.write_state(1, &numbered(&model, 1), &mut stream).unwrap();
    model.reset_resident_state(&mut stream).unwrap();
    let pending = model.read_state(1, &mut stream).unwrap();
    let got = pending.finish(device.run(&mut stream)).unwrap();
    assert!(same(&got, &HipState::zeros(model.info(), 1)));
}

#[test]
fn a_step_uploads_the_state_that_it_is_given() {
    let mut device = Device::new();
    let mut stream = Stream::new();
    let mut model = configured(4, 1, &mut stream);
    let state = numbered(&model, 5);
    // The device runs no kernels, so that the state comes back as it went.
    let pending = model.step(&[&[3u32]], Some(state.duplicate()), &mut stream).unwrap();
    let (_, after) = pending.finish(device.run(&mut stream)).unwrap();
    assert!(same(&after, &state));
    assert_eq!(after.layout, StateLayout::Decode);
    // Without a state, a step starts from zero.
    let pending = model.step(&[&[3u32]], None, &mut stream).unwrap();
    let (_, after) = pending.finish(device.run(&mut stream)).unwrap();
    assert!(same(&after, &HipState::zeros(model.info(), 1)));
}

#[test]
fn replies_that_were_not_asked_for_are_refused() {
    let mut device = Device::new();
    let mut stream = Stream::new();
    let mut model = configured(4, 1, &mut stream);
    let pending = model.step(&[&[3u32]], None, &mut stream).unwrap();
    let mut replies = device.run(&mut stream);
    replies.pop();
    assert!(pending.finish(replies).is_none());
    let pending = model.infer_resident(&[&[3u32]], &mut stream).unwrap();
    device.run(&mut stream);
    assert!(pending.finish(vec![HostData::F32(vec![0; 3])]).is_none());
}

#[test]
fn embeddings_are_staged_in_token_order() {
    let mut stream = Stream::new();
    let mut model = configured(3, 1, &mut stream);
    stream.take();
    model.infer_resident(&[&[9u32, 0, 2]], &mut stream).unwrap();
    let table: Vec<u16> = model.get_embedding().to_vec();
    let mut want: Vec<u16> = Vec::new();
    for t in [9usize, 0, 2] {
        want.extend(&table[t * N_EMBD..(t + 1) * N_EMBD]);
    }
    let commands = stream.take();
    let staged = commands.iter().any(
        |c| matches!(c, CommandOf::Upload { data: HostData::F16(v), .. } if *v == want),
    );
    assert!(staged);
    // The real lengths go along for the masked kernels.
    let lens = commands.iter().any(
        |c| matches!(c, CommandOf::Upload { data: HostData::I32(v), .. } if *v == vec![3]),
    );
    assert!(lens);
}

#[test]
fn probes_see_the_layers_in_order() {
    let mut stream = Stream::new();
    let probes = HipProbeBuilder::new()
        .on(HipHook::PostEmbed, 1)
        .on_many(&[HipHook::PreWkv, HipHook::PostFfn], 2)
        .build();
    let mut model = configured(4, 1, &mut stream).with_probes(probes);
    stream.take();
    model.infer_resident(&[&[1u32, 2]], &mut stream).unwrap();
    let seen: Vec<(HipHook, usize, Option<usize>, Vec<usize>)> = stream
        .take()
        .iter()
        .filter_map(|c| match c {
            CommandOf::Probe(p) => {
                let context = p.context();
                Some((p.hook, p.callback, context.layer, context.shape().to_vec()))
            }
            _ => None,
        })
        .collect();
    assert_eq!(
        seen,
        vec![
            (HipHook::PostEmbed, 1, None, vec![8, 2, 1]),
            (HipHook::PreWkv, 2, Some(0), vec![48, 2, 1, 1]),
            (HipHook::PostFfn, 2, Some(0), vec![8, 2, 1]),
            (HipHook::PreWkv, 2, Some(1), vec![48, 2, 1, 1]),
            (HipHook::PostFfn, 2, Some(1), vec![8, 2, 1]),
        ]
    );
}

#[test]
fn an_asynchronous_pass_ends_with_half_precision_logits() {
    let mut device = Device::new();
    let mut stream = Stream::new();
    let mut model = configured(4, 2, &mut stream);
    let done = model.forward_async(&[&[1u32, 2], &[3, 4]], None, &mut stream).unwrap();
    let commands: Vec<Launch> = launches(stream.commands());
    assert!(commands.iter().any(|l| matches!(l, Launch::Wkv7 { kernel: Wkv7::F16Masked, .. })));
    let (logits, state) = done.wait(device.run(&mut stream)).unwrap();
    assert_eq!(logits.len(), 4 * N_VOCAB);
    assert_eq!(state.batch_size, 2);
}

#[test]
fn test_hip_runtime_construction() {
    let mut stream = Stream::new();
    let model = load(&mut stream);
    let vocab_size = model.info().n_vocab;
    let n_embd = model.info().n_embd;

    let runtime = HipRuntime::new(model, 4);

    assert_eq!(runtime.info().n_vocab, vocab_size);
    assert_eq!(runtime.info().n_embd, n_embd);
    assert_eq!(runtime.num_batch(), 4);
}

#[test]
fn test_hip_runtime_state_reset() {
    let mut stream = Stream::new();
    let model = load(&mut stream);
    let mut runtime = HipRuntime::new(model, 1);

    // Should not panic
    runtime.reset_state();

    // Verify state is reset
    let state = runtime.get_state_snapshot();
    assert!(state.v_first.is_none());
}

#[test]
fn test_pad_sequences_equal_length() {
    let mut stream = Stream::new();
    let runtime = HipRuntime::new(load(&mut stream), 2);

    // No padding needed when all same length
    let seq1: Vec<u32> = vec![1, 2, 3];
    let seq2: Vec<u32> = vec![4, 5, 6];
    let (padded, lengths) = runtime.pad_sequences(&[&seq1, &seq2]);

    assert_eq!(lengths, vec![3, 3]);
    assert_eq!(padded[0], vec![1, 2, 3]);
    assert_eq!(padded[1], vec![4, 5, 6]);
}

#[test]
fn test_pad_sequences_variable_length() {
    let mut stream = Stream::new();
    let runtime = HipRuntime::new(load(&mut stream), 2);

    // Variable lengths - should pad shorter sequence
    let seq1: Vec<u32> = vec![1, 2, 3, 4, 5];
    let seq2: Vec<u32> = vec![10, 20];
    let (padded, lengths) = runtime.pad_sequences(&[&seq1, &seq2]);

    assert_eq!(lengths, vec![5, 2]);
    assert_eq!(padded[0], vec![1, 2, 3, 4, 5]);
    assert_eq!(padded[1], vec![10, 20, 0, 0, 0]); // Padded with zeros
}

fn marked_logits(vocab_size: usize) -> TensorCpu<f32> {
    // [vocab_size, max_len * batch_size, 1, 1] with batch_size=2, max_len=3
    let max_len = 3;
    let batch_size = 2;
    let total = vocab_size * max_len * batch_size;
    let mut data = vec![0.0f32; total];

    // Batch 0, token 0: all 1.0
    // Batch 0, token 1: all 2.0
    // Batch 0, token 2: all 3.0
    // Batch 1, token 0: all 10.0
    // Batch 1, token 1: all 20.0
    // Batch 1, token 2: all 30.0
    for b in 0..batch_size {
        for t in 0..max_len {
            let base_val = if b == 0 { (t + 1) as f32 } else { ((t + 1) * 10) as f32 };
            for v in 0..vocab_size {
                data[(b * max_len + t) * vocab_size + v] = base_val;
            }
        }
    }
    TensorCpu::from_data(TensorShape::new(vocab_size, max_len * batch_size, 1, 1), data).unwrap()
}

#[test]
fn test_extract_last_logits() {
    let mut stream = Stream::new();
    let model = load(&mut stream);
    let vocab_size = model.info().n_vocab;
    let runtime = HipRuntime::new(model, 2);
    let logits = marked_logits(vocab_size);
    let max_len = 3;

    // lengths = [2, 3] means batch 0 has 2 real tokens, batch 1 has 3
    let lengths = vec![2, 3];
    let extracted = runtime.extract_last_logits(&logits, &lengths, max_len);

    // Batch 0: last real token is at index 1 (value 2.0)
    assert_eq!(extracted[0][0], 2.0);
    // Batch 1: last real token is at index 2 (value 30.0)
    assert_eq!(extracted[1][0], 30.0);
}

#[test]
fn test_extract_all_logits() {
    let mut stream = Stream::new();
    let model = load(&mut stream);
    let vocab_size = model.info().n_vocab;
    let runtime = HipRuntime::new(model, 2);
    let logits = marked_logits(vocab_size);
    let max_len = 3;

    // lengths = [2, 3]
    let lengths = vec![2, 3];
    let extracted = runtime.extract_all_logits(&logits, &lengths, max_len);

    // Batch 0: 2 tokens * vocab_size
    assert_eq!(extracted[0].len(), 2 * vocab_size);
    assert_eq!(extracted[0][0], 1.0); // token 0
    assert_eq!(extracted[0][vocab_size], 2.0); // token 1

    // Batch 1: 3 tokens * vocab_size
    assert_eq!(extracted[1].len(), 3 * vocab_size);
    assert_eq!(extracted[1][0], 10.0); // token 0
    assert_eq!(extracted[1][vocab_size], 20.0); // token 1
    assert_eq!(extracted[1][2 * vocab_size], 30.0); // token 2
}

/// Plays a pass of a runtime to its end; with it comes the number of chunks.
fn inferred(
    runtime: &mut HipRuntime,
    sequences: &[&[u32]],
    device: &mut Device,
    stream: &mut Stream,
) -> (TensorCpu<u32>, usize) {
    let mut pending = runtime.infer(sequences, stream).expect("Inference failed");
    let mut chunks = 1;
    loop {
        let replies = device.run(stream);
        match pending.advance(runtime, replies, stream).unwrap().unwrap() {
            InferProgress::Done(logits) => return (logits, chunks),
            InferProgress::More(next) => pending = next,
        }
        chunks += 1;
    }
}

#[test]
fn test_hip_runtime_infer_proof_of_life() {
    let mut device = Device::new();
    let mut stream = Stream::new();
    let model = load(&mut stream);
    let vocab_size = model.info().n_vocab;
    let mut runtime = HipRuntime::new(model, 1);

    // Run inference on a simple sequence
    let tokens: &[u32] = &[1, 2, 3, 4];
    let pending = runtime.infer_one(tokens, &mut stream).expect("Inference failed");
    let replies = device.run(&mut stream);
    let logits = match pending.advance(&mut runtime, replies, &mut stream).unwrap().unwrap() {
        InferProgress::Done(logits) => logits,
        InferProgress::More(_) => panic!("one chunk is enough"),
    };

    // Validate output shape
    let shape = logits.shape();
    assert_eq!(shape.dim(0), vocab_size, "First dim should be vocab_size");
    assert_eq!(shape.dim(1), tokens.len(), "Second dim should be num_tokens");

    // Validate logits are finite (not NaN or Inf)
    assert!(
        logits.data().iter().all(|&x| f32::from_bits(x).is_finite()),
        "Logits should be finite"
    );
    assert_eq!(logits.data().len(), vocab_size * tokens.len());

    // Apply softmax and verify it sums to 1.0 for each token
    for t in 0..tokens.len() {
        let slice = &logits.data()[t * vocab_size..(t + 1) * vocab_size];
        let values: Vec<f32> = slice.iter().map(|x| f32::from_bits(*x)).collect();
        let max_val = values.iter().cloned().fold(f32::NEG_INFINITY, f32::max);
        let exp_sum: f32 = values.iter().map(|x| (x - max_val).exp()).sum();
        let sum: f32 = values.iter().map(|x| (x - max_val).exp() / exp_sum).sum();
        assert!((sum - 1.0).abs() < 1e-3, "Token {} probs should sum to 1.0, got {}", t, sum);
    }
}

#[test]
fn test_fla_transparent_via_hip_runtime() {
    let mut device = Device::new();
    let mut stream = Stream::new();
    // Default HipRuntime: max_prefill_chunk=256
    let mut runtime = HipRuntime::new(load(&mut stream), 1);
    let vocab = runtime.info().n_vocab;

    // Prefill: 48 tokens
    let prompt: Vec<u32> = (1..=48).collect();
    let (logits, chunks) = inferred(&mut runtime, &[&prompt], &mut device, &mut stream);
    assert_eq!(chunks, 1);
    assert_eq!(runtime.model.chunk_size(), Some(256));

    // Basic sanity: output shape
    let shape = logits.shape();
    assert_eq!(shape.dim(0), vocab, "vocab dim");
    assert_eq!(shape.dim(1), prompt.len(), "token dim");
    assert!(
        logits.data().iter().all(|x| f32::from_bits(*x).is_finite()),
        "Prefill logits must be finite"
    );

    // Get last-token logits and sample argmax
    let argmax = |values: &[u32]| {
        values
            .iter()
            .map(|x| f32::from_bits(*x))
            .enumerate()
            .max_by(|(_, a), (_, b)| a.partial_cmp(b).unwrap())
            .map(|(i, _)| i as u32)
            .unwrap()
    };
    let last_start = (prompt.len() - 1) * vocab;
    let first_token = argmax(&logits.data()[last_start..last_start + vocab]);

    // Decode: 10 tokens one at a time
    let mut generated = vec![first_token];
    for _ in 0..9 {
        let tok = *generated.last().unwrap();
        let (logits, _) = inferred(&mut runtime, &[&[tok]], &mut device, &mut stream);
        assert!(
            logits.data().iter().all(|x| f32::from_bits(*x).is_finite()),
            "Decode logits must be finite"
        );
        generated.push(argmax(logits.data()));
    }

    // The key assertion is that we got through without errors.
    // All logits finite, shapes correct, state transfer worked.
    assert_eq!(generated.len(), 10, "Should have generated 10 tokens");
}

#[test]
fn test_hip_runtime_stateful_inference() {
    let mut device = Device::new();
    let mut stream = Stream::new();
    let mut runtime = HipRuntime::new(load(&mut stream), 1);

    // First inference
    let (logits1, _) = inferred(&mut runtime, &[&[1, 2]], &mut device, &mut stream);

    // Second inference (state should be different from fresh)
    let (_logits2, _) = inferred(&mut runtime, &[&[3, 4]], &mut device, &mut stream);

    // Reset and run same sequence - should match first result
    runtime.reset_state();
    let (logits3, _) = inferred(&mut runtime, &[&[1, 2]], &mut device, &mut stream);

    // logits1 and logits3 should be identical (same input, fresh state)
    let diff: f32 = logits1
        .data()
        .iter()
        .zip(logits3.data().iter())
        .map(|(a, b)| (f32::from_bits(*a) - f32::from_bits(*b)).abs())
        .sum();
    assert!(diff < 1e-6, "Same input with reset state should produce same output, diff={}", diff);
}

#[test]
fn a_model_that_was_only_loaded_is_configured_once() {
    let mut device = Device::new();
    let mut stream = Stream::new();
    let mut runtime = HipRuntime::new(load(&mut stream), 2);
    device.run(&mut stream);
    assert!(runtime.model.scratch.is_none());

    // A batch without sequences is refused before anything is made.
    let e = runtime.infer(&[], &mut stream).err().unwrap();
    assert_eq!(e.message, "Empty batch");
    assert!(runtime.model.scratch.is_none());
    assert!(stream.commands().is_empty());

    // One without tokens is refused after.
    let e = runtime.infer(&[&[], &[]], &mut stream).err().unwrap();
    assert_eq!(e.message, "All sequences are empty");
    assert_eq!(runtime.model.chunk_size(), Some(256));
    assert_eq!(runtime.model.max_batch_size(), Some(2));
    let made = |c: &Command| matches!(c, CommandOf::Alloc { .. });
    assert_eq!(stream.commands().iter().filter(|c| made(c)).count(), 3 * N_LAYER + 60);
    device.run(&mut stream);

    let (logits, chunks) =
        inferred(&mut runtime, &[&[1, 2, 3], &[4, 5]], &mut device, &mut stream);
    assert_eq!(chunks, 1);
    assert_eq!(logits.shape().dim(1), 6);

    // The default takes the batch size of the runtime.
    let e = runtime.infer(&[&[1], &[2], &[3]], &mut stream).err().unwrap();
    assert_eq!(e.message, "Batch size 3 exceeds configured max 2");
}

#[test]
fn a_long_batch_is_run_in_chunks() {
    let mut device = Device::new();
    let mut stream = Stream::new();
    let mut runtime = HipRuntime::new(configured(3, 2, &mut stream), 2);
    device.run(&mut stream);
    let long: &[u32] = &[1, 2, 3, 4, 5, 6, 7];
    let short: &[u32] = &[9, 8, 7, 6];
    let mut pending = runtime.infer(&[long, short], &mut stream).unwrap();

    // Real tokens of each chunk, and its width: the last chunk is one token wide.
    let mut seen: Vec<(Vec<i32>, usize)> = Vec::new();
    let mut values: Vec<u32> = Vec::new();
    let logits = loop {
        let lens = stream
            .commands()
            .iter()
            .find_map(|c| match c {
                CommandOf::Upload { data: HostData::I32(v), .. } => Some(v.clone()),
                _ => None,
            })
            .unwrap();
        let mut replies = device.run(&mut stream);
        let at = replies.iter().position(|r| matches!(r, HostData::F32(_))).unwrap();
        let n = match &replies[at] {
            HostData::F32(v) => v.len(),
            _ => 0,
        };
        // Every chunk sends numbers of its own.
        let base = 100_000 * seen.len() as u32;
        replies[at] = HostData::F32((base..base + n as u32).collect());
        seen.push((lens, n / (2 * N_VOCAB)));
        values.push(n as u32);
        match pending.advance(&mut runtime, replies, &mut stream).unwrap().unwrap() {
            InferProgress::Done(logits) => break logits,
            InferProgress::More(next) => pending = next,
        }
    };
    assert_eq!(seen, vec![(vec![3, 3], 3), (vec![3, 1], 3), (vec![1, 0], 1)]);
    assert_eq!(values.iter().sum::<u32>() as usize, logits.data().len());
    assert_eq!(logits.shape().dim(0), N_VOCAB);
    assert_eq!(logits.shape().dim(1), 7 * 2);

    // Token t of sequence b stands at (b * 7 + t) * n_vocab.
    let at = |b: usize, t: usize| logits.data()[(b * 7 + t) * N_VOCAB];
    let v = N_VOCAB as u32;
    assert_eq!(at(0, 0), 0);
    assert_eq!(at(0, 2), 2 * v);
    assert_eq!(at(0, 3), 100_000);
    assert_eq!(at(0, 6), 200_000);
    assert_eq!(at(1, 0), 3 * v);
    assert_eq!(at(1, 5), 100_000 + 5 * v);
    assert_eq!(at(1, 6), 200_000 + v);

    let last = runtime.extract_last_logits(&logits, &[7, 4], 7);
    assert_eq!((last[0][0], last[1][0]), (200_000, 100_000 + 3 * v));
}

#[test]
fn a_refused_batch_leaves_the_state_alone() {
    let mut device = Device::new();
    let mut stream = Stream::new();
    let mut runtime = HipRuntime::new(configured(8, 1, &mut stream), 1);
    runtime.state = numbered(&runtime.model, 7);
    let before = runtime.get_state_snapshot();

    assert!(runtime.infer(&[&[1], &[2]], &mut stream).is_err());
    assert!(runtime.infer(&[&[]], &mut stream).is_err());
    assert!(same(&before, &runtime.get_state_snapshot()));

    // Nor does a pass whose replies never come.
    let pending = runtime.infer_one(&[1, 2], &mut stream).unwrap();
    device.run(&mut stream);
    assert!(pending.advance(&mut runtime, vec![], &mut stream).is_none());
    assert!(same(&before, &runtime.get_state_snapshot()));
}

fn shown(command: &Command) -> String {
    match command {
        CommandOf::Alloc { buffer, elem, len, zeroed, .. } => {
            format!("alloc {buffer} {elem:?} {len} {zeroed}")
        }
        CommandOf::Upload { dst, data } => format!("upload {dst:?} {data:?}"),
        CommandOf::Download { src, elem, len } => format!("download {src:?} {elem:?} {len}"),
        CommandOf::Zero { dst, elem, len } => format!("zero {dst:?} {elem:?} {len}"),
        CommandOf::Launch(launch) => format!("launch {launch:?}"),
        CommandOf::Probe(_) => "probe".to_string(),
        _ => "other".to_string(),
    }
}

#[test]
fn probes_change_nothing_of_the_work() {
    let work = |probes: HipProbeBuilder| {
        let mut stream = Stream::new();
        let mut model = configured(4, 1, &mut stream).with_probes(probes.build());
        stream.take();
        model.infer_resident(&[&[1u32, 2, 3]], &mut stream).unwrap();
        let commands = stream.take();
        let seen = commands.iter().filter(|c| matches!(c, CommandOf::Probe(_))).count();
        let rest: Vec<String> = commands
            .iter()
            .filter(|c| !matches!(c, CommandOf::Probe(_)))
            .map(shown)
            .collect();
        (seen, rest)
    };
    let (none, plain) = work(HipProbeBuilder::new());
    let (some, watched) =
        work(HipProbeBuilder::new().on_many(&[HipHook::PostEmbed, HipHook::PreWkv], 0));
    assert_eq!(none, 0);
    assert_eq!(some, 1 + N_LAYER);
    assert_eq!(plain, watched);
}

#[test]
fn a_loaded_model_can_be_run() {
    let mut stream = Stream::new();
    let model = load(&mut stream);
    // Five buffers for embedding and head, thirty for the first layer, thirty-three for the next.
    let made = |s: &Stream| {
        s.commands().iter().filter(|c| matches!(c, CommandOf::Alloc { .. })).count()
    };
    assert_eq!(made(&stream), 5 + 30 + 33);
    assert!(model.model.is_sound());
    assert!(model.model.knows(&[&[0, 69], &[3]]));
    assert!(!model.model.knows(&[&[0, 70]]));
    assert!(model.model.knows(&[&[], &[3]]));
    let lora = model.lora_dims();
    assert_eq!((lora.w_dim, lora.a_dim, lora.g_dim, lora.v_dim), (3, 2, 5, Some(6)));
    let mut model = model.with_config(HipRuntimeConfig::new(4, 2), &mut stream).unwrap();
    assert_eq!(made(&stream), 68 + 6 + 60);
    assert_eq!((model.chunk_size(), model.max_batch_size()), (Some(4), Some(2)));
    assert!(model.step(&[&[1u32, 2], &[3, 4]], None, &mut stream).is_ok());
}

/// The sizes of the states that the kernels of the attention and of the token shift take.
fn batches(commands: &[Command]) -> Vec<i32> {
    launches(commands)
        .iter()
        .filter_map(|l| match l {
            Launch::Wkv7FusedT1 { b_size, .. } => Some(*b_size),
            Launch::FlaChunkH { n_seq, .. } => Some(*n_seq),
            Launch::Wkv7 { b_size, .. } => Some(*b_size),
            Launch::ChannelMix { b, .. } => Some(*b),
            _ => None,
        })
        .collect()
}

#[test]
fn fewer_sequences_than_configured_are_taken() {
    let mut device = Device::new();
    let mut stream = Stream::new();
    let mut model = configured(8, 3, &mut stream);
    device.run(&mut stream);

    let (logits, state) = model
        .step(&[&[1u32, 2], &[3, 4]], None, &mut stream)
        .unwrap()
        .finish({
            assert!(batches(stream.commands()).iter().all(|&b| b == 2));
            device.run(&mut stream)
        })
        .unwrap();
    assert_eq!(logits.len(), 4 * N_VOCAB);
    assert_eq!(state.batch_size, 2);
    assert_eq!(state.att_shift_states[0].len(), 2 * N_EMBD);

    let pending = model.infer_resident(&[&[5u32]], &mut stream).unwrap();
    assert!(batches(stream.commands()).iter().all(|&b| b == 1));
    assert_eq!(pending.finish(device.run(&mut stream)).unwrap().len(), N_VOCAB);

    let shared = model.model();
    let mut prefill = HipPrefill::new(shared, HipRuntimeConfig::new(8, 3), &mut stream).unwrap();
    device.run(&mut stream);
    let pending = prefill.prefill(&[&[1u32, 2, 3], &[4]], &mut stream).unwrap();
    assert_eq!(pending.finish(device.run(&mut stream)).unwrap().len(), 4 * N_VOCAB);
}

#[test]
fn a_resident_pass_leaves_other_states_alone() {
    let mut device = Device::new();
    let mut stream = Stream::new();
    let mut model = configured(8, 2, &mut stream);
    device.run(&mut stream);
    let other = numbered(&model, 500);
    model.write_state(1, &other, &mut stream).unwrap();
    device.run(&mut stream);
    // The copies of the new states reach no further than the sequences of the pass.
    model.infer_resident(&[&[1u32, 2]], &mut stream).unwrap();
    let scratch = model.scratch.as_ref().unwrap();
    for tensor in &scratch.state.att_shift {
        let copies: Vec<i32> = launches(stream.commands())
            .iter()
            .filter_map(|l| match l {
                Launch::Unary { op: Unary::Copy, output, n, .. } if *output == tensor.as_ptr() => {
                    Some(*n)
                }
                _ => None,
            })
            .collect();
        assert_eq!(copies, vec![N_EMBD as i32]);
    }
    device.run(&mut stream);
    let pending = model.read_state(1, &mut stream).unwrap();
    assert!(same(&pending.finish(device.run(&mut stream)).unwrap(), &other));
}

#[test]
fn an_empty_sequence_is_padded_like_any_other() {
    let mut device = Device::new();
    let mut stream = Stream::new();
    let model = load(&mut stream).model();
    let mut prefill = HipPrefill::new(model, HipRuntimeConfig::new(2, 2), &mut stream).unwrap();
    device.run(&mut stream);
    let pending = prefill.prefill(&[&[5u32], &[]], &mut stream).unwrap();
    let table = prefill.model().get_embedding().to_vec();
    let staged = stream.commands().iter().any(|c| match c {
        CommandOf::Upload { data: HostData::F16(v), .. } => {
            v[..N_EMBD] == table[5 * N_EMBD..6 * N_EMBD] && v[N_EMBD..2 * N_EMBD] == table[..N_EMBD]
        }
        _ => false,
    });
    assert!(staged);
    assert_eq!(pending.finish(device.run(&mut stream)).unwrap().len(), N_VOCAB);
    // The real token may stand behind the empty sequence.
    let pending = prefill.prefill(&[&[], &[5u32]], &mut stream).unwrap();
    let mut replies = device.run(&mut stream);
    let marked: Vec<u32> = (0..2 * N_VOCAB as u32).collect();
    replies[0] = HostData::F32(marked);
    let logits = pending.finish(replies).unwrap();
    assert_eq!(logits, (N_VOCAB as u32..2 * N_VOCAB as u32).collect::<Vec<u32>>());
}

#[test]
fn a_resident_forward_pass_keeps_its_states_in_place() {
    let mut device = Device::new();
    let mut stream = Stream::new();
    let mut config = HipRuntimeConfig::new(4, 2);
    config.resident_state = true;
    let mut model = load(&mut stream).with_config(config, &mut stream).unwrap();
    device.run(&mut stream);
    let places = |m: &Rwkv7Hip| -> Vec<usize> {
        let state = &m.scratch.as_ref().unwrap().state;
        let mut v: Vec<usize> = state.att_shift.iter().map(|t| t.as_ptr().buffer).collect();
        v.extend(state.ffn.iter().map(|t| t.as_ptr().buffer));
        v.extend(state.wkv.iter().map(|t| t.as_ptr().buffer));
        v
    };
    let before = places(&model);
    let task = model.forward(&[&[1u32, 2, 3]], None, &mut stream).unwrap();
    assert_eq!(places(&model), before);
    let copied: Vec<usize> = launches(stream.commands())
        .iter()
        .filter_map(|l| match l {
            Launch::Unary { op: Unary::Copy, output, .. } => Some(output.buffer),
            _ => None,
        })
        .collect();
    assert!(before.iter().all(|b| copied.contains(b)));
    let replies = device.run(&mut stream);
    match task.advance(&mut model, replies, &mut stream) {
        Some(Ok(Progress::Done { logits, .. })) => assert_eq!(logits.len(), 3 * N_VOCAB),
        _ => panic!("one chunk expected"),
    }
}

#[test]
fn a_step_records_a_resident_pass() {
    let mut one = Stream::new();
    let mut two = Stream::new();
    let mut a = configured(4, 1, &mut one);
    let mut b = configured(4, 1, &mut two);
    one.take();
    two.take();
    a.step(&[&[1u32, 2]], None, &mut one).unwrap();
    b.reset_resident_state(&mut two).unwrap();
    let reset = two.commands().len();
    b.infer_resident(&[&[1u32, 2]], &mut two).unwrap();
    let step: Vec<String> = one.take().iter().map(shown).collect();
    let mut resident: Vec<String> = two.take().iter().map(shown).collect();
    assert_eq!(resident.pop().unwrap(), "other");
    let resets = step.iter().take_while(|c| c.starts_with("zero")).count();
    assert_eq!(resets, 3 * N_LAYER);
    let pass = &resident[reset..];
    assert_eq!(&step[resets..resets + pass.len()], pass);
    let rest = &step[resets + pass.len()..];
    assert_eq!(rest.len(), 3 * N_LAYER + 1);
    assert!(rest[..3 * N_LAYER].iter().all(|c| c.starts_with("download")));
}

#[test]
fn an_asynchronous_pass_is_one_chunk_of_a_forward_pass() {
    let mut one = Stream::new();
    let mut two = Stream::new();
    let mut a = configured(4, 1, &mut one);
    let mut b = configured(4, 1, &mut two);
    one.take();
    two.take();
    a.forward_async(&[&[1u32, 2, 3]], None, &mut one).unwrap();
    b.forward(&[&[1u32, 2, 3]], None, &mut two).unwrap();
    let later: Vec<String> = one.take().iter().map(shown).collect();
    let now: Vec<String> = two.take().iter().map(shown).collect();
    // The tokens are staged first: cleared, written and asked back.
    let staged = 3;
    let states = 3 * N_LAYER;
    let pass = later.len() - states - 1;
    assert_eq!(&later[..pass], &now[staged..staged + pass]);
    assert_eq!(&later[pass + 1..], &now[now.len() - states..]);
}

#[test]
fn an_asynchronous_pass_gives_what_a_forward_pass_gives() {
    let mut one = Stream::new();
    let mut two = Stream::new();
    let mut a = configured(4, 2, &mut one);
    let mut b = configured(4, 2, &mut two);
    let x: [&[u32]; 2] = [&[1, 2, 3], &[4]];
    let completion = a.forward_async(&x, None, &mut one).unwrap();
    let task = b.forward(&x, None, &mut two).unwrap();
    let (mut left, mut right) = (Device::new(), Device::new());
    let mut late = left.run(&mut one);
    let mut replies = right.run(&mut two);
    // The first reply of the forward pass holds its staged tokens.
    let halves: Vec<u16> = (0..2 * 4 * N_VOCAB as u16).collect();
    let widened = halves.iter().map(|h| 3 * *h as u32).collect();
    late[0] = HostData::F16(halves);
    replies[1] = HostData::F32(widened);
    let (logits, state) = completion.wait(late).unwrap();
    match task.advance(&mut b, replies, &mut two).unwrap().unwrap() {
        Progress::Done { logits: wide, state: other } => {
            assert_eq!(wide.len(), 4 * N_VOCAB);
            assert_eq!(wide, logits.iter().map(|h| 3 * *h as u32).collect::<Vec<u32>>());
            assert!(same(&state, &other));
        }
        Progress::More(_) => panic!("one chunk is enough"),
    }
}

#[test]
fn a_state_brought_back_leaves_the_device_as_it_was() {
    let mut device = Device::new();
    let mut stream = Stream::new();
    let mut model = configured(4, 2, &mut stream);
    let pending = model.step(&[&[1u32, 2], &[3]], None, &mut stream).unwrap();
    let (_, mut state) = pending.finish(device.run(&mut stream)).unwrap();
    for (i, x) in state.att_shift_states[1].iter_mut().enumerate() {
        *x = 500 + i as u16;
    }
    // As if kernels had written to the states on the device.
    model.step(&[&[4u32], &[5]], Some(state), &mut stream).unwrap();
    let pending = model.step(&[&[4u32], &[5]], None, &mut Stream::new()).unwrap();
    let replies = device.run(&mut stream);
    let before = device.buffers.clone();
    let (_, read) = pending.finish(replies).unwrap();
    assert_eq!(read.att_shift_states[1][3], 503);
    stream.take();
    model.step(&[&[6u32], &[7]], Some(read), &mut stream).unwrap();
    // The first commands bring the state; the rest is the pass.
    let uploads: Vec<Command> = stream.take().into_iter().take(3 * N_LAYER).collect();
    for command in &uploads {
        match command {
            CommandOf::Upload { dst, data } => {
                let v = bits(data);
                assert_eq!(before[&dst.buffer][dst.offset..dst.offset + v.len()], v[..]);
            }
            _ => panic!("an upload expected"),
        }
    }
}
