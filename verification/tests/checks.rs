use rwkv_hip::buffer::MemoryType;
use rwkv_hip::blas::HipBlasContext;
use rwkv_hip::device::{is_arch, is_set, HipContext};
use rwkv_hip::error::{check, check_blas, error_string, BlasCall};
use rwkv_hip::model::ready::{config_fits, states_fit};
use rwkv_hip::model::Rwkv7ModelInfo;
use rwkv_hip::probe::{interleave, HipHook, HipProbeBuilder, HipProbeMap, ProbeContext};
use rwkv_hip::prof::HipProf;
use rwkv_hip::scratch::{HipRuntimeConfig, HipScratch, LoraDims};
use rwkv_hip::stream::{CommandOf, Elem, Stream};
use rwkv_hip::tensor::TensorShape;
use rwkv_hip::timing::PartTimes;

#[test]
fn a_status_is_named() {
    assert!(check(0, None).is_ok());
    assert_eq!(error_string(0, Some("ignored".to_string())), "hipSuccess");
    assert_eq!(error_string(2, Some("out of memory".to_string())), "out of memory");
    assert_eq!(error_string(-7, None), "Unknown HIP error: -7");
    let e = check(2, Some("out of memory".to_string())).unwrap_err();
    assert_eq!((e.code, e.message.as_str()), (2, "out of memory"));
    assert_eq!(e.to_text(), "HIP error 2: out of memory");
}

#[test]
fn a_failed_product_is_named() {
    assert!(check_blas(BlasCall::Sgemm, 0, 1).is_ok());
    let of = |call| check_blas(call, 4, 1).unwrap_err().message;
    assert_eq!(of(BlasCall::CreateHandle), "Failed to create rocBLAS handle: status 4");
    assert_eq!(of(BlasCall::DestroyHandle), "Failed to destroy rocBLAS handle: status 4");
    assert_eq!(of(BlasCall::SetStream), "Failed to set rocBLAS stream: status 4");
    assert_eq!(of(BlasCall::Hgemm), "rocBLAS HGEMM failed: status 4");
    assert_eq!(of(BlasCall::Sgemm), "rocBLAS SGEMM failed: status 4");
    assert_eq!(of(BlasCall::SgemmTransposed), "rocBLAS SGEMM_TA failed: status 4");
    assert_eq!(check_blas(BlasCall::Sgemm, 4, 9).unwrap_err().code, 9);
}

#[test]
fn architectures_are_found_by_part_of_their_name() {
    assert!(is_arch("gfx1100:sramecc+", "gfx1100"));
    assert!(is_arch("gfx1100", "x11"));
    assert!(is_arch("gfx1100", ""));
    assert!(!is_arch("gfx110", "gfx1100"));
    assert!(!is_arch("gfx1101", "gfx1100"));
    assert!(is_set(1) && !is_set(0));
}

#[test]
fn hooks_are_answered_by_the_last_callback() {
    let mut map = HipProbeMap::empty();
    assert_eq!(map.len(), 0);
    assert!(!map.contains_key(HipHook::PreWkv));
    map.insert(HipHook::PreWkv, 3);
    map.insert(HipHook::PostFfn, 4);
    map.insert(HipHook::PreWkv, 5);
    assert_eq!(map.len(), 2);
    assert_eq!(map.get(HipHook::PreWkv), Some(5));
    assert_eq!(map.get(HipHook::PostEmbed), None);
    let built = HipProbeBuilder::new()
        .on_many(&[HipHook::PreWkv, HipHook::PostFfn], 1)
        .on(HipHook::PreWkv, 2)
        .build();
    assert_eq!(built.get(HipHook::PreWkv), Some(2));
    assert_eq!(built.get(HipHook::PostFfn), Some(1));
}

#[test]
fn tensors_are_interleaved_by_token() {
    // Two tensors of two channels, two sequences of three tokens, the first two of each asked for.
    let a: Vec<u16> = (0..12).collect();
    let b: Vec<u16> = (100..112).collect();
    let got = interleave(&vec![a, b], 2, 2, 3, 2);
    assert_eq!(got, vec![0, 1, 100, 101, 2, 3, 102, 103, 6, 7, 106, 107, 8, 9, 108, 109]);
}

#[test]
fn profiling_that_is_off_runs_everything() {
    let mut prof = HipProf::new("off");
    let x = prof.time("sum", || 2 + 3);
    assert_eq!(x, 5);
    prof.print("nothing");
}

#[test]
fn times_are_added_up_by_label() {
    let mut times = PartTimes::new("forward", None);
    assert!(times.enabled());
    assert_eq!(times.heading("b=1"), None);
    times.add("wkv", 5);
    times.add("ffn", 7);
    times.add("wkv", 6);
    times.add("ff", 1);
    let got: Vec<(&str, u128)> = times.totals().iter().map(|t| (t.label, t.nanos)).collect();
    assert_eq!(got, vec![("ff", 1), ("ffn", 7), ("wkv", 11)]);
    assert_eq!(times.heading("b=1"), Some("[hip-prof] forward b=1".to_string()));
}

#[test]
fn only_a_zero_switches_measuring_off() {
    assert!(PartTimes::new("a", Some("1")).enabled());
    assert!(PartTimes::new("a", Some("")).enabled());
    let mut off = PartTimes::new("a", Some("0"));
    assert!(!off.enabled());
    off.add("part", 1);
    assert_eq!(off.heading("x"), None);
}

fn info() -> Rwkv7ModelInfo {
    Rwkv7ModelInfo { n_layer: 2, n_embd: 8, n_head: 2, head_size: 4, n_vocab: 70, n_hidden: 16 }
}

fn lora() -> LoraDims {
    LoraDims { w_dim: 3, a_dim: 2, g_dim: 5, v_dim: Some(6) }
}

#[test]
fn states_that_no_machine_holds_are_refused() {
    assert!(states_fit(&info(), 4));
    assert!(states_fit(&info(), usize::MAX / 32));
    assert!(!states_fit(&info(), usize::MAX / 32 + 1));
    let wide = Rwkv7ModelInfo { head_size: 1 << 40, ..info() };
    assert!(!states_fit(&wide, 0));
}

#[test]
fn working_memory_that_no_machine_holds_is_refused() {
    assert!(config_fits(&info(), &lora(), &HipRuntimeConfig::new(256, 4)));
    assert!(!config_fits(&info(), &lora(), &HipRuntimeConfig::new(usize::MAX, 1)));
    assert!(!config_fits(&info(), &lora(), &HipRuntimeConfig::new(1 << 40, 1 << 40)));
    let mut no_chunks = HipRuntimeConfig::new(256, 4);
    no_chunks.fla_chunk_size = 0;
    assert!(!config_fits(&info(), &lora(), &no_chunks));
}

#[test]
fn working_memory_is_made_once() {
    let mut stream = Stream::new();
    let config = HipRuntimeConfig::new(4, 2);
    let scratch = HipScratch::new(&info(), lora(), config, &mut stream).unwrap();
    let commands = stream.take();
    // Three states for each layer and sixty tensors besides.
    assert_eq!(commands.len(), 3 * 2 + 60);
    assert!(commands.iter().all(
        |c| matches!(c, CommandOf::Alloc { memory: MemoryType::Device, .. })
    ));
    assert_eq!(
        commands.iter().filter(|c| matches!(c, CommandOf::Alloc { zeroed: true, .. })).count(),
        6
    );
    assert!(matches!(
        commands[2],
        CommandOf::Alloc { buffer: 3, elem: Elem::F32, len: 64, zeroed: true, .. }
    ));
    assert!(scratch.supports(4, 2));
    assert!(!scratch.supports(5, 2));
    assert!(!scratch.supports(4, 3));
    assert_eq!(scratch.logits.shape(), TensorShape::new(70, 4, 2, 1));
    // Everything that was allocated counts, two or four bytes for each element.
    let allocated: usize = commands
        .iter()
        .map(|c| match c {
            CommandOf::Alloc { elem: Elem::F16, len, .. } => 2 * len,
            CommandOf::Alloc { len, .. } => 4 * len,
            _ => 0,
        })
        .sum();
    assert_eq!(scratch.memory_bytes(), allocated);
    assert_eq!(scratch.memory_bytes(), 2 * 3024 + 4 * 6522);
    scratch.reset_state_gpu(&mut stream);
    let zeroed: usize = stream
        .take()
        .iter()
        .map(|c| match c {
            CommandOf::Zero { len, .. } => *len,
            _ => 0,
        })
        .sum();
    assert_eq!(zeroed, 2 * (16 + 16 + 64));
}

#[test]
fn extents_beyond_the_kept_ones_stay() {
    let mut context = ProbeContext {
        layer: None,
        batch_size: 1,
        seq_len: 2,
        chunk_size: 2,
        n_embd: 8,
        n_head: 2,
        head_size: 4,
        n_layer: 2,
        shape_storage: [9; 6],
        shape_len: 6,
    };
    context.set_shape(&[1, 2]);
    assert_eq!(context.shape(), &[1, 2]);
    assert_eq!(context.shape_storage, [1, 2, 9, 9, 9, 9]);
    context.set_shape(&[1, 2, 3, 4, 5, 6, 7]);
    assert_eq!(context.shape(), &[1, 2, 3, 4, 5, 6]);
}

#[test]
fn contexts_know_their_streams() {
    assert!(HipBlasContext::with_null_stream().stream().is_null());
    assert!(!HipBlasContext::new().stream().is_null());
    let mut device = HipContext::with_device(0, 1).unwrap();
    device.synchronize();
    assert!(device.stream().is_null());
    assert!(!Stream::new().is_null());
    assert!(Stream::null().is_null());
}
