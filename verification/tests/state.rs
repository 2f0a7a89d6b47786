use rwkv_hip::model::state::{HipState, StateLayout};
use rwkv_hip::model::Rwkv7ModelInfo;

fn large_info() -> Rwkv7ModelInfo {
    Rwkv7ModelInfo {
        n_layer: 12,
        n_embd: 768,
        n_head: 12,
        head_size: 64,
        n_vocab: 65536,
        n_hidden: 2048,
    }
}

fn small_info() -> Rwkv7ModelInfo {
    Rwkv7ModelInfo {
        n_layer: 2,
        n_embd: 64,
        n_head: 2,
        head_size: 32,
        n_vocab: 100,
        n_hidden: 128,
    }
}

#[test]
fn mod_test_hip_state_batched_sizing() {
    let info = large_info();

    let batch_size = 4;
    let state = HipState::zeros(&info, batch_size);

    assert_eq!(state.batch_size, 4);
    assert_eq!(state.att_states.len(), 12);
    assert_eq!(state.att_shift_states.len(), 12);
    assert_eq!(state.ffn_states.len(), 12);

    // Check per-layer sizes include batch dimension
    let expected_att_state_size = 64 * 64 * 12 * 4; // head_size^2 * n_head * batch
    let expected_shift_state_size = 768 * 4; // n_embd * batch

    assert_eq!(state.att_states[0].len(), expected_att_state_size);
    assert_eq!(state.att_shift_states[0].len(), expected_shift_state_size);
    assert_eq!(state.ffn_states[0].len(), expected_shift_state_size);
}

#[test]
fn step_test_hip_state_batched_sizing() {
    let info = large_info();

    let batch_size = 4;
    let state = HipState::new(&info, batch_size).expect("Failed to allocate state");

    assert_eq!(state.batch_size, 4);
    assert_eq!(state.att_states.len(), 12);
    assert_eq!(state.att_shift_states.len(), 12);
    assert_eq!(state.ffn_states.len(), 12);

    // Check per-layer sizes include batch dimension
    let expected_att_state_size = 64 * 64 * 12 * 4; // head_size^2 * n_head * batch
    let expected_shift_state_size = 768 * 4; // n_embd * batch

    assert_eq!(state.att_states[0].len(), expected_att_state_size);
    assert_eq!(state.att_shift_states[0].len(), expected_shift_state_size);
    assert_eq!(state.ffn_states[0].len(), expected_shift_state_size);
}

fn fill(state: &mut HipState) {
    for s in &mut state.att_states {
        s.fill(1.0f32.to_bits());
    }
    for s in &mut state.att_shift_states {
        s.fill(half::f16::from_f32(2.0).to_bits());
    }
    for s in &mut state.ffn_states {
        s.fill(half::f16::from_f32(3.0).to_bits());
    }
}

fn assert_all_zero(state: &HipState) {
    assert!(state.att_states.iter().all(|s| s.iter().all(|&x| f32::from_bits(x) == 0.0)));
    assert!(state
        .att_shift_states
        .iter()
        .all(|s| s.iter().all(|&x| half::f16::from_bits(x) == half::f16::from_f32(0.0))));
    assert!(state
        .ffn_states
        .iter()
        .all(|s| s.iter().all(|&x| half::f16::from_bits(x) == half::f16::from_f32(0.0))));
    assert!(state.v_first.is_none());
}

#[test]
fn mod_test_hip_state_reset() {
    let info = small_info();
    let mut state = HipState::zeros(&info, 2);
    fill(&mut state);
    state.reset();
    assert_all_zero(&state);
}

#[test]
fn step_test_hip_state_reset() {
    let info = small_info();
    let mut state = HipState::new(&info, 2).expect("Failed to allocate state");
    fill(&mut state);
    state.reset();
    assert_all_zero(&state);
}

#[test]
fn mod_test_hip_state_v_first_persistence() {
    let info = small_info();

    // Fresh state should have v_first = None
    let mut state = HipState::zeros(&info, 1);
    assert!(state.v_first.is_none(), "New state should have v_first = None");

    // Set v_first and verify it persists
    state.v_first = Some(vec![half::f16::from_f32(1.0).to_bits(); 64]);
    assert!(state.v_first.is_some(), "v_first should persist after assignment");
    assert_eq!(state.v_first.as_ref().unwrap().len(), 64);

    // Reset should clear v_first
    state.reset();
    assert!(state.v_first.is_none(), "Reset should clear v_first to None");
}

#[test]
fn step_test_hip_state_v_first_persistence() {
    let info = small_info();

    // Fresh state should have v_first = None
    let mut state = HipState::new(&info, 1).expect("Failed to allocate state");
    assert!(state.v_first.is_none(), "New state should have v_first = None");

    // Set v_first and verify it persists
    state.v_first = Some(vec![half::f16::from_f32(1.0).to_bits(); 64]);
    assert!(state.v_first.is_some(), "v_first should persist after assignment");
    assert_eq!(state.v_first.as_ref().unwrap().len(), 64);

    // Reset should clear v_first
    state.reset();
    assert!(state.v_first.is_none(), "Reset should clear v_first to None");
}

#[test]
fn a_reset_keeps_sizes_and_layout() {
    let info = small_info();
    let mut state = HipState::zeros(&info, 3);
    fill(&mut state);
    state.layout = StateLayout::Fla;
    state.reset();
    assert_eq!(state.batch_size, 3);
    assert_eq!(state.layout, StateLayout::Fla);
    assert_eq!(state.att_states[1].len(), 32 * 32 * 2 * 3);
    assert_eq!(state.ffn_states[1].len(), 64 * 3);
}

#[test]
fn a_duplicate_holds_the_same() {
    let info = small_info();
    let mut state = HipState::zeros(&info, 1);
    fill(&mut state);
    state.v_first = Some(vec![5, 6]);
    let copy = state.duplicate();
    assert_eq!(copy.batch_size, state.batch_size);
    assert_eq!(copy.att_states, state.att_states);
    assert_eq!(copy.att_shift_states, state.att_shift_states);
    assert_eq!(copy.ffn_states, state.ffn_states);
    assert_eq!(copy.v_first, state.v_first);
}
