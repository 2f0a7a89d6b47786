use rwkv_hip::scratch::{HipRuntimeConfig, LoraDims};

#[test]
fn test_hip_feature_compiles() {
    // Linking this file against the library is the whole test.
}

#[test]
fn test_config_defaults() {
    let config = HipRuntimeConfig::default();
    assert_eq!(config.max_prefill_chunk, 256);
    assert_eq!(config.batch_size, 1);
}

#[test]
fn test_config_decode() {
    let config = HipRuntimeConfig::decode();
    assert_eq!(config.max_prefill_chunk, 1);
    assert_eq!(config.batch_size, 1);
}

#[test]
fn test_config_prefill() {
    let config = HipRuntimeConfig::prefill(512);
    assert_eq!(config.max_prefill_chunk, 512);
    assert_eq!(config.batch_size, 1);
}

#[test]
fn test_lora_dims() {
    let dims = LoraDims {
        w_dim: 32,
        a_dim: 64,
        g_dim: 128,
        v_dim: Some(32),
    };
    assert_eq!(dims.w_dim, 32);
    assert_eq!(dims.v_dim, Some(32));
}
