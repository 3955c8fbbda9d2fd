use ghost_script::poseidon_guard::{
    estimate_guard_size, generate_poseidon_binding_script, guard_fits, PoseidonGuardBuilder,
    PoseidonGuardConfig, PoseidonVerifyScript,
};

#[test]
fn poseidon_guard_test_guard_config_default() {
    let config = PoseidonGuardConfig::default();
    assert_eq!(config.hash_count, 4);
    assert!(config.verify_sbox);
}

#[test]
fn test_guard_config_for_intents() {
    let config = PoseidonGuardConfig::for_intents(3);
    assert_eq!(config.hash_count, 12);
}

#[test]
fn test_guard_builder() {
    let config = PoseidonGuardConfig::default();
    let builder = PoseidonGuardBuilder::new(config);
    let script = builder.build();
    assert!(!script.is_empty());
    println!("Guard script size: {} bytes", script.len());
}

#[test]
fn test_binding_script() {
    let left = [1u8; 32];
    let right = [2u8; 32];
    let output = [3u8; 32];
    let script = generate_poseidon_binding_script(&left, &right, &output);
    assert!(!script.is_empty());
    println!("Binding script size: {} bytes", script.len());
}

#[test]
fn test_verify_script_components() {
    let verify = PoseidonVerifyScript::new();
    assert!(!verify.init.is_empty());
    assert!(!verify.round_verify.is_empty());
    assert!(!verify.finalize.is_empty());
    let total = verify.total_size(64);
    println!("Verify script size for 64 rounds: {} bytes", total);
}

#[test]
fn test_size_estimation() {
    let size_1 = estimate_guard_size(1, true);
    let size_2 = estimate_guard_size(2, true);
    assert!(size_2 > size_1);
    println!("1 intent: {} bytes, 2 intents: {} bytes", size_1, size_2);
}

#[test]
fn poseidon_guard_test_guard_fits() {
    assert!(guard_fits(1, 6500));
    let max_intents = (0..20).find(|&i| !guard_fits(i, 6500)).unwrap_or(20);
    println!("Max intents in 6.5KB: {}", max_intents - 1);
}

#[test]
fn test_round_verify_structure() {
    let verify = PoseidonVerifyScript::new();
    assert!(verify.round_verify.len() < 30);
    println!("Per-round verification: {} bytes", verify.round_verify.len());
}

#[test]
fn poseidon_guard_exact_sizes() {
    assert_eq!(estimate_guard_size(1, true), 600);
    assert_eq!(estimate_guard_size(1, false), 400);
    assert_eq!(estimate_guard_size(0, true), 200);
    assert!(guard_fits(15, 6500));
    assert!(!guard_fits(16, 6500));
    let script = PoseidonGuardBuilder::new(PoseidonGuardConfig::default()).build();
    assert_eq!(script.len(), 4 * 64 * 7 + 2);
    assert_eq!(&script[..7], &[0x76, 0x6b, 0x82, 0x01, 0x60, 0x88, 0x6c]);
    let verify = PoseidonVerifyScript::new();
    assert_eq!(
        verify.round_verify,
        vec![0x78, 0x82, 0x02, 0xc0, 0x00, 0x88, 0x7c, 0x01, 0x60, 0x7f, 0x75]
    );
    assert_eq!(verify.total_size(64), 2 + 11 * 64 + 4);
    let binding = generate_poseidon_binding_script(&[1u8; 32], &[2u8; 32], &[3u8; 32]);
    assert_eq!(binding.len(), 104);
    assert_eq!(binding[66], 0x7e);
    assert_eq!(binding[103], 0x87);
}
