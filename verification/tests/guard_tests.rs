use ghost_script::guard::{
    estimate_guard_size, guard_fits, Guard, GuardBuilder, GuardType, GUARD_MAX, GUARD_TARGET,
};
use ghost_script::opcodes::{OP_DROP, OP_DUP, OP_GREATERTHAN, OP_SIZE, OP_TRUE, OP_VERIFY};

#[test]
fn test_universal_guard() {
    let guard = Guard::universal();
    assert_eq!(guard.guard_type(), GuardType::Universal);
    assert!(guard.size() > 0);
    assert!(guard.is_valid_size());
}

#[test]
fn test_minimal_guard() {
    let guard = Guard::minimal();
    assert_eq!(guard.guard_type(), GuardType::Minimal);
    assert!(guard.size() < 50);
}

#[test]
fn test_guard_size_estimation() {
    let size_k10 = estimate_guard_size(10);
    assert!(size_k10 < GUARD_TARGET);
    let size_k16 = estimate_guard_size(16);
    assert!(size_k16 < GUARD_MAX);
}

#[test]
fn guard_test_guard_fits() {
    assert!(guard_fits(10));
    assert!(guard_fits(14));
}

#[test]
fn test_paymaster_guard() {
    let guard = Guard::paymaster();
    assert_eq!(guard.guard_type(), GuardType::Paymaster);
    assert!(guard.size() > 0);
    assert!(guard.is_valid_size());
    let minimal = Guard::minimal();
    assert!(guard.size() > minimal.size());
}

#[test]
fn minimal_guard_bytes() {
    let guard = Guard::minimal();
    assert_eq!(
        guard.to_bytes(),
        vec![OP_DUP, OP_SIZE, 0x01, 100, OP_GREATERTHAN, OP_VERIFY, OP_DROP, OP_TRUE]
    );
    assert_eq!(guard.size(), 8);
}

#[test]
fn full_guard_size_and_kind() {
    assert_eq!(Guard::universal().size(), 41);
    assert_eq!(Guard::universal().to_bytes(), Guard::paymaster().to_bytes());
    let custom = Guard::custom(vec![1, 2, 3]);
    assert_eq!(custom.guard_type(), GuardType::Custom);
    assert_eq!(custom.to_bytes(), vec![1, 2, 3]);
}

#[test]
fn guard_size_estimate_values() {
    assert_eq!(estimate_guard_size(0), 2420);
    assert_eq!(estimate_guard_size(10), 4420);
    assert!(guard_fits(20));
    assert!(!guard_fits(21));
}

#[test]
fn guard_builder_parts() {
    assert_eq!(GuardBuilder::new().poseidon_binding().build(), vec![OP_TRUE, OP_VERIFY]);
    assert_eq!(GuardBuilder::new().introspection().build(), vec![OP_DUP, 0x6b]);
    assert_eq!(
        GuardBuilder::new().ipa_verification().build(),
        vec![OP_SIZE, 0x02, 0x80, 0x00, OP_GREATERTHAN, OP_VERIFY, OP_DROP]
    );
    assert_eq!(
        GuardBuilder::new().paymaster_binding().build(),
        vec![OP_SIZE, 0x01, 0x20, OP_GREATERTHAN, OP_VERIFY, 0x6b]
    );
    assert_eq!(GuardBuilder::new().cleanup().build(), vec![0x6c, OP_DROP, 0x6c, OP_DROP, OP_TRUE]);
    assert_eq!(GuardBuilder::new().paymaster_reconstruction().build().len(), 21);
}
