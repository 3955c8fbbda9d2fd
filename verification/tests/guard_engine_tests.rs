use ghost_script::guard_engine::cleanup::StackCleanup;
use ghost_script::guard_engine::universal::{BindingMode, GuardConfig, UniversalGuard};
use ghost_script::guard_engine::verify_binding::{push_number, VerifyBinding};
use ghost_script::guard_engine::verify_public::{op_n, VerifyPublicData};
use ghost_script::hints::{IpaHints, PoseidonHints};
use ghost_script::opcodes::{
    OP_1, OP_2DROP, OP_5, OP_CAT, OP_DROP, OP_EQUALVERIFY, OP_FALSE, OP_FROMALTSTACK, OP_SHA256,
    OP_TOALTSTACK,
};

#[test]
fn test_cleanup_basic() {
    let cleanup = StackCleanup::new(5).preserve_tail(true).preserve_message(false);
    let script = cleanup.build();
    assert!(script.contains(&OP_TOALTSTACK));
    assert!(script.contains(&OP_FROMALTSTACK));
}

#[test]
fn test_cleanup_with_message() {
    let cleanup = StackCleanup::new(5).preserve_tail(true).preserve_message(true);
    let script = cleanup.build();
    assert!(script.contains(&OP_SHA256));
}

#[test]
fn test_remaining_count() {
    let cleanup1 = StackCleanup::new(5).preserve_tail(true).preserve_message(false);
    assert_eq!(cleanup1.remaining_count(), 1);
    let cleanup2 = StackCleanup::new(5).preserve_tail(true).preserve_message(true);
    assert_eq!(cleanup2.remaining_count(), 2);
}

#[test]
fn test_uses_2drop() {
    let cleanup = StackCleanup::new(6).preserve_tail(true).preserve_message(false);
    let script = cleanup.build();
    assert!(script.contains(&OP_2DROP));
}

#[test]
fn cleanup_exact_bytes() {
    let script = StackCleanup::new(5).preserve_tail(true).preserve_message(false).build();
    assert_eq!(script, vec![OP_TOALTSTACK, OP_2DROP, OP_2DROP, OP_DROP, OP_FROMALTSTACK]);
    let script = StackCleanup::new(5).preserve_tail(true).preserve_message(true).build();
    assert_eq!(
        script,
        vec![
            OP_TOALTSTACK,
            OP_SHA256,
            OP_TOALTSTACK,
            OP_2DROP,
            OP_2DROP,
            OP_FROMALTSTACK,
            OP_FROMALTSTACK
        ]
    );
    let script = StackCleanup::new(0).preserve_tail(false).preserve_message(false).build();
    assert_eq!(script, vec![OP_DROP]);
}

#[test]
fn universal_test_guard_config_default() {
    let config = GuardConfig::default();
    assert_eq!(config.num_inputs, 1);
    assert_eq!(config.num_app_outputs, 1);
}

#[test]
fn test_guard_config_paymaster() {
    let config = GuardConfig::new(2, 3).paymaster(1000);
    assert!(matches!(config.binding_mode, BindingMode::Partial));
}

#[test]
fn test_guard_expected_stack_size() {
    let config = GuardConfig::new(1, 1);
    assert_eq!(config.expected_stack_size(), 10);
}

#[test]
fn test_universal_guard_build() {
    let guard = UniversalGuard::strict(1, 1);
    let script = guard.build();
    assert!(!script.is_empty());
}

#[test]
fn test_universal_guard_validate() {
    let guard = UniversalGuard::strict(1, 1);
    assert!(guard.validate().is_ok());
    let guard = UniversalGuard::strict(0, 1);
    assert!(guard.validate().is_err());
}

#[test]
fn test_guard_size_estimate() {
    let guard = UniversalGuard::strict(1, 1);
    let size = guard.size_estimate();
    assert!(size > 0);
    assert!(size < 10000);
}

#[test]
fn universal_guard_limits_and_sizes() {
    assert!(UniversalGuard::strict(16, 16).validate().is_ok());
    assert!(UniversalGuard::strict(17, 1).validate().is_err());
    assert!(UniversalGuard::strict(1, 17).validate().is_err());
    assert_eq!(UniversalGuard::strict(1, 1).size_estimate(), 2850);
    let config = GuardConfig::new(2, 3);
    assert_eq!(config.expected_stack_size(), 19);
    assert_eq!(config.items_to_drop(), 17);
    assert_eq!(config.preserve_message(false).items_to_drop(), 18);
    let guard = UniversalGuard::paymaster(1, 1, 5);
    assert!(matches!(guard.config().binding_mode, BindingMode::Partial));
    let whole = guard.build();
    let verification = guard.build_verification();
    assert_eq!(&whole[..verification.len()], &verification[..]);
}

#[test]
fn test_verify_binding_strict() {
    let verifier = VerifyBinding::new(1, BindingMode::Strict);
    let script = verifier.build();
    assert!(!script.is_empty());
    assert!(script.contains(&OP_SHA256));
    assert!(script.contains(&OP_EQUALVERIFY));
}

#[test]
fn test_verify_binding_paymaster() {
    let verifier = VerifyBinding::new(1, BindingMode::Partial);
    let script = verifier.build();
    assert!(!script.is_empty());
    assert!(script.contains(&OP_CAT));
}

#[test]
fn test_serialize_outputs() {
    let verifier = VerifyBinding::new(2, BindingMode::Strict);
    let script = verifier.serialize_outputs();
    assert!(!script.is_empty());
}

#[test]
fn binding_number_pushes() {
    assert_eq!(push_number(0), vec![OP_FALSE]);
    assert_eq!(push_number(16), vec![0x60]);
    assert_eq!(push_number(41), vec![0x01, 41]);
    assert_eq!(push_number(0x80), vec![0x02, 0x80, 0x00]);
    assert_eq!(push_number(0x8000), vec![0x03, 0x00, 0x80, 0x00]);
    assert_eq!(push_number(0x800000), vec![0x04, 0x00, 0x00, 0x80, 0x00]);
    let script = VerifyBinding::new(2, BindingMode::Strict).serialize_outputs();
    assert_eq!(script.len(), 21);
    assert_eq!(script[0], OP_FALSE);
}

#[test]
fn test_verify_public_data_build() {
    let verifier = VerifyPublicData::new(1, 1);
    let script = verifier.build();
    assert!(!script.is_empty());
    assert!(script.contains(&OP_SHA256));
}

#[test]
fn test_total_witness_fields() {
    let verifier = VerifyPublicData::new(2, 3);
    assert_eq!(verifier.total_witness_fields(), 15);
}

#[test]
fn test_op_n() {
    assert_eq!(op_n(0), OP_FALSE);
    assert_eq!(op_n(1), OP_1);
    assert_eq!(op_n(5), OP_5);
}

#[test]
fn test_transcript_init() {
    let verifier = VerifyPublicData::new(1, 1);
    let script = verifier.transcript_init();
    assert!(script.contains(&OP_SHA256));
    assert!(script.contains(&OP_TOALTSTACK));
}

#[test]
fn test_transcript_absorb() {
    let verifier = VerifyPublicData::new(1, 1);
    let script = verifier.transcript_absorb();
    assert!(script.contains(&OP_FROMALTSTACK));
    assert!(script.contains(&OP_CAT));
    assert!(script.contains(&OP_SHA256));
    assert!(script.contains(&OP_TOALTSTACK));
}

#[test]
fn test_build_includes_security_fix() {
    let verifier = VerifyPublicData::new(1, 1);
    let script = verifier.build();
    let toalt_count = script.iter().filter(|&&b| b == OP_TOALTSTACK).count();
    let fromalt_count = script.iter().filter(|&&b| b == OP_FROMALTSTACK).count();
    assert!(toalt_count >= 2, "Should have transcript state operations");
    assert!(fromalt_count >= 2, "Should retrieve transcript state");
}

#[test]
fn verify_public_exact_parts() {
    let verifier = VerifyPublicData::new(1, 1);
    let init = verifier.transcript_init();
    assert_eq!(init.len(), 26);
    assert_eq!(init[0], 23);
    assert_eq!(&init[1..24], b"Halo2_GHOST_Protocol_v1");
    let squeeze = verifier.transcript_squeeze();
    assert_eq!(&squeeze[3..10], b"squeeze");
    assert_eq!(op_n(8), 0x58);
    assert_eq!(op_n(9), 0x58);
    assert_eq!(VerifyPublicData::new(0, 0).copy_and_hash_witnesses(), vec![OP_SHA256]);
    assert_eq!(verifier.copy_and_hash_witnesses().len(), 24);
}

#[test]
fn guard_config_with_hints() {
    let config = GuardConfig::new(1, 2)
        .with_ipa_hints(IpaHints::placeholder(10))
        .with_poseidon_hints(PoseidonHints::placeholder(4));
    assert_eq!(config.ipa_hints.as_ref().unwrap().num_rounds(), 10);
    assert_eq!(config.poseidon_hints.as_ref().unwrap().round_states.len(), 4);
    let guard = UniversalGuard::new(config);
    assert_eq!(guard.size_estimate(), 500 + 150 + 200 + 50 + 1375);
    let plain = UniversalGuard::default_config(3, 4);
    assert_eq!(plain.config().num_inputs, 3);
    assert_eq!(plain.config().num_app_outputs, 4);
    assert!(matches!(plain.config().binding_mode, BindingMode::Strict));
    assert!(plain.config().preserve_message_hash);
    assert_eq!(plain.build(), UniversalGuard::strict(3, 4).build());
}
