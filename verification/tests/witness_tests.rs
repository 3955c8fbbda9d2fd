use ghost_script::field::Fp;
use ghost_script::guard_engine::universal::GuardError;
use ghost_script::hashing::double_sha256;
use ghost_script::hints::{IpaHints, PoseidonHints};
use ghost_script::witness::{
    push_data, EcdsaSignature, PaymasterWitness, PaymasterWitnessBuilder, Proof, StrictWitness,
};

fn make_output(asset: u64, amount: u64, nonce: u64, recipient: u64) -> Vec<u8> {
    let mut bytes = Vec::new();
    bytes.extend_from_slice(&amount.to_le_bytes());
    bytes.push(32);
    bytes.extend_from_slice(&asset.to_le_bytes());
    bytes.extend_from_slice(&nonce.to_le_bytes());
    bytes.extend_from_slice(&recipient.to_le_bytes());
    bytes.extend_from_slice(&[0u8; 8]);
    bytes
}

fn make_test_proof() -> Proof {
    Proof { bytes: vec![0xAB; 100], public_inputs: vec![Fp::from_u64(12345)] }
}

fn make_witness() -> PaymasterWitness {
    PaymasterWitness::new(
        make_test_proof(),
        IpaHints::placeholder(10),
        PoseidonHints::placeholder(4),
        make_output(1, 90, 1, 0xAAAA),
        make_output(1, 10, 2, 0xBBBB),
        vec![Fp::from_u64(0xAAAA)],
        vec![0x00; 180],
    )
}

#[test]
fn test_ecdsa_signature() {
    let sig = EcdsaSignature::new(vec![0x30, 0x45, 0x02, 0x20]);
    assert_eq!(sig.sighash_flag, 0x41);
    let bytes = sig.to_bytes();
    assert_eq!(bytes.last(), Some(&0x41));
}

#[test]
fn test_push_data_small() {
    let data = vec![0x01, 0x02, 0x03];
    let pushed = push_data(&data);
    assert_eq!(pushed[0], 3);
    assert_eq!(&pushed[1..], &data);
}

#[test]
fn test_push_data_medium() {
    let data = vec![0x42; 100];
    let pushed = push_data(&data);
    assert_eq!(pushed[0], 0x4c);
    assert_eq!(pushed[1], 100);
    assert_eq!(&pushed[2..], &data);
}

#[test]
fn test_paymaster_witness_creation() {
    let witness = make_witness();
    assert!(!witness.app_outputs_bytes.is_empty());
    assert!(!witness.change_outputs_bytes.is_empty());
    assert_eq!(witness.app_fields.len(), 1);
}

#[test]
fn test_paymaster_witness_to_script_sig() {
    let witness = make_witness();
    let script_sig = witness.to_script_sig();
    assert!(!script_sig.is_empty());
}

#[test]
fn test_paymaster_witness_builder() {
    let witness = PaymasterWitnessBuilder::new()
        .with_proof(make_test_proof())
        .ipa_hints(IpaHints::placeholder(10))
        .poseidon_hints(PoseidonHints::placeholder(4))
        .app_output(&make_output(1, 90, 1, 0xAAAA), Fp::from_u64(0xAAAA))
        .change_output(&make_output(1, 10, 2, 0xBBBB))
        .preimage(vec![0x00; 180])
        .user_signature(EcdsaSignature::default())
        .build()
        .unwrap();
    assert!(witness.sponsor_signature.is_none());
    assert!(!witness.app_outputs_bytes.is_empty());
}

#[test]
fn test_witness_size_estimation() {
    let witness = make_witness();
    let estimated = witness.estimate_size();
    let actual = witness.to_script_sig().len();
    assert!(estimated > actual / 2);
    assert!(estimated < actual * 2);
}

#[test]
fn push_data_small_numbers_and_prefixes() {
    assert_eq!(push_data(&[]), vec![0x00]);
    assert_eq!(push_data(&[1]), vec![0x51]);
    assert_eq!(push_data(&[16]), vec![0x60]);
    assert_eq!(push_data(&[17]), vec![0x01, 17]);
    assert_eq!(push_data(&[0]), vec![0x01, 0]);
    assert_eq!(&push_data(&[7u8; 256])[..3], &[0x4d, 0x00, 0x01]);
    assert_eq!(&push_data(&vec![7u8; 65536])[..5], &[0x4e, 0x00, 0x00, 0x01, 0x00]);
}

#[test]
fn signature_bytes_and_size() {
    let sig = EcdsaSignature::with_sighash(vec![1, 2, 3], 0x01);
    assert_eq!(sig.to_bytes(), vec![1, 2, 3, 0x01]);
    assert_eq!(sig.size(), 4);
    let stand_in = EcdsaSignature::default();
    assert_eq!(stand_in.der_bytes, vec![0x30; 70]);
    assert_eq!(stand_in.sighash_flag, 0x41);
}

#[test]
fn reconstruction_is_held_against_the_preimage() {
    let witness = make_witness();
    assert!(matches!(witness.verify_reconstruction(), Err(GuardError::BindingMismatch)));
    let mut all = witness.app_outputs_bytes.clone();
    all.extend_from_slice(&witness.change_outputs_bytes);
    let digest = double_sha256(&all);
    assert_eq!(witness.compute_hash_outputs(), digest);
    let mut preimage = vec![0u8; 180];
    preimage[100..132].copy_from_slice(&digest);
    let mut bound = make_witness();
    bound.preimage = preimage;
    assert!(bound.verify_reconstruction().is_ok());
    bound.preimage[131] ^= 1;
    assert!(matches!(bound.verify_reconstruction(), Err(GuardError::BindingMismatch)));
    bound.preimage.truncate(131);
    assert!(matches!(bound.verify_reconstruction(), Err(GuardError::InvalidInput(_))));
}

#[test]
fn double_sha256_of_nothing() {
    assert_eq!(
        double_sha256(&[]).to_vec(),
        vec![
            0x5d, 0xf6, 0xe0, 0xe2, 0x76, 0x13, 0x59, 0xd3, 0x0a, 0x82, 0x75, 0x05, 0x8e, 0x29,
            0x9f, 0xcc, 0x03, 0x81, 0x53, 0x45, 0x45, 0xf5, 0x5c, 0xf4, 0x3e, 0x41, 0x98, 0x3f,
            0x5d, 0x4c, 0x94, 0x56
        ]
    );
}

#[test]
fn builder_refuses_missing_parts() {
    let r = PaymasterWitnessBuilder::new().ipa_hints(IpaHints::placeholder(1)).build();
    assert!(matches!(r, Err(GuardError::InvalidInput(_))));
    let witness = PaymasterWitnessBuilder::new()
        .with_proof(make_test_proof())
        .ipa_hints(IpaHints::placeholder(1))
        .poseidon_hints(PoseidonHints::placeholder(1))
        .app_outputs(vec![1u8; 41], vec![Fp::one()])
        .change_outputs(vec![2u8; 82])
        .preimage(vec![0u8; 132])
        .sponsor_signature(EcdsaSignature::new(vec![9]))
        .build()
        .unwrap();
    assert_eq!(witness.change_outputs_bytes.len(), 82);
    assert!(witness.sponsor_signature.is_some());
    let with_sponsor = witness.to_script_sig();
    assert_eq!(&with_sponsor[..3], &[2, 9, 0x41]);
    assert_eq!(
        witness.estimate_size(),
        100 + 3 + 196 + 3 + 224 + 3 + 41 + 3 + 82 + 3 + 132 + 3 + 72 + 3
    );
}

#[test]
fn strict_witness_script_sig() {
    let witness = StrictWitness::new(
        make_test_proof(),
        IpaHints::placeholder(1),
        PoseidonHints::placeholder(1),
        vec![0u8; 10],
    )
    .with_signature(EcdsaSignature::new(vec![1, 2]));
    let sig = witness.to_script_sig();
    assert_eq!(&sig[..4], &[3, 1, 2, 0x41]);
    assert_eq!(sig[4], 10);
    assert_eq!(sig.len(), 4 + 11 + (2 + 224) + (2 + 196) + (2 + 100));
    assert_eq!(witness.estimate_size(), 100 + 3 + 196 + 3 + 224 + 3 + 10 + 3 + 4);
}
