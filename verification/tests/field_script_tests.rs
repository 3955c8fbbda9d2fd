use ghost_script::field::Fp;
use ghost_script::field_script::{
    bytes_to_fp, estimate_full_round_size, estimate_init_size, estimate_partial_round_size,
    estimate_poseidon_size, estimate_sbox_size, estimate_witness_lock_size,
    estimate_witness_unlock_size, fp_to_bytes, FusedPoseidonConstants,
};

#[test]
fn test_fp_roundtrip() {
    let mut rng = rand::thread_rng();
    for _ in 0..10 {
        let raw = <pasta_curves::Fp as ff::Field>::random(&mut rng);
        let repr = ff::PrimeField::to_repr(&raw);
        let fp = Fp::from_repr(&repr).unwrap();
        let bytes = fp_to_bytes(&fp);
        let back = bytes_to_fp(&bytes).unwrap();
        assert_eq!(fp, back);
    }
}

#[test]
fn test_fused_constants() {
    let fused = FusedPoseidonConstants::compute();
    println!("Full round constants: {}", fused.full_round_constants.len());
    println!("Partial round constants: {}", fused.partial_round_c0.len());
    let witness_size = fused.witness_size();
    println!("Witness data size: {} bytes", witness_size);
    let unfused = (8 * 3 + 56 * 3) * 32;
    let fused_size = (8 * 3 + 56) * 32;
    println!("Savings: {} bytes", unfused - fused_size);
}

#[test]
fn test_witness_hash() {
    let fused = FusedPoseidonConstants::compute();
    let hash = fused.witness_hash();
    let hash2 = FusedPoseidonConstants::compute().witness_hash();
    assert_eq!(hash, hash2, "Hash should be deterministic");
}

#[test]
fn test_witness_pattern_sizes() {
    let lock_size = estimate_witness_lock_size();
    let unlock_size = estimate_witness_unlock_size();
    println!("lock {} unlock {}", lock_size, unlock_size);
}

#[test]
fn test_init_size() {
    let size = estimate_init_size();
    println!("Init (embedded constants): {} bytes", size);
}

#[test]
fn test_sbox_size() {
    let size = estimate_sbox_size();
    println!("S-box: {} bytes", size);
}

#[test]
fn test_full_round_size() {
    let size = estimate_full_round_size();
    println!("Full round (embedded): {} bytes", size);
}

#[test]
fn test_partial_round_size() {
    let size = estimate_partial_round_size();
    println!("Partial round (embedded): {} bytes", size);
}

#[test]
fn test_poseidon_embedded_size() {
    let total = estimate_poseidon_size();
    println!("Embedded constants total: {} bytes", total);
}

#[test]
fn test_comparison() {
    let embedded = estimate_poseidon_size();
    let witness_lock = estimate_witness_lock_size();
    let witness_unlock = estimate_witness_unlock_size();
    println!("{} {} {}", embedded, witness_lock, witness_unlock);
    println!("Savings on locking script: {} bytes", embedded as i64 - witness_lock as i64);
}
