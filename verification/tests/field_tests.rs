use ghost_script::field::{Fp, FIELD_BYTES, PALLAS_MODULUS_BYTES};
use ghost_script::field_script::{
    bytes_to_fp, fp_to_bytes, generate_witness_locking_script,
    generate_witness_unlocking_script, get_constants_hash, get_mds_bytes,
    generate_secure_witness_verification, FusedPoseidonConstants, SparseMdsConstants,
    estimate_full_round_size, estimate_init_size, estimate_partial_round_size,
    estimate_poseidon_size, estimate_sbox_size, estimate_witness_lock_size,
    estimate_witness_unlock_size, generate_poseidon_script_opt,
};
use ghost_script::poseidon::{
    get_mds_fp, get_round_constant, get_schedule, permute_schedule, poseidon_permute,
    PoseidonHash, FULL_ROUNDS, MDS_MATRIX, PARTIAL_ROUNDS, TOTAL_ROUNDS,
};

fn modulus_minus(n: u8) -> [u8; 32] {
    let mut bytes = PALLAS_MODULUS_BYTES;
    let mut borrow = n as i32;
    for b in bytes.iter_mut() {
        let cur = *b as i32 - borrow;
        *b = cur.rem_euclid(256) as u8;
        borrow = if cur < 0 { 1 } else { 0 };
    }
    bytes
}

#[test]
fn decode_accepts_exactly_the_values_below_the_modulus() {
    assert_eq!(FIELD_BYTES, 32);
    assert!(bytes_to_fp(&PALLAS_MODULUS_BYTES).is_none());
    assert!(bytes_to_fp(&[0xff; 32]).is_none());
    let mut above = PALLAS_MODULUS_BYTES;
    above[0] += 1;
    assert!(bytes_to_fp(&above).is_none());
    let mut high = [0u8; 32];
    high[31] = 0x80;
    assert!(bytes_to_fp(&high).is_none());
    let largest = modulus_minus(1);
    let fp = bytes_to_fp(&largest).unwrap();
    assert_eq!(fp_to_bytes(&fp), largest);
    assert_eq!(bytes_to_fp(&[0u8; 32]).unwrap(), Fp::zero());
    let mut one = [0u8; 32];
    one[0] = 1;
    assert_eq!(bytes_to_fp(&one).unwrap(), Fp::one());
    assert_eq!(fp_to_bytes(&Fp::from_u64(0x0102_0304_0506_0708))[..9], [8, 7, 6, 5, 4, 3, 2, 1, 0]);
}

#[test]
fn field_arithmetic_wraps_at_the_modulus() {
    let largest = Fp::from_repr(&modulus_minus(1)).unwrap();
    assert_eq!(largest.add(&Fp::one()), Fp::zero());
    assert_eq!(largest.add(&Fp::from_u64(5)), Fp::from_u64(4));
    assert_eq!(largest.mul(&largest), Fp::one());
    assert_eq!(largest.mul(&Fp::from_u64(2)), Fp::from_repr(&modulus_minus(2)).unwrap());
    assert_eq!(Fp::from_u64(6).mul(&Fp::from_u64(7)), Fp::from_u64(42));
    assert_eq!(Fp::from_u64(6).add(&Fp::from_u64(7)), Fp::from_u64(13));
    assert_eq!(Fp::from_u64(3).pow5(), Fp::from_u64(243));
    assert_eq!(Fp::from_u64(u64::MAX).add(&Fp::one()).to_bytes()[..9], [0, 0, 0, 0, 0, 0, 0, 0, 1]);
    assert_eq!(Fp::from_u64(9).to_bytes(), Fp::from_u64(9).to_repr());
}

#[test]
fn fused_constant_set_has_the_fixed_sizes() {
    assert_eq!((FULL_ROUNDS, PARTIAL_ROUNDS, TOTAL_ROUNDS), (8, 56, 64));
    let fused = FusedPoseidonConstants::compute();
    assert_eq!(fused.full_round_constants.len(), 8);
    assert_eq!(fused.partial_round_c0.len(), 56);
    assert_eq!(9 + 8 * 3 + 56, 89);
    assert_eq!(fused.witness_size(), 2848);
    assert_eq!(fused.to_witness_bytes().len(), 2848);
    let blob = fused.to_blob();
    assert_eq!(blob.len(), 2880);
    assert_eq!(&blob[..32], &PALLAS_MODULUS_BYTES);
    assert_eq!(&blob[32..], &fused.to_witness_bytes()[..]);
    assert_eq!((9 + 8 * 3 + 56 * 3) * 32, 6432);
}

#[test]
fn fused_constants_follow_the_fusion_rule() {
    let fused = FusedPoseidonConstants::compute();
    let m = get_mds_fp();
    for i in 0..3 {
        for j in 0..3 {
            assert_eq!(m[i][j], Fp::from_u64(MDS_MATRIX[i][j]));
            assert_eq!(fused.mds[i][j], m[i][j]);
        }
    }
    for slot in 0..8 {
        let round = if slot < 4 { slot } else { slot + 56 };
        for j in 0..3 {
            assert_eq!(fused.full_round_constants[slot][j], get_round_constant(round, j));
        }
    }
    assert_eq!(fused.partial_round_c0[0], get_round_constant(4, 0));
    for r in 5..60 {
        let c1 = get_round_constant(r - 1, 1);
        let c2 = get_round_constant(r - 1, 2);
        let acc1 = m[1][1].mul(&c1).add(&m[1][2].mul(&c2));
        let acc2 = m[2][1].mul(&c1).add(&m[2][2].mul(&c2));
        let expected =
            get_round_constant(r, 0).add(&m[0][1].mul(&acc1)).add(&m[0][2].mul(&acc2));
        assert_eq!(fused.partial_round_c0[r - 4], expected);
    }
    let bytes = fused.to_witness_bytes();
    assert_eq!(bytes[0], 3);
    assert_eq!(bytes[32], 1);
    assert_eq!(&bytes[288..320], &get_round_constant(0, 0).to_repr());
    assert_eq!(&bytes[288 + 23 * 32..288 + 24 * 32], &get_round_constant(63, 2).to_repr());
    assert_eq!(&bytes[1056..1088], &fused.partial_round_c0[0].to_repr());
    assert_eq!(&bytes[2816..], &fused.partial_round_c0[55].to_repr());
}

#[test]
fn round_constants_are_canonical_and_distinct() {
    let a = get_round_constant(0, 0);
    let b = get_round_constant(0, 1);
    let c = get_round_constant(1, 0);
    assert_ne!(a, b);
    assert_ne!(a, c);
    assert_eq!(a, get_round_constant(0, 0));
    assert!(a.to_repr()[31] < 64);
    assert!(bytes_to_fp(&get_round_constant(63, 2).to_repr()).is_some());
}

#[test]
fn commitment_changes_with_any_constant() {
    let fused = FusedPoseidonConstants::compute();
    let hash = fused.witness_hash();
    assert_eq!(hash, get_constants_hash());
    let mut changed = FusedPoseidonConstants::compute();
    changed.partial_round_c0[55] = changed.partial_round_c0[55].add(&Fp::one());
    assert_ne!(changed.witness_hash(), hash);
    let mut changed = FusedPoseidonConstants::compute();
    changed.mds[2][2] = Fp::from_u64(2);
    assert_ne!(changed.witness_hash(), hash);
    let mut changed = FusedPoseidonConstants::compute();
    changed.full_round_constants[0][0] = Fp::zero();
    assert_ne!(changed.witness_hash(), hash);
}

#[test]
fn sparse_constants_are_row_zero_and_the_first_column() {
    let sparse = SparseMdsConstants::compute();
    let m = get_mds_bytes();
    assert_eq!(sparse.row0, m[0]);
    assert_eq!(sparse.w1, m[1][0]);
    assert_eq!(sparse.w2, m[2][0]);
    assert_eq!(sparse.row0[0][0], 3);
    assert_eq!(m[1][2], [0u8; 32]);
}

#[test]
fn size_estimates_are_the_sizes() {
    assert_eq!(estimate_init_size(), 330);
    assert_eq!(estimate_sbox_size(), 20);
    assert_eq!(estimate_full_round_size(), 283);
    assert_eq!(estimate_partial_round_size(), 131);
    assert_eq!(estimate_poseidon_size(), 9936);
    assert_eq!(estimate_poseidon_size(), generate_poseidon_script_opt().len());
    assert_eq!(estimate_witness_lock_size(), 8796);
    assert_eq!(estimate_witness_lock_size(), generate_witness_locking_script().len());
    assert_eq!(estimate_witness_unlock_size(), 3015);
    let state = [Fp::from_u64(1), Fp::from_u64(2), Fp::from_u64(3)];
    let unlock = generate_witness_unlocking_script(state, Fp::from_u64(4));
    assert_eq!(unlock.len(), 3015);
    assert_eq!(&unlock[..3], &[0x4d, 0x40, 0x0b]);
    assert_eq!(&unlock[3..35], &PALLAS_MODULUS_BYTES);
    assert_eq!(unlock[2883], 32);
    assert_eq!(unlock[2884], 1);
    assert_eq!(unlock[2983], 4);
}

#[test]
fn locking_script_commits_to_the_blob() {
    let script = generate_witness_locking_script();
    assert_eq!(&script[..6], &[0x6b, 0x6b, 0x6b, 0x6b, 0x76, 0xa8]);
    assert_eq!(script[6], 32);
    assert_eq!(&script[7..39], &get_constants_hash());
    assert_eq!(script[39], 0x88);
    assert_eq!(&script[40..43], &[0x01, 0x20, 0x7f]);
    assert_eq!(&script[304..307], &[0x01, 0x20, 0x7f]);
    assert_eq!(&script[307..310], &[0x6c, 0x6c, 0x6c]);
    assert_eq!(&script[script.len() - 4..], &[0x75, 0x75, 0x6c, 0x9d]);
    let secure = generate_secure_witness_verification();
    assert_eq!(secure.len(), 8832);
    assert_eq!(&secure[..2], &[0x76, 32]);
    assert_eq!(&secure[2..34], &PALLAS_MODULUS_BYTES);
    assert_eq!(&secure[34..36], &[0x9f, 0x69]);
    assert_eq!(&secure[36..], &script[..]);
}

#[test]
fn hash_is_the_first_element_of_the_permuted_state() {
    let a = Fp::from_u64(10);
    let b = Fp::from_u64(20);
    let c = Fp::from_u64(30);
    let compiled = FusedPoseidonConstants::compute();
    assert_eq!(PoseidonHash::hash(a, b), compiled.permute([a, b, Fp::zero()])[0]);
    assert_eq!(PoseidonHash::hash_3(a, b, c), compiled.permute([a, b, c])[0]);
    assert_ne!(PoseidonHash::hash(a, b), PoseidonHash::hash(b, a));
    assert_eq!(PoseidonHash::hash_many(&[]), Fp::zero());
    assert_eq!(PoseidonHash::hash_many(&[a]), a);
    assert_eq!(PoseidonHash::hash_many(&[a, b]), PoseidonHash::hash(a, b));
    assert_eq!(
        PoseidonHash::hash_many(&[a, b, c]),
        PoseidonHash::hash(PoseidonHash::hash(a, b), c)
    );
}

fn states() -> Vec<[Fp; 3]> {
    (1..6u64)
        .map(|i| {
            let a = Fp::from_u64(i * 7919).pow5();
            [a, a.mul(&Fp::from_u64(i)).pow5(), a.add(&Fp::from_u64(i + 3)).pow5()]
        })
        .collect()
}

#[test]
fn standard_schedule_is_what_the_permutation_runs_on() {
    let schedule = get_schedule();
    assert_eq!(schedule.len(), 64);
    assert_eq!(schedule[17][1], get_round_constant(17, 1));
    for state in states() {
        assert_eq!(permute_schedule(&get_mds_fp(), &schedule, state), poseidon_permute(state));
    }
    let fused = FusedPoseidonConstants::fuse(get_mds_fp(), &schedule);
    let standard = FusedPoseidonConstants::compute();
    assert_eq!(fused.to_blob(), standard.to_blob());
}

#[test]
fn fusion_keeps_the_permutation_where_nothing_is_carried() {
    let mut schedule = get_schedule();
    for round in 4..60 {
        schedule[round][1] = Fp::zero();
        schedule[round][2] = Fp::zero();
    }
    let fused = FusedPoseidonConstants::fuse(get_mds_fp(), &schedule);
    for round in 4..60 {
        assert_eq!(fused.partial_round_c0[round - 4], schedule[round][0]);
    }
    for state in states() {
        assert_eq!(fused.permute(state), permute_schedule(&get_mds_fp(), &schedule, state));
    }
}

#[test]
fn fusion_keeps_the_permutation_where_what_is_carried_cancels() {
    // With row 0 of the matrix being (3, 1, 1), what rounds 4 and 59 put on
    // the second and third element adds up to a multiple of the modulus,
    // both on the first element of every round between and at the end.
    let minus_one = Fp::from_repr(&modulus_minus(1)).unwrap();
    let mut schedule = get_schedule();
    for round in 4..60 {
        schedule[round][1] = Fp::zero();
        schedule[round][2] = Fp::zero();
    }
    schedule[4][1] = Fp::one();
    schedule[4][2] = minus_one;
    schedule[59][1] = minus_one;
    schedule[59][2] = Fp::one();
    let fused = FusedPoseidonConstants::fuse(get_mds_fp(), &schedule);
    assert_eq!(fused.partial_round_c0[1], schedule[5][0]);
    for state in states() {
        assert_eq!(fused.permute(state), permute_schedule(&get_mds_fp(), &schedule, state));
    }
}

#[test]
fn fusion_changes_the_permutation_where_something_stays_carried() {
    let mut schedule = get_schedule();
    for round in 4..60 {
        schedule[round][1] = Fp::zero();
        schedule[round][2] = Fp::zero();
    }
    schedule[4][1] = Fp::one();
    let fused = FusedPoseidonConstants::fuse(get_mds_fp(), &schedule);
    assert_eq!(fused.partial_round_c0[1], schedule[5][0].add(&Fp::one()));
    assert_eq!(fused.partial_round_c0[2], schedule[6][0]);
    for state in states() {
        assert_ne!(fused.permute(state), permute_schedule(&get_mds_fp(), &schedule, state));
    }
}
