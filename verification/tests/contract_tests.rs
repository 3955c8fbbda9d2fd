use ghost_script::field::{Fp, PALLAS_MODULUS_BYTES};
use ghost_script::field_script::{generate_secure_witness_verification, get_constants_hash};
use ghost_script::poseidon::PoseidonHash;
use ghost_script::proof_generator::{
    analyze_witness_sizes, generate_mock_proof, generate_mock_state_transition, interleave,
    IPAProofComponents, ProofError, ProofGenerator, TranscriptBuilder, WitnessSerializer,
};
use ghost_script::transcript::{absorb_sequence, decode_all, FieldElement};
use ghost_script::verifier_contract::{
    analyze_contract_sizes, ContractOutput, ContractTransactionBuilder, IPAAccumulator,
    IPAStepWitness, VerifierContract, VerifierError,
};

fn element(n: u64) -> FieldElement {
    Fp::from_u64(n).to_repr()
}

fn contract() -> VerifierContract {
    VerifierContract::new([7u8; 20], IPAAccumulator::new(element(1))).unwrap()
}

fn sample_witness(with_b: bool, with_state: bool) -> IPAStepWitness {
    IPAStepWitness {
        public_inputs: vec![element(1), element(2), element(3)],
        l_terms: vec![[element(10), element(11)], [element(12), element(13)]],
        r_terms: vec![[element(20), element(21)], [element(22), element(23)]],
        a_scalar: element(30),
        b_scalar: if with_b { Some(element(31)) } else { None },
        new_app_state: if with_state { Some(element(32)) } else { None },
        next_transcript_hash: element(33),
    }
}

fn same(a: &IPAStepWitness, b: &IPAStepWitness) -> bool {
    a.public_inputs == b.public_inputs
        && a.l_terms == b.l_terms
        && a.r_terms == b.r_terms
        && a.a_scalar == b.a_scalar
        && a.b_scalar == b.b_scalar
        && a.new_app_state == b.new_app_state
        && a.next_transcript_hash == b.next_transcript_hash
}

#[test]
fn accumulator_record_round_trips() {
    let acc = IPAAccumulator { transcript_hash: element(5), app_state_root: element(6), step: 0x0102_0304 };
    let bytes = acc.to_script_bytes();
    assert_eq!(bytes.len(), 68);
    assert_eq!(&bytes[..32], &element(5));
    assert_eq!(&bytes[32..64], &element(6));
    assert_eq!(&bytes[64..], &[4, 3, 2, 1]);
    assert_eq!(IPAAccumulator::from_bytes(&bytes), Some(acc));
    assert_eq!(IPAAccumulator::from_bytes(&bytes[..67]), None);
    let mut longer = bytes.clone();
    longer.push(9);
    assert_eq!(IPAAccumulator::from_bytes(&longer), Some(acc));
    let top = IPAAccumulator { transcript_hash: element(0), app_state_root: element(0), step: u32::MAX };
    assert_eq!(IPAAccumulator::from_bytes(&top.to_script_bytes()), Some(top));
}

#[test]
fn fresh_accumulator_and_its_commitment() {
    let acc = IPAAccumulator::new(element(9));
    assert_eq!(acc.step, 0);
    assert_eq!(acc.transcript_hash, [0u8; 32]);
    assert_eq!(acc.app_state_root, element(9));
    assert!(acc.is_valid());
    assert_eq!(
        acc.hash(),
        Some(PoseidonHash::hash_3(Fp::zero(), Fp::from_u64(9), Fp::zero()))
    );
    let bad = IPAAccumulator::new(PALLAS_MODULUS_BYTES);
    assert!(!bad.is_valid());
    assert_eq!(bad.hash(), None);
    assert_eq!(
        VerifierContract::new([0u8; 20], bad).err(),
        Some(VerifierError::InvalidState)
    );
    assert_eq!(
        VerifierContract::with_state([0u8; 20], bad).err(),
        Some(VerifierError::InvalidState)
    );
}

#[test]
fn three_chained_steps_advance_the_accumulator() {
    let mut current = contract();
    let mut last = [0u8; 32];
    for i in 0..3u64 {
        let witness = generate_mock_proof(
            &current.current_state.transcript_hash,
            3,
            vec![element(100 + i)],
        )
        .unwrap();
        assert!(witness.verify(&current.current_state.transcript_hash));
        last = witness.next_transcript_hash;
        current = current.apply_transition(&witness).unwrap();
        assert_eq!(current.current_state.step, i as u32 + 1);
        assert_eq!(current.current_state.transcript_hash, last);
        assert_eq!(current.current_state.app_state_root, element(1));
    }
    assert_eq!(current.current_state.step, 3);
    assert_eq!(current.current_state.transcript_hash, last);
    assert_eq!(current.operator_pkh, [7u8; 20]);
    assert_eq!(current.constants_hash, get_constants_hash());
}

#[test]
fn mismatched_digest_is_refused_and_nothing_changes() {
    let current = contract();
    let before = current.current_state;
    let mut witness =
        generate_mock_proof(&before.transcript_hash, 2, vec![element(5)]).unwrap();
    witness.next_transcript_hash[0] ^= 1;
    assert!(!witness.verify(&before.transcript_hash));
    assert_eq!(
        current.apply_transition(&witness).err(),
        Some(VerifierError::InvalidTranscript)
    );
    assert_eq!(current.current_state, before);
    let good = generate_mock_proof(&before.transcript_hash, 2, vec![element(5)]).unwrap();
    assert!(!good.verify(&element(77)));
    let mut tampered = generate_mock_proof(&before.transcript_hash, 2, vec![element(5)]).unwrap();
    tampered.l_terms[1][0][5] ^= 1;
    assert_eq!(
        current.apply_transition(&tampered).err(),
        Some(VerifierError::InvalidTranscript)
    );
}

#[test]
fn non_canonical_values_are_refused() {
    let current = contract();
    let prev = current.current_state.transcript_hash;
    let good = generate_mock_proof(&prev, 1, vec![element(5)]).unwrap();
    let mut w = generate_mock_proof(&prev, 1, vec![element(5)]).unwrap();
    w.a_scalar = PALLAS_MODULUS_BYTES;
    assert!(!w.verify(&prev));
    assert!(w.compute_transcript_hash(&prev).is_none());
    assert_eq!(current.apply_transition(&w).err(), Some(VerifierError::NonCanonical));
    let mut w = generate_mock_proof(&prev, 1, vec![element(5)]).unwrap();
    w.b_scalar = Some([0xff; 32]);
    assert_eq!(current.apply_transition(&w).err(), Some(VerifierError::NonCanonical));
    let mut w = generate_mock_proof(&prev, 1, vec![element(5)]).unwrap();
    w.public_inputs[0] = PALLAS_MODULUS_BYTES;
    assert_eq!(current.apply_transition(&w).err(), Some(VerifierError::NonCanonical));
    let mut w = generate_mock_proof(&prev, 1, vec![element(5)]).unwrap();
    w.r_terms[0][1] = PALLAS_MODULUS_BYTES;
    assert_eq!(current.apply_transition(&w).err(), Some(VerifierError::NonCanonical));
    let mut w = generate_mock_proof(&prev, 1, vec![element(5)]).unwrap();
    w.next_transcript_hash = PALLAS_MODULUS_BYTES;
    assert_eq!(current.apply_transition(&w).err(), Some(VerifierError::NonCanonical));
    let mut w = generate_mock_proof(&prev, 1, vec![element(5)]).unwrap();
    w.new_app_state = Some(PALLAS_MODULUS_BYTES);
    assert!(w.verify(&prev));
    assert_eq!(current.apply_transition(&w).err(), Some(VerifierError::NonCanonical));
    assert!(good.verify(&prev));
    assert!(!good.verify(&PALLAS_MODULUS_BYTES));
    assert_eq!(
        generate_mock_proof(&PALLAS_MODULUS_BYTES, 1, vec![]).err(),
        Some(ProofError::NonCanonical)
    );
    assert_eq!(
        generate_mock_proof(&prev, 1, vec![PALLAS_MODULUS_BYTES]).err(),
        Some(ProofError::NonCanonical)
    );
    // The modulus itself is not silently taken for zero.
    let zero_instead = generate_mock_proof(&prev, 1, vec![element(0)]).unwrap();
    let mut as_modulus = generate_mock_proof(&prev, 1, vec![element(0)]).unwrap();
    as_modulus.public_inputs[0] = PALLAS_MODULUS_BYTES;
    assert!(zero_instead.verify(&prev));
    assert!(!as_modulus.verify(&prev));
}

#[test]
fn step_counter_cannot_pass_its_end() {
    let state = IPAAccumulator { transcript_hash: element(0), app_state_root: element(1), step: u32::MAX };
    let current = VerifierContract::new([0u8; 20], state).unwrap();
    let witness = generate_mock_proof(&state.transcript_hash, 1, vec![]).unwrap();
    assert_eq!(current.apply_transition(&witness).err(), Some(VerifierError::StepMismatch));
    let below = IPAAccumulator { step: u32::MAX - 1, ..state };
    let next = VerifierContract::new([0u8; 20], below).unwrap().apply_transition(&witness).unwrap();
    assert_eq!(next.current_state.step, u32::MAX);
}

#[test]
fn new_application_state_replaces_the_root() {
    let current = contract();
    let generator = ProofGenerator::new();
    let proof = IPAProofComponents {
        l_commitments: vec![[element(1), element(2)]],
        r_commitments: vec![[element(3), element(4)]],
        a: element(5),
        b: None,
    };
    let witness = generator
        .generate_state_transition(&current, &proof, element(99), vec![element(99)])
        .unwrap();
    assert_eq!(witness.new_app_state, Some(element(99)));
    assert!(generator.verify_witness(&witness, &current.current_state.transcript_hash));
    let next = current.apply_transition(&witness).unwrap();
    assert_eq!(next.current_state.app_state_root, element(99));
    assert_eq!(next.current_state.step, 1);
    let mock = generate_mock_state_transition(&current, element(50)).unwrap();
    assert_eq!(mock.public_inputs, vec![element(50)]);
    assert_eq!(mock.l_terms.len(), 10);
    assert!(mock.new_app_state.is_none());
    assert!(mock.verify(&current.current_state.transcript_hash));
    assert_eq!(
        generate_mock_state_transition(&current, PALLAS_MODULUS_BYTES).err(),
        Some(ProofError::NonCanonical)
    );
}

#[test]
fn transcript_digest_is_the_sequential_absorption() {
    let seed = element(3);
    let witness = generate_mock_proof(&seed, 2, vec![element(8), element(9)]).unwrap();
    let mut state = Fp::from_u64(3);
    for e in witness.absorbed_elements() {
        state = PoseidonHash::hash(state, Fp::from_repr(&e).unwrap());
    }
    assert_eq!(witness.next_transcript_hash, state.to_repr());
    assert_eq!(witness.compute_transcript_hash(&seed), Some(state));
    let elems = witness.absorbed_elements();
    assert_eq!(elems.len(), 2 + 8 + 2);
    assert_eq!(elems[0], element(8));
    assert_eq!(elems[2], witness.l_terms[0][0]);
    assert_eq!(elems[3], witness.l_terms[0][1]);
    assert_eq!(elems[4], witness.r_terms[0][0]);
    assert_eq!(elems[5], witness.r_terms[0][1]);
    assert_eq!(elems[6], witness.l_terms[1][0]);
    assert_eq!(elems[10], [0x0A; 32]);
    assert_eq!(elems[11], [0x0B; 32]);
    assert_eq!(absorb_sequence(&seed, &elems), Some(state));
    assert_eq!(absorb_sequence(&PALLAS_MODULUS_BYTES, &elems), None);
    assert_eq!(decode_all(&[element(1), PALLAS_MODULUS_BYTES]), None);
    assert_eq!(decode_all(&[element(1)]), Some(vec![Fp::one()]));
}

#[test]
fn mock_terms_have_their_made_up_bytes() {
    let witness = generate_mock_proof(&element(0), 130, vec![]).unwrap();
    assert_eq!(witness.l_terms.len(), 130);
    assert_eq!(witness.l_terms[3][0][0], 6);
    assert_eq!(witness.l_terms[3][0][31], 1);
    assert_eq!(witness.l_terms[3][1][0], 106);
    assert_eq!(witness.r_terms[3][0][0], 7);
    assert_eq!(witness.r_terms[3][0][31], 2);
    assert_eq!(witness.r_terms[3][1][0], 107);
    assert_eq!(witness.l_terms[129][0][0], 2);
    assert_eq!(witness.r_terms[129][1][0], 103);
    assert_eq!(witness.b_scalar, Some([0x0B; 32]));
}

#[test]
fn transcript_builder_absorbs_in_order() {
    let mut t = TranscriptBuilder::new(&element(4)).unwrap();
    assert_eq!(t.absorption_count(), 1);
    assert_eq!(t.squeeze(), Fp::from_u64(4));
    assert!(t.absorb(&element(5)).is_ok());
    assert_eq!(t.squeeze(), PoseidonHash::hash(Fp::from_u64(4), Fp::from_u64(5)));
    let before = t.state_bytes();
    assert_eq!(t.absorb(&PALLAS_MODULUS_BYTES), Err(ProofError::NonCanonical));
    assert_eq!(t.absorb_many(&[element(1), PALLAS_MODULUS_BYTES]), Err(ProofError::NonCanonical));
    assert_eq!(
        t.absorb_lr_terms(&[[element(1), PALLAS_MODULUS_BYTES]], &[[element(1), element(2)]]),
        Err(ProofError::NonCanonical)
    );
    assert_eq!(t.state_bytes(), before);
    assert_eq!(t.absorption_count(), 2);
    assert!(t.absorb_many(&[element(6), element(7)]).is_ok());
    assert!(t
        .absorb_lr_terms(&[[element(8), element(9)]], &[[element(10), element(11)]])
        .is_ok());
    t.absorb_fp(Fp::from_u64(12));
    assert_eq!(t.absorption_count(), 9);
    let all: Vec<Fp> = (4..=12).map(Fp::from_u64).collect();
    assert_eq!(t.squeeze(), PoseidonHash::hash_many(&all));
    assert_eq!(TranscriptBuilder::new(&PALLAS_MODULUS_BYTES).err(), Some(ProofError::NonCanonical));
    let empty = TranscriptBuilder::new_empty();
    assert_eq!(empty.squeeze(), Fp::zero());
    assert_eq!(empty.absorption_count(), 1);
    assert_eq!(
        interleave(&[[element(1), element(2)], [element(5), element(6)]], &[[element(3), element(4)]]),
        vec![element(1), element(2), element(3), element(4)]
    );
}

#[test]
fn proof_components_pair_up() {
    let mut point = [0u8; 64];
    point[0] = 1;
    point[32] = 2;
    let parts = IPAProofComponents::from_bytes(vec![point, point], vec![point], element(3), None);
    assert_eq!(parts.num_rounds(), 2);
    assert_eq!(parts.l_commitments[1], [element(1), element(2)]);
    assert_eq!(parts.validate(), Err(ProofError::LRLengthMismatch));
    let generator = ProofGenerator::default();
    assert_eq!(
        generator.generate_ipa_witness(&element(0), vec![], &parts, None).err(),
        Some(ProofError::LRLengthMismatch)
    );
    let paired = IPAProofComponents::from_bytes(vec![point], vec![point], element(3), Some(element(4)));
    assert!(paired.validate().is_ok());
    let witness = generator.generate_ipa_witness(&element(0), vec![], &paired, None).unwrap();
    assert_eq!(witness.b_scalar, Some(element(4)));
    assert!(witness.verify(&element(0)));
    assert_eq!(
        generator
            .generate_ipa_witness(&element(0), vec![], &paired, Some(PALLAS_MODULUS_BYTES))
            .err(),
        Some(ProofError::NonCanonical)
    );
}

#[test]
fn witness_serialization_round_trips() {
    for with_b in [false, true] {
        for with_state in [false, true] {
            let w = sample_witness(with_b, with_state);
            let bytes = WitnessSerializer::serialize(&w);
            let fields = 3 + 8 + 1 + with_b as usize + with_state as usize + 1;
            assert_eq!(bytes.len(), 32 * fields);
            assert_eq!(bytes.len(), w.size());
            let back = WitnessSerializer::deserialize(&bytes, 3, 2, with_b, with_state).unwrap();
            assert!(same(&back, &w));
            assert!(WitnessSerializer::deserialize(&bytes[..bytes.len() - 1], 3, 2, with_b, with_state)
                .is_none());
            assert!(WitnessSerializer::deserialize(&bytes, 4, 2, with_b, with_state).is_none());
            assert!(WitnessSerializer::deserialize(&bytes, 3, 3, with_b, with_state).is_none());
        }
    }
    let w = sample_witness(true, true);
    let bytes = WitnessSerializer::serialize(&w);
    assert_eq!(&bytes[..32], &element(1));
    assert_eq!(&bytes[96..128], &element(10));
    assert_eq!(&bytes[128..160], &element(11));
    assert_eq!(&bytes[160..192], &element(20));
    assert_eq!(&bytes[224..256], &element(12));
    assert_eq!(&bytes[352..384], &element(30));
    assert_eq!(&bytes[384..416], &element(31));
    assert_eq!(&bytes[416..448], &element(32));
    assert_eq!(&bytes[448..], &element(33));
    assert!(WitnessSerializer::deserialize(&[], 0, 0, false, false).is_none());
    let minimal = IPAStepWitness::new_minimal(element(7));
    let bytes = WitnessSerializer::serialize(&minimal);
    assert_eq!(bytes.len(), 64);
    assert!(same(&WitnessSerializer::deserialize(&bytes, 0, 0, false, false).unwrap(), &minimal));
    assert!(WitnessSerializer::deserialize(&bytes, usize::MAX, usize::MAX, true, true).is_none());
}

#[test]
fn contract_scripts_have_their_layout() {
    let current = contract();
    let script = current.locking_script();
    assert_eq!(script.len(), 8909);
    assert_eq!(current.locking_script_size(), 8909);
    // Key and signature aside, blob and record raised from the bottom, the
    // record cut into its three values.
    assert_eq!(&script[..2], &[0x6b, 0x6b]);
    assert_eq!(&script[2..8], &[0x74, 0x8c, 0x7a, 0x74, 0x8c, 0x7a]);
    assert_eq!(&script[8..17], &[0x01, 0x20, 0x7f, 0x01, 0x20, 0x7f, 0x01, 0x00, 0x7e]);
    // The state commitment as expected output.
    assert_eq!(script[17], 32);
    assert_eq!(&script[18..50], &current.current_state.hash().unwrap().to_repr());
    // The witness verification, whose one digest comparison holds the
    // blob's digest against the constants hash.
    assert_eq!(&script[50..], &[
        generate_secure_witness_verification(),
        vec![0x6c, 0x6c, 0x76, 0xa9, 20],
        vec![7u8; 20],
        vec![0x88, 0xac],
    ]
    .concat()[..]);
    assert_eq!(&script[86..92], &[0x6b, 0x6b, 0x6b, 0x6b, 0x76, 0xa8]);
    assert_eq!(script[92], 32);
    assert_eq!(&script[93..125], &get_constants_hash());
    assert_eq!(&script[93..125], &current.constants_hash);
    assert_eq!(script[125], 0x88);
    let witness = sample_witness(true, true);
    let unlock = current.unlocking_script(&witness);
    assert_eq!(unlock.len(), 2952 + 33 * 15);
    assert_eq!(current.unlocking_script_size(&witness), unlock.len());
    // The blob, then the record, then the fields.
    assert_eq!(&unlock[..3], &[0x4d, 0x40, 0x0b]);
    assert_eq!(&unlock[3..2883], &current.constants.to_blob()[..]);
    assert_eq!(unlock[2883], 68);
    assert_eq!(&unlock[2884..2952], &current.current_state.to_script_bytes()[..]);
    assert_eq!(unlock[2952], 32);
    assert_eq!(&unlock[2953..2985], &element(1));
    assert_eq!(&unlock[unlock.len() - 32..], &element(33));
    assert_eq!(&unlock[unlock.len() - 65..unlock.len() - 33], &element(32));
    assert_eq!(witness.field_list().len(), 15);
    assert_eq!(
        current.unlocking_script(&sample_witness(false, false)).len(),
        2952 + 33 * 13
    );
}

#[test]
fn outputs_and_transactions() {
    let current = contract();
    let output = ContractOutput::new(&current, 5000);
    assert_eq!(output.value, 5000);
    assert_eq!(output.script_pubkey, current.locking_script());
    assert_eq!(output.state, current.current_state);
    let witness = generate_mock_proof(&current.current_state.transcript_hash, 2, vec![]).unwrap();
    let next_hash = witness.next_transcript_hash;
    let builder = ContractTransactionBuilder::new(output, witness, [7u8; 20])
        .with_signature(vec![1u8; 71], vec![2u8; 33]);
    let unlock = builder.build_unlocking_script().unwrap();
    assert_eq!(unlock.len(), 2985 + 33 * 10 + 72 + 34);
    assert_eq!(&unlock[unlock.len() - 34..], &[vec![33u8], vec![2u8; 33]].concat()[..]);
    let next = builder.build_output(9).unwrap();
    assert_eq!(next.value, 9);
    assert_eq!(next.state.step, 1);
    assert_eq!(next.state.transcript_hash, next_hash);
    assert_eq!(builder.estimate_tx_size().unwrap(), 4 + 1 + unlock.len() + 40 + 1 + 8909 + 8 + 4);
    let refused = builder.input.next_output(IPAAccumulator::new(PALLAS_MODULUS_BYTES), [0u8; 20], 1);
    assert_eq!(refused.err(), Some(VerifierError::InvalidState));
    let exhausted = ContractOutput {
        value: 1,
        script_pubkey: vec![],
        state: IPAAccumulator { transcript_hash: element(0), app_state_root: element(0), step: u32::MAX },
    };
    let b = ContractTransactionBuilder::new(exhausted, IPAStepWitness::new_minimal(element(0)), [0u8; 20]);
    assert_eq!(b.build_output(1).err(), Some(VerifierError::StepMismatch));
    assert_eq!(b.estimate_tx_size().err(), Some(VerifierError::StepMismatch));
    let bad_state = ContractOutput {
        value: 1,
        script_pubkey: vec![],
        state: IPAAccumulator::new(PALLAS_MODULUS_BYTES),
    };
    let b = ContractTransactionBuilder::new(bad_state, IPAStepWitness::new_minimal(element(0)), [0u8; 20]);
    assert_eq!(b.build_unlocking_script().err(), Some(VerifierError::InvalidState));
    let b = ContractTransactionBuilder::new(
        ContractOutput::new(&contract(), 1),
        IPAStepWitness::new_minimal(PALLAS_MODULUS_BYTES),
        [0u8; 20],
    );
    assert_eq!(b.build_output(1).err(), Some(VerifierError::InvalidState));
}

#[test]
fn size_reports() {
    let report = analyze_contract_sizes();
    assert_eq!(report.locking_script, 8909);
    assert_eq!(report.constants_blob, 2848);
    assert_eq!(report.typical_unlocking, 4470);
    assert_eq!(report.witness_data, 1472);
    let sizes = analyze_witness_sizes();
    assert_eq!((sizes.small, sizes.medium, sizes.large), (768, 1472, 2176));
    assert_eq!(sizes.constants_blob, 2848);
    assert_eq!(sample_witness(false, false).size(), 3 * 32 + 4 * 64 + 64);
}
