use ghost_script::field::Fp;
use ghost_script::hints::{
    generate_ipa_hints, generate_poseidon_hints, ipa_verify_script, poseidon_verify_script,
    FoldingRound, IpaHints, PoseidonHints, PoseidonRoundHint,
};
use ghost_script::opcodes::OP_TRUE;

#[test]
fn test_ipa_hints_size() {
    let hints = IpaHints::placeholder(10);
    assert_eq!(hints.size(), 1375);
    assert_eq!(hints.num_rounds(), 10);
}

#[test]
fn test_folding_round_size() {
    let round = FoldingRound::placeholder();
    assert_eq!(round.size(), 131);
}

#[test]
fn test_poseidon_hints_size() {
    let hints = PoseidonHints::placeholder(64);
    assert_eq!(hints.size(), 64 * 192 + 32);
}

#[test]
fn test_ipa_hints_serialization() {
    let hints = IpaHints::placeholder(10);
    let pushes = hints.to_script_pushes();
    assert!(!pushes.is_empty());
}

#[test]
fn hints_byte_layouts() {
    let hints = IpaHints::placeholder(2);
    assert_eq!(hints.to_bytes().len(), hints.size());
    assert_eq!(hints.to_script_pushes().len(), 2 * (34 * 3 + 33) + 33 + 34);
    let round = FoldingRound::new([1u8; 33], [2u8; 33], [3u8; 33], Fp::from_u64(7));
    let pushes = round.to_script_pushes();
    assert_eq!(pushes[0], 33);
    assert_eq!(pushes[1], 1);
    assert_eq!(pushes[34], 33);
    assert_eq!(pushes[35], 2);
    assert_eq!(pushes[102], 32);
    assert_eq!(pushes[103], 7);
    let two = IpaHints::new(
        vec![round.clone(), FoldingRound::placeholder()],
        Fp::from_u64(9),
        [5u8; 33],
    );
    let pushes = two.to_script_pushes();
    assert_eq!(pushes[1], 0);
    assert_eq!(pushes[136], 1);
    let bytes = two.to_bytes();
    assert_eq!(bytes[0], 1);
    assert_eq!(bytes[131], 0);
    assert_eq!(bytes[262], 9);
    assert_eq!(bytes[294], 5);
}

#[test]
fn poseidon_hints_layouts() {
    let hints = PoseidonHints::placeholder(3).with_output(Fp::from_u64(4));
    let bytes = hints.to_bytes();
    assert_eq!(bytes.len(), 3 * 192 + 32);
    assert_eq!(bytes[576], 4);
    assert_eq!(hints.to_script_pushes().len(), 3 * 6 * 33 + 33);
    let hint = PoseidonRoundHint::new([Fp::from_u64(1); 3], [Fp::from_u64(2); 3]);
    assert_eq!(hint.size(), 192);
    let pushes = hint.to_script_pushes();
    assert_eq!(pushes[0], 32);
    assert_eq!(pushes[1], 1);
    assert_eq!(pushes[100], 2);
    let new = PoseidonHints::new(vec![hint], Fp::zero());
    assert_eq!(new.size(), 224);
}

#[test]
fn generated_hints_are_placeholders() {
    assert_eq!(generate_ipa_hints(&[1, 2], &[], 5).num_rounds(), 5);
    let hints = generate_poseidon_hints(1, 2, 3, Fp::zero(), Fp::one());
    assert_eq!(hints.round_states.len(), 64);
    assert_eq!(ipa_verify_script(3), vec![OP_TRUE]);
    assert_eq!(poseidon_verify_script(), vec![OP_TRUE]);
}
