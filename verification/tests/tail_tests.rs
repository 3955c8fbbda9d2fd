use ghost_script::opcodes::{OP_2, OP_CHECKSIG, OP_DUP, OP_EQUALVERIFY, OP_HASH160, OP_TRUE};
use ghost_script::tail::{
    AnyoneCanSpendTail, CustomTail, DualAuthTail, EcdsaTail, LamportPublicKey, LamportTail,
    MultisigTail, SponsorTail, Tail, TailType,
};

#[test]
fn test_ecdsa_tail() {
    let tail = EcdsaTail::from_pubkey_hash(&[0u8; 20]);
    let script = tail.locking_script();
    assert_eq!(script.len(), 25);
    assert_eq!(script[0], OP_DUP);
    assert_eq!(script[1], OP_HASH160);
    assert_eq!(script[2], 20);
    assert_eq!(script[23], OP_EQUALVERIFY);
    assert_eq!(script[24], OP_CHECKSIG);
}

#[test]
fn test_multisig_tail() {
    let pk1 = [0x02u8; 33];
    let pk2 = [0x03u8; 33];
    let pk3 = [0x04u8; 33];
    let tail = MultisigTail::two_of_three(pk1, pk2, pk3);
    let script = tail.locking_script();
    assert!(script.len() > 100);
    assert_eq!(script[0], OP_2);
}

#[test]
fn test_lamport_tail_disabled() {
    let tail = LamportTail::placeholder();
    let script = tail.locking_script();
    assert_eq!(script[0], 0x6a);
}

#[test]
fn test_custom_tail() {
    let custom_script = vec![OP_TRUE];
    let tail = CustomTail::new(custom_script.clone());
    assert_eq!(tail.locking_script(), custom_script);
    assert_eq!(tail.tail_type(), TailType::Custom);
}

#[test]
fn multisig_script_layout() {
    let tail = MultisigTail::new(1, vec![[9u8; 33]; 16]);
    let script = tail.locking_script();
    assert_eq!(script.len(), 1 + 16 * 34 + 2);
    assert_eq!(script[0], 0x51);
    assert_eq!(script[1], 33);
    assert_eq!(script[script.len() - 2], 0x60);
    assert_eq!(script[script.len() - 1], 0xae);
    assert_eq!(tail.script_size(), script.len());
    assert_eq!(tail.tail_type(), TailType::Multisig);
}

#[test]
fn lamport_tail_script_and_key_hash() {
    let tail = LamportTail::new(vec![]);
    let script = tail.locking_script();
    assert_eq!(script.len(), 26);
    assert_eq!(script[1], 24);
    assert_eq!(&script[2..], b"LAMPORT DISABLED: UNSAFE");
    assert_eq!(tail.script_size(), 26);
    assert_eq!(tail.tail_type(), TailType::Lamport);
    assert_eq!(
        tail.pubkey_hash().to_vec(),
        vec![
            0xe3, 0xb0, 0xc4, 0x42, 0x98, 0xfc, 0x1c, 0x14, 0x9a, 0xfb, 0xf4, 0xc8, 0x99, 0x6f,
            0xb9, 0x24, 0x27, 0xae, 0x41, 0xe4, 0x64, 0x9b, 0x93, 0x4c, 0xa4, 0x95, 0x99, 0x1b,
            0x78, 0x52, 0xb8, 0x55
        ]
    );
    let key = LamportPublicKey { hashes: vec![([1u8; 32], [2u8; 32]); 3] };
    let from_key = LamportTail::from_public_key(&key);
    assert_eq!(from_key.pubkey_hashes, key.hashes);
    assert_ne!(from_key.pubkey_hash(), tail.pubkey_hash());
    assert_eq!(LamportTail::placeholder().pubkey_hashes.len(), 256);
}

#[test]
fn key_hash_tails() {
    let empty_hash160: [u8; 20] = [
        0xb4, 0x72, 0xa2, 0x66, 0xd0, 0xbd, 0x89, 0xc1, 0x37, 0x06, 0xa4, 0x13, 0x2c, 0xcf, 0xb1,
        0x6f, 0x7c, 0x3b, 0x9f, 0xcb,
    ];
    let sponsor = SponsorTail::from_pubkey(&[]);
    assert_eq!(sponsor.sponsor_pubkey_hash, empty_hash160);
    assert_eq!(sponsor.locking_script().len(), 25);
    assert_eq!(sponsor.tail_type(), TailType::Custom);
    let by_hash = SponsorTail::from_pubkey_hash(&[7u8; 20]);
    assert_eq!(by_hash.locking_script()[3], 7);
    let ecdsa = EcdsaTail::from_pubkey(&[2u8; 33]);
    assert_ne!(ecdsa.pubkey_hash, empty_hash160);
    assert_eq!(ecdsa.tail_type(), TailType::Ecdsa);
    assert_eq!(ecdsa.script_size(), 25);
    let dual = DualAuthTail::new([1u8; 20], [2u8; 20]);
    let script = dual.locking_script();
    assert_eq!(script.len(), 50);
    assert_eq!(script[3], 2);
    assert_eq!(script[24], 0xad);
    assert_eq!(script[28], 1);
    assert_eq!(dual.script_size(), 50);
    let dual = DualAuthTail::from_pubkeys(&[], &[1]);
    assert_eq!(dual.user_pubkey_hash, empty_hash160);
    assert_ne!(dual.sponsor_pubkey_hash, empty_hash160);
    assert_eq!(AnyoneCanSpendTail.locking_script(), vec![OP_TRUE]);
    assert_eq!(AnyoneCanSpendTail.script_size(), 1);
}
