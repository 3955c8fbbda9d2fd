use ghost_script::guard::Guard;
use ghost_script::hints::{IpaHints, PoseidonHints};
use ghost_script::mullet::{MulletScript, MulletWitness, SighashPreimage, TailWitness};
use ghost_script::opcodes::{push_bytes, push_number, varint, OP_0, OP_TRUE};
use ghost_script::tail::{AnyoneCanSpendTail, EcdsaTail};

#[test]
fn test_push_bytes_small() {
    let data = vec![0x01, 0x02, 0x03];
    let pushed = push_bytes(&data);
    assert_eq!(pushed[0], 3);
    assert_eq!(&pushed[1..], &data);
}

#[test]
fn test_push_bytes_empty() {
    let pushed = push_bytes(&[]);
    assert_eq!(pushed, vec![OP_0]);
}

#[test]
fn test_varint() {
    assert_eq!(varint(0), vec![0]);
    assert_eq!(varint(252), vec![252]);
    assert_eq!(varint(253), vec![0xfd, 253, 0]);
}

#[test]
fn test_mullet_script() {
    let guard = Guard::minimal();
    let tail = EcdsaTail::from_pubkey_hash(&[0u8; 20]);
    let mullet = MulletScript::new(guard, tail);
    assert!(mullet.size() > 0);
    assert_eq!(mullet.script_hash().len(), 32);
}

#[test]
fn push_bytes_length_prefixes() {
    assert_eq!(push_bytes(&[7u8; 75])[0], 75);
    assert_eq!(push_bytes(&[7u8; 75]).len(), 76);
    let p = push_bytes(&[7u8; 76]);
    assert_eq!(&p[..2], &[0x4c, 76]);
    assert_eq!(p.len(), 78);
    let p = push_bytes(&[7u8; 255]);
    assert_eq!(&p[..2], &[0x4c, 255]);
    let p = push_bytes(&[7u8; 256]);
    assert_eq!(&p[..3], &[0x4d, 0x00, 0x01]);
    assert_eq!(p.len(), 259);
    let p = push_bytes(&vec![7u8; 65535]);
    assert_eq!(&p[..3], &[0x4d, 0xff, 0xff]);
    let p = push_bytes(&vec![7u8; 65536]);
    assert_eq!(&p[..5], &[0x4e, 0x00, 0x00, 0x01, 0x00]);
    assert_eq!(p.len(), 65541);
}

#[test]
fn push_number_encodings() {
    assert_eq!(push_number(0), vec![0x00]);
    assert_eq!(push_number(1), vec![0x51]);
    assert_eq!(push_number(16), vec![0x60]);
    assert_eq!(push_number(17), vec![0x01, 17]);
    assert_eq!(push_number(127), vec![0x01, 127]);
    assert_eq!(push_number(128), vec![0x02, 0x80, 0x00]);
    assert_eq!(push_number(255), vec![0x02, 0xff, 0x00]);
    assert_eq!(push_number(256), vec![0x02, 0x00, 0x01]);
    assert_eq!(push_number(32767), vec![0x02, 0xff, 0x7f]);
    assert_eq!(push_number(32768), vec![0x03, 0x00, 0x80, 0x00]);
    assert_eq!(
        push_number(i64::MAX),
        vec![0x08, 0xff, 0xff, 0xff, 0xff, 0xff, 0xff, 0xff, 0x7f]
    );
    assert_eq!(push_number(-1), vec![0x4f]);
    assert_eq!(push_number(-2), vec![0x01, 0x82]);
    assert_eq!(push_number(-127), vec![0x01, 0xff]);
    assert_eq!(push_number(-128), vec![0x02, 0x80, 0x80]);
    assert_eq!(push_number(-255), vec![0x02, 0xff, 0x80]);
    assert_eq!(push_number(-256), vec![0x02, 0x00, 0x81]);
    assert_eq!(
        push_number(i64::MIN),
        vec![0x09, 0x00, 0x00, 0x00, 0x00, 0x00, 0x00, 0x00, 0x80, 0x80]
    );
}

#[test]
fn varint_markers() {
    assert_eq!(varint(0xffff), vec![0xfd, 0xff, 0xff]);
    assert_eq!(varint(0x10000), vec![0xfe, 0x00, 0x00, 0x01, 0x00]);
    assert_eq!(varint(0xffff_ffff), vec![0xfe, 0xff, 0xff, 0xff, 0xff]);
    assert_eq!(
        varint(0x1_0000_0000),
        vec![0xff, 0x00, 0x00, 0x00, 0x00, 0x01, 0x00, 0x00, 0x00]
    );
}

#[test]
fn script_hash_is_sha256_of_the_script() {
    let mullet = MulletScript::new(Guard::custom(vec![]), ghost_script::tail::CustomTail::new(vec![]));
    assert_eq!(
        mullet.script_hash().to_vec(),
        vec![
            0xe3, 0xb0, 0xc4, 0x42, 0x98, 0xfc, 0x1c, 0x14, 0x9a, 0xfb, 0xf4, 0xc8, 0x99, 0x6f,
            0xb9, 0x24, 0x27, 0xae, 0x41, 0xe4, 0x64, 0x9b, 0x93, 0x4c, 0xa4, 0x95, 0x99, 0x1b,
            0x78, 0x52, 0xb8, 0x55
        ]
    );
    let open = MulletScript::universal(AnyoneCanSpendTail);
    assert_eq!(open.size(), 42);
    assert_eq!(*open.locking_script().last().unwrap(), OP_TRUE);
    assert_eq!(MulletScript::minimal(AnyoneCanSpendTail).size(), 9);
}

fn preimage(script_code: Vec<u8>) -> SighashPreimage {
    SighashPreimage {
        version: [1, 0, 0, 0],
        hash_prevouts: [2u8; 32],
        hash_sequence: [3u8; 32],
        outpoint: [4u8; 36],
        script_code,
        value: [5u8; 8],
        sequence: [6u8; 4],
        hash_outputs: [7u8; 32],
        locktime: [8u8; 4],
        sighash_type: [0x41, 0, 0, 0],
    }
}

#[test]
fn sighash_preimage_layout() {
    let p = preimage(vec![9u8; 10]);
    let bytes = p.to_bytes();
    assert_eq!(bytes.len(), 4 + 32 + 32 + 36 + 1 + 10 + 8 + 4 + 32 + 4 + 4);
    assert_eq!(bytes[104], 10);
    assert_eq!(bytes[105], 9);
    assert_eq!(bytes[115], 5);
    assert_eq!(p.size(), 169);
}

#[test]
fn tail_witness_pushes_and_sizes() {
    let ecdsa = TailWitness::Ecdsa { signature: vec![1u8; 71], pubkey: vec![2u8; 33] };
    assert_eq!(ecdsa.size(), 104);
    assert_eq!(ecdsa.to_script_pushes().len(), 72 + 34);
    let multi = TailWitness::Multisig { signatures: vec![vec![1u8; 70], vec![2u8; 71]] };
    assert_eq!(multi.size(), 141);
    let pushes = multi.to_script_pushes();
    assert_eq!(pushes[0], OP_0);
    assert_eq!(pushes.len(), 1 + 71 + 72);
    let lamport = TailWitness::Lamport { preimages: vec![[3u8; 32]; 4] };
    assert_eq!(lamport.size(), 128);
    assert_eq!(lamport.to_script_pushes().len(), 132);
    let custom = TailWitness::Custom(vec![]);
    assert_eq!(custom.size(), 0);
    assert_eq!(custom.to_script_pushes(), vec![OP_0]);
}

#[test]
fn mullet_witness_script_sig() {
    let witness = MulletWitness {
        proof: vec![0xAB; 10],
        ipa_hints: IpaHints::placeholder(1),
        poseidon_hints: PoseidonHints::placeholder(1),
        tail_witness: TailWitness::Custom(vec![1, 2]),
        preimage: preimage(vec![]),
        app_bytes: Some(vec![5u8; 41]),
        change_bytes: None,
    };
    assert_eq!(witness.size(), 10 + 196 + 224 + 2 + 159);
    let sig = witness.to_script_sig();
    assert_eq!(sig[0], 10);
    assert_eq!(sig[11], 41);
    assert_eq!(&sig[53..56], &[2, 1, 2]);
    assert_eq!(sig.len(), 11 + 42 + 3 + 2 + 157);
}
