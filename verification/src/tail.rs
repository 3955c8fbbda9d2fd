//! The tail: the suffix of a spending program that checks who signs.

use vstd::prelude::*;
use crate::hashing::{hash160, ripemd160_digest, sha256, sha256_digest};
use crate::opcodes::{
    OP_1, OP_CHECKMULTISIG, OP_CHECKSIG, OP_CHECKSIGVERIFY, OP_DUP, OP_EQUALVERIFY, OP_HASH160,
    OP_RETURN, OP_TRUE,
};

verus! {

/// The kinds of tail.
#[derive(Clone, Copy, Debug, PartialEq, Eq)]
pub enum TailType {
    Ecdsa,
    Multisig,
    Lamport,
    Custom,
}

/// A spending condition on the signer.
pub trait Tail {
    /// The condition can be written as a script.
    spec fn wf(&self) -> bool;

    /// The bytes of the script.
    spec fn script(&self) -> Seq<u8>;

    fn locking_script(&self) -> (script: Vec<u8>)
        requires
            self.wf(),
        ensures
            script@ == self.script(),
    ;

    /// The kind of the condition.
    spec fn kind(&self) -> TailType;

    fn tail_type(&self) -> (t: TailType)
        ensures
            t == self.kind(),
    ;

    fn script_size(&self) -> (n: usize)
        requires
            self.wf(),
        ensures
            n == self.script().len(),
    ;
}

/// The check of one signature against the hash of its key.
pub open spec fn pay_to_key_hash(hash: Seq<u8>) -> Seq<u8> {
    seq![OP_DUP, OP_HASH160, 20u8] + hash + seq![OP_EQUALVERIFY, OP_CHECKSIG]
}

fn emit_pay_to_key_hash(hash: &[u8; 20]) -> (script: Vec<u8>)
    ensures
        script@ == pay_to_key_hash(hash@),
        script@.len() == 25,
{
    let mut script: Vec<u8> = Vec::new();
    script.push(OP_DUP);
    script.push(OP_HASH160);
    script.push(20);
    script.extend_from_slice(hash.as_slice());
    script.push(OP_EQUALVERIFY);
    script.push(OP_CHECKSIG);
    assert(script@ =~= pay_to_key_hash(hash@));
    script
}

/// One signature by the key with the given hash.
#[derive(Clone, Debug)]
pub struct EcdsaTail {
    pub pubkey_hash: [u8; 20],
}

impl EcdsaTail {
    pub fn from_pubkey_hash(hash: &[u8; 20]) -> (t: Self)
        ensures
            t.pubkey_hash == *hash,
    {
        Self { pubkey_hash: *hash }
    }

    pub fn from_pubkey(pubkey: &[u8; 33]) -> (t: Self)
        ensures
            t.pubkey_hash@ == ripemd160_digest(sha256_digest(pubkey@)),
    {
        Self { pubkey_hash: hash160(pubkey.as_slice()) }
    }
}

impl Tail for EcdsaTail {
    open spec fn wf(&self) -> bool {
        true
    }

    open spec fn script(&self) -> Seq<u8> {
        pay_to_key_hash(self.pubkey_hash@)
    }

    fn locking_script(&self) -> (script: Vec<u8>) {
        emit_pay_to_key_hash(&self.pubkey_hash)
    }

    open spec fn kind(&self) -> TailType {
        TailType::Ecdsa
    }

    fn tail_type(&self) -> (t: TailType) {
        TailType::Ecdsa
    }

    fn script_size(&self) -> (n: usize) {
        self.locking_script().len()
    }
}

/// The pushes of a list of compressed keys, 34 bytes each.
pub open spec fn keys_pushes(keys: Seq<[u8; 33]>) -> Seq<u8>
    decreases keys.len(),
{
    if keys.len() == 0 {
        Seq::<u8>::empty()
    } else {
        keys_pushes(keys.drop_last()) + seq![33u8] + keys.last()@
    }
}

/// `threshold` signatures out of the given keys.
#[derive(Clone, Debug)]
pub struct MultisigTail {
    pub threshold: u8,
    pub pubkeys: Vec<[u8; 33]>,
}

impl MultisigTail {
    /// One to sixteen keys, and a threshold from one up to their number.
    pub open spec fn valid(threshold: u8, keys: Seq<[u8; 33]>) -> bool {
        1 <= threshold <= 16 && 1 <= keys.len() <= 16 && threshold <= keys.len()
    }

    pub fn new(threshold: u8, pubkeys: Vec<[u8; 33]>) -> (t: Self)
        requires
            Self::valid(threshold, pubkeys@),
        ensures
            t.threshold == threshold,
            t.pubkeys == pubkeys,
    {
        Self { threshold, pubkeys }
    }

    pub fn two_of_three(pk1: [u8; 33], pk2: [u8; 33], pk3: [u8; 33]) -> (t: Self)
        ensures
            t.threshold == 2,
            t.pubkeys@ == seq![pk1, pk2, pk3],
    {
        let mut keys: Vec<[u8; 33]> = Vec::new();
        keys.push(pk1);
        keys.push(pk2);
        keys.push(pk3);
        assert(keys@ =~= seq![pk1, pk2, pk3]);
        Self::new(2, keys)
    }
}

impl Tail for MultisigTail {
    open spec fn wf(&self) -> bool {
        Self::valid(self.threshold, self.pubkeys@)
    }

    open spec fn script(&self) -> Seq<u8> {
        seq![(0x50 + self.threshold) as u8] + keys_pushes(self.pubkeys@) + seq![
            (0x50 + self.pubkeys@.len()) as u8,
            OP_CHECKMULTISIG,
        ]
    }

    fn locking_script(&self) -> (script: Vec<u8>) {
        let mut script: Vec<u8> = Vec::new();
        script.push(OP_1 + self.threshold - 1);
        let ghost head = script@;
        let mut i: usize = 0;
        while i < self.pubkeys.len()
            invariant
                0 <= i <= self.pubkeys.len(),
                script@ == head + keys_pushes(self.pubkeys@.take(i as int)),
            decreases self.pubkeys.len() - i,
        {
            proof {
                assert(self.pubkeys@.take(i + 1).drop_last() =~= self.pubkeys@.take(i as int));
            }
            script.push(33);
            script.extend_from_slice(self.pubkeys[i].as_slice());
            i += 1;
            assert(script@ =~= head + keys_pushes(self.pubkeys@.take(i as int)));
        }
        assert(self.pubkeys@.take(i as int) =~= self.pubkeys@);
        script.push(OP_1 + (self.pubkeys.len() as u8) - 1);
        script.push(OP_CHECKMULTISIG);
        assert(script@ =~= self.script());
        script
    }

    open spec fn kind(&self) -> TailType {
        TailType::Multisig
    }

    fn tail_type(&self) -> (t: TailType) {
        TailType::Multisig
    }

    fn script_size(&self) -> (n: usize) {
        self.locking_script().len()
    }
}

/// A one-time public key: two hashes per message bit.
#[derive(Clone, Debug)]
pub struct LamportPublicKey {
    pub hashes: Vec<([u8; 32], [u8; 32])>,
}

/// The pairs of hashes, one after the other.
pub open spec fn pairs_bytes(pairs: Seq<([u8; 32], [u8; 32])>) -> Seq<u8>
    decreases pairs.len(),
{
    if pairs.len() == 0 {
        Seq::<u8>::empty()
    } else {
        pairs_bytes(pairs.drop_last()) + pairs.last().0@ + pairs.last().1@
    }
}

/// The words "LAMPORT DISABLED: UNSAFE".
pub const LAMPORT_DISABLED: [u8; 24] = [
    0x4c, 0x41, 0x4d, 0x50, 0x4f, 0x52, 0x54, 0x20,
    0x44, 0x49, 0x53, 0x41, 0x42, 0x4c, 0x45, 0x44,
    0x3a, 0x20, 0x55, 0x4e, 0x53, 0x41, 0x46, 0x45,
];

/// A one-time signature. Its script is unspendable: the check cannot bind
/// the revealed preimages to the message.
#[derive(Clone, Debug)]
pub struct LamportTail {
    pub pubkey_hashes: Vec<([u8; 32], [u8; 32])>,
}

fn copy_pairs(pairs: &Vec<([u8; 32], [u8; 32])>) -> (copy: Vec<([u8; 32], [u8; 32])>)
    ensures
        copy@ == pairs@,
{
    let mut copy: Vec<([u8; 32], [u8; 32])> = Vec::new();
    let mut i: usize = 0;
    while i < pairs.len()
        invariant
            0 <= i <= pairs.len(),
            copy@ == pairs@.take(i as int),
        decreases pairs.len() - i,
    {
        copy.push(pairs[i]);
        i += 1;
        assert(copy@ =~= pairs@.take(i as int));
    }
    assert(pairs@.take(i as int) =~= pairs@);
    copy
}

impl LamportTail {
    pub fn from_public_key(pubkey: &LamportPublicKey) -> (t: Self)
        ensures
            t.pubkey_hashes@ == pubkey.hashes@,
    {
        Self { pubkey_hashes: copy_pairs(&pubkey.hashes) }
    }

    pub fn new(pubkey_hashes: Vec<([u8; 32], [u8; 32])>) -> (t: Self)
        ensures
            t.pubkey_hashes == pubkey_hashes,
    {
        Self { pubkey_hashes }
    }

    /// A key of 256 pairs of zero hashes.
    pub fn placeholder() -> (t: Self)
        ensures
            t.pubkey_hashes@.len() == 256,
    {
        let mut pairs: Vec<([u8; 32], [u8; 32])> = Vec::new();
        let mut i: usize = 0;
        while i < 256
            invariant
                0 <= i <= 256,
                pairs@.len() == i,
            decreases 256 - i,
        {
            pairs.push(([0u8; 32], [0u8; 32]));
            i += 1;
        }
        Self { pubkey_hashes: pairs }
    }

    /// The digest of all the key's hashes.
    pub fn pubkey_hash(&self) -> (h: [u8; 32])
        ensures
            h@ == sha256_digest(pairs_bytes(self.pubkey_hashes@)),
    {
        let mut data: Vec<u8> = Vec::new();
        let mut i: usize = 0;
        while i < self.pubkey_hashes.len()
            invariant
                0 <= i <= self.pubkey_hashes.len(),
                data@ == pairs_bytes(self.pubkey_hashes@.take(i as int)),
            decreases self.pubkey_hashes.len() - i,
        {
            proof {
                assert(self.pubkey_hashes@.take(i + 1).drop_last() =~= self.pubkey_hashes@.take(
                    i as int,
                ));
            }
            let pair = &self.pubkey_hashes[i];
            data.extend_from_slice(pair.0.as_slice());
            data.extend_from_slice(pair.1.as_slice());
            i += 1;
        }
        assert(self.pubkey_hashes@.take(i as int) =~= self.pubkey_hashes@);
        sha256(data.as_slice())
    }
}

impl Tail for LamportTail {
    open spec fn wf(&self) -> bool {
        true
    }

    open spec fn script(&self) -> Seq<u8> {
        seq![OP_RETURN, 24u8] + LAMPORT_DISABLED@
    }

    fn locking_script(&self) -> (script: Vec<u8>) {
        let mut script: Vec<u8> = Vec::new();
        script.push(OP_RETURN);
        script.push(24);
        script.extend_from_slice(LAMPORT_DISABLED.as_slice());
        script
    }

    open spec fn kind(&self) -> TailType {
        TailType::Lamport
    }

    fn tail_type(&self) -> (t: TailType) {
        TailType::Lamport
    }

    fn script_size(&self) -> (n: usize) {
        26
    }
}

/// A tail given as bytes.
#[derive(Clone, Debug)]
pub struct CustomTail {
    script: Vec<u8>,
}

impl CustomTail {
    pub closed spec fn bytes(&self) -> Seq<u8> {
        self.script@
    }

    pub fn new(script: Vec<u8>) -> (t: Self)
        ensures
            t.bytes() == script@,
    {
        Self { script }
    }
}

impl Tail for CustomTail {
    open spec fn wf(&self) -> bool {
        true
    }

    open spec fn script(&self) -> Seq<u8> {
        self.bytes()
    }

    fn locking_script(&self) -> (script: Vec<u8>) {
        vstd::slice::slice_to_vec(self.script.as_slice())
    }

    open spec fn kind(&self) -> TailType {
        TailType::Custom
    }

    fn tail_type(&self) -> (t: TailType) {
        TailType::Custom
    }

    fn script_size(&self) -> (n: usize) {
        self.script.len()
    }
}

/// One signature by the sponsor.
#[derive(Clone, Debug)]
pub struct SponsorTail {
    pub sponsor_pubkey_hash: [u8; 20],
}

impl SponsorTail {
    pub fn from_pubkey_hash(hash: &[u8; 20]) -> (t: Self)
        ensures
            t.sponsor_pubkey_hash == *hash,
    {
        Self { sponsor_pubkey_hash: *hash }
    }

    pub fn from_pubkey(pubkey: &[u8]) -> (t: Self)
        ensures
            t.sponsor_pubkey_hash@ == ripemd160_digest(sha256_digest(pubkey@)),
    {
        Self { sponsor_pubkey_hash: hash160(pubkey) }
    }
}

impl Tail for SponsorTail {
    open spec fn wf(&self) -> bool {
        true
    }

    open spec fn script(&self) -> Seq<u8> {
        pay_to_key_hash(self.sponsor_pubkey_hash@)
    }

    fn locking_script(&self) -> (script: Vec<u8>) {
        emit_pay_to_key_hash(&self.sponsor_pubkey_hash)
    }

    open spec fn kind(&self) -> TailType {
        TailType::Custom
    }

    fn tail_type(&self) -> (t: TailType) {
        TailType::Custom
    }

    fn script_size(&self) -> (n: usize) {
        self.locking_script().len()
    }
}

/// Two signatures: the sponsor's, then the user's.
#[derive(Clone, Debug)]
pub struct DualAuthTail {
    pub user_pubkey_hash: [u8; 20],
    pub sponsor_pubkey_hash: [u8; 20],
}

impl DualAuthTail {
    pub fn new(user_hash: [u8; 20], sponsor_hash: [u8; 20]) -> (t: Self)
        ensures
            t.user_pubkey_hash == user_hash,
            t.sponsor_pubkey_hash == sponsor_hash,
    {
        Self { user_pubkey_hash: user_hash, sponsor_pubkey_hash: sponsor_hash }
    }

    pub fn from_pubkeys(user_pubkey: &[u8], sponsor_pubkey: &[u8]) -> (t: Self)
        ensures
            t.user_pubkey_hash@ == ripemd160_digest(sha256_digest(user_pubkey@)),
            t.sponsor_pubkey_hash@ == ripemd160_digest(sha256_digest(sponsor_pubkey@)),
    {
        Self {
            user_pubkey_hash: hash160(user_pubkey),
            sponsor_pubkey_hash: hash160(sponsor_pubkey),
        }
    }
}

impl Tail for DualAuthTail {
    open spec fn wf(&self) -> bool {
        true
    }

    open spec fn script(&self) -> Seq<u8> {
        seq![OP_DUP, OP_HASH160, 20u8] + self.sponsor_pubkey_hash@ + seq![
            OP_EQUALVERIFY,
            OP_CHECKSIGVERIFY,
        ] + pay_to_key_hash(self.user_pubkey_hash@)
    }

    fn locking_script(&self) -> (script: Vec<u8>) {
        let mut script: Vec<u8> = Vec::new();
        script.push(OP_DUP);
        script.push(OP_HASH160);
        script.push(20);
        script.extend_from_slice(self.sponsor_pubkey_hash.as_slice());
        script.push(OP_EQUALVERIFY);
        script.push(OP_CHECKSIGVERIFY);
        let mut user = emit_pay_to_key_hash(&self.user_pubkey_hash);
        script.append(&mut user);
        assert(script@ =~= self.script());
        script
    }

    open spec fn kind(&self) -> TailType {
        TailType::Custom
    }

    fn tail_type(&self) -> (t: TailType) {
        TailType::Custom
    }

    fn script_size(&self) -> (n: usize) {
        self.locking_script().len()
    }
}

/// No condition on the signer.
#[derive(Clone, Debug)]
pub struct AnyoneCanSpendTail;

impl Tail for AnyoneCanSpendTail {
    open spec fn wf(&self) -> bool {
        true
    }

    open spec fn script(&self) -> Seq<u8> {
        seq![OP_TRUE]
    }

    fn locking_script(&self) -> (script: Vec<u8>) {
        let mut script: Vec<u8> = Vec::new();
        script.push(OP_TRUE);
        script
    }

    open spec fn kind(&self) -> TailType {
        TailType::Custom
    }

    fn tail_type(&self) -> (t: TailType) {
        TailType::Custom
    }

    fn script_size(&self) -> (n: usize) {
        1
    }
}

} // verus!
