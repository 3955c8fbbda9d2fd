//! A whole spending program, guard in front and tail behind, and what its
//! spender supplies.

use vstd::prelude::*;
use crate::guard::Guard;
use crate::hashing::{sha256, sha256_digest};
use crate::hints::{IpaHints, PoseidonHints};
use crate::opcodes::{push_bytes, push_bytes_spec, varint, varint_spec, OP_0};
use crate::tail::Tail;

verus! {

/// A guard and a tail.
pub struct MulletScript<T: Tail> {
    pub guard: Guard,
    pub tail: T,
}

impl<T: Tail> MulletScript<T> {
    /// The bytes of the program: the guard's, then the tail's.
    pub open spec fn script(&self) -> Seq<u8> {
        self.guard.bytes() + self.tail.script()
    }

    pub fn new(guard: Guard, tail: T) -> (m: Self)
        ensures
            m.guard == guard,
            m.tail == tail,
    {
        Self { guard, tail }
    }

    pub fn universal(tail: T) -> (m: Self)
        ensures
            m.guard.bytes() == crate::guard::full_guard_script(),
            m.tail == tail,
    {
        Self::new(Guard::universal(), tail)
    }

    pub fn minimal(tail: T) -> (m: Self)
        ensures
            m.guard.bytes() == crate::guard::minimal_guard_script(),
            m.tail == tail,
    {
        Self::new(Guard::minimal(), tail)
    }

    pub fn locking_script(&self) -> (script: Vec<u8>)
        requires
            self.tail.wf(),
        ensures
            script@ == self.script(),
    {
        let mut script = self.guard.to_bytes();
        let mut tail = self.tail.locking_script();
        script.append(&mut tail);
        script
    }

    /// The digest that identifies the program.
    pub fn script_hash(&self) -> (h: [u8; 32])
        requires
            self.tail.wf(),
        ensures
            h@ == sha256_digest(self.script()),
    {
        let script = self.locking_script();
        sha256(script.as_slice())
    }

    pub fn size(&self) -> (n: usize)
        requires
            self.tail.wf(),
            self.script().len() <= usize::MAX,
        ensures
            n == self.script().len(),
    {
        self.guard.size() + self.tail.script_size()
    }
}

/// The sum of the lengths of a list of byte strings.
pub open spec fn total_len(items: Seq<Vec<u8>>) -> int
    decreases items.len(),
{
    if items.len() == 0 {
        0
    } else {
        total_len(items.drop_last()) + items.last()@.len()
    }
}

/// The pushes of a list of byte strings in order.
pub open spec fn pushes_of(items: Seq<Vec<u8>>) -> Seq<u8>
    decreases items.len(),
{
    if items.len() == 0 {
        Seq::<u8>::empty()
    } else {
        pushes_of(items.drop_last()) + push_bytes_spec(items.last()@)
    }
}

/// The pushes of a list of 32-byte strings in order.
pub open spec fn preimage_pushes(items: Seq<[u8; 32]>) -> Seq<u8>
    decreases items.len(),
{
    if items.len() == 0 {
        Seq::<u8>::empty()
    } else {
        preimage_pushes(items.drop_last()) + push_bytes_spec(items.last()@)
    }
}

/// What satisfies a tail.
#[derive(Clone, Debug)]
pub enum TailWitness {
    Ecdsa { signature: Vec<u8>, pubkey: Vec<u8> },
    Multisig { signatures: Vec<Vec<u8>> },
    Lamport { preimages: Vec<[u8; 32]> },
    Custom(Vec<u8>),
}

impl TailWitness {
    /// The number of bytes that the witness carries.
    pub open spec fn len(&self) -> int {
        match self {
            TailWitness::Ecdsa { signature, pubkey } => (signature@.len() + pubkey@.len()) as int,
            TailWitness::Multisig { signatures } => total_len(signatures@),
            TailWitness::Lamport { preimages } => (preimages@.len() * 32) as int,
            TailWitness::Custom(data) => data@.len() as int,
        }
    }

    /// The pushes of the witness. A multisig witness starts with the empty
    /// item that the check consumes beside the signatures.
    pub open spec fn pushes(&self) -> Seq<u8> {
        match self {
            TailWitness::Ecdsa { signature, pubkey } => push_bytes_spec(signature@)
                + push_bytes_spec(pubkey@),
            TailWitness::Multisig { signatures } => seq![OP_0] + pushes_of(signatures@),
            TailWitness::Lamport { preimages } => preimage_pushes(preimages@),
            TailWitness::Custom(data) => push_bytes_spec(data@),
        }
    }

    pub fn size(&self) -> (n: usize)
        requires
            self.len() <= usize::MAX,
        ensures
            n == self.len(),
    {
        match self {
            TailWitness::Ecdsa { signature, pubkey } => signature.len() + pubkey.len(),
            TailWitness::Multisig { signatures } => {
                let mut total: usize = 0;
                let mut i: usize = 0;
                proof {
                    lemma_total_len_monotone(signatures@, 0);
                }
                while i < signatures.len()
                    invariant
                        0 <= i <= signatures.len(),
                        total == total_len(signatures@.take(i as int)),
                        total_len(signatures@) <= usize::MAX,
                    decreases signatures.len() - i,
                {
                    proof {
                        assert(signatures@.take(i + 1).drop_last() =~= signatures@.take(i as int));
                        lemma_total_len_monotone(signatures@, i + 1);
                    }
                    total += signatures[i].len();
                    i += 1;
                }
                assert(signatures@.take(i as int) =~= signatures@);
                total
            },
            TailWitness::Lamport { preimages } => preimages.len() * 32,
            TailWitness::Custom(data) => data.len(),
        }
    }

    pub fn to_script_pushes(&self) -> (pushes: Vec<u8>)
        ensures
            pushes@ == self.pushes(),
    {
        match self {
            TailWitness::Ecdsa { signature, pubkey } => {
                let mut pushes = push_bytes(signature.as_slice());
                let mut key = push_bytes(pubkey.as_slice());
                pushes.append(&mut key);
                pushes
            },
            TailWitness::Multisig { signatures } => {
                let mut pushes: Vec<u8> = Vec::new();
                pushes.push(OP_0);
                let mut i: usize = 0;
                while i < signatures.len()
                    invariant
                        0 <= i <= signatures.len(),
                        pushes@ == seq![OP_0] + pushes_of(signatures@.take(i as int)),
                    decreases signatures.len() - i,
                {
                    proof {
                        assert(signatures@.take(i + 1).drop_last() =~= signatures@.take(i as int));
                    }
                    let mut p = push_bytes(signatures[i].as_slice());
                    pushes.append(&mut p);
                    i += 1;
                    assert(pushes@ =~= seq![OP_0] + pushes_of(signatures@.take(i as int)));
                }
                assert(signatures@.take(i as int) =~= signatures@);
                pushes
            },
            TailWitness::Lamport { preimages } => {
                let mut pushes: Vec<u8> = Vec::new();
                let mut i: usize = 0;
                while i < preimages.len()
                    invariant
                        0 <= i <= preimages.len(),
                        pushes@ == preimage_pushes(preimages@.take(i as int)),
                    decreases preimages.len() - i,
                {
                    proof {
                        assert(preimages@.take(i + 1).drop_last() =~= preimages@.take(i as int));
                    }
                    let mut p = push_bytes(preimages[i].as_slice());
                    pushes.append(&mut p);
                    i += 1;
                }
                assert(preimages@.take(i as int) =~= preimages@);
                pushes
            },
            TailWitness::Custom(data) => push_bytes(data.as_slice()),
        }
    }
}

/// The lengths of the first `n` items sum to no more than those of all.
pub proof fn lemma_total_len_monotone(items: Seq<Vec<u8>>, n: int)
    requires
        0 <= n <= items.len(),
    ensures
        0 <= total_len(items.take(n)) <= total_len(items),
    decreases items.len() - n,
{
    lemma_total_len_nonnegative(items.take(n));
    if n < items.len() {
        lemma_total_len_monotone(items, n + 1);
        assert(items.take(n + 1).drop_last() =~= items.take(n));
    } else {
        assert(items.take(n) =~= items);
    }
}

proof fn lemma_total_len_nonnegative(items: Seq<Vec<u8>>)
    ensures
        0 <= total_len(items),
    decreases items.len(),
{
    if items.len() > 0 {
        lemma_total_len_nonnegative(items.drop_last());
    }
}

/// The data that a signature commits to.
#[derive(Clone, Debug)]
pub struct SighashPreimage {
    pub version: [u8; 4],
    pub hash_prevouts: [u8; 32],
    pub hash_sequence: [u8; 32],
    pub outpoint: [u8; 36],
    pub script_code: Vec<u8>,
    pub value: [u8; 8],
    pub sequence: [u8; 4],
    pub hash_outputs: [u8; 32],
    pub locktime: [u8; 4],
    pub sighash_type: [u8; 4],
}

impl SighashPreimage {
    /// The fields in order, the script code behind its length.
    pub open spec fn bytes(&self) -> Seq<u8> {
        self.version@ + self.hash_prevouts@ + self.hash_sequence@ + self.outpoint@ + varint_spec(
            self.script_code@.len(),
        ) + self.script_code@ + self.value@ + self.sequence@ + self.hash_outputs@
            + self.locktime@ + self.sighash_type@
    }

    pub fn to_bytes(&self) -> (bytes: Vec<u8>)
        ensures
            bytes@ == self.bytes(),
    {
        let mut bytes: Vec<u8> = Vec::new();
        bytes.extend_from_slice(self.version.as_slice());
        bytes.extend_from_slice(self.hash_prevouts.as_slice());
        bytes.extend_from_slice(self.hash_sequence.as_slice());
        bytes.extend_from_slice(self.outpoint.as_slice());
        let mut len = varint(self.script_code.len());
        bytes.append(&mut len);
        bytes.extend_from_slice(self.script_code.as_slice());
        bytes.extend_from_slice(self.value.as_slice());
        bytes.extend_from_slice(self.sequence.as_slice());
        bytes.extend_from_slice(self.hash_outputs.as_slice());
        bytes.extend_from_slice(self.locktime.as_slice());
        bytes.extend_from_slice(self.sighash_type.as_slice());
        assert(bytes@ =~= self.bytes());
        bytes
    }

    /// The size with three bytes reckoned for the length of the script
    /// code.
    pub fn size(&self) -> (n: usize)
        requires
            self.script_code@.len() + 159 <= usize::MAX,
        ensures
            n == self.script_code@.len() + 159,
    {
        4 + 32 + 32 + 36 + self.script_code.len() + 8 + 4 + 32 + 4 + 4 + 3
    }
}

/// What the spender of a program supplies.
#[derive(Clone, Debug)]
pub struct MulletWitness {
    pub proof: Vec<u8>,
    pub ipa_hints: IpaHints,
    pub poseidon_hints: PoseidonHints,
    pub tail_witness: TailWitness,
    pub preimage: SighashPreimage,
    /// The serialized application outputs, where the program binds them.
    pub app_bytes: Option<Vec<u8>>,
    /// The serialized change outputs, where the program binds them.
    pub change_bytes: Option<Vec<u8>>,
}

impl MulletWitness {
    /// The number of bytes that the witness carries.
    pub open spec fn len(&self) -> int {
        self.proof@.len() + (self.ipa_hints.rounds@.len() * 131 + 65) + (
        self.poseidon_hints.round_states@.len() * 192 + 32) + self.tail_witness.len() + (
        self.preimage.script_code@.len() + 159)
    }

    /// The unlocking script: the proof, the application outputs or else
    /// the hints, the change outputs or else the tail's witness, the
    /// preimage.
    pub open spec fn script_sig(&self) -> Seq<u8> {
        push_bytes_spec(self.proof@) + (match self.app_bytes {
            Some(app) => push_bytes_spec(app@),
            None => self.ipa_hints.pushes() + self.poseidon_hints.pushes(),
        }) + (match self.change_bytes {
            Some(change) => push_bytes_spec(change@),
            None => self.tail_witness.pushes(),
        }) + push_bytes_spec(self.preimage.bytes())
    }

    pub fn size(&self) -> (n: usize)
        requires
            self.tail_witness.len() >= 0,
            self.len() <= usize::MAX,
        ensures
            n == self.len(),
    {
        self.proof.len() + self.ipa_hints.size() + self.poseidon_hints.size()
            + self.tail_witness.size() + self.preimage.size()
    }

    pub fn to_script_sig(&self) -> (sig: Vec<u8>)
        ensures
            sig@ == self.script_sig(),
    {
        let mut sig = push_bytes(self.proof.as_slice());
        match &self.app_bytes {
            Some(app) => {
                let mut p = push_bytes(app.as_slice());
                sig.append(&mut p);
            },
            None => {
                let mut ipa = self.ipa_hints.to_script_pushes();
                let mut poseidon = self.poseidon_hints.to_script_pushes();
                sig.append(&mut ipa);
                sig.append(&mut poseidon);
            },
        }
        match &self.change_bytes {
            Some(change) => {
                let mut p = push_bytes(change.as_slice());
                sig.append(&mut p);
            },
            None => {
                let mut t = self.tail_witness.to_script_pushes();
                sig.append(&mut t);
            },
        }
        let mut pre = push_bytes(self.preimage.to_bytes().as_slice());
        sig.append(&mut pre);
        assert(sig@ =~= self.script_sig());
        sig
    }
}

} // verus!
