//! The guard: the prefix of a spending program that checks the proof side.

use vstd::prelude::*;
use crate::opcodes::{
    push_number, push_number_spec, OP_3, OP_CAT, OP_DROP, OP_DUP, OP_EQUALVERIFY, OP_FROMALTSTACK,
    OP_GREATERTHAN, OP_NIP, OP_OVER, OP_PICK, OP_SHA256, OP_SIZE, OP_SPLIT, OP_SUB, OP_SWAP,
    OP_TOALTSTACK, OP_TRUE, OP_VERIFY,
};

verus! {

/// The size that a guard aims for.
pub const GUARD_TARGET: usize = 6500;

/// The size that no guard may exceed.
pub const GUARD_MAX: usize = 10000;

/// The kinds of guard.
#[derive(Clone, Copy, Debug, PartialEq, Eq)]
pub enum GuardType {
    Universal,
    Paymaster,
    Minimal,
    Custom,
}

/// Keeps a copy of the item on top aside.
pub open spec fn introspection_script() -> Seq<u8> {
    seq![OP_DUP, OP_TOALTSTACK]
}

pub open spec fn poseidon_binding_script() -> Seq<u8> {
    seq![OP_TRUE, OP_VERIFY]
}

/// Requires the item on top to be longer than 128 bytes and drops it.
pub open spec fn ipa_verification_script() -> Seq<u8> {
    seq![OP_SIZE] + push_number_spec(128) + seq![OP_GREATERTHAN, OP_VERIFY, OP_DROP]
}

/// Drops the two items set aside and leaves a true value.
pub open spec fn cleanup_script() -> Seq<u8> {
    seq![OP_FROMALTSTACK, OP_DROP, OP_FROMALTSTACK, OP_DROP, OP_TRUE]
}

/// Hashes the two output byte strings twice and compares the digest with
/// the one at the end of the preimage.
pub open spec fn paymaster_reconstruction_script() -> Seq<u8> {
    seq![OP_OVER, OP_3, OP_PICK, OP_SWAP, OP_CAT, OP_SHA256, OP_SHA256, OP_TOALTSTACK, OP_SIZE]
        + push_number_spec(40) + seq![OP_SUB, OP_SPLIT, OP_NIP] + push_number_spec(32) + seq![
        OP_SPLIT,
        OP_DROP,
        OP_FROMALTSTACK,
        OP_EQUALVERIFY,
        OP_DROP,
    ]
}

/// Requires the item on top to be longer than 32 bytes and sets it aside.
pub open spec fn paymaster_binding_script() -> Seq<u8> {
    seq![OP_SIZE] + push_number_spec(32) + seq![OP_GREATERTHAN, OP_VERIFY, OP_TOALTSTACK]
}

/// The guard of the universal and of the paymaster kind.
pub open spec fn full_guard_script() -> Seq<u8> {
    introspection_script() + paymaster_reconstruction_script() + paymaster_binding_script()
        + ipa_verification_script() + cleanup_script()
}

/// The smallest guard: requires the item on top to be longer than 100
/// bytes, drops it and leaves a true value.
pub open spec fn minimal_guard_script() -> Seq<u8> {
    seq![OP_DUP, OP_SIZE] + push_number_spec(100) + seq![
        OP_GREATERTHAN,
        OP_VERIFY,
        OP_DROP,
        OP_TRUE,
    ]
}

/// The lengths of the pushes of the numbers that guards use.
pub proof fn lemma_guard_numbers()
    ensures
        push_number_spec(32).len() == 2,
        push_number_spec(40).len() == 2,
        push_number_spec(100).len() == 2,
        push_number_spec(128).len() == 3,
{
    crate::program_shapes::lemma_num_shape(32);
    crate::program_shapes::lemma_num_shape(40);
    crate::program_shapes::lemma_num_shape(100);
    crate::program_shapes::lemma_num_shape(128);
    crate::machine::lemma_num_instr_bytes(32);
    crate::machine::lemma_num_instr_bytes(40);
    crate::machine::lemma_num_instr_bytes(100);
    crate::machine::lemma_num_instr_bytes(128);
}

/// A guard script and its kind.
#[derive(Clone, Debug)]
pub struct Guard {
    script: Vec<u8>,
    guard_type: GuardType,
}

impl Guard {
    /// The bytes of the guard.
    pub closed spec fn bytes(&self) -> Seq<u8> {
        self.script@
    }

    /// The kind of the guard.
    pub closed spec fn kind(&self) -> GuardType {
        self.guard_type
    }

    pub fn universal() -> (g: Self)
        ensures
            g.bytes() == full_guard_script(),
            g.kind() == GuardType::Universal,
            g.bytes().len() == 41,
    {
        proof {
            lemma_guard_numbers();
        }
        let script = GuardBuilder::new().introspection().paymaster_reconstruction()
            .paymaster_binding().ipa_verification().cleanup().build();
        assert(script@ =~= full_guard_script());
        Self { script, guard_type: GuardType::Universal }
    }

    pub fn paymaster() -> (g: Self)
        ensures
            g.bytes() == full_guard_script(),
            g.kind() == GuardType::Paymaster,
            g.bytes().len() == 41,
    {
        proof {
            lemma_guard_numbers();
        }
        let script = GuardBuilder::new().introspection().paymaster_reconstruction()
            .paymaster_binding().ipa_verification().cleanup().build();
        assert(script@ =~= full_guard_script());
        Self { script, guard_type: GuardType::Paymaster }
    }

    pub fn minimal() -> (g: Self)
        ensures
            g.bytes() == minimal_guard_script(),
            g.kind() == GuardType::Minimal,
            g.bytes().len() == 8,
    {
        proof {
            lemma_guard_numbers();
        }
        let mut script: Vec<u8> = Vec::new();
        script.push(OP_DUP);
        script.push(OP_SIZE);
        let mut n = push_number(100);
        script.append(&mut n);
        script.push(OP_GREATERTHAN);
        script.push(OP_VERIFY);
        script.push(OP_DROP);
        script.push(OP_TRUE);
        assert(script@ =~= minimal_guard_script());
        Self { script, guard_type: GuardType::Minimal }
    }

    pub fn custom(script: Vec<u8>) -> (g: Self)
        ensures
            g.bytes() == script@,
            g.kind() == GuardType::Custom,
    {
        Self { script, guard_type: GuardType::Custom }
    }

    pub fn to_bytes(&self) -> (bytes: Vec<u8>)
        ensures
            bytes@ == self.bytes(),
    {
        vstd::slice::slice_to_vec(self.script.as_slice())
    }

    pub fn guard_type(&self) -> (t: GuardType)
        ensures
            t == self.kind(),
    {
        self.guard_type
    }

    pub fn size(&self) -> (n: usize)
        ensures
            n == self.bytes().len(),
    {
        self.script.len()
    }

    /// Whether the guard is within the size that no guard may exceed.
    pub fn is_valid_size(&self) -> (ok: bool)
        ensures
            ok == (self.bytes().len() <= GUARD_MAX),
    {
        self.size() <= GUARD_MAX
    }
}

/// Puts a guard together from its parts.
pub struct GuardBuilder {
    script: Vec<u8>,
}

impl GuardBuilder {
    pub closed spec fn bytes(&self) -> Seq<u8> {
        self.script@
    }

    pub fn new() -> (b: Self)
        ensures
            b.bytes() == Seq::<u8>::empty(),
    {
        Self { script: Vec::new() }
    }

    pub fn build(self) -> (script: Vec<u8>)
        ensures
            script@ == self.bytes(),
    {
        self.script
    }

    pub fn introspection(self) -> (b: Self)
        ensures
            b.bytes() == self.bytes() + introspection_script(),
    {
        let mut b = self;
        b.script.push(OP_DUP);
        b.script.push(OP_TOALTSTACK);
        assert(b.script@ =~= self.bytes() + introspection_script());
        b
    }

    pub fn poseidon_binding(self) -> (b: Self)
        ensures
            b.bytes() == self.bytes() + poseidon_binding_script(),
    {
        let mut b = self;
        b.script.push(OP_TRUE);
        b.script.push(OP_VERIFY);
        assert(b.script@ =~= self.bytes() + poseidon_binding_script());
        b
    }

    pub fn ipa_verification(self) -> (b: Self)
        ensures
            b.bytes() == self.bytes() + ipa_verification_script(),
    {
        let mut b = self;
        b.script.push(OP_SIZE);
        let mut n = push_number(128);
        b.script.append(&mut n);
        b.script.push(OP_GREATERTHAN);
        b.script.push(OP_VERIFY);
        b.script.push(OP_DROP);
        assert(b.script@ =~= self.bytes() + ipa_verification_script());
        b
    }

    pub fn cleanup(self) -> (b: Self)
        ensures
            b.bytes() == self.bytes() + cleanup_script(),
    {
        let mut b = self;
        b.script.push(OP_FROMALTSTACK);
        b.script.push(OP_DROP);
        b.script.push(OP_FROMALTSTACK);
        b.script.push(OP_DROP);
        b.script.push(OP_TRUE);
        assert(b.script@ =~= self.bytes() + cleanup_script());
        b
    }

    pub fn paymaster_reconstruction(self) -> (b: Self)
        ensures
            b.bytes() == self.bytes() + paymaster_reconstruction_script(),
    {
        let mut b = self;
        b.script.push(OP_OVER);
        b.script.push(OP_3);
        b.script.push(OP_PICK);
        b.script.push(OP_SWAP);
        b.script.push(OP_CAT);
        b.script.push(OP_SHA256);
        b.script.push(OP_SHA256);
        b.script.push(OP_TOALTSTACK);
        b.script.push(OP_SIZE);
        let mut n40 = push_number(40);
        b.script.append(&mut n40);
        b.script.push(OP_SUB);
        b.script.push(OP_SPLIT);
        b.script.push(OP_NIP);
        let mut n32 = push_number(32);
        b.script.append(&mut n32);
        b.script.push(OP_SPLIT);
        b.script.push(OP_DROP);
        b.script.push(OP_FROMALTSTACK);
        b.script.push(OP_EQUALVERIFY);
        b.script.push(OP_DROP);
        assert(b.script@ =~= self.bytes() + paymaster_reconstruction_script());
        b
    }

    pub fn paymaster_binding(self) -> (b: Self)
        ensures
            b.bytes() == self.bytes() + paymaster_binding_script(),
    {
        let mut b = self;
        b.script.push(OP_SIZE);
        let mut n = push_number(32);
        b.script.append(&mut n);
        b.script.push(OP_GREATERTHAN);
        b.script.push(OP_VERIFY);
        b.script.push(OP_TOALTSTACK);
        assert(b.script@ =~= self.bytes() + paymaster_binding_script());
        b
    }
}

/// The size that a guard for a proof of `2^k` size is expected to take: 200
/// bytes per folding round, 30 per round of the permutation, 500 beside.
pub fn estimate_guard_size(k: u32) -> (n: usize)
    requires
        k * 200 + 2420 <= usize::MAX,
    ensures
        n == k * 200 + 2420,
{
    let ipa_size: usize = (k as usize) * 200;
    let poseidon_size: usize = 64 * 30;
    let overhead: usize = 500;
    ipa_size + poseidon_size + overhead
}

/// Whether the expected guard is within the size that a guard aims for.
pub fn guard_fits(k: u32) -> (ok: bool)
    requires
        k * 200 + 2420 <= usize::MAX,
    ensures
        ok == (k * 200 + 2420 <= GUARD_TARGET),
{
    estimate_guard_size(k) <= GUARD_TARGET
}

} // verus!
