//! The first stage of the guard: hash the witnesses into a transcript and
//! hold the result against the proof's instance.

use vstd::prelude::*;
use crate::guard_engine::cleanup::repeat;
use crate::opcodes::{
    OP_1, OP_2, OP_3, OP_4, OP_5, OP_6, OP_7, OP_8, OP_CAT, OP_DUP, OP_EQUALVERIFY, OP_FALSE,
    OP_FROMALTSTACK, OP_OVER, OP_PICK, OP_SHA256, OP_TOALTSTACK, OP_TRUE, OP_VERIFY,
};

verus! {

/// The tag that the transcript starts from: "Halo2_GHOST_Protocol_v1".
pub const DOMAIN_SEPARATOR: [u8; 23] = [
    0x48, 0x61, 0x6c, 0x6f, 0x32, 0x5f, 0x47, 0x48,
    0x4f, 0x53, 0x54, 0x5f, 0x50, 0x72, 0x6f, 0x74,
    0x6f, 0x63, 0x6f, 0x6c, 0x5f, 0x76, 0x31,
];

/// The word "squeeze".
pub const SQUEEZE_TAG: [u8; 7] = [0x73, 0x71, 0x75, 0x65, 0x65, 0x7a, 0x65];

/// The opcode that pushes `n`, for `n` up to 8; the one for 8 beyond.
pub open spec fn op_n_spec(n: int) -> u8 {
    if n == 0 {
        OP_FALSE
    } else if 1 <= n <= 8 {
        (0x50 + n) as u8
    } else {
        OP_8
    }
}

pub fn op_n(n: usize) -> (op: u8)
    ensures
        op == op_n_spec(n as int),
{
    match n {
        0 => OP_FALSE,
        1 => OP_1,
        2 => OP_2,
        3 => OP_3,
        4 => OP_4,
        5 => OP_5,
        6 => OP_6,
        7 => OP_7,
        8 => OP_8,
        _ => OP_8,
    }
}

pub open spec fn transcript_init_script() -> Seq<u8> {
    seq![23u8] + DOMAIN_SEPARATOR@ + seq![OP_SHA256, OP_TOALTSTACK]
}

pub open spec fn transcript_absorb_script() -> Seq<u8> {
    seq![OP_FROMALTSTACK, OP_CAT, OP_SHA256, OP_TOALTSTACK]
}

pub open spec fn transcript_squeeze_script() -> Seq<u8> {
    seq![OP_FROMALTSTACK, OP_DUP, 7u8] + SQUEEZE_TAG@ + seq![OP_CAT, OP_SHA256, OP_TOALTSTACK]
}

/// Fetches the three fields of one witness, joins and hashes them and sets
/// the digest aside. `offset` is the depth of the witness's first field.
pub open spec fn hash_witness_script(offset: int) -> Seq<u8> {
    seq![
        op_n_spec(offset + 2),
        OP_PICK,
        op_n_spec(offset + 2),
        OP_PICK,
        op_n_spec(offset + 2),
        OP_PICK,
        OP_CAT,
        OP_CAT,
        OP_SHA256,
        OP_TOALTSTACK,
    ]
}

/// The scripts for the first `n` of `total` witnesses.
pub open spec fn hash_witnesses_script(total: int, n: nat) -> Seq<u8>
    decreases n,
{
    if n == 0 {
        Seq::<u8>::empty()
    } else {
        hash_witnesses_script(total, (n - 1) as nat) + hash_witness_script(3 + (total - n) * 3)
    }
}

/// Hashes every witness, brings the digests back, joins them and hashes
/// the whole.
pub open spec fn copy_and_hash_script(total: int) -> Seq<u8> {
    hash_witnesses_script(total, total as nat) + repeat(OP_FROMALTSTACK, total as nat) + repeat(
        OP_CAT,
        (if total >= 1 {
            total - 1
        } else {
            0int
        }) as nat,
    ) + seq![OP_SHA256]
}

/// The whole stage.
pub open spec fn verify_public_script(total: int) -> Seq<u8> {
    copy_and_hash_script(total) + transcript_init_script() + seq![OP_OVER]
        + transcript_absorb_script() + seq![OP_TRUE, OP_VERIFY] + seq![OP_DUP] + seq![
        OP_EQUALVERIFY,
    ]
}

/// The stage for a given number of inputs and outputs.
pub struct VerifyPublicData {
    num_inputs: usize,
    num_outputs: usize,
}

impl VerifyPublicData {
    pub closed spec fn inputs(&self) -> usize {
        self.num_inputs
    }

    pub closed spec fn outputs(&self) -> usize {
        self.num_outputs
    }

    /// The number of witnesses: one per input and per output.
    pub open spec fn total(&self) -> int {
        self.inputs() + self.outputs()
    }

    /// Three fields per witness fit the machine.
    pub open spec fn wf(&self) -> bool {
        self.total() * 3 + 5 <= usize::MAX
    }

    pub fn new(num_inputs: usize, num_outputs: usize) -> (v: Self)
        ensures
            v.inputs() == num_inputs,
            v.outputs() == num_outputs,
    {
        Self { num_inputs, num_outputs }
    }

    pub fn build(&self) -> (script: Vec<u8>)
        requires
            self.wf(),
        ensures
            script@ == verify_public_script(self.total()),
    {
        let mut script = self.copy_and_hash_witnesses();
        let mut init = self.transcript_init();
        script.append(&mut init);
        script.push(OP_OVER);
        let mut absorb = self.transcript_absorb();
        script.append(&mut absorb);
        let mut ipa = self.verify_halo2_ipa();
        script.append(&mut ipa);
        let mut instance = self.extract_proof_instance();
        script.append(&mut instance);
        script.push(OP_EQUALVERIFY);
        assert(script@ =~= verify_public_script(self.total()));
        script
    }

    pub fn transcript_init(&self) -> (script: Vec<u8>)
        ensures
            script@ == transcript_init_script(),
    {
        let mut script: Vec<u8> = Vec::new();
        script.push(23u8);
        script.extend_from_slice(DOMAIN_SEPARATOR.as_slice());
        script.push(OP_SHA256);
        script.push(OP_TOALTSTACK);
        assert(script@ =~= transcript_init_script());
        script
    }

    pub fn transcript_absorb(&self) -> (script: Vec<u8>)
        ensures
            script@ == transcript_absorb_script(),
    {
        let mut script: Vec<u8> = Vec::new();
        script.push(OP_FROMALTSTACK);
        script.push(OP_CAT);
        script.push(OP_SHA256);
        script.push(OP_TOALTSTACK);
        script
    }

    pub fn transcript_squeeze(&self) -> (script: Vec<u8>)
        ensures
            script@ == transcript_squeeze_script(),
    {
        let mut script: Vec<u8> = Vec::new();
        script.push(OP_FROMALTSTACK);
        script.push(OP_DUP);
        script.push(7u8);
        script.extend_from_slice(SQUEEZE_TAG.as_slice());
        script.push(OP_CAT);
        script.push(OP_SHA256);
        script.push(OP_TOALTSTACK);
        assert(script@ =~= transcript_squeeze_script());
        script
    }

    pub fn verify_halo2_ipa(&self) -> (script: Vec<u8>)
        ensures
            script@ == seq![OP_TRUE, OP_VERIFY],
    {
        let mut script: Vec<u8> = Vec::new();
        script.push(OP_TRUE);
        script.push(OP_VERIFY);
        script
    }

    pub fn extract_proof_instance(&self) -> (script: Vec<u8>)
        ensures
            script@ == seq![OP_DUP],
    {
        let mut script: Vec<u8> = Vec::new();
        script.push(OP_DUP);
        script
    }

    pub fn copy_and_hash_witnesses(&self) -> (script: Vec<u8>)
        requires
            self.wf(),
        ensures
            script@ == copy_and_hash_script(self.total()),
    {
        let mut script: Vec<u8> = Vec::new();
        let total_witnesses: usize = self.num_inputs + self.num_outputs;
        let base_offset: usize = 3;
        let ghost total = total_witnesses as int;
        let mut i: usize = 0;
        while i < total_witnesses
            invariant
                0 <= i <= total_witnesses,
                total == total_witnesses,
                total * 3 + 5 <= usize::MAX,
                base_offset == 3,
                script@ == hash_witnesses_script(total, i as nat),
            decreases total_witnesses - i,
        {
            let witness_offset: usize = base_offset + (total_witnesses - 1 - i) * 3;
            script.push(op_n(witness_offset + 2));
            script.push(OP_PICK);
            script.push(op_n(witness_offset + 1 + 1));
            script.push(OP_PICK);
            script.push(op_n(witness_offset + 0 + 2));
            script.push(OP_PICK);
            script.push(OP_CAT);
            script.push(OP_CAT);
            script.push(OP_SHA256);
            script.push(OP_TOALTSTACK);
            i += 1;
            assert(script@ =~= hash_witnesses_script(total, i as nat));
        }
        let ghost head = script@;
        let mut j: usize = 0;
        while j < total_witnesses
            invariant
                0 <= j <= total_witnesses,
                script@ == head + repeat(OP_FROMALTSTACK, j as nat),
            decreases total_witnesses - j,
        {
            script.push(OP_FROMALTSTACK);
            j += 1;
            assert(script@ =~= head + repeat(OP_FROMALTSTACK, j as nat));
        }
        let ghost mid = script@;
        let mut k: usize = 1;
        while k < total_witnesses
            invariant
                1 <= k,
                k <= total_witnesses || k == 1,
                script@ == mid + repeat(OP_CAT, (k - 1) as nat),
            decreases total_witnesses - k,
        {
            script.push(OP_CAT);
            k += 1;
            assert(script@ =~= mid + repeat(OP_CAT, (k - 1) as nat));
        }
        script.push(OP_SHA256);
        assert(script@ =~= copy_and_hash_script(total));
        script
    }

    /// The number of witness fields: three per witness.
    pub fn total_witness_fields(&self) -> (n: usize)
        requires
            self.wf(),
        ensures
            n == self.total() * 3,
    {
        (self.num_inputs + self.num_outputs) * 3
    }
}

} // verus!
