//! Guard scripts that check hints of the permutation by their shape and
//! bind them by hash.

use vstd::prelude::*;
use crate::opcodes::{
    push_bytes, push_bytes_spec, push_number, push_number_spec, OP_CAT, OP_DROP, OP_DUP, OP_EQUAL,
    OP_EQUALVERIFY, OP_FROMALTSTACK, OP_OVER, OP_SHA256, OP_SIZE, OP_SPLIT, OP_SWAP, OP_TOALTSTACK,
    OP_TRUE,
};
use crate::poseidon::TOTAL_ROUNDS;

verus! {

/// What a hint-checking guard is built for.
#[derive(Clone, Debug)]
pub struct PoseidonGuardConfig {
    /// The number of hashes to check, four per intent.
    pub hash_count: usize,
    pub verify_sbox: bool,
    pub verify_mds: bool,
    /// The size that the script should stay within.
    pub max_script_size: usize,
}

impl Default for PoseidonGuardConfig {
    fn default() -> (c: Self)
        ensures
            c.hash_count == 4,
            c.verify_sbox,
            c.verify_mds,
            c.max_script_size == 6500,
    {
        Self { hash_count: 4, verify_sbox: true, verify_mds: true, max_script_size: 6500 }
    }
}

impl PoseidonGuardConfig {
    pub fn for_intents(intent_count: usize) -> (c: Self)
        requires
            intent_count * 4 <= usize::MAX,
        ensures
            c.hash_count == intent_count * 4,
            c.verify_sbox,
            c.verify_mds,
            c.max_script_size == 6500,
    {
        Self {
            hash_count: intent_count * 4,
            verify_sbox: true,
            verify_mds: true,
            max_script_size: 6500,
        }
    }
}

/// The check of one round's hint: it has the 96 bytes of a state.
pub open spec fn round_check_script() -> Seq<u8> {
    seq![OP_DUP, OP_TOALTSTACK, OP_SIZE] + push_number_spec(96) + seq![
        OP_EQUALVERIFY,
        OP_FROMALTSTACK,
    ]
}

/// `n` round checks.
pub open spec fn round_checks(n: nat) -> Seq<u8>
    decreases n,
{
    if n == 0 {
        Seq::<u8>::empty()
    } else {
        round_checks((n - 1) as nat) + round_check_script()
    }
}

/// The whole guard: one check per round of every hash, the comparison of
/// the output, a true value.
pub open spec fn poseidon_guard_script(hash_count: nat) -> Seq<u8> {
    round_checks(hash_count * 64) + seq![OP_EQUALVERIFY, OP_TRUE]
}

/// Builds a hint-checking guard.
pub struct PoseidonGuardBuilder {
    script: Vec<u8>,
    config: PoseidonGuardConfig,
}

impl PoseidonGuardBuilder {
    pub closed spec fn bytes(&self) -> Seq<u8> {
        self.script@
    }

    pub closed spec fn settings(&self) -> PoseidonGuardConfig {
        self.config
    }

    pub fn new(config: PoseidonGuardConfig) -> (b: Self)
        ensures
            b.bytes() == Seq::<u8>::empty(),
            b.settings() == config,
    {
        Self { script: Vec::new(), config }
    }

    pub fn build(self) -> (script: Vec<u8>)
        requires
            self.settings().hash_count * 64 <= usize::MAX,
        ensures
            script@ == self.bytes() + poseidon_guard_script(self.settings().hash_count as nat),
    {
        let mut b = self;
        b.emit_round_verification();
        b.emit_output_check();
        b.emit_cleanup();
        assert(b.script@ =~= self.bytes() + poseidon_guard_script(
            self.settings().hash_count as nat,
        ));
        b.script
    }

    fn emit_round_verification(&mut self)
        requires
            old(self).settings().hash_count * 64 <= usize::MAX,
        ensures
            final(self).settings() == old(self).settings(),
            final(self).bytes() == old(self).bytes() + round_checks(
                (old(self).settings().hash_count * 64) as nat,
            ),
    {
        let rounds_per_hash: usize = TOTAL_ROUNDS;
        let total_rounds: usize = self.config.hash_count * rounds_per_hash;
        let mut round: usize = 0;
        while round < total_rounds
            invariant
                0 <= round <= total_rounds,
                self.settings() == old(self).settings(),
                self.bytes() == old(self).bytes() + round_checks(round as nat),
            decreases total_rounds - round,
        {
            self.emit_single_round_check();
            round += 1;
            assert(self.bytes() =~= old(self).bytes() + round_checks(round as nat));
        }
    }

    fn emit_single_round_check(&mut self)
        ensures
            final(self).settings() == old(self).settings(),
            final(self).bytes() == old(self).bytes() + round_check_script(),
    {
        self.script.push(OP_DUP);
        self.script.push(OP_TOALTSTACK);
        self.script.push(OP_SIZE);
        let mut n = push_number(96);
        self.script.append(&mut n);
        self.script.push(OP_EQUALVERIFY);
        self.script.push(OP_FROMALTSTACK);
        assert(self.script@ =~= old(self).bytes() + round_check_script());
    }

    fn emit_output_check(&mut self)
        ensures
            final(self).settings() == old(self).settings(),
            final(self).bytes() == old(self).bytes().push(OP_EQUALVERIFY),
    {
        self.script.push(OP_EQUALVERIFY);
    }

    fn emit_cleanup(&mut self)
        ensures
            final(self).settings() == old(self).settings(),
            final(self).bytes() == old(self).bytes().push(OP_TRUE),
    {
        self.script.push(OP_TRUE);
    }

    pub fn size(&self) -> (n: usize)
        ensures
            n == self.bytes().len(),
    {
        self.script.len()
    }
}

/// Binds hints by hash: joins the two initial values with the hints on the
/// stack, hashes and compares with the expected output.
pub open spec fn poseidon_binding_script(left: Seq<u8>, right: Seq<u8>, output: Seq<u8>) -> Seq<
    u8,
> {
    push_bytes_spec(left) + push_bytes_spec(right) + seq![OP_CAT, OP_SWAP, OP_CAT, OP_SHA256]
        + push_bytes_spec(output) + seq![OP_EQUAL]
}

pub fn generate_poseidon_binding_script(
    initial_left: &[u8; 32],
    initial_right: &[u8; 32],
    expected_output: &[u8; 32],
) -> (script: Vec<u8>)
    ensures
        script@ == poseidon_binding_script(initial_left@, initial_right@, expected_output@),
        script@.len() == 104,
{
    let mut script = push_bytes(initial_left.as_slice());
    let mut right = push_bytes(initial_right.as_slice());
    script.append(&mut right);
    script.push(OP_CAT);
    script.push(OP_SWAP);
    script.push(OP_CAT);
    script.push(OP_SHA256);
    let mut out = push_bytes(expected_output.as_slice());
    script.append(&mut out);
    script.push(OP_EQUAL);
    assert(script@ =~= poseidon_binding_script(
        initial_left@,
        initial_right@,
        expected_output@,
    ));
    script
}

pub open spec fn verify_init_script() -> Seq<u8> {
    seq![OP_DUP, OP_TOALTSTACK]
}

/// Checks that a round's hint has the 192 bytes of two states and keeps
/// the second as the new state.
pub open spec fn verify_round_script() -> Seq<u8> {
    seq![OP_OVER, OP_SIZE] + push_number_spec(192) + seq![OP_EQUALVERIFY, OP_SWAP]
        + push_number_spec(96) + seq![OP_SPLIT, OP_DROP]
}

pub open spec fn verify_finalize_script() -> Seq<u8> {
    seq![OP_FROMALTSTACK, OP_DROP, OP_EQUALVERIFY, OP_TRUE]
}

/// The three parts of a hint check that runs round by round.
#[derive(Clone, Debug)]
pub struct PoseidonVerifyScript {
    pub init: Vec<u8>,
    pub round_verify: Vec<u8>,
    pub finalize: Vec<u8>,
}

impl PoseidonVerifyScript {
    pub fn new() -> (s: Self)
        ensures
            s.init@ == verify_init_script(),
            s.round_verify@ == verify_round_script(),
            s.finalize@ == verify_finalize_script(),
            s.round_verify@.len() == 11,
    {
        Self {
            init: Self::generate_init(),
            round_verify: Self::generate_round_verify(),
            finalize: Self::generate_finalize(),
        }
    }

    fn generate_init() -> (script: Vec<u8>)
        ensures
            script@ == verify_init_script(),
    {
        let mut script: Vec<u8> = Vec::new();
        script.push(OP_DUP);
        script.push(OP_TOALTSTACK);
        script
    }

    fn generate_round_verify() -> (script: Vec<u8>)
        ensures
            script@ == verify_round_script(),
            script@.len() == 11,
    {
        proof {
            crate::program_shapes::lemma_num_shape(192);
            crate::machine::lemma_num_instr_bytes(192);
            crate::program_shapes::lemma_num_shape(96);
            crate::machine::lemma_num_instr_bytes(96);
        }
        let mut script: Vec<u8> = Vec::new();
        script.push(OP_OVER);
        script.push(OP_SIZE);
        let mut n192 = push_number(192);
        script.append(&mut n192);
        script.push(OP_EQUALVERIFY);
        script.push(OP_SWAP);
        let mut n96 = push_number(96);
        script.append(&mut n96);
        script.push(OP_SPLIT);
        script.push(OP_DROP);
        assert(script@ =~= verify_round_script());
        script
    }

    fn generate_finalize() -> (script: Vec<u8>)
        ensures
            script@ == verify_finalize_script(),
    {
        let mut script: Vec<u8> = Vec::new();
        script.push(OP_FROMALTSTACK);
        script.push(OP_DROP);
        script.push(OP_EQUALVERIFY);
        script.push(OP_TRUE);
        script
    }

    /// The size of the check for `rounds` rounds.
    pub fn total_size(&self, rounds: usize) -> (n: usize)
        requires
            self.init@.len() + self.round_verify@.len() * rounds + self.finalize@.len()
                <= usize::MAX,
        ensures
            n == self.init@.len() + self.round_verify@.len() * rounds + self.finalize@.len(),
    {
        proof {
            assert(self.round_verify@.len() * rounds >= 0) by (nonlinear_arith)
                requires
                    self.round_verify@.len() >= 0,
                    rounds >= 0,
            ;
        }
        self.init.len() + (self.round_verify.len() * rounds) + self.finalize.len()
    }
}

impl Default for PoseidonVerifyScript {
    fn default() -> (s: Self)
        ensures
            s.init@ == verify_init_script(),
            s.round_verify@ == verify_round_script(),
            s.finalize@ == verify_finalize_script(),
    {
        Self::new()
    }
}

/// The expected size of a hint-checking guard: 200 bytes, and per hash 100
/// with the check of the fifth powers or 50 without; four hashes per
/// intent.
pub open spec fn guard_size(intent_count: int, include_sbox_verify: bool) -> int {
    200 + intent_count * 4 * if include_sbox_verify {
        100int
    } else {
        50int
    }
}

pub fn estimate_guard_size(intent_count: usize, include_sbox_verify: bool) -> (n: usize)
    requires
        guard_size(intent_count as int, true) <= usize::MAX,
    ensures
        n == guard_size(intent_count as int, include_sbox_verify),
{
    let hashes_per_intent: usize = 4;
    let total_hashes: usize = intent_count * hashes_per_intent;
    let base_overhead: usize = 200;
    let per_hash: usize = if include_sbox_verify {
        100
    } else {
        50
    };
    base_overhead + (total_hashes * per_hash)
}

/// Whether the guard for `intent_count` intents is expected to stay within
/// `target_size`.
pub fn guard_fits(intent_count: usize, target_size: usize) -> (ok: bool)
    requires
        guard_size(intent_count as int, true) <= usize::MAX,
    ensures
        ok == (guard_size(intent_count as int, true) <= target_size),
{
    estimate_guard_size(intent_count, true) <= target_size
}

} // verus!
