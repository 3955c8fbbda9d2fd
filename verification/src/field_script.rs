//! Field arithmetic as stack code: the script builder, the round generators
//! and the constant sets they draw on.

use vstd::prelude::*;
use crate::field::{
    canonical_repr, decode_spec, field_add, field_mul, field_pow5, is_canonical,
    lemma_repr_of_value, u64_repr, Fp, PALLAS_MODULUS_BYTES,
};
use crate::field_programs::{
    embedded_constant, embedded_fused_constant, params_at, prog_add_constants, prog_affine_row,
    prog_canonical_check, prog_const, prog_dot_row, prog_dup2, prog_field_add, prog_field_mul,
    prog_full_round, prog_fused_round, prog_init, prog_keep_top3, prog_mix_dense, prog_mix_sparse,
    prog_pick, prog_poseidon_embedded, prog_raise_state, prog_roll, prog_round_embedded,
    prog_round_witness, prog_rounds_embedded, prog_rounds_witness, prog_sbox, prog_swap_drop,
    prog_term, ConstRef,
};
use crate::fusion::{
    full_constants_of, fused_constant, fused_schedule, fusion_exact, law_fusion_equivalence,
    pending1, pending2, permute_fused, permute_fused_rounds, round_of_slot, standard_elements,
    standard_full_constants, standard_fused_constants, standard_permutation,
};
use crate::hashing::{sha256, sha256_digest};
use crate::machine::{
    encode, lemma_encode_concat, lemma_encode_one, lemma_encode_ops, lemma_encode_push, num_instr,
    ops, Instr,
};
use crate::opcodes::{
    push_bytes, push_bytes_spec, push_number, OP_2DROP, OP_ADD, OP_DROP, OP_DUP, OP_EQUAL,
    OP_EQUALVERIFY, OP_FROMALTSTACK, OP_LESSTHAN, OP_MOD, OP_MUL, OP_NUMEQUALVERIFY, OP_OVER,
    OP_PICK, OP_ROLL, OP_SHA256, OP_SPLIT, OP_SUB, OP_SWAP, OP_TOALTSTACK, OP_VERIFY,
};
use crate::poseidon::{
    apply_full_round, apply_fused_round, full_round, fused_round, get_mds_fp, get_round_constant,
    get_schedule, has_unit_block, mat_of, mix_dense, mix_sparse, permute, round_constants,
    schedule_values, standard_mds, standard_schedule, triple_of, values_of, Mat3, Triple,
};
use crate::program_shapes::{
    lemma_shape_init, lemma_shape_poseidon_embedded, lemma_shape_round_sequences,
    lemma_shape_rounds, lemma_shape_sbox,
};
use crate::script_laws::{
    checks_canonical, combines_top_two, embedded_layout, fused_schedule_round,
    law_canonical_check_script, law_field_programs, law_full_round_embedded, law_mix_programs,
    law_partial_round_embedded, law_poseidon_script, law_round_witness, law_witness_script,
    lemma_output_check_bytes, maps_state, maps_top, permutes_state, prog_output_check,
    program_maps_state, witness_layout,
};

verus! {

/// The largest depth that the round generators fetch from.
pub const DEPTH_LIMIT: usize = 0xffff;

/// The largest distance between the state and the matrix that the round
/// generators work with.
pub const LAYOUT_LIMIT: usize = 0xff00;

/// Appending the encodings of two programs is appending the encoding of
/// their concatenation.
pub proof fn lemma_emit2(base: Seq<u8>, p: Seq<Instr>, q: Seq<Instr>)
    ensures
        base + encode(p) + encode(q) == base + encode(p + q),
{
    lemma_encode_concat(p, q);
    assert(base + encode(p) + encode(q) =~= base + (encode(p) + encode(q)));
}

/// The encoding of a program of bare opcodes is the opcodes themselves.
pub proof fn lemma_encode_ops2(a: u8, b: u8)
    ensures
        encode(seq![Instr::Op(a), Instr::Op(b)]) == seq![a, b],
{
    let p = seq![Instr::Op(a), Instr::Op(b)];
    lemma_encode_push(seq![Instr::Op(a)], Instr::Op(b));
    lemma_encode_one(Instr::Op(a));
    assert(p =~= seq![Instr::Op(a)].push(Instr::Op(b)));
    assert(encode(p) =~= seq![a, b]);
}

/// The encodings of a list of values, one after the other.
pub open spec fn repr_concat(vals: Seq<nat>) -> Seq<u8>
    decreases vals.len(),
{
    if vals.len() == 0 {
        Seq::<u8>::empty()
    } else {
        repr_concat(vals.drop_last()) + canonical_repr(vals.last())
    }
}

/// Every value takes 32 bytes.
pub proof fn lemma_repr_concat_len(vals: Seq<nat>)
    ensures
        repr_concat(vals).len() == 32 * vals.len(),
    decreases vals.len(),
{
    if vals.len() > 0 {
        lemma_repr_concat_len(vals.drop_last());
    }
}

/// The 32 bytes of value `k` within the encodings of a list.
pub proof fn lemma_repr_concat_field(vals: Seq<nat>, k: int)
    requires
        0 <= k < vals.len(),
    ensures
        repr_concat(vals).subrange(32 * k, 32 * k + 32) == canonical_repr(vals[k]),
    decreases vals.len(),
{
    lemma_repr_concat_len(vals.drop_last());
    lemma_repr_concat_len(vals);
    if k < vals.len() - 1 {
        lemma_repr_concat_field(vals.drop_last(), k);
        assert(repr_concat(vals).subrange(32 * k, 32 * k + 32) =~= repr_concat(
            vals.drop_last(),
        ).subrange(32 * k, 32 * k + 32));
    } else {
        assert(repr_concat(vals).subrange(32 * k, 32 * k + 32) =~= canonical_repr(vals.last()));
    }
}

/// The constants blob of a list of values: the modulus, then the values.
pub open spec fn blob_of(vals: Seq<nat>) -> Seq<u8> {
    PALLAS_MODULUS_BYTES@ + repr_concat(vals)
}

/// The blob of the standard constant set.
pub open spec fn standard_blob() -> Seq<u8> {
    blob_of(standard_elements())
}

/// The reduced constant set: the matrix, all three constants of each full
/// round, and one fused constant per partial round.
#[derive(Clone, Debug)]
pub struct FusedPoseidonConstants {
    /// The mixing matrix.
    pub mds: [[Fp; 3]; 3],
    /// The constants of the eight full rounds (rounds 0-3 and 60-63).
    pub full_round_constants: Vec<[Fp; 3]>,
    /// The fused constant of each of the 56 partial rounds (rounds 4-59).
    pub partial_round_c0: Vec<Fp>,
}

impl FusedPoseidonConstants {
    /// The set has eight full-round triples and 56 fused constants.
    pub open spec fn wf(&self) -> bool {
        self.full_round_constants@.len() == 8 && self.partial_round_c0@.len() == 56
    }

    /// The full-round constants as values, by slot.
    pub open spec fn full_values(&self) -> Seq<Triple> {
        Seq::new(
            self.full_round_constants@.len(),
            |i: int| triple_of(self.full_round_constants@[i]),
        )
    }

    /// The fused constants as values.
    pub open spec fn partial_values(&self) -> Seq<nat> {
        values_of(self.partial_round_c0@)
    }

    /// Element `i` (0 to 88) in serialized order: the matrix row by row,
    /// the full-round constants round by round, the fused constants.
    pub open spec fn element_value(&self, i: int) -> nat {
        if i < 9 {
            self.mds[i / 3][i % 3].value()
        } else if i < 33 {
            self.full_round_constants@[(i - 9) / 3][(i - 9) % 3].value()
        } else {
            self.partial_round_c0@[i - 33].value()
        }
    }

    /// The 89 values in serialized order.
    pub open spec fn element_values(&self) -> Seq<nat> {
        Seq::new(89, |i: int| self.element_value(i))
    }

    /// The set is the one derived from the standard schedule.
    pub open spec fn is_standard(&self) -> bool {
        &&& self.wf()
        &&& mat_of(self.mds) == standard_mds()
        &&& self.full_values() == standard_full_constants()
        &&& self.partial_values() == standard_fused_constants()
    }

    /// A standard set holds the standard values.
    pub proof fn lemma_standard_elements(&self)
        requires
            self.is_standard(),
        ensures
            self.element_values() == standard_elements(),
    {
        assert forall|i: int| 0 <= i < 89 implies self.element_value(i)
            == crate::fusion::standard_element(i) by {
            if i < 9 {
            } else if i < 33 {
                let slot = (i - 9) / 3;
                assert(self.full_values()[slot] == standard_full_constants()[slot]);
            } else {
                assert(self.partial_values()[i - 33] == standard_fused_constants()[i - 33]);
            }
        }
        assert(self.element_values() =~= standard_elements());
    }

    /// The set is the one that fusion derives from the matrix `m` and the
    /// schedule `rc`.
    pub open spec fn fuses(&self, m: Mat3, rc: Seq<Triple>) -> bool {
        &&& self.wf()
        &&& mat_of(self.mds) == m
        &&& self.full_values() == full_constants_of(rc)
        &&& self.partial_values() == fused_schedule(m, rc)
    }

    /// Derives the fused set from a matrix and a schedule of 64 triples:
    /// the full-round triples are kept, and each partial round gets its
    /// first constant plus row 0 of the matrix applied to what the round
    /// before left pending on the other two elements.
    pub fn fuse(mds: [[Fp; 3]; 3], schedule: &[[Fp; 3]]) -> (c: Self)
        requires
            schedule@.len() == 64,
        ensures
            c.fuses(mat_of(mds), schedule_values(schedule@)),
    {
        let ghost m = mat_of(mds);
        let ghost rc = schedule_values(schedule@);
        let mut full_round_constants: Vec<[Fp; 3]> = Vec::new();
        let mut slot: usize = 0;
        while slot < 8
            invariant
                0 <= slot <= 8,
                schedule@.len() == 64,
                rc == schedule_values(schedule@),
                full_round_constants@.len() == slot,
                forall|i: int|
                    0 <= i < slot ==> triple_of(#[trigger] full_round_constants@[i])
                        == rc[round_of_slot(i)],
            decreases 8 - slot,
        {
            let r: usize = if slot < 4 {
                slot
            } else {
                slot + 56
            };
            full_round_constants.push(schedule[r]);
            slot += 1;
        }
        let mut partial_round_c0: Vec<Fp> = Vec::new();
        let mut acc_c1 = Fp::zero();
        let mut acc_c2 = Fp::zero();
        let mut r: usize = 4;
        while r < 60
            invariant
                4 <= r <= 60,
                schedule@.len() == 64,
                rc == schedule_values(schedule@),
                mat_of(mds) == m,
                partial_round_c0@.len() == r - 4,
                forall|k: int|
                    0 <= k < r - 4 ==> (#[trigger] partial_round_c0@[k]).value() == fused_constant(
                        m,
                        rc,
                        4 + k,
                    ),
                acc_c1.value() == if r == 4 {
                    0
                } else {
                    pending1(m, rc[r - 1])
                },
                acc_c2.value() == if r == 4 {
                    0
                } else {
                    pending2(m, rc[r - 1])
                },
            decreases 60 - r,
        {
            let c0 = schedule[r][0];
            let c1 = schedule[r][1];
            let c2 = schedule[r][2];
            let effective_c0 = c0.add(&mds[0][1].mul(&acc_c1)).add(&mds[0][2].mul(&acc_c2));
            assert(rc[r as int] == triple_of(schedule@[r as int]));
            assert(effective_c0.value() == fused_constant(m, rc, r as int));
            partial_round_c0.push(effective_c0);
            acc_c1 = mds[1][1].mul(&c1).add(&mds[1][2].mul(&c2));
            acc_c2 = mds[2][1].mul(&c1).add(&mds[2][2].mul(&c2));
            r += 1;
        }
        let c = Self { mds, full_round_constants, partial_round_c0 };
        proof {
            assert(c.full_values() =~= full_constants_of(rc));
            assert(c.partial_values() =~= fused_schedule(m, rc));
        }
        c
    }

    /// Derives the fused set from the standard schedule and the matrix.
    ///
    /// The set is what stored programs and the hash run on. That it
    /// permutes as the textbook schedule does is owed only where fusion is
    /// exact on the standard schedule; nothing here says that it is.
    pub fn compute() -> (c: Self)
        ensures
            c.is_standard(),
            fusion_exact(standard_mds(), standard_schedule()) ==> forall|s: Triple|
                #[trigger] standard_permutation(s) == permute(
                    standard_mds(),
                    standard_schedule(),
                    s,
                ),
    {
        let schedule = get_schedule();
        let c = Self::fuse(get_mds_fp(), schedule.as_slice());
        proof {
            assert(full_constants_of(standard_schedule()) =~= standard_full_constants());
            if fusion_exact(standard_mds(), standard_schedule()) {
                assert forall|s: Triple|
                    #[trigger] standard_permutation(s) == permute(
                        standard_mds(),
                        standard_schedule(),
                        s,
                    ) by {
                    law_fusion_equivalence(standard_mds(), standard_schedule(), s);
                }
            }
        }
        c
    }

    /// The permutation on this constant set: full rounds with the dense
    /// mix, fused partial rounds with the sparse mix. Where the set was
    /// fused from a schedule on which fusion is exact, and the matrix has a
    /// unit block, the result is that of the textbook permutation on that
    /// schedule.
    pub fn permute(&self, state: [Fp; 3]) -> (r: [Fp; 3])
        requires
            self.wf(),
        ensures
            triple_of(r) == permute_fused(
                mat_of(self.mds),
                self.full_values(),
                self.partial_values(),
                triple_of(state),
            ),
            forall|rc: Seq<Triple>|
                rc.len() == 64 && self.fuses(mat_of(self.mds), rc) && has_unit_block(
                    mat_of(self.mds),
                ) && fusion_exact(mat_of(self.mds), rc) ==> triple_of(r) == #[trigger] permute(
                    mat_of(self.mds),
                    rc,
                    triple_of(state),
                ),
    {
        proof {
            assert forall|rc: Seq<Triple>|
                rc.len() == 64 && self.fuses(mat_of(self.mds), rc) && has_unit_block(
                    mat_of(self.mds),
                ) && fusion_exact(mat_of(self.mds), rc) implies permute_fused(
                mat_of(self.mds),
                self.full_values(),
                self.partial_values(),
                triple_of(state),
            ) == #[trigger] permute(mat_of(self.mds), rc, triple_of(state)) by {
                law_fusion_equivalence(mat_of(self.mds), rc, triple_of(state));
            }
        }
        let mut s: [Fp; 3] = state;
        let mut round: usize = 0;
        while round < 64
            invariant
                0 <= round <= 64,
                self.wf(),
                triple_of(s) == permute_fused_rounds(
                    mat_of(self.mds),
                    self.full_values(),
                    self.partial_values(),
                    triple_of(state),
                    round as nat,
                ),
            decreases 64 - round,
        {
            if round < 4 {
                s = apply_full_round(&self.mds, &self.full_round_constants[round], &s);
            } else if round < 60 {
                s = apply_fused_round(&self.mds, &self.partial_round_c0[round - 4], &s);
            } else {
                s = apply_full_round(&self.mds, &self.full_round_constants[round - 56], &s);
            }
            round += 1;
        }
        s
    }

    /// Element `i` in serialized order.
    fn element(&self, i: usize) -> (e: Fp)
        requires
            self.wf(),
            i < 89,
        ensures
            e.value() == self.element_value(i as int),
    {
        if i < 9 {
            self.mds[i / 3][i % 3]
        } else if i < 33 {
            self.full_round_constants[(i - 9) / 3][(i - 9) % 3]
        } else {
            self.partial_round_c0[i - 33]
        }
    }

    /// The 89 constants in canonical encoding, in serialized order: 2,848
    /// bytes.
    pub fn to_witness_bytes(&self) -> (bytes: Vec<u8>)
        requires
            self.wf(),
        ensures
            bytes@ == repr_concat(self.element_values()),
            bytes@.len() == 2848,
    {
        let mut bytes: Vec<u8> = Vec::new();
        let ghost vals = self.element_values();
        let mut i: usize = 0;
        while i < 89
            invariant
                0 <= i <= 89,
                self.wf(),
                vals == self.element_values(),
                bytes@ == repr_concat(vals.take(i as int)),
            decreases 89 - i,
        {
            let e = self.element(i);
            proof {
                assert(vals.take(i + 1).drop_last() =~= vals.take(i as int));
                assert(vals.take(i + 1).last() == e.value());
            }
            bytes.extend_from_slice(e.to_repr().as_slice());
            i += 1;
        }
        proof {
            assert(vals.take(89) =~= vals);
            lemma_repr_concat_len(vals);
        }
        bytes
    }

    /// The constants blob: the modulus, then the 89 constants. 2,880 bytes.
    pub fn to_blob(&self) -> (blob: Vec<u8>)
        requires
            self.wf(),
        ensures
            blob@ == blob_of(self.element_values()),
            blob@.len() == 2880,
    {
        let mut blob: Vec<u8> = Vec::new();
        blob.extend_from_slice(PALLAS_MODULUS_BYTES.as_slice());
        let mut constants = self.to_witness_bytes();
        blob.append(&mut constants);
        blob
    }

    /// The commitment to the set: the SHA-256 digest of its blob.
    pub fn witness_hash(&self) -> (hash: [u8; 32])
        requires
            self.wf(),
        ensures
            hash@ == sha256_digest(blob_of(self.element_values())),
    {
        let blob = self.to_blob();
        sha256(blob.as_slice())
    }

    /// The size of the serialized constants: 89 elements of 32 bytes.
    pub fn witness_size(&self) -> (n: usize)
        ensures
            n == 32 * (9 + 8 * 3 + 56),
            n == 2848,
    {
        288 + 768 + 1792
    }
}

/// The commitment to the standard constant set.
pub fn get_constants_hash() -> (hash: [u8; 32])
    ensures
        hash@ == sha256_digest(standard_blob()),
{
    let c = FusedPoseidonConstants::compute();
    proof {
        c.lemma_standard_elements();
    }
    c.witness_hash()
}

/// The canonical encoding of a field element.
pub fn fp_to_bytes(fp: &Fp) -> (bytes: [u8; 32])
    ensures
        bytes == fp.bytes(),
        bytes@ == canonical_repr(fp.value()),
        is_canonical(bytes@),
{
    fp.to_repr()
}

/// Decodes a 32-byte string: the element it encodes when it is canonical,
/// `None` when it spells the modulus or more.
pub fn bytes_to_fp(bytes: &[u8; 32]) -> (fp: Option<Fp>)
    ensures
        fp is Some <==> is_canonical(bytes@),
        fp is Some ==> fp.unwrap().bytes() == *bytes,
        fp is Some ==> decode_spec(bytes@) == Some(fp.unwrap().value()),
        fp is None ==> decode_spec(bytes@) is None,
{
    Fp::from_repr(bytes)
}

/// The matrix as partial rounds use it: row 0 in full, and the two
/// coefficients of the first state element in rows 1 and 2.
pub struct SparseMdsConstants {
    pub row0: [[u8; 32]; 3],
    pub w1: [u8; 32],
    pub w2: [u8; 32],
}

impl SparseMdsConstants {
    pub fn compute() -> (c: Self)
        ensures
            c.row0[0]@ == u64_repr(3),
            c.row0[1]@ == u64_repr(1),
            c.row0[2]@ == u64_repr(1),
            c.w1@ == u64_repr(1),
            c.w2@ == u64_repr(1),
    {
        let m = get_mds_bytes();
        Self { row0: [m[0][0], m[0][1], m[0][2]], w1: m[1][0], w2: m[2][0] }
    }
}

/// Emits stack code while keeping the bytes written so far.
#[derive(Clone, Debug)]
pub struct OptimizedScriptBuilder {
    script: Vec<u8>,
}

impl View for OptimizedScriptBuilder {
    type V = Seq<u8>;

    closed spec fn view(&self) -> Seq<u8> {
        self.script@
    }
}

impl OptimizedScriptBuilder {
    pub fn new() -> (b: Self)
        ensures
            b@ == Seq::<u8>::empty(),
    {
        Self { script: Vec::new() }
    }

    pub fn build(self) -> (script: Vec<u8>)
        ensures
            script@ == self@,
    {
        self.script
    }

    pub fn size(&self) -> (n: usize)
        ensures
            n == self@.len(),
    {
        self.script.len()
    }

    /// Appends one opcode.
    pub fn op(&mut self, opcode: u8) -> (ret: &mut Self)
        ensures
            ret@ == old(self)@.push(opcode),
            ret@ == old(self)@ + encode(seq![Instr::Op(opcode)]),
            *final(self) == *final(ret),
    {
        proof {
            lemma_encode_one(Instr::Op(opcode));
            assert(old(self)@.push(opcode) =~= old(self)@ + seq![opcode]);
        }
        self.script.push(opcode);
        self
    }

    /// Appends a data push.
    pub fn push_data(&mut self, data: &[u8]) -> (ret: &mut Self)
        ensures
            ret@ == old(self)@ + push_bytes_spec(data@),
            ret@ == old(self)@ + encode(seq![Instr::Data(data@)]),
            *final(self) == *final(ret),
    {
        proof {
            lemma_encode_one(Instr::Data(data@));
        }
        let mut bytes = push_bytes(data);
        self.script.append(&mut bytes);
        self
    }

    pub fn dup(&mut self) -> (ret: &mut Self)
        ensures
            ret@ == old(self)@.push(OP_DUP),
            *final(self) == *final(ret),
    {
        self.op(OP_DUP)
    }

    pub fn drop(&mut self) -> (ret: &mut Self)
        ensures
            ret@ == old(self)@.push(OP_DROP),
            *final(self) == *final(ret),
    {
        self.op(OP_DROP)
    }

    pub fn swap(&mut self) -> (ret: &mut Self)
        ensures
            ret@ == old(self)@.push(OP_SWAP),
            ret@ == old(self)@ + encode(seq![Instr::Op(OP_SWAP)]),
            *final(self) == *final(ret),
    {
        self.op(OP_SWAP)
    }

    pub fn over(&mut self) -> (ret: &mut Self)
        ensures
            ret@ == old(self)@.push(OP_OVER),
            *final(self) == *final(ret),
    {
        self.op(OP_OVER)
    }

    pub fn to_alt(&mut self) -> (ret: &mut Self)
        ensures
            ret@ == old(self)@.push(OP_TOALTSTACK),
            *final(self) == *final(ret),
    {
        self.op(OP_TOALTSTACK)
    }

    pub fn from_alt(&mut self) -> (ret: &mut Self)
        ensures
            ret@ == old(self)@.push(OP_FROMALTSTACK),
            *final(self) == *final(ret),
    {
        self.op(OP_FROMALTSTACK)
    }

    /// Copies the item `n` below the top to the top.
    pub fn pick(&mut self, n: usize) -> (ret: &mut Self)
        requires
            n <= i64::MAX,
        ensures
            ret@ == old(self)@ + encode(prog_pick(n as nat)),
            *final(self) == *final(ret),
    {
        proof {
            lemma_encode_push(seq![num_instr(n as nat)], Instr::Op(OP_PICK));
            lemma_encode_one(num_instr(n as nat));
            assert(prog_pick(n as nat) =~= seq![num_instr(n as nat)].push(Instr::Op(OP_PICK)));
            crate::machine::lemma_num_instr_bytes(n as nat);
        }
        let mut number = push_number(n as i64);
        self.script.append(&mut number);
        self.script.push(OP_PICK);
        assert(self.script@ =~= old(self)@ + encode(prog_pick(n as nat)));
        self
    }

    /// Moves the item `n` below the top to the top.
    pub fn roll(&mut self, n: usize) -> (ret: &mut Self)
        requires
            n <= i64::MAX,
        ensures
            ret@ == old(self)@ + encode(prog_roll(n as nat)),
            *final(self) == *final(ret),
    {
        proof {
            lemma_encode_push(seq![num_instr(n as nat)], Instr::Op(OP_ROLL));
            lemma_encode_one(num_instr(n as nat));
            assert(prog_roll(n as nat) =~= seq![num_instr(n as nat)].push(Instr::Op(OP_ROLL)));
            crate::machine::lemma_num_instr_bytes(n as nat);
        }
        let mut number = push_number(n as i64);
        self.script.append(&mut number);
        self.script.push(OP_ROLL);
        assert(self.script@ =~= old(self)@ + encode(prog_roll(n as nat)));
        self
    }

    pub fn add(&mut self) -> (ret: &mut Self)
        ensures
            ret@ == old(self)@.push(OP_ADD),
            *final(self) == *final(ret),
    {
        self.op(OP_ADD)
    }

    pub fn sub(&mut self) -> (ret: &mut Self)
        ensures
            ret@ == old(self)@.push(OP_SUB),
            *final(self) == *final(ret),
    {
        self.op(OP_SUB)
    }

    pub fn mul(&mut self) -> (ret: &mut Self)
        ensures
            ret@ == old(self)@.push(OP_MUL),
            *final(self) == *final(ret),
    {
        self.op(OP_MUL)
    }

    pub fn modulo(&mut self) -> (ret: &mut Self)
        ensures
            ret@ == old(self)@.push(OP_MOD),
            *final(self) == *final(ret),
    {
        self.op(OP_MOD)
    }

    pub fn equal(&mut self) -> (ret: &mut Self)
        ensures
            ret@ == old(self)@.push(OP_EQUAL),
            *final(self) == *final(ret),
    {
        self.op(OP_EQUAL)
    }

    pub fn equal_verify(&mut self) -> (ret: &mut Self)
        ensures
            ret@ == old(self)@.push(OP_EQUALVERIFY),
            *final(self) == *final(ret),
    {
        self.op(OP_EQUALVERIFY)
    }

    pub fn less_than(&mut self) -> (ret: &mut Self)
        ensures
            ret@ == old(self)@.push(OP_LESSTHAN),
            *final(self) == *final(ret),
    {
        self.op(OP_LESSTHAN)
    }

    pub fn verify(&mut self) -> (ret: &mut Self)
        ensures
            ret@ == old(self)@.push(OP_VERIFY),
            *final(self) == *final(ret),
    {
        self.op(OP_VERIFY)
    }

    /// Multiplies the two top items and reduces the product by the modulus,
    /// which sits `p_depth` below the product.
    pub fn field_mul_pick_p(&mut self, p_depth: usize) -> (ret: &mut Self)
        requires
            p_depth <= i64::MAX,
        ensures
            ret@ == old(self)@ + encode(prog_field_mul(p_depth as nat)),
            combines_top_two(
                prog_field_mul(p_depth as nat),
                p_depth as nat,
                |a: nat, b: nat| field_mul(a, b),
            ),
            *final(self) == *final(ret),
    {
        proof {
            law_field_programs(p_depth as nat);
        }
        self.op(OP_MUL);
        self.pick(p_depth);
        self.op(OP_MOD);
        proof {
            let d = p_depth as nat;
            let o = old(self)@;
            lemma_emit2(o + encode(seq![Instr::Op(OP_MUL)]), prog_pick(d), seq![Instr::Op(OP_MOD)]);
            lemma_emit2(o, seq![Instr::Op(OP_MUL)], prog_pick(d) + seq![Instr::Op(OP_MOD)]);
            assert(prog_field_mul(d) =~= seq![Instr::Op(OP_MUL)] + (prog_pick(d)
                + seq![Instr::Op(OP_MOD)]));
        }
        self
    }

    /// Adds the two top items and reduces the sum by the modulus, which
    /// sits `p_depth` below the sum.
    pub fn field_add_pick_p(&mut self, p_depth: usize) -> (ret: &mut Self)
        requires
            p_depth <= i64::MAX,
        ensures
            ret@ == old(self)@ + encode(prog_field_add(p_depth as nat)),
            combines_top_two(
                prog_field_add(p_depth as nat),
                p_depth as nat,
                |a: nat, b: nat| field_add(a, b),
            ),
            *final(self) == *final(ret),
    {
        proof {
            law_field_programs(p_depth as nat);
        }
        self.op(OP_ADD);
        self.pick(p_depth);
        self.op(OP_MOD);
        proof {
            let d = p_depth as nat;
            let o = old(self)@;
            lemma_emit2(o + encode(seq![Instr::Op(OP_ADD)]), prog_pick(d), seq![Instr::Op(OP_MOD)]);
            lemma_emit2(o, seq![Instr::Op(OP_ADD)], prog_pick(d) + seq![Instr::Op(OP_MOD)]);
            assert(prog_field_add(d) =~= seq![Instr::Op(OP_ADD)] + (prog_pick(d)
                + seq![Instr::Op(OP_MOD)]));
        }
        self
    }

    /// Replaces the top item by its fifth power. `p_depth` is the depth of
    /// the modulus below that item.
    pub fn sbox_p_at(&mut self, p_depth: usize) -> (ret: &mut Self)
        requires
            p_depth + 2 <= i64::MAX,
            p_depth + 2 <= usize::MAX,
        ensures
            ret@ == old(self)@ + encode(prog_sbox(p_depth as nat)),
            maps_top(prog_sbox(p_depth as nat), p_depth as nat, |x: nat| field_pow5(x)),
            *final(self) == *final(ret),
    {
        proof {
            law_field_programs(p_depth as nat);
        }
        let ghost d = p_depth as nat;
        let ghost o = old(self)@;
        self.dup();
        self.dup();
        let ghost o1 = self@;
        self.field_mul_pick_p(p_depth + 1);
        let ghost o2 = self@;
        self.dup();
        self.dup();
        let ghost o3 = self@;
        self.field_mul_pick_p(p_depth + 2);
        let ghost o4 = self@;
        self.roll(2);
        let ghost o5 = self@;
        self.field_mul_pick_p(p_depth + 1);
        let ghost o6 = self@;
        self.swap();
        self.drop();
        proof {
            lemma_encode_ops2(OP_DUP, OP_DUP);
            lemma_encode_ops2(OP_SWAP, OP_DROP);
            assert(o1 =~= o + encode(prog_dup2()));
            assert(o3 =~= o2 + encode(prog_dup2()));
            assert(self@ =~= o6 + encode(prog_swap_drop()));
            let r6 = prog_swap_drop();
            let r5 = prog_field_mul(d + 1) + r6;
            let r4 = prog_roll(2) + r5;
            let r3 = prog_field_mul(d + 2) + r4;
            let r2 = prog_dup2() + r3;
            let r1 = prog_field_mul(d + 1) + r2;
            lemma_emit2(o5, prog_field_mul(d + 1), r6);
            lemma_emit2(o4, prog_roll(2), r5);
            lemma_emit2(o3, prog_field_mul(d + 2), r4);
            lemma_emit2(o2, prog_dup2(), r3);
            lemma_emit2(o1, prog_field_mul(d + 1), r2);
            lemma_emit2(o, prog_dup2(), r1);
        }
        self
    }
}

impl Default for OptimizedScriptBuilder {
    fn default() -> (b: Self)
        ensures
            b@ == Seq::<u8>::empty(),
    {
        Self::new()
    }
}

impl OptimizedScriptBuilder {
    /// Pushes the modulus and then the matrix in row-major order.
    pub fn init_constants(&mut self) -> (ret: &mut Self)
        ensures
            ret@ == old(self)@ + encode(prog_init()),
            *final(self) == *final(ret),
    {
        let mds = get_mds_bytes();
        let ghost o0 = self@;
        self.push_data(PALLAS_MODULUS_BYTES.as_slice());
        assert(prog_init().take(1) =~= seq![Instr::Data(PALLAS_MODULUS_BYTES@)]);
        let mut row: usize = 0;
        while row < 3
            invariant
                0 <= row <= 3,
                mds_bytes_standard(mds),
                self@ == o0 + encode(prog_init().take(1 + 3 * row)),
            decreases 3 - row,
        {
            let mut col: usize = 0;
            while col < 3
                invariant
                    0 <= col <= 3,
                    0 <= row < 3,
                    mds_bytes_standard(mds),
                    self@ == o0 + encode(prog_init().take(1 + 3 * row + col)),
                decreases 3 - col,
            {
                let ghost before = self@;
                let ghost n = 1 + 3 * row + col;
                self.push_data(mds[row][col].as_slice());
                proof {
                    let p = prog_init();
                    assert(p.take(n + 1) =~= p.take(n).push(p[n]));
                    lemma_encode_push(p.take(n), p[n]);
                    lemma_encode_one(p[n]);
                    assert(p[n] == Instr::Data(mds[row as int][col as int]@));
                }
                col += 1;
            }
            row += 1;
        }
        proof {
            assert(prog_init().take(10) =~= prog_init());
        }
        self
    }
}

/// The nine byte strings are the encodings of the matrix entries.
pub open spec fn mds_bytes_standard(m: [[[u8; 32]; 3]; 3]) -> bool {
    &&& m[0][0]@ == crate::field::u64_repr(3)
    &&& m[0][1]@ == crate::field::u64_repr(1)
    &&& m[0][2]@ == crate::field::u64_repr(1)
    &&& m[1][0]@ == crate::field::u64_repr(1)
    &&& m[1][1]@ == crate::field::u64_repr(1)
    &&& m[1][2]@ == crate::field::u64_repr(0)
    &&& m[2][0]@ == crate::field::u64_repr(1)
    &&& m[2][1]@ == crate::field::u64_repr(0)
    &&& m[2][2]@ == crate::field::u64_repr(1)
}

/// The matrix entries in canonical encoding.
pub fn get_mds_bytes() -> (m: [[[u8; 32]; 3]; 3])
    ensures
        mds_bytes_standard(m),
{
    let f = get_mds_fp();
    proof {
        assert forall|i: int, j: int| 0 <= i < 3 && 0 <= j < 3 implies #[trigger] f[i][j].bytes()@
            == crate::field::canonical_repr(f[i][j].value()) by {
            crate::field::lemma_repr_of_value(f[i][j].bytes()@);
        }
    }
    [
        [f[0][0].to_repr(), f[0][1].to_repr(), f[0][2].to_repr()],
        [f[1][0].to_repr(), f[1][1].to_repr(), f[1][2].to_repr()],
        [f[2][0].to_repr(), f[2][1].to_repr(), f[2][2].to_repr()],
    ]
}

/// Where a round generator takes a constant from: written into the program,
/// or fetched from a depth below the state.
pub enum ConstantSource {
    Embedded([u8; 32]),
    Witness(usize),
}

impl ConstantSource {
    /// The reference that the emitted program uses.
    pub open spec fn reference(&self) -> ConstRef {
        match self {
            ConstantSource::Embedded(bytes) => ConstRef::Literal(bytes@),
            ConstantSource::Witness(depth) => ConstRef::Depth(*depth as nat),
        }
    }

    /// A fetched constant lies within the depth that generators handle.
    pub open spec fn in_reach(&self) -> bool {
        match self {
            ConstantSource::Embedded(bytes) => true,
            ConstantSource::Witness(depth) => *depth <= DEPTH_LIMIT,
        }
    }
}

/// Brings a constant to the top.
fn emit_const(b: &mut OptimizedScriptBuilder, c: &ConstantSource)
    requires
        c.in_reach(),
    ensures
        final(b)@ == old(b)@ + encode(prog_const(c.reference())),
{
    match c {
        ConstantSource::Embedded(bytes) => {
            b.push_data(bytes.as_slice());
        },
        ConstantSource::Witness(depth) => {
            b.pick(*depth);
        },
    }
}

/// Drops the three items under the top three.
fn emit_keep_top3(b: &mut OptimizedScriptBuilder)
    ensures
        final(b)@ == old(b)@ + encode(prog_keep_top3()),
{
    b.to_alt();
    b.to_alt();
    b.to_alt();
    b.op(OP_2DROP);
    b.drop();
    b.from_alt();
    b.from_alt();
    b.from_alt();
    proof {
        let bytes = seq![
            OP_TOALTSTACK,
            OP_TOALTSTACK,
            OP_TOALTSTACK,
            OP_2DROP,
            OP_DROP,
            OP_FROMALTSTACK,
            OP_FROMALTSTACK,
            OP_FROMALTSTACK,
        ];
        lemma_encode_ops(bytes);
        assert(prog_keep_top3() =~= ops(bytes));
        assert(b@ =~= old(b)@ + bytes);
    }
}

/// One product of a matrix entry and a state element.
fn emit_term(b: &mut OptimizedScriptBuilder, md: usize, sd: usize, pd: usize)
    requires
        md <= DEPTH_LIMIT,
        sd <= DEPTH_LIMIT,
        pd <= DEPTH_LIMIT,
    ensures
        final(b)@ == old(b)@ + encode(prog_term(md as nat, sd as nat, pd as nat)),
{
    let ghost o0 = b@;
    b.pick(md);
    let ghost o1 = b@;
    b.pick(sd + 1);
    b.field_mul_pick_p(pd + 1);
    proof {
        let r2 = prog_field_mul((pd + 1) as nat);
        let r1 = prog_pick((sd + 1) as nat) + r2;
        lemma_emit2(o1, prog_pick((sd + 1) as nat), r2);
        lemma_emit2(o0, prog_pick(md as nat), r1);
    }
}

/// One row of a matrix-vector product.
fn emit_dot_row(b: &mut OptimizedScriptBuilder, md: usize, sd: usize, pd: usize)
    requires
        1 <= md <= DEPTH_LIMIT,
        1 <= sd <= DEPTH_LIMIT,
        pd < DEPTH_LIMIT,
    ensures
        final(b)@ == old(b)@ + encode(prog_dot_row(md as nat, sd as nat, pd as nat)),
{
    let ghost o0 = b@;
    emit_term(b, md, sd, pd);
    let ghost o1 = b@;
    emit_term(b, md, sd, pd + 1);
    let ghost o2 = b@;
    b.field_add_pick_p(pd + 1);
    let ghost o3 = b@;
    emit_term(b, md - 1, sd - 1, pd + 1);
    b.field_add_pick_p(pd + 1);
    proof {
        let r4 = prog_field_add((pd + 1) as nat);
        let r3 = prog_term((md - 1) as nat, (sd - 1) as nat, (pd + 1) as nat) + r4;
        let r2 = prog_field_add((pd + 1) as nat) + r3;
        let r1 = prog_term(md as nat, sd as nat, (pd + 1) as nat) + r2;
        lemma_emit2(o3, prog_term((md - 1) as nat, (sd - 1) as nat, (pd + 1) as nat), r4);
        lemma_emit2(o2, prog_field_add((pd + 1) as nat), r3);
        lemma_emit2(o1, prog_term(md as nat, sd as nat, (pd + 1) as nat), r2);
        lemma_emit2(o0, prog_term(md as nat, sd as nat, pd as nat), r1);
    }
}

/// One row of the sparse product: one multiplication and one addition.
fn emit_affine_row(b: &mut OptimizedScriptBuilder, md: usize, sd: usize, ad: usize, pd: usize)
    requires
        md <= DEPTH_LIMIT,
        sd <= DEPTH_LIMIT,
        ad <= DEPTH_LIMIT,
        pd <= DEPTH_LIMIT,
    ensures
        final(b)@ == old(b)@ + encode(prog_affine_row(md as nat, sd as nat, ad as nat, pd as nat)),
{
    let ghost o0 = b@;
    emit_term(b, md, sd, pd);
    let ghost o1 = b@;
    b.pick(ad + 1);
    b.field_add_pick_p(pd + 1);
    proof {
        let r2 = prog_field_add((pd + 1) as nat);
        let r1 = prog_pick((ad + 1) as nat) + r2;
        lemma_emit2(o1, prog_pick((ad + 1) as nat), r2);
        lemma_emit2(o0, prog_term(md as nat, sd as nat, pd as nat), r1);
    }
}

/// The dense mix, with the last matrix entry `k` below the state.
fn emit_mix_dense(b: &mut OptimizedScriptBuilder, k: usize)
    requires
        k <= LAYOUT_LIMIT,
    ensures
        final(b)@ == old(b)@ + encode(prog_mix_dense(k as nat)),
{
    let ghost o0 = b@;
    emit_dot_row(b, k + 11, 2, k + 12);
    let ghost o1 = b@;
    emit_dot_row(b, k + 9, 3, k + 13);
    let ghost o2 = b@;
    emit_dot_row(b, k + 7, 4, k + 14);
    emit_keep_top3(b);
    proof {
        let r3 = prog_keep_top3();
        let r2 = prog_dot_row((k + 7) as nat, 4, (k + 14) as nat) + r3;
        let r1 = prog_dot_row((k + 9) as nat, 3, (k + 13) as nat) + r2;
        lemma_emit2(o2, prog_dot_row((k + 7) as nat, 4, (k + 14) as nat), r3);
        lemma_emit2(o1, prog_dot_row((k + 9) as nat, 3, (k + 13) as nat), r2);
        lemma_emit2(o0, prog_dot_row((k + 11) as nat, 2, (k + 12) as nat), r1);
    }
}

/// The sparse mix, with the last matrix entry `k` below the state.
fn emit_mix_sparse(b: &mut OptimizedScriptBuilder, k: usize)
    requires
        k <= LAYOUT_LIMIT,
    ensures
        final(b)@ == old(b)@ + encode(prog_mix_sparse(k as nat)),
{
    let ghost o0 = b@;
    emit_dot_row(b, k + 11, 2, k + 12);
    let ghost o1 = b@;
    emit_affine_row(b, k + 9, 3, 2, k + 13);
    let ghost o2 = b@;
    emit_affine_row(b, k + 7, 4, 2, k + 14);
    emit_keep_top3(b);
    proof {
        let r3 = prog_keep_top3();
        let r2 = prog_affine_row((k + 7) as nat, 4, 2, (k + 14) as nat) + r3;
        let r1 = prog_affine_row((k + 9) as nat, 3, 2, (k + 13) as nat) + r2;
        lemma_emit2(o2, prog_affine_row((k + 7) as nat, 4, 2, (k + 14) as nat), r3);
        lemma_emit2(o1, prog_affine_row((k + 9) as nat, 3, 2, (k + 13) as nat), r2);
        lemma_emit2(o0, prog_dot_row((k + 11) as nat, 2, (k + 12) as nat), r1);
    }
}

/// Adds three constants to the state; the sums end in the order second,
/// third, first.
fn emit_add_constants(
    b: &mut OptimizedScriptBuilder,
    c0: &ConstantSource,
    c1: &ConstantSource,
    c2: &ConstantSource,
    pd: usize,
)
    requires
        c0.in_reach(),
        c1.in_reach(),
        c2.in_reach(),
        pd <= DEPTH_LIMIT,
    ensures
        final(b)@ == old(b)@ + encode(
            prog_add_constants(c0.reference(), c1.reference(), c2.reference(), pd as nat),
        ),
{
    let ghost o0 = b@;
    emit_const(b, c2);
    let ghost o1 = b@;
    b.field_add_pick_p(pd);
    let ghost o2 = b@;
    b.swap();
    let ghost o3 = b@;
    emit_const(b, c1);
    let ghost o4 = b@;
    b.field_add_pick_p(pd);
    let ghost o5 = b@;
    b.swap();
    let ghost o6 = b@;
    b.roll(2);
    let ghost o7 = b@;
    emit_const(b, c0);
    b.field_add_pick_p(pd);
    proof {
        let r8 = prog_field_add(pd as nat);
        let r7 = prog_const(c0.reference()) + r8;
        let r6 = prog_roll(2) + r7;
        let r5 = seq![Instr::Op(OP_SWAP)] + r6;
        let r4 = prog_field_add(pd as nat) + r5;
        let r3 = prog_const(c1.reference()) + r4;
        let r2 = seq![Instr::Op(OP_SWAP)] + r3;
        let r1 = prog_field_add(pd as nat) + r2;
        lemma_emit2(o7, prog_const(c0.reference()), r8);
        lemma_emit2(o6, prog_roll(2), r7);
        lemma_emit2(o5, seq![Instr::Op(OP_SWAP)], r6);
        lemma_emit2(o4, prog_field_add(pd as nat), r5);
        lemma_emit2(o3, prog_const(c1.reference()), r4);
        lemma_emit2(o2, seq![Instr::Op(OP_SWAP)], r3);
        lemma_emit2(o1, prog_field_add(pd as nat), r2);
        lemma_emit2(o0, prog_const(c2.reference()), r1);
    }
}

/// One full round: constants, fifth power on every element, dense mix.
fn emit_full_round(
    b: &mut OptimizedScriptBuilder,
    k: usize,
    c0: &ConstantSource,
    c1: &ConstantSource,
    c2: &ConstantSource,
)
    requires
        c0.in_reach(),
        c1.in_reach(),
        c2.in_reach(),
        k <= LAYOUT_LIMIT,
    ensures
        final(b)@ == old(b)@ + encode(
            prog_full_round(k as nat, c0.reference(), c1.reference(), c2.reference()),
        ),
{
    let ghost o0 = b@;
    emit_add_constants(b, c0, c1, c2, k + 12);
    let ghost o1 = b@;
    b.sbox_p_at(k + 12);
    let ghost o2 = b@;
    b.roll(2);
    let ghost o3 = b@;
    b.sbox_p_at(k + 12);
    let ghost o4 = b@;
    b.roll(2);
    let ghost o5 = b@;
    b.sbox_p_at(k + 12);
    emit_mix_dense(b, k);
    proof {
        let r6 = prog_mix_dense(k as nat);
        let r5 = prog_sbox((k + 12) as nat) + r6;
        let r4 = prog_roll(2) + r5;
        let r3 = prog_sbox((k + 12) as nat) + r4;
        let r2 = prog_roll(2) + r3;
        let r1 = prog_sbox((k + 12) as nat) + r2;
        lemma_emit2(o5, prog_sbox((k + 12) as nat), r6);
        lemma_emit2(o4, prog_roll(2), r5);
        lemma_emit2(o3, prog_sbox((k + 12) as nat), r4);
        lemma_emit2(o2, prog_roll(2), r3);
        lemma_emit2(o1, prog_sbox((k + 12) as nat), r2);
        let added = prog_add_constants(
            c0.reference(),
            c1.reference(),
            c2.reference(),
            (k + 12) as nat,
        );
        lemma_emit2(o0, added, r1);
    }
}

/// One fused partial round: one constant on the first element, fifth
/// power on it, sparse mix.
fn emit_fused_round(b: &mut OptimizedScriptBuilder, k: usize, c0: &ConstantSource)
    requires
        c0.in_reach(),
        k <= LAYOUT_LIMIT,
    ensures
        final(b)@ == old(b)@ + encode(prog_fused_round(k as nat, c0.reference())),
{
    let ghost o0 = b@;
    b.roll(2);
    let ghost o1 = b@;
    emit_const(b, c0);
    let ghost o2 = b@;
    b.field_add_pick_p(k + 12);
    let ghost o3 = b@;
    b.sbox_p_at(k + 12);
    let ghost o4 = b@;
    b.roll(2);
    let ghost o5 = b@;
    b.roll(2);
    emit_mix_sparse(b, k);
    proof {
        let r6 = prog_mix_sparse(k as nat);
        let r5 = prog_roll(2) + r6;
        let r4 = prog_roll(2) + r5;
        let r3 = prog_sbox((k + 12) as nat) + r4;
        let r2 = prog_field_add((k + 12) as nat) + r3;
        let r1 = prog_const(c0.reference()) + r2;
        lemma_emit2(o5, prog_roll(2), r6);
        lemma_emit2(o4, prog_roll(2), r5);
        lemma_emit2(o3, prog_sbox((k + 12) as nat), r4);
        lemma_emit2(o2, prog_field_add((k + 12) as nat), r3);
        lemma_emit2(o1, prog_const(c0.reference()), r2);
        lemma_emit2(o0, prog_roll(2), r1);
    }
}

/// The dense mix for the embedded layout: the matrix ends right below the
/// state.
pub fn generate_dense_mds(b: &mut OptimizedScriptBuilder)
    ensures
        final(b)@ == old(b)@ + encode(prog_mix_dense(0)),
        program_maps_state(
            prog_mix_dense(0),
            |base: Seq<int>| params_at(base, 0, standard_mds()),
            |v: Triple| mix_dense(standard_mds(), v),
        ),
{
    proof {
        law_mix_programs(0, standard_mds());
    }
    emit_mix_dense(b, 0);
}

/// The sparse mix for the embedded layout.
pub fn generate_sparse_mds(b: &mut OptimizedScriptBuilder)
    ensures
        final(b)@ == old(b)@ + encode(prog_mix_sparse(0)),
        program_maps_state(
            prog_mix_sparse(0),
            |base: Seq<int>| params_at(base, 0, standard_mds()),
            |v: Triple| mix_sparse(standard_mds(), v),
        ),
{
    proof {
        law_mix_programs(0, standard_mds());
    }
    emit_mix_sparse(b, 0);
}

/// The dense mix for the witness layout: 80 round constants lie between
/// the matrix and the state.
pub fn generate_witness_mds(b: &mut OptimizedScriptBuilder)
    ensures
        final(b)@ == old(b)@ + encode(prog_mix_dense(80)),
        program_maps_state(
            prog_mix_dense(80),
            |base: Seq<int>| params_at(base, 80, standard_mds()),
            |v: Triple| mix_dense(standard_mds(), v),
        ),
{
    proof {
        law_mix_programs(80, standard_mds());
    }
    emit_mix_dense(b, 80);
}

/// The sparse mix for the witness layout.
pub fn generate_witness_sparse_mds(b: &mut OptimizedScriptBuilder)
    ensures
        final(b)@ == old(b)@ + encode(prog_mix_sparse(80)),
        program_maps_state(
            prog_mix_sparse(80),
            |base: Seq<int>| params_at(base, 80, standard_mds()),
            |v: Triple| mix_sparse(standard_mds(), v),
        ),
{
    proof {
        law_mix_programs(80, standard_mds());
    }
    emit_mix_sparse(b, 80);
}

/// A full round with the constants of round `round` written into it.
pub fn generate_full_round_opt(round: usize) -> (script: Vec<u8>)
    requires
        round < 64,
    ensures
        script@ == encode(
            prog_full_round(
                0,
                embedded_constant(round as nat, 0),
                embedded_constant(round as nat, 1),
                embedded_constant(round as nat, 2),
            ),
        ),
        script@.len() == 283,
        maps_state(
            script@,
            |b: Seq<int>| embedded_layout(b),
            |s: Triple| full_round(standard_mds(), round_constants(round as nat), s),
        ),
{
    let mut b = OptimizedScriptBuilder::new();
    let c0 = ConstantSource::Embedded(get_round_constant(round, 0).to_repr());
    let c1 = ConstantSource::Embedded(get_round_constant(round, 1).to_repr());
    let c2 = ConstantSource::Embedded(get_round_constant(round, 2).to_repr());
    proof {
        lemma_shape_rounds(0, c0.reference(), c1.reference(), c2.reference());
        law_full_round_embedded(round as nat);
    }
    emit_full_round(&mut b, 0, &c0, &c1, &c2);
    assert(b@ =~= encode(prog_full_round(0, c0.reference(), c1.reference(), c2.reference())));
    b.build()
}

/// The fused constant of round `round` of the standard schedule: the
/// round's first constant plus row 0 of the matrix applied to what the
/// round before left pending; nothing is pending up to round 4.
pub fn fused_round_constant(round: usize) -> (c: Fp)
    requires
        round < 64,
    ensures
        c.value() == fused_constant(standard_mds(), standard_schedule(), round as int),
{
    let mds = get_mds_fp();
    let c0 = get_round_constant(round, 0);
    let ghost rc = standard_schedule();
    assert(rc[round as int] == round_constants(round as nat));
    if round <= 4 {
        let zero = Fp::zero();
        c0.add(&mds[0][1].mul(&zero)).add(&mds[0][2].mul(&zero))
    } else {
        let c1 = get_round_constant(round - 1, 1);
        let c2 = get_round_constant(round - 1, 2);
        assert(rc[round - 1] == round_constants((round - 1) as nat));
        let acc_c1 = mds[1][1].mul(&c1).add(&mds[1][2].mul(&c2));
        let acc_c2 = mds[2][1].mul(&c1).add(&mds[2][2].mul(&c2));
        c0.add(&mds[0][1].mul(&acc_c1)).add(&mds[0][2].mul(&acc_c2))
    }
}

/// A partial round with the fused constant of round `round` written into
/// it: the one constant is added to the first element, the fifth power is
/// taken of that element alone, and the mix is the sparse one.
pub fn generate_partial_round_opt(round: usize) -> (script: Vec<u8>)
    requires
        round < 64,
    ensures
        script@ == encode(prog_fused_round(0, embedded_fused_constant(round as nat))),
        script@.len() == 131,
        maps_state(
            script@,
            |b: Seq<int>| embedded_layout(b),
            |s: Triple|
                fused_round(
                    standard_mds(),
                    fused_constant(standard_mds(), standard_schedule(), round as int),
                    s,
                ),
        ),
{
    let mut b = OptimizedScriptBuilder::new();
    let c0 = ConstantSource::Embedded(fused_round_constant(round).to_repr());
    proof {
        lemma_shape_rounds(0, c0.reference(), c0.reference(), c0.reference());
        law_partial_round_embedded(round as nat);
    }
    emit_fused_round(&mut b, 0, &c0);
    assert(b@ =~= encode(prog_fused_round(0, c0.reference())));
    b.build()
}

/// The 64 rounds with embedded constants.
fn embedded_rounds() -> (script: Vec<u8>)
    ensures
        script@ == encode(prog_rounds_embedded(64)),
{
    let mut script: Vec<u8> = Vec::new();
    assert(script@ =~= encode(prog_rounds_embedded(0)));
    let mut round: usize = 0;
    while round < 64
        invariant
            0 <= round <= 64,
            script@ == encode(prog_rounds_embedded(round as nat)),
        decreases 64 - round,
    {
        let mut code = if round < 4 || round >= 60 {
            generate_full_round_opt(round)
        } else {
            generate_partial_round_opt(round)
        };
        proof {
            lemma_encode_concat(
                prog_rounds_embedded(round as nat),
                prog_round_embedded(round as nat),
            );
        }
        script.append(&mut code);
        round += 1;
    }
    script
}

/// The start of the embedded permutation: the constants are pushed and the
/// state is raised above them.
fn embedded_start() -> (script: Vec<u8>)
    ensures
        script@ == encode(prog_init() + prog_raise_state()),
{
    let mut b = OptimizedScriptBuilder::new();
    b.init_constants();
    let ghost o1 = b@;
    b.roll(12);
    let ghost o2 = b@;
    b.roll(12);
    b.roll(12);
    proof {
        lemma_emit2(o2, prog_roll(12), prog_roll(12));
        lemma_emit2(o1, prog_roll(12), prog_roll(12) + prog_roll(12));
        lemma_emit2(Seq::<u8>::empty(), prog_init(), prog_raise_state());
        assert(o1 =~= Seq::<u8>::empty() + encode(prog_init()));
    }
    b.build()
}

/// The whole permutation with embedded constants.
pub fn generate_poseidon_script_opt() -> (script: Vec<u8>)
    ensures
        script@ == encode(prog_poseidon_embedded()),
        script@.len() == 9936,
        permutes_state(script@),
{
    proof {
        lemma_shape_poseidon_embedded();
        law_poseidon_script();
    }
    let mut script = embedded_start();
    let mut rounds = embedded_rounds();
    script.append(&mut rounds);
    proof {
        let head = prog_init() + prog_raise_state();
        lemma_encode_concat(head, prog_rounds_embedded(64));
        assert(head + prog_rounds_embedded(64) =~= prog_poseidon_embedded());
    }
    script
}

/// A full round that fetches the constants of round `round` from the
/// constant set on the stack.
pub fn generate_witness_full_round(round: usize) -> (script: Vec<u8>)
    requires
        round < 4 || 60 <= round < 64,
    ensures
        script@ == encode(prog_round_witness(round as nat)),
        maps_state(
            script@,
            |b: Seq<int>| witness_layout(b),
            |s: Triple| fused_schedule_round(round as nat, s),
        ),
{
    proof {
        law_round_witness(round as nat);
    }
    let mut b = OptimizedScriptBuilder::new();
    let slot: usize = if round < 4 {
        round
    } else {
        round - 56
    };
    let c0 = ConstantSource::Witness(82 - 3 * slot);
    let c1 = ConstantSource::Witness(81 - 3 * slot);
    let c2 = ConstantSource::Witness(80 - 3 * slot);
    emit_full_round(&mut b, 80, &c0, &c1, &c2);
    assert(b@ =~= encode(prog_full_round(80, c0.reference(), c1.reference(), c2.reference())));
    b.build()
}

/// A fused partial round that fetches its one constant from the constant
/// set on the stack.
pub fn generate_witness_partial_round(round: usize) -> (script: Vec<u8>)
    requires
        4 <= round < 60,
    ensures
        script@ == encode(prog_round_witness(round as nat)),
        maps_state(
            script@,
            |b: Seq<int>| witness_layout(b),
            |s: Triple| fused_schedule_round(round as nat, s),
        ),
{
    proof {
        law_round_witness(round as nat);
    }
    let mut b = OptimizedScriptBuilder::new();
    let c0 = ConstantSource::Witness(62 - round);
    emit_fused_round(&mut b, 80, &c0);
    assert(b@ =~= encode(prog_fused_round(80, c0.reference())));
    b.build()
}

/// The 64 rounds over the constant set on the stack.
pub fn generate_witness_poseidon_logic() -> (script: Vec<u8>)
    ensures
        script@ == encode(prog_rounds_witness(64)),
        script@.len() == 8482,
        maps_state(
            script@,
            |b: Seq<int>| witness_layout(b),
            |s: Triple|
                permute_fused(
                    standard_mds(),
                    standard_full_constants(),
                    standard_fused_constants(),
                    s,
                ),
        ),
{
    proof {
        lemma_shape_round_sequences(64);
        law_witness_script();
    }
    let mut script: Vec<u8> = Vec::new();
    assert(script@ =~= encode(prog_rounds_witness(0)));
    let mut round: usize = 0;
    while round < 64
        invariant
            0 <= round <= 64,
            script@ == encode(prog_rounds_witness(round as nat)),
        decreases 64 - round,
    {
        let mut code = if round < 4 || round >= 60 {
            generate_witness_full_round(round)
        } else {
            generate_witness_partial_round(round)
        };
        proof {
            lemma_encode_concat(
                prog_rounds_witness(round as nat),
                prog_round_witness(round as nat),
            );
        }
        script.append(&mut code);
        round += 1;
    }
    script
}

/// `n` times: push the number 32, split.
pub open spec fn split_ops(n: nat) -> Seq<u8>
    decreases n,
{
    if n == 0 {
        Seq::<u8>::empty()
    } else {
        split_ops((n - 1) as nat) + seq![0x01u8, 0x20u8, OP_SPLIT]
    }
}

pub proof fn lemma_split_ops_len(n: nat)
    ensures
        split_ops(n).len() == 3 * n,
    decreases n,
{
    if n > 0 {
        lemma_split_ops_len((n - 1) as nat);
    }
}

/// The stored program of the witness pattern for a constant set with the
/// commitment `hash`. It finds the blob, the state and the expected output
/// on the stack; it sets state and expected output aside, checks the digest
/// of a copy of the blob against the commitment, so that the blob itself
/// stays on the stack, cuts the blob into its 90 elements, runs the 64
/// rounds over them and compares the first output element with the
/// expected one. The two are compared as numbers: the machine writes what
/// it computes in the shortest encoding, the expected output arrives in 32
/// bytes. What follows the cutting is the output check, which is proved to
/// accept exactly the expected output that the permutation gives; what the
/// machine does with the whole program, digest comparison and cutting
/// included, is stated by `law_witness_locking_script`.
pub open spec fn witness_locking_script(hash: Seq<u8>) -> Seq<u8> {
    seq![
        OP_TOALTSTACK,
        OP_TOALTSTACK,
        OP_TOALTSTACK,
        OP_TOALTSTACK,
        OP_DUP,
        OP_SHA256,
    ] + push_bytes_spec(hash) + seq![OP_EQUALVERIFY] + split_ops(89) + encode(
        prog_output_check(),
    )
}

/// Cuts the item on top into `n + 1` items of 32 bytes each, the last one
/// taking what is left.
fn emit_splits(script: &mut Vec<u8>, n: usize)
    ensures
        final(script)@ == old(script)@ + split_ops(n as nat),
{
    let ghost head = script@;
    let mut i: usize = 0;
    assert(script@ =~= head + split_ops(0));
    while i < n
        invariant
            0 <= i <= n,
            script@ == head + split_ops(i as nat),
        decreases n - i,
    {
        let mut number = push_number(32);
        proof {
            reveal_with_fuel(crate::opcodes::le_digits, 3);
            assert(crate::opcodes::le_digits(32) =~= seq![0x20u8]);
            assert(number@ =~= seq![0x01u8, 0x20u8]);
        }
        script.append(&mut number);
        script.push(OP_SPLIT);
        i += 1;
        assert(script@ =~= head + split_ops(i as nat));
    }
}

/// The start of the stored program: state and expected output go aside and
/// the blob's digest is held against the commitment.
fn emit_commitment_check(script: &mut Vec<u8>, hash: &[u8; 32])
    ensures
        final(script)@ == old(script)@ + seq![
            OP_TOALTSTACK,
            OP_TOALTSTACK,
            OP_TOALTSTACK,
            OP_TOALTSTACK,
            OP_DUP,
            OP_SHA256,
        ] + push_bytes_spec(hash@) + seq![OP_EQUALVERIFY],
{
    script.push(OP_TOALTSTACK);
    script.push(OP_TOALTSTACK);
    script.push(OP_TOALTSTACK);
    script.push(OP_TOALTSTACK);
    script.push(OP_DUP);
    script.push(OP_SHA256);
    assert(script@ =~= old(script)@ + seq![
        OP_TOALTSTACK,
        OP_TOALTSTACK,
        OP_TOALTSTACK,
        OP_TOALTSTACK,
        OP_DUP,
        OP_SHA256,
    ]);
    let mut commitment = push_bytes(hash.as_slice());
    script.append(&mut commitment);
    script.push(OP_EQUALVERIFY);
}

/// The stored program of the witness pattern, committed to the standard
/// constant set.
pub fn generate_witness_locking_script() -> (script: Vec<u8>)
    ensures
        script@ == witness_locking_script(sha256_digest(standard_blob())),
        script@.len() == 8796,
{
    let mut script: Vec<u8> = Vec::new();
    let constants_hash = get_constants_hash();
    emit_commitment_check(&mut script, &constants_hash);
    emit_splits(&mut script, 89);
    let ghost head = script@;
    script.push(OP_FROMALTSTACK);
    script.push(OP_FROMALTSTACK);
    script.push(OP_FROMALTSTACK);
    assert(script@ =~= head + seq![OP_FROMALTSTACK, OP_FROMALTSTACK, OP_FROMALTSTACK]);
    let mut logic = generate_witness_poseidon_logic();
    script.append(&mut logic);
    let ghost body = script@;
    script.push(OP_DROP);
    script.push(OP_DROP);
    script.push(OP_FROMALTSTACK);
    script.push(OP_NUMEQUALVERIFY);
    proof {
        assert(script@ =~= body + seq![OP_DROP, OP_DROP, OP_FROMALTSTACK, OP_NUMEQUALVERIFY]);
        lemma_split_ops_len(89);
        lemma_output_check_bytes();
        let tail = seq![OP_FROMALTSTACK, OP_FROMALTSTACK, OP_FROMALTSTACK] + encode(
            prog_rounds_witness(64),
        ) + seq![OP_DROP, OP_DROP, OP_FROMALTSTACK, OP_NUMEQUALVERIFY];
        assert(script@ =~= head + tail);
    }
    script
}

/// What the unlocking side supplies: the blob, the three state elements and
/// the expected output, each as one push.
pub open spec fn witness_unlocking_script(blob: Seq<u8>, state: Triple, expected: nat) -> Seq<u8> {
    push_bytes_spec(blob) + push_bytes_spec(canonical_repr(state.x0)) + push_bytes_spec(
        canonical_repr(state.x1),
    ) + push_bytes_spec(canonical_repr(state.x2)) + push_bytes_spec(canonical_repr(expected))
}

/// The unlocking script for the standard constant set.
///
/// The constants go in as one item, the blob, and not as 90 pushes: the
/// stored program has to hash them as one byte string before it may use
/// them, and it cuts the checked blob into its items itself. So what is
/// hashed is what the rounds then index.
pub fn generate_witness_unlocking_script(state: [Fp; 3], expected: Fp) -> (script: Vec<u8>)
    ensures
        script@ == witness_unlocking_script(standard_blob(), triple_of(state), expected.value()),
        script@.len() == 3015,
{
    let fused = FusedPoseidonConstants::compute();
    proof {
        fused.lemma_standard_elements();
    }
    let blob = fused.to_blob();
    let mut script = push_bytes(blob.as_slice());
    let mut s0 = push_bytes(fp_to_bytes(&state[0]).as_slice());
    let mut s1 = push_bytes(fp_to_bytes(&state[1]).as_slice());
    let mut s2 = push_bytes(fp_to_bytes(&state[2]).as_slice());
    let mut e = push_bytes(fp_to_bytes(&expected).as_slice());
    script.append(&mut s0);
    script.append(&mut s1);
    script.append(&mut s2);
    script.append(&mut e);
    script
}

/// The size of the embedded start: the modulus and the nine matrix entries.
pub fn estimate_init_size() -> (n: usize)
    ensures
        n == encode(prog_init()).len(),
        n == 330,
{
    proof {
        lemma_shape_init();
    }
    let mut b = OptimizedScriptBuilder::new();
    b.init_constants();
    assert(b@ =~= encode(prog_init()));
    b.build().len()
}

/// The size of one fifth power in the embedded layout.
pub fn estimate_sbox_size() -> (n: usize)
    ensures
        n == encode(prog_sbox(12)).len(),
        n == 20,
{
    proof {
        lemma_shape_sbox(12);
    }
    let mut b = OptimizedScriptBuilder::new();
    b.sbox_p_at(12);
    assert(b@ =~= encode(prog_sbox(12)));
    b.build().len()
}

/// The size of one full round with embedded constants.
pub fn estimate_full_round_size() -> (n: usize)
    ensures
        n == 283,
{
    generate_full_round_opt(0).len()
}

/// The size of one partial round with embedded constants.
pub fn estimate_partial_round_size() -> (n: usize)
    ensures
        n == 131,
{
    generate_partial_round_opt(4).len()
}

/// The size of the whole permutation with embedded constants: the start,
/// the three fetches that raise the state, eight full and 56 partial
/// rounds.
pub fn estimate_poseidon_size() -> (n: usize)
    ensures
        n == encode(prog_poseidon_embedded()).len(),
        n == 9936,
{
    proof {
        lemma_shape_poseidon_embedded();
    }
    let init = estimate_init_size();
    let full = estimate_full_round_size();
    let partial = estimate_partial_round_size();
    init + 6 + (8 * full) + (56 * partial)
}

/// The size of the stored program of the witness pattern.
pub fn estimate_witness_lock_size() -> (n: usize)
    ensures
        n == witness_locking_script(sha256_digest(standard_blob())).len(),
        n == 8796,
{
    generate_witness_locking_script().len()
}

/// The size of the unlocking script, whatever state and expected output it
/// carries: one push of the 2,880-byte blob and four pushes of one element
/// each.
pub fn estimate_witness_unlock_size() -> (n: usize)
    ensures
        n == 3015,
        forall|state: Triple, expected: nat|
            #[trigger] witness_unlocking_script(standard_blob(), state, expected).len() == n,
{
    proof {
        lemma_repr_concat_len(standard_elements());
    }
    let blob_push: usize = 3 + 2880;
    let state_and_expected: usize = 4;
    blob_push + state_and_expected * 33
}

/// The check that the top item is below the modulus.
pub fn generate_canonical_check() -> (script: Vec<u8>)
    ensures
        script@ == encode(prog_canonical_check()),
        script@.len() == 36,
        checks_canonical(script@),
{
    proof {
        law_canonical_check_script();
    }
    let mut b = OptimizedScriptBuilder::new();
    b.dup();
    b.push_data(PALLAS_MODULUS_BYTES.as_slice());
    b.less_than();
    b.verify();
    proof {
        let p = prog_canonical_check();
        let d = Instr::Data(PALLAS_MODULUS_BYTES@);
        let one = seq![Instr::Op(OP_DUP)];
        let two = one.push(d);
        let three = two.push(Instr::Op(OP_LESSTHAN));
        lemma_encode_one(Instr::Op(OP_DUP));
        lemma_encode_one(d);
        lemma_encode_push(one, d);
        lemma_encode_push(two, Instr::Op(OP_LESSTHAN));
        lemma_encode_push(three, Instr::Op(OP_VERIFY));
        assert(p =~= three.push(Instr::Op(OP_VERIFY)));
        assert(b@ =~= encode(p));
    }
    b.build()
}

/// The canonical check on the top item, then the stored program of the
/// witness pattern.
pub fn generate_secure_witness_verification() -> (script: Vec<u8>)
    ensures
        script@ == encode(prog_canonical_check()) + witness_locking_script(
            sha256_digest(standard_blob()),
        ),
        script@.len() == 8832,
{
    let mut script = generate_canonical_check();
    let mut rest = generate_witness_locking_script();
    script.append(&mut rest);
    script
}

} // verus!
