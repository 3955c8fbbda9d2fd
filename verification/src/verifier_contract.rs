//! The accumulator, the step witness and the contract that chains one
//! verified step to the next.

use vstd::prelude::*;
use crate::field::{canonical_repr, is_canonical, le_value, Fp};
use crate::field_programs::prog_canonical_check;
use crate::field_script::{
    fp_to_bytes, generate_secure_witness_verification, get_constants_hash, standard_blob,
    witness_locking_script, FusedPoseidonConstants,
};
use crate::hashing::sha256_digest;
use crate::machine::{encode, run_all, Machine};
use crate::opcodes::{
    push_bytes, push_bytes_spec, OP_1SUB, OP_CAT, OP_DEPTH, OP_FROMALTSTACK, OP_ROLL, OP_SPLIT,
    OP_TOALTSTACK,
};
use crate::poseidon::{hash3, PoseidonHash, Triple};
use crate::script_laws::{blob_items, law_output_check, prog_output_check};
use crate::tail::{pay_to_key_hash, EcdsaTail, Tail};
use crate::transcript::{absorb_sequence, read_field, transcript_digest, FieldElement};

verus! {

/// The four bytes of a counter, least significant first.
pub open spec fn u32_le(v: u32) -> Seq<u8> {
    seq![
        (v % 256) as u8,
        ((v / 256) % 256) as u8,
        ((v / 65536) % 256) as u8,
        (v / 16777216) as u8,
    ]
}

/// The counter that four bytes spell, least significant first.
pub open spec fn u32_from_le(b: Seq<u8>) -> int {
    b[0] + 256 * b[1] + 65536 * b[2] + 16777216 * b[3]
}

/// The pushes of a list of field-sized strings, one after the other.
pub open spec fn push_all(elems: Seq<FieldElement>) -> Seq<u8>
    decreases elems.len(),
{
    if elems.len() == 0 {
        Seq::<u8>::empty()
    } else {
        push_all(elems.drop_last()) + push_bytes_spec(elems.last()@)
    }
}

/// Every push of a field-sized string takes 33 bytes.
pub proof fn lemma_push_all_len(elems: Seq<FieldElement>)
    ensures
        push_all(elems).len() == 33 * elems.len(),
    decreases elems.len(),
{
    if elems.len() > 0 {
        lemma_push_all_len(elems.drop_last());
    }
}

/// The state that one contract instance carries from step to step.
#[derive(Debug, Clone, Copy, PartialEq, Eq)]
pub struct IPAAccumulator {
    /// The digest of the transcript so far.
    pub transcript_hash: FieldElement,
    /// The root of the application state.
    pub app_state_root: FieldElement,
    /// The number of steps taken.
    pub step: u32,
}

impl IPAAccumulator {
    /// Both field values are canonical encodings.
    pub open spec fn wf(&self) -> bool {
        is_canonical(self.transcript_hash@) && is_canonical(self.app_state_root@)
    }

    /// The 68-byte record: digest, root, counter.
    pub open spec fn record(&self) -> Seq<u8> {
        self.transcript_hash@ + self.app_state_root@ + u32_le(self.step)
    }

    /// The commitment to the state: the three-input hash of digest, root
    /// and counter.
    pub open spec fn commitment(&self) -> nat {
        hash3(le_value(self.transcript_hash@), le_value(self.app_state_root@), self.step as nat)
    }

    /// A fresh accumulator: zero digest, step 0.
    pub fn new(app_state_root: FieldElement) -> (acc: Self)
        ensures
            acc.app_state_root == app_state_root,
            acc.step == 0,
            forall|i: int| 0 <= i < 32 ==> acc.transcript_hash[i] == 0,
    {
        Self { transcript_hash: [0u8; 32], app_state_root, step: 0 }
    }

    /// Whether both field values are canonical encodings.
    pub fn is_valid(&self) -> (ok: bool)
        ensures
            ok == self.wf(),
    {
        Fp::from_repr(&self.transcript_hash).is_some() && Fp::from_repr(
            &self.app_state_root,
        ).is_some()
    }

    /// The record as it is stored on chain.
    pub fn to_script_bytes(&self) -> (bytes: Vec<u8>)
        ensures
            bytes@ == self.record(),
            bytes@.len() == 68,
    {
        let mut bytes: Vec<u8> = Vec::new();
        bytes.extend_from_slice(self.transcript_hash.as_slice());
        bytes.extend_from_slice(self.app_state_root.as_slice());
        let v: u32 = self.step;
        bytes.push((v % 256) as u8);
        bytes.push(((v / 256) % 256) as u8);
        bytes.push(((v / 65536) % 256) as u8);
        bytes.push((v / 16777216) as u8);
        assert(bytes@ =~= self.record());
        bytes
    }

    /// The commitment to the state; `None` when a field value is not
    /// canonical.
    pub fn hash(&self) -> (h: Option<Fp>)
        ensures
            h is Some <==> self.wf(),
            h is Some ==> h.unwrap().value() == self.commitment(),
    {
        let transcript = match Fp::from_repr(&self.transcript_hash) {
            Some(x) => x,
            None => {
                return None;
            },
        };
        let app_root = match Fp::from_repr(&self.app_state_root) {
            Some(x) => x,
            None => {
                return None;
            },
        };
        let step_fp = Fp::from_u64(self.step as u64);
        Some(PoseidonHash::hash_3(transcript, app_root, step_fp))
    }

    /// Reads a record; `None` when fewer than 68 bytes are given.
    pub fn from_bytes(bytes: &[u8]) -> (acc: Option<Self>)
        ensures
            acc is Some <==> bytes@.len() >= 68,
            acc is Some ==> {
                &&& acc.unwrap().transcript_hash@ == bytes@.subrange(0, 32)
                &&& acc.unwrap().app_state_root@ == bytes@.subrange(32, 64)
                &&& acc.unwrap().step == u32_from_le(bytes@.subrange(64, 68))
            },
    {
        if bytes.len() < 68 {
            return None;
        }
        let transcript_hash = read_field(bytes, 0);
        let app_state_root = read_field(bytes, 32);
        let b0: u32 = bytes[64] as u32;
        let b1: u32 = bytes[65] as u32;
        let b2: u32 = bytes[66] as u32;
        let b3: u32 = bytes[67] as u32;
        let step: u32 = b0 + 256 * b1 + 65536 * b2 + 16777216 * b3;
        Some(Self { transcript_hash, app_state_root, step })
    }

    /// Reading a record that was written gives the accumulator back.
    pub proof fn lemma_record_round_trip(self)
        ensures
            self.record().len() == 68,
            self.record().subrange(0, 32) == self.transcript_hash@,
            self.record().subrange(32, 64) == self.app_state_root@,
            u32_from_le(self.record().subrange(64, 68)) == self.step,
    {
        let r = self.record();
        assert(r.subrange(0, 32) =~= self.transcript_hash@);
        assert(r.subrange(32, 64) =~= self.app_state_root@);
        assert(r.subrange(64, 68) =~= u32_le(self.step));
    }
}

/// The proof data of one step.
#[derive(Debug, Clone)]
pub struct IPAStepWitness {
    /// Public inputs, in the order they are absorbed.
    pub public_inputs: Vec<FieldElement>,
    /// The left cross-terms, each a pair of coordinates.
    pub l_terms: Vec<[FieldElement; 2]>,
    /// The right cross-terms.
    pub r_terms: Vec<[FieldElement; 2]>,
    /// The final reduced scalar.
    pub a_scalar: FieldElement,
    /// The second final scalar, where the argument has one.
    pub b_scalar: Option<FieldElement>,
    /// The new application state, where the step changes it.
    pub new_app_state: Option<FieldElement>,
    /// The digest that the transcript is claimed to reach.
    pub next_transcript_hash: FieldElement,
}

/// The coordinates of paired cross-terms in absorption order: for each
/// round both coordinates of the left term, then both of the right one.
/// Terms beyond the shorter list have no partner and are left out.
pub open spec fn interleaved(l: Seq<[FieldElement; 2]>, r: Seq<[FieldElement; 2]>) -> Seq<
    FieldElement,
> {
    let n = if l.len() <= r.len() {
        l.len()
    } else {
        r.len()
    };
    Seq::new(
        4 * n,
        |i: int|
            if i % 4 == 0 {
                l[i / 4][0]
            } else if i % 4 == 1 {
                l[i / 4][1]
            } else if i % 4 == 2 {
                r[i / 4][0]
            } else {
                r[i / 4][1]
            },
    )
}

/// An optional element as a list of none or one.
pub open spec fn optional(e: Option<FieldElement>) -> Seq<FieldElement> {
    match e {
        Some(x) => seq![x],
        None => Seq::<FieldElement>::empty(),
    }
}

impl IPAStepWitness {
    /// What a step absorbs after the previous digest, in order: the public
    /// inputs, the cross-term coordinates, the final scalars.
    pub open spec fn absorbed(&self) -> Seq<FieldElement> {
        self.public_inputs@ + interleaved(self.l_terms@, self.r_terms@) + seq![self.a_scalar]
            + optional(self.b_scalar)
    }

    /// The fields of the witness as they are submitted: what it absorbs,
    /// the new application state where there is one, the claimed digest.
    pub open spec fn fields(&self) -> Seq<FieldElement> {
        self.absorbed() + optional(self.new_app_state) + seq![self.next_transcript_hash]
    }

    /// The digest that the step reaches from `prev`; none when any
    /// absorbed value is not canonical.
    pub open spec fn digest(&self, prev: FieldElement) -> Option<nat> {
        transcript_digest(prev, self.absorbed())
    }

    /// The step is accepted from `prev`: every absorbed value is canonical
    /// and the claimed digest is the canonical encoding of the recomputed
    /// one.
    pub open spec fn accepts(&self, prev: FieldElement) -> bool {
        &&& self.digest(prev) is Some
        &&& is_canonical(self.next_transcript_hash@)
        &&& le_value(self.next_transcript_hash@) == self.digest(prev).unwrap()
    }

    /// A witness that absorbs nothing but a zero scalar.
    pub fn new_minimal(next_transcript: FieldElement) -> (w: Self)
        ensures
            w.public_inputs@.len() == 0,
            w.l_terms@.len() == 0,
            w.r_terms@.len() == 0,
            forall|i: int| 0 <= i < 32 ==> w.a_scalar[i] == 0,
            w.b_scalar is None,
            w.new_app_state is None,
            w.next_transcript_hash == next_transcript,
    {
        Self {
            public_inputs: Vec::new(),
            l_terms: Vec::new(),
            r_terms: Vec::new(),
            a_scalar: [0u8; 32],
            b_scalar: None,
            new_app_state: None,
            next_transcript_hash: next_transcript,
        }
    }

    /// The absorbed values in order.
    pub fn absorbed_elements(&self) -> (elems: Vec<FieldElement>)
        ensures
            elems@ == self.absorbed(),
    {
        let mut elems: Vec<FieldElement> = Vec::new();
        let mut i: usize = 0;
        while i < self.public_inputs.len()
            invariant
                0 <= i <= self.public_inputs.len(),
                elems@ == self.public_inputs@.take(i as int),
            decreases self.public_inputs.len() - i,
        {
            elems.push(self.public_inputs[i]);
            i += 1;
            assert(elems@ =~= self.public_inputs@.take(i as int));
        }
        assert(self.public_inputs@.take(i as int) =~= self.public_inputs@);
        let n: usize = if self.l_terms.len() <= self.r_terms.len() {
            self.l_terms.len()
        } else {
            self.r_terms.len()
        };
        let ghost lr = interleaved(self.l_terms@, self.r_terms@);
        let mut k: usize = 0;
        while k < n
            invariant
                0 <= k <= n,
                n <= self.l_terms.len(),
                n <= self.r_terms.len(),
                lr == interleaved(self.l_terms@, self.r_terms@),
                lr.len() == 4 * n,
                elems@ == self.public_inputs@ + lr.take(4 * k),
            decreases n - k,
        {
            let l = self.l_terms[k];
            let r = self.r_terms[k];
            elems.push(l[0]);
            elems.push(l[1]);
            elems.push(r[0]);
            elems.push(r[1]);
            k += 1;
            assert(elems@ =~= self.public_inputs@ + lr.take(4 * k));
        }
        assert(lr.take(4 * n) =~= lr);
        elems.push(self.a_scalar);
        match self.b_scalar {
            Some(b) => {
                elems.push(b);
            },
            None => {},
        }
        assert(elems@ =~= self.absorbed());
        elems
    }

    /// The fields of the witness as they are submitted.
    pub fn field_list(&self) -> (fields: Vec<FieldElement>)
        ensures
            fields@ == self.fields(),
    {
        let mut fields = self.absorbed_elements();
        match self.new_app_state {
            Some(root) => {
                fields.push(root);
            },
            None => {},
        }
        fields.push(self.next_transcript_hash);
        assert(fields@ =~= self.fields());
        fields
    }

    /// Recomputes the digest that the step reaches from `prev_transcript`;
    /// `None` when the previous digest or an absorbed value is not
    /// canonical.
    pub fn compute_transcript_hash(&self, prev_transcript: &FieldElement) -> (h: Option<Fp>)
        ensures
            h is Some <==> self.digest(*prev_transcript) is Some,
            h is Some ==> Some(h.unwrap().value()) == self.digest(*prev_transcript),
    {
        let elems = self.absorbed_elements();
        absorb_sequence(prev_transcript, elems.as_slice())
    }

    /// Whether the step is accepted from `prev_transcript`.
    pub fn verify(&self, prev_transcript: &FieldElement) -> (ok: bool)
        ensures
            ok == self.accepts(*prev_transcript),
    {
        let computed = match self.compute_transcript_hash(prev_transcript) {
            Some(h) => h,
            None => {
                return false;
            },
        };
        match Fp::from_repr(&self.next_transcript_hash) {
            Some(expected) => {
                proof {
                    computed.lemma_eq_by_value(expected);
                }
                computed == expected
            },
            None => false,
        }
    }

    /// The size of the serialized witness.
    pub fn size(&self) -> (n: usize)
        requires
            self.serialized_len() <= usize::MAX,
        ensures
            n == self.serialized_len(),
    {
        let mut size: usize = 0;
        size += self.public_inputs.len() * 32;
        size += self.l_terms.len() * 64;
        size += self.r_terms.len() * 64;
        size += 32;
        if self.b_scalar.is_some() {
            size += 32;
        }
        if self.new_app_state.is_some() {
            size += 32;
        }
        size += 32;
        size
    }

    /// 32 bytes per public input, 64 per cross-term, 32 per scalar present,
    /// 32 for an application state present, 32 for the claimed digest.
    pub open spec fn serialized_len(&self) -> int {
        self.public_inputs@.len() * 32 + self.l_terms@.len() * 64 + self.r_terms@.len() * 64 + 32
            + (if self.b_scalar is Some {
            32int
        } else {
            0int
        }) + (if self.new_app_state is Some {
            32int
        } else {
            0int
        }) + 32
    }
}

/// Why a step or a contract is refused.
#[derive(Debug, Clone, Copy, PartialEq, Eq)]
pub enum VerifierError {
    /// The recomputed digest differs from the claimed one.
    InvalidTranscript,
    InvalidSignature,
    /// The accumulator holds a value that is not a canonical encoding.
    InvalidState,
    /// The step counter cannot be advanced.
    StepMismatch,
    /// The witness holds a value that is not a canonical encoding.
    NonCanonical,
}

/// What a step does to an accumulator: the refusal, or the accumulator
/// that supersedes it.
pub open spec fn transition(acc: IPAAccumulator, w: IPAStepWitness) -> Result<
    IPAAccumulator,
    VerifierError,
> {
    if w.digest(acc.transcript_hash) is None || !is_canonical(w.next_transcript_hash@) || (
    w.new_app_state is Some && !is_canonical(w.new_app_state.unwrap()@)) {
        Err(VerifierError::NonCanonical)
    } else if le_value(w.next_transcript_hash@) != w.digest(acc.transcript_hash).unwrap() {
        Err(VerifierError::InvalidTranscript)
    } else if acc.step == u32::MAX {
        Err(VerifierError::StepMismatch)
    } else {
        Ok(
            IPAAccumulator {
                transcript_hash: w.next_transcript_hash,
                app_state_root: match w.new_app_state {
                    Some(root) => root,
                    None => acc.app_state_root,
                },
                step: (acc.step + 1) as u32,
            },
        )
    }
}

/// Cuts the 68-byte record on top of the stack into transcript digest,
/// application root and step counter, and puts a zero byte onto the four
/// bytes of the counter, so that the machine reads them as a number without
/// sign.
pub open spec fn open_record_script() -> Seq<u8> {
    seq![0x01u8, 0x20u8, OP_SPLIT, 0x01u8, 0x20u8, OP_SPLIT, 0x01u8, 0x00u8, OP_CAT]
}

/// Brings the item at the bottom of the stack to the top, however many
/// items lie above it.
pub open spec fn raise_bottom_script() -> Seq<u8> {
    seq![OP_DEPTH, OP_1SUB, OP_ROLL]
}

/// The start of the contract's stored program: signature and key aside,
/// blob and record raised from the bottom, the record opened.
pub open spec fn contract_start_script() -> Seq<u8> {
    seq![OP_TOALTSTACK, OP_TOALTSTACK] + raise_bottom_script() + raise_bottom_script()
        + open_record_script()
}

/// Appends the start of the contract's stored program.
fn emit_contract_start(script: &mut Vec<u8>)
    ensures
        final(script)@ == old(script)@ + contract_start_script(),
{
    script.push(OP_TOALTSTACK);
    script.push(OP_TOALTSTACK);
    script.push(OP_DEPTH);
    script.push(OP_1SUB);
    script.push(OP_ROLL);
    script.push(OP_DEPTH);
    script.push(OP_1SUB);
    script.push(OP_ROLL);
    script.push(0x01);
    script.push(0x20);
    script.push(OP_SPLIT);
    script.push(0x01);
    script.push(0x20);
    script.push(OP_SPLIT);
    script.push(0x01);
    script.push(0x00);
    script.push(OP_CAT);
    assert(script@ =~= old(script)@ + contract_start_script());
}

/// The stored program of a contract. It finds on the stack what the spender
/// pushed onto the empty stack: the constants blob at the bottom, the
/// record of the current accumulator above it, then the fields of the
/// witness, however many, then the signature and the operator's public key
/// on top.
///
/// 1. Key and signature go aside.
/// 2. The blob and then the record are brought up from the bottom, past
///    the witness fields, which are published and stay where they are.
/// 3. The record is cut into its three values, which are the state that
///    the permutation will run on.
/// 4. The state commitment is pushed as the expected output.
/// 5. The witness verification follows: the expected output is checked to
///    be canonical; state and expected output go aside; the digest of the
///    blob is held against `constants_hash`, which is pushed right there;
///    the blob is cut into its 90 items; the state comes back and the 64
///    rounds run over the items; the first output element is held against
///    the expected output. So the record is accepted only if it hashes to
///    the commitment under the constants that are committed to.
/// 6. Signature and key come back and are checked against the operator's
///    key hash.
///
/// What the machine does with these bytes, up to the signature check, is
/// stated by `law_contract_locking_script`.
pub open spec fn contract_locking_script(
    constants_hash: Seq<u8>,
    state_hash: Seq<u8>,
    operator_pkh: Seq<u8>,
) -> Seq<u8> {
    seq![OP_TOALTSTACK, OP_TOALTSTACK] + raise_bottom_script() + raise_bottom_script()
        + open_record_script() + push_bytes_spec(state_hash) + (encode(prog_canonical_check())
        + witness_locking_script(constants_hash)) + seq![OP_FROMALTSTACK, OP_FROMALTSTACK]
        + pay_to_key_hash(operator_pkh)
}

/// What the spender of a contract supplies before signature and key, one
/// push each: the blob, the record of the current accumulator, then the
/// fields of the witness in serialized order.
pub open spec fn contract_unlocking_script(blob: Seq<u8>, record: Seq<u8>, w: IPAStepWitness) -> Seq<
    u8,
> {
    push_bytes_spec(blob) + push_bytes_spec(record) + push_all(w.fields())
}

/// A contract instance: the operator, the current accumulator and the
/// constant set it is committed to.
#[derive(Debug)]
pub struct VerifierContract {
    pub operator_pkh: [u8; 20],
    pub current_state: IPAAccumulator,
    pub constants: FusedPoseidonConstants,
    pub constants_hash: [u8; 32],
}

impl VerifierContract {
    /// The accumulator is canonical, the constant set is the standard one
    /// and the commitment is the digest of its blob.
    pub open spec fn wf(&self) -> bool {
        &&& self.current_state.wf()
        &&& self.constants.is_standard()
        &&& self.constants_hash@ == sha256_digest(standard_blob())
    }

    /// A contract on `initial_state`; refused with `InvalidState` when the
    /// accumulator holds a value that is not canonical.
    pub fn new(operator_pkh: [u8; 20], initial_state: IPAAccumulator) -> (r: Result<
        Self,
        VerifierError,
    >)
        ensures
            r is Ok <==> initial_state.wf(),
            r is Ok ==> {
                &&& r.unwrap().wf()
                &&& r.unwrap().operator_pkh == operator_pkh
                &&& r.unwrap().current_state == initial_state
            },
            r is Err ==> r.unwrap_err() == VerifierError::InvalidState,
    {
        if !initial_state.is_valid() {
            return Err(VerifierError::InvalidState);
        }
        let constants = FusedPoseidonConstants::compute();
        let constants_hash = get_constants_hash();
        Ok(Self { operator_pkh, current_state: initial_state, constants, constants_hash })
    }

    /// A contract on an accumulator that exists already.
    pub fn with_state(operator_pkh: [u8; 20], state: IPAAccumulator) -> (r: Result<
        Self,
        VerifierError,
    >)
        ensures
            r is Ok <==> state.wf(),
            r is Ok ==> {
                &&& r.unwrap().wf()
                &&& r.unwrap().operator_pkh == operator_pkh
                &&& r.unwrap().current_state == state
            },
            r is Err ==> r.unwrap_err() == VerifierError::InvalidState,
    {
        Self::new(operator_pkh, state)
    }

    /// The stored program: it accepts the record of the current accumulator
    /// under the committed constants and the operator's signature.
    pub fn locking_script(&self) -> (script: Vec<u8>)
        requires
            self.wf(),
        ensures
            script@ == contract_locking_script(
                self.constants_hash@,
                canonical_repr(self.current_state.commitment()),
                self.operator_pkh@,
            ),
            script@.len() == 8909,
    {
        let mut script: Vec<u8> = Vec::new();
        emit_contract_start(&mut script);
        let ghost start = script@;
        assert(start =~= contract_start_script());
        let state_hash = match self.current_state.hash() {
            Some(x) => fp_to_bytes(&x),
            None => vstd::pervasive::unreached(),
        };
        let mut expected = push_bytes(state_hash.as_slice());
        script.append(&mut expected);
        let mut verification = generate_secure_witness_verification();
        script.append(&mut verification);
        let ghost body = script@;
        assert(body == start + push_bytes_spec(canonical_repr(self.current_state.commitment()))
            + (encode(prog_canonical_check()) + witness_locking_script(self.constants_hash@)));
        script.push(OP_FROMALTSTACK);
        script.push(OP_FROMALTSTACK);
        assert(script@ =~= body + seq![OP_FROMALTSTACK, OP_FROMALTSTACK]);
        let tail = EcdsaTail::from_pubkey_hash(&self.operator_pkh);
        let mut signature_check = Tail::locking_script(&tail);
        script.append(&mut signature_check);
        assert(script@ =~= contract_locking_script(
            self.constants_hash@,
            canonical_repr(self.current_state.commitment()),
            self.operator_pkh@,
        ));
        script
    }

    /// What the spender supplies before signature and key.
    pub fn unlocking_script(&self, witness: &IPAStepWitness) -> (script: Vec<u8>)
        requires
            self.wf(),
        ensures
            script@ == contract_unlocking_script(
                standard_blob(),
                self.current_state.record(),
                *witness,
            ),
            script@.len() == 2952 + 33 * witness.fields().len(),
    {
        proof {
            self.constants.lemma_standard_elements();
            lemma_push_all_len(witness.fields());
        }
        let blob = self.constants.to_blob();
        let mut script = push_bytes(blob.as_slice());
        let mut record = push_bytes(self.current_state.to_script_bytes().as_slice());
        script.append(&mut record);
        let ghost head = script@;
        let elems = witness.field_list();
        let mut i: usize = 0;
        assert(script@ =~= head + push_all(elems@.take(0)));
        while i < elems.len()
            invariant
                0 <= i <= elems.len(),
                script@ == head + push_all(elems@.take(i as int)),
            decreases elems.len() - i,
        {
            let mut p = push_bytes(elems[i].as_slice());
            proof {
                assert(elems@.take(i + 1).drop_last() =~= elems@.take(i as int));
            }
            script.append(&mut p);
            i += 1;
        }
        assert(elems@.take(i as int) =~= elems@);
        script
    }

    /// Applies one step: the contract on the superseding accumulator, or
    /// the refusal. Nothing changes on a refusal.
    pub fn apply_transition(&self, witness: &IPAStepWitness) -> (r: Result<Self, VerifierError>)
        requires
            self.wf(),
        ensures
            r is Ok <==> transition(self.current_state, *witness) is Ok,
            r is Ok ==> {
                &&& r.unwrap().wf()
                &&& r.unwrap().operator_pkh == self.operator_pkh
                &&& r.unwrap().constants_hash == self.constants_hash
                &&& Ok::<IPAAccumulator, VerifierError>(r.unwrap().current_state) == transition(
                    self.current_state,
                    *witness,
                )
            },
            r is Err ==> Err::<IPAAccumulator, VerifierError>(r.unwrap_err()) == transition(
                self.current_state,
                *witness,
            ),
    {
        let computed = match witness.compute_transcript_hash(&self.current_state.transcript_hash) {
            Some(h) => h,
            None => {
                return Err(VerifierError::NonCanonical);
            },
        };
        let expected = match Fp::from_repr(&witness.next_transcript_hash) {
            Some(x) => x,
            None => {
                return Err(VerifierError::NonCanonical);
            },
        };
        let app_state_root = match witness.new_app_state {
            Some(root) => {
                if Fp::from_repr(&root).is_none() {
                    return Err(VerifierError::NonCanonical);
                }
                root
            },
            None => self.current_state.app_state_root,
        };
        proof {
            computed.lemma_eq_by_value(expected);
        }
        if !(computed == expected) {
            return Err(VerifierError::InvalidTranscript);
        }
        if self.current_state.step == u32::MAX {
            return Err(VerifierError::StepMismatch);
        }
        let new_state = IPAAccumulator {
            transcript_hash: witness.next_transcript_hash,
            app_state_root,
            step: self.current_state.step + 1,
        };
        Ok(
            Self {
                operator_pkh: self.operator_pkh,
                current_state: new_state,
                constants: FusedPoseidonConstants::compute(),
                constants_hash: self.constants_hash,
            },
        )
    }

    /// The size of the stored program.
    pub fn locking_script_size(&self) -> (n: usize)
        requires
            self.wf(),
        ensures
            n == 8909,
    {
        self.locking_script().len()
    }

    /// The size of what the spender supplies for `witness`.
    pub fn unlocking_script_size(&self, witness: &IPAStepWitness) -> (n: usize)
        requires
            self.wf(),
        ensures
            n == contract_unlocking_script(
                standard_blob(),
                self.current_state.record(),
                *witness,
            ).len(),
            n == 2952 + 33 * witness.fields().len(),
    {
        self.unlocking_script(witness).len()
    }
}

/// An output that carries a contract.
#[derive(Clone, Debug)]
pub struct ContractOutput {
    /// The value in the smallest unit.
    pub value: u64,
    /// The stored program.
    pub script_pubkey: Vec<u8>,
    /// The accumulator that the program commits to.
    pub state: IPAAccumulator,
}

impl ContractOutput {
    pub fn new(contract: &VerifierContract, value: u64) -> (out: Self)
        requires
            contract.wf(),
        ensures
            out.value == value,
            out.state == contract.current_state,
            out.script_pubkey@ == contract_locking_script(
                contract.constants_hash@,
                canonical_repr(contract.current_state.commitment()),
                contract.operator_pkh@,
            ),
            out.script_pubkey@.len() == 8909,
    {
        Self { value, script_pubkey: contract.locking_script(), state: contract.current_state }
    }

    /// The output that carries `new_state`; refused with `InvalidState`
    /// when that accumulator holds a value that is not canonical.
    pub fn next_output(&self, new_state: IPAAccumulator, operator_pkh: [u8; 20], value: u64) -> (r:
        Result<Self, VerifierError>)
        ensures
            r is Ok <==> new_state.wf(),
            r is Ok ==> {
                &&& r.unwrap().value == value
                &&& r.unwrap().state == new_state
                &&& r.unwrap().script_pubkey@ == contract_locking_script(
                    sha256_digest(standard_blob()),
                    canonical_repr(new_state.commitment()),
                    operator_pkh@,
                )
                &&& r.unwrap().script_pubkey@.len() == 8909
            },
            r is Err ==> r.unwrap_err() == VerifierError::InvalidState,
    {
        match VerifierContract::with_state(operator_pkh, new_state) {
            Ok(contract) => Ok(Self::new(&contract, value)),
            Err(e) => Err(e),
        }
    }
}

/// Builds the spending of a contract output.
#[derive(Debug)]
pub struct ContractTransactionBuilder {
    /// The output that is spent.
    pub input: ContractOutput,
    /// The witness of the step.
    pub witness: IPAStepWitness,
    /// The operator's signature.
    pub operator_signature: Vec<u8>,
    /// The operator's public key.
    pub operator_pubkey: Vec<u8>,
    /// The operator's key hash, for the next output.
    pub operator_pkh: [u8; 20],
}

impl ContractTransactionBuilder {
    pub fn new(input: ContractOutput, witness: IPAStepWitness, operator_pkh: [u8; 20]) -> (b: Self)
        ensures
            b.input == input,
            b.witness == witness,
            b.operator_pkh == operator_pkh,
            b.operator_signature@.len() == 0,
            b.operator_pubkey@.len() == 0,
    {
        Self {
            input,
            witness,
            operator_signature: Vec::new(),
            operator_pubkey: Vec::new(),
            operator_pkh,
        }
    }

    pub fn with_signature(self, sig: Vec<u8>, pubkey: Vec<u8>) -> (b: Self)
        ensures
            b.input == self.input,
            b.witness == self.witness,
            b.operator_pkh == self.operator_pkh,
            b.operator_signature == sig,
            b.operator_pubkey == pubkey,
    {
        let mut b = self;
        b.operator_signature = sig;
        b.operator_pubkey = pubkey;
        b
    }

    /// The accumulator that the step leads to, as the witness claims it.
    pub open spec fn claimed_state(&self) -> IPAAccumulator {
        IPAAccumulator {
            transcript_hash: self.witness.next_transcript_hash,
            app_state_root: match self.witness.new_app_state {
                Some(root) => root,
                None => self.input.state.app_state_root,
            },
            step: (self.input.state.step + 1) as u32,
        }
    }

    /// The whole unlocking script: what the contract asks for, then the
    /// signature and the public key. Refused with `InvalidState` when the
    /// spent accumulator holds a value that is not canonical.
    pub fn build_unlocking_script(&self) -> (r: Result<Vec<u8>, VerifierError>)
        ensures
            r is Ok <==> self.input.state.wf(),
            r is Ok ==> r.unwrap()@ == contract_unlocking_script(
                standard_blob(),
                self.input.state.record(),
                self.witness,
            ) + push_bytes_spec(self.operator_signature@) + push_bytes_spec(
                self.operator_pubkey@,
            ),
            r is Ok ==> r.unwrap()@.len() == 2952 + 33 * self.witness.fields().len()
                + push_bytes_spec(self.operator_signature@).len() + push_bytes_spec(
                self.operator_pubkey@,
            ).len(),
            r is Err ==> r.unwrap_err() == VerifierError::InvalidState,
    {
        let contract = match VerifierContract::with_state(self.operator_pkh, self.input.state) {
            Ok(c) => c,
            Err(e) => {
                return Err(e);
            },
        };
        let mut script = contract.unlocking_script(&self.witness);
        let mut sig = push_bytes(self.operator_signature.as_slice());
        let mut key = push_bytes(self.operator_pubkey.as_slice());
        script.append(&mut sig);
        script.append(&mut key);
        Ok(script)
    }

    /// The output for the accumulator that the witness claims. Refused with
    /// `StepMismatch` when the counter cannot be advanced, with
    /// `InvalidState` when the claimed accumulator holds a value that is
    /// not canonical.
    pub fn build_output(&self, value: u64) -> (r: Result<ContractOutput, VerifierError>)
        ensures
            r is Ok <==> self.input.state.step < u32::MAX && self.claimed_state().wf(),
            r is Ok ==> {
                &&& r.unwrap().value == value
                &&& r.unwrap().state == self.claimed_state()
                &&& r.unwrap().script_pubkey@ == contract_locking_script(
                    sha256_digest(standard_blob()),
                    canonical_repr(self.claimed_state().commitment()),
                    self.operator_pkh@,
                )
                &&& r.unwrap().script_pubkey@.len() == 8909
            },
            r is Err ==> r.unwrap_err() == if self.input.state.step == u32::MAX {
                VerifierError::StepMismatch
            } else {
                VerifierError::InvalidState
            },
    {
        if self.input.state.step == u32::MAX {
            return Err(VerifierError::StepMismatch);
        }
        let new_state = IPAAccumulator {
            transcript_hash: self.witness.next_transcript_hash,
            app_state_root: match self.witness.new_app_state {
                Some(root) => root,
                None => self.input.state.app_state_root,
            },
            step: self.input.state.step + 1,
        };
        self.input.next_output(new_state, self.operator_pkh, value)
    }

    /// The size of the spending transaction: version, counts and lock time,
    /// the input with its 40 bytes of outpoint and sequence, the output
    /// with its 8 bytes of value. Refused as the two scripts are.
    pub fn estimate_tx_size(&self) -> (r: Result<usize, VerifierError>)
        requires
            33 * self.witness.fields().len() + self.operator_signature@.len()
                + self.operator_pubkey@.len() + 12000 <= usize::MAX,
        ensures
            r is Ok <==> self.input.state.wf() && self.input.state.step < u32::MAX
                && self.claimed_state().wf(),
            r is Ok ==> r.unwrap() == 33 * self.witness.fields().len() + push_bytes_spec(
                self.operator_signature@,
            ).len() + push_bytes_spec(self.operator_pubkey@).len() + 11919,
    {
        let unlocking = match self.build_unlocking_script() {
            Ok(s) => s,
            Err(e) => {
                return Err(e);
            },
        };
        let output = match self.build_output(0) {
            Ok(o) => o,
            Err(e) => {
                return Err(e);
            },
        };
        proof {
            crate::opcodes::lemma_push_bytes_len(self.operator_signature@);
            crate::opcodes::lemma_push_bytes_len(self.operator_pubkey@);
        }
        let unlocking_len: usize = unlocking.len();
        let output_len: usize = output.script_pubkey.len();
        assert(output_len == 8909);
        let input_size: usize = unlocking_len + 40;
        let output_size: usize = output_len + 8;
        Ok(4 + 1 + input_size + 1 + output_size + 4)
    }
}

/// The sizes of a contract and of a typical step.
#[derive(Debug)]
pub struct ContractSizeReport {
    pub locking_script: usize,
    pub constants_blob: usize,
    pub typical_unlocking: usize,
    pub witness_data: usize,
}

/// Every byte of the string is zero.
pub open spec fn is_zero(e: FieldElement) -> bool {
    forall|j: int| 0 <= j < 32 ==> e[j] == 0
}

/// The zero string is canonical.
pub proof fn lemma_zero_canonical(e: FieldElement)
    requires
        is_zero(e),
    ensures
        is_canonical(e@),
        le_value(e@) == 0,
{
    crate::field::lemma_le_value_32(e@);
}

/// A list of `n` zero elements.
pub(crate) fn zero_elements(n: usize) -> (v: Vec<FieldElement>)
    ensures
        v@.len() == n,
        forall|i: int| 0 <= i < n ==> is_zero(#[trigger] v@[i]),
{
    let mut v: Vec<FieldElement> = Vec::new();
    let mut i: usize = 0;
    while i < n
        invariant
            0 <= i <= n,
            v@.len() == i,
            forall|k: int| 0 <= k < i ==> is_zero(#[trigger] v@[k]),
        decreases n - i,
    {
        v.push([0u8; 32]);
        i += 1;
    }
    v
}

/// A list of `n` cross-terms with zero coordinates.
pub(crate) fn zero_terms(n: usize) -> (v: Vec<[FieldElement; 2]>)
    ensures
        v@.len() == n,
        forall|i: int| 0 <= i < n ==> is_zero((#[trigger] v@[i])[0]) && is_zero(v@[i][1]),
{
    let mut v: Vec<[FieldElement; 2]> = Vec::new();
    let mut i: usize = 0;
    while i < n
        invariant
            0 <= i <= n,
            v@.len() == i,
            forall|k: int| 0 <= k < i ==> is_zero((#[trigger] v@[k])[0]) && is_zero(v@[k][1]),
        decreases n - i,
    {
        v.push([[0u8; 32], [0u8; 32]]);
        i += 1;
    }
    v
}

/// The sizes of a contract on a fresh accumulator and of a typical step
/// with two public inputs, ten rounds and both optional values.
pub fn analyze_contract_sizes() -> (report: ContractSizeReport)
    ensures
        report.locking_script == 8909,
        report.constants_blob == 2848,
        report.typical_unlocking == 4470,
        report.witness_data == 1472,
{
    let operator_pkh = [0u8; 20];
    let initial_state = IPAAccumulator::new([1u8; 32]);
    proof {
        crate::poseidon::lemma_cleared_is_canonical(initial_state.transcript_hash@);
        crate::poseidon::lemma_cleared_is_canonical(initial_state.app_state_root@);
    }
    let typical_witness = IPAStepWitness {
        public_inputs: zero_elements(2),
        l_terms: zero_terms(10),
        r_terms: zero_terms(10),
        a_scalar: [0u8; 32],
        b_scalar: Some([0u8; 32]),
        new_app_state: Some([0u8; 32]),
        next_transcript_hash: [0u8; 32],
    };
    assert(typical_witness.absorbed().len() == 44);
    assert(typical_witness.fields().len() == 46);
    match VerifierContract::new(operator_pkh, initial_state) {
        Ok(contract) => {
            ContractSizeReport {
                locking_script: contract.locking_script_size(),
                constants_blob: contract.constants.witness_size(),
                typical_unlocking: contract.unlocking_script_size(&typical_witness),
                witness_data: typical_witness.size(),
            }
        },
        Err(_) => vstd::pervasive::unreached(),
    }
}

/// What a chain of steps does to an accumulator: the refusal of the first
/// step that is refused, or the last accumulator.
pub open spec fn run_chain(acc: IPAAccumulator, ws: Seq<IPAStepWitness>) -> Result<
    IPAAccumulator,
    VerifierError,
>
    decreases ws.len(),
{
    if ws.len() == 0 {
        Ok(acc)
    } else {
        match run_chain(acc, ws.drop_last()) {
            Ok(mid) => transition(mid, ws.last()),
            Err(e) => Err(e),
        }
    }
}

/// A chain of accepted steps advances the counter by its length, ends on
/// the digest that its last witness claims, and keeps the accumulator
/// canonical.
pub proof fn law_accumulator_chaining(acc: IPAAccumulator, ws: Seq<IPAStepWitness>)
    requires
        acc.wf(),
        run_chain(acc, ws) is Ok,
    ensures
        run_chain(acc, ws).unwrap().step == acc.step + ws.len(),
        run_chain(acc, ws).unwrap().wf(),
        ws.len() > 0 ==> run_chain(acc, ws).unwrap().transcript_hash
            == ws.last().next_transcript_hash,
        ws.len() > 0 ==> run_chain(acc, ws.drop_last()) is Ok && ws.last().accepts(
            run_chain(acc, ws.drop_last()).unwrap().transcript_hash,
        ),
    decreases ws.len(),
{
    if ws.len() > 0 {
        law_accumulator_chaining(acc, ws.drop_last());
    }
}

/// A step that absorbs a value which is not a canonical encoding, be it a
/// public input, a coordinate or a final scalar, is not accepted and is
/// refused as such, whatever digest it claims.
pub proof fn law_canonical_rejection(acc: IPAAccumulator, w: IPAStepWitness, i: int)
    requires
        0 <= i < w.absorbed().len(),
        !is_canonical(w.absorbed()[i]@),
    ensures
        w.digest(acc.transcript_hash) is None,
        !w.accepts(acc.transcript_hash),
        transition(acc, w) == Err::<IPAAccumulator, VerifierError>(VerifierError::NonCanonical),
{
}

/// The final scalars are among what a step absorbs.
pub proof fn law_scalars_absorbed(w: IPAStepWitness)
    ensures
        w.absorbed().contains(w.a_scalar),
        w.b_scalar is Some ==> w.absorbed().contains(w.b_scalar.unwrap()),
        forall|k: int|
            0 <= k < w.public_inputs@.len() ==> w.absorbed().contains(
                #[trigger] w.public_inputs@[k],
            ),
{
    let e = w.absorbed();
    let n = w.public_inputs@.len() + interleaved(w.l_terms@, w.r_terms@).len();
    assert(e[n as int] == w.a_scalar);
    if w.b_scalar is Some {
        assert(e[(n + 1) as int] == w.b_scalar.unwrap());
    }
    assert forall|k: int| 0 <= k < w.public_inputs@.len() implies e.contains(
        #[trigger] w.public_inputs@[k],
    ) by {
        assert(e[k] == w.public_inputs@[k]);
    }
}

/// A step whose claimed digest differs from the recomputed one is refused
/// as an invalid transcript, a step that is not accepted is always
/// refused, and an accepted step is refused only when its new application
/// state is not canonical or the counter is exhausted.
pub proof fn law_step_refusal(acc: IPAAccumulator, w: IPAStepWitness)
    ensures
        w.digest(acc.transcript_hash) is Some && is_canonical(w.next_transcript_hash@) && le_value(
            w.next_transcript_hash@,
        ) != w.digest(acc.transcript_hash).unwrap() && (w.new_app_state is Some ==> is_canonical(
            w.new_app_state.unwrap()@,
        )) ==> transition(acc, w) == Err::<IPAAccumulator, VerifierError>(
            VerifierError::InvalidTranscript,
        ),
        !w.accepts(acc.transcript_hash) ==> transition(acc, w) is Err,
        w.accepts(acc.transcript_hash) && acc.step < u32::MAX && (w.new_app_state is Some
            ==> is_canonical(w.new_app_state.unwrap()@)) ==> transition(acc, w) is Ok,
{
}

/// The output check inside the stored program opens the commitment: with
/// the commitment of `acc` as expected output and the three values of a
/// record as state, it runs to the end exactly when the record hashes to
/// that commitment, as the record of `acc` itself does.
pub proof fn law_record_opening(
    acc: IPAAccumulator,
    digest: nat,
    root: nat,
    step: nat,
    bottom: Seq<int>,
    aside: Seq<int>,
    m: Machine,
)
    requires
        m.stack == bottom + blob_items(standard_blob()),
        m.alt == aside.push(acc.commitment() as int).push(step as int).push(root as int).push(
            digest as int,
        ),
    ensures
        run_all(prog_output_check(), m) is Some <==> hash3(digest, root, step) == acc.commitment(),
        hash3(digest, root, step) == acc.commitment() ==> run_all(prog_output_check(), m) == Some(
            Machine { stack: m.stack, alt: aside },
        ),
        digest == le_value(acc.transcript_hash@) && root == le_value(acc.app_state_root@) && step
            == acc.step ==> run_all(prog_output_check(), m) is Some,
{
    law_output_check(
        bottom,
        aside,
        Triple { x0: digest, x1: root, x2: step },
        acc.commitment() as int,
        m,
    );
}

} // verus!
