//! From proof components to the witness that a contract step consumes, and
//! the byte layout that carries it.

use vstd::prelude::*;
use crate::field::{canonical_repr, is_canonical, le_value, Fp};
use crate::field_script::{fp_to_bytes, FusedPoseidonConstants};
use crate::poseidon::{absorb_all, hash2, values_of, PoseidonHash};
use crate::transcript::{
    all_canonical, decode_all, read_field, transcript_digest, values, FieldElement,
};
use crate::verifier_contract::{
    interleaved, is_zero, lemma_zero_canonical, optional, zero_elements, zero_terms, IPAStepWitness,
    VerifierContract,
};

verus! {

/// Why a proof cannot be turned into a witness.
#[derive(Debug, Clone, Copy, PartialEq, Eq)]
pub enum ProofError {
    /// The lists of left and right cross-terms differ in length.
    LRLengthMismatch,
    InvalidProofStructure,
    TranscriptMismatch,
    SerializationError,
    /// A value that is absorbed or stored is not a canonical encoding.
    NonCanonical,
}

/// A running transcript: the digest so far and what went into it.
#[derive(Debug)]
pub struct TranscriptBuilder {
    state: Fp,
    absorbed: Vec<Fp>,
}

impl TranscriptBuilder {
    /// The digest so far.
    pub closed spec fn digest(&self) -> nat {
        self.state.value()
    }

    /// The seed and then every absorbed value, in order.
    pub closed spec fn absorbed_values(&self) -> Seq<nat> {
        values_of(self.absorbed@)
    }

    /// The digest is the seed with all that followed absorbed into it.
    pub open spec fn wf(&self) -> bool {
        &&& self.absorbed_values().len() >= 1
        &&& self.digest() == absorb_all(self.absorbed_values()[0], self.absorbed_values().skip(1))
    }

    /// A transcript seeded with `initial_state`; refused when the seed is
    /// not canonical.
    pub fn new(initial_state: &FieldElement) -> (r: Result<Self, ProofError>)
        ensures
            r is Ok <==> is_canonical(initial_state@),
            r is Ok ==> r.unwrap().wf() && r.unwrap().absorbed_values() == seq![
                le_value(initial_state@),
            ],
            r is Err ==> r.unwrap_err() == ProofError::NonCanonical,
    {
        match Fp::from_repr(initial_state) {
            Some(state) => {
                let mut absorbed: Vec<Fp> = Vec::new();
                absorbed.push(state);
                let t = Self { state, absorbed };
                proof {
                    assert(t.absorbed_values() =~= seq![le_value(initial_state@)]);
                    assert(t.absorbed_values().skip(1) =~= Seq::<nat>::empty());
                }
                Ok(t)
            },
            None => Err(ProofError::NonCanonical),
        }
    }

    /// A transcript seeded with zero.
    pub fn new_empty() -> (t: Self)
        ensures
            t.wf(),
            t.absorbed_values() == seq![0nat],
    {
        let state = Fp::zero();
        let mut absorbed: Vec<Fp> = Vec::new();
        absorbed.push(state);
        let t = Self { state, absorbed };
        proof {
            assert(t.absorbed_values() =~= seq![0nat]);
            assert(t.absorbed_values().skip(1) =~= Seq::<nat>::empty());
        }
        t
    }

    /// Absorbs one field element.
    pub fn absorb_fp(&mut self, element: Fp)
        requires
            old(self).wf(),
        ensures
            final(self).wf(),
            final(self).absorbed_values() == old(self).absorbed_values().push(element.value()),
            final(self).digest() == hash2(old(self).digest(), element.value()),
    {
        let ghost before = self.absorbed_values();
        self.state = PoseidonHash::hash(self.state, element);
        self.absorbed.push(element);
        proof {
            let after = self.absorbed_values();
            assert(after =~= before.push(element.value()));
            assert(after.skip(1).drop_last() =~= before.skip(1));
            assert(after.skip(1).last() == element.value());
        }
    }

    /// Absorbs one encoded element; refused, with nothing absorbed, when it
    /// is not canonical.
    pub fn absorb(&mut self, element: &FieldElement) -> (r: Result<(), ProofError>)
        requires
            old(self).wf(),
        ensures
            final(self).wf(),
            r is Ok <==> is_canonical(element@),
            r is Ok ==> final(self).absorbed_values() == old(self).absorbed_values().push(
                le_value(element@),
            ),
            r is Err ==> r.unwrap_err() == ProofError::NonCanonical,
            r is Err ==> final(self).absorbed_values() == old(self).absorbed_values(),
            r is Err ==> final(self).digest() == old(self).digest(),
    {
        match Fp::from_repr(element) {
            Some(fp) => {
                self.absorb_fp(fp);
                Ok(())
            },
            None => Err(ProofError::NonCanonical),
        }
    }

    /// Absorbs a list of encoded elements in order; refused, with nothing
    /// absorbed, when one of them is not canonical.
    pub fn absorb_many(&mut self, elements: &[FieldElement]) -> (r: Result<(), ProofError>)
        requires
            old(self).wf(),
        ensures
            final(self).wf(),
            r is Ok <==> all_canonical(elements@),
            r is Ok ==> final(self).absorbed_values() == old(self).absorbed_values() + values(
                elements@,
            ),
            r is Err ==> r.unwrap_err() == ProofError::NonCanonical,
            r is Err ==> final(self).absorbed_values() == old(self).absorbed_values(),
            r is Err ==> final(self).digest() == old(self).digest(),
    {
        let decoded = match decode_all(elements) {
            Some(v) => v,
            None => {
                return Err(ProofError::NonCanonical);
            },
        };
        let ghost start = self.absorbed_values();
        let ghost vals = values(elements@);
        let mut i: usize = 0;
        while i < decoded.len()
            invariant
                0 <= i <= decoded.len(),
                self.wf(),
                values_of(decoded@) == vals,
                self.absorbed_values() == start + vals.take(i as int),
            decreases decoded.len() - i,
        {
            self.absorb_fp(decoded[i]);
            i += 1;
            assert(self.absorbed_values() =~= start + vals.take(i as int));
        }
        assert(vals.take(i as int) =~= vals);
        Ok(())
    }

    /// Absorbs paired cross-terms: for each round both coordinates of the
    /// left term, then both of the right one. Refused, with nothing
    /// absorbed, when a coordinate is not canonical.
    pub fn absorb_lr_terms(
        &mut self,
        l_terms: &[[FieldElement; 2]],
        r_terms: &[[FieldElement; 2]],
    ) -> (r: Result<(), ProofError>)
        requires
            old(self).wf(),
        ensures
            final(self).wf(),
            r is Ok <==> all_canonical(interleaved(l_terms@, r_terms@)),
            r is Ok ==> final(self).absorbed_values() == old(self).absorbed_values() + values(
                interleaved(l_terms@, r_terms@),
            ),
            r is Err ==> r.unwrap_err() == ProofError::NonCanonical,
            r is Err ==> final(self).absorbed_values() == old(self).absorbed_values(),
            r is Err ==> final(self).digest() == old(self).digest(),
    {
        let coords = interleave(l_terms, r_terms);
        self.absorb_many(coords.as_slice())
    }

    /// The digest so far.
    pub fn squeeze(&self) -> (c: Fp)
        ensures
            c.value() == self.digest(),
    {
        self.state
    }

    /// The digest so far in canonical encoding.
    pub fn state_bytes(&self) -> (bytes: FieldElement)
        ensures
            bytes@ == canonical_repr(self.digest()),
            is_canonical(bytes@),
            le_value(bytes@) == self.digest(),
    {
        fp_to_bytes(&self.state)
    }

    /// How many values the transcript holds, the seed included.
    pub fn absorption_count(&self) -> (n: usize)
        ensures
            n == self.absorbed_values().len(),
    {
        self.absorbed.len()
    }
}

/// The coordinates of paired cross-terms in absorption order.
pub fn interleave(l_terms: &[[FieldElement; 2]], r_terms: &[[FieldElement; 2]]) -> (coords: Vec<
    FieldElement,
>)
    ensures
        coords@ == interleaved(l_terms@, r_terms@),
{
    let n: usize = if l_terms.len() <= r_terms.len() {
        l_terms.len()
    } else {
        r_terms.len()
    };
    let ghost lr = interleaved(l_terms@, r_terms@);
    let mut coords: Vec<FieldElement> = Vec::new();
    let mut k: usize = 0;
    while k < n
        invariant
            0 <= k <= n,
            n <= l_terms.len(),
            n <= r_terms.len(),
            lr == interleaved(l_terms@, r_terms@),
            lr.len() == 4 * n,
            coords@ == lr.take(4 * k),
        decreases n - k,
    {
        let l = l_terms[k];
        let r = r_terms[k];
        coords.push(l[0]);
        coords.push(l[1]);
        coords.push(r[0]);
        coords.push(r[1]);
        k += 1;
        assert(coords@ =~= lr.take(4 * k));
    }
    assert(lr.take(4 * n) =~= lr);
    coords
}

/// The components of an inner-product proof as they come from the prover.
#[derive(Clone, Debug)]
pub struct IPAProofComponents {
    /// The left cross-terms, each a pair of coordinates.
    pub l_commitments: Vec<[FieldElement; 2]>,
    /// The right cross-terms.
    pub r_commitments: Vec<[FieldElement; 2]>,
    /// The final reduced scalar.
    pub a: FieldElement,
    /// The second final scalar, where the argument has one.
    pub b: Option<FieldElement>,
}

/// Cuts each 64-byte point into its two coordinates.
fn to_affine(points: &Vec<[u8; 64]>) -> (terms: Vec<[FieldElement; 2]>)
    ensures
        terms@.len() == points@.len(),
        forall|i: int|
            0 <= i < points@.len() ==> (#[trigger] terms@[i])[0]@ == points@[i]@.subrange(0, 32)
                && terms@[i][1]@ == points@[i]@.subrange(32, 64),
{
    let mut terms: Vec<[FieldElement; 2]> = Vec::new();
    let mut i: usize = 0;
    while i < points.len()
        invariant
            0 <= i <= points.len(),
            terms@.len() == i,
            forall|k: int|
                0 <= k < i ==> (#[trigger] terms@[k])[0]@ == points@[k]@.subrange(0, 32)
                    && terms@[k][1]@ == points@[k]@.subrange(32, 64),
        decreases points.len() - i,
    {
        let x = read_field(points[i].as_slice(), 0);
        let y = read_field(points[i].as_slice(), 32);
        terms.push([x, y]);
        i += 1;
    }
    terms
}

/// A copy of a list of cross-terms.
fn copy_terms(terms: &Vec<[FieldElement; 2]>) -> (copy: Vec<[FieldElement; 2]>)
    ensures
        copy@ == terms@,
{
    let mut copy: Vec<[FieldElement; 2]> = Vec::new();
    let mut i: usize = 0;
    while i < terms.len()
        invariant
            0 <= i <= terms.len(),
            copy@ == terms@.take(i as int),
        decreases terms.len() - i,
    {
        copy.push(terms[i]);
        i += 1;
        assert(copy@ =~= terms@.take(i as int));
    }
    assert(terms@.take(i as int) =~= terms@);
    copy
}

impl IPAProofComponents {
    /// Takes the cross-terms as 64-byte points, the first coordinate in the
    /// first 32 bytes.
    pub fn from_bytes(
        l_bytes: Vec<[u8; 64]>,
        r_bytes: Vec<[u8; 64]>,
        a_bytes: [u8; 32],
        b_bytes: Option<[u8; 32]>,
    ) -> (p: Self)
        ensures
            p.a == a_bytes,
            p.b == b_bytes,
            p.l_commitments@.len() == l_bytes@.len(),
            p.r_commitments@.len() == r_bytes@.len(),
            forall|i: int|
                0 <= i < l_bytes@.len() ==> (#[trigger] p.l_commitments@[i])[0]@
                    == l_bytes@[i]@.subrange(0, 32) && p.l_commitments@[i][1]@
                    == l_bytes@[i]@.subrange(32, 64),
            forall|i: int|
                0 <= i < r_bytes@.len() ==> (#[trigger] p.r_commitments@[i])[0]@
                    == r_bytes@[i]@.subrange(0, 32) && p.r_commitments@[i][1]@
                    == r_bytes@[i]@.subrange(32, 64),
    {
        Self {
            l_commitments: to_affine(&l_bytes),
            r_commitments: to_affine(&r_bytes),
            a: a_bytes,
            b: b_bytes,
        }
    }

    /// The number of reduction rounds.
    pub fn num_rounds(&self) -> (n: usize)
        ensures
            n == self.l_commitments@.len(),
    {
        self.l_commitments.len()
    }

    /// Left and right cross-terms must come in pairs.
    pub fn validate(&self) -> (r: Result<(), ProofError>)
        ensures
            r is Ok <==> self.l_commitments@.len() == self.r_commitments@.len(),
            r is Err ==> r.unwrap_err() == ProofError::LRLengthMismatch,
    {
        if self.l_commitments.len() != self.r_commitments.len() {
            return Err(ProofError::LRLengthMismatch);
        }
        Ok(())
    }
}

/// What a proof step absorbs after the previous digest.
pub open spec fn proof_absorbed(public_inputs: Seq<FieldElement>, proof: IPAProofComponents) -> Seq<
    FieldElement,
> {
    public_inputs + interleaved(proof.l_commitments@, proof.r_commitments@) + seq![proof.a]
        + optional(proof.b)
}

/// Whether a witness can be generated, and the refusal when it cannot.
pub open spec fn generation_error(
    current: FieldElement,
    public_inputs: Seq<FieldElement>,
    proof: IPAProofComponents,
    new_app_state: Option<FieldElement>,
) -> Option<ProofError> {
    if proof.l_commitments@.len() != proof.r_commitments@.len() {
        Some(ProofError::LRLengthMismatch)
    } else if transcript_digest(current, proof_absorbed(public_inputs, proof)) is None || (
    new_app_state is Some && !is_canonical(new_app_state.unwrap()@)) {
        Some(ProofError::NonCanonical)
    } else {
        None
    }
}

/// Turns proofs into witnesses.
pub struct ProofGenerator {
    /// The constant set that the contract is committed to.
    pub constants: FusedPoseidonConstants,
}

impl ProofGenerator {
    pub fn new() -> (g: Self)
        ensures
            g.constants.is_standard(),
    {
        Self { constants: FusedPoseidonConstants::compute() }
    }

    /// Runs the transcript over the previous digest, the public inputs and
    /// the proof, and returns the witness that claims the digest reached.
    /// Refused when the cross-terms do not pair up or a value is not
    /// canonical. A generated witness is accepted from `current_transcript`.
    pub fn generate_ipa_witness(
        &self,
        current_transcript: &FieldElement,
        public_inputs: Vec<FieldElement>,
        proof: &IPAProofComponents,
        new_app_state: Option<FieldElement>,
    ) -> (r: Result<IPAStepWitness, ProofError>)
        ensures
            r is Err <==> generation_error(
                *current_transcript,
                public_inputs@,
                *proof,
                new_app_state,
            ) is Some,
            r is Err ==> Some(r.unwrap_err()) == generation_error(
                *current_transcript,
                public_inputs@,
                *proof,
                new_app_state,
            ),
            r is Ok ==> {
                let w = r.unwrap();
                &&& w.public_inputs@ == public_inputs@
                &&& w.l_terms@ == proof.l_commitments@
                &&& w.r_terms@ == proof.r_commitments@
                &&& w.a_scalar == proof.a
                &&& w.b_scalar == proof.b
                &&& w.new_app_state == new_app_state
                &&& w.next_transcript_hash@ == canonical_repr(
                    transcript_digest(
                        *current_transcript,
                        proof_absorbed(public_inputs@, *proof),
                    ).unwrap(),
                )
                &&& w.accepts(*current_transcript)
            },
    {
        if proof.validate().is_err() {
            return Err(ProofError::LRLengthMismatch);
        }
        let ghost elems = proof_absorbed(public_inputs@, *proof);
        let ghost lr = interleaved(proof.l_commitments@, proof.r_commitments@);
        let mut transcript = match TranscriptBuilder::new(current_transcript) {
            Ok(t) => t,
            Err(e) => {
                return Err(e);
            },
        };
        let ghost seed = le_value(current_transcript@);
        if transcript.absorb_many(public_inputs.as_slice()).is_err() {
            assert(!is_canonical(elems[choose|i: int|
                0 <= i < public_inputs@.len() && !is_canonical(#[trigger] public_inputs@[i]@)]@));
            return Err(ProofError::NonCanonical);
        }
        if transcript.absorb_lr_terms(
            proof.l_commitments.as_slice(),
            proof.r_commitments.as_slice(),
        ).is_err() {
            proof {
                let i = choose|i: int| 0 <= i < lr.len() && !is_canonical(#[trigger] lr[i]@);
                assert(elems[public_inputs@.len() + i] == lr[i]);
            }
            return Err(ProofError::NonCanonical);
        }
        if transcript.absorb(&proof.a).is_err() {
            assert(elems[(public_inputs@.len() + lr.len()) as int] == proof.a);
            return Err(ProofError::NonCanonical);
        }
        match proof.b {
            Some(b) => {
                if transcript.absorb(&b).is_err() {
                    assert(elems[(public_inputs@.len() + lr.len() + 1) as int] == b);
                    return Err(ProofError::NonCanonical);
                }
            },
            None => {},
        }
        proof {
            assert(all_canonical(elems)) by {
                assert forall|i: int| 0 <= i < elems.len() implies is_canonical(
                    #[trigger] elems[i]@,
                ) by {
                    if i < public_inputs@.len() {
                        assert(elems[i] == public_inputs@[i]);
                    } else if i < public_inputs@.len() + lr.len() {
                        assert(elems[i] == lr[i - public_inputs@.len()]);
                    }
                }
            }
            assert(transcript.absorbed_values() =~= seq![seed] + values(elems));
            assert(transcript.absorbed_values().skip(1) =~= values(elems));
        }
        match new_app_state {
            Some(root) => {
                if Fp::from_repr(&root).is_none() {
                    return Err(ProofError::NonCanonical);
                }
            },
            None => {},
        }
        let next_transcript_hash = transcript.state_bytes();
        let w = IPAStepWitness {
            public_inputs,
            l_terms: copy_terms(&proof.l_commitments),
            r_terms: copy_terms(&proof.r_commitments),
            a_scalar: proof.a,
            b_scalar: proof.b,
            new_app_state,
            next_transcript_hash,
        };
        assert(w.absorbed() =~= elems);
        Ok(w)
    }

    /// The witness of a step that sets the application state to
    /// `new_app_state`, from the digest that `contract` stands on.
    pub fn generate_state_transition(
        &self,
        contract: &VerifierContract,
        proof: &IPAProofComponents,
        new_app_state: FieldElement,
        public_inputs: Vec<FieldElement>,
    ) -> (r: Result<IPAStepWitness, ProofError>)
        ensures
            r is Err <==> generation_error(
                contract.current_state.transcript_hash,
                public_inputs@,
                *proof,
                Some(new_app_state),
            ) is Some,
            r is Err ==> Some(r.unwrap_err()) == generation_error(
                contract.current_state.transcript_hash,
                public_inputs@,
                *proof,
                Some(new_app_state),
            ),
            r is Ok ==> {
                let w = r.unwrap();
                &&& w.public_inputs@ == public_inputs@
                &&& w.l_terms@ == proof.l_commitments@
                &&& w.r_terms@ == proof.r_commitments@
                &&& w.a_scalar == proof.a
                &&& w.b_scalar == proof.b
                &&& w.new_app_state == Some(new_app_state)
                &&& w.accepts(contract.current_state.transcript_hash)
            },
    {
        self.generate_ipa_witness(
            &contract.current_state.transcript_hash,
            public_inputs,
            proof,
            Some(new_app_state),
        )
    }

    /// Whether `witness` is accepted from `prev_transcript`.
    pub fn verify_witness(&self, witness: &IPAStepWitness, prev_transcript: &FieldElement) -> (ok:
        bool)
        ensures
            ok == witness.accepts(*prev_transcript),
    {
        witness.verify(prev_transcript)
    }
}

impl Default for ProofGenerator {
    fn default() -> (g: Self)
        ensures
            g.constants.is_standard(),
    {
        Self::new()
    }
}

/// The bytes of a list of field-sized strings, one after the other.
pub open spec fn flat(elems: Seq<FieldElement>) -> Seq<u8>
    decreases elems.len(),
{
    if elems.len() == 0 {
        Seq::<u8>::empty()
    } else {
        flat(elems.drop_last()) + elems.last()@
    }
}

/// The fields of a witness in serialized order: what it absorbs, the new
/// application state where there is one, the claimed digest.
pub open spec fn serialized_fields(w: IPAStepWitness) -> Seq<FieldElement> {
    w.fields()
}

/// The serialized witness.
pub open spec fn serialize_spec(w: IPAStepWitness) -> Seq<u8> {
    flat(serialized_fields(w))
}

/// Field `k` of a serialized witness.
pub open spec fn field_at(bytes: Seq<u8>, k: int) -> Seq<u8> {
    bytes.subrange(32 * k, 32 * k + 32)
}

/// The number of fields of a witness with the given shape.
pub open spec fn field_count(n: int, rounds: int, has_b: bool, has_app_state: bool) -> int {
    n + 4 * rounds + 1 + (if has_b {
        1int
    } else {
        0int
    }) + (if has_app_state {
        1int
    } else {
        0int
    }) + 1
}

/// `w` has the given shape and its fields are those of `bytes`, in order.
pub open spec fn parsed_from(
    w: IPAStepWitness,
    bytes: Seq<u8>,
    n: int,
    rounds: int,
    has_b: bool,
    has_app_state: bool,
) -> bool {
    &&& w.public_inputs@.len() == n
    &&& w.l_terms@.len() == rounds
    &&& w.r_terms@.len() == rounds
    &&& w.b_scalar is Some == has_b
    &&& w.new_app_state is Some == has_app_state
    &&& serialized_fields(w).len() == field_count(n, rounds, has_b, has_app_state)
    &&& forall|k: int|
        0 <= k < field_count(n, rounds, has_b, has_app_state) ==> (#[trigger] serialized_fields(
            w,
        )[k])@ == field_at(bytes, k)
}

/// Two witnesses hold the same values.
pub open spec fn same_witness(a: IPAStepWitness, b: IPAStepWitness) -> bool {
    &&& a.public_inputs@ == b.public_inputs@
    &&& a.l_terms@ == b.l_terms@
    &&& a.r_terms@ == b.r_terms@
    &&& a.a_scalar == b.a_scalar
    &&& a.b_scalar == b.b_scalar
    &&& a.new_app_state == b.new_app_state
    &&& a.next_transcript_hash == b.next_transcript_hash
}

pub proof fn lemma_flat_len(elems: Seq<FieldElement>)
    ensures
        flat(elems).len() == 32 * elems.len(),
    decreases elems.len(),
{
    if elems.len() > 0 {
        lemma_flat_len(elems.drop_last());
    }
}

/// Field `k` of the bytes of a list is the list's element `k`.
pub proof fn lemma_flat_field(elems: Seq<FieldElement>, k: int)
    requires
        0 <= k < elems.len(),
    ensures
        field_at(flat(elems), k) == elems[k]@,
    decreases elems.len(),
{
    lemma_flat_len(elems.drop_last());
    lemma_flat_len(elems);
    if k < elems.len() - 1 {
        lemma_flat_field(elems.drop_last(), k);
        assert(field_at(flat(elems), k) =~= field_at(flat(elems.drop_last()), k));
    } else {
        assert(field_at(flat(elems), k) =~= elems.last()@);
    }
}

/// The byte layout of a witness.
pub struct WitnessSerializer;

impl WitnessSerializer {
    /// Writes the fields of a witness one after the other, 32 bytes each:
    /// public inputs, cross-term coordinates, final scalars, the new
    /// application state where there is one, the claimed digest.
    pub fn serialize(witness: &IPAStepWitness) -> (bytes: Vec<u8>)
        ensures
            bytes@ == serialize_spec(*witness),
            bytes@.len() == 32 * serialized_fields(*witness).len(),
    {
        let fields = witness.field_list();
        let mut bytes: Vec<u8> = Vec::new();
        let mut i: usize = 0;
        while i < fields.len()
            invariant
                0 <= i <= fields.len(),
                bytes@ == flat(fields@.take(i as int)),
            decreases fields.len() - i,
        {
            proof {
                assert(fields@.take(i + 1).drop_last() =~= fields@.take(i as int));
            }
            bytes.extend_from_slice(fields[i].as_slice());
            i += 1;
        }
        proof {
            assert(fields@.take(i as int) =~= fields@);
            lemma_flat_len(fields@);
        }
        bytes
    }

    /// Reads a witness of the given shape. `None` exactly when `bytes` is
    /// too short for that shape.
    pub fn deserialize(
        bytes: &[u8],
        num_public_inputs: usize,
        num_rounds: usize,
        has_b: bool,
        has_app_state: bool,
    ) -> (r: Option<IPAStepWitness>)
        ensures
            r is Some <==> 32 * field_count(
                num_public_inputs as int,
                num_rounds as int,
                has_b,
                has_app_state,
            ) <= bytes@.len(),
            r is Some ==> parsed_from(
                r.unwrap(),
                bytes@,
                num_public_inputs as int,
                num_rounds as int,
                has_b,
                has_app_state,
            ),
    {
        let len: usize = bytes.len();
        let mut offset: usize = 0;
        let mut public_inputs: Vec<FieldElement> = Vec::new();
        let mut i: usize = 0;
        while i < num_public_inputs
            invariant
                0 <= i <= num_public_inputs,
                len == bytes@.len(),
                offset == 32 * i,
                offset <= len,
                public_inputs@.len() == i,
                forall|k: int|
                    0 <= k < i ==> (#[trigger] public_inputs@[k])@ == field_at(bytes@, k),
            decreases num_public_inputs - i,
        {
            if len - offset < 32 {
                return None;
            }
            public_inputs.push(read_field(bytes, offset));
            offset += 32;
            i += 1;
        }
        let mut l_terms: Vec<[FieldElement; 2]> = Vec::new();
        let mut r_terms: Vec<[FieldElement; 2]> = Vec::new();
        let mut j: usize = 0;
        while j < num_rounds
            invariant
                0 <= j <= num_rounds,
                len == bytes@.len(),
                offset == 32 * num_public_inputs + 128 * j,
                offset <= len,
                l_terms@.len() == j,
                r_terms@.len() == j,
                forall|k: int|
                    0 <= k < j ==> {
                        &&& (#[trigger] l_terms@[k])[0]@ == field_at(
                            bytes@,
                            num_public_inputs + 4 * k,
                        )
                        &&& l_terms@[k][1]@ == field_at(bytes@, num_public_inputs + 4 * k + 1)
                    },
                forall|k: int|
                    0 <= k < j ==> {
                        &&& (#[trigger] r_terms@[k])[0]@ == field_at(
                            bytes@,
                            num_public_inputs + 4 * k + 2,
                        )
                        &&& r_terms@[k][1]@ == field_at(bytes@, num_public_inputs + 4 * k + 3)
                    },
            decreases num_rounds - j,
        {
            if len - offset < 128 {
                return None;
            }
            let lx = read_field(bytes, offset);
            let ly = read_field(bytes, offset + 32);
            let rx = read_field(bytes, offset + 64);
            let ry = read_field(bytes, offset + 96);
            l_terms.push([lx, ly]);
            r_terms.push([rx, ry]);
            offset += 128;
            j += 1;
        }
        let ghost base = num_public_inputs + 4 * num_rounds;
        if len - offset < 32 {
            return None;
        }
        let a_scalar = read_field(bytes, offset);
        offset += 32;
        let b_scalar = if has_b {
            if len - offset < 32 {
                return None;
            }
            let b = read_field(bytes, offset);
            offset += 32;
            Some(b)
        } else {
            None
        };
        let new_app_state = if has_app_state {
            if len - offset < 32 {
                return None;
            }
            let state = read_field(bytes, offset);
            offset += 32;
            Some(state)
        } else {
            None
        };
        if len - offset < 32 {
            return None;
        }
        let next_transcript_hash = read_field(bytes, offset);
        let w = IPAStepWitness {
            public_inputs,
            l_terms,
            r_terms,
            a_scalar,
            b_scalar,
            new_app_state,
            next_transcript_hash,
        };
        proof {
            let n = num_public_inputs as int;
            let rounds = num_rounds as int;
            let count = field_count(n, rounds, has_b, has_app_state);
            let f = serialized_fields(w);
            let lr = interleaved(w.l_terms@, w.r_terms@);
            assert(lr.len() == 4 * rounds);
            assert(f.len() == count);
            assert forall|k: int| 0 <= k < count implies (#[trigger] f[k])@ == field_at(
                bytes@,
                k,
            ) by {
                if k < n {
                    assert(f[k] == w.public_inputs@[k]);
                } else if k < base {
                    let q = (k - n) / 4;
                    assert(f[k] == lr[k - n]);
                    assert(0 <= q < rounds);
                    assert(l_terms@[q][0]@ == field_at(bytes@, n + 4 * q));
                    assert(r_terms@[q][0]@ == field_at(bytes@, n + 4 * q + 2));
                } else if k == base {
                    assert(f[k] == a_scalar);
                }
            }
        }
        Some(w)
    }
}

/// Reading a serialized witness gives the witness back: the bytes are long
/// enough for the witness's own shape, and whatever has that shape and the
/// fields of those bytes holds the values of the witness.
pub proof fn law_witness_round_trip(w: IPAStepWitness, read: IPAStepWitness)
    requires
        w.l_terms@.len() == w.r_terms@.len(),
        parsed_from(
            read,
            serialize_spec(w),
            w.public_inputs@.len() as int,
            w.l_terms@.len() as int,
            w.b_scalar is Some,
            w.new_app_state is Some,
        ),
    ensures
        serialize_spec(w).len() == 32 * field_count(
            w.public_inputs@.len() as int,
            w.l_terms@.len() as int,
            w.b_scalar is Some,
            w.new_app_state is Some,
        ),
        same_witness(read, w),
{
    let n = w.public_inputs@.len() as int;
    let rounds = w.l_terms@.len() as int;
    let count = field_count(n, rounds, w.b_scalar is Some, w.new_app_state is Some);
    let f = serialized_fields(w);
    let g = serialized_fields(read);
    let bytes = serialize_spec(w);
    lemma_flat_len(f);
    assert(f.len() == count);
    assert forall|k: int| 0 <= k < count implies f[k] == g[k] by {
        lemma_flat_field(f, k);
        assert(g[k]@ == field_at(bytes, k));
        assert(f[k] =~= g[k]);
    }
    assert forall|i: int| 0 <= i < n implies read.public_inputs@[i] == w.public_inputs@[i] by {
        assert(f[i] == w.public_inputs@[i]);
        assert(g[i] == read.public_inputs@[i]);
    }
    assert(read.public_inputs@ =~= w.public_inputs@);
    let lw = interleaved(w.l_terms@, w.r_terms@);
    let lr = interleaved(read.l_terms@, read.r_terms@);
    assert forall|q: int| 0 <= q < rounds implies read.l_terms@[q] == w.l_terms@[q]
        && read.r_terms@[q] == w.r_terms@[q] by {
        assert(f[n + 4 * q] == lw[4 * q] && g[n + 4 * q] == lr[4 * q]);
        assert(f[n + 4 * q + 1] == lw[4 * q + 1] && g[n + 4 * q + 1] == lr[4 * q + 1]);
        assert(f[n + 4 * q + 2] == lw[4 * q + 2] && g[n + 4 * q + 2] == lr[4 * q + 2]);
        assert(f[n + 4 * q + 3] == lw[4 * q + 3] && g[n + 4 * q + 3] == lr[4 * q + 3]);
        assert(read.l_terms@[q] =~= w.l_terms@[q]);
        assert(read.r_terms@[q] =~= w.r_terms@[q]);
    }
    assert(read.l_terms@ =~= w.l_terms@);
    assert(read.r_terms@ =~= w.r_terms@);
    let base = n + 4 * rounds;
    assert(f[base] == w.a_scalar && g[base] == read.a_scalar);
    if w.b_scalar is Some {
        assert(f[base + 1] == w.b_scalar.unwrap() && g[base + 1] == read.b_scalar.unwrap());
    }
    if w.new_app_state is Some {
        assert(f[count - 2] == w.new_app_state.unwrap() && g[count - 2]
            == read.new_app_state.unwrap());
    }
    assert(f[count - 1] == w.next_transcript_hash && g[count - 1] == read.next_transcript_hash);
}

/// A coordinate of a mock cross-term: `first` in byte 0, `last` in byte 31,
/// zeros between.
pub open spec fn mock_coordinate(first: u8, last: u8) -> Seq<u8> {
    Seq::new(
        32,
        |j: int|
            if j == 0 {
                first
            } else if j == 31 {
                last
            } else {
                0u8
            },
    )
}

/// The low byte of `2 * i + add`.
pub open spec fn mock_byte(i: int, add: int) -> u8 {
    ((2 * i + add) % 256) as u8
}

/// Doubling the remainder by 128 gives the low byte of the double.
proof fn lemma_mock_byte(i: int, add: int)
    requires
        0 <= i,
        0 <= add < 256,
    ensures
        ((i % 128) * 2 + add) % 256 == (2 * i + add) % 256,
{
    vstd::arithmetic::div_mod::lemma_fundamental_div_mod(i, 128);
    let q = i / 128;
    let rest = (i % 128) * 2 + add;
    assert(2 * i + add == 256 * q + rest);
    vstd::arithmetic::div_mod::lemma_mod_multiples_vanish(q, rest, 256);
}

fn mock_point(i: usize, add: usize, last: u8) -> (c: FieldElement)
    requires
        add < 256,
        last < 64,
    ensures
        c@ == mock_coordinate(mock_byte(i as int, add as int), last),
        is_canonical(c@),
{
    let low: usize = ((i % 128) * 2 + add) % 256;
    let first: u8 = low as u8;
    proof {
        lemma_mock_byte(i as int, add as int);
        assert(first == mock_byte(i as int, add as int));
    }
    let mut c: FieldElement = [0u8; 32];
    c[31] = last;
    c[0] = first;
    assert(c@ =~= mock_coordinate(first, last));
    proof {
        crate::poseidon::lemma_cleared_is_canonical(c@);
    }
    c
}

/// A list of 32 bytes of one value.
fn filled(v: u8) -> (c: FieldElement)
    ensures
        forall|j: int| 0 <= j < 32 ==> c[j] == v,
{
    [v; 32]
}

/// A witness with made-up cross-terms and scalars that is accepted from
/// `prev_transcript`: left term `i` has `2i` and `2i + 100` in the first
/// bytes of its coordinates, right term `i` has `2i + 1` and `2i + 101`,
/// the scalars are filled with `0x0A` and `0x0B`. Refused when the previous
/// digest or a public input is not canonical.
pub fn generate_mock_proof(
    prev_transcript: &FieldElement,
    num_rounds: usize,
    public_inputs: Vec<FieldElement>,
) -> (r: Result<IPAStepWitness, ProofError>)
    ensures
        r is Ok <==> is_canonical(prev_transcript@) && all_canonical(public_inputs@),
        r is Err ==> r.unwrap_err() == ProofError::NonCanonical,
        r is Ok ==> {
            let w = r.unwrap();
            &&& w.accepts(*prev_transcript)
            &&& w.public_inputs@ == public_inputs@
            &&& w.l_terms@.len() == num_rounds
            &&& w.r_terms@.len() == num_rounds
            &&& w.a_scalar@ == Seq::new(32, |j: int| 0x0Au8)
            &&& w.b_scalar is Some
            &&& w.b_scalar.unwrap()@ == Seq::new(32, |j: int| 0x0Bu8)
            &&& w.new_app_state is None
            &&& forall|i: int|
                0 <= i < num_rounds ==> {
                    &&& (#[trigger] w.l_terms@[i])[0]@ == mock_coordinate(mock_byte(i, 0), 1)
                    &&& w.l_terms@[i][1]@ == mock_coordinate(mock_byte(i, 100), 0)
                }
            &&& forall|i: int|
                0 <= i < num_rounds ==> {
                    &&& (#[trigger] w.r_terms@[i])[0]@ == mock_coordinate(mock_byte(i, 1), 2)
                    &&& w.r_terms@[i][1]@ == mock_coordinate(mock_byte(i, 101), 0)
                }
        },
{
    let generator = ProofGenerator::new();
    let mut l_terms: Vec<[FieldElement; 2]> = Vec::new();
    let mut r_terms: Vec<[FieldElement; 2]> = Vec::new();
    let mut i: usize = 0;
    while i < num_rounds
        invariant
            0 <= i <= num_rounds,
            l_terms@.len() == i,
            r_terms@.len() == i,
            forall|k: int|
                0 <= k < i ==> {
                    &&& (#[trigger] l_terms@[k])[0]@ == mock_coordinate(mock_byte(k, 0), 1)
                    &&& l_terms@[k][1]@ == mock_coordinate(mock_byte(k, 100), 0)
                    &&& is_canonical(l_terms@[k][0]@)
                    &&& is_canonical(l_terms@[k][1]@)
                },
            forall|k: int|
                0 <= k < i ==> {
                    &&& (#[trigger] r_terms@[k])[0]@ == mock_coordinate(mock_byte(k, 1), 2)
                    &&& r_terms@[k][1]@ == mock_coordinate(mock_byte(k, 101), 0)
                    &&& is_canonical(r_terms@[k][0]@)
                    &&& is_canonical(r_terms@[k][1]@)
                },
        decreases num_rounds - i,
    {
        l_terms.push([mock_point(i, 0, 1), mock_point(i, 100, 0)]);
        r_terms.push([mock_point(i, 1, 2), mock_point(i, 101, 0)]);
        i += 1;
    }
    let a_scalar = filled(0x0A);
    let b_scalar = filled(0x0B);
    proof {
        assert(a_scalar@ =~= Seq::new(32, |j: int| 0x0Au8));
        assert(b_scalar@ =~= Seq::new(32, |j: int| 0x0Bu8));
        crate::poseidon::lemma_cleared_is_canonical(a_scalar@);
        crate::poseidon::lemma_cleared_is_canonical(b_scalar@);
    }
    let proof_parts = IPAProofComponents {
        l_commitments: l_terms,
        r_commitments: r_terms,
        a: a_scalar,
        b: Some(b_scalar),
    };
    proof {
        let lr = interleaved(proof_parts.l_commitments@, proof_parts.r_commitments@);
        assert(all_canonical(lr)) by {
            assert forall|k: int| 0 <= k < lr.len() implies is_canonical(#[trigger] lr[k]@) by {
                let q = k / 4;
                assert(is_canonical(proof_parts.l_commitments@[q][0]@));
                assert(is_canonical(proof_parts.r_commitments@[q][0]@));
            }
        }
        let elems = proof_absorbed(public_inputs@, proof_parts);
        if all_canonical(public_inputs@) {
            assert forall|k: int| 0 <= k < elems.len() implies is_canonical(
                #[trigger] elems[k]@,
            ) by {
                if k < public_inputs@.len() {
                    assert(elems[k] == public_inputs@[k]);
                } else if k < public_inputs@.len() + lr.len() {
                    assert(elems[k] == lr[k - public_inputs@.len()]);
                }
            }
        } else {
            let bad = choose|k: int|
                0 <= k < public_inputs@.len() && !is_canonical(#[trigger] public_inputs@[k]@);
            assert(elems[bad] == public_inputs@[bad]);
        }
    }
    generator.generate_ipa_witness(prev_transcript, public_inputs, &proof_parts, None)
}

/// A mock witness of ten rounds from the digest that `contract` stands on,
/// with the new application state as its one public input.
pub fn generate_mock_state_transition(contract: &VerifierContract, new_app_state: FieldElement) -> (r:
    Result<IPAStepWitness, ProofError>)
    ensures
        r is Ok <==> is_canonical(contract.current_state.transcript_hash@) && is_canonical(
            new_app_state@,
        ),
        r is Err ==> r.unwrap_err() == ProofError::NonCanonical,
        r is Ok ==> {
            let w = r.unwrap();
            &&& w.accepts(contract.current_state.transcript_hash)
            &&& w.public_inputs@ == seq![new_app_state]
            &&& w.l_terms@.len() == 10
            &&& w.r_terms@.len() == 10
            &&& w.new_app_state is None
        },
{
    let mut public_inputs: Vec<FieldElement> = Vec::new();
    public_inputs.push(new_app_state);
    proof {
        assert(public_inputs@ =~= seq![new_app_state]);
        assert(public_inputs@[0] == new_app_state);
    }
    generate_mock_proof(&contract.current_state.transcript_hash, 10, public_inputs)
}

/// The witness sizes of three typical shapes.
#[derive(Debug)]
pub struct WitnessSizeReport {
    /// Five rounds, one public input.
    pub small: usize,
    /// Ten rounds, two public inputs, a new application state.
    pub medium: usize,
    /// Fifteen rounds, four public inputs, a new application state.
    pub large: usize,
    /// The serialized constants.
    pub constants_blob: usize,
}

/// The size of the witness that is generated for a proof of `rounds` rounds
/// with `inputs` public inputs, two scalars and, where asked for, a new
/// application state, all of them zero.
fn zero_witness_size(generator: &ProofGenerator, rounds: usize, inputs: usize, with_state: bool) -> (n:
    usize)
    requires
        rounds <= 1000,
        inputs <= 1000,
    ensures
        n == 32 * inputs + 128 * rounds + 96 + if with_state {
            32int
        } else {
            0int
        },
{
    let zero: FieldElement = [0u8; 32];
    let proof_parts = IPAProofComponents {
        l_commitments: zero_terms(rounds),
        r_commitments: zero_terms(rounds),
        a: zero,
        b: Some(zero),
    };
    let public_inputs = zero_elements(inputs);
    let new_app_state = if with_state {
        Some(zero)
    } else {
        None
    };
    proof {
        assert(is_zero(zero));
        lemma_zero_canonical(zero);
        let lr = interleaved(proof_parts.l_commitments@, proof_parts.r_commitments@);
        let elems = proof_absorbed(public_inputs@, proof_parts);
        assert forall|k: int| 0 <= k < elems.len() implies is_canonical(#[trigger] elems[k]@) by {
            if k < public_inputs@.len() {
                assert(elems[k] == public_inputs@[k]);
                lemma_zero_canonical(public_inputs@[k]);
            } else if k < public_inputs@.len() + lr.len() {
                let q = (k - public_inputs@.len()) / 4;
                assert(elems[k] == lr[k - public_inputs@.len()]);
                lemma_zero_canonical(proof_parts.l_commitments@[q][0]);
                lemma_zero_canonical(proof_parts.l_commitments@[q][1]);
                lemma_zero_canonical(proof_parts.r_commitments@[q][0]);
                lemma_zero_canonical(proof_parts.r_commitments@[q][1]);
            }
        }
    }
    match generator.generate_ipa_witness(&zero, public_inputs, &proof_parts, new_app_state) {
        Ok(w) => w.size(),
        Err(_) => vstd::pervasive::unreached(),
    }
}

/// Generates witnesses of three typical shapes and measures them.
pub fn analyze_witness_sizes() -> (report: WitnessSizeReport)
    ensures
        report.small == 768,
        report.medium == 1472,
        report.large == 2176,
        report.constants_blob == 2848,
{
    let generator = ProofGenerator::new();
    WitnessSizeReport {
        small: zero_witness_size(&generator, 5, 1, false),
        medium: zero_witness_size(&generator, 10, 2, true),
        large: zero_witness_size(&generator, 15, 4, true),
        constants_blob: generator.constants.witness_size(),
    }
}

} // verus!
