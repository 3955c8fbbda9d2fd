//! What the spender of a paymaster or strict program submits.

use vstd::prelude::*;
use crate::field::Fp;
use crate::guard_engine::universal::GuardError;
use crate::hashing::{double_sha256, sha256_digest};
use crate::hints::{IpaHints, PoseidonHints};

verus! {

/// A signature with the flag that says what it signs.
#[derive(Clone, Debug)]
pub struct EcdsaSignature {
    pub der_bytes: Vec<u8>,
    pub sighash_flag: u8,
}

impl EcdsaSignature {
    /// The signature as it is pushed: the encoding, then the flag.
    pub open spec fn bytes(&self) -> Seq<u8> {
        self.der_bytes@.push(self.sighash_flag)
    }

    /// A signature over everything, with the fork id: flag `0x41`.
    pub fn new(der_bytes: Vec<u8>) -> (s: Self)
        ensures
            s.der_bytes == der_bytes,
            s.sighash_flag == 0x41,
    {
        Self { der_bytes, sighash_flag: 0x41 }
    }

    pub fn with_sighash(der_bytes: Vec<u8>, flag: u8) -> (s: Self)
        ensures
            s.der_bytes == der_bytes,
            s.sighash_flag == flag,
    {
        Self { der_bytes, sighash_flag: flag }
    }

    pub fn to_bytes(&self) -> (bytes: Vec<u8>)
        ensures
            bytes@ == self.bytes(),
    {
        let mut bytes = vstd::slice::slice_to_vec(self.der_bytes.as_slice());
        bytes.push(self.sighash_flag);
        bytes
    }

    pub fn size(&self) -> (n: usize)
        requires
            self.der_bytes@.len() < usize::MAX,
        ensures
            n == self.der_bytes@.len() + 1,
    {
        self.der_bytes.len() + 1
    }
}

impl Default for EcdsaSignature {
    /// A stand-in of 70 bytes `0x30` with flag `0x41`.
    fn default() -> (s: Self)
        ensures
            s.der_bytes@ == Seq::new(70, |i: int| 0x30u8),
            s.sighash_flag == 0x41,
    {
        let mut der_bytes: Vec<u8> = Vec::new();
        let mut i: usize = 0;
        while i < 70
            invariant
                0 <= i <= 70,
                der_bytes@ == Seq::new(i as nat, |k: int| 0x30u8),
            decreases 70 - i,
        {
            der_bytes.push(0x30);
            i += 1;
            assert(der_bytes@ =~= Seq::new(i as nat, |k: int| 0x30u8));
        }
        Self { der_bytes, sighash_flag: 0x41 }
    }
}

/// The push of a data item with the shortest form: a single byte from 1 to
/// 16 becomes the opcode that pushes that number.
pub open spec fn push_data_spec(data: Seq<u8>) -> Seq<u8> {
    let n = data.len();
    if n == 0 {
        seq![0x00u8]
    } else if n == 1 && 1 <= data[0] <= 16 {
        seq![(0x50 + data[0]) as u8]
    } else if n <= 75 {
        seq![n as u8] + data
    } else if n <= 255 {
        seq![0x4cu8, n as u8] + data
    } else if n <= 65535 {
        seq![0x4du8, (n % 256) as u8, (n / 256) as u8] + data
    } else {
        seq![
            0x4eu8,
            (n % 256) as u8,
            ((n / 256) % 256) as u8,
            ((n / 65536) % 256) as u8,
            ((n / 16777216) % 256) as u8,
        ] + data
    }
}

pub fn push_data(data: &[u8]) -> (result: Vec<u8>)
    ensures
        result@ == push_data_spec(data@),
{
    let mut result: Vec<u8> = Vec::new();
    let len: usize = data.len();
    if len == 0 {
        result.push(0x00);
    } else if len == 1 && data[0] >= 1 && data[0] <= 16 {
        result.push(0x50 + data[0]);
    } else if len <= 75 {
        result.push(len as u8);
        result.extend_from_slice(data);
    } else if len <= 255 {
        result.push(0x4c);
        result.push(len as u8);
        result.extend_from_slice(data);
    } else if len <= 65535 {
        result.push(0x4d);
        result.push((len % 256) as u8);
        result.push((len / 256) as u8);
        result.extend_from_slice(data);
    } else {
        result.push(0x4e);
        result.push((len % 256) as u8);
        result.push(((len / 256) % 256) as u8);
        result.push(((len / 65536) % 256) as u8);
        result.push(((len / 16777216) % 256) as u8);
        result.extend_from_slice(data);
    }
    assert(result@ =~= push_data_spec(data@));
    result
}

/// A proof as the circuit side hands it over.
#[derive(Clone, Debug)]
pub struct Proof {
    pub bytes: Vec<u8>,
    pub public_inputs: Vec<Fp>,
}

impl Proof {
    pub fn to_bytes(&self) -> (bytes: Vec<u8>)
        ensures
            bytes@ == self.bytes@,
    {
        vstd::slice::slice_to_vec(self.bytes.as_slice())
    }
}

/// The witness of a paymaster spend.
#[derive(Clone, Debug)]
pub struct PaymasterWitness {
    pub proof: Proof,
    pub ipa_hints: IpaHints,
    pub poseidon_hints: PoseidonHints,
    /// The serialized application outputs.
    pub app_outputs_bytes: Vec<u8>,
    /// The serialized change outputs.
    pub change_outputs_bytes: Vec<u8>,
    /// One field per application output.
    pub app_fields: Vec<Fp>,
    pub preimage: Vec<u8>,
    pub user_signature: EcdsaSignature,
    pub sponsor_signature: Option<EcdsaSignature>,
}

impl PaymasterWitness {
    /// The digest of all outputs: SHA-256 twice over the application
    /// outputs followed by the change outputs.
    pub open spec fn hash_outputs(&self) -> Seq<u8> {
        sha256_digest(sha256_digest(self.app_outputs_bytes@ + self.change_outputs_bytes@))
    }

    /// The unlocking script: the sponsor's signature where there is one,
    /// the user's, the preimage, the change and the application outputs,
    /// the hints and the proof.
    pub open spec fn script_sig(&self) -> Seq<u8> {
        (match self.sponsor_signature {
            Some(sig) => push_data_spec(sig.bytes()),
            None => Seq::<u8>::empty(),
        }) + push_data_spec(self.user_signature.bytes()) + push_data_spec(self.preimage@)
            + push_data_spec(self.change_outputs_bytes@) + push_data_spec(
            self.app_outputs_bytes@,
        ) + push_data_spec(self.poseidon_hints.bytes()) + push_data_spec(self.ipa_hints.bytes())
            + push_data_spec(self.proof.bytes@)
    }

    /// The estimate: every part with three bytes for its push, the
    /// signatures with one.
    pub open spec fn estimate(&self) -> int {
        self.proof.bytes@.len() + 3 + self.ipa_hints.bytes().len() + 3
            + self.poseidon_hints.bytes().len() + 3 + self.app_outputs_bytes@.len() + 3
            + self.change_outputs_bytes@.len() + 3 + self.preimage@.len() + 3
            + self.user_signature.der_bytes@.len() + 2 + match self.sponsor_signature {
            Some(sig) => (sig.der_bytes@.len() + 2) as int,
            None => 0int,
        }
    }

    /// A witness over outputs that are serialized already, with a stand-in
    /// for the user's signature.
    pub fn new(
        proof: Proof,
        ipa_hints: IpaHints,
        poseidon_hints: PoseidonHints,
        app_outputs_bytes: Vec<u8>,
        change_outputs_bytes: Vec<u8>,
        app_fields: Vec<Fp>,
        preimage: Vec<u8>,
    ) -> (w: Self)
        ensures
            w.proof == proof,
            w.ipa_hints == ipa_hints,
            w.poseidon_hints == poseidon_hints,
            w.app_outputs_bytes == app_outputs_bytes,
            w.change_outputs_bytes == change_outputs_bytes,
            w.app_fields == app_fields,
            w.preimage == preimage,
            w.user_signature.sighash_flag == 0x41,
            w.user_signature.der_bytes@ == Seq::new(70, |i: int| 0x30u8),
            w.sponsor_signature is None,
    {
        Self {
            proof,
            ipa_hints,
            poseidon_hints,
            app_outputs_bytes,
            change_outputs_bytes,
            app_fields,
            preimage,
            user_signature: EcdsaSignature::default(),
            sponsor_signature: None,
        }
    }

    pub fn with_user_signature(self, sig: EcdsaSignature) -> (w: Self)
        ensures
            w.user_signature == sig,
            w.proof == self.proof,
            w.ipa_hints == self.ipa_hints,
            w.poseidon_hints == self.poseidon_hints,
            w.app_outputs_bytes == self.app_outputs_bytes,
            w.change_outputs_bytes == self.change_outputs_bytes,
            w.app_fields == self.app_fields,
            w.preimage == self.preimage,
            w.sponsor_signature == self.sponsor_signature,
    {
        let mut w = self;
        w.user_signature = sig;
        w
    }

    pub fn with_sponsor_signature(self, sig: EcdsaSignature) -> (w: Self)
        ensures
            w.sponsor_signature == Some(sig),
            w.proof == self.proof,
            w.ipa_hints == self.ipa_hints,
            w.poseidon_hints == self.poseidon_hints,
            w.app_outputs_bytes == self.app_outputs_bytes,
            w.change_outputs_bytes == self.change_outputs_bytes,
            w.app_fields == self.app_fields,
            w.preimage == self.preimage,
            w.user_signature == self.user_signature,
    {
        let mut w = self;
        w.sponsor_signature = Some(sig);
        w
    }

    pub fn compute_hash_outputs(&self) -> (h: [u8; 32])
        ensures
            h@ == self.hash_outputs(),
    {
        let mut full_bytes: Vec<u8> = Vec::new();
        full_bytes.extend_from_slice(self.app_outputs_bytes.as_slice());
        full_bytes.extend_from_slice(self.change_outputs_bytes.as_slice());
        assert(full_bytes@ =~= self.app_outputs_bytes@ + self.change_outputs_bytes@);
        double_sha256(full_bytes.as_slice())
    }

    /// Holds the digest of the outputs against the one in the preimage,
    /// which lies in its bytes 100 to 131. Refused as invalid input when
    /// the preimage is shorter than 132 bytes, as a binding mismatch when
    /// the digests differ.
    pub fn verify_reconstruction(&self) -> (r: Result<(), GuardError>)
        ensures
            r is Ok <==> self.preimage@.len() >= 132 && self.preimage@.subrange(100, 132)
                == self.hash_outputs(),
            match r {
                Ok(_) => true,
                Err(GuardError::InvalidInput(message)) => self.preimage@.len() < 132 && message@
                    == "Preimage too short"@,
                Err(GuardError::BindingMismatch) => self.preimage@.len() >= 132,
            },
    {
        if self.preimage.len() < 132 {
            return Err(GuardError::InvalidInput("Preimage too short".to_string()));
        }
        let computed = self.compute_hash_outputs();
        let mut i: usize = 0;
        while i < 32
            invariant
                0 <= i <= 32,
                self.preimage@.len() >= 132,
                computed@ == self.hash_outputs(),
                forall|j: int| 0 <= j < i ==> self.preimage@[100 + j] == computed@[j],
            decreases 32 - i,
        {
            if self.preimage[100 + i] != computed[i] {
                assert(self.preimage@.subrange(100, 132)[i as int] != computed@[i as int]);
                return Err(GuardError::BindingMismatch);
            }
            i += 1;
        }
        assert(self.preimage@.subrange(100, 132) =~= computed@);
        Ok(())
    }

    pub fn to_script_sig(&self) -> (script: Vec<u8>)
        ensures
            script@ == self.script_sig(),
    {
        let mut script: Vec<u8> = Vec::new();
        match &self.sponsor_signature {
            Some(sig) => {
                let mut p = push_data(sig.to_bytes().as_slice());
                script.append(&mut p);
            },
            None => {},
        }
        let mut user = push_data(self.user_signature.to_bytes().as_slice());
        script.append(&mut user);
        let mut pre = push_data(self.preimage.as_slice());
        script.append(&mut pre);
        let mut change = push_data(self.change_outputs_bytes.as_slice());
        script.append(&mut change);
        let mut app = push_data(self.app_outputs_bytes.as_slice());
        script.append(&mut app);
        let mut poseidon = push_data(self.poseidon_hints.to_bytes().as_slice());
        script.append(&mut poseidon);
        let mut ipa = push_data(self.ipa_hints.to_bytes().as_slice());
        script.append(&mut ipa);
        let mut last = push_data(self.proof.to_bytes().as_slice());
        script.append(&mut last);
        assert(script@ =~= self.script_sig());
        script
    }

    pub fn estimate_size(&self) -> (n: usize)
        requires
            self.estimate() <= usize::MAX,
        ensures
            n == self.estimate(),
    {
        let mut size: usize = 0;
        size += self.proof.to_bytes().len() + 3;
        size += self.ipa_hints.to_bytes().len() + 3;
        size += self.poseidon_hints.to_bytes().len() + 3;
        size += self.app_outputs_bytes.len() + 3;
        size += self.change_outputs_bytes.len() + 3;
        size += self.preimage.len() + 3;
        size += self.user_signature.size() + 1;
        match &self.sponsor_signature {
            Some(sig) => {
                size += sig.size() + 1;
            },
            None => {},
        }
        size
    }
}

/// The witness of a strict spend.
#[derive(Clone, Debug)]
pub struct StrictWitness {
    pub proof: Proof,
    pub ipa_hints: IpaHints,
    pub poseidon_hints: PoseidonHints,
    pub preimage: Vec<u8>,
    pub signature: EcdsaSignature,
}

impl StrictWitness {
    /// The unlocking script: the signature, the preimage, the hints and
    /// the proof.
    pub open spec fn script_sig(&self) -> Seq<u8> {
        push_data_spec(self.signature.bytes()) + push_data_spec(self.preimage@) + push_data_spec(
            self.poseidon_hints.bytes(),
        ) + push_data_spec(self.ipa_hints.bytes()) + push_data_spec(self.proof.bytes@)
    }

    pub open spec fn estimate(&self) -> int {
        (self.proof.bytes@.len() + 3 + self.ipa_hints.bytes().len() + 3
            + self.poseidon_hints.bytes().len() + 3 + self.preimage@.len() + 3
            + self.signature.der_bytes@.len() + 2) as int
    }

    pub fn new(
        proof: Proof,
        ipa_hints: IpaHints,
        poseidon_hints: PoseidonHints,
        preimage: Vec<u8>,
    ) -> (w: Self)
        ensures
            w.proof == proof,
            w.ipa_hints == ipa_hints,
            w.poseidon_hints == poseidon_hints,
            w.preimage == preimage,
            w.signature.sighash_flag == 0x41,
            w.signature.der_bytes@ == Seq::new(70, |i: int| 0x30u8),
    {
        Self { proof, ipa_hints, poseidon_hints, preimage, signature: EcdsaSignature::default() }
    }

    pub fn with_signature(self, sig: EcdsaSignature) -> (w: Self)
        ensures
            w.signature == sig,
            w.proof == self.proof,
            w.ipa_hints == self.ipa_hints,
            w.poseidon_hints == self.poseidon_hints,
            w.preimage == self.preimage,
    {
        let mut w = self;
        w.signature = sig;
        w
    }

    pub fn to_script_sig(&self) -> (script: Vec<u8>)
        ensures
            script@ == self.script_sig(),
    {
        let mut script = push_data(self.signature.to_bytes().as_slice());
        let mut pre = push_data(self.preimage.as_slice());
        script.append(&mut pre);
        let mut poseidon = push_data(self.poseidon_hints.to_bytes().as_slice());
        script.append(&mut poseidon);
        let mut ipa = push_data(self.ipa_hints.to_bytes().as_slice());
        script.append(&mut ipa);
        let mut last = push_data(self.proof.to_bytes().as_slice());
        script.append(&mut last);
        script
    }

    pub fn estimate_size(&self) -> (n: usize)
        requires
            self.estimate() <= usize::MAX,
        ensures
            n == self.estimate(),
    {
        let mut size: usize = 0;
        size += self.proof.to_bytes().len() + 3;
        size += self.ipa_hints.to_bytes().len() + 3;
        size += self.poseidon_hints.to_bytes().len() + 3;
        size += self.preimage.len() + 3;
        size += self.signature.size() + 1;
        size
    }
}

/// What a builder holds.
pub struct BuilderParts {
    pub proof: Option<Proof>,
    pub ipa_hints: Option<IpaHints>,
    pub poseidon_hints: Option<PoseidonHints>,
    pub app_outputs: Seq<u8>,
    pub change_outputs: Seq<u8>,
    pub app_fields: Seq<Fp>,
    pub preimage: Option<Vec<u8>>,
    pub user_signature: Option<EcdsaSignature>,
    pub sponsor_signature: Option<EcdsaSignature>,
}

/// Collects the parts of a paymaster witness.
pub struct PaymasterWitnessBuilder {
    proof: Option<Proof>,
    ipa_hints: Option<IpaHints>,
    poseidon_hints: Option<PoseidonHints>,
    app_outputs: Vec<u8>,
    change_outputs: Vec<u8>,
    app_fields: Vec<Fp>,
    preimage: Option<Vec<u8>>,
    user_signature: Option<EcdsaSignature>,
    sponsor_signature: Option<EcdsaSignature>,
}

impl View for PaymasterWitnessBuilder {
    type V = BuilderParts;

    closed spec fn view(&self) -> BuilderParts {
        BuilderParts {
            proof: self.proof,
            ipa_hints: self.ipa_hints,
            poseidon_hints: self.poseidon_hints,
            app_outputs: self.app_outputs@,
            change_outputs: self.change_outputs@,
            app_fields: self.app_fields@,
            preimage: self.preimage,
            user_signature: self.user_signature,
            sponsor_signature: self.sponsor_signature,
        }
    }
}

impl Default for PaymasterWitnessBuilder {
    fn default() -> (b: Self)
        ensures
            b@.proof is None,
            b@.ipa_hints is None,
            b@.poseidon_hints is None,
            b@.preimage is None,
            b@.user_signature is None,
            b@.sponsor_signature is None,
            b@.app_outputs.len() == 0,
            b@.change_outputs.len() == 0,
            b@.app_fields.len() == 0,
    {
        Self::new()
    }
}

impl PaymasterWitnessBuilder {
    /// The four parts that a witness cannot do without are there: the
    /// proof, the two kinds of hints, the preimage.
    pub open spec fn complete(&self) -> bool {
        self@.proof is Some && self@.ipa_hints is Some && self@.poseidon_hints is Some
            && self@.preimage is Some
    }

    /// What `build` answers when a part is missing: it names the first
    /// missing one.
    pub open spec fn refusal(&self) -> Seq<char> {
        if self@.proof is None {
            "Missing proof"@
        } else if self@.ipa_hints is None {
            "Missing IPA hints"@
        } else if self@.poseidon_hints is None {
            "Missing Poseidon hints"@
        } else {
            "Missing preimage"@
        }
    }

    pub fn new() -> (b: Self)
        ensures
            b@ == (BuilderParts {
                proof: None,
                ipa_hints: None,
                poseidon_hints: None,
                app_outputs: Seq::empty(),
                change_outputs: Seq::empty(),
                app_fields: Seq::empty(),
                preimage: None,
                user_signature: None,
                sponsor_signature: None,
            }),
    {
        Self {
            proof: None,
            ipa_hints: None,
            poseidon_hints: None,
            app_outputs: Vec::new(),
            change_outputs: Vec::new(),
            app_fields: Vec::new(),
            preimage: None,
            user_signature: None,
            sponsor_signature: None,
        }
    }

    pub fn with_proof(self, proof: Proof) -> (b: Self)
        ensures
            b@ == (BuilderParts { proof: Some(proof), ..self@ }),
    {
        let mut b = self;
        b.proof = Some(proof);
        b
    }

    pub fn ipa_hints(self, hints: IpaHints) -> (b: Self)
        ensures
            b@ == (BuilderParts { ipa_hints: Some(hints), ..self@ }),
    {
        let mut b = self;
        b.ipa_hints = Some(hints);
        b
    }

    pub fn poseidon_hints(self, hints: PoseidonHints) -> (b: Self)
        ensures
            b@ == (BuilderParts { poseidon_hints: Some(hints), ..self@ }),
    {
        let mut b = self;
        b.poseidon_hints = Some(hints);
        b
    }

    /// Appends one serialized application output and its field.
    pub fn app_output(self, output: &[u8], field: Fp) -> (b: Self)
        ensures
            b@ == (BuilderParts {
                app_outputs: self@.app_outputs + output@,
                app_fields: self@.app_fields.push(field),
                ..self@
            }),
    {
        let mut b = self;
        b.app_outputs.extend_from_slice(output);
        b.app_fields.push(field);
        assert(b.app_outputs@ =~= self.app_outputs@ + output@);
        assert(b.app_fields@ =~= self.app_fields@.push(field));
        b
    }

    /// Sets the serialized application outputs and their fields.
    pub fn app_outputs(self, outputs: Vec<u8>, fields: Vec<Fp>) -> (b: Self)
        ensures
            b@ == (BuilderParts { app_outputs: outputs@, app_fields: fields@, ..self@ }),
    {
        let mut b = self;
        b.app_outputs = outputs;
        b.app_fields = fields;
        b
    }

    /// Appends one serialized change output.
    pub fn change_output(self, output: &[u8]) -> (b: Self)
        ensures
            b@ == (BuilderParts { change_outputs: self@.change_outputs + output@, ..self@ }),
    {
        let mut b = self;
        b.change_outputs.extend_from_slice(output);
        assert(b.change_outputs@ =~= self.change_outputs@ + output@);
        b
    }

    /// Sets the serialized change outputs.
    pub fn change_outputs(self, outputs: Vec<u8>) -> (b: Self)
        ensures
            b@ == (BuilderParts { change_outputs: outputs@, ..self@ }),
    {
        let mut b = self;
        b.change_outputs = outputs;
        b
    }

    pub fn preimage(self, preimage: Vec<u8>) -> (b: Self)
        ensures
            b@ == (BuilderParts { preimage: Some(preimage), ..self@ }),
    {
        let mut b = self;
        b.preimage = Some(preimage);
        b
    }

    pub fn user_signature(self, sig: EcdsaSignature) -> (b: Self)
        ensures
            b@ == (BuilderParts { user_signature: Some(sig), ..self@ }),
    {
        let mut b = self;
        b.user_signature = Some(sig);
        b
    }

    pub fn sponsor_signature(self, sig: EcdsaSignature) -> (b: Self)
        ensures
            b@ == (BuilderParts { sponsor_signature: Some(sig), ..self@ }),
    {
        let mut b = self;
        b.sponsor_signature = Some(sig);
        b
    }

    /// The witness; refused as invalid input when the proof, the hints or
    /// the preimage is missing. Without a user's signature the witness
    /// keeps the stand-in.
    pub fn build(self) -> (r: Result<PaymasterWitness, GuardError>)
        ensures
            r is Ok <==> self.complete(),
            match r {
                Ok(w) => {
                    &&& Some(w.proof) == self@.proof
                    &&& Some(w.ipa_hints) == self@.ipa_hints
                    &&& Some(w.poseidon_hints) == self@.poseidon_hints
                    &&& Some(w.preimage) == self@.preimage
                    &&& w.app_outputs_bytes@ == self@.app_outputs
                    &&& w.change_outputs_bytes@ == self@.change_outputs
                    &&& w.app_fields@ == self@.app_fields
                    &&& w.sponsor_signature == self@.sponsor_signature
                    &&& match self@.user_signature {
                        Some(sig) => w.user_signature == sig,
                        None => w.user_signature.sighash_flag == 0x41
                            && w.user_signature.der_bytes@ == Seq::new(70, |i: int| 0x30u8),
                    }
                },
                Err(GuardError::InvalidInput(message)) => message@ == self.refusal(),
                Err(GuardError::BindingMismatch) => false,
            },
    {
        let given = self.proof;
        let proof_part = match given {
            Some(p) => p,
            None => {
                return Err(GuardError::InvalidInput("Missing proof".to_string()));
            },
        };
        let ipa_hints = match self.ipa_hints {
            Some(h) => h,
            None => {
                return Err(GuardError::InvalidInput("Missing IPA hints".to_string()));
            },
        };
        let poseidon_hints = match self.poseidon_hints {
            Some(h) => h,
            None => {
                return Err(GuardError::InvalidInput("Missing Poseidon hints".to_string()));
            },
        };
        let preimage = match self.preimage {
            Some(p) => p,
            None => {
                return Err(GuardError::InvalidInput("Missing preimage".to_string()));
            },
        };
        let mut witness = PaymasterWitness::new(
            proof_part,
            ipa_hints,
            poseidon_hints,
            self.app_outputs,
            self.change_outputs,
            self.app_fields,
            preimage,
        );
        match self.user_signature {
            Some(sig) => {
                witness = witness.with_user_signature(sig);
            },
            None => {},
        }
        match self.sponsor_signature {
            Some(sig) => {
                witness = witness.with_sponsor_signature(sig);
            },
            None => {},
        }
        Ok(witness)
    }
}

} // verus!
