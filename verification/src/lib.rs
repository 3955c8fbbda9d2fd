//! Compiler from a Poseidon permutation and an inner-product-argument
//! transcript check to bytecode for a size-bounded stack machine.

pub mod byte_machine;
pub mod field;
pub mod field_programs;
pub mod field_script;
pub mod fusion;
pub mod guard;
pub mod guard_engine;
pub mod hashing;
pub mod hints;
pub mod machine;
pub mod mullet;
pub mod opcodes;
pub mod poseidon;
pub mod poseidon_guard;
pub mod program_shapes;
pub mod proof_generator;
pub mod script_laws;
pub mod script_runs;
pub mod spends;
pub mod tail;
pub mod transcript;
pub mod verifier_contract;
pub mod witness;

pub use guard::{Guard, GuardType};
pub use guard_engine::{
    BindingMode, GuardConfig, GuardError, StackCleanup, UniversalGuard, VerifyBinding,
    VerifyPublicData,
};
pub use hints::{FoldingRound, IpaHints, PoseidonHints, PoseidonRoundHint};
pub use mullet::{MulletScript, MulletWitness, SighashPreimage, TailWitness};
pub use opcodes::{push_bytes, push_number, varint};
pub use proof_generator::{
    analyze_witness_sizes, generate_mock_proof, generate_mock_state_transition,
    IPAProofComponents, ProofGenerator, TranscriptBuilder, WitnessSerializer,
};
pub use tail::{
    AnyoneCanSpendTail, CustomTail, DualAuthTail, EcdsaTail, LamportTail, MultisigTail,
    SponsorTail, Tail, TailType,
};
pub use transcript::FieldElement;
pub use verifier_contract::{
    analyze_contract_sizes, ContractOutput, ContractSizeReport, ContractTransactionBuilder,
    IPAAccumulator, IPAStepWitness, VerifierContract,
};
pub use witness::{EcdsaSignature, PaymasterWitness};
