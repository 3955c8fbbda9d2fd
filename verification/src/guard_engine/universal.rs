//! The universal guard: the three stages put together for one
//! configuration.

use vstd::prelude::*;
use crate::guard_engine::cleanup::{cleanup_script, StackCleanup};
use crate::guard_engine::verify_binding::{paymaster_script, strict_script, VerifyBinding};
use crate::guard_engine::verify_public::{verify_public_script, VerifyPublicData};
use crate::hints::{IpaHints, PoseidonHints};

verus! {

/// How the outputs are bound: all of them, or the application's part.
#[derive(Clone, Copy, Debug, PartialEq, Eq)]
pub enum BindingMode {
    Strict,
    Partial,
}

/// Why a configuration is refused.
#[derive(Clone, Debug)]
pub enum GuardError {
    InvalidInput(String),
    BindingMismatch,
}

/// What a universal guard is built for.
#[derive(Clone, Debug)]
pub struct GuardConfig {
    pub num_inputs: usize,
    pub num_app_outputs: usize,
    pub binding_mode: BindingMode,
    pub preserve_message_hash: bool,
    pub ipa_hints: Option<IpaHints>,
    pub poseidon_hints: Option<PoseidonHints>,
}

impl GuardConfig {
    /// The witnesses' fields fit the machine.
    pub open spec fn wf(&self) -> bool {
        (self.num_inputs + self.num_app_outputs) * 50 + 2750 <= usize::MAX
    }

    /// The number of items that the guard finds on the stack: the proof,
    /// three fields per input and per output, and three more.
    pub open spec fn stack_size(&self) -> int {
        1 + self.num_inputs * 3 + self.num_app_outputs * 3 + 3
    }

    /// The number of items that cleanup is told to drop.
    pub open spec fn to_drop(&self) -> int {
        self.stack_size() - 1 - if self.preserve_message_hash {
            1int
        } else {
            0int
        }
    }

    pub fn new(num_inputs: usize, num_app_outputs: usize) -> (c: Self)
        ensures
            c.num_inputs == num_inputs,
            c.num_app_outputs == num_app_outputs,
            c.binding_mode == BindingMode::Strict,
            c.preserve_message_hash,
            c.ipa_hints is None,
            c.poseidon_hints is None,
    {
        Self {
            num_inputs,
            num_app_outputs,
            binding_mode: BindingMode::Strict,
            preserve_message_hash: true,
            ipa_hints: None,
            poseidon_hints: None,
        }
    }

    pub fn strict(self) -> (c: Self)
        ensures
            c.binding_mode == BindingMode::Strict,
            c.num_inputs == self.num_inputs,
            c.num_app_outputs == self.num_app_outputs,
            c.preserve_message_hash == self.preserve_message_hash,
            c.ipa_hints == self.ipa_hints,
            c.poseidon_hints == self.poseidon_hints,
    {
        let mut c = self;
        c.binding_mode = BindingMode::Strict;
        c
    }

    pub fn paymaster(self, _max_sponsor_fee: u64) -> (c: Self)
        ensures
            c.binding_mode == BindingMode::Partial,
            c.num_inputs == self.num_inputs,
            c.num_app_outputs == self.num_app_outputs,
            c.preserve_message_hash == self.preserve_message_hash,
            c.ipa_hints == self.ipa_hints,
            c.poseidon_hints == self.poseidon_hints,
    {
        let mut c = self;
        c.binding_mode = BindingMode::Partial;
        c
    }

    pub fn preserve_message(self, preserve: bool) -> (c: Self)
        ensures
            c.preserve_message_hash == preserve,
            c.binding_mode == self.binding_mode,
            c.num_inputs == self.num_inputs,
            c.num_app_outputs == self.num_app_outputs,
            c.ipa_hints == self.ipa_hints,
            c.poseidon_hints == self.poseidon_hints,
    {
        let mut c = self;
        c.preserve_message_hash = preserve;
        c
    }

    pub fn with_ipa_hints(self, hints: IpaHints) -> (c: Self)
        ensures
            c.ipa_hints == Some(hints),
            c.binding_mode == self.binding_mode,
            c.num_inputs == self.num_inputs,
            c.num_app_outputs == self.num_app_outputs,
            c.preserve_message_hash == self.preserve_message_hash,
            c.poseidon_hints == self.poseidon_hints,
    {
        let mut c = self;
        c.ipa_hints = Some(hints);
        c
    }

    pub fn with_poseidon_hints(self, hints: PoseidonHints) -> (c: Self)
        ensures
            c.poseidon_hints == Some(hints),
            c.binding_mode == self.binding_mode,
            c.num_inputs == self.num_inputs,
            c.num_app_outputs == self.num_app_outputs,
            c.preserve_message_hash == self.preserve_message_hash,
            c.ipa_hints == self.ipa_hints,
    {
        let mut c = self;
        c.poseidon_hints = Some(hints);
        c
    }

    pub fn expected_stack_size(&self) -> (n: usize)
        requires
            self.wf(),
        ensures
            n == self.stack_size(),
    {
        1 + (self.num_inputs * 3) + (self.num_app_outputs * 3) + 3
    }

    pub fn items_to_drop(&self) -> (n: usize)
        requires
            self.wf(),
        ensures
            n == self.to_drop(),
    {
        self.expected_stack_size() - 1 - if self.preserve_message_hash {
            1
        } else {
            0
        }
    }
}

impl Default for GuardConfig {
    fn default() -> (c: Self)
        ensures
            c.num_inputs == 1,
            c.num_app_outputs == 1,
            c.binding_mode == BindingMode::Strict,
            c.preserve_message_hash,
            c.ipa_hints is None,
            c.poseidon_hints is None,
    {
        Self::new(1, 1)
    }
}

/// The two verification stages for a configuration.
pub open spec fn verification_script(c: GuardConfig) -> Seq<u8> {
    verify_public_script(c.num_inputs + c.num_app_outputs) + match c.binding_mode {
        BindingMode::Strict => strict_script(c.num_app_outputs as int),
        BindingMode::Partial => paymaster_script(c.num_app_outputs as int),
    }
}

/// The whole guard for a configuration: verification, then a cleanup that
/// keeps the tail's item and, where asked for, the message.
pub open spec fn universal_script(c: GuardConfig) -> Seq<u8> {
    verification_script(c) + cleanup_script(c.to_drop(), true, c.preserve_message_hash)
}

/// The guard that fits every spending condition.
pub struct UniversalGuard {
    config: GuardConfig,
}

impl UniversalGuard {
    pub closed spec fn settings(&self) -> GuardConfig {
        self.config
    }

    pub fn new(config: GuardConfig) -> (g: Self)
        ensures
            g.settings() == config,
    {
        Self { config }
    }

    pub fn default_config(num_inputs: usize, num_app_outputs: usize) -> (g: Self)
        ensures
            g.settings().num_inputs == num_inputs,
            g.settings().num_app_outputs == num_app_outputs,
            g.settings().binding_mode == BindingMode::Strict,
            g.settings().preserve_message_hash,
            g.settings().ipa_hints is None,
            g.settings().poseidon_hints is None,
    {
        Self::new(GuardConfig::new(num_inputs, num_app_outputs))
    }

    pub fn strict(num_inputs: usize, num_app_outputs: usize) -> (g: Self)
        ensures
            g.settings().num_inputs == num_inputs,
            g.settings().num_app_outputs == num_app_outputs,
            g.settings().binding_mode == BindingMode::Strict,
            g.settings().preserve_message_hash,
            g.settings().ipa_hints is None,
            g.settings().poseidon_hints is None,
    {
        Self::new(GuardConfig::new(num_inputs, num_app_outputs).strict())
    }

    pub fn paymaster(num_inputs: usize, num_app_outputs: usize, max_fee: u64) -> (g: Self)
        ensures
            g.settings().num_inputs == num_inputs,
            g.settings().num_app_outputs == num_app_outputs,
            g.settings().binding_mode == BindingMode::Partial,
            g.settings().preserve_message_hash,
            g.settings().ipa_hints is None,
            g.settings().poseidon_hints is None,
    {
        Self::new(GuardConfig::new(num_inputs, num_app_outputs).paymaster(max_fee))
    }

    pub fn build(&self) -> (script: Vec<u8>)
        requires
            self.settings().wf(),
        ensures
            script@ == universal_script(self.settings()),
    {
        let mut script = self.build_verification();
        let cleanup = StackCleanup::new(self.config.items_to_drop()).preserve_tail(
            true,
        ).preserve_message(self.config.preserve_message_hash);
        let mut rest = cleanup.build();
        script.append(&mut rest);
        script
    }

    pub fn build_verification(&self) -> (script: Vec<u8>)
        requires
            self.settings().wf(),
        ensures
            script@ == verification_script(self.settings()),
    {
        let mut script: Vec<u8> = Vec::new();
        let verify_public = VerifyPublicData::new(
            self.config.num_inputs,
            self.config.num_app_outputs,
        );
        let mut first = verify_public.build();
        script.append(&mut first);
        let verify_binding = VerifyBinding::new(
            self.config.num_app_outputs,
            self.config.binding_mode,
        );
        let mut second = verify_binding.build();
        script.append(&mut second);
        script
    }

    pub fn config(&self) -> (c: &GuardConfig)
        ensures
            *c == self.settings(),
    {
        &self.config
    }

    /// The expected size: 500 bytes and 50 per witness for the public
    /// data, 200 for the binding, 50 for the cleanup, and the hints, or
    /// 2000 bytes where none are given.
    pub fn size_estimate(&self) -> (n: usize)
        requires
            self.settings().wf(),
            self.settings().ipa_hints is Some ==> (self.settings().num_inputs
                + self.settings().num_app_outputs) * 50 + 815
                + self.settings().ipa_hints.unwrap().rounds@.len() * 131 <= usize::MAX,
        ensures
            n == (self.settings().num_inputs + self.settings().num_app_outputs) * 50 + 750
                + match self.settings().ipa_hints {
                Some(h) => h.rounds@.len() * 131 + 65,
                None => 2000,
            },
    {
        let verify_public_size: usize = 500 + (self.config.num_inputs
            + self.config.num_app_outputs) * 50;
        let verify_binding_size: usize = 200;
        let cleanup_size: usize = 50;
        let ipa_hints_size: usize = match &self.config.ipa_hints {
            Some(h) => h.size(),
            None => 2000,
        };
        verify_public_size + verify_binding_size + cleanup_size + ipa_hints_size
    }

    /// What `validate` answers to a configuration that it refuses.
    pub open spec fn refusal(c: GuardConfig) -> Seq<char> {
        if c.num_inputs == 0 {
            "At least one input required"@
        } else if c.num_inputs > 16 {
            "Too many inputs (max 16)"@
        } else {
            "Too many outputs (max 16)"@
        }
    }

    /// A guard takes one to sixteen inputs and at most sixteen outputs.
    pub fn validate(&self) -> (r: Result<(), GuardError>)
        ensures
            r is Ok <==> 1 <= self.settings().num_inputs <= 16
                && self.settings().num_app_outputs <= 16,
            match r {
                Ok(_) => true,
                Err(GuardError::InvalidInput(message)) => message@ == Self::refusal(
                    self.settings(),
                ),
                Err(GuardError::BindingMismatch) => false,
            },
    {
        if self.config.num_inputs == 0 {
            return Err(GuardError::InvalidInput("At least one input required".to_string()));
        }
        if self.config.num_inputs > 16 {
            return Err(GuardError::InvalidInput("Too many inputs (max 16)".to_string()));
        }
        if self.config.num_app_outputs > 16 {
            return Err(GuardError::InvalidInput("Too many outputs (max 16)".to_string()));
        }
        Ok(())
    }
}

} // verus!
