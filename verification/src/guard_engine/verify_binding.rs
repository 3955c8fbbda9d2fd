//! The second stage of the guard: serialize the outputs and hold their
//! digest against the one in the preimage.

use vstd::prelude::*;
use crate::guard_engine::universal::BindingMode;
use crate::opcodes::{
    OP_1, OP_2, OP_3, OP_4, OP_CAT, OP_DROP, OP_DUP, OP_EQUALVERIFY, OP_FALSE, OP_PICK, OP_SHA256,
    OP_SIZE, OP_SPLIT, OP_SWAP,
};

verus! {

/// The size of one serialized output.
pub const OUTPUT_SERIALIZED_SIZE: usize = 41;

/// The opcode that pushes `n`, for `n` up to 4; the one for 4 beyond.
pub open spec fn op_n_spec(n: int) -> u8 {
    if n == 0 {
        OP_FALSE
    } else if 1 <= n <= 4 {
        (0x50 + n) as u8
    } else {
        OP_4
    }
}

pub fn op_n(n: usize) -> (op: u8)
    ensures
        op == op_n_spec(n as int),
{
    match n {
        0 => OP_FALSE,
        1 => OP_1,
        2 => OP_2,
        3 => OP_3,
        4 => OP_4,
        _ => OP_4,
    }
}

/// The push of a number as this stage writes it: the dedicated opcode up
/// to 16, else a length byte and the little-endian value in one to four
/// bytes.
pub open spec fn push_number_spec(n: nat) -> Seq<u8> {
    if n == 0 {
        seq![OP_FALSE]
    } else if n <= 16 {
        seq![(0x50 + n) as u8]
    } else if n <= 0x7F {
        seq![0x01u8, n as u8]
    } else if n <= 0x7FFF {
        seq![0x02u8, (n % 256) as u8, (n / 256) as u8]
    } else if n <= 0x7FFFFF {
        seq![0x03u8, (n % 256) as u8, ((n / 256) % 256) as u8, ((n / 65536) % 256) as u8]
    } else {
        seq![
            0x04u8,
            (n % 256) as u8,
            ((n / 256) % 256) as u8,
            ((n / 65536) % 256) as u8,
            ((n / 16777216) % 256) as u8,
        ]
    }
}

pub fn push_number(n: usize) -> (script: Vec<u8>)
    ensures
        script@ == push_number_spec(n as nat),
{
    let mut script: Vec<u8> = Vec::new();
    if n == 0 {
        script.push(OP_FALSE);
    } else if n <= 16 {
        script.push((0x50 + n) as u8);
    } else if n <= 0x7F {
        script.push(0x01);
        script.push(n as u8);
    } else if n <= 0x7FFF {
        script.push(0x02);
        script.push((n % 256) as u8);
        script.push((n / 256) as u8);
    } else if n <= 0x7FFFFF {
        script.push(0x03);
        script.push((n % 256) as u8);
        script.push(((n / 256) % 256) as u8);
        script.push(((n / 65536) % 256) as u8);
    } else {
        script.push(0x04);
        script.push((n % 256) as u8);
        script.push(((n / 256) % 256) as u8);
        script.push(((n / 65536) % 256) as u8);
        script.push(((n / 16777216) % 256) as u8);
    }
    assert(script@ =~= push_number_spec(n as nat));
    script
}

/// Fetches the two fields of one output and joins them, with a length byte
/// between, to what is serialized already. `base` is the depth of the
/// output's first field.
pub open spec fn serialize_output_script(base: int) -> Seq<u8> {
    seq![
        op_n_spec(base + 2),
        OP_PICK,
        op_n_spec(base + 2),
        OP_PICK,
        OP_SWAP,
        0x01u8,
        0x20u8,
        OP_CAT,
        OP_CAT,
        OP_CAT,
    ]
}

/// The scripts for the first `n` of `total` outputs, after the empty
/// string they start from.
pub open spec fn serialize_outputs_script(total: int, n: nat) -> Seq<u8>
    decreases n,
{
    if n == 0 {
        seq![OP_FALSE]
    } else {
        serialize_outputs_script(total, (n - 1) as nat) + serialize_output_script(
            3 + (total - n) * 3,
        )
    }
}

/// Cuts the digest of the outputs out of the preimage: the 32 bytes that
/// start 40 bytes before its end.
pub open spec fn extract_hash_outputs_script() -> Seq<u8> {
    seq![
        OP_1,
        OP_PICK,
        OP_SIZE,
        0x01u8,
        40u8,
        0x94u8,
        OP_SPLIT,
        0x01u8,
        32u8,
        OP_SPLIT,
        OP_DROP,
        OP_SWAP,
        OP_DROP,
    ]
}

/// The strict stage: all outputs are the application's.
pub open spec fn strict_script(total: int) -> Seq<u8> {
    serialize_outputs_script(total, total as nat) + seq![OP_SHA256, OP_SHA256]
        + extract_hash_outputs_script() + seq![OP_EQUALVERIFY]
}

/// The paymaster stage: the application's outputs have their expected
/// length and the sponsor's follow them.
pub open spec fn paymaster_script(total: int) -> Seq<u8> {
    serialize_outputs_script(total, total as nat) + seq![OP_DUP, OP_SIZE] + push_number_spec(
        (total * 41) as nat,
    ) + seq![
        OP_EQUALVERIFY,
        OP_2,
        OP_PICK,
        OP_DUP,
        OP_SIZE,
        OP_SWAP,
        OP_CAT,
        OP_SHA256,
        OP_SHA256,
    ] + extract_hash_outputs_script() + seq![OP_EQUALVERIFY]
}

/// The stage for a given number of application outputs.
pub struct VerifyBinding {
    num_app_outputs: usize,
    binding_mode: BindingMode,
}

impl VerifyBinding {
    pub closed spec fn outputs(&self) -> usize {
        self.num_app_outputs
    }

    pub closed spec fn mode(&self) -> BindingMode {
        self.binding_mode
    }

    /// The outputs' fields and serialized length fit the machine.
    pub open spec fn wf(&self) -> bool {
        self.outputs() * 41 + 5 <= usize::MAX
    }

    pub fn new(num_app_outputs: usize, binding_mode: BindingMode) -> (v: Self)
        ensures
            v.outputs() == num_app_outputs,
            v.mode() == binding_mode,
    {
        Self { num_app_outputs, binding_mode }
    }

    pub fn build(&self) -> (script: Vec<u8>)
        requires
            self.wf(),
        ensures
            script@ == match self.mode() {
                BindingMode::Strict => strict_script(self.outputs() as int),
                BindingMode::Partial => paymaster_script(self.outputs() as int),
            },
    {
        match self.binding_mode {
            BindingMode::Strict => self.build_strict(),
            BindingMode::Partial => self.build_paymaster(),
        }
    }

    pub fn build_strict(&self) -> (script: Vec<u8>)
        requires
            self.wf(),
        ensures
            script@ == strict_script(self.outputs() as int),
    {
        let mut script = self.serialize_outputs();
        script.push(OP_SHA256);
        script.push(OP_SHA256);
        let mut extract = self.extract_hash_outputs();
        script.append(&mut extract);
        script.push(OP_EQUALVERIFY);
        assert(script@ =~= strict_script(self.outputs() as int));
        script
    }

    pub fn build_paymaster(&self) -> (script: Vec<u8>)
        requires
            self.wf(),
        ensures
            script@ == paymaster_script(self.outputs() as int),
    {
        let mut script = self.serialize_outputs();
        let expected_app_length: usize = self.num_app_outputs * 41;
        script.push(OP_DUP);
        script.push(OP_SIZE);
        let mut length = push_number(expected_app_length);
        script.append(&mut length);
        script.push(OP_EQUALVERIFY);
        script.push(OP_2);
        script.push(OP_PICK);
        script.push(OP_DUP);
        script.push(OP_SIZE);
        script.push(OP_SWAP);
        script.push(OP_CAT);
        script.push(OP_SHA256);
        script.push(OP_SHA256);
        let mut extract = self.extract_hash_outputs();
        script.append(&mut extract);
        script.push(OP_EQUALVERIFY);
        assert(script@ =~= paymaster_script(self.outputs() as int));
        script
    }

    pub fn serialize_outputs(&self) -> (script: Vec<u8>)
        requires
            self.wf(),
        ensures
            script@ == serialize_outputs_script(self.outputs() as int, self.outputs() as nat),
    {
        let mut script: Vec<u8> = Vec::new();
        script.push(OP_FALSE);
        let total: usize = self.num_app_outputs;
        let mut i: usize = 0;
        while i < total
            invariant
                0 <= i <= total,
                total * 41 + 5 <= usize::MAX,
                script@ == serialize_outputs_script(total as int, i as nat),
            decreases total - i,
        {
            let output_base: usize = 3 + (total - 1 - i) * 3;
            script.push(op_n(output_base + 1 + 1));
            script.push(OP_PICK);
            script.push(op_n(output_base + 0 + 2));
            script.push(OP_PICK);
            script.push(OP_SWAP);
            script.push(0x01);
            script.push(0x20);
            script.push(OP_CAT);
            script.push(OP_CAT);
            script.push(OP_CAT);
            i += 1;
            assert(script@ =~= serialize_outputs_script(total as int, i as nat));
        }
        script
    }

    pub fn extract_hash_outputs(&self) -> (script: Vec<u8>)
        ensures
            script@ == extract_hash_outputs_script(),
    {
        let mut script: Vec<u8> = Vec::new();
        script.push(OP_1);
        script.push(OP_PICK);
        script.push(OP_SIZE);
        script.push(0x01);
        script.push(40);
        script.push(0x94);
        script.push(OP_SPLIT);
        script.push(0x01);
        script.push(32);
        script.push(OP_SPLIT);
        script.push(OP_DROP);
        script.push(OP_SWAP);
        script.push(OP_DROP);
        script
    }
}

} // verus!
