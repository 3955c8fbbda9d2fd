//! What the stored programs do when the machine runs their bytes on
//! items: the program of the witness pattern, and the program of the
//! contract up to its signature check.

use vstd::prelude::*;
use crate::byte_machine::{
    byte_run, byte_run_all, byte_run_script, byte_step, law_numbers_run, lemma_byte_run_concat,
    lemma_number_item_value, lemma_numbers_concat, lemma_run_numeric, lemma_run_on_side,
    number_item, numbers, numbers_of, numeric, on_side, ByteMachine,
};
use crate::field::{
    le_value, lemma_modulus_below_two_255, lemma_modulus_bytes, lemma_top_bit_clear, pallas_modulus,
    two_255, PALLAS_MODULUS_BYTES,
};
use crate::field_programs::prog_canonical_check;
use crate::field_script::{split_ops, standard_blob, witness_locking_script};
use crate::fusion::{
    permute_fused, standard_full_constants, standard_fused_constants, standard_permutation,
};
use crate::hashing::{ripemd160_digest, sha256_digest};
use crate::machine::{
    encode, encode_instr, lemma_encode_concat, lemma_encode_one, lemma_encode_ops,
    lemma_parse_encode, lemma_plain_concat, lemma_plain_ops, ops, plain, script_num_value, Instr,
    Machine,
};
use crate::opcodes::{
    push_bytes_spec, OP_1SUB, OP_CAT, OP_CHECKSIG, OP_DEPTH, OP_DUP, OP_EQUALVERIFY,
    OP_FROMALTSTACK, OP_HASH160, OP_LESSTHAN, OP_ROLL, OP_SHA256, OP_SPLIT, OP_TOALTSTACK,
};
use crate::poseidon::{standard_mds, Mat3, Triple};
use crate::program_shapes::lemma_shape_canonical_check;
use crate::script_laws::{
    blob_item, blob_items, constant_region, law_blob_layout, law_output_check, law_output_check_on,
    lemma_output_check_plain, prog_output_check,
};
use crate::tail::pay_to_key_hash;
use crate::verifier_contract::{contract_locking_script, open_record_script, raise_bottom_script};

verus! {

/// The instructions that set state and expected output aside and hold the
/// digest of the blob against `hash`.
pub open spec fn prog_commitment_check(hash: Seq<u8>) -> Seq<Instr> {
    ops(seq![OP_TOALTSTACK, OP_TOALTSTACK, OP_TOALTSTACK, OP_TOALTSTACK, OP_DUP, OP_SHA256]) + (
    seq![Instr::Data(hash)] + ops(seq![OP_EQUALVERIFY]))
}

/// `n` times: push the number 32, split.
pub open spec fn prog_splits(n: nat) -> Seq<Instr>
    decreases n,
{
    if n == 0 {
        Seq::<Instr>::empty()
    } else {
        prog_splits((n - 1) as nat) + seq![Instr::Data(seq![0x20u8]), Instr::Op(OP_SPLIT)]
    }
}

/// The stored program of the witness pattern as instructions.
pub open spec fn prog_witness(hash: Seq<u8>) -> Seq<Instr> {
    prog_commitment_check(hash) + (prog_splits(89) + prog_output_check())
}

/// The first `n` pieces of 32 bytes of `x`.
pub open spec fn pieces(x: Seq<u8>, n: nat) -> Seq<Seq<u8>> {
    Seq::new(n, |i: int| x.subrange(32 * i, 32 * i + 32))
}

/// The bytes of two instructions, which reading gives back.
proof fn lemma_pair_shape(a: Instr, b: Instr)
    requires
        plain(seq![a]),
        plain(seq![b]),
    ensures
        plain(seq![a, b]),
        encode(seq![a, b]) == encode_instr(a) + encode_instr(b),
{
    assert(seq![a, b] =~= seq![a] + seq![b]);
    lemma_encode_one(a);
    lemma_encode_one(b);
    lemma_encode_concat(seq![a], seq![b]);
    lemma_plain_concat(seq![a], seq![b]);
}

proof fn lemma_splits_shape(n: nat)
    ensures
        plain(prog_splits(n)),
        encode(prog_splits(n)) == split_ops(n),
    decreases n,
{
    if n == 0 {
        assert(encode(prog_splits(0)) =~= split_ops(0));
    } else {
        let before = prog_splits((n - 1) as nat);
        let push = Instr::Data(seq![0x20u8]);
        let cut = Instr::Op(OP_SPLIT);
        lemma_splits_shape((n - 1) as nat);
        lemma_pair_shape(push, cut);
        lemma_encode_concat(before, seq![push, cut]);
        assert(encode(seq![push, cut]) =~= seq![0x01u8, 0x20u8, OP_SPLIT]);
        lemma_plain_concat(before, seq![push, cut]);
    }
}

/// The stored program of the witness pattern is the bytes of its
/// instructions, and reading the bytes gives the instructions back.
pub proof fn lemma_witness_program(hash: Seq<u8>)
    requires
        hash.len() == 32,
    ensures
        plain(prog_witness(hash)),
        encode(prog_witness(hash)) == witness_locking_script(hash),
{
    let aside = seq![
        OP_TOALTSTACK,
        OP_TOALTSTACK,
        OP_TOALTSTACK,
        OP_TOALTSTACK,
        OP_DUP,
        OP_SHA256,
    ];
    let held = seq![Instr::Data(hash)];
    let same = seq![OP_EQUALVERIFY];
    lemma_encode_ops(aside);
    lemma_encode_ops(same);
    lemma_encode_one(Instr::Data(hash));
    lemma_encode_concat(held, ops(same));
    lemma_encode_concat(ops(aside), held + ops(same));
    lemma_plain_ops(aside);
    lemma_plain_ops(same);
    lemma_plain_concat(held, ops(same));
    lemma_plain_concat(ops(aside), held + ops(same));
    lemma_splits_shape(89);
    lemma_output_check_plain();
    lemma_encode_concat(prog_splits(89), prog_output_check());
    lemma_plain_concat(prog_splits(89), prog_output_check());
    lemma_encode_concat(prog_commitment_check(hash), prog_splits(89) + prog_output_check());
    lemma_plain_concat(prog_commitment_check(hash), prog_splits(89) + prog_output_check());
    let e1 = encode(prog_commitment_check(hash));
    let e2 = split_ops(89);
    let e3 = encode(prog_output_check());
    assert(e1 =~= aside + push_bytes_spec(hash) + same);
    assert(e1 + (e2 + e3) =~= e1 + e2 + e3);
}

/// The commitment check sets the four items on top aside and ends exactly
/// when the digest of the item below them is `hash`.
proof fn lemma_commitment_check(
    hash: Seq<u8>,
    bottom: Seq<Seq<u8>>,
    blob: Seq<u8>,
    a0: Seq<u8>,
    a1: Seq<u8>,
    a2: Seq<u8>,
    expected: Seq<u8>,
    m: ByteMachine,
)
    requires
        m.stack == bottom.push(blob).push(a0).push(a1).push(a2).push(expected),
    ensures
        byte_run_all(prog_commitment_check(hash), m) == if sha256_digest(blob) == hash {
            Some(
                ByteMachine {
                    stack: bottom.push(blob),
                    alt: m.alt.push(expected).push(a2).push(a1).push(a0),
                },
            )
        } else {
            None
        },
{
    let p = prog_commitment_check(hash);
    assert(p =~= seq![
        Instr::Op(OP_TOALTSTACK),
        Instr::Op(OP_TOALTSTACK),
        Instr::Op(OP_TOALTSTACK),
        Instr::Op(OP_TOALTSTACK),
        Instr::Op(OP_DUP),
        Instr::Op(OP_SHA256),
        Instr::Data(hash),
        Instr::Op(OP_EQUALVERIFY),
    ]);
    reveal_with_fuel(byte_run, 9);
    let s0 = m.stack;
    let s1 = bottom.push(blob).push(a0).push(a1).push(a2);
    let s2 = bottom.push(blob).push(a0).push(a1);
    let s3 = bottom.push(blob).push(a0);
    let s4 = bottom.push(blob);
    assert(s0.take(s0.len() - 1) =~= s1);
    assert(s1.take(s1.len() - 1) =~= s2);
    assert(s2.take(s2.len() - 1) =~= s3);
    assert(s3.take(s3.len() - 1) =~= s4);
    let s5 = s4.push(blob);
    let s6 = s5.take(s5.len() - 1).push(sha256_digest(blob));
    let s7 = s6.push(hash);
    assert(s7.take(s7.len() - 2) =~= s4);
}

/// Cutting `n` times leaves the first `n` pieces of the item on top and
/// what is left of it.
proof fn lemma_splits_run(n: nat, base: Seq<Seq<u8>>, x: Seq<u8>, m: ByteMachine)
    requires
        m.stack == base.push(x),
        32 * n <= x.len(),
    ensures
        byte_run_all(prog_splits(n), m) == Some(
            ByteMachine { stack: (base + pieces(x, n)).push(x.skip(32 * n as int)), alt: m.alt },
        ),
    decreases n,
{
    if n == 0 {
        assert(x.skip(0) =~= x);
        assert(base + pieces(x, 0) =~= base);
    } else {
        let k = (n - 1) as nat;
        let before = prog_splits(k);
        let two = seq![Instr::Data(seq![0x20u8]), Instr::Op(OP_SPLIT)];
        let rest = x.skip(32 * k as int);
        let held = base + pieces(x, k);
        let mid = ByteMachine { stack: held.push(rest), alt: m.alt };
        lemma_splits_run(k, base, x, m);
        lemma_byte_run_concat(before, two, m);
        reveal_with_fuel(byte_run, 3);
        let at = seq![0x20u8];
        assert(at.skip(1) =~= Seq::<u8>::empty());
        assert(le_value(at.skip(1)) == 0);
        assert(le_value(at) == 32);
        assert(script_num_value(at) == 32);
        let s1 = held.push(rest).push(at);
        assert(s1.take(s1.len() - 2) =~= held);
        assert(rest.take(32) =~= x.subrange(32 * k as int, 32 * k as int + 32));
        assert(rest.skip(32) =~= x.skip(32 * n as int));
        assert(held.push(rest.take(32)) =~= base + pieces(x, n));
    }
}

/// A blob that the rounds can index: 2,880 bytes, the modulus first, and
/// every item a number below `2^255`, which the machine reads as not
/// negative.
pub open spec fn well_formed_blob(blob: Seq<u8>) -> bool {
    &&& blob.len() == 2880
    &&& blob_item(blob, 0) == pallas_modulus()
    &&& forall|i: int| 0 <= i < 90 ==> #[trigger] blob_item(blob, i) < two_255()
}

/// The matrix that a blob holds.
pub open spec fn blob_mat(blob: Seq<u8>) -> Mat3 {
    Mat3 {
        m00: blob_item(blob, 1) as nat,
        m01: blob_item(blob, 2) as nat,
        m02: blob_item(blob, 3) as nat,
        m10: blob_item(blob, 4) as nat,
        m11: blob_item(blob, 5) as nat,
        m12: blob_item(blob, 6) as nat,
        m20: blob_item(blob, 7) as nat,
        m21: blob_item(blob, 8) as nat,
        m22: blob_item(blob, 9) as nat,
    }
}

/// The full-round constants that a blob holds, by slot.
pub open spec fn blob_full(blob: Seq<u8>) -> Seq<Triple> {
    Seq::new(
        8,
        |slot: int|
            Triple {
                x0: blob_item(blob, 10 + 3 * slot) as nat,
                x1: blob_item(blob, 11 + 3 * slot) as nat,
                x2: blob_item(blob, 12 + 3 * slot) as nat,
            },
    )
}

/// The fused constants that a blob holds.
pub open spec fn blob_partial(blob: Seq<u8>) -> Seq<nat> {
    Seq::new(56, |k: int| blob_item(blob, 34 + k) as nat)
}

/// The permutation under the constants that a blob holds.
pub open spec fn blob_permutation(blob: Seq<u8>, s: Triple) -> Triple {
    permute_fused(blob_mat(blob), blob_full(blob), blob_partial(blob), s)
}

/// The pieces of a well-formed blob spell its items, and its items are the
/// constant set that it holds as that set lies on the stack.
proof fn lemma_blob_pieces(blob: Seq<u8>)
    requires
        well_formed_blob(blob),
    ensures
        numbers_of(pieces(blob, 90)) == blob_items(blob),
        blob_items(blob) == constant_region(blob_mat(blob), blob_full(blob), blob_partial(blob)),
{
    assert forall|i: int| 0 <= i < 90 implies script_num_value(#[trigger] pieces(blob, 90)[i])
        == blob_item(blob, i) by {
        let piece = blob.subrange(32 * i, 32 * i + 32);
        assert(blob_item(blob, i) < two_255());
        lemma_top_bit_clear(piece);
    }
    assert(numbers_of(pieces(blob, 90)) =~= blob_items(blob));
    let region = constant_region(blob_mat(blob), blob_full(blob), blob_partial(blob));
    assert forall|i: int| 0 <= i < 90 implies blob_items(blob)[i] == #[trigger] region[i] by {
        if 10 <= i < 34 {
            let slot = (i - 10) / 3;
            assert(i == 10 + 3 * slot + (i - 10) % 3);
            assert(blob_full(blob)[slot].x0 == blob_item(blob, 10 + 3 * slot));
        } else if i >= 34 {
            assert(blob_partial(blob)[i - 34] == blob_item(blob, 34 + (i - 34)));
        }
    }
    assert(blob_items(blob) =~= region);
}

/// The standard blob is well formed, and the permutation under its
/// constants is the standard permutation.
pub proof fn law_standard_blob(s: Triple)
    ensures
        well_formed_blob(standard_blob()),
        blob_permutation(standard_blob(), s) == standard_permutation(s),
{
    let blob = standard_blob();
    let region = constant_region(
        standard_mds(),
        standard_full_constants(),
        standard_fused_constants(),
    );
    law_blob_layout();
    lemma_modulus_below_two_255();
    assert forall|i: int| 0 <= i < 90 implies blob_item(blob, i) == #[trigger] region[i] by {
        assert(blob_items(blob)[i] == blob_item(blob, i));
    }
    assert(blob_item(blob, 0) == region[0]);
    assert forall|i: int| 0 <= i < 90 implies #[trigger] blob_item(blob, i) < two_255() by {
        assert(blob_item(blob, i) <= pallas_modulus());
    }
    assert(blob_mat(blob) == standard_mds()) by {
        assert(blob_item(blob, 1) == region[1]);
        assert(blob_item(blob, 2) == region[2]);
        assert(blob_item(blob, 3) == region[3]);
        assert(blob_item(blob, 4) == region[4]);
        assert(blob_item(blob, 5) == region[5]);
        assert(blob_item(blob, 6) == region[6]);
        assert(blob_item(blob, 7) == region[7]);
        assert(blob_item(blob, 8) == region[8]);
        assert(blob_item(blob, 9) == region[9]);
    }
    assert(blob_full(blob) =~= standard_full_constants()) by {
        assert forall|slot: int| 0 <= slot < 8 implies #[trigger] blob_full(blob)[slot]
            == standard_full_constants()[slot] by {
            assert(blob_item(blob, 10 + 3 * slot) == region[10 + 3 * slot]);
            assert(blob_item(blob, 11 + 3 * slot) == region[11 + 3 * slot]);
            assert(blob_item(blob, 12 + 3 * slot) == region[12 + 3 * slot]);
        }
    }
    assert(blob_partial(blob) =~= standard_fused_constants()) by {
        assert forall|k: int| 0 <= k < 56 implies #[trigger] blob_partial(blob)[k]
            == standard_fused_constants()[k] by {
            assert(blob_item(blob, 34 + k) == region[34 + k]);
        }
    }
}

/// The output check holds only instructions of stack moves and
/// arithmetic.
proof fn lemma_output_check_numeric()
    ensures
        numeric(prog_output_check()),
{
    let s = Triple { x0: 0, x1: 0, x2: 0 };
    let out = standard_permutation(s).x0 as int;
    let none = Seq::<int>::empty();
    let start = Machine {
        stack: none + blob_items(standard_blob()),
        alt: none.push(out).push(0).push(0).push(0),
    };
    law_output_check(none, none, s, out, start);
    lemma_run_numeric(prog_output_check(), prog_output_check().len(), start);
}

/// The state that three items spell.
pub open spec fn state_items(a0: Seq<u8>, a1: Seq<u8>, a2: Seq<u8>) -> Triple {
    Triple {
        x0: script_num_value(a0) as nat,
        x1: script_num_value(a1) as nat,
        x2: script_num_value(a2) as nat,
    }
}

/// The run of the instructions of the witness pattern's stored program.
proof fn lemma_witness_run(
    hash: Seq<u8>,
    bottom: Seq<Seq<u8>>,
    blob: Seq<u8>,
    a0: Seq<u8>,
    a1: Seq<u8>,
    a2: Seq<u8>,
    expected: Seq<u8>,
    m: ByteMachine,
)
    requires
        m.stack == bottom.push(blob).push(a0).push(a1).push(a2).push(expected),
        script_num_value(a0) >= 0,
        script_num_value(a1) >= 0,
        script_num_value(a2) >= 0,
    ensures
        sha256_digest(blob) != hash ==> byte_run_all(prog_witness(hash), m) is None,
        well_formed_blob(blob) ==> (byte_run_all(prog_witness(hash), m) is Some <==> (
        sha256_digest(blob) == hash && blob_permutation(blob, state_items(a0, a1, a2)).x0
            == script_num_value(expected))),
        well_formed_blob(blob) ==> match byte_run_all(prog_witness(hash), m) {
            Some(after) => after.alt == m.alt && numbers_of(after.stack) == numbers_of(bottom)
                + blob_items(blob),
            None => true,
        },
{
    let first = prog_commitment_check(hash);
    let cuts = prog_splits(89);
    let last = prog_output_check();
    lemma_byte_run_concat(first, cuts + last, m);
    lemma_commitment_check(hash, bottom, blob, a0, a1, a2, expected, m);
    if sha256_digest(blob) == hash && well_formed_blob(blob) {
        let four = Seq::<Seq<u8>>::empty().push(expected).push(a2).push(a1).push(a0);
        let aside = m.alt.push(expected).push(a2).push(a1).push(a0);
        let m1 = ByteMachine { stack: bottom.push(blob), alt: aside };
        let mat = blob_mat(blob);
        let full = blob_full(blob);
        let partial = blob_partial(blob);
        lemma_blob_pieces(blob);
        lemma_splits_run(89, bottom, blob, m1);
        let items = bottom + pieces(blob, 90);
        let m2 = ByteMachine { stack: items, alt: aside };
        let narrow = ByteMachine { stack: items, alt: four };
        assert(blob.skip(2848) =~= blob.subrange(2848, 2880));
        assert((bottom + pieces(blob, 89)).push(blob.skip(2848)) =~= items);
        lemma_byte_run_concat(cuts, last, m1);
        lemma_output_check_numeric();
        lemma_numbers_concat(bottom, pieces(blob, 90));
        let s = state_items(a0, a1, a2);
        let e = script_num_value(expected);
        let none = Seq::<int>::empty();
        assert(numbers_of(four) =~= none.push(e).push(s.x2 as int).push(s.x1 as int).push(
            s.x0 as int,
        ));
        law_numbers_run(last, narrow);
        law_output_check_on(numbers_of(bottom), none, mat, full, partial, s, e, numbers(narrow));
        assert(m.alt + four =~= aside);
        assert(m2 == on_side(m.alt, narrow));
        match byte_run_all(last, narrow) {
            Some(after) => {
                lemma_run_on_side(last, last.len(), m.alt, narrow);
                assert(numbers_of(after.alt).len() == 0);
                assert(m.alt + after.alt =~= m.alt);
            },
            None => {
                assert(numbers_of(aside) =~= numbers_of(m.alt).push(e).push(s.x2 as int).push(
                    s.x1 as int,
                ).push(s.x0 as int));
                law_numbers_run(last, m2);
                law_output_check_on(
                    numbers_of(bottom),
                    numbers_of(m.alt),
                    mat,
                    full,
                    partial,
                    s,
                    e,
                    numbers(m2),
                );
            },
        }
    }
}

/// What the stored program of the witness pattern does on the machine's
/// items: above anything else the stack holds the blob, three items that
/// spell a state, and the expected output.
///
/// A blob whose digest is not the commitment makes the machine abort. For
/// a well-formed blob the run ends exactly when its digest is the
/// commitment and the first element of the state, permuted under the
/// constants that the blob holds, is the number that the expected output
/// spells; the run then leaves items that spell the 90 items of the blob
/// above what lay below, and the side stack as it was. The standard blob
/// is well formed and holds the standard constants (`law_standard_blob`).
/// Of a blob that is not well formed and has the committed digest nothing
/// is stated.
pub proof fn law_witness_locking_script(
    hash: Seq<u8>,
    bottom: Seq<Seq<u8>>,
    blob: Seq<u8>,
    a0: Seq<u8>,
    a1: Seq<u8>,
    a2: Seq<u8>,
    expected: Seq<u8>,
    m: ByteMachine,
)
    requires
        hash.len() == 32,
        m.stack == bottom.push(blob).push(a0).push(a1).push(a2).push(expected),
        script_num_value(a0) >= 0,
        script_num_value(a1) >= 0,
        script_num_value(a2) >= 0,
    ensures
        sha256_digest(blob) != hash ==> byte_run_script(witness_locking_script(hash), m) is None,
        well_formed_blob(blob) ==> (byte_run_script(witness_locking_script(hash), m) is Some <==> (
        sha256_digest(blob) == hash && blob_permutation(blob, state_items(a0, a1, a2)).x0
            == script_num_value(expected))),
        well_formed_blob(blob) ==> match byte_run_script(witness_locking_script(hash), m) {
            Some(after) => after.alt == m.alt && numbers_of(after.stack) == numbers_of(bottom)
                + blob_items(blob),
            None => true,
        },
{
    lemma_witness_program(hash);
    lemma_parse_encode(prog_witness(hash));
    lemma_witness_run(hash, bottom, blob, a0, a1, a2, expected, m);
}

/// What the canonical check followed by the stored program of the witness
/// pattern does on the machine's items: the run is that of the stored
/// program alone where the expected output, the item on top, spells a
/// number below the modulus; else the machine aborts.
pub proof fn law_secure_witness_verification(
    hash: Seq<u8>,
    bottom: Seq<Seq<u8>>,
    blob: Seq<u8>,
    a0: Seq<u8>,
    a1: Seq<u8>,
    a2: Seq<u8>,
    expected: Seq<u8>,
    m: ByteMachine,
)
    requires
        hash.len() == 32,
        m.stack == bottom.push(blob).push(a0).push(a1).push(a2).push(expected),
    ensures
        byte_run_script(encode(prog_canonical_check()) + witness_locking_script(hash), m)
            == if script_num_value(expected) < pallas_modulus() {
            byte_run_script(witness_locking_script(hash), m)
        } else {
            None
        },
{
    let canon = prog_canonical_check();
    let wit = prog_witness(hash);
    lemma_witness_program(hash);
    lemma_shape_canonical_check();
    lemma_encode_concat(canon, wit);
    lemma_plain_concat(canon, wit);
    lemma_parse_encode(canon + wit);
    lemma_parse_encode(wit);
    lemma_byte_run_concat(canon, wit, m);
    lemma_canonical_items(bottom.push(blob).push(a0).push(a1).push(a2), expected, m);
}

/// The instructions that bring the bottom item of the stack to the top.
pub open spec fn prog_raise_bottom() -> Seq<Instr> {
    ops(raise_bottom_script())
}

/// The instructions that cut a record into its two elements and its
/// counter, and close the counter with a zero byte.
pub open spec fn prog_open_record() -> Seq<Instr> {
    prog_splits(2) + seq![Instr::Data(seq![0x00u8]), Instr::Op(OP_CAT)]
}

/// The instructions that bring signature and key back and hold the hash
/// of the key against `pkh`.
pub open spec fn prog_key_check(pkh: Seq<u8>) -> Seq<Instr> {
    ops(seq![OP_FROMALTSTACK, OP_FROMALTSTACK, OP_DUP, OP_HASH160]) + (seq![Instr::Data(pkh)]
        + ops(seq![OP_EQUALVERIFY]))
}

/// The stored program of the contract without its last instruction, the
/// signature check.
pub open spec fn prog_contract(
    constants_hash: Seq<u8>,
    state_hash: Seq<u8>,
    operator_pkh: Seq<u8>,
) -> Seq<Instr> {
    ops(seq![OP_TOALTSTACK, OP_TOALTSTACK]) + (prog_raise_bottom() + (prog_raise_bottom() + (
    prog_open_record() + (seq![Instr::Data(state_hash)] + (prog_canonical_check() + (prog_witness(
        constants_hash,
    ) + prog_key_check(operator_pkh)))))))
}

/// The state that the three parts of a record spell.
pub open spec fn record_state(record: Seq<u8>) -> Triple {
    state_items(
        record.subrange(0, 32),
        record.subrange(32, 64),
        record.subrange(64, 68) + seq![0x00u8],
    )
}

proof fn lemma_open_record_shape()
    ensures
        plain(prog_open_record()),
        encode(prog_open_record()) == open_record_script(),
{
    let push = Instr::Data(seq![0x00u8]);
    let join = Instr::Op(OP_CAT);
    lemma_splits_shape(2);
    lemma_pair_shape(push, join);
    lemma_encode_concat(prog_splits(2), seq![push, join]);
    lemma_plain_concat(prog_splits(2), seq![push, join]);
    reveal_with_fuel(split_ops, 3);
    assert(encode(prog_open_record()) =~= open_record_script());
}

proof fn lemma_key_check_shape(pkh: Seq<u8>)
    requires
        pkh.len() == 20,
    ensures
        plain(prog_key_check(pkh)),
        encode(prog_key_check(pkh)) + seq![OP_CHECKSIG] == seq![OP_FROMALTSTACK, OP_FROMALTSTACK]
            + pay_to_key_hash(pkh),
{
    let back = seq![OP_FROMALTSTACK, OP_FROMALTSTACK, OP_DUP, OP_HASH160];
    let held = seq![Instr::Data(pkh)];
    let same = seq![OP_EQUALVERIFY];
    lemma_encode_ops(back);
    lemma_encode_ops(same);
    lemma_encode_one(Instr::Data(pkh));
    lemma_encode_concat(held, ops(same));
    lemma_encode_concat(ops(back), held + ops(same));
    lemma_plain_ops(back);
    lemma_plain_ops(same);
    lemma_plain_concat(held, ops(same));
    lemma_plain_concat(ops(back), held + ops(same));
    assert(encode(prog_key_check(pkh)) + seq![OP_CHECKSIG] =~= seq![
        OP_FROMALTSTACK,
        OP_FROMALTSTACK,
    ] + pay_to_key_hash(pkh));
}

/// The bytes of the contract's instructions, part by part.
proof fn lemma_contract_parts(
    constants_hash: Seq<u8>,
    state_hash: Seq<u8>,
    operator_pkh: Seq<u8>,
)
    requires
        constants_hash.len() == 32,
        state_hash.len() == 32,
        operator_pkh.len() == 20,
    ensures
        plain(prog_contract(constants_hash, state_hash, operator_pkh)),
        encode(prog_contract(constants_hash, state_hash, operator_pkh)) == seq![
            OP_TOALTSTACK,
            OP_TOALTSTACK,
        ] + (raise_bottom_script() + (raise_bottom_script() + (open_record_script() + (
        push_bytes_spec(state_hash) + (encode(prog_canonical_check()) + (witness_locking_script(
            constants_hash,
        ) + encode(prog_key_check(operator_pkh)))))))),
{
    let aside = seq![OP_TOALTSTACK, OP_TOALTSTACK];
    let raise = prog_raise_bottom();
    let open = prog_open_record();
    let want = seq![Instr::Data(state_hash)];
    let canon = prog_canonical_check();
    let wit = prog_witness(constants_hash);
    let key = prog_key_check(operator_pkh);
    lemma_encode_ops(aside);
    lemma_plain_ops(aside);
    lemma_encode_ops(raise_bottom_script());
    lemma_plain_ops(raise_bottom_script());
    lemma_open_record_shape();
    lemma_encode_one(Instr::Data(state_hash));
    lemma_shape_canonical_check();
    lemma_witness_program(constants_hash);
    lemma_key_check_shape(operator_pkh);
    let t6 = wit + key;
    lemma_encode_concat(wit, key);
    lemma_plain_concat(wit, key);
    let t5 = canon + t6;
    lemma_encode_concat(canon, t6);
    lemma_plain_concat(canon, t6);
    let t4 = want + t5;
    lemma_encode_concat(want, t5);
    lemma_plain_concat(want, t5);
    let t3 = open + t4;
    lemma_encode_concat(open, t4);
    lemma_plain_concat(open, t4);
    let t2 = raise + t3;
    lemma_encode_concat(raise, t3);
    lemma_plain_concat(raise, t3);
    let t1 = raise + t2;
    lemma_encode_concat(raise, t2);
    lemma_plain_concat(raise, t2);
    lemma_encode_concat(ops(aside), t1);
    lemma_plain_concat(ops(aside), t1);
}

/// Eight byte strings joined from the right are the same bytes joined
/// from the left.
proof fn lemma_join_eight(
    a: Seq<u8>,
    b: Seq<u8>,
    c: Seq<u8>,
    d: Seq<u8>,
    e: Seq<u8>,
    f: Seq<u8>,
    g: Seq<u8>,
    h: Seq<u8>,
    x: Seq<u8>,
    y: Seq<u8>,
)
    ensures
        a + (b + (c + (d + (e + (f + (g + h)))))) + x == a + b + c + d + e + (f + g) + (h + x),
        a + b + c + d + e + (f + g) + (x + y) == a + b + c + d + e + (f + g) + x + y,
{
    assert(a + (b + (c + (d + (e + (f + (g + h)))))) + x =~= a + b + c + d + e + (f + g) + (h + x));
    assert(a + b + c + d + e + (f + g) + (x + y) =~= a + b + c + d + e + (f + g) + x + y);
}

/// The stored program of the contract is the bytes of these instructions
/// and the signature check, and reading the bytes gives the instructions
/// back.
pub proof fn lemma_contract_program(
    constants_hash: Seq<u8>,
    state_hash: Seq<u8>,
    operator_pkh: Seq<u8>,
)
    requires
        constants_hash.len() == 32,
        state_hash.len() == 32,
        operator_pkh.len() == 20,
    ensures
        plain(prog_contract(constants_hash, state_hash, operator_pkh)),
        encode(prog_contract(constants_hash, state_hash, operator_pkh)) + seq![OP_CHECKSIG]
            == contract_locking_script(constants_hash, state_hash, operator_pkh),
{
    lemma_contract_parts(constants_hash, state_hash, operator_pkh);
    lemma_key_check_shape(operator_pkh);
    let back = seq![OP_FROMALTSTACK, OP_FROMALTSTACK];
    lemma_join_eight(
        seq![OP_TOALTSTACK, OP_TOALTSTACK],
        raise_bottom_script(),
        raise_bottom_script(),
        open_record_script(),
        push_bytes_spec(state_hash),
        encode(prog_canonical_check()),
        witness_locking_script(constants_hash),
        encode(prog_key_check(operator_pkh)),
        seq![OP_CHECKSIG],
        seq![OP_CHECKSIG],
    );
    lemma_join_eight(
        seq![OP_TOALTSTACK, OP_TOALTSTACK],
        raise_bottom_script(),
        raise_bottom_script(),
        open_record_script(),
        push_bytes_spec(state_hash),
        encode(prog_canonical_check()),
        witness_locking_script(constants_hash),
        encode(prog_key_check(operator_pkh)),
        back,
        pay_to_key_hash(operator_pkh),
    );
}

/// Raising the bottom item: the depth less one is the position of the
/// bottom item from the top, and rolling there brings it up.
proof fn lemma_raise_bottom(m: ByteMachine)
    requires
        m.stack.len() >= 1,
    ensures
        byte_run_all(prog_raise_bottom(), m) == Some(
            ByteMachine { stack: m.stack.skip(1).push(m.stack[0]), alt: m.alt },
        ),
{
    let s = m.stack;
    let n = s.len() as int;
    assert(prog_raise_bottom() =~= seq![
        Instr::Op(OP_DEPTH),
        Instr::Op(OP_1SUB),
        Instr::Op(OP_ROLL),
    ]);
    reveal_with_fuel(byte_run, 4);
    lemma_number_item_value(n);
    lemma_number_item_value(n - 1);
    let s1 = s.push(number_item(n));
    let m1 = ByteMachine { stack: s1, alt: m.alt };
    assert(s.take(n) =~= s);
    assert(byte_step(Instr::Op(OP_DEPTH), m) == Some(m1));
    let s2 = s.push(number_item(n - 1));
    let m2 = ByteMachine { stack: s2, alt: m.alt };
    assert(numbers_of(s1).last() == n);
    assert(s1.take(n) =~= s);
    assert(byte_step(Instr::Op(OP_1SUB), m1) == Some(m2));
    assert(s2.take(0) + s2.subrange(1, n) + seq![s2[0]] =~= s.skip(1).push(s[0]));
}

/// Opening a record leaves its two elements and its counter, the counter
/// closed with a zero byte.
proof fn lemma_open_record(base: Seq<Seq<u8>>, record: Seq<u8>, m: ByteMachine)
    requires
        m.stack == base.push(record),
        record.len() == 68,
    ensures
        byte_run_all(prog_open_record(), m) == Some(
            ByteMachine {
                stack: base.push(record.subrange(0, 32)).push(record.subrange(32, 64)).push(
                    record.subrange(64, 68) + seq![0x00u8],
                ),
                alt: m.alt,
            },
        ),
{
    let two = seq![Instr::Data(seq![0x00u8]), Instr::Op(OP_CAT)];
    lemma_splits_run(2, base, record, m);
    lemma_byte_run_concat(prog_splits(2), two, m);
    reveal_with_fuel(byte_run, 3);
    let held = base + pieces(record, 2);
    assert(held =~= base.push(record.subrange(0, 32)).push(record.subrange(32, 64)));
    assert(record.skip(64) =~= record.subrange(64, 68));
    let s1 = held.push(record.skip(64)).push(seq![0x00u8]);
    assert(s1.take(s1.len() - 2) =~= held);
}

/// The canonical check on items: the run ends exactly when the item on
/// top spells a number below the modulus, and leaves the items as they
/// were.
proof fn lemma_canonical_items(base: Seq<Seq<u8>>, x: Seq<u8>, m: ByteMachine)
    requires
        m.stack == base.push(x),
    ensures
        byte_run_all(prog_canonical_check(), m) == if script_num_value(x) < pallas_modulus() {
            Some(m)
        } else {
            None
        },
{
    let top = PALLAS_MODULUS_BYTES@;
    lemma_modulus_bytes();
    lemma_modulus_below_two_255();
    lemma_top_bit_clear(top);
    assert(script_num_value(top) == pallas_modulus());
    reveal_with_fuel(byte_run, 5);
    let s = m.stack;
    let n = s.len() as int;
    let s1 = s.push(x);
    let s2 = s1.push(top);
    let m2 = ByteMachine { stack: s2, alt: m.alt };
    let flag = if script_num_value(x) < pallas_modulus() {
        1int
    } else {
        0int
    };
    lemma_number_item_value(flag);
    let s3 = s.push(number_item(flag));
    let m3 = ByteMachine { stack: s3, alt: m.alt };
    assert(numbers_of(s2)[n] == script_num_value(x));
    assert(numbers_of(s2)[n + 1] == script_num_value(top));
    assert(s2.take(n) =~= s);
    assert(byte_step(Instr::Op(OP_LESSTHAN), m2) == Some(m3));
    assert(numbers_of(s3)[n] == flag);
    assert(s3.take(n) =~= s);
}

/// The key check brings signature and key back and ends exactly when the
/// hash of the key is `pkh`.
proof fn lemma_key_check(
    pkh: Seq<u8>,
    aside: Seq<Seq<u8>>,
    sig: Seq<u8>,
    key: Seq<u8>,
    m: ByteMachine,
)
    requires
        m.alt == aside.push(key).push(sig),
    ensures
        byte_run_all(prog_key_check(pkh), m) == if ripemd160_digest(sha256_digest(key)) == pkh {
            Some(ByteMachine { stack: m.stack.push(sig).push(key), alt: aside })
        } else {
            None
        },
{
    assert(prog_key_check(pkh) =~= seq![
        Instr::Op(OP_FROMALTSTACK),
        Instr::Op(OP_FROMALTSTACK),
        Instr::Op(OP_DUP),
        Instr::Op(OP_HASH160),
        Instr::Data(pkh),
        Instr::Op(OP_EQUALVERIFY),
    ]);
    reveal_with_fuel(byte_run, 7);
    let a1 = aside.push(key);
    assert(m.alt.drop_last() =~= a1);
    assert(a1.drop_last() =~= aside);
    let s2 = m.stack.push(sig).push(key);
    let s3 = s2.push(key);
    let s4 = s3.take(s3.len() - 1).push(ripemd160_digest(sha256_digest(key)));
    let s5 = s4.push(pkh);
    assert(s5.take(s5.len() - 2) =~= s2);
}

/// The start of the contract's stored program: signature and key go
/// aside, blob and record come up from the bottom, the record is opened
/// and the state commitment pushed.
proof fn lemma_contract_start(
    state_hash: Seq<u8>,
    blob: Seq<u8>,
    record: Seq<u8>,
    fields: Seq<Seq<u8>>,
    sig: Seq<u8>,
    key: Seq<u8>,
    m: ByteMachine,
)
    requires
        record.len() == 68,
        m.stack == seq![blob, record] + fields + seq![sig, key],
    ensures
        byte_run_all(
            ops(seq![OP_TOALTSTACK, OP_TOALTSTACK]) + (prog_raise_bottom() + (prog_raise_bottom()
                + (prog_open_record() + seq![Instr::Data(state_hash)]))),
            m,
        ) == Some(
            ByteMachine {
                stack: fields.push(blob).push(record.subrange(0, 32)).push(
                    record.subrange(32, 64),
                ).push(record.subrange(64, 68) + seq![0x00u8]).push(state_hash),
                alt: m.alt.push(key).push(sig),
            },
        ),
{
    let aside = ops(seq![OP_TOALTSTACK, OP_TOALTSTACK]);
    let raise = prog_raise_bottom();
    let open = prog_open_record();
    let want = seq![Instr::Data(state_hash)];
    let alt = m.alt.push(key).push(sig);
    let s0 = seq![blob, record] + fields;
    let m1 = ByteMachine { stack: s0, alt };
    assert(byte_run_all(aside, m) == Some(m1)) by {
        assert(aside =~= seq![Instr::Op(OP_TOALTSTACK), Instr::Op(OP_TOALTSTACK)]);
        reveal_with_fuel(byte_run, 3);
        let t0 = m.stack;
        let t1 = s0.push(sig);
        assert(t0.take(t0.len() - 1) =~= t1);
        assert(t1.take(t1.len() - 1) =~= s0);
    }
    let s1 = (seq![record] + fields).push(blob);
    let m2 = ByteMachine { stack: s1, alt };
    lemma_raise_bottom(m1);
    assert(s0.skip(1).push(s0[0]) =~= s1);
    let s2 = fields.push(blob).push(record);
    let m3 = ByteMachine { stack: s2, alt };
    lemma_raise_bottom(m2);
    assert(s1.skip(1).push(s1[0]) =~= s2);
    lemma_open_record(fields.push(blob), record, m3);
    let s3 = fields.push(blob).push(record.subrange(0, 32)).push(record.subrange(32, 64)).push(
        record.subrange(64, 68) + seq![0x00u8],
    );
    let m4 = ByteMachine { stack: s3, alt };
    assert(byte_run_all(want, m4) == Some(ByteMachine { stack: s3.push(state_hash), alt })) by {
        reveal_with_fuel(byte_run, 2);
    }
    lemma_byte_run_concat(open, want, m3);
    lemma_byte_run_concat(raise, open + want, m2);
    lemma_byte_run_concat(raise, raise + (open + want), m1);
    lemma_byte_run_concat(aside, raise + (raise + (open + want)), m);
}

/// What the stored program of the contract does on the machine's items,
/// up to its last instruction, the signature check, which reads the
/// spending transaction and is no part of this model. The stack holds,
/// from the bottom, the blob, the record, the witness fields, the
/// signature and the key; the first two elements of the record spell
/// numbers that are not negative.
///
/// A blob whose digest is not the constants hash makes the machine abort.
/// For a well-formed blob the run ends exactly when its digest is the
/// constants hash, the state commitment spells a number below the modulus
/// that is the first element of the record permuted under the blob's
/// constants, and the hash of the key is the operator's key hash; the run
/// then leaves the witness fields, which it did not read, below items that
/// spell the 90 items of the blob, with signature and key on top for the
/// signature check, and the side stack as it was.
pub proof fn law_contract_locking_script(
    constants_hash: Seq<u8>,
    state_hash: Seq<u8>,
    operator_pkh: Seq<u8>,
    blob: Seq<u8>,
    record: Seq<u8>,
    fields: Seq<Seq<u8>>,
    sig: Seq<u8>,
    key: Seq<u8>,
    m: ByteMachine,
)
    requires
        constants_hash.len() == 32,
        state_hash.len() == 32,
        operator_pkh.len() == 20,
        record.len() == 68,
        m.stack == seq![blob, record] + fields + seq![sig, key],
        script_num_value(record.subrange(0, 32)) >= 0,
        script_num_value(record.subrange(32, 64)) >= 0,
    ensures
        contract_locking_script(constants_hash, state_hash, operator_pkh) == encode(
            prog_contract(constants_hash, state_hash, operator_pkh),
        ) + seq![OP_CHECKSIG],
        sha256_digest(blob) != constants_hash ==> byte_run_script(
            encode(prog_contract(constants_hash, state_hash, operator_pkh)),
            m,
        ) is None,
        well_formed_blob(blob) ==> (byte_run_script(
            encode(prog_contract(constants_hash, state_hash, operator_pkh)),
            m,
        ) is Some <==> (sha256_digest(blob) == constants_hash && script_num_value(state_hash)
            < pallas_modulus() && blob_permutation(blob, record_state(record)).x0
            == script_num_value(state_hash) && ripemd160_digest(sha256_digest(key))
            == operator_pkh)),
        well_formed_blob(blob) ==> match byte_run_script(
            encode(prog_contract(constants_hash, state_hash, operator_pkh)),
            m,
        ) {
            Some(after) => {
                &&& after.alt == m.alt
                &&& after.stack.len() == fields.len() + 92
                &&& after.stack.last() == key
                &&& after.stack[after.stack.len() - 2] == sig
                &&& numbers_of(after.stack.take(after.stack.len() - 2)) == numbers_of(fields)
                    + blob_items(blob)
            },
            None => true,
        },
{
    let aside = ops(seq![OP_TOALTSTACK, OP_TOALTSTACK]);
    let raise = prog_raise_bottom();
    let open = prog_open_record();
    let want = seq![Instr::Data(state_hash)];
    let canon = prog_canonical_check();
    let wit = prog_witness(constants_hash);
    let keys = prog_key_check(operator_pkh);
    let whole = prog_contract(constants_hash, state_hash, operator_pkh);
    lemma_contract_program(constants_hash, state_hash, operator_pkh);
    lemma_parse_encode(whole);
    let start = aside + (raise + (raise + (open + want)));
    let rest = canon + (wit + keys);
    assert(whole =~= start + rest);
    lemma_contract_start(state_hash, blob, record, fields, sig, key, m);
    lemma_byte_run_concat(start, rest, m);
    let a0 = record.subrange(0, 32);
    let a1 = record.subrange(32, 64);
    let a2 = record.subrange(64, 68) + seq![0x00u8];
    let alt = m.alt.push(key).push(sig);
    let s = fields.push(blob).push(a0).push(a1).push(a2).push(state_hash);
    let m1 = ByteMachine { stack: s, alt };
    lemma_canonical_items(fields.push(blob).push(a0).push(a1).push(a2), state_hash, m1);
    lemma_byte_run_concat(canon, wit + keys, m1);
    lemma_byte_run_concat(wit, keys, m1);
    assert(script_num_value(a2) >= 0);
    lemma_witness_run(constants_hash, fields, blob, a0, a1, a2, state_hash, m1);
    match byte_run_all(wit, m1) {
        Some(m2) => {
            if well_formed_blob(blob) {
                lemma_key_check(operator_pkh, m.alt, sig, key, m2);
                let last = m2.stack.push(sig).push(key);
                assert(last.take(last.len() - 2) =~= m2.stack);
                assert(numbers_of(m2.stack).len() == fields.len() + 90);
            }
        },
        None => {},
    }
}

} // verus!
