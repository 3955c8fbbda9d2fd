//! The shape of the programs as bytes: how long each one is, and that
//! reading its bytes gives it back.

use vstd::prelude::*;
use crate::field_programs::{
    embedded_constant, embedded_fused_constant, prog_add_constants, prog_affine_row,
    prog_canonical_check, prog_const, prog_dot_row, prog_dup2, prog_field_add, prog_field_mul,
    prog_full_round, prog_fused_round, prog_init, prog_keep_top3, prog_mix_dense, prog_mix_sparse,
    prog_pick, prog_poseidon_embedded, prog_raise_state, prog_roll, prog_round_embedded,
    prog_round_witness, prog_rounds_embedded, prog_rounds_witness, prog_sbox, prog_swap_drop,
    prog_term, witness_full_constant, witness_partial_constant, ConstRef,
};
use crate::machine::{
    encode, encode_instr, lemma_encode_concat, lemma_encode_one, lemma_encode_ops,
    lemma_encode_push, lemma_plain_concat, num_instr, ops, plain, plain_instr, Instr,
};
use crate::opcodes::{
    le_digits, OP_2DROP, OP_ADD, OP_DROP, OP_DUP, OP_FROMALTSTACK, OP_MOD, OP_MUL, OP_PICK, OP_ROLL,
    OP_SWAP, OP_TOALTSTACK,
};
use crate::poseidon::is_full_round;

verus! {

/// The bytes that pushing the number `n` takes, for the depths that occur.
pub open spec fn num_len(n: nat) -> nat {
    if n <= 16 {
        1
    } else if n < 128 {
        2
    } else {
        3
    }
}

pub proof fn lemma_num_shape(n: nat)
    requires
        n < 32768,
    ensures
        encode_instr(num_instr(n)).len() == num_len(n),
        plain_instr(num_instr(n)),
{
    if n > 16 {
        reveal_with_fuel(le_digits, 3);
        if n < 256 {
            assert(le_digits(n) =~= seq![n as u8]);
        } else {
            assert(n / 256 < 128);
            assert(le_digits(n) =~= seq![(n % 256) as u8, (n / 256) as u8]);
        }
    }
}

/// The byte length of `prog_pick(n)` and of `prog_roll(n)`.
pub open spec fn len_fetch(n: nat) -> nat {
    num_len(n) + 1
}

/// The byte length of `prog_field_add(d)` and of `prog_field_mul(d)`.
pub open spec fn len_field_op(d: nat) -> nat {
    num_len(d) + 3
}

pub open spec fn len_sbox(d: nat) -> nat {
    6 + len_fetch(2) + 2 * len_field_op(d + 1) + len_field_op(d + 2)
}

pub open spec fn len_term(md: nat, sd: nat, pd: nat) -> nat {
    len_fetch(md) + len_fetch(sd + 1) + len_field_op(pd + 1)
}

pub open spec fn len_dot_row(md: nat, sd: nat, pd: nat) -> nat {
    len_term(md, sd, pd) + len_term(md, sd, pd + 1) + len_term(
        (md - 1) as nat,
        (sd - 1) as nat,
        pd + 1,
    ) + 2 * len_field_op(pd + 1)
}

pub open spec fn len_affine_row(md: nat, sd: nat, ad: nat, pd: nat) -> nat {
    len_term(md, sd, pd) + len_fetch(ad + 1) + len_field_op(pd + 1)
}

pub open spec fn len_mix_dense(k: nat) -> nat {
    len_dot_row(k + 11, 2, k + 12) + len_dot_row(k + 9, 3, k + 13) + len_dot_row(
        k + 7,
        4,
        k + 14,
    ) + 8
}

pub open spec fn len_mix_sparse(k: nat) -> nat {
    len_dot_row(k + 11, 2, k + 12) + len_affine_row(k + 9, 3, 2, k + 13) + len_affine_row(
        k + 7,
        4,
        2,
        k + 14,
    ) + 8
}

/// The byte length of the fetch of a constant: 33 for a literal of 32
/// bytes.
pub open spec fn len_const(c: ConstRef) -> nat {
    match c {
        ConstRef::Literal(bytes) => 33,
        ConstRef::Depth(d) => len_fetch(d),
    }
}

pub open spec fn len_add_constants(c0: ConstRef, c1: ConstRef, c2: ConstRef, pd: nat) -> nat {
    len_const(c0) + len_const(c1) + len_const(c2) + 3 * len_field_op(pd) + 2 + len_fetch(2)
}

pub open spec fn len_full_round(k: nat, c0: ConstRef, c1: ConstRef, c2: ConstRef) -> nat {
    len_add_constants(c0, c1, c2, k + 12) + 3 * len_sbox(k + 12) + 2 * len_fetch(2)
        + len_mix_dense(k)
}

pub open spec fn len_fused_round(k: nat, c0: ConstRef) -> nat {
    3 * len_fetch(2) + len_const(c0) + len_field_op(k + 12) + len_sbox(k + 12) + len_mix_sparse(
        k,
    )
}

/// A reference whose fetch has the length that `len_const` gives: a literal
/// of 32 bytes, or a depth within range.
pub open spec fn const_sized(c: ConstRef) -> bool {
    match c {
        ConstRef::Literal(bytes) => bytes.len() == 32,
        ConstRef::Depth(d) => d < 32768,
    }
}

proof fn lemma_join(p: Seq<Instr>, q: Seq<Instr>)
    ensures
        encode(p + q).len() == encode(p).len() + encode(q).len(),
        plain(p) && plain(q) ==> plain(p + q),
{
    lemma_encode_concat(p, q);
    if plain(p) && plain(q) {
        lemma_plain_concat(p, q);
    }
}

pub proof fn lemma_shape_fetch(n: nat)
    requires
        n < 32768,
    ensures
        encode(prog_pick(n)).len() == len_fetch(n),
        encode(prog_roll(n)).len() == len_fetch(n),
        plain(prog_pick(n)),
        plain(prog_roll(n)),
{
    lemma_num_shape(n);
    lemma_encode_one(num_instr(n));
    lemma_encode_push(seq![num_instr(n)], Instr::Op(OP_PICK));
    lemma_encode_push(seq![num_instr(n)], Instr::Op(OP_ROLL));
    assert(prog_pick(n) =~= seq![num_instr(n)].push(Instr::Op(OP_PICK)));
    assert(prog_roll(n) =~= seq![num_instr(n)].push(Instr::Op(OP_ROLL)));
}

pub proof fn lemma_shape_field_op(d: nat)
    requires
        d < 32768,
    ensures
        encode(prog_field_add(d)).len() == len_field_op(d),
        encode(prog_field_mul(d)).len() == len_field_op(d),
        plain(prog_field_add(d)),
        plain(prog_field_mul(d)),
{
    lemma_shape_fetch(d);
    lemma_encode_one(Instr::Op(OP_ADD));
    lemma_encode_one(Instr::Op(OP_MUL));
    lemma_encode_one(Instr::Op(OP_MOD));
    lemma_join(prog_pick(d), seq![Instr::Op(OP_MOD)]);
    lemma_join(seq![Instr::Op(OP_ADD)], prog_pick(d) + seq![Instr::Op(OP_MOD)]);
    lemma_join(seq![Instr::Op(OP_MUL)], prog_pick(d) + seq![Instr::Op(OP_MOD)]);
    assert(prog_field_add(d) =~= seq![Instr::Op(OP_ADD)] + (prog_pick(d) + seq![
        Instr::Op(OP_MOD),
    ]));
    assert(prog_field_mul(d) =~= seq![Instr::Op(OP_MUL)] + (prog_pick(d) + seq![
        Instr::Op(OP_MOD),
    ]));
}

pub proof fn lemma_shape_sbox(d: nat)
    requires
        d + 2 < 32768,
    ensures
        encode(prog_sbox(d)).len() == len_sbox(d),
        plain(prog_sbox(d)),
{
    lemma_shape_field_op(d + 1);
    lemma_shape_field_op(d + 2);
    lemma_shape_fetch(2);
    lemma_encode_ops(seq![OP_DUP, OP_DUP]);
    lemma_encode_ops(seq![OP_SWAP, OP_DROP]);
    assert(prog_dup2() =~= ops(seq![OP_DUP, OP_DUP]));
    assert(prog_swap_drop() =~= ops(seq![OP_SWAP, OP_DROP]));
    let r6 = prog_swap_drop();
    let r5 = prog_field_mul(d + 1) + r6;
    let r4 = prog_roll(2) + r5;
    let r3 = prog_field_mul(d + 2) + r4;
    let r2 = prog_dup2() + r3;
    let r1 = prog_field_mul(d + 1) + r2;
    lemma_join(prog_field_mul(d + 1), r6);
    lemma_join(prog_roll(2), r5);
    lemma_join(prog_field_mul(d + 2), r4);
    lemma_join(prog_dup2(), r3);
    lemma_join(prog_field_mul(d + 1), r2);
    lemma_join(prog_dup2(), r1);
}

pub proof fn lemma_shape_term(md: nat, sd: nat, pd: nat)
    requires
        md < 32768,
        sd + 1 < 32768,
        pd + 1 < 32768,
    ensures
        encode(prog_term(md, sd, pd)).len() == len_term(md, sd, pd),
        plain(prog_term(md, sd, pd)),
{
    lemma_shape_fetch(md);
    lemma_shape_fetch(sd + 1);
    lemma_shape_field_op(pd + 1);
    lemma_join(prog_pick(sd + 1), prog_field_mul(pd + 1));
    lemma_join(prog_pick(md), prog_pick(sd + 1) + prog_field_mul(pd + 1));
}

pub proof fn lemma_shape_dot_row(md: nat, sd: nat, pd: nat)
    requires
        1 <= md < 32768,
        1 <= sd < 32767,
        pd + 2 < 32768,
    ensures
        encode(prog_dot_row(md, sd, pd)).len() == len_dot_row(md, sd, pd),
        plain(prog_dot_row(md, sd, pd)),
{
    let t3 = prog_term((md - 1) as nat, (sd - 1) as nat, pd + 1);
    lemma_shape_term(md, sd, pd);
    lemma_shape_term(md, sd, pd + 1);
    lemma_shape_term((md - 1) as nat, (sd - 1) as nat, pd + 1);
    lemma_shape_field_op(pd + 1);
    let r4 = prog_field_add(pd + 1);
    let r3 = t3 + r4;
    let r2 = prog_field_add(pd + 1) + r3;
    let r1 = prog_term(md, sd, pd + 1) + r2;
    lemma_join(t3, r4);
    lemma_join(prog_field_add(pd + 1), r3);
    lemma_join(prog_term(md, sd, pd + 1), r2);
    lemma_join(prog_term(md, sd, pd), r1);
}

pub proof fn lemma_shape_affine_row(md: nat, sd: nat, ad: nat, pd: nat)
    requires
        md < 32768,
        sd + 1 < 32768,
        ad + 1 < 32768,
        pd + 1 < 32768,
    ensures
        encode(prog_affine_row(md, sd, ad, pd)).len() == len_affine_row(md, sd, ad, pd),
        plain(prog_affine_row(md, sd, ad, pd)),
{
    lemma_shape_term(md, sd, pd);
    lemma_shape_fetch(ad + 1);
    lemma_shape_field_op(pd + 1);
    lemma_join(prog_pick(ad + 1), prog_field_add(pd + 1));
    lemma_join(prog_term(md, sd, pd), prog_pick(ad + 1) + prog_field_add(pd + 1));
}

proof fn lemma_shape_keep_top3()
    ensures
        encode(prog_keep_top3()).len() == 8,
        plain(prog_keep_top3()),
{
    let bytes = seq![
        OP_TOALTSTACK,
        OP_TOALTSTACK,
        OP_TOALTSTACK,
        OP_2DROP,
        OP_DROP,
        OP_FROMALTSTACK,
        OP_FROMALTSTACK,
        OP_FROMALTSTACK,
    ];
    lemma_encode_ops(bytes);
    assert(prog_keep_top3() =~= ops(bytes));
}

pub proof fn lemma_shape_mix(k: nat)
    requires
        k + 16 < 32768,
    ensures
        encode(prog_mix_dense(k)).len() == len_mix_dense(k),
        encode(prog_mix_sparse(k)).len() == len_mix_sparse(k),
        plain(prog_mix_dense(k)),
        plain(prog_mix_sparse(k)),
{
    lemma_shape_keep_top3();
    lemma_shape_dot_row(k + 11, 2, k + 12);
    lemma_shape_dot_row(k + 9, 3, k + 13);
    lemma_shape_dot_row(k + 7, 4, k + 14);
    lemma_shape_affine_row(k + 9, 3, 2, k + 13);
    lemma_shape_affine_row(k + 7, 4, 2, k + 14);
    let r3 = prog_keep_top3();
    let d2 = prog_dot_row(k + 7, 4, k + 14) + r3;
    let d1 = prog_dot_row(k + 9, 3, k + 13) + d2;
    lemma_join(prog_dot_row(k + 7, 4, k + 14), r3);
    lemma_join(prog_dot_row(k + 9, 3, k + 13), d2);
    lemma_join(prog_dot_row(k + 11, 2, k + 12), d1);
    let s2 = prog_affine_row(k + 7, 4, 2, k + 14) + r3;
    let s1 = prog_affine_row(k + 9, 3, 2, k + 13) + s2;
    lemma_join(prog_affine_row(k + 7, 4, 2, k + 14), r3);
    lemma_join(prog_affine_row(k + 9, 3, 2, k + 13), s2);
    lemma_join(prog_dot_row(k + 11, 2, k + 12), s1);
}

pub proof fn lemma_shape_const(c: ConstRef)
    requires
        const_sized(c),
    ensures
        encode(prog_const(c)).len() == len_const(c),
        plain(prog_const(c)),
{
    match c {
        ConstRef::Literal(bytes) => {
            lemma_encode_one(Instr::Data(bytes));
        },
        ConstRef::Depth(d) => {
            lemma_shape_fetch(d);
        },
    }
}

pub proof fn lemma_shape_add_constants(c0: ConstRef, c1: ConstRef, c2: ConstRef, pd: nat)
    requires
        const_sized(c0),
        const_sized(c1),
        const_sized(c2),
        pd < 32768,
    ensures
        encode(prog_add_constants(c0, c1, c2, pd)).len() == len_add_constants(c0, c1, c2, pd),
        plain(prog_add_constants(c0, c1, c2, pd)),
{
    lemma_shape_const(c0);
    lemma_shape_const(c1);
    lemma_shape_const(c2);
    lemma_shape_field_op(pd);
    lemma_shape_fetch(2);
    lemma_encode_one(Instr::Op(OP_SWAP));
    let sw = seq![Instr::Op(OP_SWAP)];
    let r8 = prog_field_add(pd);
    let r7 = prog_const(c0) + r8;
    let r6 = prog_roll(2) + r7;
    let r5 = sw + r6;
    let r4 = prog_field_add(pd) + r5;
    let r3 = prog_const(c1) + r4;
    let r2 = sw + r3;
    let r1 = prog_field_add(pd) + r2;
    lemma_join(prog_const(c0), r8);
    lemma_join(prog_roll(2), r7);
    lemma_join(sw, r6);
    lemma_join(prog_field_add(pd), r5);
    lemma_join(prog_const(c1), r4);
    lemma_join(sw, r3);
    lemma_join(prog_field_add(pd), r2);
    lemma_join(prog_const(c2), r1);
}

/// The byte lengths of the three round programs.
pub proof fn lemma_shape_rounds(k: nat, c0: ConstRef, c1: ConstRef, c2: ConstRef)
    requires
        const_sized(c0),
        const_sized(c1),
        const_sized(c2),
        k + 16 < 32768,
    ensures
        encode(prog_full_round(k, c0, c1, c2)).len() == len_full_round(k, c0, c1, c2),
        encode(prog_fused_round(k, c0)).len() == len_fused_round(k, c0),
        plain(prog_full_round(k, c0, c1, c2)),
        plain(prog_fused_round(k, c0)),
{
    let pd = k + 12;
    lemma_shape_add_constants(c0, c1, c2, pd);
    lemma_shape_sbox(pd);
    lemma_shape_fetch(2);
    lemma_shape_mix(k);
    lemma_shape_const(c0);
    lemma_shape_field_op(pd);
    let f6 = prog_mix_dense(k);
    let f5 = prog_sbox(pd) + f6;
    let f4 = prog_roll(2) + f5;
    let f3 = prog_sbox(pd) + f4;
    let f2 = prog_roll(2) + f3;
    let f1 = prog_sbox(pd) + f2;
    lemma_join(prog_sbox(pd), f6);
    lemma_join(prog_roll(2), f5);
    lemma_join(prog_sbox(pd), f4);
    lemma_join(prog_roll(2), f3);
    lemma_join(prog_sbox(pd), f2);
    lemma_join(prog_add_constants(c0, c1, c2, pd), f1);
    let g4 = prog_mix_sparse(k);
    let g3 = prog_roll(2) + g4;
    let g2 = prog_roll(2) + g3;
    lemma_join(prog_roll(2), g4);
    lemma_join(prog_roll(2), g3);
    lemma_join(prog_sbox(pd), g2);
    let u3 = prog_sbox(pd) + g2;
    let u2 = prog_field_add(pd) + u3;
    let u1 = prog_const(c0) + u2;
    lemma_join(prog_field_add(pd), u3);
    lemma_join(prog_const(c0), u2);
    lemma_join(prog_roll(2), u1);
}

/// The byte length of the first `n` rounds with embedded constants: 283
/// per full round, 131 per partial round.
pub open spec fn len_rounds_embedded(n: nat) -> nat {
    if n <= 4 {
        283 * n
    } else if n <= 60 {
        (1132 + 131 * (n - 4)) as nat
    } else {
        (8468 + 283 * (n - 60)) as nat
    }
}

/// The byte length of the first `n` rounds over the constant set on the
/// stack: 229 per full round, 119 per fused round, 118 for the fused rounds
/// from 46 on, whose constant lies within reach of a one-byte number.
pub open spec fn len_rounds_witness(n: nat) -> nat {
    if n <= 4 {
        229 * n
    } else if n <= 46 {
        (916 + 119 * (n - 4)) as nat
    } else if n <= 60 {
        (5914 + 118 * (n - 46)) as nat
    } else {
        (7566 + 229 * (n - 60)) as nat
    }
}

pub proof fn lemma_shape_round_embedded(round: nat)
    requires
        round < 64,
    ensures
        encode(prog_round_embedded(round)).len() == if is_full_round(round as int) {
            283nat
        } else {
            131nat
        },
        plain(prog_round_embedded(round)),
{
    if is_full_round(round as int) {
        lemma_shape_rounds(
            0,
            embedded_constant(round, 0),
            embedded_constant(round, 1),
            embedded_constant(round, 2),
        );
    } else {
        let c = embedded_fused_constant(round);
        lemma_shape_rounds(0, c, c, c);
    }
}

pub proof fn lemma_shape_round_witness(round: nat)
    requires
        round < 64,
    ensures
        encode(prog_round_witness(round)).len() == if is_full_round(round as int) {
            229nat
        } else if round < 46 {
            119nat
        } else {
            118nat
        },
        plain(prog_round_witness(round)),
{
    if is_full_round(round as int) {
        lemma_shape_rounds(
            80,
            witness_full_constant(round, 0),
            witness_full_constant(round, 1),
            witness_full_constant(round, 2),
        );
    } else {
        let c = witness_partial_constant(round);
        lemma_shape_rounds(80, c, c, c);
    }
}

proof fn lemma_shape_take(p: Seq<Instr>, n: int)
    requires
        0 <= n < p.len(),
    ensures
        encode(p.take(n + 1)).len() == encode(p.take(n)).len() + encode_instr(p[n]).len(),
{
    assert(p.take(n + 1) =~= p.take(n).push(p[n]));
    lemma_encode_push(p.take(n), p[n]);
}

/// The byte length of the embedded start: ten pushes of 33 bytes.
pub proof fn lemma_shape_init()
    ensures
        encode(prog_init()).len() == 330,
        encode(prog_raise_state()).len() == 6,
        plain(prog_init()),
        plain(prog_raise_state()),
{
    crate::field::lemma_modulus_bytes();
    let p = prog_init();
    assert(encode(p.take(0)) =~= Seq::<u8>::empty());
    lemma_shape_take(p, 0);
    lemma_shape_take(p, 1);
    lemma_shape_take(p, 2);
    lemma_shape_take(p, 3);
    lemma_shape_take(p, 4);
    lemma_shape_take(p, 5);
    lemma_shape_take(p, 6);
    lemma_shape_take(p, 7);
    lemma_shape_take(p, 8);
    lemma_shape_take(p, 9);
    assert(p.take(10) =~= p);
    lemma_shape_fetch(12);
    lemma_join(prog_roll(12), prog_roll(12));
    lemma_join(prog_roll(12), prog_roll(12) + prog_roll(12));
}

/// The byte lengths of the round sequences.
pub proof fn lemma_shape_round_sequences(n: nat)
    requires
        n <= 64,
    ensures
        encode(prog_rounds_embedded(n)).len() == len_rounds_embedded(n),
        encode(prog_rounds_witness(n)).len() == len_rounds_witness(n),
        plain(prog_rounds_embedded(n)),
        plain(prog_rounds_witness(n)),
    decreases n,
{
    if n > 0 {
        let r = (n - 1) as nat;
        lemma_shape_round_sequences(r);
        lemma_shape_round_embedded(r);
        lemma_shape_round_witness(r);
        lemma_join(prog_rounds_embedded(r), prog_round_embedded(r));
        lemma_join(prog_rounds_witness(r), prog_round_witness(r));
    }
}

/// The byte length of the whole permutation with embedded constants.
pub proof fn lemma_shape_poseidon_embedded()
    ensures
        encode(prog_poseidon_embedded()).len() == 9936,
        plain(prog_poseidon_embedded()),
{
    lemma_shape_init();
    lemma_shape_round_sequences(64);
    lemma_join(prog_raise_state(), prog_rounds_embedded(64));
    lemma_join(prog_init(), prog_raise_state() + prog_rounds_embedded(64));
}

/// The canonical check is plain and takes 36 bytes.
pub proof fn lemma_shape_canonical_check()
    ensures
        plain(prog_canonical_check()),
        encode(prog_canonical_check()).len() == 36,
{
    crate::field::lemma_modulus_bytes();
    let p = prog_canonical_check();
    assert(encode(p.take(0)) =~= Seq::<u8>::empty());
    lemma_shape_take(p, 0);
    lemma_shape_take(p, 1);
    lemma_shape_take(p, 2);
    lemma_shape_take(p, 3);
    assert(p.take(4) =~= p);
}

} // verus!
