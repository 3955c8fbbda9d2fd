//! What the generated round sequences compute on the modelled machine.

use vstd::prelude::*;
use crate::field::{
    field_add, field_mul, field_pow5, le_value, lemma_modulus_below_two_255, lemma_modulus_bytes,
    lemma_top_bit_clear, lemma_u64_repr, lemma_value_of_repr, pallas_modulus, u64_repr,
    PALLAS_MODULUS_BYTES,
};
use crate::field_programs::{
    at_depth, const_below, embedded_constant, embedded_fused_constant, full_slot, lemma_chain,
    lemma_field_add, lemma_field_mul, lemma_full_round, lemma_fused_round, lemma_mix_dense,
    lemma_mix_sparse, lemma_sbox, modulus_at, params_at, prog_canonical_check, prog_field_add,
    prog_field_mul, prog_full_round, prog_fused_round, prog_init, prog_mix_dense, prog_mix_sparse,
    prog_poseidon_embedded, prog_raise_state, prog_roll, prog_round_embedded, prog_round_witness,
    prog_rounds_embedded, prog_rounds_witness, prog_sbox, with_state, witness_full_constant,
    witness_partial_constant,
};
use crate::field_script::{lemma_repr_concat_field, lemma_repr_concat_len, standard_blob};
use crate::fusion::{
    fused_constant, permute_fused, permute_fused_rounds, round_of_slot, standard_element,
    standard_elements, standard_full_constants, standard_fused_constants, standard_permutation,
};
use crate::machine::{
    encode, law_script_runs_program, lemma_encode_concat, lemma_encode_ops, lemma_num_instr_value,
    lemma_plain_concat, lemma_plain_ops, lemma_run_concat, ops, plain, run, run_all, run_script,
    script_num_value, with_stack, Instr, Machine,
};
use crate::opcodes::{OP_DROP, OP_FROMALTSTACK, OP_NUMEQUALVERIFY};
use crate::poseidon::{
    full_round, fused_round, is_full_round, lemma_round_constant_canonical, mix_dense, mix_sparse,
    round_constants, standard_mds, standard_schedule, Mat3, Triple,
};
use crate::program_shapes::{
    lemma_shape_canonical_check, lemma_shape_poseidon_embedded, lemma_shape_round_sequences,
    lemma_shape_rounds,
};

verus! {

/// The modulus and the standard matrix as they lie on the stack.
pub open spec fn standard_params() -> Seq<int> {
    seq![pallas_modulus() as int, 3, 1, 1, 1, 1, 0, 1, 0, 1]
}

/// The fused constant of a round, written into a program, is a canonical
/// encoding of its value.
pub proof fn lemma_fused_constant_canonical(round: nat)
    ensures
        const_below(
            embedded_fused_constant(round),
            Seq::<int>::empty(),
            fused_constant(standard_mds(), standard_schedule(), round as int),
        ),
{
    let v = fused_constant(standard_mds(), standard_schedule(), round as int);
    lemma_modulus_below_two_255();
    lemma_value_of_repr(v);
}

/// The first `n` rounds with embedded constants: with the modulus and the
/// standard matrix right below the state, the program replaces the state by
/// the state after `n` rounds of the fused schedule on the standard set.
pub proof fn law_rounds_embedded(n: nat, base: Seq<int>, s: Triple, m: Machine)
    requires
        n <= 64,
        m.stack == with_state(base, s),
        params_at(base, 0, standard_mds()),
    ensures
        run_all(prog_rounds_embedded(n), m) == Some(
            with_stack(
                m,
                with_state(
                    base,
                    permute_fused_rounds(
                        standard_mds(),
                        standard_full_constants(),
                        standard_fused_constants(),
                        s,
                        n,
                    ),
                ),
            ),
        ),
    decreases n,
{
    if n == 0 {
        assert(with_stack(m, with_state(base, s)) == m);
    } else {
        let r = (n - 1) as nat;
        let mat = standard_mds();
        let full = standard_full_constants();
        let partial = standard_fused_constants();
        let before = permute_fused_rounds(mat, full, partial, s, r);
        let mid = with_stack(m, with_state(base, before));
        law_rounds_embedded(r, base, s, m);
        lemma_run_concat(prog_rounds_embedded(r), prog_round_embedded(r), m);
        if is_full_round(r as int) {
            let cv = round_constants(r);
            assert(full[full_slot(r) as int] == cv);
            lemma_round_constant_canonical(r, 0);
            lemma_round_constant_canonical(r, 1);
            lemma_round_constant_canonical(r, 2);
            lemma_full_round(
                0,
                embedded_constant(r, 0),
                embedded_constant(r, 1),
                embedded_constant(r, 2),
                base,
                mat,
                cv,
                before,
                mid,
            );
        } else {
            let cv = fused_constant(mat, standard_schedule(), r as int);
            assert(partial[r - 4] == cv);
            lemma_fused_constant_canonical(r);
            lemma_fused_round(0, embedded_fused_constant(r), base, mat, cv, before, mid);
        }
    }
}

/// Rolling at depth `n` moves that item to the top.
pub proof fn lemma_roll(n: nat, m: Machine)
    requires
        n < m.stack.len(),
    ensures
        run_all(prog_roll(n), m) == Some(
            with_stack(
                m,
                m.stack.take(m.stack.len() - 1 - n) + m.stack.subrange(
                    m.stack.len() - n,
                    m.stack.len() as int,
                ) + seq![m.stack[m.stack.len() - 1 - n]],
            ),
        ),
{
    lemma_num_instr_value(n, m);
    reveal_with_fuel(run, 3);
    let s = m.stack;
    let t = s.push(n as int);
    let at = s.len() - 1 - n;
    assert(t.take(at) =~= s.take(at));
    assert(t.subrange(at + 1, t.len() - 1) =~= s.subrange(at + 1, s.len() as int));
}

proof fn lemma_init(m: Machine)
    ensures
        run_all(prog_init(), m) == Some(with_stack(m, m.stack + standard_params())),
{
    lemma_modulus_bytes();
    lemma_modulus_below_two_255();
    lemma_top_bit_clear(PALLAS_MODULUS_BYTES@);
    lemma_u64_repr(0);
    lemma_u64_repr(1);
    lemma_u64_repr(3);
    assert(script_num_value(PALLAS_MODULUS_BYTES@) == pallas_modulus());
    assert(script_num_value(u64_repr(0)) == 0);
    assert(script_num_value(u64_repr(1)) == 1);
    assert(script_num_value(u64_repr(3)) == 3);
    reveal_with_fuel(run, 11);
    let s = m.stack;
    let p = pallas_modulus() as int;
    assert(s.push(p).push(3).push(1).push(1).push(1).push(1).push(0).push(1).push(0).push(1)
        =~= s + standard_params());
}

proof fn lemma_raise_state(bottom: Seq<int>, s: Triple, params: Seq<int>, m: Machine)
    requires
        params.len() == 10,
        m.stack == with_state(bottom, s) + params,
    ensures
        run_all(prog_raise_state(), m) == Some(with_stack(m, with_state(bottom + params, s))),
{
    let (s0, s1, s2) = (s.x0 as int, s.x1 as int, s.x2 as int);
    let st0 = m.stack;
    let st1 = bottom.push(s1).push(s2) + params + seq![s0];
    let st2 = bottom.push(s2) + params + seq![s0, s1];
    let st3 = with_state(bottom + params, s);
    let m1 = with_stack(m, st1);
    let m2 = with_stack(m, st2);
    lemma_roll(12, m);
    assert(st0.take(st0.len() - 13) + st0.subrange(st0.len() - 12, st0.len() as int) + seq![
        st0[st0.len() - 13],
    ] =~= st1);
    lemma_chain(prog_roll(12), prog_roll(12) + prog_roll(12), m, m1);
    lemma_roll(12, m1);
    assert(st1.take(st1.len() - 13) + st1.subrange(st1.len() - 12, st1.len() as int) + seq![
        st1[st1.len() - 13],
    ] =~= st2);
    lemma_chain(prog_roll(12), prog_roll(12), m1, m2);
    lemma_roll(12, m2);
    assert(st2.take(st2.len() - 13) + st2.subrange(st2.len() - 12, st2.len() as int) + seq![
        st2[st2.len() - 13],
    ] =~= st3);
}

/// The whole permutation with embedded constants: from a stack with the
/// state on top, the program, and so the script that encodes it, leaves
/// the modulus and the matrix under the permuted state.
pub proof fn law_poseidon_embedded(bottom: Seq<int>, s: Triple, m: Machine)
    requires
        m.stack == with_state(bottom, s),
    ensures
        run_all(prog_poseidon_embedded(), m) == Some(
            with_stack(
                m,
                with_state(
                    bottom + standard_params(),
                    permute_fused(
                        standard_mds(),
                        standard_full_constants(),
                        standard_fused_constants(),
                        s,
                    ),
                ),
            ),
        ),
        run_script(encode(prog_poseidon_embedded()), m) == run_all(prog_poseidon_embedded(), m),
{
    lemma_shape_poseidon_embedded();
    law_script_runs_program(prog_poseidon_embedded(), m);
    let params = standard_params();
    let m1 = with_stack(m, m.stack + params);
    let base = bottom + params;
    let m2 = with_stack(m, with_state(base, s));
    lemma_init(m);
    lemma_chain(prog_init(), prog_raise_state() + prog_rounds_embedded(64), m, m1);
    lemma_raise_state(bottom, s, params, m1);
    lemma_chain(prog_raise_state(), prog_rounds_embedded(64), m1, m2);
    assert(params_at(base, 0, standard_mds()));
    law_rounds_embedded(64, base, s, m2);
}

/// Item `i` (0 to 89) of a constant set as it lies on the stack: the
/// modulus, the matrix row by row, the full-round constants by slot, the
/// fused constants.
pub open spec fn region_item(mat: Mat3, full: Seq<Triple>, partial: Seq<nat>, i: int) -> int {
    if i == 0 {
        pallas_modulus() as int
    } else if i == 1 {
        mat.m00 as int
    } else if i == 2 {
        mat.m01 as int
    } else if i == 3 {
        mat.m02 as int
    } else if i == 4 {
        mat.m10 as int
    } else if i == 5 {
        mat.m11 as int
    } else if i == 6 {
        mat.m12 as int
    } else if i == 7 {
        mat.m20 as int
    } else if i == 8 {
        mat.m21 as int
    } else if i == 9 {
        mat.m22 as int
    } else if i < 34 {
        let t = full[(i - 10) / 3];
        if (i - 10) % 3 == 0 {
            t.x0 as int
        } else if (i - 10) % 3 == 1 {
            t.x1 as int
        } else {
            t.x2 as int
        }
    } else {
        partial[i - 34] as int
    }
}

/// The 90 items of a constant set on the stack, bottom first.
pub open spec fn constant_region(mat: Mat3, full: Seq<Triple>, partial: Seq<nat>) -> Seq<int> {
    Seq::new(90, |i: int| region_item(mat, full, partial, i))
}

/// The first `n` rounds over a constant set on the stack: with the 90
/// items of the set right below the state, the program replaces the state
/// by the state after `n` rounds of the fused schedule on that set.
pub proof fn law_rounds_witness(
    n: nat,
    bottom: Seq<int>,
    mat: Mat3,
    full: Seq<Triple>,
    partial: Seq<nat>,
    s: Triple,
    m: Machine,
)
    requires
        n <= 64,
        full.len() == 8,
        partial.len() == 56,
        m.stack == with_state(bottom + constant_region(mat, full, partial), s),
    ensures
        run_all(prog_rounds_witness(n), m) == Some(
            with_stack(
                m,
                with_state(
                    bottom + constant_region(mat, full, partial),
                    permute_fused_rounds(mat, full, partial, s, n),
                ),
            ),
        ),
    decreases n,
{
    let region = constant_region(mat, full, partial);
    let base = bottom + region;
    if n == 0 {
        assert(with_stack(m, with_state(base, s)) == m);
    } else {
        let r = (n - 1) as nat;
        let before = permute_fused_rounds(mat, full, partial, s, r);
        let mid = with_stack(m, with_state(base, before));
        law_rounds_witness(r, bottom, mat, full, partial, s, m);
        lemma_run_concat(prog_rounds_witness(r), prog_round_witness(r), m);
        lemma_region_params(bottom, mat, full, partial);
        if is_full_round(r as int) {
            let cv = full[full_slot(r) as int];
            let c0 = witness_full_constant(r, 0);
            let c1 = witness_full_constant(r, 1);
            let c2 = witness_full_constant(r, 2);
            lemma_region_full(bottom, mat, full, partial, r);
            lemma_full_round(80, c0, c1, c2, base, mat, cv, before, mid);
        } else {
            let cv = partial[r - 4];
            let c0 = witness_partial_constant(r);
            lemma_region_partial(bottom, mat, full, partial, r);
            lemma_fused_round(80, c0, base, mat, cv, before, mid);
        }
    }
}

proof fn lemma_region_depth(
    bottom: Seq<int>,
    mat: Mat3,
    full: Seq<Triple>,
    partial: Seq<nat>,
    d: nat,
)
    requires
        d < 90,
    ensures
        at_depth(bottom + constant_region(mat, full, partial), d) == region_item(
            mat,
            full,
            partial,
            89 - d,
        ),
        (bottom + constant_region(mat, full, partial)).len() == bottom.len() + 90,
{
}

proof fn lemma_region_params(bottom: Seq<int>, mat: Mat3, full: Seq<Triple>, partial: Seq<nat>)
    ensures
        params_at(bottom + constant_region(mat, full, partial), 80, mat),
{
    lemma_region_depth(bottom, mat, full, partial, 80);
    lemma_region_depth(bottom, mat, full, partial, 81);
    lemma_region_depth(bottom, mat, full, partial, 82);
    lemma_region_depth(bottom, mat, full, partial, 83);
    lemma_region_depth(bottom, mat, full, partial, 84);
    lemma_region_depth(bottom, mat, full, partial, 85);
    lemma_region_depth(bottom, mat, full, partial, 86);
    lemma_region_depth(bottom, mat, full, partial, 87);
    lemma_region_depth(bottom, mat, full, partial, 88);
    lemma_region_depth(bottom, mat, full, partial, 89);
}

proof fn lemma_region_full(
    bottom: Seq<int>,
    mat: Mat3,
    full: Seq<Triple>,
    partial: Seq<nat>,
    r: nat,
)
    requires
        r < 64,
        is_full_round(r as int),
    ensures
        const_below(
            witness_full_constant(r, 0),
            bottom + constant_region(mat, full, partial),
            full[full_slot(r) as int].x0,
        ),
        const_below(
            witness_full_constant(r, 1),
            bottom + constant_region(mat, full, partial),
            full[full_slot(r) as int].x1,
        ),
        const_below(
            witness_full_constant(r, 2),
            bottom + constant_region(mat, full, partial),
            full[full_slot(r) as int].x2,
        ),
{
    let slot = full_slot(r);
    lemma_region_depth(bottom, mat, full, partial, (79 - 3 * slot) as nat);
    lemma_region_depth(bottom, mat, full, partial, (78 - 3 * slot) as nat);
    lemma_region_depth(bottom, mat, full, partial, (77 - 3 * slot) as nat);
}

proof fn lemma_region_partial(
    bottom: Seq<int>,
    mat: Mat3,
    full: Seq<Triple>,
    partial: Seq<nat>,
    r: nat,
)
    requires
        4 <= r < 60,
    ensures
        const_below(
            witness_partial_constant(r),
            bottom + constant_region(mat, full, partial),
            partial[r - 4],
        ),
{
    lemma_region_depth(bottom, mat, full, partial, (59 - r) as nat);
}

/// The canonical check lets the machine go on, with the stack as it was,
/// exactly when the top item is below the modulus.
pub proof fn law_canonical_check(base: Seq<int>, x: int, m: Machine)
    requires
        m.stack == base.push(x),
    ensures
        x < pallas_modulus() ==> run_all(prog_canonical_check(), m) == Some(m),
        x >= pallas_modulus() ==> run_all(prog_canonical_check(), m) is None,
        run_script(encode(prog_canonical_check()), m) == run_all(prog_canonical_check(), m),
{
    lemma_shape_canonical_check();
    law_script_runs_program(prog_canonical_check(), m);
    lemma_modulus_bytes();
    lemma_modulus_below_two_255();
    lemma_top_bit_clear(PALLAS_MODULUS_BYTES@);
    assert(script_num_value(PALLAS_MODULUS_BYTES@) == pallas_modulus());
    reveal_with_fuel(run, 5);
    let p = pallas_modulus() as int;
    let s1 = m.stack.push(x);
    let s2 = s1.push(p);
    assert(s2.take(s2.len() - 2) =~= m.stack);
    let flag = if x < p {
        1int
    } else {
        0int
    };
    let s3 = m.stack.push(flag);
    assert(s3.take(s3.len() - 1) =~= m.stack);
    assert(with_stack(m, m.stack) == m);
}

/// The number that 32-byte item `i` of a blob spells.
pub open spec fn blob_item(blob: Seq<u8>, i: int) -> int {
    le_value(blob.subrange(32 * i, 32 * i + 32)) as int
}

/// The 90 numbers that a blob of 2,880 bytes is cut into.
pub open spec fn blob_items(blob: Seq<u8>) -> Seq<int> {
    Seq::new(90, |i: int| blob_item(blob, i))
}

/// The standard blob is laid out as the round programs index it: cut into
/// its 90 items it is the constant region of the standard set.
pub proof fn law_blob_layout()
    ensures
        standard_blob().len() == 2880,
        blob_items(standard_blob()) == constant_region(
            standard_mds(),
            standard_full_constants(),
            standard_fused_constants(),
        ),
        forall|i: int| 0 <= i < 90 ==> #[trigger] blob_item(standard_blob(), i) <= pallas_modulus(),
{
    let blob = standard_blob();
    let vals = standard_elements();
    let region = constant_region(
        standard_mds(),
        standard_full_constants(),
        standard_fused_constants(),
    );
    lemma_modulus_bytes();
    lemma_repr_concat_len(vals);
    assert forall|i: int| 0 <= i < 90 implies #[trigger] blob_item(blob, i) == region[i]
        && blob_item(blob, i) <= pallas_modulus() by {
        if i == 0 {
            assert(blob.subrange(0, 32) =~= PALLAS_MODULUS_BYTES@);
        } else {
            let k = i - 1;
            lemma_repr_concat_field(vals, k);
            assert(blob.subrange(32 * i, 32 * i + 32) =~= crate::field_script::repr_concat(
                vals,
            ).subrange(32 * k, 32 * k + 32));
            let v = vals[k];
            assert(v == standard_element(k));
            assert(v < pallas_modulus()) by {
                if 9 <= k < 33 {
                    let slot = (k - 9) / 3;
                    let round = round_of_slot(slot) as nat;
                    assert(standard_full_constants()[slot] == round_constants(round));
                    lemma_round_constant_canonical(round, 0);
                    lemma_round_constant_canonical(round, 1);
                    lemma_round_constant_canonical(round, 2);
                } else if k >= 33 {
                    assert(standard_fused_constants()[k - 33] == fused_constant(
                        standard_mds(),
                        standard_schedule(),
                        4 + (k - 33),
                    ));
                }
            }
            lemma_value_of_repr(v);
        }
    }
    assert(blob_items(blob) =~= region);
}

/// The 64 rounds over the standard blob: with the 90 items of the blob
/// right below the state, the witness program, and so the script that
/// encodes it, replaces the state by the permutation on the standard fused
/// set.
pub proof fn law_witness_logic(bottom: Seq<int>, s: Triple, m: Machine)
    requires
        m.stack == with_state(bottom + blob_items(standard_blob()), s),
    ensures
        run_all(prog_rounds_witness(64), m) == Some(
            with_stack(
                m,
                with_state(
                    bottom + blob_items(standard_blob()),
                    permute_fused(
                        standard_mds(),
                        standard_full_constants(),
                        standard_fused_constants(),
                        s,
                    ),
                ),
            ),
        ),
        run_script(encode(prog_rounds_witness(64)), m) == run_all(prog_rounds_witness(64), m),
{
    lemma_shape_round_sequences(64);
    law_script_runs_program(prog_rounds_witness(64), m);
    law_blob_layout();
    law_rounds_witness(
        64,
        bottom,
        standard_mds(),
        standard_full_constants(),
        standard_fused_constants(),
        s,
        m,
    );
}

/// The three top items of the stack are field-sized numbers.
pub open spec fn has_state(stack: Seq<int>) -> bool {
    &&& stack.len() >= 3
    &&& stack[stack.len() - 3] >= 0
    &&& stack[stack.len() - 2] >= 0
    &&& stack[stack.len() - 1] >= 0
}

/// The state on top of the stack.
pub open spec fn state_of(stack: Seq<int>) -> Triple {
    Triple {
        x0: stack[stack.len() - 3] as nat,
        x1: stack[stack.len() - 2] as nat,
        x2: stack[stack.len() - 1] as nat,
    }
}

/// The stack below the state.
pub open spec fn below_state(stack: Seq<int>) -> Seq<int> {
    stack.take(stack.len() - 3)
}

/// The modulus and the standard matrix lie right below the state.
pub open spec fn embedded_layout(base: Seq<int>) -> bool {
    params_at(base, 0, standard_mds())
}

/// The 90 items of the standard blob lie right below the state.
pub open spec fn witness_layout(base: Seq<int>) -> bool {
    base.len() >= 90 && base.skip(base.len() - 90) == blob_items(standard_blob())
}

/// On every stack that holds two field-sized numbers on top and the
/// modulus `d - 1` below them, the program runs to the end and replaces the
/// two by `f` of them, leaving all else as it was.
pub open spec fn combines_top_two(p: Seq<Instr>, d: nat, f: spec_fn(nat, nat) -> nat) -> bool {
    forall|m: Machine|
        m.stack.len() >= 2 && m.stack[m.stack.len() - 2] >= 0 && m.stack[m.stack.len() - 1] >= 0
            && d >= 1 && modulus_at(m.stack.take(m.stack.len() - 2), (d - 1) as nat)
            ==> #[trigger] run_all(p, m) == Some(
            with_stack(
                m,
                m.stack.take(m.stack.len() - 2).push(
                    f(
                        m.stack[m.stack.len() - 2] as nat,
                        m.stack[m.stack.len() - 1] as nat,
                    ) as int,
                ),
            ),
        )
}

/// On every stack that holds a field-sized number on top and the modulus
/// `d - 1` below it, the program runs to the end and replaces the number by
/// `f` of it, leaving all else as it was.
pub open spec fn maps_top(p: Seq<Instr>, d: nat, f: spec_fn(nat) -> nat) -> bool {
    forall|m: Machine|
        m.stack.len() >= 1 && m.stack.last() >= 0 && d >= 1 && modulus_at(
            m.stack.drop_last(),
            (d - 1) as nat,
        ) ==> #[trigger] run_all(p, m) == Some(
            with_stack(m, m.stack.drop_last().push(f(m.stack.last() as nat) as int)),
        )
}

/// Field addition and multiplication with the modulus fetched from depth
/// `d`, and the fifth power with the modulus `d` below its operand, compute
/// in the field.
pub proof fn law_field_programs(d: nat)
    ensures
        combines_top_two(prog_field_add(d), d, |a: nat, b: nat| field_add(a, b)),
        combines_top_two(prog_field_mul(d), d, |a: nat, b: nat| field_mul(a, b)),
        maps_top(prog_sbox(d), d, |x: nat| field_pow5(x)),
{
    assert forall|m: Machine|
        m.stack.len() >= 2 && m.stack[m.stack.len() - 2] >= 0 && m.stack[m.stack.len() - 1] >= 0
            && d >= 1 && modulus_at(
            m.stack.take(m.stack.len() - 2),
            (d - 1) as nat,
        ) implies #[trigger] run_all(prog_field_add(d), m) == Some(
        with_stack(
            m,
            m.stack.take(m.stack.len() - 2).push(
                field_add(
                    m.stack[m.stack.len() - 2] as nat,
                    m.stack[m.stack.len() - 1] as nat,
                ) as int,
            ),
        ),
    ) by {
        let n = m.stack.len() as int;
        let base = m.stack.take(n - 2);
        let a = m.stack[n - 2] as nat;
        let b = m.stack[n - 1] as nat;
        assert(m.stack =~= base.push(a as int).push(b as int));
        lemma_field_add(d, base, a, b, m);
    }
    assert forall|m: Machine|
        m.stack.len() >= 2 && m.stack[m.stack.len() - 2] >= 0 && m.stack[m.stack.len() - 1] >= 0
            && d >= 1 && modulus_at(
            m.stack.take(m.stack.len() - 2),
            (d - 1) as nat,
        ) implies #[trigger] run_all(prog_field_mul(d), m) == Some(
        with_stack(
            m,
            m.stack.take(m.stack.len() - 2).push(
                field_mul(
                    m.stack[m.stack.len() - 2] as nat,
                    m.stack[m.stack.len() - 1] as nat,
                ) as int,
            ),
        ),
    ) by {
        let n = m.stack.len() as int;
        let base = m.stack.take(n - 2);
        let a = m.stack[n - 2] as nat;
        let b = m.stack[n - 1] as nat;
        assert(m.stack =~= base.push(a as int).push(b as int));
        lemma_field_mul(d, base, a, b, m);
    }
    assert forall|m: Machine|
        m.stack.len() >= 1 && m.stack.last() >= 0 && d >= 1 && modulus_at(
            m.stack.drop_last(),
            (d - 1) as nat,
        ) implies #[trigger] run_all(prog_sbox(d), m) == Some(
        with_stack(m, m.stack.drop_last().push(field_pow5(m.stack.last() as nat) as int)),
    ) by {
        let base = m.stack.drop_last();
        let x = m.stack.last() as nat;
        assert(m.stack =~= base.push(x as int));
        lemma_sbox(d, base, x, m);
    }
}

/// On every stack that holds a state above the given layout, the program
/// runs to the end and replaces the state by `f` of it, leaving all else
/// as it was.
pub open spec fn program_maps_state(
    p: Seq<Instr>,
    layout: spec_fn(Seq<int>) -> bool,
    f: spec_fn(Triple) -> Triple,
) -> bool {
    forall|m: Machine|
        has_state(m.stack) && layout(below_state(m.stack)) ==> #[trigger] run_all(p, m) == Some(
            with_stack(m, with_state(below_state(m.stack), f(state_of(m.stack)))),
        )
}

/// The dense and the sparse mix, with the last matrix entry `k` below the
/// state, compute the matrix-vector products, whatever matrix lies there.
pub proof fn law_mix_programs(k: nat, mat: Mat3)
    ensures
        program_maps_state(
            prog_mix_dense(k),
            |b: Seq<int>| params_at(b, k, mat),
            |v: Triple| mix_dense(mat, v),
        ),
        program_maps_state(
            prog_mix_sparse(k),
            |b: Seq<int>| params_at(b, k, mat),
            |v: Triple| mix_sparse(mat, v),
        ),
{
    assert forall|m: Machine|
        has_state(m.stack) && params_at(below_state(m.stack), k, mat) implies #[trigger] run_all(
        prog_mix_dense(k),
        m,
    ) == Some(
        with_stack(m, with_state(below_state(m.stack), mix_dense(mat, state_of(m.stack)))),
    ) by {
        lemma_state_split(m.stack);
        lemma_mix_dense(k, below_state(m.stack), mat, state_of(m.stack), m);
    }
    assert forall|m: Machine|
        has_state(m.stack) && params_at(below_state(m.stack), k, mat) implies #[trigger] run_all(
        prog_mix_sparse(k),
        m,
    ) == Some(
        with_stack(m, with_state(below_state(m.stack), mix_sparse(mat, state_of(m.stack)))),
    ) by {
        lemma_state_split(m.stack);
        lemma_mix_sparse(k, below_state(m.stack), mat, state_of(m.stack), m);
    }
}

/// On every stack that holds a state above the given layout, the script
/// runs to the end and replaces the state by `f` of it, leaving all else
/// as it was.
pub open spec fn maps_state(
    script: Seq<u8>,
    layout: spec_fn(Seq<int>) -> bool,
    f: spec_fn(Triple) -> Triple,
) -> bool {
    forall|m: Machine|
        has_state(m.stack) && layout(below_state(m.stack)) ==> #[trigger] run_script(script, m)
            == Some(with_stack(m, with_state(below_state(m.stack), f(state_of(m.stack)))))
}

proof fn lemma_state_split(stack: Seq<int>)
    requires
        has_state(stack),
    ensures
        stack == with_state(below_state(stack), state_of(stack)),
{
    assert(stack =~= with_state(below_state(stack), state_of(stack)));
}

/// A full round with the constants of round `round` written into it maps
/// the state as that round does.
pub proof fn law_full_round_embedded(round: nat)
    requires
        round < 64,
    ensures
        maps_state(
            encode(
                prog_full_round(
                    0,
                    embedded_constant(round, 0),
                    embedded_constant(round, 1),
                    embedded_constant(round, 2),
                ),
            ),
            |b: Seq<int>| embedded_layout(b),
            |s: Triple| full_round(standard_mds(), round_constants(round), s),
        ),
{
    let c0 = embedded_constant(round, 0);
    let c1 = embedded_constant(round, 1);
    let c2 = embedded_constant(round, 2);
    let p = prog_full_round(0, c0, c1, c2);
    lemma_round_constant_canonical(round, 0);
    lemma_round_constant_canonical(round, 1);
    lemma_round_constant_canonical(round, 2);
    lemma_shape_rounds(0, c0, c1, c2);
    assert forall|m: Machine|
        has_state(m.stack) && embedded_layout(below_state(m.stack)) implies #[trigger] run_script(
        encode(p),
        m,
    ) == Some(
        with_stack(
            m,
            with_state(
                below_state(m.stack),
                full_round(standard_mds(), round_constants(round), state_of(m.stack)),
            ),
        ),
    ) by {
        lemma_state_split(m.stack);
        law_script_runs_program(p, m);
        lemma_full_round(
            0,
            c0,
            c1,
            c2,
            below_state(m.stack),
            standard_mds(),
            round_constants(round),
            state_of(m.stack),
            m,
        );
    }
}

/// A partial round with the fused constant of round `round` written into
/// it maps the state as the fused round does: the one constant goes on the
/// first element, which alone is raised to the fifth power, and the mix is
/// the sparse one.
pub proof fn law_partial_round_embedded(round: nat)
    requires
        round < 64,
    ensures
        maps_state(
            encode(prog_fused_round(0, embedded_fused_constant(round))),
            |b: Seq<int>| embedded_layout(b),
            |s: Triple|
                fused_round(
                    standard_mds(),
                    fused_constant(standard_mds(), standard_schedule(), round as int),
                    s,
                ),
        ),
{
    let c0 = embedded_fused_constant(round);
    let p = prog_fused_round(0, c0);
    let mat = standard_mds();
    let cv = fused_constant(mat, standard_schedule(), round as int);
    lemma_fused_constant_canonical(round);
    lemma_shape_rounds(0, c0, c0, c0);
    assert forall|m: Machine|
        has_state(m.stack) && embedded_layout(below_state(m.stack)) implies #[trigger] run_script(
        encode(p),
        m,
    ) == Some(
        with_stack(m, with_state(below_state(m.stack), fused_round(mat, cv, state_of(m.stack)))),
    ) by {
        lemma_state_split(m.stack);
        law_script_runs_program(p, m);
        lemma_fused_round(0, c0, below_state(m.stack), mat, cv, state_of(m.stack), m);
    }
}

/// What round `round` of the fused schedule on the standard set does to a
/// state.
pub open spec fn fused_schedule_round(round: nat, s: Triple) -> Triple {
    if is_full_round(round as int) {
        full_round(standard_mds(), round_constants(round), s)
    } else {
        fused_round(
            standard_mds(),
            fused_constant(standard_mds(), standard_schedule(), round as int),
            s,
        )
    }
}

/// Round `round` over the standard blob maps the state as that round of
/// the fused schedule does.
pub proof fn law_round_witness(round: nat)
    requires
        round < 64,
    ensures
        maps_state(
            encode(prog_round_witness(round)),
            |b: Seq<int>| witness_layout(b),
            |s: Triple| fused_schedule_round(round, s),
        ),
{
    let p = prog_round_witness(round);
    let mat = standard_mds();
    let full = standard_full_constants();
    let partial = standard_fused_constants();
    crate::program_shapes::lemma_shape_round_witness(round);
    law_blob_layout();
    assert forall|m: Machine|
        has_state(m.stack) && witness_layout(below_state(m.stack)) implies #[trigger] run_script(
        encode(p),
        m,
    ) == Some(
        with_stack(
            m,
            with_state(below_state(m.stack), fused_schedule_round(round, state_of(m.stack))),
        ),
    ) by {
        let base = below_state(m.stack);
        let st = state_of(m.stack);
        let bottom = base.take(base.len() - 90);
        assert(base =~= bottom + constant_region(mat, full, partial));
        lemma_state_split(m.stack);
        law_script_runs_program(p, m);
        lemma_region_params(bottom, mat, full, partial);
        if is_full_round(round as int) {
            let slot = full_slot(round) as int;
            assert(full[slot] == round_constants(round));
            lemma_region_full(bottom, mat, full, partial, round);
            lemma_full_round(
                80,
                witness_full_constant(round, 0),
                witness_full_constant(round, 1),
                witness_full_constant(round, 2),
                base,
                mat,
                full[slot],
                st,
                m,
            );
        } else {
            assert(partial[round - 4] == fused_constant(
                mat,
                standard_schedule(),
                round as int,
            ));
            lemma_region_partial(bottom, mat, full, partial, round);
            lemma_fused_round(
                80,
                witness_partial_constant(round),
                base,
                mat,
                partial[round - 4],
                st,
                m,
            );
        }
    }
}

/// The 64 rounds over the standard blob map the state as the permutation
/// on the standard fused set does.
pub proof fn law_witness_script()
    ensures
        maps_state(
            encode(prog_rounds_witness(64)),
            |b: Seq<int>| witness_layout(b),
            |s: Triple|
                permute_fused(
                    standard_mds(),
                    standard_full_constants(),
                    standard_fused_constants(),
                    s,
                ),
        ),
{
    assert forall|m: Machine|
        has_state(m.stack) && witness_layout(below_state(m.stack)) implies #[trigger] run_script(
        encode(prog_rounds_witness(64)),
        m,
    ) == Some(
        with_stack(
            m,
            with_state(
                below_state(m.stack),
                permute_fused(
                    standard_mds(),
                    standard_full_constants(),
                    standard_fused_constants(),
                    state_of(m.stack),
                ),
            ),
        ),
    ) by {
        let base = below_state(m.stack);
        let bottom = base.take(base.len() - 90);
        assert(base =~= bottom + blob_items(standard_blob()));
        lemma_state_split(m.stack);
        law_witness_logic(bottom, state_of(m.stack), m);
    }
}

/// The embedded permutation script: on every stack with a state on top it
/// runs to the end and leaves the modulus and the matrix under the state
/// permuted on the standard fused set.
pub open spec fn permutes_state(script: Seq<u8>) -> bool {
    forall|m: Machine|
        has_state(m.stack) ==> #[trigger] run_script(script, m) == Some(
            with_stack(
                m,
                with_state(
                    below_state(m.stack) + standard_params(),
                    permute_fused(
                        standard_mds(),
                        standard_full_constants(),
                        standard_fused_constants(),
                        state_of(m.stack),
                    ),
                ),
            ),
        )
}

pub proof fn law_poseidon_script()
    ensures
        permutes_state(encode(prog_poseidon_embedded())),
{
    assert forall|m: Machine| has_state(m.stack) implies #[trigger] run_script(
        encode(prog_poseidon_embedded()),
        m,
    ) == Some(
        with_stack(
            m,
            with_state(
                below_state(m.stack) + standard_params(),
                permute_fused(
                    standard_mds(),
                    standard_full_constants(),
                    standard_fused_constants(),
                    state_of(m.stack),
                ),
            ),
        ),
    ) by {
        lemma_state_split(m.stack);
        law_poseidon_embedded(below_state(m.stack), state_of(m.stack), m);
    }
}

/// The canonical check script: on every stack with an item on top it goes
/// on, with the stack as it was, exactly when that item is below the
/// modulus; else the machine aborts.
pub open spec fn checks_canonical(script: Seq<u8>) -> bool {
    forall|m: Machine|
        m.stack.len() >= 1 ==> #[trigger] run_script(script, m) == if m.stack.last()
            < pallas_modulus() {
            Some(m)
        } else {
            None
        }
}

pub proof fn law_canonical_check_script()
    ensures
        checks_canonical(encode(prog_canonical_check())),
{
    assert forall|m: Machine| m.stack.len() >= 1 implies #[trigger] run_script(
        encode(prog_canonical_check()),
        m,
    ) == if m.stack.last() < pallas_modulus() {
        Some(m)
    } else {
        None
    } by {
        let base = m.stack.drop_last();
        assert(m.stack =~= base.push(m.stack.last()));
        law_canonical_check(base, m.stack.last(), m);
    }
}

/// The end of the stored program of the witness pattern, from where the
/// blob lies cut into its items: the state comes back from the side stack,
/// the 64 rounds run, the second and third output element are dropped, the
/// expected output comes back and the first output element is held against
/// it as a number.
pub open spec fn prog_output_check() -> Seq<Instr> {
    ops(seq![OP_FROMALTSTACK, OP_FROMALTSTACK, OP_FROMALTSTACK]) + (prog_rounds_witness(64) + ops(
        seq![OP_DROP, OP_DROP, OP_FROMALTSTACK, OP_NUMEQUALVERIFY],
    ))
}

proof fn lemma_state_back(items: Seq<int>, aside: Seq<int>, s: Triple, m: Machine)
    requires
        m.stack == items,
        m.alt == aside.push(s.x2 as int).push(s.x1 as int).push(s.x0 as int),
    ensures
        run_all(ops(seq![OP_FROMALTSTACK, OP_FROMALTSTACK, OP_FROMALTSTACK]), m) == Some(
            Machine { stack: with_state(items, s), alt: aside },
        ),
{
    reveal_with_fuel(run, 4);
    let a1 = aside.push(s.x2 as int);
    let a2 = a1.push(s.x1 as int);
    assert(m.alt.drop_last() =~= a2);
    assert(a2.drop_last() =~= a1);
    assert(a1.drop_last() =~= aside);
}

proof fn lemma_output_held(
    items: Seq<int>,
    aside: Seq<int>,
    out: Triple,
    expected: int,
    m: Machine,
)
    requires
        m.stack == with_state(items, out),
        m.alt == aside.push(expected),
    ensures
        run_all(ops(seq![OP_DROP, OP_DROP, OP_FROMALTSTACK, OP_NUMEQUALVERIFY]), m) == if out.x0
            == expected {
            Some(Machine { stack: items, alt: aside })
        } else {
            None
        },
{
    reveal_with_fuel(run, 5);
    let t0 = m.stack;
    let t1 = t0.take(t0.len() - 1);
    let t2 = t1.take(t1.len() - 1);
    assert(t2 =~= items.push(out.x0 as int));
    assert(m.alt.drop_last() =~= aside);
    let t3 = t2.push(expected);
    assert(t3.take(t3.len() - 2) =~= items);
}

pub proof fn lemma_output_check_plain()
    ensures
        plain(prog_output_check()),
{
    let first = ops(seq![OP_FROMALTSTACK, OP_FROMALTSTACK, OP_FROMALTSTACK]);
    let rounds = prog_rounds_witness(64);
    let last = ops(seq![OP_DROP, OP_DROP, OP_FROMALTSTACK, OP_NUMEQUALVERIFY]);
    lemma_shape_round_sequences(64);
    lemma_plain_ops(seq![OP_FROMALTSTACK, OP_FROMALTSTACK, OP_FROMALTSTACK]);
    lemma_plain_ops(seq![OP_DROP, OP_DROP, OP_FROMALTSTACK, OP_NUMEQUALVERIFY]);
    lemma_plain_concat(rounds, last);
    lemma_plain_concat(first, rounds + last);
}

/// The bytes of the output check.
pub proof fn lemma_output_check_bytes()
    ensures
        encode(prog_output_check()) == seq![OP_FROMALTSTACK, OP_FROMALTSTACK, OP_FROMALTSTACK]
            + encode(prog_rounds_witness(64)) + seq![
            OP_DROP,
            OP_DROP,
            OP_FROMALTSTACK,
            OP_NUMEQUALVERIFY,
        ],
{
    let first = ops(seq![OP_FROMALTSTACK, OP_FROMALTSTACK, OP_FROMALTSTACK]);
    let rounds = prog_rounds_witness(64);
    let last = ops(seq![OP_DROP, OP_DROP, OP_FROMALTSTACK, OP_NUMEQUALVERIFY]);
    lemma_encode_ops(seq![OP_FROMALTSTACK, OP_FROMALTSTACK, OP_FROMALTSTACK]);
    lemma_encode_ops(seq![OP_DROP, OP_DROP, OP_FROMALTSTACK, OP_NUMEQUALVERIFY]);
    lemma_encode_concat(rounds, last);
    lemma_encode_concat(first, rounds + last);
    let e1 = encode(first);
    let e2 = encode(rounds);
    let e3 = encode(last);
    assert(e1 + (e2 + e3) =~= e1 + e2 + e3);
}

/// The output check on any constant set: with the 90 items of the set on
/// the stack and expected output and state on the side stack, the program
/// runs to the end when the first element of the state permuted under
/// that set is the expected output, and leaves both stacks without state
/// and expected output; else the machine aborts.
pub proof fn law_output_check_on(
    bottom: Seq<int>,
    aside: Seq<int>,
    mat: Mat3,
    full: Seq<Triple>,
    partial: Seq<nat>,
    s: Triple,
    expected: int,
    m: Machine,
)
    requires
        full.len() == 8,
        partial.len() == 56,
        m.stack == bottom + constant_region(mat, full, partial),
        m.alt == aside.push(expected).push(s.x2 as int).push(s.x1 as int).push(s.x0 as int),
    ensures
        run_all(prog_output_check(), m) == if permute_fused(mat, full, partial, s).x0
            == expected {
            Some(Machine { stack: m.stack, alt: aside })
        } else {
            None
        },
{
    let first = ops(seq![OP_FROMALTSTACK, OP_FROMALTSTACK, OP_FROMALTSTACK]);
    let rounds = prog_rounds_witness(64);
    let last = ops(seq![OP_DROP, OP_DROP, OP_FROMALTSTACK, OP_NUMEQUALVERIFY]);
    let items = m.stack;
    let out = permute_fused(mat, full, partial, s);
    let a1 = aside.push(expected);
    let m1 = Machine { stack: with_state(items, s), alt: a1 };
    let m2 = Machine { stack: with_state(items, out), alt: a1 };
    lemma_state_back(items, a1, s, m);
    lemma_chain(first, rounds + last, m, m1);
    law_rounds_witness(64, bottom, mat, full, partial, s, m1);
    lemma_chain(rounds, last, m1, m2);
    lemma_output_held(items, aside, out, expected, m2);
}

/// The output check accepts exactly the expected output that the
/// permutation gives: with the items of the standard blob on the stack and
/// expected output and state on the side stack, the program, and so the
/// bytes that encode it, runs to the end when the first element of the
/// permuted state is the expected output, and leaves both stacks without
/// state and expected output; else the machine aborts.
pub proof fn law_output_check(
    bottom: Seq<int>,
    aside: Seq<int>,
    s: Triple,
    expected: int,
    m: Machine,
)
    requires
        m.stack == bottom + blob_items(standard_blob()),
        m.alt == aside.push(expected).push(s.x2 as int).push(s.x1 as int).push(s.x0 as int),
    ensures
        run_all(prog_output_check(), m) == if standard_permutation(s).x0 == expected {
            Some(Machine { stack: m.stack, alt: aside })
        } else {
            None
        },
        run_script(encode(prog_output_check()), m) == run_all(prog_output_check(), m),
        encode(prog_output_check()) == seq![OP_FROMALTSTACK, OP_FROMALTSTACK, OP_FROMALTSTACK]
            + encode(prog_rounds_witness(64)) + seq![
            OP_DROP,
            OP_DROP,
            OP_FROMALTSTACK,
            OP_NUMEQUALVERIFY,
        ],
{
    law_blob_layout();
    law_output_check_on(
        bottom,
        aside,
        standard_mds(),
        standard_full_constants(),
        standard_fused_constants(),
        s,
        expected,
        m,
    );
    lemma_output_check_bytes();
    lemma_output_check_plain();
    law_script_runs_program(prog_output_check(), m);
}

} // verus!
