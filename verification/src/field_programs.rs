//! The programs that field code is made of, with what each computes on the
//! modelled machine.

use vstd::prelude::*;
use crate::field::{
    canonical_repr, field_add, field_mul, field_pow5, is_canonical, le_value,
    lemma_modulus_below_two_255, lemma_top_bit_clear, pallas_modulus, u64_repr, PALLAS_MODULUS_BYTES,
};
use crate::fusion::fused_constant;
use crate::machine::{
    lemma_num_instr_value, lemma_run_concat, num_instr, run, run_all, step, with_stack, Instr,
    Machine,
};
use crate::opcodes::{
    OP_2DROP, OP_ADD, OP_DROP, OP_DUP, OP_FROMALTSTACK, OP_LESSTHAN, OP_MOD, OP_MUL, OP_PICK,
    OP_ROLL, OP_SWAP, OP_TOALTSTACK, OP_VERIFY,
};
use crate::poseidon::{
    add_constants, dot3, full_round, fused_round, is_full_round, mix_dense, mix_sparse,
    round_constant_bytes, standard_mds, standard_schedule, Mat3, Triple,
};

verus! {

/// Copies the item `n` below the top to the top.
pub open spec fn prog_pick(n: nat) -> Seq<Instr> {
    seq![num_instr(n), Instr::Op(OP_PICK)]
}

/// Moves the item `n` below the top to the top.
pub open spec fn prog_roll(n: nat) -> Seq<Instr> {
    seq![num_instr(n), Instr::Op(OP_ROLL)]
}

/// Adds the two top items and reduces by the item that sits `d` below the
/// sum.
pub open spec fn prog_field_add(d: nat) -> Seq<Instr> {
    seq![Instr::Op(OP_ADD), num_instr(d), Instr::Op(OP_PICK), Instr::Op(OP_MOD)]
}

/// Multiplies the two top items and reduces by the item that sits `d` below
/// the product.
pub open spec fn prog_field_mul(d: nat) -> Seq<Instr> {
    seq![Instr::Op(OP_MUL), num_instr(d), Instr::Op(OP_PICK), Instr::Op(OP_MOD)]
}

/// Replaces the top item by its fifth power, reduced by the item that sits
/// `d` below it: two squarings and one multiplication, then the first square
/// is dropped.
pub open spec fn prog_sbox(d: nat) -> Seq<Instr> {
    prog_dup2() + (prog_field_mul(d + 1) + (prog_dup2() + (prog_field_mul(d + 2) + (prog_roll(2)
        + (prog_field_mul(d + 1) + prog_swap_drop())))))
}

pub open spec fn prog_dup2() -> Seq<Instr> {
    seq![Instr::Op(OP_DUP), Instr::Op(OP_DUP)]
}

pub open spec fn prog_swap_drop() -> Seq<Instr> {
    seq![Instr::Op(OP_SWAP), Instr::Op(OP_DROP)]
}

/// The item `d` below the top of `s`.
pub open spec fn at_depth(s: Seq<int>, d: nat) -> int
    recommends
        d < s.len(),
{
    s[s.len() - 1 - d]
}

/// The modulus sits `d` below the top of `s`.
pub open spec fn modulus_at(s: Seq<int>, d: nat) -> bool {
    d < s.len() && at_depth(s, d) == pallas_modulus()
}

proof fn lemma_num_steps(n: nat)
    ensures
        forall|m: Machine| #[trigger]
            step(num_instr(n), m) == Some(with_stack(m, m.stack.push(n as int))),
{
    assert forall|m: Machine| #[trigger]
        step(num_instr(n), m) == Some(with_stack(m, m.stack.push(n as int))) by {
        lemma_num_instr_value(n, m);
    }
}

/// Picking at depth `n` copies that item to the top.
pub proof fn lemma_pick(n: nat, m: Machine)
    requires
        n < m.stack.len(),
    ensures
        run_all(prog_pick(n), m) == Some(with_stack(m, m.stack.push(at_depth(m.stack, n)))),
{
    lemma_num_steps(n);
    reveal_with_fuel(run, 3);
    let s = m.stack;
    assert(s.push(n as int).take(s.len() as int) =~= s);
}

/// Field addition: with `a`, `b` on top and the modulus `d` below where the
/// sum will be, the program leaves `(a + b) mod p` in their place.
pub proof fn lemma_field_add(d: nat, base: Seq<int>, a: nat, b: nat, m: Machine)
    requires
        m.stack == base.push(a as int).push(b as int),
        1 <= d,
        modulus_at(base, (d - 1) as nat),
    ensures
        run_all(prog_field_add(d), m) == Some(
            with_stack(m, base.push(field_add(a, b) as int)),
        ),
{
    lemma_num_steps(d);
    reveal_with_fuel(run, 5);
    let s0 = m.stack;
    let s1 = base.push((a + b) as int);
    assert(s0.take(s0.len() - 2) =~= base);
    let s2 = s1.push(d as int);
    assert(s2.take(s2.len() - 1) =~= s1);
    let s3 = s1.push(pallas_modulus() as int);
    assert(s3.take(s3.len() - 2) =~= base);
}

/// Field multiplication: with `a`, `b` on top and the modulus `d` below
/// where the product will be, the program leaves `(a * b) mod p` in their
/// place.
pub proof fn lemma_field_mul(d: nat, base: Seq<int>, a: nat, b: nat, m: Machine)
    requires
        m.stack == base.push(a as int).push(b as int),
        1 <= d,
        modulus_at(base, (d - 1) as nat),
    ensures
        run_all(prog_field_mul(d), m) == Some(
            with_stack(m, base.push(field_mul(a, b) as int)),
        ),
{
    lemma_num_steps(d);
    reveal_with_fuel(run, 5);
    let s0 = m.stack;
    let s1 = base.push((a * b) as int);
    assert(s0.take(s0.len() - 2) =~= base);
    let s2 = s1.push(d as int);
    assert(s2.take(s2.len() - 1) =~= s1);
    let s3 = s1.push(pallas_modulus() as int);
    assert(s3.take(s3.len() - 2) =~= base);
    assert(a * b >= 0) by (nonlinear_arith)
        requires
            a >= 0,
            b >= 0,
    ;
}

/// Once `p` has run to `mid`, running `p + q` is running `q` from `mid`.
pub proof fn lemma_chain(p: Seq<Instr>, q: Seq<Instr>, m: Machine, mid: Machine)
    requires
        run_all(p, m) == Some(mid),
    ensures
        run_all(p + q, m) == run_all(q, mid),
{
    lemma_run_concat(p, q, m);
}

/// Rolling at depth 2 brings the third item to the top.
pub proof fn lemma_roll2(base: Seq<int>, a: int, b: int, c: int, m: Machine)
    requires
        m.stack == base.push(a).push(b).push(c),
    ensures
        run_all(prog_roll(2), m) == Some(with_stack(m, base.push(b).push(c).push(a))),
{
    lemma_num_steps(2);
    reveal_with_fuel(run, 3);
    let s = m.stack.push(2);
    let at = base.len() as int;
    assert(s.take(at) =~= base);
    assert(s.subrange(at + 1, s.len() - 1) =~= seq![b, c]);
    assert(base + seq![b, c] + seq![a] =~= base.push(b).push(c).push(a));
}

proof fn lemma_dup2(m: Machine)
    requires
        m.stack.len() >= 1,
    ensures
        run_all(prog_dup2(), m) == Some(
            with_stack(m, m.stack.push(m.stack.last()).push(m.stack.last())),
        ),
{
    reveal_with_fuel(run, 3);
}

proof fn lemma_swap_drop(base: Seq<int>, a: int, b: int, m: Machine)
    requires
        m.stack == base.push(a).push(b),
    ensures
        run_all(prog_swap_drop(), m) == Some(with_stack(m, base.push(b))),
{
    reveal_with_fuel(run, 3);
    assert(m.stack.take(m.stack.len() - 2) =~= base);
    let t = base.push(b).push(a);
    assert(t.take(t.len() - 1) =~= base.push(b));
}

/// The fifth power: with `x` on top and the modulus `d` below it, the
/// program leaves `x^5 mod p` in its place.
pub proof fn lemma_sbox(d: nat, base: Seq<int>, x: nat, m: Machine)
    requires
        m.stack == base.push(x as int),
        1 <= d,
        modulus_at(base, (d - 1) as nat),
    ensures
        run_all(prog_sbox(d), m) == Some(with_stack(m, base.push(field_pow5(x) as int))),
{
    let x2 = field_mul(x, x);
    let x4 = field_mul(x2, x2);
    let x5 = field_mul(x4, x);
    let xi = x as int;
    let b1 = base.push(xi);
    let b2 = b1.push(x2 as int);
    let r6 = prog_swap_drop();
    let r5 = prog_field_mul(d + 1) + r6;
    let r4 = prog_roll(2) + r5;
    let r3 = prog_field_mul(d + 2) + r4;
    let r2 = prog_dup2() + r3;
    let r1 = prog_field_mul(d + 1) + r2;
    let m1 = with_stack(m, b1.push(xi).push(xi));
    lemma_dup2(m);
    lemma_chain(prog_dup2(), r1, m, m1);
    let m2 = with_stack(m, b2);
    lemma_field_mul(d + 1, b1, x, x, m1);
    lemma_chain(prog_field_mul(d + 1), r2, m1, m2);
    let m3 = with_stack(m, b2.push(x2 as int).push(x2 as int));
    lemma_dup2(m2);
    lemma_chain(prog_dup2(), r3, m2, m3);
    let m4 = with_stack(m, b2.push(x4 as int));
    lemma_field_mul(d + 2, b2, x2, x2, m3);
    lemma_chain(prog_field_mul(d + 2), r4, m3, m4);
    let m5 = with_stack(m, base.push(x2 as int).push(x4 as int).push(xi));
    lemma_roll2(base, xi, x2 as int, x4 as int, m4);
    lemma_chain(prog_roll(2), r5, m4, m5);
    let m6 = with_stack(m, base.push(x2 as int).push(x5 as int));
    lemma_field_mul(d + 1, base.push(x2 as int), x4, x, m5);
    lemma_chain(prog_field_mul(d + 1), r6, m5, m6);
    lemma_swap_drop(base, x2 as int, x5 as int, m6);
}

/// One product of a matrix entry and a state element: fetches the entry
/// at depth `md` and the element at depth `sd`, multiplies, and reduces by
/// the modulus at depth `pd`. The depths count from the top of the stack
/// before the program runs.
pub open spec fn prog_term(md: nat, sd: nat, pd: nat) -> Seq<Instr> {
    prog_pick(md) + (prog_pick(sd + 1) + prog_field_mul(pd + 1))
}

/// One row of a matrix-vector product. The row's entries sit at depths
/// `md`, `md - 1`, `md - 2`, the vector's elements at `sd`, `sd - 1`,
/// `sd - 2`, the modulus at `pd`.
pub open spec fn prog_dot_row(md: nat, sd: nat, pd: nat) -> Seq<Instr> {
    prog_term(md, sd, pd) + (prog_term(md, sd, pd + 1) + (prog_field_add(pd + 1) + (prog_term(
        (md - 1) as nat,
        (sd - 1) as nat,
        pd + 1,
    ) + prog_field_add(pd + 1))))
}

/// One row of the sparse product: a single product with the entry at depth
/// `md` and the element at depth `sd`, plus the element at depth `ad`.
pub open spec fn prog_affine_row(md: nat, sd: nat, ad: nat, pd: nat) -> Seq<Instr> {
    prog_term(md, sd, pd) + (prog_pick(ad + 1) + prog_field_add(pd + 1))
}

/// Drops the three items under the top three.
pub open spec fn prog_keep_top3() -> Seq<Instr> {
    seq![
        Instr::Op(OP_TOALTSTACK),
        Instr::Op(OP_TOALTSTACK),
        Instr::Op(OP_TOALTSTACK),
        Instr::Op(OP_2DROP),
        Instr::Op(OP_DROP),
        Instr::Op(OP_FROMALTSTACK),
        Instr::Op(OP_FROMALTSTACK),
        Instr::Op(OP_FROMALTSTACK),
    ]
}

/// The dense mix of the three top items. `k` is the depth of the last
/// matrix entry below the state: above it sit the other eight entries in
/// row-major order and then the modulus.
pub open spec fn prog_mix_dense(k: nat) -> Seq<Instr> {
    prog_dot_row(k + 11, 2, k + 12) + (prog_dot_row(k + 9, 3, k + 13) + (prog_dot_row(
        k + 7,
        4,
        k + 14,
    ) + prog_keep_top3()))
}

/// The sparse mix of the three top items, with the same layout as the dense
/// one.
pub open spec fn prog_mix_sparse(k: nat) -> Seq<Instr> {
    prog_dot_row(k + 11, 2, k + 12) + (prog_affine_row(k + 9, 3, 2, k + 13) + (prog_affine_row(
        k + 7,
        4,
        2,
        k + 14,
    ) + prog_keep_top3()))
}

/// Where a program finds a constant: written into the program, or at a
/// depth below the state.
pub enum ConstRef {
    Literal(Seq<u8>),
    Depth(nat),
}

/// The program that brings a constant to the top. A depth counts from the
/// top of the stack before the program runs.
pub open spec fn prog_const(c: ConstRef) -> Seq<Instr> {
    match c {
        ConstRef::Literal(bytes) => seq![Instr::Data(bytes)],
        ConstRef::Depth(d) => prog_pick(d),
    }
}

/// With three items on top of `base`, the reference `c` yields the field
/// value `v`: a literal is its canonical encoding, a depth points below the
/// three items at that value.
pub open spec fn const_below(c: ConstRef, base: Seq<int>, v: nat) -> bool {
    match c {
        ConstRef::Literal(bytes) => is_canonical(bytes) && le_value(bytes) == v,
        ConstRef::Depth(d) => 3 <= d < base.len() + 3 && at_depth(base, (d - 3) as nat)
            == v as int,
    }
}

/// Adds the three constants to the three top items and leaves the sums in
/// the order second, third, first. `pd` is the depth of the modulus below
/// the state; constant depths count from the stack with the state on top.
pub open spec fn prog_add_constants(c0: ConstRef, c1: ConstRef, c2: ConstRef, pd: nat) -> Seq<
    Instr,
> {
    prog_const(c2) + (prog_field_add(pd) + (seq![Instr::Op(OP_SWAP)] + (prog_const(c1) + (
    prog_field_add(pd) + (seq![Instr::Op(OP_SWAP)] + (prog_roll(2) + (prog_const(c0)
        + prog_field_add(pd))))))))
}

/// One full round. `k` locates the matrix as for the mixes.
pub open spec fn prog_full_round(k: nat, c0: ConstRef, c1: ConstRef, c2: ConstRef) -> Seq<Instr> {
    prog_add_constants(c0, c1, c2, k + 12) + (prog_sbox(k + 12) + (prog_roll(2) + (prog_sbox(
        k + 12,
    ) + (prog_roll(2) + (prog_sbox(k + 12) + prog_mix_dense(k))))))
}

/// One fused partial round: a single constant on the first element.
pub open spec fn prog_fused_round(k: nat, c0: ConstRef) -> Seq<Instr> {
    prog_roll(2) + (prog_const(c0) + (prog_field_add(k + 12) + (prog_sbox(k + 12) + (prog_roll(2)
        + (prog_roll(2) + prog_mix_sparse(k))))))
}

/// Below the state, `s` holds the matrix `mat` with its last entry at depth
/// `k`, the others above it in row-major order, and then the modulus.
pub open spec fn params_at(s: Seq<int>, k: nat, mat: Mat3) -> bool {
    &&& k + 9 < s.len()
    &&& at_depth(s, k) == mat.m22
    &&& at_depth(s, k + 1) == mat.m21
    &&& at_depth(s, k + 2) == mat.m20
    &&& at_depth(s, k + 3) == mat.m12
    &&& at_depth(s, k + 4) == mat.m11
    &&& at_depth(s, k + 5) == mat.m10
    &&& at_depth(s, k + 6) == mat.m02
    &&& at_depth(s, k + 7) == mat.m01
    &&& at_depth(s, k + 8) == mat.m00
    &&& at_depth(s, k + 9) == pallas_modulus()
}

/// The stack `s` with a state on top.
pub open spec fn with_state(s: Seq<int>, t: Triple) -> Seq<int> {
    s.push(t.x0 as int).push(t.x1 as int).push(t.x2 as int)
}

proof fn lemma_term(md: nat, sd: nat, pd: nat, s: Seq<int>, c: nat, x: nat, m: Machine)
    requires
        m.stack == s,
        md < s.len(),
        sd < s.len(),
        at_depth(s, md) == c,
        at_depth(s, sd) == x,
        modulus_at(s, pd),
    ensures
        run_all(prog_term(md, sd, pd), m) == Some(with_stack(m, s.push(field_mul(c, x) as int))),
{
    let r2 = prog_field_mul(pd + 1);
    let r1 = prog_pick(sd + 1) + r2;
    let m1 = with_stack(m, s.push(c as int));
    lemma_pick(md, m);
    lemma_chain(prog_pick(md), r1, m, m1);
    let m2 = with_stack(m, s.push(c as int).push(x as int));
    lemma_pick(sd + 1, m1);
    lemma_chain(prog_pick(sd + 1), r2, m1, m2);
    lemma_field_mul(pd + 1, s, c, x, m2);
}

proof fn lemma_dot_row(
    md: nat,
    sd: nat,
    pd: nat,
    s: Seq<int>,
    a: nat,
    b: nat,
    c: nat,
    v: Triple,
    m: Machine,
)
    requires
        m.stack == s,
        2 <= md < s.len(),
        2 <= sd < s.len(),
        at_depth(s, md) == a,
        at_depth(s, (md - 1) as nat) == b,
        at_depth(s, (md - 2) as nat) == c,
        at_depth(s, sd) == v.x0,
        at_depth(s, (sd - 1) as nat) == v.x1,
        at_depth(s, (sd - 2) as nat) == v.x2,
        modulus_at(s, pd),
    ensures
        run_all(prog_dot_row(md, sd, pd), m) == Some(
            with_stack(m, s.push(dot3(a, b, c, v.x0, v.x1, v.x2) as int)),
        ),
{
    let t0 = field_mul(a, v.x0);
    let t1 = field_mul(b, v.x1);
    let t2 = field_mul(c, v.x2);
    let a01 = field_add(t0, t1);
    let r4 = prog_field_add(pd + 1);
    let r3 = prog_term((md - 1) as nat, (sd - 1) as nat, pd + 1) + r4;
    let r2 = prog_field_add(pd + 1) + r3;
    let r1 = prog_term(md, sd, pd + 1) + r2;
    let s1 = s.push(t0 as int);
    let m1 = with_stack(m, s1);
    lemma_term(md, sd, pd, s, a, v.x0, m);
    lemma_chain(prog_term(md, sd, pd), r1, m, m1);
    let m2 = with_stack(m, s1.push(t1 as int));
    lemma_term(md, sd, pd + 1, s1, b, v.x1, m1);
    lemma_chain(prog_term(md, sd, pd + 1), r2, m1, m2);
    let s3 = s.push(a01 as int);
    let m3 = with_stack(m, s3);
    lemma_field_add(pd + 1, s, t0, t1, m2);
    lemma_chain(prog_field_add(pd + 1), r3, m2, m3);
    let m4 = with_stack(m, s3.push(t2 as int));
    lemma_term((md - 1) as nat, (sd - 1) as nat, pd + 1, s3, c, v.x2, m3);
    lemma_chain(prog_term((md - 1) as nat, (sd - 1) as nat, pd + 1), r4, m3, m4);
    lemma_field_add(pd + 1, s, a01, t2, m4);
}

proof fn lemma_affine_row(
    md: nat,
    sd: nat,
    ad: nat,
    pd: nat,
    s: Seq<int>,
    c: nat,
    x: nat,
    y: nat,
    m: Machine,
)
    requires
        m.stack == s,
        md < s.len(),
        sd < s.len(),
        ad < s.len(),
        at_depth(s, md) == c,
        at_depth(s, sd) == x,
        at_depth(s, ad) == y,
        modulus_at(s, pd),
    ensures
        run_all(prog_affine_row(md, sd, ad, pd), m) == Some(
            with_stack(m, s.push(field_add(field_mul(c, x), y) as int)),
        ),
{
    let t = field_mul(c, x);
    let r2 = prog_field_add(pd + 1);
    let r1 = prog_pick(ad + 1) + r2;
    let s1 = s.push(t as int);
    let m1 = with_stack(m, s1);
    lemma_term(md, sd, pd, s, c, x, m);
    lemma_chain(prog_term(md, sd, pd), r1, m, m1);
    let m2 = with_stack(m, s1.push(y as int));
    lemma_pick(ad + 1, m1);
    lemma_chain(prog_pick(ad + 1), r2, m1, m2);
    lemma_field_add(pd + 1, s, t, y, m2);
}

proof fn lemma_keep_top3(base: Seq<int>, old3: Triple, new3: Triple, m: Machine)
    requires
        m.stack == with_state(with_state(base, old3), new3),
    ensures
        run_all(prog_keep_top3(), m) == Some(with_stack(m, with_state(base, new3))),
{
    reveal_with_fuel(run, 9);
    let s0 = m.stack;
    let b3 = with_state(base, old3);
    let n = s0.len() as int;
    assert(s0.take(n - 1) =~= b3.push(new3.x0 as int).push(new3.x1 as int));
    let s1 = s0.take(n - 1);
    assert(s1.take(n - 2) =~= b3.push(new3.x0 as int));
    let s2 = s1.take(n - 2);
    assert(s2.take(n - 3) =~= b3);
    assert(b3.take(b3.len() - 2) =~= base.push(old3.x0 as int));
    assert(base.push(old3.x0 as int).take(base.len() as int) =~= base);
    let a1 = m.alt.push(new3.x2 as int);
    let a2 = a1.push(new3.x1 as int);
    let a3 = a2.push(new3.x0 as int);
    assert(a3.drop_last() =~= a2);
    assert(a2.drop_last() =~= a1);
    assert(a1.drop_last() =~= m.alt);
}

/// The dense mix: with the matrix below the state, the program replaces
/// the state by the dense matrix-vector product.
pub proof fn lemma_mix_dense(k: nat, base: Seq<int>, mat: Mat3, v: Triple, m: Machine)
    requires
        m.stack == with_state(base, v),
        params_at(base, k, mat),
    ensures
        run_all(prog_mix_dense(k), m) == Some(with_stack(m, with_state(base, mix_dense(mat, v)))),
{
    let o = mix_dense(mat, v);
    let s = m.stack;
    let r3 = prog_keep_top3();
    let r2 = prog_dot_row(k + 7, 4, k + 14) + r3;
    let r1 = prog_dot_row(k + 9, 3, k + 13) + r2;
    let s1 = s.push(o.x0 as int);
    let m1 = with_stack(m, s1);
    lemma_dot_row(k + 11, 2, k + 12, s, mat.m00, mat.m01, mat.m02, v, m);
    lemma_chain(prog_dot_row(k + 11, 2, k + 12), r1, m, m1);
    let s2 = s1.push(o.x1 as int);
    let m2 = with_stack(m, s2);
    lemma_dot_row(k + 9, 3, k + 13, s1, mat.m10, mat.m11, mat.m12, v, m1);
    lemma_chain(prog_dot_row(k + 9, 3, k + 13), r2, m1, m2);
    let s3 = s2.push(o.x2 as int);
    let m3 = with_stack(m, s3);
    lemma_dot_row(k + 7, 4, k + 14, s2, mat.m20, mat.m21, mat.m22, v, m2);
    lemma_chain(prog_dot_row(k + 7, 4, k + 14), r3, m2, m3);
    lemma_keep_top3(base, v, o, m3);
}

/// The sparse mix: with the matrix below the state, the program replaces
/// the state by the sparse product.
pub proof fn lemma_mix_sparse(k: nat, base: Seq<int>, mat: Mat3, v: Triple, m: Machine)
    requires
        m.stack == with_state(base, v),
        params_at(base, k, mat),
    ensures
        run_all(prog_mix_sparse(k), m) == Some(
            with_stack(m, with_state(base, mix_sparse(mat, v))),
        ),
{
    let o = mix_sparse(mat, v);
    let s = m.stack;
    let r3 = prog_keep_top3();
    let r2 = prog_affine_row(k + 7, 4, 2, k + 14) + r3;
    let r1 = prog_affine_row(k + 9, 3, 2, k + 13) + r2;
    let s1 = s.push(o.x0 as int);
    let m1 = with_stack(m, s1);
    lemma_dot_row(k + 11, 2, k + 12, s, mat.m00, mat.m01, mat.m02, v, m);
    lemma_chain(prog_dot_row(k + 11, 2, k + 12), r1, m, m1);
    let s2 = s1.push(o.x1 as int);
    let m2 = with_stack(m, s2);
    lemma_affine_row(k + 9, 3, 2, k + 13, s1, mat.m10, v.x0, v.x1, m1);
    lemma_chain(prog_affine_row(k + 9, 3, 2, k + 13), r2, m1, m2);
    let s3 = s2.push(o.x2 as int);
    let m3 = with_stack(m, s3);
    lemma_affine_row(k + 7, 4, 2, k + 14, s2, mat.m20, v.x0, v.x2, m2);
    lemma_chain(prog_affine_row(k + 7, 4, 2, k + 14), r3, m2, m3);
    lemma_keep_top3(base, v, o, m3);
}

proof fn lemma_const(c: ConstRef, base: Seq<int>, x: int, y: int, z: int, v: nat, m: Machine)
    requires
        m.stack == base.push(x).push(y).push(z),
        const_below(c, base, v),
    ensures
        run_all(prog_const(c), m) == Some(with_stack(m, m.stack.push(v as int))),
{
    match c {
        ConstRef::Literal(bytes) => {
            reveal_with_fuel(run, 2);
            lemma_modulus_below_two_255();
            lemma_top_bit_clear(bytes);
        },
        ConstRef::Depth(d) => {
            lemma_pick(d, m);
        },
    }
}

proof fn lemma_swap(base: Seq<int>, a: int, b: int, m: Machine)
    requires
        m.stack == base.push(a).push(b),
    ensures
        run_all(seq![Instr::Op(OP_SWAP)], m) == Some(with_stack(m, base.push(b).push(a))),
{
    reveal_with_fuel(run, 2);
    assert(m.stack.take(m.stack.len() - 2) =~= base);
}

proof fn lemma_add_constants(
    c0: ConstRef,
    c1: ConstRef,
    c2: ConstRef,
    pd: nat,
    base: Seq<int>,
    st: Triple,
    cv: Triple,
    m: Machine,
)
    requires
        m.stack == with_state(base, st),
        3 <= pd,
        modulus_at(base, (pd - 3) as nat),
        const_below(c0, base, cv.x0),
        const_below(c1, base, cv.x1),
        const_below(c2, base, cv.x2),
    ensures
        run_all(prog_add_constants(c0, c1, c2, pd), m) == Some(
            with_stack(
                m,
                base.push(add_constants(st, cv).x1 as int).push(
                    add_constants(st, cv).x2 as int,
                ).push(add_constants(st, cv).x0 as int),
            ),
        ),
{
    let a = add_constants(st, cv);
    let (s0, s1, s2) = (st.x0 as int, st.x1 as int, st.x2 as int);
    let (a0, a1, a2) = (a.x0 as int, a.x1 as int, a.x2 as int);
    let r8 = prog_field_add(pd);
    let r7 = prog_const(c0) + r8;
    let r6 = prog_roll(2) + r7;
    let r5 = seq![Instr::Op(OP_SWAP)] + r6;
    let r4 = prog_field_add(pd) + r5;
    let r3 = prog_const(c1) + r4;
    let r2 = seq![Instr::Op(OP_SWAP)] + r3;
    let r1 = prog_field_add(pd) + r2;
    let m1 = with_stack(m, m.stack.push(cv.x2 as int));
    lemma_const(c2, base, s0, s1, s2, cv.x2, m);
    lemma_chain(prog_const(c2), r1, m, m1);
    let m2 = with_stack(m, base.push(s0).push(s1).push(a2));
    lemma_field_add(pd, base.push(s0).push(s1), st.x2, cv.x2, m1);
    lemma_chain(prog_field_add(pd), r2, m1, m2);
    let m3 = with_stack(m, base.push(s0).push(a2).push(s1));
    lemma_swap(base.push(s0), s1, a2, m2);
    lemma_chain(seq![Instr::Op(OP_SWAP)], r3, m2, m3);
    let m4 = with_stack(m, m3.stack.push(cv.x1 as int));
    lemma_const(c1, base, s0, a2, s1, cv.x1, m3);
    lemma_chain(prog_const(c1), r4, m3, m4);
    let m5 = with_stack(m, base.push(s0).push(a2).push(a1));
    lemma_field_add(pd, base.push(s0).push(a2), st.x1, cv.x1, m4);
    lemma_chain(prog_field_add(pd), r5, m4, m5);
    let m6 = with_stack(m, base.push(s0).push(a1).push(a2));
    lemma_swap(base.push(s0), a2, a1, m5);
    lemma_chain(seq![Instr::Op(OP_SWAP)], r6, m5, m6);
    let m7 = with_stack(m, base.push(a1).push(a2).push(s0));
    lemma_roll2(base, s0, a1, a2, m6);
    lemma_chain(prog_roll(2), r7, m6, m7);
    let m8 = with_stack(m, m7.stack.push(cv.x0 as int));
    lemma_const(c0, base, a1, a2, s0, cv.x0, m7);
    lemma_chain(prog_const(c0), r8, m7, m8);
    lemma_field_add(pd, base.push(a1).push(a2), st.x0, cv.x0, m8);
}

/// A full round: with the matrix and the modulus below the state and the
/// three constants where the references point, the program replaces the
/// state by the round's result.
pub proof fn lemma_full_round(
    k: nat,
    c0: ConstRef,
    c1: ConstRef,
    c2: ConstRef,
    base: Seq<int>,
    mat: Mat3,
    cv: Triple,
    st: Triple,
    m: Machine,
)
    requires
        m.stack == with_state(base, st),
        params_at(base, k, mat),
        const_below(c0, base, cv.x0),
        const_below(c1, base, cv.x1),
        const_below(c2, base, cv.x2),
    ensures
        run_all(prog_full_round(k, c0, c1, c2), m) == Some(
            with_stack(m, with_state(base, full_round(mat, cv, st))),
        ),
{
    let a = add_constants(st, cv);
    let (a0, a1, a2) = (a.x0 as int, a.x1 as int, a.x2 as int);
    let x = Triple { x0: field_pow5(a.x0), x1: field_pow5(a.x1), x2: field_pow5(a.x2) };
    let (x0, x1, x2) = (x.x0 as int, x.x1 as int, x.x2 as int);
    let pd = k + 12;
    let r6 = prog_mix_dense(k);
    let r5 = prog_sbox(pd) + r6;
    let r4 = prog_roll(2) + r5;
    let r3 = prog_sbox(pd) + r4;
    let r2 = prog_roll(2) + r3;
    let r1 = prog_sbox(pd) + r2;
    let m1 = with_stack(m, base.push(a1).push(a2).push(a0));
    lemma_add_constants(c0, c1, c2, pd, base, st, cv, m);
    lemma_chain(prog_add_constants(c0, c1, c2, pd), r1, m, m1);
    let m2 = with_stack(m, base.push(a1).push(a2).push(x0));
    lemma_sbox(pd, base.push(a1).push(a2), a.x0, m1);
    lemma_chain(prog_sbox(pd), r2, m1, m2);
    let m3 = with_stack(m, base.push(a2).push(x0).push(a1));
    lemma_roll2(base, a1, a2, x0, m2);
    lemma_chain(prog_roll(2), r3, m2, m3);
    let m4 = with_stack(m, base.push(a2).push(x0).push(x1));
    lemma_sbox(pd, base.push(a2).push(x0), a.x1, m3);
    lemma_chain(prog_sbox(pd), r4, m3, m4);
    let m5 = with_stack(m, base.push(x0).push(x1).push(a2));
    lemma_roll2(base, a2, x0, x1, m4);
    lemma_chain(prog_roll(2), r5, m4, m5);
    let m6 = with_stack(m, with_state(base, x));
    lemma_sbox(pd, base.push(x0).push(x1), a.x2, m5);
    lemma_chain(prog_sbox(pd), r6, m5, m6);
    lemma_mix_dense(k, base, mat, x, m6);
}

/// A fused partial round: the program adds the one constant to the first
/// element, raises it to the fifth power and mixes sparsely.
pub proof fn lemma_fused_round(
    k: nat,
    c0: ConstRef,
    base: Seq<int>,
    mat: Mat3,
    cv: nat,
    st: Triple,
    m: Machine,
)
    requires
        m.stack == with_state(base, st),
        params_at(base, k, mat),
        const_below(c0, base, cv),
    ensures
        run_all(prog_fused_round(k, c0), m) == Some(
            with_stack(m, with_state(base, fused_round(mat, cv, st))),
        ),
{
    let (s0, s1, s2) = (st.x0 as int, st.x1 as int, st.x2 as int);
    let a0 = field_add(st.x0, cv);
    let x = Triple { x0: field_pow5(a0), x1: st.x1, x2: st.x2 };
    let x0 = x.x0 as int;
    let pd = k + 12;
    let r6 = prog_mix_sparse(k);
    let r5 = prog_roll(2) + r6;
    let r4 = prog_roll(2) + r5;
    let r3 = prog_sbox(pd) + r4;
    let r2 = prog_field_add(pd) + r3;
    let r1 = prog_const(c0) + r2;
    let m1 = with_stack(m, base.push(s1).push(s2).push(s0));
    lemma_roll2(base, s0, s1, s2, m);
    lemma_chain(prog_roll(2), r1, m, m1);
    let m2 = with_stack(m, m1.stack.push(cv as int));
    lemma_const(c0, base, s1, s2, s0, cv, m1);
    lemma_chain(prog_const(c0), r2, m1, m2);
    let m3 = with_stack(m, base.push(s1).push(s2).push(a0 as int));
    lemma_field_add(pd, base.push(s1).push(s2), st.x0, cv, m2);
    lemma_chain(prog_field_add(pd), r3, m2, m3);
    let m4 = with_stack(m, base.push(s1).push(s2).push(x0));
    lemma_sbox(pd, base.push(s1).push(s2), a0, m3);
    lemma_chain(prog_sbox(pd), r4, m3, m4);
    let m5 = with_stack(m, base.push(s2).push(x0).push(s1));
    lemma_roll2(base, s1, s2, x0, m4);
    lemma_chain(prog_roll(2), r5, m4, m5);
    let m6 = with_stack(m, with_state(base, x));
    lemma_roll2(base, s2, x0, s1, m5);
    lemma_chain(prog_roll(2), r6, m5, m6);
    lemma_mix_sparse(k, base, mat, x, m6);
}

/// A round constant written into the program.
pub open spec fn embedded_constant(round: nat, index: nat) -> ConstRef {
    ConstRef::Literal(round_constant_bytes(round, index))
}

/// The fused constant of round `round` of the standard schedule, written
/// into the program.
pub open spec fn embedded_fused_constant(round: nat) -> ConstRef {
    ConstRef::Literal(
        canonical_repr(fused_constant(standard_mds(), standard_schedule(), round as int)),
    )
}

/// Round `round` with its constants written into the program: a full round
/// with its three constants and the dense mix, or a partial round with its
/// one fused constant and the sparse mix.
pub open spec fn prog_round_embedded(round: nat) -> Seq<Instr> {
    if is_full_round(round as int) {
        prog_full_round(
            0,
            embedded_constant(round, 0),
            embedded_constant(round, 1),
            embedded_constant(round, 2),
        )
    } else {
        prog_fused_round(0, embedded_fused_constant(round))
    }
}

/// The first `n` rounds with embedded constants.
pub open spec fn prog_rounds_embedded(n: nat) -> Seq<Instr>
    decreases n,
{
    if n == 0 {
        Seq::<Instr>::empty()
    } else {
        prog_rounds_embedded((n - 1) as nat) + prog_round_embedded((n - 1) as nat)
    }
}

/// Pushes the modulus and then the matrix in row-major order.
pub open spec fn prog_init() -> Seq<Instr> {
    seq![
        Instr::Data(PALLAS_MODULUS_BYTES@),
        Instr::Data(u64_repr(3)),
        Instr::Data(u64_repr(1)),
        Instr::Data(u64_repr(1)),
        Instr::Data(u64_repr(1)),
        Instr::Data(u64_repr(1)),
        Instr::Data(u64_repr(0)),
        Instr::Data(u64_repr(1)),
        Instr::Data(u64_repr(0)),
        Instr::Data(u64_repr(1)),
    ]
}

/// Brings the three items that lay below ten pushed constants back to the
/// top, in their order.
pub open spec fn prog_raise_state() -> Seq<Instr> {
    prog_roll(12) + (prog_roll(12) + prog_roll(12))
}

/// The whole permutation with embedded constants: pushes the modulus and
/// the matrix under the state that it finds on the stack, then runs the 64
/// rounds.
pub open spec fn prog_poseidon_embedded() -> Seq<Instr> {
    prog_init() + (prog_raise_state() + prog_rounds_embedded(64))
}

/// The position of a full round among the eight full rounds.
pub open spec fn full_slot(round: nat) -> nat {
    if round < 4 {
        round
    } else {
        (round - 56) as nat
    }
}

/// Depth of the last matrix entry below the state when the whole constant
/// set lies on the stack: 24 full-round and 56 partial-round constants sit
/// above it.
pub open spec fn witness_k() -> nat {
    80
}

/// Where constant `index` of full round `round` lies below the state.
pub open spec fn witness_full_constant(round: nat, index: nat) -> ConstRef {
    ConstRef::Depth((82 - 3 * full_slot(round) - index) as nat)
}

/// Where the fused constant of partial round `round` lies below the state.
pub open spec fn witness_partial_constant(round: nat) -> ConstRef {
    ConstRef::Depth((62 - round) as nat)
}

/// Round `round` with its constants fetched from the stack: a full round,
/// or a fused partial round.
pub open spec fn prog_round_witness(round: nat) -> Seq<Instr> {
    if is_full_round(round as int) {
        prog_full_round(
            witness_k(),
            witness_full_constant(round, 0),
            witness_full_constant(round, 1),
            witness_full_constant(round, 2),
        )
    } else {
        prog_fused_round(witness_k(), witness_partial_constant(round))
    }
}

/// The first `n` rounds with constants fetched from the stack.
pub open spec fn prog_rounds_witness(n: nat) -> Seq<Instr>
    decreases n,
{
    if n == 0 {
        Seq::<Instr>::empty()
    } else {
        prog_rounds_witness((n - 1) as nat) + prog_round_witness((n - 1) as nat)
    }
}

/// Checks that the top item is below the modulus and leaves it in place.
pub open spec fn prog_canonical_check() -> Seq<Instr> {
    seq![
        Instr::Op(OP_DUP),
        Instr::Data(PALLAS_MODULUS_BYTES@),
        Instr::Op(OP_LESSTHAN),
        Instr::Op(OP_VERIFY),
    ]
}

} // verus!
