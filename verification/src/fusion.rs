//! Constant fusion: what the fused schedule holds, and the permutation that
//! runs on it.

use vstd::arithmetic::div_mod::{
    lemma_add_mod_noop, lemma_mod_twice, lemma_mul_mod_noop, lemma_small_mod,
};
use vstd::prelude::*;
use crate::field::{field_add, field_mul, field_pow5, pallas_modulus};
use crate::poseidon::{
    add_constants, dot3, full_round, fused_round, has_unit_block, mix_dense, mix_sparse,
    partial_round, permute, permute_rounds, round_constants, standard_mds, standard_schedule, Mat3,
    Triple,
};

verus! {

/// What one partial round's constants on the second and third element
/// leave pending for the next round, on the second element.
pub open spec fn pending1(m: Mat3, c: Triple) -> nat {
    field_add(field_mul(m.m11, c.x1), field_mul(m.m12, c.x2))
}

/// The same on the third element.
pub open spec fn pending2(m: Mat3, c: Triple) -> nat {
    field_add(field_mul(m.m21, c.x1), field_mul(m.m22, c.x2))
}

/// The one constant published for partial round `round` (4 to 59): the
/// round's own first constant plus row 0 of the matrix applied to what the
/// round before left pending. Nothing is pending before the first partial
/// round.
pub open spec fn fused_constant(m: Mat3, rc: Seq<Triple>, round: int) -> nat {
    let acc1 = if round <= 4 {
        0
    } else {
        pending1(m, rc[round - 1])
    };
    let acc2 = if round <= 4 {
        0
    } else {
        pending2(m, rc[round - 1])
    };
    field_add(field_add(rc[round].x0, field_mul(m.m01, acc1)), field_mul(m.m02, acc2))
}

/// The 56 fused constants, by partial round.
pub open spec fn fused_schedule(m: Mat3, rc: Seq<Triple>) -> Seq<nat> {
    Seq::new(56, |k: int| fused_constant(m, rc, 4 + k))
}

/// The round that full-round slot `slot` (0 to 7) stands for.
pub open spec fn round_of_slot(slot: int) -> int {
    if slot < 4 {
        slot
    } else {
        slot + 56
    }
}

/// The state after the first `n` rounds of the fused schedule: full rounds
/// take their triple from `full` by slot, partial rounds their one constant
/// from `partial`.
pub open spec fn permute_fused_rounds(
    m: Mat3,
    full: Seq<Triple>,
    partial: Seq<nat>,
    s: Triple,
    n: nat,
) -> Triple
    decreases n,
{
    if n == 0 {
        s
    } else {
        let before = permute_fused_rounds(m, full, partial, s, (n - 1) as nat);
        let r = n - 1;
        if r < 4 {
            full_round(m, full[r], before)
        } else if r < 60 {
            fused_round(m, partial[r - 4], before)
        } else {
            full_round(m, full[r - 56], before)
        }
    }
}

/// The whole permutation on a fused constant set.
pub open spec fn permute_fused(m: Mat3, full: Seq<Triple>, partial: Seq<nat>, s: Triple) -> Triple {
    permute_fused_rounds(m, full, partial, s, 64)
}

/// The eight full-round triples of the standard schedule, by slot.
pub open spec fn standard_full_constants() -> Seq<Triple> {
    Seq::new(8, |slot: int| round_constants(round_of_slot(slot) as nat))
}

/// The 56 fused constants of the standard schedule.
pub open spec fn standard_fused_constants() -> Seq<nat> {
    fused_schedule(standard_mds(), standard_schedule())
}

/// The permutation as it is compiled: on the standard fused set, full
/// rounds with the dense mix and fused partial rounds with the sparse mix.
/// Stored programs run it and the hash is built on it, so that what is
/// hashed off the machine is what the machine recomputes.
pub open spec fn standard_permutation(s: Triple) -> Triple {
    permute_fused(standard_mds(), standard_full_constants(), standard_fused_constants(), s)
}

/// Element `i` (0 to 88) of the standard constant set in serialized order:
/// the matrix row by row, the full-round constants round by round, the
/// fused constants.
pub open spec fn standard_element(i: int) -> nat {
    if i < 9 {
        if i == 0 {
            3
        } else if i == 5 || i == 7 {
            0
        } else {
            1
        }
    } else if i < 33 {
        let t = standard_full_constants()[(i - 9) / 3];
        if (i - 9) % 3 == 0 {
            t.x0
        } else if (i - 9) % 3 == 1 {
            t.x1
        } else {
            t.x2
        }
    } else {
        standard_fused_constants()[i - 33]
    }
}

/// The 89 values of the standard constant set.
pub open spec fn standard_elements() -> Seq<nat> {
    Seq::new(89, |i: int| standard_element(i))
}

/// The eight full-round triples of a schedule, by slot.
pub open spec fn full_constants_of(rc: Seq<Triple>) -> Seq<Triple> {
    Seq::new(8, |slot: int| rc[round_of_slot(slot)])
}

/// The sum of the second constants of the partial rounds before round `r`.
pub open spec fn carried1(rc: Seq<Triple>, r: int) -> int
    decreases r,
{
    if r <= 4 {
        0
    } else {
        carried1(rc, r - 1) + rc[r - 1].x1
    }
}

/// The sum of the third constants of the partial rounds before round `r`.
pub open spec fn carried2(rc: Seq<Triple>, r: int) -> int
    decreases r,
{
    if r <= 4 {
        0
    } else {
        carried2(rc, r - 1) + rc[r - 1].x2
    }
}

/// What the constants carried to round `r` add to the first element.
pub open spec fn carried0(m: Mat3, rc: Seq<Triple>, r: int) -> int {
    m.m01 * carried1(rc, r) + m.m02 * carried2(rc, r)
}

/// Two numbers agree modulo `p`.
pub open spec fn congruent(a: int, b: int) -> bool {
    a % (pallas_modulus() as int) == b % (pallas_modulus() as int)
}

/// The schedules on which fusion keeps the permutation: what is carried to
/// each partial round but the last adds nothing to the first element, and
/// what is carried past the last partial round is zero, all modulo `p`.
/// The fused constant of a round takes in only the constants of the round
/// before it, so anything carried from further back has to cancel.
pub open spec fn fusion_exact(m: Mat3, rc: Seq<Triple>) -> bool {
    &&& forall|r: int| 4 <= r <= 58 ==> congruent(#[trigger] carried0(m, rc, r), 0)
    &&& congruent(carried1(rc, 60), 0)
    &&& congruent(carried2(rc, 60), 0)
}

proof fn lemma_congruent_add(a: int, b: int, c: int, d: int)
    requires
        congruent(a, b),
        congruent(c, d),
    ensures
        congruent(a + c, b + d),
{
    let p = pallas_modulus() as int;
    lemma_add_mod_noop(a, c, p);
    lemma_add_mod_noop(b, d, p);
}

proof fn lemma_congruent_mul(a: int, b: int, c: int, d: int)
    requires
        congruent(a, b),
        congruent(c, d),
    ensures
        congruent(a * c, b * d),
{
    let p = pallas_modulus() as int;
    lemma_mul_mod_noop(a, c, p);
    lemma_mul_mod_noop(b, d, p);
}

proof fn lemma_field_add_congruent(x: nat, y: nat, a: int, b: int)
    requires
        congruent(x as int, a),
        congruent(y as int, b),
    ensures
        congruent(field_add(x, y) as int, a + b),
        field_add(x, y) < pallas_modulus(),
{
    let p = pallas_modulus() as int;
    lemma_mod_twice((x + y) as int, p);
    lemma_congruent_add(x as int, a, y as int, b);
}

proof fn lemma_field_mul_congruent(x: nat, y: nat, a: int, b: int)
    requires
        congruent(x as int, a),
        congruent(y as int, b),
    ensures
        congruent(field_mul(x, y) as int, a * b),
        field_mul(x, y) < pallas_modulus(),
{
    let p = pallas_modulus() as int;
    assert(x * y >= 0) by (nonlinear_arith)
        requires
            x >= 0,
            y >= 0,
    ;
    lemma_mod_twice((x * y) as int, p);
    lemma_congruent_mul(x as int, a, y as int, b);
}

proof fn lemma_dot3_congruent(
    a: nat,
    b: nat,
    c: nat,
    x: nat,
    y: nat,
    z: nat,
    xv: int,
    yv: int,
    zv: int,
)
    requires
        congruent(x as int, xv),
        congruent(y as int, yv),
        congruent(z as int, zv),
    ensures
        congruent(dot3(a, b, c, x, y, z) as int, a * xv + b * yv + c * zv),
        dot3(a, b, c, x, y, z) < pallas_modulus(),
{
    lemma_field_mul_congruent(a, x, a as int, xv);
    lemma_field_mul_congruent(b, y, b as int, yv);
    lemma_field_mul_congruent(c, z, c as int, zv);
    let t0 = field_mul(a, x);
    let t1 = field_mul(b, y);
    let t2 = field_mul(c, z);
    lemma_field_add_congruent(t0, t1, a * xv, b * yv);
    lemma_field_add_congruent(field_add(t0, t1), t2, a * xv + b * yv, c * zv);
}

proof fn lemma_reduced_equal(x: nat, y: nat)
    requires
        x < pallas_modulus(),
        y < pallas_modulus(),
        congruent(x as int, y as int),
    ensures
        x == y,
{
    lemma_small_mod(x, pallas_modulus());
    lemma_small_mod(y, pallas_modulus());
}

/// The fused constant of round `r` modulo `p`, for a matrix with a unit
/// block: the round's first constant, and for every round but the first
/// row 0 applied to the constants of the round before.
proof fn lemma_fused_constant_congruent(m: Mat3, rc: Seq<Triple>, r: int)
    requires
        has_unit_block(m),
        4 <= r < 60,
    ensures
        congruent(
            fused_constant(m, rc, r) as int,
            rc[r].x0 + if r == 4 {
                0int
            } else {
                (m.m01 * rc[r - 1].x1 + m.m02 * rc[r - 1].x2) as int
            },
        ),
{
    let c0 = rc[r].x0;
    if r == 4 {
        lemma_field_mul_congruent(m.m01, 0, m.m01 as int, 0);
        lemma_field_mul_congruent(m.m02, 0, m.m02 as int, 0);
        assert(m.m01 * 0 == 0 && m.m02 * 0 == 0);
        lemma_field_add_congruent(c0, field_mul(m.m01, 0), c0 as int, 0);
        lemma_field_add_congruent(
            field_add(c0, field_mul(m.m01, 0)),
            field_mul(m.m02, 0),
            c0 as int,
            0,
        );
    } else {
        let c = rc[r - 1];
        lemma_dot_pair(m.m11, m.m12, c.x1, c.x2);
        lemma_dot_pair(m.m21, m.m22, c.x1, c.x2);
        let acc1 = pending1(m, c);
        let acc2 = pending2(m, c);
        assert(1 * c.x1 + 0 * c.x2 == c.x1);
        assert(0 * c.x1 + 1 * c.x2 == c.x2);
        lemma_field_mul_congruent(m.m01, acc1, m.m01 as int, c.x1 as int);
        lemma_field_mul_congruent(m.m02, acc2, m.m02 as int, c.x2 as int);
        lemma_field_add_congruent(c0, field_mul(m.m01, acc1), c0 as int, (m.m01 * c.x1) as int);
        lemma_field_add_congruent(
            field_add(c0, field_mul(m.m01, acc1)),
            field_mul(m.m02, acc2),
            (c0 + m.m01 * c.x1) as int,
            (m.m02 * c.x2) as int,
        );
    }
}

proof fn lemma_dot_pair(a: nat, b: nat, x: nat, y: nat)
    ensures
        congruent(field_add(field_mul(a, x), field_mul(b, y)) as int, (a * x + b * y) as int),
{
    lemma_field_mul_congruent(a, x, a as int, x as int);
    lemma_field_mul_congruent(b, y, b as int, y as int);
    lemma_field_add_congruent(field_mul(a, x), field_mul(b, y), (a * x) as int, (b * y) as int);
}

/// One partial round keeps the textbook state and the fused state in
/// step: they differ by what is carried.
proof fn lemma_partial_step(m: Mat3, rc: Seq<Triple>, sb: Triple, tb: Triple, r: int)
    requires
        has_unit_block(m),
        4 <= r < 60,
        r > 4 ==> congruent(carried0(m, rc, r - 1), 0),
        congruent(sb.x0 as int, tb.x0 + carried0(m, rc, r)),
        congruent(sb.x1 as int, tb.x1 + carried1(rc, r)),
        congruent(sb.x2 as int, tb.x2 + carried2(rc, r)),
    ensures
        ({
            let s = partial_round(m, rc[r], sb);
            let t = fused_round(m, fused_constant(m, rc, r), tb);
            &&& congruent(s.x0 as int, t.x0 + carried0(m, rc, r + 1))
            &&& congruent(s.x1 as int, t.x1 + carried1(rc, r + 1))
            &&& congruent(s.x2 as int, t.x2 + carried2(rc, r + 1))
            &&& s.x0 < pallas_modulus() && s.x1 < pallas_modulus() && s.x2 < pallas_modulus()
            &&& t.x0 < pallas_modulus() && t.x1 < pallas_modulus() && t.x2 < pallas_modulus()
        }),
{
    let c = rc[r];
    let fc = fused_constant(m, rc, r);
    let d1 = carried1(rc, r);
    let d2 = carried2(rc, r);
    let a = add_constants(sb, c);
    let b0 = field_add(tb.x0, fc);
    // The two first elements agree before the fifth power.
    lemma_field_add_congruent(sb.x0, c.x0, tb.x0 + carried0(m, rc, r), c.x0 as int);
    lemma_fused_constant_congruent(m, rc, r);
    if r == 4 {
        lemma_field_add_congruent(tb.x0, fc, tb.x0 as int, c.x0 as int);
        assert(carried0(m, rc, r) == 0) by {
            assert(m.m01 * 0 == 0 && m.m02 * 0 == 0);
        }
    } else {
        let e1 = rc[r - 1].x1;
        let e2 = rc[r - 1].x2;
        let back = carried0(m, rc, r - 1);
        lemma_field_add_congruent(
            tb.x0,
            fc,
            tb.x0 as int,
            (c.x0 + (m.m01 * e1 + m.m02 * e2)) as int,
        );
        assert(carried0(m, rc, r) == back + (m.m01 * e1 + m.m02 * e2)) by (nonlinear_arith)
            requires
                carried0(m, rc, r) == m.m01 * (carried1(rc, r - 1) + e1) + m.m02 * (carried2(
                    rc,
                    r - 1,
                ) + e2),
                back == m.m01 * carried1(rc, r - 1) + m.m02 * carried2(rc, r - 1),
        ;
        let rest = (tb.x0 + c.x0 + (m.m01 * e1 + m.m02 * e2)) as int;
        lemma_congruent_add(back, 0, rest, rest);
    }
    lemma_reduced_equal(a.x0, b0);
    let x = field_pow5(a.x0);
    // The other two elements carry their constants along.
    lemma_field_add_congruent(sb.x1, c.x1, tb.x1 + d1, c.x1 as int);
    lemma_field_add_congruent(sb.x2, c.x2, tb.x2 + d2, c.x2 as int);
    let v = Triple { x0: x, x1: a.x1, x2: a.x2 };
    let w = Triple { x0: x, x1: tb.x1, x2: tb.x2 };
    let s = mix_dense(m, v);
    let t = mix_sparse(m, w);
    let n1 = d1 + c.x1;
    let n2 = d2 + c.x2;
    lemma_dot3_congruent(m.m00, m.m01, m.m02, x, a.x1, a.x2, x as int, tb.x1 + n1, tb.x2 + n2);
    lemma_dot3_congruent(
        m.m00,
        m.m01,
        m.m02,
        x,
        tb.x1,
        tb.x2,
        x as int,
        tb.x1 as int,
        tb.x2 as int,
    );
    assert(m.m00 * x + m.m01 * (tb.x1 + n1) + m.m02 * (tb.x2 + n2) == (m.m00 * x + m.m01 * tb.x1
        + m.m02 * tb.x2) + (m.m01 * n1 + m.m02 * n2)) by (nonlinear_arith);
    lemma_congruent_add(
        t.x0 as int,
        (m.m00 * x + m.m01 * tb.x1 + m.m02 * tb.x2) as int,
        m.m01 * n1 + m.m02 * n2,
        m.m01 * n1 + m.m02 * n2,
    );
    lemma_dot3_congruent(m.m10, m.m11, m.m12, x, a.x1, a.x2, x as int, tb.x1 + n1, tb.x2 + n2);
    lemma_dot3_congruent(m.m20, m.m21, m.m22, x, a.x1, a.x2, x as int, tb.x1 + n1, tb.x2 + n2);
    assert(m.m10 * x + 1 * (tb.x1 + n1) + 0 * (tb.x2 + n2) == m.m10 * x + tb.x1 + n1);
    assert(m.m20 * x + 0 * (tb.x1 + n1) + 1 * (tb.x2 + n2) == m.m20 * x + tb.x2 + n2);
    lemma_field_mul_congruent(m.m10, x, m.m10 as int, x as int);
    lemma_field_mul_congruent(m.m20, x, m.m20 as int, x as int);
    lemma_field_add_congruent(field_mul(m.m10, x), tb.x1, (m.m10 * x) as int, tb.x1 as int);
    lemma_field_add_congruent(field_mul(m.m20, x), tb.x2, (m.m20 * x) as int, tb.x2 as int);
    lemma_congruent_add(t.x1 as int, (m.m10 * x + tb.x1) as int, n1, n1);
    lemma_congruent_add(t.x2 as int, (m.m20 * x + tb.x2) as int, n2, n2);
}

/// How the textbook state and the fused state stand to each other after
/// `n` rounds: equal outside the partial rounds, apart by what is carried
/// inside them.
spec fn in_step(m: Mat3, rc: Seq<Triple>, s: Triple, t: Triple, n: nat) -> bool {
    if n <= 4 || n >= 60 {
        s == t
    } else {
        &&& congruent(s.x0 as int, t.x0 + carried0(m, rc, n as int))
        &&& congruent(s.x1 as int, t.x1 + carried1(rc, n as int))
        &&& congruent(s.x2 as int, t.x2 + carried2(rc, n as int))
    }
}

proof fn lemma_in_step(m: Mat3, rc: Seq<Triple>, start: Triple, n: nat)
    requires
        rc.len() == 64,
        has_unit_block(m),
        fusion_exact(m, rc),
        n <= 64,
    ensures
        in_step(
            m,
            rc,
            permute_rounds(m, rc, start, n),
            permute_fused_rounds(m, full_constants_of(rc), fused_schedule(m, rc), start, n),
            n,
        ),
    decreases n,
{
    if n > 0 {
        let r = (n - 1) as nat;
        let full = full_constants_of(rc);
        let fs = fused_schedule(m, rc);
        let sb = permute_rounds(m, rc, start, r);
        let tb = permute_fused_rounds(m, full, fs, start, r);
        lemma_in_step(m, rc, start, r);
        if r < 4 {
            assert(full[r as int] == rc[r as int]);
        } else if r >= 60 {
            assert(full[r - 56] == rc[r as int]);
        } else {
            assert(fs[r - 4] == fused_constant(m, rc, r as int));
            if r == 4 {
                assert(carried0(m, rc, 4) == 0) by {
                    assert(m.m01 * 0 == 0 && m.m02 * 0 == 0);
                }
            } else {
                assert(congruent(carried0(m, rc, r - 1), 0));
            }
            lemma_partial_step(m, rc, sb, tb, r as int);
            if n == 60 {
                let s = partial_round(m, rc[59], sb);
                let t = fused_round(m, fused_constant(m, rc, 59), tb);
                let d1 = carried1(rc, 60);
                let d2 = carried2(rc, 60);
                lemma_congruent_mul(m.m01 as int, m.m01 as int, d1, 0);
                lemma_congruent_mul(m.m02 as int, m.m02 as int, d2, 0);
                assert(m.m01 * 0 == 0 && m.m02 * 0 == 0);
                lemma_congruent_add(m.m01 * d1, 0, m.m02 * d2, 0);
                lemma_congruent_add(t.x0 as int, t.x0 as int, carried0(m, rc, 60), 0);
                lemma_congruent_add(t.x1 as int, t.x1 as int, d1, 0);
                lemma_congruent_add(t.x2 as int, t.x2 as int, d2, 0);
                lemma_reduced_equal(s.x0, t.x0);
                lemma_reduced_equal(s.x1, t.x1);
                lemma_reduced_equal(s.x2, t.x2);
            }
        }
    }
}

/// Fusion keeps the permutation: on a matrix with a unit block and a
/// schedule on which fusion is exact, the fused constants with the sparse
/// mix give, from every state, what the textbook constants with the dense
/// mix give.
pub proof fn law_fusion_equivalence(m: Mat3, rc: Seq<Triple>, s: Triple)
    requires
        rc.len() == 64,
        has_unit_block(m),
        fusion_exact(m, rc),
    ensures
        permute_fused(m, full_constants_of(rc), fused_schedule(m, rc), s) == permute(m, rc, s),
{
    lemma_in_step(m, rc, s, 64);
}

} // verus!
