//! The permutation: its parameters, its rounds as functions on field
//! values, the textbook schedule as reference, and the hash, which is built
//! on the permutation as it is compiled.

use vstd::prelude::*;
use crate::field::{
    field_add, field_mul, field_pow5, is_canonical, le_value, lemma_le_value_32, pallas_modulus, Fp,
};
use crate::field_script::FusedPoseidonConstants;
use crate::fusion::standard_permutation;
use crate::hashing::{sha256, sha256_digest};

verus! {

pub const FULL_ROUNDS: usize = 8;

pub const PARTIAL_ROUNDS: usize = 56;

pub const TOTAL_ROUNDS: usize = 64;

/// Index of the first partial round.
pub const FIRST_PARTIAL: usize = 4;

/// Index of the first full round after the partial rounds.
pub const FIRST_FINAL: usize = 60;

/// The mixing matrix. Rows 1 and 2 carry a unit coefficient on their own
/// state element and none on the other, which is what lets a partial round
/// mix with five multiplications.
pub const MDS_MATRIX: [[u64; 3]; 3] = [[3, 1, 1], [1, 1, 0], [1, 0, 1]];

/// Three field values: a permutation state or one round's constants.
pub struct Triple {
    pub x0: nat,
    pub x1: nat,
    pub x2: nat,
}

/// A 3x3 matrix of field values, `mIJ` in row `I` and column `J`.
pub struct Mat3 {
    pub m00: nat,
    pub m01: nat,
    pub m02: nat,
    pub m10: nat,
    pub m11: nat,
    pub m12: nat,
    pub m20: nat,
    pub m21: nat,
    pub m22: nat,
}

/// `a*x + b*y + c*z` in the field, reduced after every operation.
pub open spec fn dot3(a: nat, b: nat, c: nat, x: nat, y: nat, z: nat) -> nat {
    field_add(field_add(field_mul(a, x), field_mul(b, y)), field_mul(c, z))
}

/// The full matrix-vector product: nine multiplications.
pub open spec fn mix_dense(m: Mat3, v: Triple) -> Triple {
    Triple {
        x0: dot3(m.m00, m.m01, m.m02, v.x0, v.x1, v.x2),
        x1: dot3(m.m10, m.m11, m.m12, v.x0, v.x1, v.x2),
        x2: dot3(m.m20, m.m21, m.m22, v.x0, v.x1, v.x2),
    }
}

/// The product for a partial round: row 0 in full, rows 1 and 2 as
/// `m10*x0 + x1` and `m20*x0 + x2`. Five multiplications.
pub open spec fn mix_sparse(m: Mat3, v: Triple) -> Triple {
    Triple {
        x0: dot3(m.m00, m.m01, m.m02, v.x0, v.x1, v.x2),
        x1: field_add(field_mul(m.m10, v.x0), v.x1),
        x2: field_add(field_mul(m.m20, v.x0), v.x2),
    }
}

/// Rows 1 and 2 of the matrix have the shape that sparse mixing assumes.
pub open spec fn has_unit_block(m: Mat3) -> bool {
    m.m11 == 1 && m.m12 == 0 && m.m21 == 0 && m.m22 == 1
}

pub open spec fn triple_in_field(t: Triple) -> bool {
    t.x0 < pallas_modulus() && t.x1 < pallas_modulus() && t.x2 < pallas_modulus()
}

/// Adds one round's constants to the state.
pub open spec fn add_constants(s: Triple, c: Triple) -> Triple {
    Triple { x0: field_add(s.x0, c.x0), x1: field_add(s.x1, c.x1), x2: field_add(s.x2, c.x2) }
}

/// A full round: constants, fifth power on all three elements, dense mix.
pub open spec fn full_round(m: Mat3, c: Triple, s: Triple) -> Triple {
    let a = add_constants(s, c);
    mix_dense(m, Triple { x0: field_pow5(a.x0), x1: field_pow5(a.x1), x2: field_pow5(a.x2) })
}

/// A textbook partial round: all three constants, fifth power on the first
/// element only, dense mix.
pub open spec fn partial_round(m: Mat3, c: Triple, s: Triple) -> Triple {
    let a = add_constants(s, c);
    mix_dense(m, Triple { x0: field_pow5(a.x0), x1: a.x1, x2: a.x2 })
}

/// A fused partial round: one constant on the first element, fifth power on
/// it, sparse mix.
pub open spec fn fused_round(m: Mat3, c0: nat, s: Triple) -> Triple {
    mix_sparse(m, Triple { x0: field_pow5(field_add(s.x0, c0)), x1: s.x1, x2: s.x2 })
}

/// Whether round `r` of the schedule is a full round.
pub open spec fn is_full_round(r: int) -> bool {
    0 <= r < 4 || 60 <= r < 64
}

/// The state after the first `n` rounds of the textbook schedule.
pub open spec fn permute_rounds(m: Mat3, rc: Seq<Triple>, s: Triple, n: nat) -> Triple
    decreases n,
{
    if n == 0 {
        s
    } else {
        let before = permute_rounds(m, rc, s, (n - 1) as nat);
        if is_full_round(n - 1) {
            full_round(m, rc[n - 1], before)
        } else {
            partial_round(m, rc[n - 1], before)
        }
    }
}

/// The whole permutation: 64 rounds.
pub open spec fn permute(m: Mat3, rc: Seq<Triple>, s: Triple) -> Triple {
    permute_rounds(m, rc, s, 64)
}

/// With a unit block in rows 1 and 2, sparse and dense mixing agree.
pub proof fn law_sparse_is_dense(m: Mat3, v: Triple)
    requires
        has_unit_block(m),
        triple_in_field(v),
    ensures
        mix_sparse(m, v) == mix_dense(m, v),
{
    let p = pallas_modulus();
    assert(field_mul(1, v.x1) == v.x1) by {
        assert(1 * v.x1 == v.x1);
        vstd::arithmetic::div_mod::lemma_small_mod(v.x1, p);
    }
    assert(field_mul(1, v.x2) == v.x2) by {
        assert(1 * v.x2 == v.x2);
        vstd::arithmetic::div_mod::lemma_small_mod(v.x2, p);
    }
    assert(field_mul(0, v.x1) == 0) by {
        assert(0 * v.x1 == 0);
    }
    assert(field_mul(0, v.x2) == 0) by {
        assert(0 * v.x2 == 0);
    }
    let a1 = field_add(field_mul(m.m10, v.x0), v.x1);
    let a2 = field_mul(m.m20, v.x0);
    assert(field_add(a1, 0) == a1) by {
        vstd::arithmetic::div_mod::lemma_small_mod(a1, p);
    }
    assert(field_add(a2, 0) == a2) by {
        vstd::arithmetic::div_mod::lemma_small_mod(a2, p);
    }
}

/// The tag that the round constants are derived under.
pub const ROUND_CONSTANT_TAG: [u8; 16] = [
    0x70, 0x6f, 0x73, 0x65, 0x69, 0x64, 0x6f, 0x6e,
    0x2d, 0x70, 0x61, 0x6c, 0x6c, 0x61, 0x73, 0x2d,
];

/// What is hashed for constant `index` of round `round`.
pub open spec fn round_constant_label(round: nat, index: nat) -> Seq<u8> {
    ROUND_CONSTANT_TAG@.push(round as u8).push(index as u8)
}

/// The first 32 bytes of a digest with the two top bits of the last one
/// cleared, which brings the string below `2^254` and so into the field.
pub open spec fn clear_top_bits(d: Seq<u8>) -> Seq<u8> {
    Seq::new(
        32,
        |i: int|
            if i == 31 {
                (d[31] % 64) as u8
            } else {
                d[i]
            },
    )
}

/// The encoding of constant `index` of round `round`: the digest of its
/// label with the two top bits cleared.
pub open spec fn round_constant_bytes(round: nat, index: nat) -> Seq<u8> {
    clear_top_bits(sha256_digest(round_constant_label(round, index)))
}

/// The value of constant `index` of round `round`.
pub open spec fn round_constant(round: nat, index: nat) -> nat {
    le_value(round_constant_bytes(round, index))
}

/// The constants of round `round`.
pub open spec fn round_constants(round: nat) -> Triple {
    Triple {
        x0: round_constant(round, 0),
        x1: round_constant(round, 1),
        x2: round_constant(round, 2),
    }
}

/// The textbook schedule: one triple per round.
pub open spec fn standard_schedule() -> Seq<Triple> {
    Seq::new(64, |r: int| round_constants(r as nat))
}

/// The mixing matrix as field values.
pub open spec fn standard_mds() -> Mat3 {
    Mat3 { m00: 3, m01: 1, m02: 1, m10: 1, m11: 1, m12: 0, m20: 1, m21: 0, m22: 1 }
}

/// A 32-byte string whose last byte is below 64 is canonical.
pub proof fn lemma_cleared_is_canonical(d: Seq<u8>)
    requires
        d.len() == 32,
        d[31] < 64,
    ensures
        is_canonical(d),
{
    lemma_le_value_32(d);
}

/// Every round constant is a canonical encoding.
pub proof fn lemma_round_constant_canonical(round: nat, index: nat)
    ensures
        is_canonical(round_constant_bytes(round, index)),
        round_constant(round, index) < pallas_modulus(),
{
    lemma_cleared_is_canonical(round_constant_bytes(round, index));
}

/// Constant `index` of round `round`.
pub fn get_round_constant(round: usize, index: usize) -> (c: Fp)
    requires
        round < 64,
        index < 3,
    ensures
        c.bytes()@ == round_constant_bytes(round as nat, index as nat),
        c.value() == round_constant(round as nat, index as nat),
{
    let mut label: Vec<u8> = Vec::new();
    label.extend_from_slice(ROUND_CONSTANT_TAG.as_slice());
    label.push(round as u8);
    label.push(index as u8);
    assert(label@ =~= round_constant_label(round as nat, index as nat));
    let mut digest: [u8; 32] = sha256(label.as_slice());
    let top: u8 = digest[31] % 64;
    digest[31] = top;
    proof {
        assert(digest@ =~= round_constant_bytes(round as nat, index as nat));
        lemma_cleared_is_canonical(digest@);
    }
    Fp::from_canonical(digest)
}

/// The state that three elements stand for.
pub open spec fn triple_of(s: [Fp; 3]) -> Triple {
    Triple { x0: s[0].value(), x1: s[1].value(), x2: s[2].value() }
}

/// The matrix that nine elements stand for.
pub open spec fn mat_of(m: [[Fp; 3]; 3]) -> Mat3 {
    Mat3 {
        m00: m[0][0].value(),
        m01: m[0][1].value(),
        m02: m[0][2].value(),
        m10: m[1][0].value(),
        m11: m[1][1].value(),
        m12: m[1][2].value(),
        m20: m[2][0].value(),
        m21: m[2][1].value(),
        m22: m[2][2].value(),
    }
}

/// The mixing matrix as field elements.
pub fn get_mds_fp() -> (m: [[Fp; 3]; 3])
    ensures
        mat_of(m) == standard_mds(),
{
    let r0: [Fp; 3] = [
        Fp::from_u64(MDS_MATRIX[0][0]),
        Fp::from_u64(MDS_MATRIX[0][1]),
        Fp::from_u64(MDS_MATRIX[0][2]),
    ];
    let r1: [Fp; 3] = [
        Fp::from_u64(MDS_MATRIX[1][0]),
        Fp::from_u64(MDS_MATRIX[1][1]),
        Fp::from_u64(MDS_MATRIX[1][2]),
    ];
    let r2: [Fp; 3] = [
        Fp::from_u64(MDS_MATRIX[2][0]),
        Fp::from_u64(MDS_MATRIX[2][1]),
        Fp::from_u64(MDS_MATRIX[2][2]),
    ];
    [r0, r1, r2]
}

fn dot_row(row: &[Fp; 3], v: &[Fp; 3]) -> (r: Fp)
    ensures
        r.value() == dot3(
            row[0].value(),
            row[1].value(),
            row[2].value(),
            v[0].value(),
            v[1].value(),
            v[2].value(),
        ),
{
    let t0 = row[0].mul(&v[0]);
    let t1 = row[1].mul(&v[1]);
    let t2 = row[2].mul(&v[2]);
    t0.add(&t1).add(&t2)
}

/// The dense matrix-vector product.
pub fn mds_multiply(m: &[[Fp; 3]; 3], v: &[Fp; 3]) -> (r: [Fp; 3])
    ensures
        triple_of(r) == mix_dense(mat_of(*m), triple_of(*v)),
{
    [dot_row(&m[0], v), dot_row(&m[1], v), dot_row(&m[2], v)]
}

/// The sparse matrix-vector product: five multiplications.
pub fn mds_multiply_sparse(m: &[[Fp; 3]; 3], v: &[Fp; 3]) -> (r: [Fp; 3])
    ensures
        triple_of(r) == mix_sparse(mat_of(*m), triple_of(*v)),
{
    [
        dot_row(&m[0], v),
        m[1][0].mul(&v[0]).add(&v[1]),
        m[2][0].mul(&v[0]).add(&v[2]),
    ]
}

/// One full round with the constants `c`.
pub fn apply_full_round(m: &[[Fp; 3]; 3], c: &[Fp; 3], state: &[Fp; 3]) -> (r: [Fp; 3])
    ensures
        triple_of(r) == full_round(mat_of(*m), triple_of(*c), triple_of(*state)),
{
    let a0 = state[0].add(&c[0]);
    let a1 = state[1].add(&c[1]);
    let a2 = state[2].add(&c[2]);
    mds_multiply(m, &[a0.pow5(), a1.pow5(), a2.pow5()])
}

/// One fused partial round with the constant `c0`.
pub fn apply_fused_round(m: &[[Fp; 3]; 3], c0: &Fp, state: &[Fp; 3]) -> (r: [Fp; 3])
    ensures
        triple_of(r) == fused_round(mat_of(*m), c0.value(), triple_of(*state)),
{
    let x = state[0].add(c0).pow5();
    mds_multiply_sparse(m, &[x, state[1], state[2]])
}

/// One textbook partial round with the constants `c`.
pub fn apply_partial_round(m: &[[Fp; 3]; 3], c: &[Fp; 3], state: &[Fp; 3]) -> (r: [Fp; 3])
    ensures
        triple_of(r) == partial_round(mat_of(*m), triple_of(*c), triple_of(*state)),
{
    let a0 = state[0].add(&c[0]);
    let a1 = state[1].add(&c[1]);
    let a2 = state[2].add(&c[2]);
    mds_multiply(m, &[a0.pow5(), a1, a2])
}

/// The constants of a schedule as values, by round.
pub open spec fn schedule_values(schedule: Seq<[Fp; 3]>) -> Seq<Triple> {
    Seq::new(schedule.len(), |r: int| triple_of(schedule[r]))
}

/// The permutation with the textbook rounds on a given matrix and
/// schedule of 64 triples.
pub fn permute_schedule(m: &[[Fp; 3]; 3], schedule: &[[Fp; 3]], state: [Fp; 3]) -> (r: [Fp; 3])
    requires
        schedule@.len() == 64,
    ensures
        triple_of(r) == permute(mat_of(*m), schedule_values(schedule@), triple_of(state)),
{
    let mut s: [Fp; 3] = state;
    let mut round: usize = 0;
    while round < TOTAL_ROUNDS
        invariant
            0 <= round <= 64,
            schedule@.len() == 64,
            triple_of(s) == permute_rounds(
                mat_of(*m),
                schedule_values(schedule@),
                triple_of(state),
                round as nat,
            ),
        decreases 64 - round,
    {
        if round < FIRST_PARTIAL || round >= FIRST_FINAL {
            s = apply_full_round(m, &schedule[round], &s);
        } else {
            s = apply_partial_round(m, &schedule[round], &s);
        }
        round += 1;
    }
    s
}

/// The standard schedule as elements.
pub fn get_schedule() -> (schedule: Vec<[Fp; 3]>)
    ensures
        schedule@.len() == 64,
        schedule_values(schedule@) == standard_schedule(),
{
    let mut schedule: Vec<[Fp; 3]> = Vec::new();
    let mut round: usize = 0;
    while round < TOTAL_ROUNDS
        invariant
            0 <= round <= 64,
            schedule@.len() == round,
            forall|r: int|
                0 <= r < round ==> triple_of(#[trigger] schedule@[r]) == round_constants(
                    r as nat,
                ),
        decreases 64 - round,
    {
        schedule.push(
            [
                get_round_constant(round, 0),
                get_round_constant(round, 1),
                get_round_constant(round, 2),
            ],
        );
        round += 1;
    }
    assert(schedule_values(schedule@) =~= standard_schedule());
    schedule
}

/// One round of the textbook schedule on `state`.
pub fn apply_round(m: &[[Fp; 3]; 3], round: usize, state: &[Fp; 3]) -> (r: [Fp; 3])
    requires
        round < 64,
    ensures
        triple_of(r) == if is_full_round(round as int) {
            full_round(mat_of(*m), round_constants(round as nat), triple_of(*state))
        } else {
            partial_round(mat_of(*m), round_constants(round as nat), triple_of(*state))
        },
{
    let a0 = state[0].add(&get_round_constant(round, 0));
    let a1 = state[1].add(&get_round_constant(round, 1));
    let a2 = state[2].add(&get_round_constant(round, 2));
    let full: bool = round < FIRST_PARTIAL || round >= FIRST_FINAL;
    let v: [Fp; 3] = if full {
        [a0.pow5(), a1.pow5(), a2.pow5()]
    } else {
        [a0.pow5(), a1, a2]
    };
    mds_multiply(m, &v)
}

/// The textbook permutation on the standard schedule: the reference that
/// fusion is held against. Stored programs and the hash run the permutation
/// on the fused set instead.
pub fn poseidon_permute(state: [Fp; 3]) -> (r: [Fp; 3])
    ensures
        triple_of(r) == permute(standard_mds(), standard_schedule(), triple_of(state)),
{
    let m = get_mds_fp();
    let mut s: [Fp; 3] = state;
    let mut round: usize = 0;
    while round < TOTAL_ROUNDS
        invariant
            0 <= round <= 64,
            mat_of(m) == standard_mds(),
            triple_of(s) == permute_rounds(
                standard_mds(),
                standard_schedule(),
                triple_of(state),
                round as nat,
            ),
        decreases 64 - round,
    {
        s = apply_round(&m, round, &s);
        round += 1;
    }
    s
}

/// The two-input hash: the first element of the state `(a, b, 0)` after
/// the permutation as it is compiled.
pub open spec fn hash2(a: nat, b: nat) -> nat {
    standard_permutation(Triple { x0: a, x1: b, x2: 0 }).x0
}

/// The three-input hash: the first element of the state `(a, b, c)` after
/// the permutation as it is compiled.
pub open spec fn hash3(a: nat, b: nat, c: nat) -> nat {
    standard_permutation(Triple { x0: a, x1: b, x2: c }).x0
}

/// Absorbs `elems` one after the other into the running value `seed`.
pub open spec fn absorb_all(seed: nat, elems: Seq<nat>) -> nat
    decreases elems.len(),
{
    if elems.len() == 0 {
        seed
    } else {
        hash2(absorb_all(seed, elems.drop_last()), elems.last())
    }
}

/// The hash of a list: the first input seeds the running value and the
/// others are absorbed in order. The empty list hashes to zero.
pub open spec fn hash_list(inputs: Seq<nat>) -> nat {
    if inputs.len() == 0 {
        0
    } else {
        absorb_all(inputs[0], inputs.skip(1))
    }
}

/// The values of a list of elements.
pub open spec fn values_of(v: Seq<Fp>) -> Seq<nat> {
    Seq::new(v.len(), |i: int| v[i].value())
}

/// The hash built on the permutation as it is compiled.
pub struct PoseidonHash;

impl PoseidonHash {
    /// The two-input hash on a standard constant set that is at hand.
    fn hash_on(constants: &FusedPoseidonConstants, a: Fp, b: Fp) -> (r: Fp)
        requires
            constants.is_standard(),
        ensures
            r.value() == hash2(a.value(), b.value()),
    {
        let out = constants.permute([a, b, Fp::zero()]);
        out[0]
    }

    pub fn hash(a: Fp, b: Fp) -> (r: Fp)
        ensures
            r.value() == hash2(a.value(), b.value()),
    {
        PoseidonHash::hash_on(&FusedPoseidonConstants::compute(), a, b)
    }

    pub fn hash_3(a: Fp, b: Fp, c: Fp) -> (r: Fp)
        ensures
            r.value() == hash3(a.value(), b.value(), c.value()),
    {
        let out = FusedPoseidonConstants::compute().permute([a, b, c]);
        out[0]
    }

    pub fn hash_many(inputs: &[Fp]) -> (r: Fp)
        ensures
            r.value() == hash_list(values_of(inputs@)),
    {
        if inputs.len() == 0 {
            return Fp::zero();
        }
        let constants = FusedPoseidonConstants::compute();
        let mut state: Fp = inputs[0];
        let mut i: usize = 1;
        while i < inputs.len()
            invariant
                1 <= i <= inputs.len(),
                constants.is_standard(),
                state.value() == absorb_all(
                    values_of(inputs@)[0],
                    values_of(inputs@).skip(1).take(i - 1),
                ),
            decreases inputs.len() - i,
        {
            proof {
                let tail = values_of(inputs@).skip(1);
                assert(tail.take(i as int).drop_last() =~= tail.take(i - 1));
                assert(tail.take(i as int).last() == inputs@[i as int].value());
            }
            state = PoseidonHash::hash_on(&constants, state, inputs[i]);
            i += 1;
        }
        proof {
            let tail = values_of(inputs@).skip(1);
            assert(tail.take(inputs.len() - 1) =~= tail);
        }
        state
    }
}

} // verus!
