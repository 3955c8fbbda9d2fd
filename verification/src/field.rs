//! The Pallas base field: its modulus, the canonical 32-byte encoding and
//! the arithmetic on encoded elements.

use vstd::prelude::*;
use vstd::std_specs::cmp::PartialEqSpecImpl;

verus! {

/// Width in bytes of one encoded field element.
pub const FIELD_BYTES: usize = 32;

/// The modulus `p`, little-endian.
pub const PALLAS_MODULUS_BYTES: [u8; 32] = [
    0x01, 0x00, 0x00, 0x00, 0xed, 0x30, 0x2d, 0x99,
    0x1b, 0xf9, 0x4c, 0x09, 0xfc, 0x98, 0x46, 0x22,
    0x00, 0x00, 0x00, 0x00, 0x00, 0x00, 0x00, 0x00,
    0x00, 0x00, 0x00, 0x00, 0x00, 0x00, 0x00, 0x40,
];

/// `p = 0x40000000000000000000000000000000224698fc094cf91b992d30ed00000001`.
pub open spec fn pallas_modulus() -> nat {
    0x4000_0000_0000_0000_0000_0000_0000_0000nat * 0x1_0000_0000_0000_0000nat
        * 0x1_0000_0000_0000_0000nat + 0x2246_98fc_094c_f91b_992d_30ed_0000_0001nat
}

/// `2^255`: every canonical element is below it, so the top bit of its last
/// byte is clear.
pub open spec fn two_255() -> nat {
    0x8000_0000_0000_0000_0000_0000_0000_0000nat * 0x1_0000_0000_0000_0000nat
        * 0x1_0000_0000_0000_0000nat
}

/// The number that a byte string spells, least significant byte first.
pub open spec fn le_value(s: Seq<u8>) -> nat
    decreases s.len(),
{
    if s.len() == 0 {
        0
    } else {
        s[0] as nat + 256 * le_value(s.skip(1))
    }
}

/// A byte string encodes a field element when it has 32 bytes and spells a
/// number below the modulus.
pub open spec fn is_canonical(s: Seq<u8>) -> bool {
    s.len() == 32 && le_value(s) < pallas_modulus()
}

/// The sum in the field.
pub open spec fn field_add(a: nat, b: nat) -> nat {
    (a + b) % pallas_modulus()
}

/// The product in the field.
pub open spec fn field_mul(a: nat, b: nat) -> nat {
    (a * b) % pallas_modulus()
}

/// `x^5` in the field.
pub open spec fn field_pow5(x: nat) -> nat {
    let x2 = field_mul(x, x);
    let x4 = field_mul(x2, x2);
    field_mul(x4, x)
}

/// Digit `i` of `v` in base 256.
pub open spec fn digit(v: nat, i: nat) -> nat
    decreases i,
{
    if i == 0 {
        v % 256
    } else {
        digit(v / 256, (i - 1) as nat)
    }
}

/// The 32-byte encoding of a number: its base-256 digits, least significant
/// first.
pub open spec fn canonical_repr(v: nat) -> Seq<u8> {
    Seq::new(32, |i: int| digit(v, i as nat) as u8)
}

/// The 32-byte encoding of a 64-bit number.
pub open spec fn u64_repr(v: u64) -> Seq<u8> {
    canonical_repr(v as nat)
}

/// The first `n` digits of `v`.
spec fn digits(v: nat, n: nat) -> Seq<u8> {
    Seq::new(n, |i: int| digit(v, i as nat) as u8)
}

proof fn lemma_digits_of_value(s: Seq<u8>)
    ensures
        digits(le_value(s), s.len()) == s,
    decreases s.len(),
{
    if s.len() == 0 {
        assert(digits(le_value(s), 0) =~= s);
    } else {
        let v = le_value(s);
        let rest = le_value(s.skip(1));
        assert(v == s[0] as nat + 256 * rest);
        assert(v % 256 == s[0] as nat && v / 256 == rest) by {
            vstd::arithmetic::div_mod::lemma_fundamental_div_mod_converse(
                v as int,
                256,
                rest as int,
                s[0] as int,
            );
        }
        lemma_digits_of_value(s.skip(1));
        assert forall|i: int| 0 <= i < s.len() implies digits(v, s.len())[i] == s[i] by {
            if i > 0 {
                lemma_digit_shift(v, (i - 1) as nat);
                assert(digits(rest, (s.len() - 1) as nat)[i - 1] == s.skip(1)[i - 1]);
            }
        }
        assert(digits(v, s.len()) =~= s);
    }
}

/// `256^32`, the number of 32-byte strings.
pub open spec fn two_256() -> nat {
    0x1_0000_0000_0000_0000nat * 0x1_0000_0000_0000_0000nat * 0x1_0000_0000_0000_0000nat
        * 0x1_0000_0000_0000_0000nat
}

spec fn pow256(n: nat) -> nat
    decreases n,
{
    if n == 0 {
        1
    } else {
        256 * pow256((n - 1) as nat)
    }
}

proof fn lemma_value_of_digits(v: nat, n: nat)
    ensures
        le_value(digits(v, n)) == v % pow256(n),
        pow256(n) > 0,
    decreases n,
{
    if n == 0 {
    } else {
        let s = digits(v, n);
        let m = pow256((n - 1) as nat);
        lemma_value_of_digits(v / 256, (n - 1) as nat);
        assert forall|i: int| 0 <= i < n - 1 implies s.skip(1)[i] == digits(
            v / 256,
            (n - 1) as nat,
        )[i] by {
            lemma_digit_shift(v, i as nat);
        }
        assert(s.skip(1) =~= digits(v / 256, (n - 1) as nat));
        assert(s[0] == (v % 256) as u8);
        vstd::arithmetic::div_mod::lemma_mod_breakdown(v as int, 256, m as int);
    }
}

proof fn lemma_pow256_32()
    ensures
        pow256(32) == two_256(),
{
    assert(pow256(8) == 0x1_0000_0000_0000_0000nat) by {
        reveal_with_fuel(pow256, 9);
    }
    assert(pow256(16) == 0x1_0000_0000_0000_0000nat * pow256(8)) by {
        reveal_with_fuel(pow256, 9);
    }
    assert(pow256(24) == 0x1_0000_0000_0000_0000nat * pow256(16)) by {
        reveal_with_fuel(pow256, 9);
    }
    assert(pow256(32) == 0x1_0000_0000_0000_0000nat * pow256(24)) by {
        reveal_with_fuel(pow256, 9);
    }
}

/// The encoding of a number below `256^32` spells that number.
pub proof fn lemma_value_of_repr(v: nat)
    requires
        v < two_256(),
    ensures
        le_value(canonical_repr(v)) == v,
        canonical_repr(v).len() == 32,
{
    lemma_value_of_digits(v, 32);
    lemma_pow256_32();
    assert(canonical_repr(v) =~= digits(v, 32));
    vstd::arithmetic::div_mod::lemma_small_mod(v, two_256());
}

/// What decoding yields: the number that a canonical string spells, and
/// nothing for any other string.
pub open spec fn decode_spec(bytes: Seq<u8>) -> Option<nat> {
    if is_canonical(bytes) {
        Some(le_value(bytes))
    } else {
        None
    }
}

/// Decoding inverts encoding on the field, rejects every 32-byte string
/// that spells the modulus or more, and encoding is injective.
pub proof fn law_codec_round_trip(x: nat, y: nat, bytes: Seq<u8>)
    ensures
        x < pallas_modulus() ==> decode_spec(canonical_repr(x)) == Some(x),
        bytes.len() == 32 && le_value(bytes) >= pallas_modulus() ==> decode_spec(bytes) is None,
        x < pallas_modulus() && y < pallas_modulus() && canonical_repr(x) == canonical_repr(y)
            ==> x == y,
        decode_spec(bytes) is Some ==> canonical_repr(decode_spec(bytes).unwrap()) == bytes,
{
    if x < pallas_modulus() {
        lemma_value_of_repr(x);
    }
    if y < pallas_modulus() {
        lemma_value_of_repr(y);
    }
    if bytes.len() == 32 {
        lemma_repr_of_value(bytes);
    }
}

/// A 32-byte string is the encoding of the number it spells.
pub proof fn lemma_repr_of_value(s: Seq<u8>)
    requires
        s.len() == 32,
    ensures
        canonical_repr(le_value(s)) == s,
{
    lemma_digits_of_value(s);
    assert(canonical_repr(le_value(s)) =~= digits(le_value(s), 32));
}

proof fn lemma_digit_zero(i: nat)
    ensures
        digit(0, i) == 0,
    decreases i,
{
    if i > 0 {
        lemma_digit_zero((i - 1) as nat);
    }
}

proof fn lemma_digit_shift(v: nat, i: nat)
    ensures
        digit(v, i + 1) == digit(v / 256, i),
        digit(v, i) < 256,
    decreases i,
{
    if i > 0 {
        lemma_digit_shift(v / 256, (i - 1) as nat);
    }
}

/// The first eight digits of a 64-bit number, by repeated division.
proof fn lemma_u64_digits(v: u64)
    ensures
        digit(v as nat, 0) == v % 256,
        digit(v as nat, 1) == (v / 256) % 256,
        digit(v as nat, 2) == (v / 256 / 256) % 256,
        digit(v as nat, 3) == (v / 256 / 256 / 256) % 256,
        digit(v as nat, 4) == (v / 256 / 256 / 256 / 256) % 256,
        digit(v as nat, 5) == (v / 256 / 256 / 256 / 256 / 256) % 256,
        digit(v as nat, 6) == (v / 256 / 256 / 256 / 256 / 256 / 256) % 256,
        digit(v as nat, 7) == (v / 256 / 256 / 256 / 256 / 256 / 256 / 256) % 256,
        forall|i: nat| i >= 8 ==> digit(v as nat, i) == 0,
{
    reveal_with_fuel(digit, 9);
    let q8 = (v / 256 / 256 / 256 / 256 / 256 / 256 / 256 / 256) as nat;
    assert(q8 == 0);
    assert forall|i: nat| i >= 8 implies digit(v as nat, i) == 0 by {
        lemma_digit_tail(v as nat, 8, (i - 8) as nat);
        lemma_digit_zero((i - 8) as nat);
    }
}

spec fn shifted(v: nat, k: nat) -> nat
    decreases k,
{
    if k == 0 {
        v
    } else {
        shifted(v / 256, (k - 1) as nat)
    }
}

proof fn lemma_digit_tail(v: nat, k: nat, i: nat)
    ensures
        digit(v, k + i) == digit(shifted(v, k), i),
    decreases k,
{
    if k > 0 {
        lemma_digit_shift(v, (k - 1 + i) as nat);
        lemma_digit_tail(v / 256, (k - 1) as nat, i);
    }
}

/// The encoding of a 64-bit number spells that number, and is canonical.
pub proof fn lemma_u64_repr(v: u64)
    ensures
        le_value(u64_repr(v)) == v,
        is_canonical(u64_repr(v)),
        u64_repr(v)[31] == 0,
{
    let s = u64_repr(v);
    lemma_u64_digits(v);
    lemma_le_value_32(s);
    assert(forall|i: int| 8 <= i < 32 ==> s[i] == 0);
    let q1 = v / 256;
    let q2 = q1 / 256;
    let q3 = q2 / 256;
    let q4 = q3 / 256;
    let q5 = q4 / 256;
    let q6 = q5 / 256;
    let q7 = q6 / 256;
    assert(s[0] == v % 256);
    assert(s[1] == q1 % 256);
    assert(s[2] == q2 % 256);
    assert(s[3] == q3 % 256);
    assert(s[4] == q4 % 256);
    assert(s[5] == q5 % 256);
    assert(s[6] == q6 % 256);
    assert(s[7] == q7 % 256);
    assert(q7 < 256);
}

/// Byte strings of one length that spell the same number are equal.
pub proof fn lemma_le_value_injective(a: Seq<u8>, b: Seq<u8>)
    requires
        a.len() == b.len(),
        le_value(a) == le_value(b),
    ensures
        a == b,
    decreases a.len(),
{
    if a.len() == 0 {
        assert(a =~= b);
    } else {
        let ra = le_value(a.skip(1));
        let rb = le_value(b.skip(1));
        assert(a[0] as nat + 256 * ra == b[0] as nat + 256 * rb);
        assert(a[0] == b[0] && ra == rb) by {
            if ra < rb {
                assert(256 * ra + 256 <= 256 * rb);
            } else if rb < ra {
                assert(256 * rb + 256 <= 256 * ra);
            }
        }
        lemma_le_value_injective(a.skip(1), b.skip(1));
        assert(a =~= seq![a[0]] + a.skip(1));
        assert(b =~= seq![b[0]] + b.skip(1));
    }
}

/// The value of a 32-byte string written out byte by byte.
pub proof fn lemma_le_value_32(s: Seq<u8>)
    requires
        s.len() == 32,
    ensures
        le_value(s) == s[0] as nat + 256 * (s[1] as nat + 256 * (s[2] as nat + 256 * (s[3] as nat
            + 256 * (s[4] as nat + 256 * (s[5] as nat + 256 * (s[6] as nat + 256 * (s[7] as nat
            + 256 * (s[8] as nat + 256 * (s[9] as nat + 256 * (s[10] as nat + 256 * (s[11] as nat
            + 256 * (s[12] as nat + 256 * (s[13] as nat + 256 * (s[14] as nat + 256 * (
        s[15] as nat + 256 * (s[16] as nat + 256 * (s[17] as nat + 256 * (s[18] as nat + 256 * (
        s[19] as nat + 256 * (s[20] as nat + 256 * (s[21] as nat + 256 * (s[22] as nat + 256 * (
        s[23] as nat + 256 * (s[24] as nat + 256 * (s[25] as nat + 256 * (s[26] as nat + 256 * (
        s[27] as nat + 256 * (s[28] as nat + 256 * (s[29] as nat + 256 * (s[30] as nat + 256 * (
        s[31] as nat))))))))))))))))))))))))))))))),
{
    lemma_le_value_tail(s, 0);
    lemma_le_value_tail(s, 8);
    lemma_le_value_tail(s, 16);
    lemma_le_value_tail(s, 24);
    assert(s.skip(0) =~= s);
    assert(s.skip(32).len() == 0);
    assert(le_value(s.skip(32)) == 0);
}

/// Eight bytes of a string from position `k`, and the value of what follows.
proof fn lemma_le_value_tail(s: Seq<u8>, k: int)
    requires
        0 <= k,
        k + 8 <= s.len(),
    ensures
        le_value(s.skip(k)) == s[k] as nat + 256 * (s[k + 1] as nat + 256 * (s[k + 2] as nat + 256
            * (s[k + 3] as nat + 256 * (s[k + 4] as nat + 256 * (s[k + 5] as nat + 256 * (s[k
            + 6] as nat + 256 * (s[k + 7] as nat + 256 * le_value(s.skip(k + 8))))))))),
{
    lemma_le_value_step(s, k);
    lemma_le_value_step(s, k + 1);
    lemma_le_value_step(s, k + 2);
    lemma_le_value_step(s, k + 3);
    lemma_le_value_step(s, k + 4);
    lemma_le_value_step(s, k + 5);
    lemma_le_value_step(s, k + 6);
    lemma_le_value_step(s, k + 7);
}

proof fn lemma_le_value_step(s: Seq<u8>, k: int)
    requires
        0 <= k < s.len(),
    ensures
        le_value(s.skip(k)) == s[k] as nat + 256 * le_value(s.skip(k + 1)),
{
    assert(s.skip(k).skip(1) =~= s.skip(k + 1));
}

/// The modulus constant spells the modulus.
pub proof fn lemma_modulus_bytes()
    ensures
        le_value(PALLAS_MODULUS_BYTES@) == pallas_modulus(),
        is_canonical(PALLAS_MODULUS_BYTES@) == false,
        PALLAS_MODULUS_BYTES@.len() == 32,
{
    lemma_le_value_32(PALLAS_MODULUS_BYTES@);
}

/// The last byte of a 32-byte string that spells a number below `2^255`
/// has its top bit clear.
pub proof fn lemma_top_bit_clear(s: Seq<u8>)
    requires
        s.len() == 32,
        le_value(s) < two_255(),
    ensures
        s[31] < 0x80,
{
    lemma_le_value_32(s);
}

/// The modulus is positive and below `2^255`.
pub proof fn lemma_modulus_below_two_255()
    ensures
        0 < pallas_modulus() < two_255(),
{
}

/// The outcome of decoding a 32-byte string with the field
/// implementation and encoding the element again.
///
/// Wraps `ff::PrimeField::from_repr` and `ff::PrimeField::to_repr` of
/// `pasta_curves::Fp`: the string decodes exactly when the number it spells
/// is below the modulus, and a decoded element encodes to the same string.
#[verifier::external_body]
fn decode_repr(bytes: &[u8; 32]) -> (result: Option<[u8; 32]>)
    ensures
        result is Some <==> le_value(bytes@) < pallas_modulus(),
        result is Some ==> result.unwrap() == *bytes,
{
    let decoded: Option<pasta_curves::Fp> = ff::PrimeField::from_repr(*bytes).into();
    match decoded {
        Some(element) => Some(ff::PrimeField::to_repr(&element)),
        None => None,
    }
}

/// The sum of two encoded elements.
///
/// Wraps the `+` of `pasta_curves::Fp`: addition modulo `p`, taken from and
/// given back in canonical encoding.
#[verifier::external_body]
fn repr_add(a: &[u8; 32], b: &[u8; 32]) -> (result: [u8; 32])
    requires
        le_value(a@) < pallas_modulus(),
        le_value(b@) < pallas_modulus(),
    ensures
        le_value(result@) == field_add(le_value(a@), le_value(b@)),
{
    let x: pasta_curves::Fp = Option::from(ff::PrimeField::from_repr(*a)).unwrap();
    let y: pasta_curves::Fp = Option::from(ff::PrimeField::from_repr(*b)).unwrap();
    ff::PrimeField::to_repr(&(x + y))
}

/// The product of two encoded elements.
///
/// Wraps the `*` of `pasta_curves::Fp`: multiplication modulo `p`, taken
/// from and given back in canonical encoding.
#[verifier::external_body]
fn repr_mul(a: &[u8; 32], b: &[u8; 32]) -> (result: [u8; 32])
    requires
        le_value(a@) < pallas_modulus(),
        le_value(b@) < pallas_modulus(),
    ensures
        le_value(result@) == field_mul(le_value(a@), le_value(b@)),
{
    let x: pasta_curves::Fp = Option::from(ff::PrimeField::from_repr(*a)).unwrap();
    let y: pasta_curves::Fp = Option::from(ff::PrimeField::from_repr(*b)).unwrap();
    ff::PrimeField::to_repr(&(x * y))
}

/// An element of the field, held in canonical encoding.
#[derive(Clone, Copy, Debug)]
pub struct Fp {
    repr: [u8; 32],
}

impl PartialEq for Fp {
    fn eq(&self, other: &Fp) -> (r: bool) {
        let mut i: usize = 0;
        while i < 32
            invariant
                0 <= i <= 32,
                forall|j: int| 0 <= j < i ==> self.repr[j] == other.repr[j],
            decreases 32 - i,
        {
            if self.repr[i] != other.repr[i] {
                return false;
            }
            i += 1;
        }
        assert(self.repr =~= other.repr);
        true
    }
}

impl Eq for Fp {

}

impl PartialEqSpecImpl for Fp {
    open spec fn obeys_eq_spec() -> bool {
        true
    }

    open spec fn eq_spec(&self, other: &Fp) -> bool {
        self.bytes() == other.bytes()
    }
}

impl Fp {
    #[verifier::type_invariant]
    spec fn inv(self) -> bool {
        le_value(self.repr@) < pallas_modulus()
    }

    /// The canonical encoding.
    pub closed spec fn bytes(self) -> [u8; 32] {
        self.repr
    }

    /// The number in `[0, p)` that the element stands for.
    pub open spec fn value(self) -> nat {
        le_value(self.bytes()@)
    }

    /// Two elements have the same bytes exactly when they have the same
    /// value.
    pub proof fn lemma_eq_by_value(self, other: Fp)
        ensures
            (self.bytes() == other.bytes()) <==> (self.value() == other.value()),
    {
        if self.value() == other.value() {
            lemma_le_value_injective(self.bytes()@, other.bytes()@);
            assert(self.bytes() =~= other.bytes());
        }
    }

    /// The zero of the field.
    pub fn zero() -> (r: Fp)
        ensures
            r.value() == 0,
    {
        Fp::from_u64(0)
    }

    /// The one of the field.
    pub fn one() -> (r: Fp)
        ensures
            r.value() == 1,
    {
        Fp::from_u64(1)
    }

    /// The element that a 64-bit number stands for.
    pub fn from_u64(v: u64) -> (r: Fp)
        ensures
            r.value() == v,
            r.bytes()@ == u64_repr(v),
    {
        let q1: u64 = v / 256;
        let q2: u64 = q1 / 256;
        let q3: u64 = q2 / 256;
        let q4: u64 = q3 / 256;
        let q5: u64 = q4 / 256;
        let q6: u64 = q5 / 256;
        let q7: u64 = q6 / 256;
        let repr: [u8; 32] = [
            (v % 256) as u8,
            (q1 % 256) as u8,
            (q2 % 256) as u8,
            (q3 % 256) as u8,
            (q4 % 256) as u8,
            (q5 % 256) as u8,
            (q6 % 256) as u8,
            (q7 % 256) as u8,
            0, 0, 0, 0, 0, 0, 0, 0,
            0, 0, 0, 0, 0, 0, 0, 0,
            0, 0, 0, 0, 0, 0, 0, 0,
        ];
        proof {
            lemma_u64_digits(v);
            assert(repr@ =~= u64_repr(v));
            lemma_u64_repr(v);
        }
        Fp { repr }
    }

    /// The element with the given canonical encoding.
    pub(crate) fn from_canonical(repr: [u8; 32]) -> (r: Fp)
        requires
            is_canonical(repr@),
        ensures
            r.bytes() == repr,
    {
        Fp { repr }
    }

    /// Decodes a 32-byte string; `None` when it is not canonical.
    pub fn from_repr(bytes: &[u8; 32]) -> (r: Option<Fp>)
        ensures
            r is Some <==> is_canonical(bytes@),
            r is Some ==> r.unwrap().bytes() == *bytes,
            r is Some ==> decode_spec(bytes@) == Some(r.unwrap().value()),
            r is None ==> decode_spec(bytes@) is None,
    {
        match decode_repr(bytes) {
            Some(repr) => Some(Fp { repr }),
            None => None,
        }
    }

    /// The canonical encoding of the element.
    pub fn to_repr(&self) -> (r: [u8; 32])
        ensures
            r == self.bytes(),
            r@ == canonical_repr(self.value()),
            is_canonical(r@),
    {
        proof {
            use_type_invariant(self);
            lemma_repr_of_value(self.repr@);
        }
        self.repr
    }

    /// The canonical encoding of the element.
    pub fn to_bytes(&self) -> (r: [u8; 32])
        ensures
            r == self.bytes(),
            r@ == canonical_repr(self.value()),
            is_canonical(r@),
    {
        self.to_repr()
    }

    /// The sum of two elements.
    pub fn add(&self, other: &Fp) -> (r: Fp)
        ensures
            r.value() == field_add(self.value(), other.value()),
    {
        proof {
            use_type_invariant(self);
            use_type_invariant(other);
        }
        let repr = repr_add(&self.repr, &other.repr);
        Fp { repr }
    }

    /// The product of two elements.
    pub fn mul(&self, other: &Fp) -> (r: Fp)
        ensures
            r.value() == field_mul(self.value(), other.value()),
    {
        proof {
            use_type_invariant(self);
            use_type_invariant(other);
        }
        let repr = repr_mul(&self.repr, &other.repr);
        Fp { repr }
    }

    /// The fifth power, by two squarings and one multiplication.
    pub fn pow5(&self) -> (r: Fp)
        ensures
            r.value() == field_pow5(self.value()),
    {
        let x2 = self.mul(self);
        let x4 = x2.mul(&x2);
        x4.mul(self)
    }
}

} // verus!
