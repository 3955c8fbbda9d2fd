//! Opcode bytes of the stack machine and the encoding of number pushes.

use vstd::prelude::*;

verus! {

pub const OP_0: u8 = 0x00;
pub const OP_FALSE: u8 = 0x00;
pub const OP_PUSHDATA1: u8 = 0x4c;
pub const OP_PUSHDATA2: u8 = 0x4d;
pub const OP_PUSHDATA4: u8 = 0x4e;
pub const OP_1NEGATE: u8 = 0x4f;
pub const OP_1: u8 = 0x51;
pub const OP_TRUE: u8 = 0x51;
pub const OP_2: u8 = 0x52;
pub const OP_3: u8 = 0x53;
pub const OP_4: u8 = 0x54;
pub const OP_5: u8 = 0x55;
pub const OP_6: u8 = 0x56;
pub const OP_7: u8 = 0x57;
pub const OP_8: u8 = 0x58;
pub const OP_9: u8 = 0x59;
pub const OP_10: u8 = 0x5a;
pub const OP_11: u8 = 0x5b;
pub const OP_12: u8 = 0x5c;
pub const OP_13: u8 = 0x5d;
pub const OP_14: u8 = 0x5e;
pub const OP_15: u8 = 0x5f;
pub const OP_16: u8 = 0x60;
pub const OP_VERIFY: u8 = 0x69;
pub const OP_RETURN: u8 = 0x6a;
pub const OP_TOALTSTACK: u8 = 0x6b;
pub const OP_FROMALTSTACK: u8 = 0x6c;
pub const OP_2DROP: u8 = 0x6d;
pub const OP_2DUP: u8 = 0x6e;
pub const OP_DEPTH: u8 = 0x74;
pub const OP_DROP: u8 = 0x75;
pub const OP_DUP: u8 = 0x76;
pub const OP_NIP: u8 = 0x77;
pub const OP_OVER: u8 = 0x78;
pub const OP_PICK: u8 = 0x79;
pub const OP_ROLL: u8 = 0x7a;
pub const OP_ROT: u8 = 0x7b;
pub const OP_SWAP: u8 = 0x7c;
pub const OP_TUCK: u8 = 0x7d;
pub const OP_CAT: u8 = 0x7e;
pub const OP_SPLIT: u8 = 0x7f;
pub const OP_SIZE: u8 = 0x82;
pub const OP_EQUAL: u8 = 0x87;
pub const OP_EQUALVERIFY: u8 = 0x88;
pub const OP_1SUB: u8 = 0x8c;
pub const OP_ADD: u8 = 0x93;
pub const OP_SUB: u8 = 0x94;
pub const OP_MUL: u8 = 0x95;
pub const OP_DIV: u8 = 0x96;
pub const OP_MOD: u8 = 0x97;
pub const OP_NUMEQUAL: u8 = 0x9c;
pub const OP_NUMEQUALVERIFY: u8 = 0x9d;
pub const OP_LESSTHAN: u8 = 0x9f;
pub const OP_GREATERTHAN: u8 = 0xa0;
pub const OP_RIPEMD160: u8 = 0xa6;
pub const OP_SHA256: u8 = 0xa8;
pub const OP_HASH160: u8 = 0xa9;
pub const OP_HASH256: u8 = 0xaa;
pub const OP_CHECKSIG: u8 = 0xac;
pub const OP_CHECKSIGVERIFY: u8 = 0xad;
pub const OP_CHECKMULTISIG: u8 = 0xae;
pub const OP_CHECKMULTISIGVERIFY: u8 = 0xaf;

/// The base-256 digits of `m`, least significant first, without trailing
/// zero digits. Zero has no digits.
pub open spec fn le_digits(m: nat) -> Seq<u8>
    decreases m,
{
    if m == 0 {
        Seq::<u8>::empty()
    } else {
        seq![(m % 256) as u8] + le_digits(m / 256)
    }
}

/// The minimal sign-magnitude encoding of a non-negative number: its
/// base-256 digits, followed by a zero byte when the top digit has its high
/// bit set (that bit is the sign).
pub open spec fn script_num_bytes(n: nat) -> Seq<u8> {
    let d = le_digits(n);
    if d.len() > 0 && d.last() >= 0x80 {
        d.push(0u8)
    } else {
        d
    }
}

/// The push of a data item: one length byte up to 75 bytes, then the
/// one-, two- and four-byte length prefixes (the last keeps the low four
/// bytes of the length).
pub open spec fn push_bytes_spec(data: Seq<u8>) -> Seq<u8> {
    let n = data.len();
    if n == 0 {
        seq![OP_0]
    } else if n <= 75 {
        seq![n as u8] + data
    } else if n <= 255 {
        seq![OP_PUSHDATA1, n as u8] + data
    } else if n <= 65535 {
        seq![OP_PUSHDATA2, (n % 256) as u8, (n / 256) as u8] + data
    } else {
        seq![
            OP_PUSHDATA4,
            (n % 256) as u8,
            ((n / 256) % 256) as u8,
            ((n / 65536) % 256) as u8,
            ((n / 16777216) % 256) as u8,
        ] + data
    }
}

/// A push takes at most five bytes more than its data.
pub proof fn lemma_push_bytes_len(data: Seq<u8>)
    ensures
        data.len() < push_bytes_spec(data).len() <= data.len() + 5,
        1 <= data.len() <= 75 ==> push_bytes_spec(data).len() == data.len() + 1,
{
}

/// The push of the number `n`: the dedicated opcode for 0 to 16, else a data
/// push of its minimal encoding.
pub open spec fn push_number_spec(n: nat) -> Seq<u8> {
    if n == 0 {
        seq![OP_0]
    } else if n <= 16 {
        seq![(0x50 + n) as u8]
    } else {
        push_bytes_spec(script_num_bytes(n))
    }
}

pub proof fn lemma_le_digits_len(m: nat, k: nat)
    requires
        m < vstd::arithmetic::power::pow(256, k),
    ensures
        le_digits(m).len() <= k,
    decreases k,
{
    reveal(vstd::arithmetic::power::pow);
    if m == 0 {
    } else {
        assert(k > 0);
        assert(vstd::arithmetic::power::pow(256, k) == 256 * vstd::arithmetic::power::pow(
            256,
            (k - 1) as nat,
        ));
        lemma_le_digits_len(m / 256, (k - 1) as nat);
    }
}

/// Encodes a data push.
pub fn push_bytes(data: &[u8]) -> (result: Vec<u8>)
    ensures
        result@ == push_bytes_spec(data@),
{
    let mut result: Vec<u8> = Vec::new();
    let n: usize = data.len();
    if n == 0 {
        result.push(OP_0);
    } else if n <= 75 {
        result.push(n as u8);
        result.extend_from_slice(data);
    } else if n <= 255 {
        result.push(OP_PUSHDATA1);
        result.push(n as u8);
        result.extend_from_slice(data);
    } else if n <= 65535 {
        result.push(OP_PUSHDATA2);
        result.push((n % 256) as u8);
        result.push((n / 256) as u8);
        result.extend_from_slice(data);
    } else {
        result.push(OP_PUSHDATA4);
        result.push((n % 256) as u8);
        result.push(((n / 256) % 256) as u8);
        result.push(((n / 65536) % 256) as u8);
        result.push(((n / 16777216) % 256) as u8);
        result.extend_from_slice(data);
    }
    assert(result@ =~= push_bytes_spec(data@));
    result
}

/// The minimal sign-magnitude encoding of the negative number `-m`: the
/// base-256 digits of `m` with the sign bit set in the top digit, or in a
/// byte of its own when the top digit has its high bit set already.
pub open spec fn negative_num_bytes(m: nat) -> Seq<u8> {
    let d = le_digits(m);
    if d.len() > 0 && d.last() >= 0x80 {
        d.push(0x80u8)
    } else if d.len() > 0 {
        d.update(d.len() - 1, (d.last() + 0x80) as u8)
    } else {
        d
    }
}

/// The push of any number: as `push_number_spec` says from zero on, the
/// dedicated opcode for -1, else a data push of the minimal encoding.
pub open spec fn push_int_spec(n: int) -> Seq<u8> {
    if n >= 0 {
        push_number_spec(n as nat)
    } else if n == -1 {
        seq![OP_1NEGATE]
    } else {
        push_bytes_spec(negative_num_bytes((-n) as nat))
    }
}

/// The base-256 digits of `m`, least significant first.
fn magnitude_digits(m: u64) -> (digits: Vec<u8>)
    ensures
        digits@ == le_digits(m as nat),
        digits@.len() <= 8,
        m > 0 ==> digits@.len() > 0,
{
    let mut digits: Vec<u8> = Vec::new();
    let mut rest: u64 = m;
    proof {
        assert(digits@ + le_digits(rest as nat) =~= le_digits(m as nat));
    }
    while rest > 0
        invariant
            0 <= rest <= m,
            digits@ + le_digits(rest as nat) == le_digits(m as nat),
            rest == 0 && m > 0 ==> digits@.len() > 0,
        decreases rest,
    {
        let d: u8 = (rest % 256) as u8;
        proof {
            assert(le_digits(rest as nat) == seq![d] + le_digits((rest / 256) as nat));
            assert(digits@.push(d) + le_digits((rest / 256) as nat) =~= digits@ + le_digits(
                rest as nat,
            ));
        }
        digits.push(d);
        rest = rest / 256;
    }
    proof {
        assert(le_digits(0) =~= Seq::<u8>::empty());
        assert(digits@ =~= le_digits(m as nat));
        assert(vstd::arithmetic::power::pow(256, 8) == 0x1_0000_0000_0000_0000) by {
            reveal(vstd::arithmetic::power::pow);
            assert(vstd::arithmetic::power::pow(256, 8) == 256 * (256 * (256 * (256 * (256 * (256
                * (256 * (256 * vstd::arithmetic::power::pow(256, 0))))))))) by {
                reveal_with_fuel(vstd::arithmetic::power::pow, 9);
            }
        }
        lemma_le_digits_len(m as nat, 8);
    }
    digits
}

/// Encodes the push of a number.
pub fn push_number(n: i64) -> (result: Vec<u8>)
    ensures
        result@ == push_int_spec(n as int),
        n >= 0 ==> result@ == push_number_spec(n as nat),
{
    let mut result: Vec<u8> = Vec::new();
    if n == 0 {
        result.push(OP_0);
        assert(result@ =~= push_number_spec(n as nat));
        return result;
    }
    if n >= 1 && n <= 16 {
        result.push((0x50 + n) as u8);
        assert(result@ =~= push_number_spec(n as nat));
        return result;
    }
    if n == -1 {
        result.push(OP_1NEGATE);
        return result;
    }
    let magnitude: u64 = if n >= 0 {
        n as u64
    } else {
        ((-(n + 1)) as u64) + 1
    };
    let mut digits = magnitude_digits(magnitude);
    let last: usize = digits.len() - 1;
    let top: u8 = digits[last];
    if top >= 0x80 {
        digits.push(if n < 0 {
            0x80u8
        } else {
            0u8
        });
    } else if n < 0 {
        digits[last] = top + 0x80;
    }
    proof {
        if n >= 0 {
            assert(digits@ =~= script_num_bytes(n as nat));
        } else {
            assert(digits@ =~= negative_num_bytes((-n) as nat));
        }
    }
    push_bytes(digits.as_slice())
}

/// Serializes a length as a compact integer: one byte below 0xfd, else a
/// marker byte and the two-, four- or eight-byte little-endian value.
pub open spec fn varint_spec(n: nat) -> Seq<u8> {
    if n < 0xfd {
        seq![n as u8]
    } else if n <= 0xffff {
        seq![0xfdu8, (n % 256) as u8, (n / 256) as u8]
    } else if n <= 0xffff_ffff {
        seq![
            0xfeu8,
            (n % 256) as u8,
            ((n / 256) % 256) as u8,
            ((n / 65536) % 256) as u8,
            ((n / 16777216) % 256) as u8,
        ]
    } else {
        seq![
            0xffu8,
            (n % 256) as u8,
            ((n / 0x100) % 256) as u8,
            ((n / 0x1_0000) % 256) as u8,
            ((n / 0x100_0000) % 256) as u8,
            ((n / 0x1_0000_0000) % 256) as u8,
            ((n / 0x100_0000_0000) % 256) as u8,
            ((n / 0x1_0000_0000_0000) % 256) as u8,
            ((n / 0x100_0000_0000_0000) % 256) as u8,
        ]
    }
}

/// Encodes a length as a compact integer.
pub fn varint(n: usize) -> (result: Vec<u8>)
    ensures
        result@ == varint_spec(n as nat),
{
    let mut v: Vec<u8> = Vec::new();
    if n < 0xfd {
        v.push(n as u8);
    } else if n <= 0xffff {
        v.push(0xfd);
        v.push((n % 256) as u8);
        v.push((n / 256) as u8);
    } else if n <= 0xffff_ffff {
        v.push(0xfe);
        v.push((n % 256) as u8);
        v.push(((n / 256) % 256) as u8);
        v.push(((n / 65536) % 256) as u8);
        v.push(((n / 16777216) % 256) as u8);
    } else {
        let w: u64 = n as u64;
        v.push(0xff);
        v.push((w % 256) as u8);
        v.push(((w / 0x100) % 256) as u8);
        v.push(((w / 0x1_0000) % 256) as u8);
        v.push(((w / 0x100_0000) % 256) as u8);
        v.push(((w / 0x1_0000_0000) % 256) as u8);
        v.push(((w / 0x100_0000_0000) % 256) as u8);
        v.push(((w / 0x1_0000_0000_0000) % 256) as u8);
        v.push(((w / 0x100_0000_0000_0000) % 256) as u8);
    }
    assert(v@ =~= varint_spec(n as nat));
    v
}

} // verus!
