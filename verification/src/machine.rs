//! A model of the stack machine: programs as instruction sequences, their
//! byte encoding, and what running them does to the two stacks.
//!
//! Stack items are modelled as the numbers they spell; the opcodes covered
//! are the stack and arithmetic primitives that field code is made of. The
//! hashes and the opcodes on byte strings are modelled on items as bytes,
//! in `byte_machine`.

use vstd::prelude::*;
use crate::field::le_value;
use crate::opcodes::{
    le_digits, push_bytes_spec, push_number_spec, script_num_bytes, OP_0, OP_1, OP_16, OP_1SUB,
    OP_2DROP, OP_ADD, OP_DEPTH, OP_DROP, OP_DUP, OP_FROMALTSTACK, OP_LESSTHAN, OP_MOD, OP_MUL,
    OP_NIP, OP_NUMEQUALVERIFY, OP_OVER, OP_PICK, OP_PUSHDATA1, OP_PUSHDATA2, OP_PUSHDATA4, OP_ROLL,
    OP_ROT, OP_SUB, OP_SWAP, OP_TOALTSTACK, OP_VERIFY,
};

verus! {

/// One instruction: a bare opcode, or a data push.
pub enum Instr {
    Op(u8),
    Data(Seq<u8>),
}

/// The main stack and the side stack, bottom first.
pub struct Machine {
    pub stack: Seq<int>,
    pub alt: Seq<int>,
}

/// The bytes of one instruction.
pub open spec fn encode_instr(i: Instr) -> Seq<u8> {
    match i {
        Instr::Op(op) => seq![op],
        Instr::Data(d) => push_bytes_spec(d),
    }
}

/// The bytes of a program: its instructions' bytes in order.
pub open spec fn encode(p: Seq<Instr>) -> Seq<u8>
    decreases p.len(),
{
    if p.len() == 0 {
        Seq::<u8>::empty()
    } else {
        encode(p.drop_last()) + encode_instr(p.last())
    }
}

/// The number that a pushed byte string spells: little-endian magnitude,
/// with the top bit of the last byte as the sign.
pub open spec fn script_num_value(b: Seq<u8>) -> int {
    if b.len() == 0 {
        0
    } else if b.last() < 0x80 {
        le_value(b) as int
    } else {
        -(le_value(b.update(b.len() - 1, (b.last() - 0x80) as u8)) as int)
    }
}

/// The remainder as the machine computes it: the sign follows the dividend.
pub open spec fn truncated_rem(a: int, b: int) -> int
    recommends
        b != 0,
{
    let d = if b < 0 {
        -b
    } else {
        b
    };
    if a >= 0 {
        a % d
    } else {
        -((-a) % d)
    }
}

pub open spec fn with_stack(m: Machine, stack: Seq<int>) -> Machine {
    Machine { stack, alt: m.alt }
}

/// What one opcode does; `None` when the machine aborts or the opcode is
/// outside the modelled set.
pub open spec fn step_op(op: u8, m: Machine) -> Option<Machine> {
    let s = m.stack;
    let n = s.len() as int;
    if op == OP_0 {
        Some(with_stack(m, s.push(0)))
    } else if OP_1 <= op <= OP_16 {
        Some(with_stack(m, s.push(op - 0x50)))
    } else if op == OP_DUP {
        if n >= 1 {
            Some(with_stack(m, s.push(s[n - 1])))
        } else {
            None
        }
    } else if op == OP_DROP {
        if n >= 1 {
            Some(with_stack(m, s.take(n - 1)))
        } else {
            None
        }
    } else if op == OP_2DROP {
        if n >= 2 {
            Some(with_stack(m, s.take(n - 2)))
        } else {
            None
        }
    } else if op == OP_NIP {
        if n >= 2 {
            Some(with_stack(m, s.take(n - 2).push(s[n - 1])))
        } else {
            None
        }
    } else if op == OP_SWAP {
        if n >= 2 {
            Some(with_stack(m, s.take(n - 2).push(s[n - 1]).push(s[n - 2])))
        } else {
            None
        }
    } else if op == OP_OVER {
        if n >= 2 {
            Some(with_stack(m, s.push(s[n - 2])))
        } else {
            None
        }
    } else if op == OP_ROT {
        if n >= 3 {
            Some(with_stack(m, s.take(n - 3).push(s[n - 2]).push(s[n - 1]).push(s[n - 3])))
        } else {
            None
        }
    } else if op == OP_PICK {
        if n >= 1 && 0 <= s[n - 1] < n - 1 {
            Some(with_stack(m, s.take(n - 1).push(s[n - 2 - s[n - 1]])))
        } else {
            None
        }
    } else if op == OP_ROLL {
        if n >= 1 && 0 <= s[n - 1] < n - 1 {
            let at = n - 2 - s[n - 1];
            Some(with_stack(m, s.take(at) + s.subrange(at + 1, n - 1) + seq![s[at]]))
        } else {
            None
        }
    } else if op == OP_TOALTSTACK {
        if n >= 1 {
            Some(Machine { stack: s.take(n - 1), alt: m.alt.push(s[n - 1]) })
        } else {
            None
        }
    } else if op == OP_FROMALTSTACK {
        if m.alt.len() >= 1 {
            Some(Machine { stack: s.push(m.alt.last()), alt: m.alt.drop_last() })
        } else {
            None
        }
    } else if op == OP_ADD {
        if n >= 2 {
            Some(with_stack(m, s.take(n - 2).push(s[n - 2] + s[n - 1])))
        } else {
            None
        }
    } else if op == OP_SUB {
        if n >= 2 {
            Some(with_stack(m, s.take(n - 2).push(s[n - 2] - s[n - 1])))
        } else {
            None
        }
    } else if op == OP_MUL {
        if n >= 2 {
            Some(with_stack(m, s.take(n - 2).push(s[n - 2] * s[n - 1])))
        } else {
            None
        }
    } else if op == OP_MOD {
        if n >= 2 && s[n - 1] != 0 {
            Some(with_stack(m, s.take(n - 2).push(truncated_rem(s[n - 2], s[n - 1]))))
        } else {
            None
        }
    } else if op == OP_LESSTHAN {
        if n >= 2 {
            Some(
                with_stack(
                    m,
                    s.take(n - 2).push(
                        if s[n - 2] < s[n - 1] {
                            1int
                        } else {
                            0int
                        },
                    ),
                ),
            )
        } else {
            None
        }
    } else if op == OP_VERIFY {
        if n >= 1 && s[n - 1] != 0 {
            Some(with_stack(m, s.take(n - 1)))
        } else {
            None
        }
    } else if op == OP_NUMEQUALVERIFY {
        if n >= 2 && s[n - 2] == s[n - 1] {
            Some(with_stack(m, s.take(n - 2)))
        } else {
            None
        }
    } else if op == OP_DEPTH {
        Some(with_stack(m, s.push(n)))
    } else if op == OP_1SUB {
        if n >= 1 {
            Some(with_stack(m, s.take(n - 1).push(s[n - 1] - 1)))
        } else {
            None
        }
    } else {
        None
    }
}

/// What one instruction does.
pub open spec fn step(i: Instr, m: Machine) -> Option<Machine> {
    match i {
        Instr::Op(op) => step_op(op, m),
        Instr::Data(d) => Some(with_stack(m, m.stack.push(script_num_value(d)))),
    }
}

/// The machine after the first `n` instructions of `p`.
pub open spec fn run(p: Seq<Instr>, n: nat, m: Machine) -> Option<Machine>
    decreases n,
{
    if n == 0 {
        Some(m)
    } else {
        match run(p, (n - 1) as nat, m) {
            Some(before) => step(p[n - 1], before),
            None => None,
        }
    }
}

/// The machine after the whole of `p`.
pub open spec fn run_all(p: Seq<Instr>, m: Machine) -> Option<Machine> {
    run(p, p.len(), m)
}

/// Runs `q` on the outcome of an earlier program.
pub open spec fn and_then_run(first: Option<Machine>, q: Seq<Instr>) -> Option<Machine> {
    match first {
        Some(m) => run_all(q, m),
        None => None,
    }
}

pub proof fn lemma_encode_one(i: Instr)
    ensures
        encode(seq![i]) == encode_instr(i),
{
    assert(seq![i].drop_last() =~= Seq::<Instr>::empty());
    assert(encode(seq![i].drop_last()) =~= Seq::<u8>::empty());
    assert(encode(seq![i]) =~= encode_instr(i));
}

/// The encoding of a concatenation is the concatenation of the encodings.
pub proof fn lemma_encode_concat(p: Seq<Instr>, q: Seq<Instr>)
    ensures
        encode(p + q) == encode(p) + encode(q),
    decreases q.len(),
{
    if q.len() == 0 {
        assert(p + q =~= p);
        assert(encode(p) + encode(q) =~= encode(p));
    } else {
        assert((p + q).drop_last() =~= p + q.drop_last());
        assert((p + q).last() == q.last());
        lemma_encode_concat(p, q.drop_last());
        assert(encode(p + q) =~= encode(p) + encode(q));
    }
}

/// The program made of bare opcodes.
pub open spec fn ops(bytes: Seq<u8>) -> Seq<Instr> {
    Seq::new(bytes.len(), |i: int| Instr::Op(bytes[i]))
}

/// A program of bare opcodes encodes to the opcodes.
pub proof fn lemma_encode_ops(bytes: Seq<u8>)
    ensures
        encode(ops(bytes)) == bytes,
    decreases bytes.len(),
{
    if bytes.len() == 0 {
        assert(encode(ops(bytes)) =~= bytes);
    } else {
        assert(ops(bytes).drop_last() =~= ops(bytes.drop_last()));
        lemma_encode_ops(bytes.drop_last());
        assert(encode(ops(bytes)) =~= bytes);
    }
}

pub proof fn lemma_encode_push(p: Seq<Instr>, i: Instr)
    ensures
        encode(p.push(i)) == encode(p) + encode_instr(i),
{
    assert(p.push(i).drop_last() =~= p);
}

proof fn lemma_run_prefix(p: Seq<Instr>, q: Seq<Instr>, n: nat, m: Machine)
    requires
        n <= p.len(),
    ensures
        run(p + q, n, m) == run(p, n, m),
    decreases n,
{
    if n > 0 {
        lemma_run_prefix(p, q, (n - 1) as nat, m);
    }
}

proof fn lemma_run_suffix(p: Seq<Instr>, q: Seq<Instr>, k: nat, m: Machine)
    requires
        k <= q.len(),
    ensures
        run(p + q, p.len() + k, m) == match run_all(p, m) {
            Some(mid) => run(q, k, mid),
            None => None,
        },
    decreases k,
{
    if k == 0 {
        lemma_run_prefix(p, q, p.len(), m);
    } else {
        lemma_run_suffix(p, q, (k - 1) as nat, m);
        assert((p + q)[p.len() + k - 1] == q[k - 1]);
    }
}

/// Running a concatenation is running its parts one after the other.
pub proof fn lemma_run_concat(p: Seq<Instr>, q: Seq<Instr>, m: Machine)
    ensures
        run_all(p + q, m) == and_then_run(run_all(p, m), q),
{
    lemma_run_suffix(p, q, q.len(), m);
}

/// The instruction that pushes the number `n`.
pub open spec fn num_instr(n: nat) -> Instr {
    if n == 0 {
        Instr::Op(OP_0)
    } else if n <= 16 {
        Instr::Op((0x50 + n) as u8)
    } else {
        Instr::Data(script_num_bytes(n))
    }
}

pub proof fn lemma_num_instr_bytes(n: nat)
    ensures
        encode_instr(num_instr(n)) == push_number_spec(n),
{
}

pub proof fn lemma_le_value_push_zero(d: Seq<u8>)
    ensures
        le_value(d.push(0u8)) == le_value(d),
    decreases d.len(),
{
    if d.len() == 0 {
        assert(d.push(0u8).skip(1) =~= Seq::<u8>::empty());
        assert(le_value(d.push(0u8).skip(1)) == 0);
        assert(d.push(0u8)[0] == 0);
    } else {
        assert(d.push(0u8)[0] == d[0]);
        assert(d.push(0u8).skip(1) =~= d.skip(1).push(0u8));
        lemma_le_value_push_zero(d.skip(1));
    }
}

pub proof fn lemma_le_digits_value(n: nat)
    ensures
        le_value(le_digits(n)) == n,
        n > 0 ==> le_digits(n).len() > 0 && le_digits(n).last() != 0,
    decreases n,
{
    if n > 0 {
        let d = le_digits(n);
        let rest = le_digits(n / 256);
        lemma_le_digits_value(n / 256);
        assert(d.skip(1) =~= rest);
        assert(d[0] == (n % 256) as u8);
        if n / 256 > 0 {
            assert(d.last() == rest.last());
        }
    }
}

/// The encoding of a negative number spells that number.
pub proof fn lemma_negative_number_value(m: nat)
    requires
        m > 0,
    ensures
        script_num_value(crate::opcodes::negative_num_bytes(m)) == -(m as int),
{
    let d = le_digits(m);
    lemma_le_digits_value(m);
    let b = crate::opcodes::negative_num_bytes(m);
    if d.last() >= 0x80 {
        assert(b.update(b.len() - 1, (b.last() - 0x80) as u8) =~= d.push(0u8));
        lemma_le_value_push_zero(d);
    } else {
        assert(b.update(b.len() - 1, (b.last() - 0x80) as u8) =~= d);
    }
}

/// A pushed number spells itself.
pub proof fn lemma_num_instr_value(n: nat, m: Machine)
    ensures
        step(num_instr(n), m) == Some(with_stack(m, m.stack.push(n as int))),
{
    if n > 16 {
        let d = le_digits(n);
        lemma_le_digits_value(n);
        if d.last() >= 0x80 {
            lemma_le_value_push_zero(d);
        }
    }
}

/// An instruction that reading the bytes of a program gives back: a bare
/// opcode is none of the push opcodes, and a data push is neither empty
/// (its byte is the opcode that pushes zero) nor too long for its length
/// field.
pub open spec fn plain_instr(i: Instr) -> bool {
    match i {
        Instr::Op(op) => op == OP_0 || op > OP_PUSHDATA4,
        Instr::Data(d) => 1 <= d.len() <= 0xffff_ffff,
    }
}

/// Every instruction of the program is plain.
pub open spec fn plain(p: Seq<Instr>) -> bool {
    forall|k: int| 0 <= k < p.len() ==> plain_instr(#[trigger] p[k])
}

/// The program that a byte string spells, read as the machine reads it;
/// none when a push runs past the end.
pub open spec fn parse(b: Seq<u8>) -> Option<Seq<Instr>>
    decreases b.len(),
{
    if b.len() == 0 {
        Some(Seq::<Instr>::empty())
    } else {
        let op = b[0];
        if op == OP_0 || op > OP_PUSHDATA4 {
            match parse(b.skip(1)) {
                Some(rest) => Some(seq![Instr::Op(op)] + rest),
                None => None,
            }
        } else {
            let header: int = if op < OP_PUSHDATA1 {
                1
            } else if op == OP_PUSHDATA1 {
                2
            } else if op == OP_PUSHDATA2 {
                3
            } else {
                5
            };
            if b.len() < header {
                None
            } else {
                let n: int = if op < OP_PUSHDATA1 {
                    op as int
                } else if op == OP_PUSHDATA1 {
                    b[1] as int
                } else if op == OP_PUSHDATA2 {
                    b[1] + 256 * b[2]
                } else {
                    b[1] + 256 * b[2] + 65536 * b[3] + 16777216 * b[4]
                };
                if b.len() < header + n {
                    None
                } else {
                    match parse(b.skip(header + n)) {
                        Some(rest) => Some(
                            seq![Instr::Data(b.subrange(header, header + n))] + rest,
                        ),
                        None => None,
                    }
                }
            }
        }
    }
}

/// What running a byte string does: what running the program it spells
/// does.
pub open spec fn run_script(b: Seq<u8>, m: Machine) -> Option<Machine> {
    match parse(b) {
        Some(p) => run_all(p, m),
        None => None,
    }
}

/// What reading gives for bytes that start with a push of `d` behind a
/// header of `header` bytes that spells the length of `d`.
proof fn lemma_parse_push(b: Seq<u8>, d: Seq<u8>, rest: Seq<u8>, header: int)
    requires
        b.len() == header + d.len() + rest.len(),
        b.subrange(header, header + d.len()) == d,
        b.skip(header + d.len()) == rest,
        1 <= b[0] <= OP_PUSHDATA4,
        header == if b[0] < OP_PUSHDATA1 {
            1int
        } else if b[0] == OP_PUSHDATA1 {
            2int
        } else if b[0] == OP_PUSHDATA2 {
            3int
        } else {
            5int
        },
        d.len() == if b[0] < OP_PUSHDATA1 {
            b[0] as int
        } else if b[0] == OP_PUSHDATA1 {
            b[1] as int
        } else if b[0] == OP_PUSHDATA2 {
            b[1] + 256 * b[2]
        } else {
            b[1] + 256 * b[2] + 65536 * b[3] + 16777216 * b[4]
        },
    ensures
        parse(b) == match parse(rest) {
            Some(r) => Some(seq![Instr::Data(d)] + r),
            None => None,
        },
{
}

proof fn lemma_parse_head(i: Instr, rest: Seq<u8>)
    requires
        plain_instr(i),
    ensures
        parse(encode_instr(i) + rest) == match parse(rest) {
            Some(r) => Some(seq![i] + r),
            None => None,
        },
{
    let b = encode_instr(i) + rest;
    match i {
        Instr::Op(op) => {
            assert(b.skip(1) =~= rest);
        },
        Instr::Data(d) => {
            let n = d.len() as int;
            let header: int = if n <= 75 {
                1
            } else if n <= 255 {
                2
            } else if n <= 65535 {
                3
            } else {
                5
            };
            assert(b.len() == header + n + rest.len());
            assert(b.skip(header + n) =~= rest);
            assert(b.subrange(header, header + n) =~= d);
            if n <= 75 {
                assert(b[0] == n as u8);
            } else if n <= 255 {
                assert(b[0] == OP_PUSHDATA1 && b[1] == n as u8);
            } else if n <= 65535 {
                assert(b[0] == OP_PUSHDATA2);
                assert(b[1] == (n % 256) as u8 && b[2] == (n / 256) as u8);
            } else {
                assert(b[0] == OP_PUSHDATA4);
                assert(b[1] == (n % 256) as u8);
                assert(b[2] == ((n / 256) % 256) as u8);
                assert(b[3] == ((n / 65536) % 256) as u8);
                assert(b[4] == ((n / 16777216) % 256) as u8);
                assert(b[1] + 256 * b[2] + 65536 * b[3] + 16777216 * b[4] == n);
            }
            lemma_parse_push(b, d, rest, header);
        },
    }
}

/// Reading the bytes of a plain program gives the program back.
pub proof fn lemma_parse_encode(p: Seq<Instr>)
    requires
        plain(p),
    ensures
        parse(encode(p)) == Some(p),
    decreases p.len(),
{
    if p.len() == 0 {
        assert(encode(p) =~= Seq::<u8>::empty());
        assert(p =~= Seq::<Instr>::empty());
    } else {
        let head = seq![p[0]];
        let tail = p.skip(1);
        assert(p =~= head + tail);
        lemma_encode_concat(head, tail);
        lemma_encode_one(p[0]);
        assert(plain(tail)) by {
            assert forall|k: int| 0 <= k < tail.len() implies plain_instr(#[trigger] tail[k]) by {
                assert(tail[k] == p[k + 1]);
            }
        }
        lemma_parse_encode(tail);
        lemma_parse_head(p[0], encode(tail));
    }
}

/// Running the bytes of a plain program is running the program.
pub proof fn law_script_runs_program(p: Seq<Instr>, m: Machine)
    requires
        plain(p),
    ensures
        run_script(encode(p), m) == run_all(p, m),
{
    lemma_parse_encode(p);
}

/// A program of bare opcodes, none of them a push opcode, is plain.
pub proof fn lemma_plain_ops(bytes: Seq<u8>)
    requires
        forall|k: int| 0 <= k < bytes.len() ==> bytes[k] > OP_PUSHDATA4,
    ensures
        plain(ops(bytes)),
{
    assert forall|k: int| 0 <= k < ops(bytes).len() implies plain_instr(
        #[trigger] ops(bytes)[k],
    ) by {
        assert(ops(bytes)[k] == Instr::Op(bytes[k]));
    }
}

/// A concatenation of plain programs is plain.
pub proof fn lemma_plain_concat(p: Seq<Instr>, q: Seq<Instr>)
    requires
        plain(p),
        plain(q),
    ensures
        plain(p + q),
{
    assert forall|k: int| 0 <= k < (p + q).len() implies plain_instr(#[trigger] (p + q)[k]) by {
        if k < p.len() {
            assert((p + q)[k] == p[k]);
        } else {
            assert((p + q)[k] == q[k - p.len()]);
        }
    }
}

} // verus!
