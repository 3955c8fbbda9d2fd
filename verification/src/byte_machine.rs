//! The stack machine on byte strings: what the opcodes do to items as the
//! machine holds them.
//!
//! The hash opcodes, the comparison of byte strings, cutting and joining
//! act on the bytes of an item; stack moves carry items unchanged;
//! arithmetic reads its operands as numbers, whatever their length, and
//! writes its result in the shortest encoding. Limits on the size of items
//! and of stacks are not modelled. Read as numbers, a run of stack moves
//! and arithmetic here is the run of the same program on numbers.

use vstd::prelude::*;
use crate::hashing::{ripemd160_digest, sha256_digest};
use crate::machine::{
    lemma_le_digits_value, lemma_le_value_push_zero, lemma_negative_number_value, parse, run,
    run_all, script_num_value, step, step_op, Instr, Machine,
};
use crate::opcodes::{
    le_digits, negative_num_bytes, script_num_bytes, OP_0, OP_1, OP_16, OP_1SUB, OP_2DROP, OP_ADD,
    OP_CAT, OP_DEPTH, OP_DROP, OP_DUP, OP_EQUALVERIFY, OP_FROMALTSTACK, OP_HASH160, OP_LESSTHAN,
    OP_MOD, OP_MUL, OP_NIP, OP_NUMEQUALVERIFY, OP_OVER, OP_PICK, OP_ROLL, OP_ROT, OP_SHA256,
    OP_SPLIT, OP_SUB, OP_SWAP, OP_TOALTSTACK, OP_VERIFY,
};

verus! {

/// The main stack and the side stack, bottom first, each item as its bytes.
pub struct ByteMachine {
    pub stack: Seq<Seq<u8>>,
    pub alt: Seq<Seq<u8>>,
}

/// The shortest byte string that spells the number `v`.
pub open spec fn number_item(v: int) -> Seq<u8> {
    if v >= 0 {
        script_num_bytes(v as nat)
    } else {
        negative_num_bytes((-v) as nat)
    }
}

/// The numbers that the items spell.
pub open spec fn numbers_of(items: Seq<Seq<u8>>) -> Seq<int> {
    Seq::new(items.len(), |i: int| script_num_value(items[i]))
}

/// The machine with every item read as a number.
pub open spec fn numbers(m: ByteMachine) -> Machine {
    Machine { stack: numbers_of(m.stack), alt: numbers_of(m.alt) }
}

pub open spec fn with_items(m: ByteMachine, stack: Seq<Seq<u8>>) -> ByteMachine {
    ByteMachine { stack, alt: m.alt }
}

/// The opcodes that push a number computed from the numbers on the stack.
pub open spec fn computes_number(op: u8) -> bool {
    op == OP_0 || OP_1 <= op <= OP_16 || op == OP_ADD || op == OP_SUB || op == OP_MUL || op
        == OP_MOD || op == OP_LESSTHAN || op == OP_DEPTH || op == OP_1SUB
}

/// The opcodes that test the numbers on top and push nothing.
pub open spec fn checks_number(op: u8) -> bool {
    op == OP_VERIFY || op == OP_NUMEQUALVERIFY
}

/// The opcodes that move items and leave their bytes alone.
pub open spec fn moves_items(op: u8) -> bool {
    op == OP_DUP || op == OP_DROP || op == OP_2DROP || op == OP_NIP || op == OP_SWAP || op
        == OP_OVER || op == OP_ROT || op == OP_PICK || op == OP_ROLL || op == OP_TOALTSTACK || op
        == OP_FROMALTSTACK
}

/// What a stack move does to the items.
pub open spec fn move_step(op: u8, m: ByteMachine) -> Option<ByteMachine> {
    let s = m.stack;
    let n = s.len() as int;
    if op == OP_DUP {
        if n >= 1 {
            Some(with_items(m, s.push(s[n - 1])))
        } else {
            None
        }
    } else if op == OP_DROP {
        if n >= 1 {
            Some(with_items(m, s.take(n - 1)))
        } else {
            None
        }
    } else if op == OP_2DROP {
        if n >= 2 {
            Some(with_items(m, s.take(n - 2)))
        } else {
            None
        }
    } else if op == OP_NIP {
        if n >= 2 {
            Some(with_items(m, s.take(n - 2).push(s[n - 1])))
        } else {
            None
        }
    } else if op == OP_SWAP {
        if n >= 2 {
            Some(with_items(m, s.take(n - 2).push(s[n - 1]).push(s[n - 2])))
        } else {
            None
        }
    } else if op == OP_OVER {
        if n >= 2 {
            Some(with_items(m, s.push(s[n - 2])))
        } else {
            None
        }
    } else if op == OP_ROT {
        if n >= 3 {
            Some(with_items(m, s.take(n - 3).push(s[n - 2]).push(s[n - 1]).push(s[n - 3])))
        } else {
            None
        }
    } else if op == OP_PICK {
        if n >= 1 && 0 <= script_num_value(s[n - 1]) < n - 1 {
            Some(with_items(m, s.take(n - 1).push(s[n - 2 - script_num_value(s[n - 1])])))
        } else {
            None
        }
    } else if op == OP_ROLL {
        if n >= 1 && 0 <= script_num_value(s[n - 1]) < n - 1 {
            let at = n - 2 - script_num_value(s[n - 1]);
            Some(with_items(m, s.take(at) + s.subrange(at + 1, n - 1) + seq![s[at]]))
        } else {
            None
        }
    } else if op == OP_TOALTSTACK {
        if n >= 1 {
            Some(ByteMachine { stack: s.take(n - 1), alt: m.alt.push(s[n - 1]) })
        } else {
            None
        }
    } else if op == OP_FROMALTSTACK {
        if m.alt.len() >= 1 {
            Some(ByteMachine { stack: s.push(m.alt.last()), alt: m.alt.drop_last() })
        } else {
            None
        }
    } else {
        None
    }
}

/// What an opcode on the bytes of items does: the two hashes, the
/// comparison of byte strings, joining, and cutting at a position that lies
/// within the item.
pub open spec fn bytes_step(op: u8, m: ByteMachine) -> Option<ByteMachine> {
    let s = m.stack;
    let n = s.len() as int;
    if op == OP_SHA256 {
        if n >= 1 {
            Some(with_items(m, s.take(n - 1).push(sha256_digest(s[n - 1]))))
        } else {
            None
        }
    } else if op == OP_HASH160 {
        if n >= 1 {
            Some(with_items(m, s.take(n - 1).push(ripemd160_digest(sha256_digest(s[n - 1])))))
        } else {
            None
        }
    } else if op == OP_EQUALVERIFY {
        if n >= 2 && s[n - 2] == s[n - 1] {
            Some(with_items(m, s.take(n - 2)))
        } else {
            None
        }
    } else if op == OP_CAT {
        if n >= 2 {
            Some(with_items(m, s.take(n - 2).push(s[n - 2] + s[n - 1])))
        } else {
            None
        }
    } else if op == OP_SPLIT {
        if n >= 2 && 0 <= script_num_value(s[n - 1]) <= s[n - 2].len() {
            let at = script_num_value(s[n - 1]);
            Some(with_items(m, s.take(n - 2).push(s[n - 2].take(at)).push(s[n - 2].skip(at))))
        } else {
            None
        }
    } else {
        None
    }
}

/// What one opcode does; `None` when the machine aborts or the opcode is
/// outside the modelled set. Signature checks are outside it: they read
/// the spending transaction.
pub open spec fn byte_step_op(op: u8, m: ByteMachine) -> Option<ByteMachine> {
    if computes_number(op) {
        match step_op(op, numbers(m)) {
            Some(after) => Some(
                with_items(
                    m,
                    m.stack.take(after.stack.len() - 1).push(number_item(after.stack.last())),
                ),
            ),
            None => None,
        }
    } else if checks_number(op) {
        match step_op(op, numbers(m)) {
            Some(after) => Some(with_items(m, m.stack.take(after.stack.len() as int))),
            None => None,
        }
    } else if moves_items(op) {
        move_step(op, m)
    } else {
        bytes_step(op, m)
    }
}

/// What one instruction does: a data push puts its bytes on the stack.
pub open spec fn byte_step(i: Instr, m: ByteMachine) -> Option<ByteMachine> {
    match i {
        Instr::Op(op) => byte_step_op(op, m),
        Instr::Data(d) => Some(with_items(m, m.stack.push(d))),
    }
}

/// The machine after the first `n` instructions of `p`.
pub open spec fn byte_run(p: Seq<Instr>, n: nat, m: ByteMachine) -> Option<ByteMachine>
    decreases n,
{
    if n == 0 {
        Some(m)
    } else {
        match byte_run(p, (n - 1) as nat, m) {
            Some(before) => byte_step(p[n - 1], before),
            None => None,
        }
    }
}

/// The machine after the whole of `p`.
pub open spec fn byte_run_all(p: Seq<Instr>, m: ByteMachine) -> Option<ByteMachine> {
    byte_run(p, p.len(), m)
}

/// What running a byte string does: what running the program it spells
/// does.
pub open spec fn byte_run_script(b: Seq<u8>, m: ByteMachine) -> Option<ByteMachine> {
    match parse(b) {
        Some(p) => byte_run_all(p, m),
        None => None,
    }
}

/// An instruction of stack moves and arithmetic: one that the machine on
/// numbers knows.
pub open spec fn numeric_instr(i: Instr) -> bool {
    match i {
        Instr::Op(op) => computes_number(op) || checks_number(op) || moves_items(op),
        Instr::Data(d) => true,
    }
}

/// Every instruction of the program is one of stack moves and arithmetic.
pub open spec fn numeric(p: Seq<Instr>) -> bool {
    forall|k: int| 0 <= k < p.len() ==> numeric_instr(#[trigger] p[k])
}

/// The shortest encoding of a number spells that number.
pub proof fn lemma_number_item_value(v: int)
    ensures
        script_num_value(number_item(v)) == v,
{
    if v > 0 {
        let d = le_digits(v as nat);
        lemma_le_digits_value(v as nat);
        if d.last() >= 0x80 {
            lemma_le_value_push_zero(d);
        }
    } else if v < 0 {
        lemma_negative_number_value((-v) as nat);
    }
}

pub proof fn lemma_numbers_push(items: Seq<Seq<u8>>, x: Seq<u8>)
    ensures
        numbers_of(items.push(x)) == numbers_of(items).push(script_num_value(x)),
{
    assert(numbers_of(items.push(x)) =~= numbers_of(items).push(script_num_value(x)));
}

pub proof fn lemma_numbers_take(items: Seq<Seq<u8>>, k: int)
    requires
        0 <= k <= items.len(),
    ensures
        numbers_of(items.take(k)) == numbers_of(items).take(k),
{
    assert(numbers_of(items.take(k)) =~= numbers_of(items).take(k));
}

pub proof fn lemma_numbers_concat(a: Seq<Seq<u8>>, b: Seq<Seq<u8>>)
    ensures
        numbers_of(a + b) == numbers_of(a) + numbers_of(b),
{
    assert(numbers_of(a + b) =~= numbers_of(a) + numbers_of(b));
}

/// An opcode that computes a number does on the items, read as numbers,
/// what it does on numbers.
proof fn lemma_computes_agrees(op: u8, m: ByteMachine)
    requires
        computes_number(op),
    ensures
        match byte_step_op(op, m) {
            Some(after) => step_op(op, numbers(m)) == Some(numbers(after)),
            None => step_op(op, numbers(m)) is None,
        },
{
    match step_op(op, numbers(m)) {
        Some(after) => {
            let k = after.stack.len() - 1;
            let top = after.stack.last();
            lemma_number_item_value(top);
            lemma_numbers_take(m.stack, k);
            lemma_numbers_push(m.stack.take(k), number_item(top));
            assert(after.stack =~= numbers_of(m.stack).take(k).push(top));
        },
        None => {},
    }
}

/// An opcode that tests numbers does on the items, read as numbers, what
/// it does on numbers.
proof fn lemma_checks_agrees(op: u8, m: ByteMachine)
    requires
        checks_number(op),
    ensures
        match byte_step_op(op, m) {
            Some(after) => step_op(op, numbers(m)) == Some(numbers(after)),
            None => step_op(op, numbers(m)) is None,
        },
{
    match step_op(op, numbers(m)) {
        Some(after) => {
            let k = after.stack.len() as int;
            lemma_numbers_take(m.stack, k);
            assert(after.stack =~= numbers_of(m.stack).take(k));
        },
        None => {},
    }
}

/// A stack move does on the items, read as numbers, what it does on
/// numbers.
proof fn lemma_moves_agrees(op: u8, m: ByteMachine)
    requires
        moves_items(op),
    ensures
        match byte_step_op(op, m) {
            Some(after) => step_op(op, numbers(m)) == Some(numbers(after)),
            None => step_op(op, numbers(m)) is None,
        },
{
    match move_step(op, m) {
        Some(after) => {
            let want = step_op(op, numbers(m));
            assert(want is Some);
            assert(want.unwrap().stack =~= numbers_of(after.stack));
            assert(want.unwrap().alt =~= numbers_of(after.alt));
        },
        None => {},
    }
}

/// One instruction of stack moves and arithmetic does on the items, read
/// as numbers, what it does on numbers.
pub proof fn lemma_step_agrees(i: Instr, m: ByteMachine)
    requires
        numeric_instr(i),
    ensures
        match byte_step(i, m) {
            Some(after) => step(i, numbers(m)) == Some(numbers(after)),
            None => step(i, numbers(m)) is None,
        },
{
    match i {
        Instr::Op(op) => {
            if computes_number(op) {
                lemma_computes_agrees(op, m);
            } else if checks_number(op) {
                lemma_checks_agrees(op, m);
            } else {
                lemma_moves_agrees(op, m);
            }
        },
        Instr::Data(d) => {
            lemma_numbers_push(m.stack, d);
        },
    }
}

/// The first `n` instructions of a program, all of stack moves and
/// arithmetic, do on the items, read as numbers, what they do on numbers.
pub proof fn lemma_run_agrees(p: Seq<Instr>, n: nat, m: ByteMachine)
    requires
        n <= p.len(),
        numeric(p),
    ensures
        match byte_run(p, n, m) {
            Some(after) => run(p, n, numbers(m)) == Some(numbers(after)),
            None => run(p, n, numbers(m)) is None,
        },
    decreases n,
{
    if n > 0 {
        lemma_run_agrees(p, (n - 1) as nat, m);
        match byte_run(p, (n - 1) as nat, m) {
            Some(before) => {
                lemma_step_agrees(p[n - 1], before);
            },
            None => {},
        }
    }
}

/// A program that runs to its end on numbers from some start holds only
/// instructions of stack moves and arithmetic.
pub proof fn lemma_run_numeric(p: Seq<Instr>, n: nat, m: Machine)
    requires
        n <= p.len(),
        run(p, n, m) is Some,
    ensures
        forall|k: int| 0 <= k < n ==> numeric_instr(#[trigger] p[k]),
    decreases n,
{
    if n > 0 {
        lemma_run_numeric(p, (n - 1) as nat, m);
    }
}

/// Runs `q` on the outcome of an earlier program.
pub open spec fn and_then_byte_run(first: Option<ByteMachine>, q: Seq<Instr>) -> Option<
    ByteMachine,
> {
    match first {
        Some(m) => byte_run_all(q, m),
        None => None,
    }
}

proof fn lemma_byte_run_prefix(p: Seq<Instr>, q: Seq<Instr>, n: nat, m: ByteMachine)
    requires
        n <= p.len(),
    ensures
        byte_run(p + q, n, m) == byte_run(p, n, m),
    decreases n,
{
    if n > 0 {
        lemma_byte_run_prefix(p, q, (n - 1) as nat, m);
    }
}

proof fn lemma_byte_run_suffix(p: Seq<Instr>, q: Seq<Instr>, k: nat, m: ByteMachine)
    requires
        k <= q.len(),
    ensures
        byte_run(p + q, p.len() + k, m) == match byte_run_all(p, m) {
            Some(mid) => byte_run(q, k, mid),
            None => None,
        },
    decreases k,
{
    if k == 0 {
        lemma_byte_run_prefix(p, q, p.len(), m);
    } else {
        lemma_byte_run_suffix(p, q, (k - 1) as nat, m);
        assert((p + q)[p.len() + k - 1] == q[k - 1]);
    }
}

/// Running a concatenation is running its parts one after the other.
pub proof fn lemma_byte_run_concat(p: Seq<Instr>, q: Seq<Instr>, m: ByteMachine)
    ensures
        byte_run_all(p + q, m) == and_then_byte_run(byte_run_all(p, m), q),
{
    lemma_byte_run_suffix(p, q, q.len(), m);
}

/// A program of stack moves and arithmetic does on the items, read as
/// numbers, what it does on numbers: it ends on the one exactly when it
/// ends on the other, and what it leaves spells what it leaves there.
pub proof fn law_numbers_run(p: Seq<Instr>, m: ByteMachine)
    requires
        numeric(p),
    ensures
        match byte_run_all(p, m) {
            Some(after) => run_all(p, numbers(m)) == Some(numbers(after)),
            None => run_all(p, numbers(m)) is None,
        },
{
    lemma_run_agrees(p, p.len(), m);
}

/// The machine with `base` put below its side stack.
pub open spec fn on_side(base: Seq<Seq<u8>>, m: ByteMachine) -> ByteMachine {
    ByteMachine { stack: m.stack, alt: base + m.alt }
}

/// An instruction that the machine can do, it does in the same way with
/// more items at the bottom of the side stack.
proof fn lemma_step_on_side(i: Instr, base: Seq<Seq<u8>>, m: ByteMachine)
    requires
        byte_step(i, m) is Some,
    ensures
        byte_step(i, on_side(base, m)) == Some(on_side(base, byte_step(i, m).unwrap())),
{
    let after = byte_step(i, m).unwrap();
    let wide = on_side(base, m);
    match i {
        Instr::Op(op) => {
            if computes_number(op) || checks_number(op) {
                assert(numbers(wide).stack == numbers(m).stack);
                assert(step_op(op, numbers(wide)) is Some);
                assert(step_op(op, numbers(wide)).unwrap().stack == step_op(
                    op,
                    numbers(m),
                ).unwrap().stack);
            } else if op == OP_TOALTSTACK {
                assert(wide.alt.push(m.stack.last()) =~= base + after.alt);
            } else if op == OP_FROMALTSTACK {
                assert(wide.alt.drop_last() =~= base + after.alt);
            }
        },
        Instr::Data(d) => {},
    }
}

/// A run that ends, ends in the same way with more items at the bottom of
/// the side stack, and leaves them there.
pub proof fn lemma_run_on_side(p: Seq<Instr>, n: nat, base: Seq<Seq<u8>>, m: ByteMachine)
    requires
        n <= p.len(),
        byte_run(p, n, m) is Some,
    ensures
        byte_run(p, n, on_side(base, m)) == Some(on_side(base, byte_run(p, n, m).unwrap())),
    decreases n,
{
    if n == 0 {
    } else {
        lemma_run_on_side(p, (n - 1) as nat, base, m);
        lemma_step_on_side(p[n - 1], base, byte_run(p, (n - 1) as nat, m).unwrap());
    }
}

} // verus!
