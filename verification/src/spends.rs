//! Spends: what the machine does when the pushes of an unlocking script
//! have run on empty stacks and the stored program runs on what they left.

use vstd::prelude::*;
use crate::byte_machine::{byte_run, byte_run_script, ByteMachine};
use crate::field::{
    canonical_repr, le_value, lemma_modulus_below_two_255, lemma_top_bit_clear, lemma_value_of_repr,
    pallas_modulus,
};
use crate::field_script::{standard_blob, witness_locking_script, witness_unlocking_script};
use crate::fusion::{permute_fused_rounds, standard_permutation};
use crate::hashing::{ripemd160_digest, sha256_digest};
use crate::machine::{
    encode, lemma_le_value_push_zero, lemma_parse_encode, plain, script_num_value, Instr,
};
use crate::opcodes::{push_bytes_spec, OP_CHECKSIG};
use crate::poseidon::Triple;
use crate::script_laws::law_blob_layout;
use crate::script_runs::{
    law_contract_locking_script, law_standard_blob, law_witness_locking_script,
    lemma_contract_program, prog_contract, record_state,
};
use crate::transcript::FieldElement;
use crate::verifier_contract::{
    contract_locking_script, contract_unlocking_script, push_all, u32_le, IPAAccumulator,
    IPAStepWitness, VerifierContract,
};

verus! {

/// One data push for each item.
pub open spec fn prog_pushes(items: Seq<Seq<u8>>) -> Seq<Instr> {
    Seq::new(items.len(), |i: int| Instr::Data(items[i]))
}

/// The bytes of one data push for each item.
pub open spec fn pushes_bytes(items: Seq<Seq<u8>>) -> Seq<u8>
    decreases items.len(),
{
    if items.len() == 0 {
        Seq::<u8>::empty()
    } else {
        pushes_bytes(items.drop_last()) + push_bytes_spec(items.last())
    }
}

/// Every item can be pushed as data: none is empty or too long for a
/// length field.
pub open spec fn pushable(items: Seq<Seq<u8>>) -> bool {
    forall|i: int| 0 <= i < items.len() ==> 1 <= (#[trigger] items[i]).len() <= 0xffff_ffff
}

/// The byte strings of field elements.
pub open spec fn items_of(elems: Seq<FieldElement>) -> Seq<Seq<u8>> {
    Seq::new(elems.len(), |i: int| elems[i]@)
}

/// The machine with nothing on either stack.
pub open spec fn empty_machine() -> ByteMachine {
    ByteMachine { stack: Seq::<Seq<u8>>::empty(), alt: Seq::<Seq<u8>>::empty() }
}

/// A spend: the unlocking script runs on empty stacks, the stored program
/// on what it leaves.
pub open spec fn spend_run(unlocking: Seq<u8>, locking: Seq<u8>) -> Option<ByteMachine> {
    match byte_run_script(unlocking, empty_machine()) {
        Some(m) => byte_run_script(locking, m),
        None => None,
    }
}

proof fn lemma_pushes_shape(items: Seq<Seq<u8>>)
    requires
        pushable(items),
    ensures
        plain(prog_pushes(items)),
        encode(prog_pushes(items)) == pushes_bytes(items),
    decreases items.len(),
{
    if items.len() > 0 {
        let before = items.drop_last();
        assert(pushable(before)) by {
            assert forall|i: int| 0 <= i < before.len() implies 1 <= (#[trigger] before[i]).len()
                <= 0xffff_ffff by {
                assert(before[i] == items[i]);
            }
        }
        lemma_pushes_shape(before);
        assert(prog_pushes(items).drop_last() =~= prog_pushes(before));
        assert(items.last() == items[items.len() - 1]);
    }
    assert forall|k: int| 0 <= k < items.len() implies crate::machine::plain_instr(
        #[trigger] prog_pushes(items)[k],
    ) by {
        assert(1 <= items[k].len() <= 0xffff_ffff);
    }
}

proof fn lemma_pushes_concat(a: Seq<Seq<u8>>, b: Seq<Seq<u8>>)
    ensures
        pushes_bytes(a + b) == pushes_bytes(a) + pushes_bytes(b),
    decreases b.len(),
{
    if b.len() == 0 {
        assert(a + b =~= a);
        assert(pushes_bytes(a) + pushes_bytes(b) =~= pushes_bytes(a));
    } else {
        lemma_pushes_concat(a, b.drop_last());
        assert((a + b).drop_last() =~= a + b.drop_last());
        assert((a + b).last() == b.last());
        assert(pushes_bytes(a + b) =~= pushes_bytes(a) + pushes_bytes(b));
    }
}

proof fn lemma_pushes_of_elements(elems: Seq<FieldElement>)
    ensures
        pushable(items_of(elems)),
        pushes_bytes(items_of(elems)) == push_all(elems),
    decreases elems.len(),
{
    if elems.len() > 0 {
        lemma_pushes_of_elements(elems.drop_last());
        assert(items_of(elems).drop_last() =~= items_of(elems.drop_last()));
    }
}

proof fn lemma_pushes_run(items: Seq<Seq<u8>>, n: nat, m: ByteMachine)
    requires
        n <= items.len(),
    ensures
        byte_run(prog_pushes(items), n, m) == Some(
            ByteMachine { stack: m.stack + items.take(n as int), alt: m.alt },
        ),
    decreases n,
{
    if n == 0 {
        assert(m.stack + items.take(0) =~= m.stack);
    } else {
        lemma_pushes_run(items, (n - 1) as nat, m);
        assert((m.stack + items.take(n - 1)).push(items[n - 1]) =~= m.stack + items.take(
            n as int,
        ));
    }
}

/// The bytes of pushes run as pushes: on empty stacks they leave the
/// items.
proof fn lemma_pushes_script(items: Seq<Seq<u8>>)
    requires
        pushable(items),
    ensures
        byte_run_script(pushes_bytes(items), empty_machine()) == Some(
            ByteMachine { stack: items, alt: Seq::<Seq<u8>>::empty() },
        ),
{
    lemma_pushes_shape(items);
    lemma_parse_encode(prog_pushes(items));
    lemma_pushes_run(items, items.len(), empty_machine());
    assert(empty_machine().stack + items.take(items.len() as int) =~= items);
}

/// A field element below the modulus is the number that its 32 bytes
/// spell on the machine.
proof fn lemma_element_item(v: nat)
    requires
        v < pallas_modulus(),
    ensures
        canonical_repr(v).len() == 32,
        script_num_value(canonical_repr(v)) == v,
{
    lemma_modulus_below_two_255();
    lemma_value_of_repr(v);
    lemma_top_bit_clear(canonical_repr(v));
}

/// The first element of a permuted state is a field element.
pub proof fn lemma_hash_canonical(s: Triple)
    ensures
        standard_permutation(s).x0 < pallas_modulus(),
{
    lemma_modulus_below_two_255();
    reveal_with_fuel(permute_fused_rounds, 1);
}

/// A spend of the witness pattern: the unlocking script for a state and
/// an expected output of field elements, on the stored program for the
/// commitment `hash`, runs to the end exactly when `hash` is the digest of
/// the standard blob and the expected output is the first element of the
/// permuted state.
pub proof fn law_witness_spend(hash: Seq<u8>, s: Triple, expected: nat)
    requires
        hash.len() == 32,
        s.x0 < pallas_modulus(),
        s.x1 < pallas_modulus(),
        s.x2 < pallas_modulus(),
        expected < pallas_modulus(),
    ensures
        spend_run(
            witness_unlocking_script(standard_blob(), s, expected),
            witness_locking_script(hash),
        ) is Some <==> (sha256_digest(standard_blob()) == hash && standard_permutation(s).x0
            == expected),
{
    let blob = standard_blob();
    let a0 = canonical_repr(s.x0);
    let a1 = canonical_repr(s.x1);
    let a2 = canonical_repr(s.x2);
    let e = canonical_repr(expected);
    let none = Seq::<Seq<u8>>::empty();
    let items = none.push(blob).push(a0).push(a1).push(a2).push(e);
    law_blob_layout();
    lemma_element_item(s.x0);
    lemma_element_item(s.x1);
    lemma_element_item(s.x2);
    lemma_element_item(expected);
    reveal_with_fuel(pushes_bytes, 6);
    assert(items.drop_last() =~= none.push(blob).push(a0).push(a1).push(a2));
    assert(items.drop_last().drop_last() =~= none.push(blob).push(a0).push(a1));
    assert(items.drop_last().drop_last().drop_last() =~= none.push(blob).push(a0));
    assert(items.drop_last().drop_last().drop_last().drop_last() =~= none.push(blob));
    assert(none.push(blob).drop_last() =~= none);
    assert(pushes_bytes(items) =~= witness_unlocking_script(blob, s, expected));
    lemma_pushes_script(items);
    let m = ByteMachine { stack: items, alt: none };
    law_standard_blob(s);
    law_witness_locking_script(hash, none, blob, a0, a1, a2, e, m);
}

/// The record of an accumulator with canonical values opens into the
/// three numbers that its commitment hashes: the permuted record state
/// starts with the commitment.
pub proof fn lemma_own_record(acc: IPAAccumulator)
    requires
        acc.wf(),
    ensures
        acc.record().len() == 68,
        script_num_value(acc.record().subrange(0, 32)) >= 0,
        script_num_value(acc.record().subrange(32, 64)) >= 0,
        standard_permutation(record_state(acc.record())).x0 == acc.commitment(),
{
    let r = acc.record();
    let count = u32_le(acc.step);
    acc.lemma_record_round_trip();
    lemma_modulus_below_two_255();
    lemma_top_bit_clear(acc.transcript_hash@);
    lemma_top_bit_clear(acc.app_state_root@);
    assert(r.subrange(64, 68) =~= count);
    lemma_le_value_push_zero(count);
    assert(le_value(count) == acc.step) by {
        let c1 = count.skip(1);
        let c2 = c1.skip(1);
        let c3 = c2.skip(1);
        assert(c3.skip(1).len() == 0);
        assert(le_value(c3.skip(1)) == 0);
        assert(le_value(c3) == count[3]);
        assert(le_value(c2) == count[2] + 256 * le_value(c3));
        assert(le_value(c1) == count[1] + 256 * le_value(c2));
        assert(le_value(count) == count[0] + 256 * le_value(c1));
    }
    assert((count + seq![0x00u8]) =~= count.push(0x00u8));
}

/// The unlocking script of the contract with signature and key is one
/// push for each item: blob, record, the fields, signature, key.
proof fn lemma_contract_unlocking_items(
    blob: Seq<u8>,
    record: Seq<u8>,
    w: IPAStepWitness,
    sig: Seq<u8>,
    key: Seq<u8>,
)
    requires
        1 <= blob.len() <= 0xffff_ffff,
        1 <= record.len() <= 0xffff_ffff,
        1 <= sig.len() <= 0xffff_ffff,
        1 <= key.len() <= 0xffff_ffff,
    ensures
        pushable(seq![blob, record] + items_of(w.fields()) + seq![sig, key]),
        pushes_bytes(seq![blob, record] + items_of(w.fields()) + seq![sig, key])
            == contract_unlocking_script(blob, record, w) + push_bytes_spec(sig) + push_bytes_spec(
            key,
        ),
{
    let fields = items_of(w.fields());
    let first = seq![blob, record];
    let last = seq![sig, key];
    let items = first + fields + last;
    lemma_pushes_of_elements(w.fields());
    lemma_pushes_concat(first + fields, last);
    lemma_pushes_concat(first, fields);
    lemma_pushes_pair(blob, record);
    lemma_pushes_pair(sig, key);
    assert(pushes_bytes(first) + push_all(w.fields()) + (push_bytes_spec(sig) + push_bytes_spec(
        key,
    )) =~= contract_unlocking_script(blob, record, w) + push_bytes_spec(sig) + push_bytes_spec(
        key,
    ));
    assert forall|i: int| 0 <= i < items.len() implies 1 <= (#[trigger] items[i]).len()
        <= 0xffff_ffff by {
        if i < 2 {
            assert(items[i] == first[i]);
        } else if i < 2 + fields.len() {
            assert(items[i] == fields[i - 2]);
        } else {
            assert(items[i] == last[i - 2 - fields.len()]);
        }
    }
}

/// The bytes of two pushes.
proof fn lemma_pushes_pair(a: Seq<u8>, b: Seq<u8>)
    ensures
        pushes_bytes(seq![a, b]) == push_bytes_spec(a) + push_bytes_spec(b),
{
    reveal_with_fuel(pushes_bytes, 3);
    assert(seq![a, b].drop_last() =~= seq![a]);
    assert(seq![a].drop_last() =~= Seq::<Seq<u8>>::empty());
    assert(pushes_bytes(seq![a, b]) =~= push_bytes_spec(a) + push_bytes_spec(b));
}

/// A spend of the contract, up to the signature check: the unlocking
/// script with a record whose two elements spell numbers that are not
/// negative, the fields of a witness, a signature and a key, on the stored
/// program that commits to `constants_hash`, to the state of `acc` and to
/// the operator's key hash. It runs to the end exactly when
/// the constants hash is the digest of the standard blob, the record
/// hashes to the commitment of `acc`, and the hash of the key is the
/// operator's key hash. However many fields the witness has, the stored
/// program finds blob and record below them.
pub proof fn law_contract_spend(
    acc: IPAAccumulator,
    record: Seq<u8>,
    w: IPAStepWitness,
    constants_hash: Seq<u8>,
    operator_pkh: Seq<u8>,
    sig: Seq<u8>,
    key: Seq<u8>,
)
    requires
        constants_hash.len() == 32,
        operator_pkh.len() == 20,
        record.len() == 68,
        script_num_value(record.subrange(0, 32)) >= 0,
        script_num_value(record.subrange(32, 64)) >= 0,
        1 <= sig.len() <= 0xffff_ffff,
        1 <= key.len() <= 0xffff_ffff,
    ensures
        spend_run(
            contract_unlocking_script(standard_blob(), record, w) + push_bytes_spec(sig)
                + push_bytes_spec(key),
            encode(
                prog_contract(constants_hash, canonical_repr(acc.commitment()), operator_pkh),
            ),
        ) is Some <==> (sha256_digest(standard_blob()) == constants_hash && standard_permutation(
            record_state(record),
        ).x0 == acc.commitment() && ripemd160_digest(sha256_digest(key)) == operator_pkh),
{
    let blob = standard_blob();
    let fields = items_of(w.fields());
    let items = seq![blob, record] + fields + seq![sig, key];
    let state_hash = canonical_repr(acc.commitment());
    law_blob_layout();
    lemma_hash_canonical(
        Triple {
            x0: le_value(acc.transcript_hash@),
            x1: le_value(acc.app_state_root@),
            x2: acc.step as nat,
        },
    );
    lemma_element_item(acc.commitment());
    lemma_contract_unlocking_items(blob, record, w, sig, key);
    lemma_pushes_script(items);
    law_standard_blob(record_state(record));
    let m = ByteMachine { stack: items, alt: Seq::<Seq<u8>>::empty() };
    law_contract_locking_script(
        constants_hash,
        state_hash,
        operator_pkh,
        blob,
        record,
        fields,
        sig,
        key,
        m,
    );
}

/// The stored program of a contract without its last byte, the signature
/// check.
pub open spec fn contract_checks_script(c: VerifierContract) -> Seq<u8> {
    contract_locking_script(
        c.constants_hash@,
        canonical_repr(c.current_state.commitment()),
        c.operator_pkh@,
    ).drop_last()
}

/// Locking and unlocking fit: what a contract unlocks with, for whatever
/// witness, followed by a signature and a key, runs on the stored program
/// of that contract to the signature check exactly when the hash of the
/// key is the operator's key hash.
pub proof fn law_contract_fits(c: VerifierContract, w: IPAStepWitness, sig: Seq<u8>, key: Seq<u8>)
    requires
        c.wf(),
        1 <= sig.len() <= 0xffff_ffff,
        1 <= key.len() <= 0xffff_ffff,
    ensures
        spend_run(
            contract_unlocking_script(standard_blob(), c.current_state.record(), w)
                + push_bytes_spec(sig) + push_bytes_spec(key),
            contract_checks_script(c),
        ) is Some <==> ripemd160_digest(sha256_digest(key)) == c.operator_pkh@,
{
    let acc = c.current_state;
    let state_hash = canonical_repr(acc.commitment());
    let whole = prog_contract(c.constants_hash@, state_hash, c.operator_pkh@);
    lemma_own_record(acc);
    law_contract_spend(acc, acc.record(), w, c.constants_hash@, c.operator_pkh@, sig, key);
    lemma_contract_program(c.constants_hash@, state_hash, c.operator_pkh@);
    assert((encode(whole) + seq![OP_CHECKSIG]).drop_last() =~= encode(whole));
}

} // verus!
