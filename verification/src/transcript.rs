//! The running transcript: decoding what is absorbed and folding it into
//! the digest.

use vstd::prelude::*;
use crate::field::{is_canonical, le_value, Fp};
use crate::poseidon::{absorb_all, values_of, PoseidonHash};

verus! {

/// The 32-byte encoding of a field-sized value, as it arrives from outside.
pub type FieldElement = [u8; 32];

/// Every string of the list is a canonical encoding.
pub open spec fn all_canonical(elems: Seq<FieldElement>) -> bool {
    forall|i: int| 0 <= i < elems.len() ==> is_canonical(#[trigger] elems[i]@)
}

/// The numbers that the strings of the list spell.
pub open spec fn values(elems: Seq<FieldElement>) -> Seq<nat> {
    Seq::new(elems.len(), |i: int| le_value(elems[i]@))
}

/// The digest of a transcript that starts from `seed` and absorbs `elems`
/// in order; none when the seed or any absorbed string is not canonical.
pub open spec fn transcript_digest(seed: FieldElement, elems: Seq<FieldElement>) -> Option<nat> {
    if is_canonical(seed@) && all_canonical(elems) {
        Some(absorb_all(le_value(seed@), values(elems)))
    } else {
        None
    }
}

/// Copies 32 bytes from `bytes` at `offset`.
pub(crate) fn read_field(bytes: &[u8], offset: usize) -> (r: FieldElement)
    requires
        offset + 32 <= bytes@.len(),
    ensures
        r@ == bytes@.subrange(offset as int, offset + 32),
{
    let mut r: FieldElement = [0u8; 32];
    let n: usize = bytes.len();
    let mut i: usize = 0;
    while i < 32
        invariant
            0 <= i <= 32,
            n == bytes@.len(),
            offset + 32 <= n,
            forall|j: int| 0 <= j < i ==> r@[j] == bytes@[offset + j],
        decreases 32 - i,
    {
        r[i] = bytes[offset + i];
        i += 1;
    }
    assert(r@ =~= bytes@.subrange(offset as int, offset + 32));
    r
}

/// Decodes every string of the list; none as soon as one is not canonical.
pub fn decode_all(elems: &[FieldElement]) -> (r: Option<Vec<Fp>>)
    ensures
        r is Some <==> all_canonical(elems@),
        r is Some ==> values_of(r.unwrap()@) == values(elems@),
{
    let mut out: Vec<Fp> = Vec::new();
    let mut i: usize = 0;
    while i < elems.len()
        invariant
            0 <= i <= elems.len(),
            out@.len() == i,
            forall|j: int| 0 <= j < i ==> is_canonical(#[trigger] elems@[j]@),
            forall|j: int| 0 <= j < i ==> (#[trigger] out@[j]).value() == le_value(elems@[j]@),
        decreases elems.len() - i,
    {
        match Fp::from_repr(&elems[i]) {
            Some(x) => {
                out.push(x);
            },
            None => {
                return None;
            },
        }
        i += 1;
    }
    assert(values_of(out@) =~= values(elems@));
    Some(out)
}

/// The digest of a transcript that starts from `seed` and absorbs `elems`;
/// `None` when the seed or an absorbed string is not canonical.
pub fn absorb_sequence(seed: &FieldElement, elems: &[FieldElement]) -> (r: Option<Fp>)
    ensures
        r is Some <==> transcript_digest(*seed, elems@) is Some,
        r is Some ==> Some(r.unwrap().value()) == transcript_digest(*seed, elems@),
{
    let start = match Fp::from_repr(seed) {
        Some(x) => x,
        None => {
            return None;
        },
    };
    let decoded = match decode_all(elems) {
        Some(v) => v,
        None => {
            return None;
        },
    };
    let mut inputs: Vec<Fp> = Vec::new();
    inputs.push(start);
    let mut rest = decoded;
    let ghost tail = rest@;
    inputs.append(&mut rest);
    proof {
        assert(inputs@ =~= seq![start] + tail);
        assert(values_of(inputs@).skip(1) =~= values(elems@));
        assert(values_of(inputs@)[0] == le_value(seed@));
    }
    Some(PoseidonHash::hash_many(inputs.as_slice()))
}

} // verus!
