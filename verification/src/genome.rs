//! Genomes and genders.
//!
//! A genome is a fixed 16-byte trait encoding. Fresh genomes and genders come
//! from entropy that the caller draws from its randomness source; this module
//! holds the pure logic on those bytes: gender selection by parity, and the
//! per-bit mixing of two parent genomes under a random mask.

use vstd::prelude::*;

verus! {

/// The gender assigned to an item at creation; immutable afterwards.
#[derive(Clone, Copy, PartialEq, Eq, Structural, Debug)]
pub enum Gender {
    Male,
    Female,
}

/// The gender selected by an entropy byte: even selects `Male`, odd `Female`.
pub open spec fn spec_gender_of(entropy: u8) -> Gender {
    if entropy % 2 == 0 {
        Gender::Male
    } else {
        Gender::Female
    }
}

/// Selects a gender from one fresh entropy byte, by its parity.
pub fn gen_gender(entropy: u8) -> (g: Gender)
    ensures
        g == spec_gender_of(entropy),
{
    if entropy % 2 == 0 {
        Gender::Male
    } else {
        Gender::Female
    }
}

/// One byte of the child genome: each bit of the mask `r` selects the
/// corresponding bit of parent `a` (mask bit set) or of parent `b` (clear).
pub open spec fn spec_combine_byte(r: u8, a: u8, b: u8) -> u8 {
    (r & a) | (!r & b)
}

/// The whole child genome under mask `r`, byte by byte.
pub open spec fn spec_combine(r: Seq<u8>, a: Seq<u8>, b: Seq<u8>) -> Seq<u8> {
    Seq::new(r.len(), |i: int| spec_combine_byte(r[i], a[i], b[i]))
}

fn combine_byte(r: u8, a: u8, b: u8) -> (c: u8)
    ensures
        c == spec_combine_byte(r, a, b),
{
    (r & a) | (!r & b)
}

/// Mixes two parent genomes under a random mask: for each bit position, the
/// mask bit picks the allele of parent `a` or of parent `b`.
pub fn combine(r: &[u8; 16], a: &[u8; 16], b: &[u8; 16]) -> (c: [u8; 16])
    ensures
        c@ == spec_combine(r@, a@, b@),
{
    let mut out: [u8; 16] = [0u8; 16];
    let mut i: usize = 0;
    while i < 16
        invariant
            i <= 16,
            out@.len() == 16,
            forall|j: int| 0 <= j < i ==> out@[j] == spec_combine_byte(r@[j], a@[j], b@[j]),
        decreases 16 - i,
    {
        out[i] = combine_byte(r[i], a[i], b[i]);
        i = i + 1;
    }
    proof {
        assert(out@ =~= spec_combine(r@, a@, b@));
    }
    out
}

/// Whether bit `i` of byte `v` is set.
pub open spec fn byte_bit(v: u8, i: u32) -> bool {
    (v >> i) & 1 == 1
}

/// Each bit of a combined byte is the corresponding bit of parent `a` when the
/// mask bit is set, and of parent `b` when it is clear.
pub proof fn lemma_combine_byte_selects(r: u8, a: u8, b: u8)
    ensures
        forall|i: u32|
            i < 8 ==> #[trigger] byte_bit(spec_combine_byte(r, a, b), i) == if byte_bit(r, i) {
                byte_bit(a, i)
            } else {
                byte_bit(b, i)
            },
{
    assert forall|i: u32| i < 8 implies #[trigger] byte_bit(spec_combine_byte(r, a, b), i) == if byte_bit(
        r,
        i,
    ) {
        byte_bit(a, i)
    } else {
        byte_bit(b, i)
    } by {
        assert((((r & a) | (!r & b)) >> i) & 1 == if (r >> i) & 1 == 1 {
            (a >> i) & 1
        } else {
            (b >> i) & 1
        }) by (bit_vector)
            requires
                i < 8,
        ;
    }
}

/// A combined genome draws every bit from one of the two parents: at each byte
/// and bit position, the child's bit equals parent `a`'s or parent `b`'s bit,
/// so no bit absent from both parents can appear.
pub proof fn lemma_combine_mixes_bits(r: Seq<u8>, a: Seq<u8>, b: Seq<u8>)
    requires
        a.len() == r.len(),
        b.len() == r.len(),
    ensures
        forall|j: int, i: u32|
            0 <= j < r.len() && i < 8 ==> #[trigger] byte_bit(spec_combine(r, a, b)[j], i)
                == byte_bit(a[j], i) || byte_bit(spec_combine(r, a, b)[j], i) == byte_bit(b[j], i),
{
    assert forall|j: int, i: u32|
        0 <= j < r.len() && i < 8 implies #[trigger] byte_bit(spec_combine(r, a, b)[j], i)
        == byte_bit(a[j], i) || byte_bit(spec_combine(r, a, b)[j], i) == byte_bit(b[j], i) by {
        lemma_combine_byte_selects(r[j], a[j], b[j]);
    }
}

} // verus!
