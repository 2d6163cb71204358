//! Nibble sets: a code, letter by letter, as four-bit values, and the fixed
//! interleaving that turns those values into address, value and compare
//! nibbles.

use vstd::prelude::*;

verus! {

/// The nibbles of a code: six for a code without compare byte, eight for one
/// with it.
#[derive(Clone, Copy, Debug, PartialEq, Eq)]
pub enum NibbleSet {
    /// The nibbles of a code of six letters.
    Six([u8; 6]),
    /// The nibbles of a code of eight letters.
    Eight([u8; 8]),
}

impl View for NibbleSet {
    type V = Seq<u8>;

    open spec fn view(&self) -> Seq<u8> {
        match *self {
            NibbleSet::Six(d) => d@,
            NibbleSet::Eight(d) => d@,
        }
    }
}

/// The interleaving of six nibbles.
pub open spec fn rearrange_six(d: Seq<u8>) -> Seq<u8> {
    seq![
        d[3] & 0x7,
        (d[5] & 0x7) | (d[4] & 0x8),
        (d[2] & 0x7) | (d[1] & 0x8),
        (d[4] & 0x7) | (d[3] & 0x8),
        (d[1] & 0x7) | (d[0] & 0x8),
        (d[0] & 0x7) | (d[5] & 0x8),
    ]
}

/// The interleaving of eight nibbles.
pub open spec fn rearrange_eight(d: Seq<u8>) -> Seq<u8> {
    seq![
        d[3] & 0x7,
        (d[5] & 0x7) | (d[4] & 0x8),
        (d[2] & 0x7) | (d[1] & 0x8),
        (d[4] & 0x7) | (d[3] & 0x8),
        (d[1] & 0x7) | (d[0] & 0x8),
        (d[0] & 0x7) | (d[7] & 0x8),
        (d[7] & 0x7) | (d[6] & 0x8),
        (d[6] & 0x7) | (d[5] & 0x8),
    ]
}

/// The interleaving of a nibble sequence of either length.
pub open spec fn rearrange(d: Seq<u8>) -> Seq<u8> {
    if d.len() == 6 {
        rearrange_six(d)
    } else {
        rearrange_eight(d)
    }
}

/// The byte whose high nibble is `hi` and whose low nibble is `lo`.
pub open spec fn byte_of(hi: u8, lo: u8) -> u8 {
    (hi << 4) | lo
}

/// The sixteen-bit address that the first four rearranged nibbles spell, most
/// significant nibble first.
pub open spec fn address_of(r: Seq<u8>) -> u16 {
    ((r[0] as u16) << 12) | ((r[1] as u16) << 8) | ((r[2] as u16) << 4) | (r[3] as u16)
}

/// Rearranging keeps the number of nibbles, yields four-bit values whatever
/// it is given, and leaves the top bit of the first nibble clear.
pub proof fn lemma_rearrange_bounds(d: Seq<u8>)
    requires
        d.len() == 6 || d.len() == 8,
    ensures
        rearrange(d).len() == d.len(),
        forall|i: int| 0 <= i < d.len() ==> #[trigger] rearrange(d)[i] < 16,
        rearrange(d)[0] < 8,
{
    assert(forall|a: u8| #[trigger] (a & 0x7) < 8) by (bit_vector);
    assert(forall|a: u8, b: u8| #[trigger] ((a & 0x7) | (b & 0x8)) < 16) by (bit_vector);
}

/// The address of four four-bit values, read as a number in base sixteen.
pub proof fn lemma_address_of(r: Seq<u8>)
    requires
        r.len() >= 4,
        forall|i: int| 0 <= i < 4 ==> #[trigger] r[i] < 16,
    ensures
        address_of(r) == 4096 * r[0] + 256 * r[1] + 16 * r[2] + r[3],
{
    let a = r[0];
    let b = r[1];
    let c = r[2];
    let d = r[3];
    assert(a < 16 && b < 16 && c < 16 && d < 16 ==> (((a as u16) << 12) | ((b as u16) << 8)
        | ((c as u16) << 4) | (d as u16)) == 4096 * a + 256 * b + 16 * c + d) by (bit_vector);
}

impl NibbleSet {
    /// The rearranged nibble set of this one.
    pub fn rearranged(&self) -> (r: NibbleSet)
        ensures
            r@ == rearrange(self@),
            r is Six <==> self is Six,
    {
        match self {
            NibbleSet::Six(d) => {
                let r: [u8; 6] = [
                    d[3] & 0x7,
                    (d[5] & 0x7) | (d[4] & 0x8),
                    (d[2] & 0x7) | (d[1] & 0x8),
                    (d[4] & 0x7) | (d[3] & 0x8),
                    (d[1] & 0x7) | (d[0] & 0x8),
                    (d[0] & 0x7) | (d[5] & 0x8),
                ];
                assert(r@ =~= rearrange_six(d@));
                NibbleSet::Six(r)
            },
            NibbleSet::Eight(d) => {
                let r: [u8; 8] = [
                    d[3] & 0x7,
                    (d[5] & 0x7) | (d[4] & 0x8),
                    (d[2] & 0x7) | (d[1] & 0x8),
                    (d[4] & 0x7) | (d[3] & 0x8),
                    (d[1] & 0x7) | (d[0] & 0x8),
                    (d[0] & 0x7) | (d[7] & 0x8),
                    (d[7] & 0x7) | (d[6] & 0x8),
                    (d[6] & 0x7) | (d[5] & 0x8),
                ];
                assert(r@ =~= rearrange_eight(d@));
                NibbleSet::Eight(r)
            },
        }
    }

    /// The address that the first four nibbles spell.
    pub fn address(&self) -> (a: u16)
        ensures
            a == address_of(self@),
    {
        let (r0, r1, r2, r3) = match self {
            NibbleSet::Six(r) => (r[0], r[1], r[2], r[3]),
            NibbleSet::Eight(r) => (r[0], r[1], r[2], r[3]),
        };
        ((r0 as u16) << 12) | ((r1 as u16) << 8) | ((r2 as u16) << 4) | (r3 as u16)
    }

    /// The byte that the fifth and sixth nibble spell.
    pub fn value(&self) -> (v: u8)
        ensures
            v == byte_of(self@[4], self@[5]),
    {
        match self {
            NibbleSet::Six(r) => (r[4] << 4) | r[5],
            NibbleSet::Eight(r) => (r[4] << 4) | r[5],
        }
    }

    /// The byte that the seventh and eighth nibble spell, where there are
    /// eight.
    pub fn compare(&self) -> (c: Option<u8>)
        ensures
            c == if self@.len() == 8 {
                Some(byte_of(self@[6], self@[7]))
            } else {
                None
            },
    {
        match self {
            NibbleSet::Six(_) => None,
            NibbleSet::Eight(r) => Some((r[6] << 4) | r[7]),
        }
    }
}

} // verus!
