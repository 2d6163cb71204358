//! Patches: where in an image a code writes, and what.

use crate::code::{
    all_symbols, decode, lemma_decode_total, lemma_decoded_address_in_bank, spec_decode,
    DecodedCode,
};
use crate::error::ApplyError;
use vstd::prelude::*;

verus! {

/// Size of the header that precedes the first bank of an image file.
pub const HEADER_SIZE: u64 = 0x10;

/// Size of one bank.
pub const BANK_SIZE: u64 = 0x8000;

/// One write to an image.
#[derive(Clone, Copy, Debug, PartialEq, Eq, Structural)]
pub struct Patch {
    /// Offset of the byte in the image file.
    pub offset: u64,
    /// The byte to store there.
    pub value: u8,
}

/// The base offset for the code at position `index` of a list: the header,
/// then one bank for each code before it.
pub open spec fn base_offset_at(index: nat) -> nat {
    (HEADER_SIZE + BANK_SIZE * index) as nat
}

/// The base offset for the code at position `index`, where it fits.
pub fn base_offset(index: usize) -> (base: Option<u64>)
    ensures
        base == if base_offset_at(index as nat) <= u64::MAX {
            Some(base_offset_at(index as nat) as u64)
        } else {
            None
        },
{
    let banks: u128 = BANK_SIZE as u128 * index as u128;
    let base: u128 = HEADER_SIZE as u128 + banks;
    if base <= u64::MAX as u128 {
        Some(base as u64)
    } else {
        None
    }
}

impl DecodedCode {
    /// The offset in the image that this code addresses from `base`.
    pub open spec fn spec_offset(self, base: nat) -> nat {
        base + self.address as nat
    }

    /// The byte that this code stores over `live`, the byte found at its
    /// offset. Without compare byte that is the value. With one it is the value
    /// where `live` equals the compare byte, and `live` itself where it does
    /// not.
    pub open spec fn spec_replacement(self, live: u8) -> u8 {
        match self.compare {
            Some(expected) => if live == expected {
                self.value
            } else {
                live
            },
            None => self.value,
        }
    }

    /// The offset that this code addresses from `base_offset`, where it fits.
    pub fn offset(&self, base_offset: u64) -> (offset: Option<u64>)
        ensures
            offset == if self.spec_offset(base_offset as nat) <= u64::MAX {
                Some(self.spec_offset(base_offset as nat) as u64)
            } else {
                None
            },
    {
        base_offset.checked_add(self.address as u64)
    }

    /// Whether the byte at the offset has to be read before this code can be
    /// applied.
    pub fn reads_image(&self) -> (reads: bool)
        ensures
            reads == self.compare is Some,
    {
        self.compare.is_some()
    }

    /// The byte to store, given the byte `live` that the image holds at the
    /// offset.
    pub fn replacement(&self, live: u8) -> (value: u8)
        ensures
            value == self.spec_replacement(live),
    {
        match self.compare {
            Some(expected) => if live == expected {
                self.value
            } else {
                live
            },
            None => self.value,
        }
    }
}

/// The patch that `code` makes to `image` from `base`. A string that is no
/// code gives its decoding error. A code without compare byte gives its offset
/// and value, and the image is not looked at. A code with compare byte gives
/// its offset and the byte that replaces the one stored there, or `ImageIo`
/// where the image has no byte at that offset. An offset beyond the range of
/// `u64` gives `ImageIo` too.
pub open spec fn spec_patch(code: Seq<char>, image: Seq<u8>, base: nat) -> Result<
    Patch,
    ApplyError,
> {
    match spec_decode(code) {
        Err(e) => Err(ApplyError::Decode(e)),
        Ok(decoded) => {
            let offset = decoded.spec_offset(base);
            if offset > u64::MAX || (decoded.compare is Some && offset >= image.len()) {
                Err(ApplyError::ImageIo)
            } else {
                Ok(
                    Patch {
                        offset: offset as u64,
                        value: decoded.spec_replacement(image[offset as int]),
                    },
                )
            }
        },
    }
}

/// Decodes `code` against `image`: the offset from `base_offset` and the byte
/// to store there. The image is read only for a code with compare byte, and
/// nothing is written.
pub fn parse_nes(code: &str, image: &[u8], base_offset: u64) -> (r: Result<Patch, ApplyError>)
    ensures
        r == spec_patch(code@, image@, base_offset as nat),
{
    let decoded = match decode(code) {
        Ok(decoded) => decoded,
        Err(e) => {
            return Err(ApplyError::Decode(e));
        },
    };
    let offset = match decoded.offset(base_offset) {
        Some(offset) => offset,
        None => {
            return Err(ApplyError::ImageIo);
        },
    };
    if !decoded.reads_image() {
        Ok(Patch { offset, value: decoded.value })
    } else if offset < image.len() as u64 {
        let live = image[offset as usize];
        Ok(Patch { offset, value: decoded.replacement(live) })
    } else {
        Err(ApplyError::ImageIo)
    }
}

/// The first base offset is the size of the header, and each code moves the
/// base offset on by one bank.
pub proof fn lemma_base_offsets(index: nat)
    ensures
        base_offset_at(0) == 0x10,
        base_offset_at(index + 1) == base_offset_at(index) + 0x8000,
{
}

/// A code of six letters gives one patch, whatever the image holds, and the
/// base offset only shifts it: the offset is the decoded address plus the
/// base, the value the decoded value. The base is taken so low that the
/// offset fits in `u64`.
pub proof fn lemma_six_letter_patch(code: Seq<char>, image: Seq<u8>, base: nat)
    requires
        code.len() == 6,
        all_symbols(code),
        base + 0x7fff <= u64::MAX,
    ensures
        spec_decode(code) is Ok,
        spec_patch(code, image, base) == Ok::<Patch, ApplyError>(
            Patch {
                offset: (base + spec_decode(code).unwrap().address) as u64,
                value: spec_decode(code).unwrap().value,
            },
        ),
{
    lemma_decode_total(code);
    lemma_decoded_address_in_bank(code);
}

/// Two patches of one code of six letters differ by what their base offsets
/// differ by, and in nothing else.
pub proof fn lemma_six_letter_shift(
    code: Seq<char>,
    image_a: Seq<u8>,
    base_a: nat,
    image_b: Seq<u8>,
    base_b: nat,
)
    requires
        code.len() == 6,
        all_symbols(code),
        base_a + 0x7fff <= u64::MAX,
        base_b + 0x7fff <= u64::MAX,
    ensures
        spec_patch(code, image_a, base_a) is Ok,
        spec_patch(code, image_b, base_b) is Ok,
        spec_patch(code, image_a, base_a).unwrap().value == spec_patch(
            code,
            image_b,
            base_b,
        ).unwrap().value,
        spec_patch(code, image_a, base_a).unwrap().offset - base_a == spec_patch(
            code,
            image_b,
            base_b,
        ).unwrap().offset - base_b,
{
    lemma_six_letter_patch(code, image_a, base_a);
    lemma_six_letter_patch(code, image_b, base_b);
}

/// A code of eight letters whose offset lies in the image gives one patch, at
/// the decoded address plus the base. Where the image holds the compare byte
/// there, the patch stores the decoded value. Where it holds another byte, the
/// patch stores that byte again, and writing it leaves the image as it was.
pub proof fn lemma_eight_letter_patch(code: Seq<char>, image: Seq<u8>, base: nat)
    requires
        code.len() == 8,
        all_symbols(code),
        base + spec_decode(code).unwrap().address < image.len() <= u64::MAX,
    ensures
        spec_decode(code) is Ok,
        spec_decode(code).unwrap().compare is Some,
        ({
            let decoded = spec_decode(code).unwrap();
            let offset = base + decoded.address;
            let live = image[offset];
            let patch = spec_patch(code, image, base);
            &&& patch is Ok
            &&& patch.unwrap().offset == offset
            &&& live == decoded.compare.unwrap() ==> patch.unwrap().value == decoded.value
            &&& live != decoded.compare.unwrap() ==> patch.unwrap().value == live
            &&& live != decoded.compare.unwrap() ==> image.update(offset, patch.unwrap().value)
                == image
        }),
{
    lemma_decode_total(code);
    let decoded = spec_decode(code).unwrap();
    let offset = base + decoded.address;
    assert(image.update(offset, image[offset]) =~= image);
}

/// Applying a code a second time from the same base changes nothing: once its
/// patch has been written, the code gives a patch at the same offset that
/// stores the byte already there.
pub proof fn lemma_reapply_is_noop(code: Seq<char>, image: Seq<u8>, base: nat)
    requires
        spec_patch(code, image, base) is Ok,
        spec_patch(code, image, base).unwrap().offset < image.len(),
    ensures
        ({
            let first = spec_patch(code, image, base).unwrap();
            let after = image.update(first.offset as int, first.value);
            let second = spec_patch(code, after, base);
            &&& second is Ok
            &&& second.unwrap().offset == first.offset
            &&& second.unwrap().value == after[first.offset as int]
            &&& after.update(second.unwrap().offset as int, second.unwrap().value) == after
        }),
{
    let first = spec_patch(code, image, base).unwrap();
    let after = image.update(first.offset as int, first.value);
    assert(after.update(first.offset as int, after[first.offset as int]) =~= after);
}

/// Codes at different positions of a list write to different banks: the
/// offset of the earlier one lies below the offset of the later one, whatever
/// the two codes are.
pub proof fn lemma_banks_apart(earlier: Seq<char>, i: nat, later: Seq<char>, j: nat)
    requires
        i < j,
        spec_decode(earlier) is Ok,
        spec_decode(later) is Ok,
    ensures
        base_offset_at(i) <= spec_decode(earlier).unwrap().spec_offset(base_offset_at(i))
            < base_offset_at(i + 1) <= base_offset_at(j) <= spec_decode(later).unwrap().spec_offset(
            base_offset_at(j),
        ),
        spec_decode(earlier).unwrap().address == spec_decode(later).unwrap().address
            ==> spec_decode(later).unwrap().spec_offset(base_offset_at(j)) - spec_decode(
            earlier,
        ).unwrap().spec_offset(base_offset_at(i)) == 0x8000 * (j - i),
{
    lemma_decoded_address_in_bank(earlier);
    lemma_decoded_address_in_bank(later);
    assert(0x8000 * (i + 1) <= 0x8000 * j) by (nonlinear_arith)
        requires
            i + 1 <= j,
    ;
    assert(0x8000 * j - 0x8000 * i == 0x8000 * (j - i)) by (nonlinear_arith);
}

} // verus!
