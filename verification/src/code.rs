//! Decoding one code into address, value and compare byte.

use crate::alphabet::{is_symbol, lemma_symbol_value_range, lookup, symbol_value};
use crate::nibbles::{
    address_of, byte_of, lemma_address_of, lemma_rearrange_bounds, rearrange, NibbleSet,
};
use vstd::prelude::*;
use vstd::string::*;

verus! {

/// Why a string is not a code.
#[derive(Clone, Copy, Debug, PartialEq, Eq, Structural)]
pub enum DecodeError {
    /// The string has neither six nor eight characters.
    InvalidLength,
    /// The string has six or eight characters, and one of them is no letter
    /// of the alphabet.
    InvalidCharacter,
}

/// What a code says, before any image is looked at.
#[derive(Clone, Copy, Debug, PartialEq, Eq, Structural)]
pub struct DecodedCode {
    /// Address inside a bank.
    pub address: u16,
    /// The byte to store at the address.
    pub value: u8,
    /// For a code of eight letters, the byte that must be stored at the
    /// address for the value to replace it.
    pub compare: Option<u8>,
}

/// The texts of a list of codes.
pub open spec fn code_texts(codes: Seq<&str>) -> Seq<Seq<char>> {
    codes.map_values(|code: &str| code@)
}

/// Whether every character of `code` is a letter of the alphabet.
pub open spec fn all_symbols(code: Seq<char>) -> bool {
    forall|i: int| 0 <= i < code.len() ==> is_symbol(#[trigger] code[i])
}

/// The error that decoding `code` ends in, if it does. The length is judged
/// first.
pub open spec fn decode_error(code: Seq<char>) -> Option<DecodeError> {
    if code.len() != 6 && code.len() != 8 {
        Some(DecodeError::InvalidLength)
    } else if !all_symbols(code) {
        Some(DecodeError::InvalidCharacter)
    } else {
        None
    }
}

/// The nibbles of `code`, letter by letter in the order of the code.
pub open spec fn nibbles_of(code: Seq<char>) -> Seq<u8> {
    Seq::new(code.len(), |i: int| symbol_value(code[i]).unwrap())
}

/// Address, value and compare byte as the rearranged nibbles `r` spell them.
pub open spec fn assemble(r: Seq<u8>) -> DecodedCode {
    DecodedCode {
        address: address_of(r),
        value: byte_of(r[4], r[5]),
        compare: if r.len() == 8 {
            Some(byte_of(r[6], r[7]))
        } else {
            None
        },
    }
}

/// What decoding `code` gives.
pub open spec fn spec_decode(code: Seq<char>) -> Result<DecodedCode, DecodeError> {
    match decode_error(code) {
        Some(e) => Err(e),
        None => Ok(assemble(rearrange(nibbles_of(code)))),
    }
}

/// The nibbles of a code of `N` characters, or the error for a character
/// outside the alphabet.
fn letters_to_nibbles<const N: usize>(code: &str) -> (r: Result<[u8; N], DecodeError>)
    requires
        code@.len() == N,
    ensures
        match r {
            Ok(d) => all_symbols(code@) && d@ == nibbles_of(code@),
            Err(e) => e == DecodeError::InvalidCharacter && !all_symbols(code@),
        },
{
    let mut d: [u8; N] = [0; N];
    let mut i: usize = 0;
    while i < N
        invariant
            i <= N,
            code@.len() == N,
            forall|k: int| 0 <= k < i ==> is_symbol(#[trigger] code@[k]),
            forall|k: int| 0 <= k < i ==> symbol_value(code@[k]) == Some(#[trigger] d@[k]),
        decreases N - i,
    {
        match lookup(code.get_char(i)) {
            Some(v) => {
                d[i] = v;
            },
            None => {
                return Err(DecodeError::InvalidCharacter);
            },
        }
        i += 1;
    }
    assert(d@ =~= nibbles_of(code@));
    Ok(d)
}

/// Maps each letter of `code` to its nibble.
pub fn decode_nibbles(code: &str) -> (r: Result<NibbleSet, DecodeError>)
    ensures
        match r {
            Ok(set) => decode_error(code@) is None && set@ == nibbles_of(code@),
            Err(e) => decode_error(code@) == Some(e),
        },
{
    let n = code.unicode_len();
    if n == 6 {
        match letters_to_nibbles::<6>(code) {
            Ok(d) => Ok(NibbleSet::Six(d)),
            Err(e) => Err(e),
        }
    } else if n == 8 {
        match letters_to_nibbles::<8>(code) {
            Ok(d) => Ok(NibbleSet::Eight(d)),
            Err(e) => Err(e),
        }
    } else {
        Err(DecodeError::InvalidLength)
    }
}

/// The nibbles of a code are four-bit values, one for each letter.
pub proof fn lemma_nibbles_are_four_bit(code: Seq<char>)
    requires
        all_symbols(code),
    ensures
        nibbles_of(code).len() == code.len(),
        forall|i: int| 0 <= i < code.len() ==> #[trigger] nibbles_of(code)[i] < 16,
{
    assert forall|i: int| 0 <= i < code.len() implies #[trigger] nibbles_of(code)[i] < 16 by {
        lemma_symbol_value_range(code[i]);
    }
}

/// Decodes `code`: its letters to nibbles, the nibbles rearranged, and those
/// read as address, value and compare byte.
pub fn decode(code: &str) -> (r: Result<DecodedCode, DecodeError>)
    ensures
        r == spec_decode(code@),
{
    match decode_nibbles(code) {
        Ok(d) => {
            let r = d.rearranged();
            Ok(DecodedCode { address: r.address(), value: r.value(), compare: r.compare() })
        },
        Err(e) => Err(e),
    }
}

/// Decoding succeeds on every string of six or eight letters of the alphabet,
/// and on no other; the result has a compare byte exactly when there are eight
/// letters.
pub proof fn lemma_decode_total(code: Seq<char>)
    ensures
        spec_decode(code) is Ok <==> (code.len() == 6 || code.len() == 8) && all_symbols(code),
        spec_decode(code) is Ok ==> (spec_decode(code).unwrap().compare is Some <==> code.len()
            == 8),
{
    if decode_error(code) is None {
        lemma_rearrange_bounds(nibbles_of(code));
    }
}

/// A decoded address lies inside one bank: its top bit is clear.
pub proof fn lemma_decoded_address_in_bank(code: Seq<char>)
    requires
        spec_decode(code) is Ok,
    ensures
        spec_decode(code).unwrap().address < 0x8000,
{
    let r = rearrange(nibbles_of(code));
    lemma_rearrange_bounds(nibbles_of(code));
    lemma_address_of(r);
    assert(r[0] < 8 && r[1] < 16 && r[2] < 16 && r[3] < 16);
}

} // verus!
