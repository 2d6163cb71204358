//! The sixteen letters a code is written in.

use vstd::prelude::*;

verus! {

/// The alphabet in order: the letter at position `n` stands for the nibble `n`.
pub const NES_CONVERSION: [char; 16] = [
    'A', 'P', 'Z', 'L', 'G', 'I', 'T', 'Y', 'E', 'O', 'X', 'U', 'K', 'S', 'V', 'N',
];

/// The alphabet as a sequence.
pub open spec fn alphabet() -> Seq<char> {
    NES_CONVERSION@
}

/// Whether `c` is one of the sixteen letters.
pub open spec fn is_symbol(c: char) -> bool {
    alphabet().contains(c)
}

/// The nibble that `c` stands for: its position in the alphabet, or `None`
/// for a character outside it.
pub open spec fn symbol_value(c: char) -> Option<u8> {
    if is_symbol(c) {
        Some(alphabet().index_of(c) as u8)
    } else {
        None
    }
}

/// The alphabet has sixteen letters and none of them occurs twice, so a letter
/// has one position only.
pub proof fn lemma_alphabet_distinct()
    ensures
        alphabet().len() == 16,
        alphabet().no_duplicates(),
{
}

/// The letter at position `n` has the value `n`.
pub proof fn lemma_symbol_value(c: char, n: int)
    requires
        0 <= n < 16,
        alphabet()[n] == c,
    ensures
        is_symbol(c),
        symbol_value(c) == Some(n as u8),
{
    lemma_alphabet_distinct();
    assert(alphabet().contains(c));
    let k = alphabet().index_of(c);
    assert(0 <= k < alphabet().len() && alphabet()[k] == c);
}

/// The value of a letter is below sixteen, and the alphabet holds the letter
/// at that position.
pub proof fn lemma_symbol_value_range(c: char)
    requires
        is_symbol(c),
    ensures
        symbol_value(c) is Some,
        symbol_value(c).unwrap() < 16,
        alphabet()[symbol_value(c).unwrap() as int] == c,
{
    let k = alphabet().index_of(c);
    assert(0 <= k < alphabet().len() && alphabet()[k] == c);
}

/// Looks `c` up in the alphabet.
pub fn lookup(c: char) -> (value: Option<u8>)
    ensures
        value == symbol_value(c),
{
    let mut n: u8 = 0;
    while n < 16
        invariant
            n <= 16,
            forall|k: int| 0 <= k < n ==> alphabet()[k] != c,
        decreases 16 - n,
    {
        if NES_CONVERSION[n as usize] == c {
            proof {
                lemma_symbol_value(c, n as int);
            }
            return Some(n);
        }
        n += 1;
    }
    assert(!alphabet().contains(c));
    None
}

} // verus!
