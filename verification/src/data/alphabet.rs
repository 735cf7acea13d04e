//! Base64 alphabets: what makes a string of symbols usable as one.

use vstd::prelude::*;

verus! {

/// Why a string cannot serve as a base64 alphabet.
#[derive(Clone, Copy, Debug, PartialEq, Eq, Structural)]
pub enum AlphabetError {
    /// The string is not exactly 64 bytes long.
    InvalidLength,
    /// The byte occurs more than once.
    DuplicatedByte(u8),
    /// The byte lies outside the printable ASCII range `32..=126`.
    UnprintableByte(u8),
    /// The byte is `=`, which is kept for padding.
    ReservedByte(u8),
}

/// Number of symbols in a base64 alphabet.
pub const ALPHABET_SIZE: usize = 64;

/// The byte that pads encoded text, `=`.
pub const PAD_BYTE: u8 = 61;

/// Whether `symbols` holds the byte at `i` at some other position too.
pub open spec fn occurs_elsewhere(symbols: Seq<u8>, i: int) -> bool {
    exists|j: int| 0 <= j < symbols.len() && j != i && symbols[j] == symbols[i]
}

/// What is wrong with the symbol at position `i`, if anything: an unprintable
/// byte is reported before a reserved one, and that before a duplicate.
pub open spec fn symbol_fault(symbols: Seq<u8>, i: int) -> Option<AlphabetError> {
    let b = symbols[i];
    if !(32 <= b <= 126) {
        Some(AlphabetError::UnprintableByte(b))
    } else if b == PAD_BYTE {
        Some(AlphabetError::ReservedByte(b))
    } else if occurs_elsewhere(symbols, i) {
        Some(AlphabetError::DuplicatedByte(b))
    } else {
        None
    }
}

/// The fault of the first faulty symbol at or after position `from`.
pub open spec fn first_fault(symbols: Seq<u8>, from: int) -> Option<AlphabetError>
    decreases symbols.len() - from,
{
    if from < 0 || from >= symbols.len() {
        None
    } else if symbol_fault(symbols, from) is Some {
        symbol_fault(symbols, from)
    } else {
        first_fault(symbols, from + 1)
    }
}

/// The reason `symbols` is rejected as an alphabet, or `None` if it is one.
pub open spec fn alphabet_fault(symbols: Seq<u8>) -> Option<AlphabetError> {
    if symbols.len() != ALPHABET_SIZE {
        Some(AlphabetError::InvalidLength)
    } else {
        first_fault(symbols, 0)
    }
}

/// An alphabet is 64 distinct printable ASCII bytes, none of them `=`.
pub open spec fn is_alphabet(symbols: Seq<u8>) -> bool {
    &&& symbols.len() == ALPHABET_SIZE
    &&& forall|i: int| 0 <= i < symbols.len() ==> 32 <= #[trigger] symbols[i] <= 126
    &&& forall|i: int| 0 <= i < symbols.len() ==> #[trigger] symbols[i] != PAD_BYTE
    &&& forall|i: int, j: int|
        0 <= i < symbols.len() && 0 <= j < symbols.len() && i != j ==> symbols[i] != symbols[j]
}

/// No fault is found from `from` on exactly when every symbol there is sound.
pub proof fn lemma_first_fault_none(symbols: Seq<u8>, from: int)
    requires
        0 <= from <= symbols.len(),
    ensures
        first_fault(symbols, from) is None <==> forall|i: int|
            from <= i < symbols.len() ==> symbol_fault(symbols, i) is None,
    decreases symbols.len() - from,
{
    if from < symbols.len() {
        lemma_first_fault_none(symbols, from + 1);
        if first_fault(symbols, from) is None {
            assert forall|i: int| from <= i < symbols.len() implies symbol_fault(symbols, i)
                is None by {
                if i > from {
                    assert(from + 1 <= i);
                }
            }
        }
    }
}

/// A string is accepted exactly when it is an alphabet.
pub proof fn lemma_fault_free_is_alphabet(symbols: Seq<u8>)
    ensures
        alphabet_fault(symbols) is None <==> is_alphabet(symbols),
{
    if symbols.len() == ALPHABET_SIZE {
        lemma_first_fault_none(symbols, 0);
        if alphabet_fault(symbols) is None {
            assert forall|i: int, j: int|
                0 <= i < symbols.len() && 0 <= j < symbols.len() && i != j implies symbols[i]
                != symbols[j] by {
                assert(symbol_fault(symbols, i) is None);
                if symbols[i] == symbols[j] {
                    assert(occurs_elsewhere(symbols, i));
                }
            }
            assert forall|i: int| 0 <= i < symbols.len() implies 32 <= #[trigger] symbols[i]
                <= 126 by {
                assert(symbol_fault(symbols, i) is None);
            }
            assert forall|i: int| 0 <= i < symbols.len() implies #[trigger] symbols[i]
                != PAD_BYTE by {
                assert(symbol_fault(symbols, i) is None);
            }
        }
        if is_alphabet(symbols) {
            assert forall|i: int| 0 <= i < symbols.len() implies symbol_fault(symbols, i)
                is None by {
                assert(32 <= symbols[i] <= 126);
                assert(symbols[i] != PAD_BYTE);
            }
        }
    }
}

/// Whether the byte at `index` occurs at another position of `symbols`.
fn repeated(symbols: &[u8], index: usize) -> (found: bool)
    requires
        index < symbols@.len(),
    ensures
        found == occurs_elsewhere(symbols@, index as int),
{
    let byte = symbols[index];
    let mut probe: usize = 0;
    while probe < symbols.len()
        invariant
            index < symbols@.len(),
            probe <= symbols@.len(),
            byte == symbols@[index as int],
            forall|j: int| 0 <= j < probe && j != index ==> symbols@[j] != byte,
        decreases symbols@.len() - probe,
    {
        if probe != index && symbols[probe] == byte {
            assert(occurs_elsewhere(symbols@, index as int));
            return true;
        }
        probe += 1;
    }
    false
}

/// Checks that `symbols` can serve as a base64 alphabet, and says why not
/// otherwise: the length is looked at first, then each symbol in turn.
pub fn check_alphabet(symbols: &[u8]) -> (verdict: Result<(), AlphabetError>)
    ensures
        verdict is Ok <==> is_alphabet(symbols@),
        verdict matches Err(e) ==> alphabet_fault(symbols@) == Some(e),
        verdict is Ok ==> alphabet_fault(symbols@) is None,
{
    proof {
        lemma_fault_free_is_alphabet(symbols@);
    }
    if symbols.len() != ALPHABET_SIZE {
        return Err(AlphabetError::InvalidLength);
    }
    let mut index: usize = 0;
    while index < ALPHABET_SIZE
        invariant
            symbols@.len() == ALPHABET_SIZE,
            index <= ALPHABET_SIZE,
            first_fault(symbols@, 0) == first_fault(symbols@, index as int),
        decreases ALPHABET_SIZE - index,
    {
        let byte = symbols[index];
        if !(byte >= 32 && byte <= 126) {
            return Err(AlphabetError::UnprintableByte(byte));
        }
        if byte == PAD_BYTE {
            return Err(AlphabetError::ReservedByte(byte));
        }
        if repeated(symbols, index) {
            return Err(AlphabetError::DuplicatedByte(byte));
        }
        index += 1;
    }
    Ok(())
}

} // verus!
