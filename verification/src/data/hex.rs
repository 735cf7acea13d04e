//! Lower-case hexadecimal text for runs of bytes.

use vstd::prelude::*;

verus! {

/// The lower-case hexadecimal digit that stands for a value below 16.
pub open spec fn hex_char(nibble: int) -> char {
    if nibble == 0 {
        '0'
    } else if nibble == 1 {
        '1'
    } else if nibble == 2 {
        '2'
    } else if nibble == 3 {
        '3'
    } else if nibble == 4 {
        '4'
    } else if nibble == 5 {
        '5'
    } else if nibble == 6 {
        '6'
    } else if nibble == 7 {
        '7'
    } else if nibble == 8 {
        '8'
    } else if nibble == 9 {
        '9'
    } else if nibble == 10 {
        'a'
    } else if nibble == 11 {
        'b'
    } else if nibble == 12 {
        'c'
    } else if nibble == 13 {
        'd'
    } else if nibble == 14 {
        'e'
    } else {
        'f'
    }
}

/// The half of `bytes` that the hexadecimal digit at position `i` shows:
/// the high half of a byte at an even position, the low half at an odd one.
pub open spec fn nibble_at(bytes: Seq<u8>, i: int) -> int {
    if i % 2 == 0 {
        bytes[i / 2] as int / 16
    } else {
        bytes[i / 2] as int % 16
    }
}

/// The bytes written out in hexadecimal, two digits each, first byte first.
pub open spec fn hex_run(bytes: Seq<u8>) -> Seq<char> {
    Seq::new(2 * bytes.len(), |i: int| hex_char(nibble_at(bytes, i)))
}

/// Writing out a run of bytes and then one more byte writes out the longer run.
pub proof fn lemma_hex_run_push(bytes: Seq<u8>, byte: u8)
    ensures
        hex_run(bytes.push(byte)) == hex_run(bytes) + seq![
            hex_char(byte as int / 16),
            hex_char(byte as int % 16),
        ],
{
    let longer = hex_run(bytes.push(byte));
    let joined = hex_run(bytes) + seq![hex_char(byte as int / 16), hex_char(byte as int % 16)];
    assert(longer.len() == joined.len());
    assert forall|i: int| 0 <= i < longer.len() implies longer[i] == joined[i] by {
        if i < 2 * bytes.len() {
            assert(bytes.push(byte)[i / 2] == bytes[i / 2]);
        } else {
            assert(i / 2 == bytes.len());
            assert(bytes.push(byte)[i / 2] == byte);
        }
    }
    assert(longer =~= joined);
}

/// The digit for `nibble`, as a one-character string.
fn hex_digit(nibble: u8) -> (digit: &'static str)
    requires
        nibble < 16,
    ensures
        digit@ == seq![hex_char(nibble as int)],
{
    proof {
        reveal_strlit("0");
        reveal_strlit("1");
        reveal_strlit("2");
        reveal_strlit("3");
        reveal_strlit("4");
        reveal_strlit("5");
        reveal_strlit("6");
        reveal_strlit("7");
        reveal_strlit("8");
        reveal_strlit("9");
        reveal_strlit("a");
        reveal_strlit("b");
        reveal_strlit("c");
        reveal_strlit("d");
        reveal_strlit("e");
        reveal_strlit("f");
    }
    let digit = match nibble {
        0 => "0",
        1 => "1",
        2 => "2",
        3 => "3",
        4 => "4",
        5 => "5",
        6 => "6",
        7 => "7",
        8 => "8",
        9 => "9",
        10 => "a",
        11 => "b",
        12 => "c",
        13 => "d",
        14 => "e",
        _ => "f",
    };
    assert(digit@ =~= seq![hex_char(nibble as int)]);
    digit
}

/// Appends to `text` the bytes of `bytes` from position `from` up to, not
/// including, position `to`, in hexadecimal.
pub fn push_hex(text: &mut String, bytes: &[u8], from: usize, to: usize)
    requires
        from <= to <= bytes@.len(),
    ensures
        final(text)@ == old(text)@ + hex_run(bytes@.subrange(from as int, to as int)),
{
    let mut at: usize = from;
    assert(hex_run(bytes@.subrange(from as int, from as int)) =~= Seq::<char>::empty());
    assert(text@ =~= old(text)@ + Seq::<char>::empty());
    while at < to
        invariant
            from <= at <= to <= bytes@.len(),
            text@ == old(text)@ + hex_run(bytes@.subrange(from as int, at as int)),
        decreases to - at,
    {
        let byte = bytes[at];
        let high = hex_digit(byte / 16);
        let low = hex_digit(byte % 16);
        proof {
            let done = bytes@.subrange(from as int, at as int);
            lemma_hex_run_push(done, byte);
            assert(done.push(byte) =~= bytes@.subrange(from as int, at as int + 1));
            assert(text@ + high@ + low@ =~= old(text)@ + (hex_run(done) + seq![
                hex_char(byte as int / 16),
                hex_char(byte as int % 16),
            ]));
        }
        text.append(high);
        text.append(low);
        at += 1;
    }
}

/// Two runs of bytes written out one after the other are the joined run
/// written out.
pub proof fn lemma_hex_run_concat(first: Seq<u8>, second: Seq<u8>)
    ensures
        hex_run(first + second) == hex_run(first) + hex_run(second),
{
    let whole = hex_run(first + second);
    let joined = hex_run(first) + hex_run(second);
    assert(whole.len() == joined.len());
    assert forall|i: int| 0 <= i < whole.len() implies whole[i] == joined[i] by {
        if i < 2 * first.len() {
            assert((first + second)[i / 2] == first[i / 2]);
        } else {
            let j = i - 2 * first.len();
            assert(i / 2 == first.len() + j / 2);
            assert(i % 2 == j % 2);
            assert((first + second)[i / 2] == second[j / 2]);
        }
    }
    assert(whole =~= joined);
}

/// A hexadecimal digit is a decimal digit or a letter from `a` to `f`, and
/// digits for larger values come later in the order of characters.
pub proof fn lemma_hex_char_order(low: int, high: int)
    requires
        0 <= low < high < 16,
    ensures
        hex_char(low) < hex_char(high),
        hex_char(low) != '-',
        hex_char(high) != '-',
{
}

/// No hyphen occurs in a run of bytes written out.
pub proof fn lemma_hex_run_no_hyphen(bytes: Seq<u8>)
    ensures
        forall|i: int| 0 <= i < hex_run(bytes).len() ==> #[trigger] hex_run(bytes)[i] != '-',
{
}

} // verus!
