//! The order of UUID texts as strings, and how version 6 keeps the order of
//! time in it.

use crate::data::hex::{hex_char, hex_run, lemma_hex_char_order, nibble_at};
use crate::data::layout::{byte_of, v6_bytes};
use crate::data::uuid::{hyphenated_text, uuid_text, UuidFormat};
use vstd::prelude::*;

verus! {

/// Whether `left` comes before `right` in the order of strings: at the
/// first place where they differ `left` has the lesser character, or `left`
/// ends there and `right` goes on.
pub open spec fn precedes(left: Seq<char>, right: Seq<char>) -> bool {
    exists|at: int| #[trigger] parts_at(left, right, at)
}

/// Whether `left` and `right` agree before position `at` and `left` is the
/// lesser there.
pub open spec fn parts_at(left: Seq<char>, right: Seq<char>, at: int) -> bool {
    &&& 0 <= at <= left.len()
    &&& at < right.len()
    &&& forall|i: int| 0 <= i < at ==> left[i] == right[i]
    &&& at < left.len() ==> left[at] < right[at]
}

/// The digit that the hyphenated form shows at position `i`, counted in
/// half bytes from the first; `None` where a hyphen stands.
pub open spec fn grouped_digit(i: int) -> Option<int> {
    if i < 0 || i >= 36 || i == 8 || i == 13 || i == 18 || i == 23 {
        None
    } else if i < 8 {
        Some(i)
    } else if i < 13 {
        Some(i - 1)
    } else if i < 18 {
        Some(i - 2)
    } else if i < 23 {
        Some(i - 3)
    } else {
        Some(i - 4)
    }
}

/// The digit that a layout shows at position `i`, if it shows one there.
pub open spec fn digit_shown(format: UuidFormat, i: int) -> Option<int> {
    match format {
        UuidFormat::Hyphenated => grouped_digit(i),
        UuidFormat::Simple => if 0 <= i < 32 {
            Some(i)
        } else {
            None
        },
        UuidFormat::Urn => grouped_digit(i - 9),
        UuidFormat::Braced => grouped_digit(i - 1),
    }
}

/// The position at which a layout shows digit `digit`.
pub open spec fn digit_place(format: UuidFormat, digit: int) -> int {
    let hyphens: int = if digit < 8 {
        0
    } else if digit < 12 {
        1
    } else if digit < 16 {
        2
    } else if digit < 20 {
        3
    } else {
        4
    };
    match format {
        UuidFormat::Hyphenated => digit + hyphens,
        UuidFormat::Simple => digit,
        UuidFormat::Urn => 9 + digit + hyphens,
        UuidFormat::Braced => 1 + digit + hyphens,
    }
}

/// The length of a UUID's text in a layout.
pub open spec fn text_len(format: UuidFormat) -> nat {
    match format {
        UuidFormat::Hyphenated => 36,
        UuidFormat::Simple => 32,
        UuidFormat::Urn => 45,
        UuidFormat::Braced => 38,
    }
}

/// The hyphenated form, character by character.
proof fn lemma_hyphenated_chars(bytes: Seq<u8>, i: int)
    requires
        bytes.len() == 16,
        0 <= i < 36,
    ensures
        hyphenated_text(bytes).len() == 36,
        match grouped_digit(i) {
            Some(digit) => hyphenated_text(bytes)[i] == hex_char(nibble_at(bytes, digit)),
            None => hyphenated_text(bytes)[i] == '-',
        },
{
    let a = bytes.subrange(0, 4);
    let b = bytes.subrange(4, 6);
    let c = bytes.subrange(6, 8);
    let d = bytes.subrange(8, 10);
    let e = bytes.subrange(10, 16);
    let text = hyphenated_text(bytes);
    if i < 8 {
        assert(text[i] == hex_run(a)[i]);
        assert(a[i / 2] == bytes[i / 2]);
    } else if i == 8 {
    } else if i < 13 {
        assert(text[i] == hex_run(b)[i - 9]);
        assert(b[(i - 9) / 2] == bytes[(i - 1) / 2]);
    } else if i == 13 {
    } else if i < 18 {
        assert(text[i] == hex_run(c)[i - 14]);
        assert(c[(i - 14) / 2] == bytes[(i - 2) / 2]);
    } else if i == 18 {
    } else if i < 23 {
        assert(text[i] == hex_run(d)[i - 19]);
        assert(d[(i - 19) / 2] == bytes[(i - 3) / 2]);
    } else if i == 23 {
    } else {
        assert(text[i] == hex_run(e)[i - 24]);
        assert(e[(i - 24) / 2] == bytes[(i - 4) / 2]);
    }
}

/// The text of a UUID, character by character: a digit of the bytes where
/// the layout shows one, and elsewhere a character that is the same for
/// every UUID.
pub proof fn lemma_text_chars(first: Seq<u8>, second: Seq<u8>, format: UuidFormat, i: int)
    requires
        first.len() == 16,
        second.len() == 16,
        0 <= i < text_len(format),
    ensures
        uuid_text(first, format).len() == text_len(format),
        match digit_shown(format, i) {
            Some(digit) => 0 <= digit < 32 && uuid_text(first, format)[i] == hex_char(
                nibble_at(first, digit),
            ),
            None => uuid_text(first, format)[i] == uuid_text(second, format)[i],
        },
{
    reveal_strlit("urn:uuid:");
    lemma_hyphenated_chars(first, 0);
    lemma_hyphenated_chars(second, 0);
    match format {
        UuidFormat::Hyphenated => {
            lemma_hyphenated_chars(first, i);
            lemma_hyphenated_chars(second, i);
        },
        UuidFormat::Simple => {},
        UuidFormat::Urn => {
            if i >= 9 {
                lemma_hyphenated_chars(first, i - 9);
                lemma_hyphenated_chars(second, i - 9);
            }
        },
        UuidFormat::Braced => {
            if 1 <= i < 37 {
                lemma_hyphenated_chars(first, i - 1);
                lemma_hyphenated_chars(second, i - 1);
            }
        },
    }
}

/// The half byte of `ticks` that starts `shift` bits above its lowest bit.
pub open spec fn half_byte(ticks: u64, shift: u64) -> u64 {
    (ticks >> shift) & 0xf
}

/// How far above the lowest bit of the ticks the half byte stands that a
/// version 6 UUID shows as digit `digit`; digit 12 shows the version.
pub open spec fn v6_shift(digit: int) -> int {
    if digit < 12 {
        56 - 4 * digit
    } else {
        60 - 4 * digit
    }
}

/// The two halves of a byte of the ticks are half bytes of the ticks.
proof fn lemma_byte_halves(ticks: u64, shift: u64)
    by (bit_vector)
    requires
        shift <= 56,
    ensures
        (((ticks >> shift) & 0xff) as u8) / 16 == ((ticks >> (shift + 4)) & 0xf),
        (((ticks >> shift) & 0xff) as u8) % 16 == ((ticks >> shift) & 0xf),
        ((0x60 | ((ticks >> 8) & 0x0f)) as u8) / 16 == 6,
        ((0x60 | ((ticks >> 8) & 0x0f)) as u8) % 16 == ((ticks >> 8) & 0xf),
{
}

/// Ticks that agree above a bit agree in every half byte above it.
proof fn lemma_agree_above(earlier: u64, later: u64, from: u64, shift: u64)
    by (bit_vector)
    requires
        from <= shift < 64,
        earlier >> from == later >> from,
    ensures
        (earlier >> shift) & 0xf == (later >> shift) & 0xf,
{
}

/// Of two different numbers below 2^60 the lesser has the lesser half byte
/// at the highest place where their half bytes differ.
proof fn lemma_first_difference(earlier: u64, later: u64)
    by (bit_vector)
    requires
        earlier < later,
        later < 0x1000_0000_0000_0000,
    ensures
        (earlier >> 60 == later >> 60 && (earlier >> 56) & 0xf < (later >> 56) & 0xf)
        || (earlier >> 56 == later >> 56 && (earlier >> 52) & 0xf < (later >> 52) & 0xf)
        || (earlier >> 52 == later >> 52 && (earlier >> 48) & 0xf < (later >> 48) & 0xf)
        || (earlier >> 48 == later >> 48 && (earlier >> 44) & 0xf < (later >> 44) & 0xf)
        || (earlier >> 44 == later >> 44 && (earlier >> 40) & 0xf < (later >> 40) & 0xf)
        || (earlier >> 40 == later >> 40 && (earlier >> 36) & 0xf < (later >> 36) & 0xf)
        || (earlier >> 36 == later >> 36 && (earlier >> 32) & 0xf < (later >> 32) & 0xf)
        || (earlier >> 32 == later >> 32 && (earlier >> 28) & 0xf < (later >> 28) & 0xf)
        || (earlier >> 28 == later >> 28 && (earlier >> 24) & 0xf < (later >> 24) & 0xf)
        || (earlier >> 24 == later >> 24 && (earlier >> 20) & 0xf < (later >> 20) & 0xf)
        || (earlier >> 20 == later >> 20 && (earlier >> 16) & 0xf < (later >> 16) & 0xf)
        || (earlier >> 16 == later >> 16 && (earlier >> 12) & 0xf < (later >> 12) & 0xf)
        || (earlier >> 12 == later >> 12 && (earlier >> 8) & 0xf < (later >> 8) & 0xf)
        || (earlier >> 8 == later >> 8 && (earlier >> 4) & 0xf < (later >> 4) & 0xf)
        || (earlier >> 4 == later >> 4 && (earlier >> 0) & 0xf < (later >> 0) & 0xf),
{
}

/// Whether the half bytes at `shift` are the highest in which two numbers
/// differ, the first number having the lesser one.
pub open spec fn differ_at(earlier: u64, later: u64, shift: u64) -> bool {
    &&& shift % 4 == 0
    &&& shift <= 56
    &&& earlier >> ((shift + 4) as u64) == later >> ((shift + 4) as u64)
    &&& half_byte(earlier, shift) < half_byte(later, shift)
}

/// The first sixteen digits of a version 6 UUID are the half bytes of the
/// ticks from the highest of its low 60 bits down, with the version before
/// the last three.
pub proof fn lemma_v6_digits(ticks: u64, counter: u16, node: Seq<u8>, digit: int)
    requires
        0 <= digit < 16,
    ensures
        nibble_at(v6_bytes(ticks, counter, node), digit) == if digit == 12 {
            6
        } else {
            half_byte(ticks, v6_shift(digit) as u64) as int
        },
{
    let bytes = v6_bytes(ticks, counter, node);
    let byte = bytes[digit / 2];
    if digit < 12 {
        let shift: u64 = (52 - 8 * (digit / 2)) as u64;
        lemma_byte_halves(ticks, shift);
        assert(byte == byte_of(ticks, shift));
    } else {
        lemma_byte_halves(ticks, 0);
        assert(ticks >> 0 == ticks) by (bit_vector);
        if digit < 14 {
            assert(byte == (0x60 | ((ticks >> 8) & 0x0f)) as u8);
        } else {
            assert(byte == byte_of(ticks, 0));
        }
    }
}

/// Version 6 keeps the order of time: of two UUIDs made for ticks below
/// 2^60, the one for the earlier ticks comes first as a string, in each
/// layout and whatever the counters.
pub proof fn lemma_v6_texts_ordered(
    earlier: u64,
    later: u64,
    first_counter: u16,
    second_counter: u16,
    node: Seq<u8>,
    format: UuidFormat,
)
    requires
        earlier < later,
        later < 0x1000_0000_0000_0000,
        node.len() == 6,
    ensures
        precedes(
            uuid_text(v6_bytes(earlier, first_counter, node), format),
            uuid_text(v6_bytes(later, second_counter, node), format),
        ),
{
    let first = v6_bytes(earlier, first_counter, node);
    let second = v6_bytes(later, second_counter, node);
    let left = uuid_text(first, format);
    let right = uuid_text(second, format);
    lemma_first_difference(earlier, later);
    assert(earlier >> 0 == earlier && later >> 0 == later) by (bit_vector);
    assert(exists|shift: u64| #[trigger] differ_at(earlier, later, shift)) by {
        assert(differ_at(earlier, later, 56)
            || differ_at(earlier, later, 52)
            || differ_at(earlier, later, 48)
            || differ_at(earlier, later, 44)
            || differ_at(earlier, later, 40)
            || differ_at(earlier, later, 36)
            || differ_at(earlier, later, 32)
            || differ_at(earlier, later, 28)
            || differ_at(earlier, later, 24)
            || differ_at(earlier, later, 20)
            || differ_at(earlier, later, 16)
            || differ_at(earlier, later, 12)
            || differ_at(earlier, later, 8)
            || differ_at(earlier, later, 4)
            || differ_at(earlier, later, 0));
    }
    let shift: u64 = choose|shift: u64| #[trigger] differ_at(earlier, later, shift);
    let digit: int = if shift >= 12 {
        (56 - shift) / 4
    } else {
        (60 - shift) / 4
    };
    assert(0 <= digit < 16 && digit != 12 && v6_shift(digit) == shift);
    let at = digit_place(format, digit);
    assert(digit_shown(format, at) == Some(digit));
    lemma_text_chars(first, second, format, at);
    lemma_text_chars(second, first, format, at);
    lemma_v6_digits(earlier, first_counter, node, digit);
    lemma_v6_digits(later, second_counter, node, digit);
    lemma_hex_char_order(half_byte(earlier, shift) as int, half_byte(later, shift) as int);
    assert(half_byte(later, shift) < 16) by (bit_vector);
    assert(left[at] < right[at]);
    assert forall|i: int| 0 <= i < at implies left[i] == right[i] by {
        lemma_text_chars(first, second, format, i);
        lemma_text_chars(second, first, format, i);
        match digit_shown(format, i) {
            Some(before) => {
                assert(0 <= before < digit);
                lemma_v6_digits(earlier, first_counter, node, before);
                lemma_v6_digits(later, second_counter, node, before);
                if before != 12 {
                    lemma_agree_above(
                        earlier,
                        later,
                        (shift + 4) as u64,
                        v6_shift(before) as u64,
                    );
                }
            },
            None => {},
        }
    }
    assert(parts_at(left, right, at));
}

} // verus!
