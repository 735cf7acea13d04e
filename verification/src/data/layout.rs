//! Byte layouts of the UUID versions: where the timestamp, the counter, the
//! node and the version and variant marks stand among the sixteen bytes.

use vstd::prelude::*;

verus! {

/// The byte of `value` that starts `shift` bits above its lowest bit.
pub open spec fn byte_of(value: u64, shift: u64) -> u8 {
    ((value >> shift) & 0xff) as u8
}

/// `raw` with the version written into the high half of byte 6 and the
/// variant `10` into the two highest bits of byte 8; all else is kept.
pub open spec fn stamped(raw: Seq<u8>, version: u8) -> Seq<u8> {
    Seq::new(
        16,
        |i: int|
            if i == 6 {
                (raw[6] & 0x0f) | (version << 4)
            } else if i == 8 {
                (raw[8] & 0x3f) | 0x80
            } else {
                raw[i]
            },
    )
}

/// Sixteen bytes that carry the version in the high half of byte 6 and the
/// variant `10` in the two highest bits of byte 8.
pub open spec fn marked(bytes: Seq<u8>, version: u8) -> bool {
    &&& bytes.len() == 16
    &&& bytes[6] & 0xf0 == version << 4
    &&& bytes[8] & 0xc0 == 0x80
}

/// Bytes 8 to 15 of a time-based UUID: the variant, the low 14 bits of the
/// counter as clock sequence, then the node.
pub open spec fn clock_and_node(counter: u16, node: Seq<u8>) -> Seq<u8> {
    seq![(0x80 | ((counter >> 8) & 0x3f)) as u8, (counter & 0xff) as u8] + node
}

/// Version 1: the low 60 bits of `ticks` as low, middle and high field, the
/// version in the four bits above the high field.
pub open spec fn v1_bytes(ticks: u64, counter: u16, node: Seq<u8>) -> Seq<u8> {
    seq![
        byte_of(ticks, 24),
        byte_of(ticks, 16),
        byte_of(ticks, 8),
        byte_of(ticks, 0),
        byte_of(ticks, 40),
        byte_of(ticks, 32),
        (0x10 | ((ticks >> 56) & 0x0f)) as u8,
        byte_of(ticks, 48),
    ] + clock_and_node(counter, node)
}

/// Version 6: the low 60 bits of `ticks` from the highest bit down, parted
/// only by the version, which stands above the lowest twelve.
pub open spec fn v6_bytes(ticks: u64, counter: u16, node: Seq<u8>) -> Seq<u8> {
    seq![
        byte_of(ticks, 52),
        byte_of(ticks, 44),
        byte_of(ticks, 36),
        byte_of(ticks, 28),
        byte_of(ticks, 20),
        byte_of(ticks, 12),
        (0x60 | ((ticks >> 8) & 0x0f)) as u8,
        byte_of(ticks, 0),
    ] + clock_and_node(counter, node)
}

/// Bytes 0 to 7 of a version 7 UUID: the low 48 bits of the milliseconds,
/// the version, then the twelve bits of the counter above its lowest two.
pub open spec fn v7_head(millis: u64, counter: u16) -> Seq<u8> {
    seq![
        byte_of(millis, 40),
        byte_of(millis, 32),
        byte_of(millis, 24),
        byte_of(millis, 16),
        byte_of(millis, 8),
        byte_of(millis, 0),
        (0x70 | ((counter >> 10) & 0x0f)) as u8,
        ((counter >> 2) & 0xff) as u8,
    ]
}

/// The high half of byte 8 of a version 7 UUID: the variant, then the two
/// lowest bits of the counter.
pub open spec fn v7_joint(counter: u16) -> u8 {
    (0x80 | ((counter & 3) << 4)) as u8
}

/// Version 8: the buffer as it is, but for the version and the variant.
pub open spec fn v8_bytes(buffer: Seq<u8>) -> Seq<u8> {
    stamped(buffer, 8)
}

/// The namespace UUIDs for names of the domain name system, of object
/// identifiers, of URLs and of X.500 names; they differ in byte 3 alone.
pub open spec fn namespace_bytes(mark: u8) -> Seq<u8> {
    seq![
        0x6b,
        0xa7,
        0xb8,
        mark,
        0x9d,
        0xad,
        0x11,
        0xd1,
        0x80,
        0xb4,
        0x00,
        0xc0,
        0x4f,
        0xd4,
        0x30,
        0xc8,
    ]
}

} // verus!
