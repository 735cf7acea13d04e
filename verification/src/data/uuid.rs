//! UUIDs of versions 1, 3, 4, 5, 6, 7 and 8, written out in one of four
//! textual layouts.

use crate::data::hex::{hex_char, hex_run, lemma_hex_run_concat, lemma_hex_run_no_hyphen, push_hex};
use crate::data::layout::{
    marked, namespace_bytes, stamped, v1_bytes, v6_bytes, v7_head, v7_joint, v8_bytes,
};
use crate::data::text::same_text;
use vstd::prelude::*;
use vstd::utf8::encode_utf8;

verus! {

/// The namespaces that have a UUID of their own.
#[derive(Clone, Copy, Debug, PartialEq, Eq, Structural)]
pub enum UuidConstNamespace {
    Dns,
    Oid,
    Url,
    X500,
}

/// The namespace a name is hashed in: a well-known one, or any UUID, given
/// as text.
#[derive(Clone, Debug, PartialEq, Eq)]
pub enum UuidNamespace {
    Const(UuidConstNamespace),
    Custom(String),
}

/// How a UUID is written out.
#[derive(Clone, Copy, Debug, PartialEq, Eq, Structural)]
pub enum UuidFormat {
    /// Five groups of 8, 4, 4, 4 and 12 digits, joined by hyphens.
    Hyphenated,
    /// The 32 digits alone.
    Simple,
    /// The hyphenated form after `urn:uuid:`.
    Urn,
    /// The hyphenated form between `{` and `}`.
    Braced,
}

impl Default for UuidFormat {
    fn default() -> (format: Self)
        ensures
            format == UuidFormat::Hyphenated,
    {
        UuidFormat::Hyphenated
    }
}

/// The node of a time-based UUID: usable when it holds exactly 6 bytes.
#[derive(Clone, Debug, PartialEq, Eq)]
pub struct UuidNodeId(pub Vec<u8>);

/// The payload of a version 8 UUID: usable when it holds exactly 16 bytes.
#[derive(Clone, Debug, PartialEq, Eq)]
pub struct UuidBuffer(pub Vec<u8>);

/// The error of `uuid::Uuid::parse_str`: carried through as it is, nothing
/// of its contents is looked at.
#[verifier::external_type_specification]
#[verifier::external_body]
pub struct ExUuidParseError(uuid::Error);

/// What can go wrong when generating a UUID.
#[derive(Debug, PartialEq, Eq)]
pub enum UuidError {
    /// The text given as namespace is no UUID.
    InvalidUuid(uuid::Error),
    /// The node does not hold 6 bytes.
    InvalidNodeIdLength,
    /// The buffer does not hold 16 bytes.
    InvalidBufferLength,
}

/// The hyphenated form: the bytes in hexadecimal, in groups of 4, 2, 2, 2
/// and 6 bytes.
pub open spec fn hyphenated_text(bytes: Seq<u8>) -> Seq<char> {
    hex_run(bytes.subrange(0, 4)) + seq!['-'] + hex_run(bytes.subrange(4, 6)) + seq!['-']
        + hex_run(bytes.subrange(6, 8)) + seq!['-'] + hex_run(bytes.subrange(8, 10)) + seq!['-']
        + hex_run(bytes.subrange(10, 16))
}

/// The text of the UUID with these sixteen bytes in the given layout.
pub open spec fn uuid_text(bytes: Seq<u8>, format: UuidFormat) -> Seq<char> {
    match format {
        UuidFormat::Hyphenated => hyphenated_text(bytes),
        UuidFormat::Simple => hex_run(bytes),
        UuidFormat::Urn => "urn:uuid:"@ + hyphenated_text(bytes),
        UuidFormat::Braced => seq!['{'] + hyphenated_text(bytes) + seq!['}'],
    }
}

/// Appends the hyphenated form of `bytes` to `text`.
fn push_hyphenated(text: &mut String, bytes: &[u8; 16])
    ensures
        final(text)@ == old(text)@ + hyphenated_text(bytes@),
{
    proof {
        reveal_strlit("-");
    }
    let all = bytes.as_slice();
    push_hex(text, all, 0, 4);
    text.append("-");
    push_hex(text, all, 4, 6);
    text.append("-");
    push_hex(text, all, 6, 8);
    text.append("-");
    push_hex(text, all, 8, 10);
    text.append("-");
    push_hex(text, all, 10, 16);
    assert("-"@ =~= seq!['-']);
    assert(text@ =~= old(text)@ + hyphenated_text(bytes@));
}

/// Writes out the UUID with these bytes in the given layout, in lower case.
pub fn render(bytes: &[u8; 16], format: UuidFormat) -> (text: String)
    ensures
        text@ == uuid_text(bytes@, format),
{
    proof {
        reveal_strlit("{");
        reveal_strlit("}");
    }
    match format {
        UuidFormat::Hyphenated => {
            let mut text = String::new();
            push_hyphenated(&mut text, bytes);
            assert(text@ =~= hyphenated_text(bytes@));
            text
        },
        UuidFormat::Simple => {
            let mut text = String::new();
            push_hex(&mut text, bytes.as_slice(), 0, 16);
            assert(bytes@.subrange(0, 16) =~= bytes@);
            assert(text@ =~= hex_run(bytes@));
            text
        },
        UuidFormat::Urn => {
            let mut text = String::from_str("urn:uuid:");
            push_hyphenated(&mut text, bytes);
            text
        },
        UuidFormat::Braced => {
            let mut text = String::from_str("{");
            push_hyphenated(&mut text, bytes);
            text.append("}");
            assert("{"@ =~= seq!['{']);
            assert("}"@ =~= seq!['}']);
            text
        },
    }
}

/// The first sixteen bytes of the MD5 digest of `namespace` followed by
/// `name`.
pub uninterp spec fn md5_hash(namespace: Seq<u8>, name: Seq<u8>) -> Seq<u8>;

/// The first sixteen bytes of the SHA-1 digest of `namespace` followed by
/// `name`.
pub uninterp spec fn sha1_hash(namespace: Seq<u8>, name: Seq<u8>) -> Seq<u8>;

/// The sixteen bytes that `text` stands for when read as a UUID, if it is
/// one.
pub uninterp spec fn uuid_value(text: Seq<char>) -> Option<Seq<u8>>;

/// Whether `value` is what reading `text` must give in case `text` is a
/// UUID written out in one of the four layouts: the bytes written out.
pub open spec fn reads_back(text: Seq<char>, value: Option<Seq<u8>>) -> bool {
    forall|bytes: Seq<u8>, format: UuidFormat|
        bytes.len() == 16 && text == #[trigger] uuid_text(bytes, format) ==> value == Some(bytes)
}

/// What reading a text as a UUID gave, without the reason of a failure.
pub open spec fn parsed_view(parsed: Result<[u8; 16], uuid::Error>) -> Option<Seq<u8>> {
    match parsed {
        Ok(bytes) => Some(bytes@),
        Err(_) => None,
    }
}

/// `Uuid::new_v1` on the timestamp that `Timestamp::from_gregorian_time`
/// makes of `ticks` and `counter`. The timestamp hands the ticks on
/// unchanged and the counter cut to 14 bits; the bytes are those of
/// `Uuid::from_fields` on the three time fields, the clock sequence and the
/// node.
#[verifier::external_body]
fn gregorian_v1(ticks: u64, counter: u16, node: &[u8; 6]) -> (bytes: [u8; 16])
    ensures
        bytes@ == v1_bytes(ticks, counter, node@),
{
    uuid::Uuid::new_v1(uuid::Timestamp::from_gregorian_time(ticks, counter), node).into_bytes()
}

/// `Uuid::now_v1`: a version 1 UUID of this node for the system's time and
/// a counter that the `uuid` crate keeps for the process. It panics where
/// the system's clock stands before 1970 or the system hands out no random
/// bytes to start the counter with.
#[verifier::external_body]
fn current_v1(node: &[u8; 6]) -> (bytes: [u8; 16])
    ensures
        exists|ticks: u64, counter: u16| bytes@ == #[trigger] v1_bytes(ticks, counter, node@),
{
    uuid::Uuid::now_v1(node).into_bytes()
}

/// `Uuid::new_v6` on the timestamp that `Timestamp::from_gregorian_time`
/// makes of `ticks` and `counter`: as for version 1, with the time fields
/// in the order of version 6.
#[verifier::external_body]
fn gregorian_v6(ticks: u64, counter: u16, node: &[u8; 6]) -> (bytes: [u8; 16])
    ensures
        bytes@ == v6_bytes(ticks, counter, node@),
{
    uuid::Uuid::new_v6(uuid::Timestamp::from_gregorian_time(ticks, counter), node).into_bytes()
}

/// `Uuid::now_v6`: a version 6 UUID of this node for the system's time and
/// the process's counter. It panics where the system's clock stands before
/// 1970 or the system hands out no random bytes to start the counter with.
#[verifier::external_body]
fn current_v6(node: &[u8; 6]) -> (bytes: [u8; 16])
    ensures
        exists|ticks: u64, counter: u16| bytes@ == #[trigger] v6_bytes(ticks, counter, node@),
{
    uuid::Uuid::now_v6(node).into_bytes()
}

/// `Uuid::new_v3`: the MD5 digest of the namespace's bytes followed by the
/// name, with variant and version 3 written over it.
#[verifier::external_body]
fn hashed_v3(namespace: &[u8; 16], name: &[u8]) -> (bytes: [u8; 16])
    ensures
        bytes@ == stamped(md5_hash(namespace@, name@), 3),
{
    uuid::Uuid::new_v3(&uuid::Uuid::from_bytes(*namespace), name).into_bytes()
}

/// `Uuid::new_v5`: the first sixteen bytes of the SHA-1 digest of the
/// namespace's bytes followed by the name, with variant and version 5
/// written over them.
#[verifier::external_body]
fn hashed_v5(namespace: &[u8; 16], name: &[u8]) -> (bytes: [u8; 16])
    ensures
        bytes@ == stamped(sha1_hash(namespace@, name@), 5),
{
    uuid::Uuid::new_v5(&uuid::Uuid::from_bytes(*namespace), name).into_bytes()
}

/// `Uuid::new_v4`: random bytes from the system's generator, but for the
/// version 4 and the variant. It panics where the system hands out no
/// random bytes.
#[verifier::external_body]
fn random_v4() -> (bytes: [u8; 16])
    ensures
        marked(bytes@, 4),
{
    uuid::Uuid::new_v4().into_bytes()
}

/// `Uuid::new_v7` on the timestamp that `Timestamp::from_unix_time` makes
/// of the time and a counter of 14 usable bits. The milliseconds of the
/// time fill bytes 0 to 5; the counter follows the version, its lowest two
/// bits set past the variant; the last 60 bits are random. It panics where
/// the system hands out no random bytes.
#[verifier::external_body]
fn unix_v7(seconds: u64, subsec_nanos: u32, counter: u16) -> (bytes: [u8; 16])
    requires
        seconds * 1000 + subsec_nanos / 1_000_000 <= u64::MAX,
    ensures
        marked(bytes@, 7),
        bytes@.subrange(0, 8) == v7_head(
            (seconds * 1000 + subsec_nanos / 1_000_000) as u64,
            counter,
        ),
        bytes@[8] & 0xf0 == v7_joint(counter),
{
    let time = uuid::Timestamp::from_unix_time(seconds, subsec_nanos, counter.into(), 14);
    uuid::Uuid::new_v7(time).into_bytes()
}

/// `Uuid::now_v7`: a version 7 UUID for the system's time, with a counter
/// that the `uuid` crate keeps for the process. It panics where the
/// system's clock stands before 1970 or the system hands out no random
/// bytes.
#[verifier::external_body]
fn current_v7() -> (bytes: [u8; 16])
    ensures
        marked(bytes@, 7),
{
    uuid::Uuid::now_v7().into_bytes()
}

/// `Uuid::new_v8`: the buffer with variant and version 8 written over it.
#[verifier::external_body]
fn custom_v8(buffer: &[u8; 16]) -> (bytes: [u8; 16])
    ensures
        bytes@ == v8_bytes(buffer@),
{
    uuid::Uuid::new_v8(*buffer).into_bytes()
}

/// `Uuid::parse_str`: reads a UUID in any of its textual layouts, among
/// them the four that `uuid_text` writes.
#[verifier::external_body]
fn parse_uuid(text: &str) -> (parsed: Result<[u8; 16], uuid::Error>)
    ensures
        parsed_view(parsed) == uuid_value(text@),
        reads_back(text@, parsed_view(parsed)),
{
    match uuid::Uuid::parse_str(text) {
        Ok(id) => Ok(id.into_bytes()),
        Err(error) => Err(error),
    }
}

impl UuidConstNamespace {
    /// The byte in which the well-known namespaces differ.
    pub open spec fn mark(self) -> u8 {
        match self {
            UuidConstNamespace::Dns => 0x10,
            UuidConstNamespace::Url => 0x11,
            UuidConstNamespace::Oid => 0x12,
            UuidConstNamespace::X500 => 0x14,
        }
    }

    /// The UUID of the namespace.
    pub fn bytes(self) -> (bytes: [u8; 16])
        ensures
            bytes@ == namespace_bytes(self.mark()),
    {
        let mark: u8 = match self {
            UuidConstNamespace::Dns => 0x10,
            UuidConstNamespace::Url => 0x11,
            UuidConstNamespace::Oid => 0x12,
            UuidConstNamespace::X500 => 0x14,
        };
        let bytes: [u8; 16] = [
            0x6b,
            0xa7,
            0xb8,
            mark,
            0x9d,
            0xad,
            0x11,
            0xd1,
            0x80,
            0xb4,
            0x00,
            0xc0,
            0x4f,
            0xd4,
            0x30,
            0xc8,
        ];
        assert(bytes@ =~= namespace_bytes(self.mark()));
        bytes
    }
}

impl UuidNamespace {
    /// The well-known namespace that a word names, if it names one.
    pub open spec fn known(word: Seq<char>) -> Option<UuidConstNamespace> {
        if word == "dns"@ {
            Some(UuidConstNamespace::Dns)
        } else if word == "oid"@ {
            Some(UuidConstNamespace::Oid)
        } else if word == "url"@ {
            Some(UuidConstNamespace::Url)
        } else if word == "x500"@ {
            Some(UuidConstNamespace::X500)
        } else {
            None
        }
    }

    /// The sixteen bytes of the namespace, if it has any: a custom one must
    /// read as a UUID.
    pub open spec fn value(self) -> Option<Seq<u8>> {
        match self {
            UuidNamespace::Const(known) => Some(namespace_bytes(known.mark())),
            UuidNamespace::Custom(text) => uuid_value(text@),
        }
    }

    /// Reads a namespace from a word: `dns`, `oid`, `url` and `x500` name
    /// the well-known ones, any other word is kept as the text of a custom
    /// one. This never fails.
    pub fn parse(word: &str) -> (namespace: Self)
        ensures
            match Self::known(word@) {
                Some(known) => namespace == UuidNamespace::Const(known),
                None => namespace matches UuidNamespace::Custom(text) && text@ == word@,
            },
    {
        if same_text(word, "dns") {
            UuidNamespace::Const(UuidConstNamespace::Dns)
        } else if same_text(word, "oid") {
            UuidNamespace::Const(UuidConstNamespace::Oid)
        } else if same_text(word, "url") {
            UuidNamespace::Const(UuidConstNamespace::Url)
        } else if same_text(word, "x500") {
            UuidNamespace::Const(UuidConstNamespace::X500)
        } else {
            UuidNamespace::Custom(String::from_str(word))
        }
    }

    /// The bytes of the namespace, or `InvalidUuid` for a custom one whose
    /// text is no UUID.
    pub fn resolve(&self) -> (resolved: Result<[u8; 16], UuidError>)
        ensures
            match self.value() {
                Some(bytes) => resolved matches Ok(found) && found@ == bytes,
                None => resolved matches Err(UuidError::InvalidUuid(_)),
            },
            self matches UuidNamespace::Custom(text) ==> reads_back(text@, self.value()),
    {
        match self {
            UuidNamespace::Const(known) => Ok(known.bytes()),
            UuidNamespace::Custom(text) => match parse_uuid(text.as_str()) {
                Ok(bytes) => Ok(bytes),
                Err(error) => Err(UuidError::InvalidUuid(error)),
            },
        }
    }
}

impl std::str::FromStr for UuidNamespace {
    type Err = std::convert::Infallible;

    /// Reads a namespace from a word as `parse` does; this never fails.
    fn from_str(word: &str) -> (namespace: Result<Self, Self::Err>)
        ensures
            match UuidNamespace::known(word@) {
                Some(known) => namespace matches Ok(read) && read == UuidNamespace::Const(known),
                None => namespace matches Ok(UuidNamespace::Custom(text)) && text@ == word@,
            },
    {
        Ok(UuidNamespace::parse(word))
    }
}

impl From<Vec<u8>> for UuidNodeId {
    fn from(node_id: Vec<u8>) -> (made: Self) {
        Self(node_id)
    }
}

impl vstd::std_specs::convert::FromSpecImpl<Vec<u8>> for UuidNodeId {
    open spec fn obeys_from_spec() -> bool {
        true
    }

    open spec fn from_spec(node_id: Vec<u8>) -> Self {
        UuidNodeId(node_id)
    }
}

impl From<Vec<u8>> for UuidBuffer {
    fn from(buffer: Vec<u8>) -> (made: Self) {
        Self(buffer)
    }
}

impl vstd::std_specs::convert::FromSpecImpl<Vec<u8>> for UuidBuffer {
    open spec fn obeys_from_spec() -> bool {
        true
    }

    open spec fn from_spec(buffer: Vec<u8>) -> Self {
        UuidBuffer(buffer)
    }
}

impl UuidNodeId {
    /// The node as six bytes, where it holds six.
    pub fn into_array(self) -> (node: Result<[u8; 6], ()>)
        ensures
            self.0@.len() == 6 <==> node is Ok,
            node matches Ok(bytes) ==> bytes@ == self.0@,
    {
        let held = self.0;
        if held.len() != 6 {
            return Err(());
        }
        let bytes: [u8; 6] = [held[0], held[1], held[2], held[3], held[4], held[5]];
        assert(bytes@ =~= held@);
        Ok(bytes)
    }
}

impl UuidBuffer {
    /// The buffer as sixteen bytes, where it holds sixteen.
    pub fn into_array(self) -> (buffer: Result<[u8; 16], ()>)
        ensures
            self.0@.len() == 16 <==> buffer is Ok,
            buffer matches Ok(bytes) ==> bytes@ == self.0@,
    {
        let held = self.0;
        if held.len() != 16 {
            return Err(());
        }
        let bytes: [u8; 16] = [
            held[0],
            held[1],
            held[2],
            held[3],
            held[4],
            held[5],
            held[6],
            held[7],
            held[8],
            held[9],
            held[10],
            held[11],
            held[12],
            held[13],
            held[14],
            held[15],
        ];
        assert(bytes@ =~= held@);
        Ok(bytes)
    }
}

/// The bytes of the version 3 UUID of a name in a namespace: the MD5 hash
/// with version and variant written over it.
pub open spec fn v3_bytes(namespace: Seq<u8>, name: Seq<u8>) -> Seq<u8> {
    stamped(md5_hash(namespace, name), 3)
}

/// The bytes of the version 5 UUID of a name in a namespace: the SHA-1 hash
/// with version and variant written over it.
pub open spec fn v5_bytes(namespace: Seq<u8>, name: Seq<u8>) -> Seq<u8> {
    stamped(sha1_hash(namespace, name), 5)
}

/// Generates a version 1 UUID from a timestamp and a node.
///
/// The timestamp is a number of 100-nanosecond ticks since 15 October 1582
/// with a counter; without one, the system's time and a counter kept for
/// the process are taken.
pub fn new_v1(timestamp: Option<(u64, u16)>, node_id: UuidNodeId, format: UuidFormat) -> (result:
    Result<String, UuidError>)
    ensures
        node_id.0@.len() != 6 ==> result == Err::<String, UuidError>(UuidError::InvalidNodeIdLength),
        node_id.0@.len() == 6 ==> match timestamp {
            Some((ticks, counter)) => result matches Ok(text) && text@ == uuid_text(
                v1_bytes(ticks, counter, node_id.0@),
                format,
            ),
            None => result matches Ok(text) && exists|ticks: u64, counter: u16|
                text@ == uuid_text(#[trigger] v1_bytes(ticks, counter, node_id.0@), format),
        },
{
    let node = match node_id.into_array() {
        Ok(node) => node,
        Err(_) => {
            return Err(UuidError::InvalidNodeIdLength);
        },
    };
    let bytes = match timestamp {
        Some((ticks, counter)) => gregorian_v1(ticks, counter, &node),
        None => current_v1(&node),
    };
    Ok(render(&bytes, format))
}

/// Generates the version 3 UUID of a name in a namespace.
pub fn new_v3(namespace: UuidNamespace, name: &str, format: UuidFormat) -> (result: Result<
    String,
    UuidError,
>)
    ensures
        match namespace.value() {
            Some(space) => result matches Ok(text) && text@ == uuid_text(
                v3_bytes(space, encode_utf8(name@)),
                format,
            ),
            None => result matches Err(UuidError::InvalidUuid(_)),
        },
        namespace matches UuidNamespace::Custom(written) ==> reads_back(
            written@,
            namespace.value(),
        ),
{
    let space = match namespace.resolve() {
        Ok(space) => space,
        Err(error) => {
            return Err(error);
        },
    };
    let bytes = hashed_v3(&space, name.as_bytes());
    Ok(render(&bytes, format))
}

/// Generates a version 4 UUID: random but for version and variant.
pub fn new_v4(format: UuidFormat) -> (text: String)
    ensures
        exists|bytes: Seq<u8>| marked(bytes, 4) && text@ == #[trigger] uuid_text(bytes, format),
{
    let bytes = random_v4();
    render(&bytes, format)
}

/// Generates the version 5 UUID of a name in a namespace.
pub fn new_v5(namespace: UuidNamespace, name: &str, format: UuidFormat) -> (result: Result<
    String,
    UuidError,
>)
    ensures
        match namespace.value() {
            Some(space) => result matches Ok(text) && text@ == uuid_text(
                v5_bytes(space, encode_utf8(name@)),
                format,
            ),
            None => result matches Err(UuidError::InvalidUuid(_)),
        },
        namespace matches UuidNamespace::Custom(written) ==> reads_back(
            written@,
            namespace.value(),
        ),
{
    let space = match namespace.resolve() {
        Ok(space) => space,
        Err(error) => {
            return Err(error);
        },
    };
    let bytes = hashed_v5(&space, name.as_bytes());
    Ok(render(&bytes, format))
}

/// Generates a version 6 UUID from a timestamp and a node: as version 1,
/// with the timestamp laid out from its highest bit down.
pub fn new_v6(timestamp: Option<(u64, u16)>, node_id: UuidNodeId, format: UuidFormat) -> (result:
    Result<String, UuidError>)
    ensures
        node_id.0@.len() != 6 ==> result == Err::<String, UuidError>(UuidError::InvalidNodeIdLength),
        node_id.0@.len() == 6 ==> match timestamp {
            Some((ticks, counter)) => result matches Ok(text) && text@ == uuid_text(
                v6_bytes(ticks, counter, node_id.0@),
                format,
            ),
            None => result matches Ok(text) && exists|ticks: u64, counter: u16|
                text@ == uuid_text(#[trigger] v6_bytes(ticks, counter, node_id.0@), format),
        },
{
    let node = match node_id.into_array() {
        Ok(node) => node,
        Err(_) => {
            return Err(UuidError::InvalidNodeIdLength);
        },
    };
    let bytes = match timestamp {
        Some((ticks, counter)) => gregorian_v6(ticks, counter, &node),
        None => current_v6(&node),
    };
    Ok(render(&bytes, format))
}

/// Generates a version 7 UUID.
///
/// The timestamp is a number of milliseconds since 1970 with a counter: the
/// low 48 bits of the milliseconds lead, the low 14 bits of the counter
/// follow the version, and the last 60 bits are random. Without a
/// timestamp the system's time is taken.
pub fn new_v7(timestamp: Option<(u64, u16)>, format: UuidFormat) -> (text: String)
    ensures
        match timestamp {
            Some((ticks, counter)) => exists|bytes: Seq<u8>|
                marked(bytes, 7) && bytes.subrange(0, 8) == v7_head(ticks, counter) && bytes[8]
                    & 0xf0 == v7_joint(counter) && text@ == #[trigger] uuid_text(bytes, format),
            None => exists|bytes: Seq<u8>|
                marked(bytes, 7) && text@ == #[trigger] uuid_text(bytes, format),
        },
{
    let bytes = match timestamp {
        Some((ticks, counter)) => {
            let seconds: u64 = ticks / 1000;
            let nanos: u32 = ((ticks % 1000) * 1_000_000) as u32;
            assert(seconds * 1000 + nanos / 1_000_000 == ticks);
            unix_v7(seconds, nanos, counter)
        },
        None => current_v7(),
    };
    render(&bytes, format)
}

/// Generates a version 8 UUID: the buffer with only version and variant
/// written over it.
pub fn new_v8(buf: UuidBuffer, format: UuidFormat) -> (result: Result<String, UuidError>)
    ensures
        buf.0@.len() != 16 ==> result == Err::<String, UuidError>(UuidError::InvalidBufferLength),
        buf.0@.len() == 16 ==> (result matches Ok(text) && text@ == uuid_text(
            v8_bytes(buf.0@),
            format,
        )),
{
    let buffer = match buf.into_array() {
        Ok(buffer) => buffer,
        Err(_) => {
            return Err(UuidError::InvalidBufferLength);
        },
    };
    let bytes = custom_v8(&buffer);
    Ok(render(&bytes, format))
}

/// `text` with every hyphen taken out.
pub open spec fn without_hyphens(text: Seq<char>) -> Seq<char> {
    text.filter(|c: char| c != '-')
}

/// Taking the hyphens out of a text that holds none changes nothing.
proof fn lemma_nothing_to_take_out(text: Seq<char>)
    requires
        forall|i: int| 0 <= i < text.len() ==> text[i] != '-',
    ensures
        without_hyphens(text) == text,
    decreases text.len(),
{
    reveal(Seq::filter);
    if text.len() > 0 {
        lemma_nothing_to_take_out(text.drop_last());
        assert(text.drop_last().push(text.last()) =~= text);
    }
}

/// Taking the hyphens out of a group of digits followed by a hyphen and
/// more text leaves the group and what is left of the rest.
proof fn lemma_take_out_after_group(group: Seq<u8>, rest: Seq<char>)
    ensures
        without_hyphens(hex_run(group) + seq!['-'] + rest) == hex_run(group) + without_hyphens(
            rest,
        ),
{
    let keep = |c: char| c != '-';
    reveal_with_fuel(Seq::filter, 3);
    lemma_hex_run_no_hyphen(group);
    lemma_nothing_to_take_out(hex_run(group));
    assert(seq!['-'].drop_last() =~= Seq::<char>::empty());
    assert(seq!['-'].filter(keep) =~= Seq::<char>::empty());
    Seq::filter_distributes_over_add(hex_run(group), seq!['-'], keep);
    Seq::filter_distributes_over_add(hex_run(group) + seq!['-'], rest, keep);
    assert(hex_run(group) + Seq::<char>::empty() =~= hex_run(group));
}

/// The four layouts of one value: the braced one is the hyphenated one
/// between braces, the URN is the hyphenated one after `urn:uuid:`, and the
/// simple one is the hyphenated one without its hyphens.
pub proof fn lemma_layouts_agree(bytes: Seq<u8>)
    requires
        bytes.len() == 16,
    ensures
        uuid_text(bytes, UuidFormat::Braced) == seq!['{'] + uuid_text(
            bytes,
            UuidFormat::Hyphenated,
        ) + seq!['}'],
        uuid_text(bytes, UuidFormat::Urn) == "urn:uuid:"@ + uuid_text(
            bytes,
            UuidFormat::Hyphenated,
        ),
        uuid_text(bytes, UuidFormat::Simple) == without_hyphens(
            uuid_text(bytes, UuidFormat::Hyphenated),
        ),
        uuid_text(bytes, UuidFormat::Hyphenated).len() == 36,
        uuid_text(bytes, UuidFormat::Simple).len() == 32,
{
    let a = bytes.subrange(0, 4);
    let b = bytes.subrange(4, 6);
    let c = bytes.subrange(6, 8);
    let d = bytes.subrange(8, 10);
    let e = bytes.subrange(10, 16);
    let hyphen = seq!['-'];
    let tail_d = hex_run(d) + hyphen + hex_run(e);
    let tail_c = hex_run(c) + hyphen + tail_d;
    let tail_b = hex_run(b) + hyphen + tail_c;
    let all = hex_run(a) + hyphen + tail_b;
    assert(all =~= hyphenated_text(bytes));
    lemma_take_out_after_group(a, tail_b);
    lemma_take_out_after_group(b, tail_c);
    lemma_take_out_after_group(c, tail_d);
    lemma_take_out_after_group(d, hex_run(e));
    lemma_hex_run_no_hyphen(e);
    lemma_nothing_to_take_out(hex_run(e));
    lemma_hex_run_concat(d, e);
    lemma_hex_run_concat(c, d + e);
    lemma_hex_run_concat(b, c + (d + e));
    lemma_hex_run_concat(a, b + (c + (d + e)));
    assert(a + (b + (c + (d + e))) =~= bytes);
}

/// The UUIDs of versions 3 and 5 of one name in one namespace differ in
/// every layout: the digit of the version tells them apart.
pub proof fn lemma_v3_differs_from_v5(namespace: Seq<u8>, name: Seq<u8>, format: UuidFormat)
    ensures
        uuid_text(v3_bytes(namespace, name), format) != uuid_text(
            v5_bytes(namespace, name),
            format,
        ),
{
    let three = v3_bytes(namespace, name);
    let five = v5_bytes(namespace, name);
    let x = md5_hash(namespace, name)[6];
    let y = sha1_hash(namespace, name)[6];
    assert(((x & 0x0f) | (3u8 << 4)) / 16 == 3) by (bit_vector);
    assert(((y & 0x0f) | (5u8 << 4)) / 16 == 5) by (bit_vector);
    assert(three[6] as int / 16 == 3);
    assert(five[6] as int / 16 == 5);
    lemma_version_digit(three, format);
    lemma_version_digit(five, format);
}

/// Where the digit of the version stands in each layout.
pub open spec fn version_digit_at(format: UuidFormat) -> int {
    match format {
        UuidFormat::Hyphenated => 14,
        UuidFormat::Simple => 12,
        UuidFormat::Urn => 23,
        UuidFormat::Braced => 15,
    }
}

/// The text of a UUID shows the high half of byte 6, the version, at a
/// place that depends on the layout alone.
pub proof fn lemma_version_digit(bytes: Seq<u8>, format: UuidFormat)
    requires
        bytes.len() == 16,
    ensures
        uuid_text(bytes, format)[version_digit_at(format)] == hex_char(bytes[6] as int / 16),
{
    reveal_strlit("urn:uuid:");
    let c = bytes.subrange(6, 8);
    assert(hex_run(c)[0] == hex_char(c[0] as int / 16));
    assert(hyphenated_text(bytes)[14] == hex_run(c)[0]);
    assert(hex_run(bytes)[12] == hex_char(bytes[6] as int / 16));
}

impl UuidFormat {
    /// The layout that a name stands for, if it stands for one.
    pub open spec fn named(name: Seq<char>) -> Option<UuidFormat> {
        if name == "hyphenated"@ {
            Some(UuidFormat::Hyphenated)
        } else if name == "simple"@ {
            Some(UuidFormat::Simple)
        } else if name == "urn"@ {
            Some(UuidFormat::Urn)
        } else if name == "braced"@ {
            Some(UuidFormat::Braced)
        } else {
            None
        }
    }

    /// Reads a layout from its name in lower case.
    pub fn from_name(name: &str) -> (format: Option<UuidFormat>)
        ensures
            format == Self::named(name@),
    {
        if same_text(name, "hyphenated") {
            Some(UuidFormat::Hyphenated)
        } else if same_text(name, "simple") {
            Some(UuidFormat::Simple)
        } else if same_text(name, "urn") {
            Some(UuidFormat::Urn)
        } else if same_text(name, "braced") {
            Some(UuidFormat::Braced)
        } else {
            None
        }
    }
}

/// The timestamp of a time-based UUID from its two optional parts: none
/// without ticks, and with ticks a counter left out is 0.
pub fn timestamp_of(ticks: Option<u64>, counter: Option<u16>) -> (timestamp: Option<(u64, u16)>)
    ensures
        timestamp == match ticks {
            Some(t) => Some(
                (
                    t,
                    match counter {
                        Some(c) => c,
                        None => 0u16,
                    },
                ),
            ),
            None => None,
        },
{
    match ticks {
        Some(t) => match counter {
            Some(c) => Some((t, c)),
            None => Some((t, 0)),
        },
        None => None,
    }
}

} // verus!
