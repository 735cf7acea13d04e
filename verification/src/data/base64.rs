//! Base64 encoding and decoding in nine dialects, one of them with an
//! alphabet and a padding policy that the caller supplies.

use crate::data::alphabet::{alphabet_fault, check_alphabet, is_alphabet, lemma_fault_free_is_alphabet, AlphabetError};
use crate::data::text::same_text;
use base64::alphabet::Alphabet;
use base64::engine::general_purpose::{NO_PAD, PAD};
use base64::engine::GeneralPurpose;
use base64::Engine;
use vstd::prelude::*;
use vstd::utf8::{encode_utf8, is_ascii_chars, is_ascii_chars_encode_utf8};

verus! {

/// The base64 dialect to transcode with.
#[derive(Clone, Copy, Debug, PartialEq, Eq, Structural)]
pub enum Base64Engine {
    Standard,
    StandardNoPad,
    UrlSafe,
    UrlSafeNoPad,
    Bcrypt,
    BinHex,
    Crypt,
    ImapMutf7,
    Custom,
}

/// Alphabet and padding policy of the `Custom` dialect.
#[derive(Clone, Debug, PartialEq, Eq)]
pub struct Base64Config {
    /// The 64 symbols, in the order of the values they stand for.
    pub alphabet: String,
    /// Whether encoded text is padded with `=` to a multiple of four symbols.
    pub pad: bool,
}

/// Why a text is no base64 in the dialect it was decoded with.
#[derive(Clone, Copy, Debug, PartialEq, Eq, Structural)]
pub enum DecodeError {
    /// The byte at the offset is no symbol of the alphabet, or is padding
    /// that does not stand at the end.
    InvalidByte(usize, u8),
    /// The number of symbols cannot result from an encoding.
    InvalidLength(usize),
    /// The last symbol, at the offset, carries bits that no encoding sets.
    InvalidLastSymbol(usize, u8),
    /// Padding is missing or wrong where the dialect pads, or present where
    /// it does not.
    InvalidPadding,
}

/// What can go wrong when encoding or decoding.
#[derive(Clone, Debug, PartialEq, Eq)]
pub enum Base64Error {
    /// No dialect has this name.
    UnknownEngine(String),
    /// The `Custom` dialect was asked for without a configuration.
    EmptyConfig,
    /// The configured alphabet cannot be used.
    InvalidAlphabet(AlphabetError),
    /// The text to decode is malformed.
    InvalidBase64(DecodeError),
}

/// The UTF-8 bytes of a text: the form in which an alphabet is examined.
pub open spec fn text_bytes(text: Seq<char>) -> Seq<u8> {
    encode_utf8(text)
}

/// The alphabet of each built-in dialect, as text. `Custom` has none of its
/// own: its alphabet comes with the call.
pub open spec fn dialect_alphabet(engine: Base64Engine) -> Seq<char> {
    match engine {
        Base64Engine::Standard
        | Base64Engine::StandardNoPad => "ABCDEFGHIJKLMNOPQRSTUVWXYZabcdefghijklmnopqrstuvwxyz0123456789+/"@,
        Base64Engine::UrlSafe
        | Base64Engine::UrlSafeNoPad => "ABCDEFGHIJKLMNOPQRSTUVWXYZabcdefghijklmnopqrstuvwxyz0123456789-_"@,
        Base64Engine::Bcrypt => "./ABCDEFGHIJKLMNOPQRSTUVWXYZabcdefghijklmnopqrstuvwxyz0123456789"@,
        Base64Engine::BinHex => "!\"#$%&'()*+,-012345689@ABCDEFGHIJKLMNPQRSTUVXYZ[`abcdefhijklmpqr"@,
        Base64Engine::Crypt => "./0123456789ABCDEFGHIJKLMNOPQRSTUVWXYZabcdefghijklmnopqrstuvwxyz"@,
        Base64Engine::ImapMutf7 => "ABCDEFGHIJKLMNOPQRSTUVWXYZabcdefghijklmnopqrstuvwxyz0123456789+,"@,
        Base64Engine::Custom => Seq::empty(),
    }
}

/// Whether a built-in dialect pads: only `Standard` and `UrlSafe` do.
pub open spec fn dialect_pads(engine: Base64Engine) -> bool {
    engine == Base64Engine::Standard || engine == Base64Engine::UrlSafe
}

/// A text of 64 distinct printable ASCII characters other than `=`.
pub open spec fn is_alphabet_text(text: Seq<char>) -> bool {
    &&& text.len() == 64
    &&& forall|i: int| 0 <= i < text.len() ==> ' ' <= #[trigger] text[i] <= '~' && text[i] != '='
    &&& forall|i: int, j: int| 0 <= i < j < text.len() ==> text[i] != text[j]
}

/// The bytes of an alphabet text form an alphabet.
pub proof fn lemma_alphabet_text_bytes(text: Seq<char>)
    requires
        is_alphabet_text(text),
    ensures
        is_alphabet(text_bytes(text)),
        alphabet_fault(text_bytes(text)) is None,
{
    assert(is_ascii_chars(text)) by {
        assert forall|i: int| 0 <= i < text.len() implies '\0' <= #[trigger] text[i] <= '\u{7f}' by {
            assert(' ' <= text[i] <= '~');
        }
    }
    is_ascii_chars_encode_utf8(text);
    let bytes = text_bytes(text);
    assert forall|i: int| 0 <= i < bytes.len() implies 32 <= #[trigger] bytes[i] <= 126 by {
        assert(text[i] as u8 == bytes[i]);
        assert(' ' <= text[i] <= '~');
    }
    assert forall|i: int| 0 <= i < bytes.len() implies #[trigger] bytes[i] != 61 by {
        assert(text[i] as u8 == bytes[i]);
        assert(' ' <= text[i] <= '~' && text[i] != '=');
    }
    assert forall|i: int, j: int|
        0 <= i < bytes.len() && 0 <= j < bytes.len() && i != j implies bytes[i] != bytes[j] by {
        assert(text[i] as u8 == bytes[i]);
        assert(text[j] as u8 == bytes[j]);
        assert(' ' <= text[i] <= '~');
        assert(' ' <= text[j] <= '~');
        if i < j {
            assert(text[i] != text[j]);
        } else {
            assert(text[j] != text[i]);
        }
    }
    lemma_fault_free_is_alphabet(bytes);
}

/// Every built-in dialect has a well-formed alphabet.
pub proof fn lemma_dialect_alphabets(engine: Base64Engine)
    requires
        engine != Base64Engine::Custom,
    ensures
        is_alphabet_text(dialect_alphabet(engine)),
        is_alphabet(text_bytes(dialect_alphabet(engine))),
{
    reveal_strlit("ABCDEFGHIJKLMNOPQRSTUVWXYZabcdefghijklmnopqrstuvwxyz0123456789+/");
    reveal_strlit("ABCDEFGHIJKLMNOPQRSTUVWXYZabcdefghijklmnopqrstuvwxyz0123456789-_");
    reveal_strlit("./ABCDEFGHIJKLMNOPQRSTUVWXYZabcdefghijklmnopqrstuvwxyz0123456789");
    reveal_strlit("!\"#$%&'()*+,-012345689@ABCDEFGHIJKLMNPQRSTUVXYZ[`abcdefhijklmpqr");
    reveal_strlit("./0123456789ABCDEFGHIJKLMNOPQRSTUVWXYZabcdefghijklmnopqrstuvwxyz");
    reveal_strlit("ABCDEFGHIJKLMNOPQRSTUVWXYZabcdefghijklmnopqrstuvwxyz0123456789+,");
    lemma_alphabet_text_bytes(dialect_alphabet(engine));
}

/// Length of the encoding of `n` bytes: four symbols for every three bytes,
/// and for a last group of one or two bytes either a full padded group or
/// two or three symbols.
pub open spec fn encoded_len(n: nat, pad: bool) -> nat {
    let whole = n / 3 * 4;
    let rest = n % 3;
    if rest == 0 {
        whole
    } else if pad {
        whole + 4
    } else {
        whole + rest + 1
    }
}

/// The base64 text that stands for `data` under the alphabet `symbols`, with
/// or without padding.
pub uninterp spec fn base64_text(data: Seq<u8>, symbols: Seq<char>, pad: bool) -> Seq<char>;

/// What decoding `text` under the alphabet `symbols` gives: the bytes it
/// stands for, or the reason it stands for none.
pub uninterp spec fn base64_bytes(text: Seq<char>, symbols: Seq<char>, pad: bool) -> Result<
    Seq<u8>,
    DecodeError,
>;

/// The outcome of a decoding that yields `bytes`.
pub open spec fn decoded(bytes: Seq<u8>) -> Result<Seq<u8>, DecodeError> {
    Ok(bytes)
}

/// A decoding outcome with the bytes taken as a sequence.
pub open spec fn outcome_view(outcome: Result<Vec<u8>, DecodeError>) -> Result<
    Seq<u8>,
    DecodeError,
> {
    match outcome {
        Ok(bytes) => Ok(bytes@),
        Err(e) => Err(e),
    }
}

/// Encodes with `base64`'s general-purpose engine, built from `symbols` by
/// `Alphabet::new` and `GeneralPurpose::new` with the configuration `PAD` or
/// `NO_PAD`. Believed of `Engine::encode`: the text has the length that
/// `base64::encoded_len` computes, and decoding it with an engine built the
/// same way gives the input back.
#[verifier::external_body]
fn engine_encode(data: &[u8], symbols: &str, pad: bool) -> (text: String)
    requires
        alphabet_fault(text_bytes(symbols@)) is None,
        encoded_len(data@.len(), pad) <= usize::MAX,
    ensures
        text@ == base64_text(data@, symbols@, pad),
        text@.len() == encoded_len(data@.len(), pad),
        base64_bytes(text@, symbols@, pad) == decoded(data@),
{
    let alphabet = Alphabet::new(symbols).unwrap();
    let engine = GeneralPurpose::new(&alphabet, if pad { PAD } else { NO_PAD });
    engine.encode(data)
}

/// Decodes with `base64`'s general-purpose engine, built as for encoding.
/// With `PAD` the engine demands canonical padding, with `NO_PAD` it accepts
/// none; trailing bits are never tolerated. The error of `Engine::decode` is
/// handed on variant for variant.
#[verifier::external_body]
fn engine_decode(text: &str, symbols: &str, pad: bool) -> (outcome: Result<Vec<u8>, DecodeError>)
    requires
        alphabet_fault(text_bytes(symbols@)) is None,
    ensures
        outcome_view(outcome) == base64_bytes(text@, symbols@, pad),
{
    let alphabet = Alphabet::new(symbols).unwrap();
    let engine = GeneralPurpose::new(&alphabet, if pad { PAD } else { NO_PAD });
    match engine.decode(text) {
        Ok(bytes) => Ok(bytes),
        Err(base64::DecodeError::InvalidByte(at, byte)) => Err(DecodeError::InvalidByte(at, byte)),
        Err(base64::DecodeError::InvalidLength(len)) => Err(DecodeError::InvalidLength(len)),
        Err(base64::DecodeError::InvalidLastSymbol(at, byte)) => Err(DecodeError::InvalidLastSymbol(at, byte)),
        Err(base64::DecodeError::InvalidPadding) => Err(DecodeError::InvalidPadding),
    }
}

/// The error that ends a call before anything is transcoded: `Custom`
/// without a configuration, or with an alphabet that is none.
pub open spec fn setup_fault(engine: Base64Engine, config: Option<Base64Config>) -> Option<
    Base64Error,
> {
    if engine != Base64Engine::Custom {
        None
    } else {
        match config {
            None => Some(Base64Error::EmptyConfig),
            Some(custom) => match alphabet_fault(text_bytes(custom.alphabet@)) {
                Some(fault) => Some(Base64Error::InvalidAlphabet(fault)),
                None => None,
            },
        }
    }
}

/// The alphabet in force: the configured one for `Custom`, else the
/// dialect's own. A configuration given with a built-in dialect is ignored.
pub open spec fn active_alphabet(engine: Base64Engine, config: Option<Base64Config>) -> Seq<char> {
    match config {
        Some(custom) if engine == Base64Engine::Custom => custom.alphabet@,
        _ => dialect_alphabet(engine),
    }
}

/// The padding policy in force.
pub open spec fn active_padding(engine: Base64Engine, config: Option<Base64Config>) -> bool {
    match config {
        Some(custom) if engine == Base64Engine::Custom => custom.pad,
        _ => dialect_pads(engine),
    }
}

/// What `encode` returns, with the text taken as a sequence of characters.
pub open spec fn encode_spec(
    data: Seq<u8>,
    engine: Base64Engine,
    config: Option<Base64Config>,
) -> Result<Seq<char>, Base64Error> {
    match setup_fault(engine, config) {
        Some(error) => Err(error),
        None => Ok(
            base64_text(data, active_alphabet(engine, config), active_padding(engine, config)),
        ),
    }
}

/// What `decode` returns, with the bytes taken as a sequence.
pub open spec fn decode_spec(
    text: Seq<char>,
    engine: Base64Engine,
    config: Option<Base64Config>,
) -> Result<Seq<u8>, Base64Error> {
    match setup_fault(engine, config) {
        Some(error) => Err(error),
        None => match base64_bytes(
            text,
            active_alphabet(engine, config),
            active_padding(engine, config),
        ) {
            Ok(bytes) => Ok(bytes),
            Err(fault) => Err(Base64Error::InvalidBase64(fault)),
        },
    }
}

/// An encoding result with the text taken as a sequence of characters.
pub open spec fn text_view(result: Result<String, Base64Error>) -> Result<Seq<char>, Base64Error> {
    match result {
        Ok(text) => Ok(text@),
        Err(error) => Err(error),
    }
}

/// A decoding result with the bytes taken as a sequence.
pub open spec fn bytes_view(result: Result<Vec<u8>, Base64Error>) -> Result<Seq<u8>, Base64Error> {
    match result {
        Ok(bytes) => Ok(bytes@),
        Err(error) => Err(error),
    }
}

/// Alphabet and padding policy of a built-in dialect.
pub fn dialect(engine: Base64Engine) -> (entry: (&'static str, bool))
    requires
        engine != Base64Engine::Custom,
    ensures
        entry.0@ == dialect_alphabet(engine),
        entry.1 == dialect_pads(engine),
        alphabet_fault(text_bytes(entry.0@)) is None,
{
    proof {
        lemma_dialect_alphabets(engine);
        lemma_fault_free_is_alphabet(text_bytes(dialect_alphabet(engine)));
    }
    match engine {
        Base64Engine::Standard => (
            "ABCDEFGHIJKLMNOPQRSTUVWXYZabcdefghijklmnopqrstuvwxyz0123456789+/",
            true,
        ),
        Base64Engine::StandardNoPad => (
            "ABCDEFGHIJKLMNOPQRSTUVWXYZabcdefghijklmnopqrstuvwxyz0123456789+/",
            false,
        ),
        Base64Engine::UrlSafe => (
            "ABCDEFGHIJKLMNOPQRSTUVWXYZabcdefghijklmnopqrstuvwxyz0123456789-_",
            true,
        ),
        Base64Engine::UrlSafeNoPad => (
            "ABCDEFGHIJKLMNOPQRSTUVWXYZabcdefghijklmnopqrstuvwxyz0123456789-_",
            false,
        ),
        Base64Engine::Bcrypt => (
            "./ABCDEFGHIJKLMNOPQRSTUVWXYZabcdefghijklmnopqrstuvwxyz0123456789",
            false,
        ),
        Base64Engine::BinHex => (
            "!\"#$%&'()*+,-012345689@ABCDEFGHIJKLMNPQRSTUVXYZ[`abcdefhijklmpqr",
            false,
        ),
        Base64Engine::Crypt => (
            "./0123456789ABCDEFGHIJKLMNOPQRSTUVWXYZabcdefghijklmnopqrstuvwxyz",
            false,
        ),
        _ => ("ABCDEFGHIJKLMNOPQRSTUVWXYZabcdefghijklmnopqrstuvwxyz0123456789+,", false),
    }
}

/// Encodes `data` as base64 text in the dialect `engine`.
///
/// A built-in dialect always succeeds. `Custom` needs a configuration whose
/// alphabet is 64 distinct printable ASCII symbols other than `=`. The text
/// has the length of the dialect's padding policy, and decoding it in the
/// same dialect gives `data` back. The length of the text must not exceed
/// what a `usize` holds.
pub fn encode(data: &[u8], engine: Base64Engine, config: Option<Base64Config>) -> (result: Result<
    String,
    Base64Error,
>)
    requires
        setup_fault(engine, config) is None ==> encoded_len(
            data@.len(),
            active_padding(engine, config),
        ) <= usize::MAX,
    ensures
        text_view(result) == encode_spec(data@, engine, config),
        result matches Ok(text) ==> text@.len() == encoded_len(
            data@.len(),
            active_padding(engine, config),
        ),
        result matches Ok(text) ==> decode_spec(text@, engine, config) == Ok::<
            Seq<u8>,
            Base64Error,
        >(data@),
{
    match engine {
        Base64Engine::Custom => match config {
            None => Err(Base64Error::EmptyConfig),
            Some(custom) => match check_alphabet(custom.alphabet.as_str().as_bytes()) {
                Err(fault) => Err(Base64Error::InvalidAlphabet(fault)),
                Ok(()) => Ok(engine_encode(data, custom.alphabet.as_str(), custom.pad)),
            },
        },
        _ => {
            let (symbols, pad) = dialect(engine);
            Ok(engine_encode(data, symbols, pad))
        },
    }
}

/// Turns the outcome of decoding into the result of `decode`: the bytes as
/// they are, a fault as `InvalidBase64`.
pub fn decode_result(outcome: Result<Vec<u8>, DecodeError>) -> (result: Result<Vec<u8>, Base64Error>)
    ensures
        match outcome {
            Ok(bytes) => result == Ok::<Vec<u8>, Base64Error>(bytes),
            Err(fault) => result == Err::<Vec<u8>, Base64Error>(Base64Error::InvalidBase64(fault)),
        },
{
    match outcome {
        Ok(bytes) => Ok(bytes),
        Err(fault) => Err(Base64Error::InvalidBase64(fault)),
    }
}

/// Decodes base64 text in the dialect `engine` to the bytes it stands for.
///
/// The configuration is examined as in `encode`, and first. Text that holds
/// a character outside the alphabet, has a length or a last symbol that no
/// encoding produces, or is padded otherwise than the dialect pads is
/// `InvalidBase64`.
pub fn decode(data: &str, engine: Base64Engine, config: Option<Base64Config>) -> (result: Result<
    Vec<u8>,
    Base64Error,
>)
    ensures
        bytes_view(result) == decode_spec(data@, engine, config),
{
    match engine {
        Base64Engine::Custom => match config {
            None => Err(Base64Error::EmptyConfig),
            Some(custom) => match check_alphabet(custom.alphabet.as_str().as_bytes()) {
                Err(fault) => Err(Base64Error::InvalidAlphabet(fault)),
                Ok(()) => decode_result(engine_decode(data, custom.alphabet.as_str(), custom.pad)),
            },
        },
        _ => {
            let (symbols, pad) = dialect(engine);
            decode_result(engine_decode(data, symbols, pad))
        },
    }
}

/// The length of encoded text. Without padding, the text of `n` bytes has
/// `4n / 3` symbols, rounded up: the least number whose threefold reaches
/// `4n`. With padding it has four symbols for every three bytes begun, a
/// multiple of four.
pub proof fn lemma_encoded_len(n: nat)
    ensures
        encoded_len(n, false) == (4 * n + 2) / 3,
        3 * encoded_len(n, false) >= 4 * n,
        3 * encoded_len(n, false) < 4 * n + 3,
        encoded_len(n, true) == (n + 2) / 3 * 4,
        encoded_len(n, true) % 4 == 0,
        encoded_len(n, false) <= encoded_len(n, true),
{
}

impl Base64Engine {
    /// The dialect that a name stands for, if it stands for one.
    pub open spec fn named(name: Seq<char>) -> Option<Base64Engine> {
        if name == "standard"@ {
            Some(Base64Engine::Standard)
        } else if name == "standardnopad"@ {
            Some(Base64Engine::StandardNoPad)
        } else if name == "urlsafe"@ {
            Some(Base64Engine::UrlSafe)
        } else if name == "urlsafenopad"@ {
            Some(Base64Engine::UrlSafeNoPad)
        } else if name == "bcrypt"@ {
            Some(Base64Engine::Bcrypt)
        } else if name == "binhex"@ {
            Some(Base64Engine::BinHex)
        } else if name == "crypt"@ {
            Some(Base64Engine::Crypt)
        } else if name == "imapmutf7"@ {
            Some(Base64Engine::ImapMutf7)
        } else if name == "custom"@ {
            Some(Base64Engine::Custom)
        } else {
            None
        }
    }

    /// Reads a dialect from its name, in lower case and without separators;
    /// any other word is an `UnknownEngine`.
    pub fn from_name(name: &str) -> (engine: Result<Base64Engine, Base64Error>)
        ensures
            match Self::named(name@) {
                Some(found) => engine == Ok::<Base64Engine, Base64Error>(found),
                None => engine matches Err(Base64Error::UnknownEngine(word)) && word@ == name@,
            },
    {
        if same_text(name, "standard") {
            Ok(Base64Engine::Standard)
        } else if same_text(name, "standardnopad") {
            Ok(Base64Engine::StandardNoPad)
        } else if same_text(name, "urlsafe") {
            Ok(Base64Engine::UrlSafe)
        } else if same_text(name, "urlsafenopad") {
            Ok(Base64Engine::UrlSafeNoPad)
        } else if same_text(name, "bcrypt") {
            Ok(Base64Engine::Bcrypt)
        } else if same_text(name, "binhex") {
            Ok(Base64Engine::BinHex)
        } else if same_text(name, "crypt") {
            Ok(Base64Engine::Crypt)
        } else if same_text(name, "imapmutf7") {
            Ok(Base64Engine::ImapMutf7)
        } else if same_text(name, "custom") {
            Ok(Base64Engine::Custom)
        } else {
            Err(Base64Error::UnknownEngine(String::from_str(name)))
        }
    }
}

impl Base64Config {
    /// The configuration that goes with a dialect: none for a built-in one;
    /// for `Custom` the alphabet and padding policy asked for, an alphabet
    /// left out being the empty one and a policy left out no padding.
    pub fn for_engine(engine: Base64Engine, alphabet: Option<String>, pad: Option<bool>) -> (config:
        Option<Base64Config>)
        ensures
            engine != Base64Engine::Custom ==> config is None,
            engine == Base64Engine::Custom ==> (config matches Some(custom) && custom.alphabet@
                == match alphabet {
                Some(symbols) => symbols@,
                None => Seq::<char>::empty(),
            } && custom.pad == (pad == Some(true))),
    {
        match engine {
            Base64Engine::Custom => {
                let alphabet = match alphabet {
                    Some(symbols) => symbols,
                    None => String::new(),
                };
                let pad = match pad {
                    Some(pad) => pad,
                    None => false,
                };
                Some(Base64Config { alphabet, pad })
            },
            _ => None,
        }
    }
}

/// What the alphabet of a `Custom` configuration decides: one that is not
/// 64 bytes long is `InvalidLength`, one of 64 bytes that holds a byte
/// twice is rejected too, and 64 distinct printable symbols other than `=`
/// are accepted, whatever the data and the padding policy.
pub proof fn lemma_custom_alphabet(data: Seq<u8>, custom: Base64Config)
    ensures
        text_bytes(custom.alphabet@).len() != 64 ==> encode_spec(
            data,
            Base64Engine::Custom,
            Some(custom),
        ) == Err::<Seq<char>, Base64Error>(
            Base64Error::InvalidAlphabet(AlphabetError::InvalidLength),
        ),
        (exists|i: int, j: int|
            0 <= i < j < text_bytes(custom.alphabet@).len() && text_bytes(custom.alphabet@)[i]
                == text_bytes(custom.alphabet@)[j]) ==> encode_spec(
            data,
            Base64Engine::Custom,
            Some(custom),
        ) matches Err(Base64Error::InvalidAlphabet(_)),
        is_alphabet(text_bytes(custom.alphabet@)) <==> encode_spec(
            data,
            Base64Engine::Custom,
            Some(custom),
        ) is Ok,
{
    lemma_fault_free_is_alphabet(text_bytes(custom.alphabet@));
}

} // verus!
