use httpbin::data::base64::{Base64Config, Base64Engine, Base64Error};
use httpbin::data::uuid::{timestamp_of, UuidBuffer, UuidFormat, UuidNodeId};

#[test]
fn engine_names() {
    assert_eq!(Base64Engine::from_name("standard"), Ok(Base64Engine::Standard));
    assert_eq!(Base64Engine::from_name("standardnopad"), Ok(Base64Engine::StandardNoPad));
    assert_eq!(Base64Engine::from_name("urlsafe"), Ok(Base64Engine::UrlSafe));
    assert_eq!(Base64Engine::from_name("urlsafenopad"), Ok(Base64Engine::UrlSafeNoPad));
    assert_eq!(Base64Engine::from_name("bcrypt"), Ok(Base64Engine::Bcrypt));
    assert_eq!(Base64Engine::from_name("binhex"), Ok(Base64Engine::BinHex));
    assert_eq!(Base64Engine::from_name("crypt"), Ok(Base64Engine::Crypt));
    assert_eq!(Base64Engine::from_name("imapmutf7"), Ok(Base64Engine::ImapMutf7));
    assert_eq!(Base64Engine::from_name("custom"), Ok(Base64Engine::Custom));
}

#[test]
fn unknown_engine_names() {
    for name in ["", "Standard", "standard ", "base32", "url_safe"] {
        assert_eq!(
            Base64Engine::from_name(name),
            Err(Base64Error::UnknownEngine(name.to_string()))
        );
    }
}

#[test]
fn config_goes_with_custom_only() {
    assert_eq!(Base64Config::for_engine(Base64Engine::Standard, Some("abc".to_string()), Some(true)), None);
    assert_eq!(Base64Config::for_engine(Base64Engine::Crypt, None, None), None);
    assert_eq!(
        Base64Config::for_engine(Base64Engine::Custom, Some("abc".to_string()), Some(true)),
        Some(Base64Config { alphabet: "abc".to_string(), pad: true })
    );
    assert_eq!(
        Base64Config::for_engine(Base64Engine::Custom, None, None),
        Some(Base64Config { alphabet: String::new(), pad: false })
    );
    assert_eq!(
        Base64Config::for_engine(Base64Engine::Custom, None, Some(false)),
        Some(Base64Config { alphabet: String::new(), pad: false })
    );
}

#[test]
fn format_names() {
    assert_eq!(UuidFormat::from_name("hyphenated"), Some(UuidFormat::Hyphenated));
    assert_eq!(UuidFormat::from_name("simple"), Some(UuidFormat::Simple));
    assert_eq!(UuidFormat::from_name("urn"), Some(UuidFormat::Urn));
    assert_eq!(UuidFormat::from_name("braced"), Some(UuidFormat::Braced));
    assert_eq!(UuidFormat::from_name("Braced"), None);
    assert_eq!(UuidFormat::from_name(""), None);
}

#[test]
fn timestamp_needs_ticks() {
    assert_eq!(timestamp_of(None, None), None);
    assert_eq!(timestamp_of(None, Some(7)), None);
    assert_eq!(timestamp_of(Some(5), None), Some((5, 0)));
    assert_eq!(timestamp_of(Some(5), Some(7)), Some((5, 7)));
}

#[test]
fn node_and_buffer_from_bytes() {
    assert_eq!(UuidNodeId::from(vec![1, 2, 3]), UuidNodeId(vec![1, 2, 3]));
    assert_eq!(UuidBuffer::from(vec![4; 16]), UuidBuffer(vec![4; 16]));
}
