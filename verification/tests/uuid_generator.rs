use std::collections::HashSet;
use std::str::FromStr;

use httpbin::data::uuid::{
    new_v1, new_v3, new_v4, new_v5, new_v6, new_v7, new_v8, render, UuidBuffer, UuidConstNamespace,
    UuidError, UuidFormat, UuidNamespace, UuidNodeId,
};
use uuid::{Timestamp, Uuid};

const NODE: [u8; 6] = [1, 2, 3, 4, 5, 6];

const FORMATS: [UuidFormat; 4] =
    [UuidFormat::Hyphenated, UuidFormat::Simple, UuidFormat::Urn, UuidFormat::Braced];

fn node() -> UuidNodeId {
    UuidNodeId(NODE.to_vec())
}

fn dns() -> UuidNamespace {
    UuidNamespace::Const(UuidConstNamespace::Dns)
}

fn written(id: &Uuid, format: UuidFormat) -> String {
    match format {
        UuidFormat::Hyphenated => id.as_hyphenated().to_string(),
        UuidFormat::Simple => id.as_simple().to_string(),
        UuidFormat::Urn => id.as_urn().to_string(),
        UuidFormat::Braced => id.as_braced().to_string(),
    }
}

#[test]
fn v1_packs_ticks_counter_and_node() {
    assert_eq!(
        new_v1(Some((14976234442241191232, 42)), node(), UuidFormat::Hyphenated),
        Ok("b2c1ad40-45e0-1fd6-802a-010203040506".to_string())
    );
    assert_eq!(
        new_v1(Some((0x1234567890abcdef, 0xffff)), node(), UuidFormat::Hyphenated),
        Ok("90abcdef-5678-1234-bfff-010203040506".to_string())
    );
    assert_eq!(
        new_v1(Some((0, 0)), UuidNodeId(vec![0; 6]), UuidFormat::Simple),
        Ok("00000000000010008000000000000000".to_string())
    );
}

#[test]
fn v6_packs_ticks_from_the_highest_bit_down() {
    assert_eq!(
        new_v6(Some((14976241191231231313, 42)), node(), UuidFormat::Hyphenated),
        Ok("fd64c041-1e91-6551-802a-010203040506".to_string())
    );
    assert_eq!(
        new_v6(Some((0x1234567890abcdef, 0xffff)), node(), UuidFormat::Hyphenated),
        Ok("23456789-0abc-6def-bfff-010203040506".to_string())
    );
}

#[test]
fn v1_and_v6_agree_with_the_uuid_crate() {
    let ticks = [0u64, 1, 0x0fff_ffff_ffff_ffff, u64::MAX, 0x01b2_1dd2_1381_4000, 138_000_000_000_000_000];
    let counters = [0u16, 1, 42, 0x3fff, 0x4000, 0xffff];
    for t in ticks {
        for c in counters {
            for format in FORMATS {
                let stamp = Timestamp::from_gregorian_time(t, c);
                assert_eq!(
                    new_v1(Some((t, c)), node(), format),
                    Ok(written(&Uuid::new_v1(stamp, &NODE), format))
                );
                assert_eq!(
                    new_v6(Some((t, c)), node(), format),
                    Ok(written(&Uuid::new_v6(stamp, &NODE), format))
                );
            }
        }
    }
}

#[test]
fn v1_without_timestamp_uses_the_clock() {
    let text = new_v1(None, node(), UuidFormat::Hyphenated).unwrap();
    let id = Uuid::parse_str(&text).unwrap();
    assert_eq!(id.get_version_num(), 1);
    assert_eq!(&id.as_bytes()[10..], &NODE);
    assert_eq!(id.as_bytes()[8] & 0xc0, 0x80);
    let other = new_v1(None, node(), UuidFormat::Hyphenated).unwrap();
    assert_ne!(text, other);
}

#[test]
fn v6_without_timestamp_uses_the_clock() {
    let text = new_v6(None, node(), UuidFormat::Simple).unwrap();
    assert_eq!(text.len(), 32);
    let id = Uuid::parse_str(&text).unwrap();
    assert_eq!(id.get_version_num(), 6);
    assert_eq!(&id.as_bytes()[10..], &NODE);
    let other = new_v6(None, node(), UuidFormat::Simple).unwrap();
    assert_ne!(text, other);
}

#[test]
fn node_of_wrong_length_is_rejected() {
    for timestamp in [None, Some((1, 1))] {
        for len in [0usize, 5, 7, 16] {
            assert_eq!(
                new_v1(timestamp, UuidNodeId(vec![9; len]), UuidFormat::Hyphenated),
                Err(UuidError::InvalidNodeIdLength)
            );
            assert_eq!(
                new_v6(timestamp, UuidNodeId(vec![9; len]), UuidFormat::Hyphenated),
                Err(UuidError::InvalidNodeIdLength)
            );
        }
    }
    assert_eq!(UuidNodeId(vec![1, 2, 3, 4, 5]).into_array(), Err(()));
    assert_eq!(node().into_array(), Ok(NODE));
}

#[test]
fn v3_is_the_md5_uuid_of_the_name() {
    assert_eq!(
        new_v3(dns(), "example.com", UuidFormat::Hyphenated),
        Ok("9073926b-929f-31c2-abc9-fad77ae3e8eb".to_string())
    );
    assert_eq!(
        new_v3(
            UuidNamespace::Const(UuidConstNamespace::Url),
            "https://example.com/a",
            UuidFormat::Hyphenated
        ),
        Ok("a257f385-897f-3805-9a3a-db29b1f92977".to_string())
    );
    assert_eq!(
        new_v3(dns(), "example.com", UuidFormat::Hyphenated),
        new_v3(dns(), "example.com", UuidFormat::Hyphenated)
    );
    assert_eq!(new_v3(dns(), "example.com", UuidFormat::Hyphenated).unwrap().len(), 36);
}

#[test]
fn v5_is_the_sha1_uuid_of_the_name() {
    assert_eq!(
        new_v5(dns(), "example.com", UuidFormat::Hyphenated),
        Ok("cfbff0d1-9375-5685-968c-48ce8b15ae17".to_string())
    );
    assert_eq!(
        new_v5(UuidNamespace::Const(UuidConstNamespace::Oid), "1.2.3", UuidFormat::Hyphenated),
        Ok("42d5e23b-3a02-5135-85c6-52d1102f1f00".to_string())
    );
    assert_eq!(
        new_v5(UuidNamespace::Const(UuidConstNamespace::X500), "cn=x", UuidFormat::Simple),
        Ok("a951fb6d5aab5a728e2e9aa8df8d1f8f".to_string())
    );
}

#[test]
fn v3_and_v5_differ_on_the_same_input() {
    for format in FORMATS {
        assert_ne!(new_v3(dns(), "example.com", format), new_v5(dns(), "example.com", format));
    }
}

#[test]
fn custom_namespace_is_read_as_a_uuid() {
    let forms = [
        "936da01f-9abd-4d9d-80c7-02af85c822a8",
        "936DA01F9ABD4D9D80C702AF85C822A8",
        "urn:uuid:936da01f-9abd-4d9d-80c7-02af85c822a8",
        "{936da01f-9abd-4d9d-80c7-02af85c822a8}",
    ];
    for form in forms {
        assert_eq!(
            new_v3(UuidNamespace::Custom(form.to_string()), "name", UuidFormat::Hyphenated),
            Ok("4883993e-c532-39d6-b7b3-7e8d0572c858".to_string())
        );
        assert_eq!(
            new_v5(UuidNamespace::Custom(form.to_string()), "name", UuidFormat::Hyphenated),
            Ok("e09b03a8-7a59-5f1b-a6bb-bbbd33b06597".to_string())
        );
    }
    assert_eq!(
        new_v5(
            UuidNamespace::Custom("6ba7b810-9dad-11d1-80b4-00c04fd430c8".to_string()),
            "example.com",
            UuidFormat::Hyphenated
        ),
        new_v5(dns(), "example.com", UuidFormat::Hyphenated)
    );
}

#[test]
fn custom_namespace_that_is_no_uuid_is_rejected() {
    for bad in ["", "dns", "not a uuid", "936da01f-9abd-4d9d-80c7-02af85c822a", "936da01f-9abd-4d9d-80c7-02af85c822ag"] {
        let expected = Uuid::parse_str(bad).unwrap_err();
        assert_eq!(
            new_v3(UuidNamespace::Custom(bad.to_string()), "name", UuidFormat::Hyphenated),
            Err(UuidError::InvalidUuid(expected.clone()))
        );
        assert_eq!(
            new_v5(UuidNamespace::Custom(bad.to_string()), "name", UuidFormat::Hyphenated),
            Err(UuidError::InvalidUuid(expected))
        );
    }
}

#[test]
fn well_known_namespaces_are_those_of_the_uuid_crate() {
    assert_eq!(UuidConstNamespace::Dns.bytes(), *Uuid::NAMESPACE_DNS.as_bytes());
    assert_eq!(UuidConstNamespace::Oid.bytes(), *Uuid::NAMESPACE_OID.as_bytes());
    assert_eq!(UuidConstNamespace::Url.bytes(), *Uuid::NAMESPACE_URL.as_bytes());
    assert_eq!(UuidConstNamespace::X500.bytes(), *Uuid::NAMESPACE_X500.as_bytes());
    assert_eq!(dns().resolve(), Ok(*Uuid::NAMESPACE_DNS.as_bytes()));
}

#[test]
fn namespace_words() {
    assert_eq!(UuidNamespace::parse("dns"), UuidNamespace::Const(UuidConstNamespace::Dns));
    assert_eq!(UuidNamespace::parse("oid"), UuidNamespace::Const(UuidConstNamespace::Oid));
    assert_eq!(UuidNamespace::parse("url"), UuidNamespace::Const(UuidConstNamespace::Url));
    assert_eq!(UuidNamespace::parse("x500"), UuidNamespace::Const(UuidConstNamespace::X500));
    assert_eq!(UuidNamespace::parse("DNS"), UuidNamespace::Custom("DNS".to_string()));
    assert_eq!(UuidNamespace::parse(""), UuidNamespace::Custom(String::new()));
    assert_eq!(
        UuidNamespace::from_str("6ba7b810-9dad-11d1-80b4-00c04fd430c8"),
        Ok(UuidNamespace::Custom("6ba7b810-9dad-11d1-80b4-00c04fd430c8".to_string()))
    );
    assert_eq!(UuidNamespace::from_str("url"), Ok(UuidNamespace::Const(UuidConstNamespace::Url)));
}

#[test]
fn v4_is_random_with_version_four() {
    let mut seen = HashSet::new();
    for _ in 0..10_000 {
        let text = new_v4(UuidFormat::Hyphenated);
        let id = Uuid::parse_str(&text).unwrap();
        assert_eq!(id.get_version_num(), 4);
        assert_eq!(text.as_bytes()[14], b'4');
        assert_eq!(id.as_bytes()[8] & 0xc0, 0x80);
        assert!(seen.insert(text));
    }
    assert_eq!(seen.len(), 10_000);
}

#[test]
fn v7_leads_with_the_milliseconds() {
    let text = new_v7(Some((1_645_557_742_000, 0x2ab7)), UuidFormat::Simple);
    assert_eq!(text.len(), 32);
    assert_eq!(&text[..12], "017f22e279b0");
    assert_eq!(&text[12..16], "7aad");
    assert_eq!(&text[16..17], "b");
    let text = new_v7(Some((0, 0)), UuidFormat::Hyphenated);
    assert_eq!(&text[..19], "00000000-0000-7000-");
    assert_eq!(&text[19..20], "8");
    let text = new_v7(Some((u64::MAX, 0xffff)), UuidFormat::Hyphenated);
    assert_eq!(&text[..19], "ffffffff-ffff-7fff-");
    assert_eq!(&text[19..20], "b");
    let text = new_v7(Some((0x0001_0000_0000_0001, 3)), UuidFormat::Simple);
    assert_eq!(&text[..17], "0000000000017000b");
}

#[test]
fn v7_fills_the_rest_at_random() {
    let one = new_v7(Some((1_645_557_742_000, 1)), UuidFormat::Simple);
    let other = new_v7(Some((1_645_557_742_000, 1)), UuidFormat::Simple);
    assert_eq!(&one[..17], &other[..17]);
    assert_ne!(one, other);
}

#[test]
fn v7_without_timestamp_uses_the_clock() {
    let text = new_v7(None, UuidFormat::Hyphenated);
    let id = Uuid::parse_str(&text).unwrap();
    assert_eq!(id.get_version_num(), 7);
    assert_eq!(id.as_bytes()[8] & 0xc0, 0x80);
    assert!(&text[..8] > "017f22e2");
}

#[test]
fn v8_keeps_the_buffer_but_for_version_and_variant() {
    assert_eq!(
        new_v8(UuidBuffer(b"abcdefghijklmnop".to_vec()), UuidFormat::Hyphenated),
        Ok("61626364-6566-8768-a96a-6b6c6d6e6f70".to_string())
    );
    assert_eq!(
        new_v8(UuidBuffer(vec![0xff; 16]), UuidFormat::Hyphenated),
        Ok("ffffffff-ffff-8fff-bfff-ffffffffffff".to_string())
    );
    assert_eq!(
        new_v8(UuidBuffer(vec![0; 16]), UuidFormat::Simple),
        Ok("00000000000080008000000000000000".to_string())
    );
    for format in FORMATS {
        let buffer: [u8; 16] = [0x10, 0x32, 0x54, 0x76, 0x98, 0xba, 0xdc, 0xfe, 1, 2, 3, 4, 5, 6, 7, 8];
        assert_eq!(
            new_v8(UuidBuffer(buffer.to_vec()), format),
            Ok(written(&Uuid::new_v8(buffer), format))
        );
    }
}

#[test]
fn buffer_of_wrong_length_is_rejected() {
    for len in [0usize, 15, 17] {
        assert_eq!(
            new_v8(UuidBuffer(vec![0; len]), UuidFormat::Hyphenated),
            Err(UuidError::InvalidBufferLength)
        );
    }
    assert_eq!(UuidBuffer(vec![0; 15]).into_array(), Err(()));
    assert_eq!(UuidBuffer(vec![3; 16]).into_array(), Ok([3; 16]));
}

#[test]
fn four_layouts_of_one_value() {
    let bytes: [u8; 16] = [
        0x93, 0x6d, 0xa0, 0x1f, 0x9a, 0xbd, 0x4d, 0x9d, 0x80, 0xc7, 0x02, 0xaf, 0x85, 0xc8, 0x22, 0xa8,
    ];
    assert_eq!(render(&bytes, UuidFormat::Hyphenated), "936da01f-9abd-4d9d-80c7-02af85c822a8");
    assert_eq!(render(&bytes, UuidFormat::Simple), "936da01f9abd4d9d80c702af85c822a8");
    assert_eq!(render(&bytes, UuidFormat::Urn), "urn:uuid:936da01f-9abd-4d9d-80c7-02af85c822a8");
    assert_eq!(render(&bytes, UuidFormat::Braced), "{936da01f-9abd-4d9d-80c7-02af85c822a8}");
}

#[test]
fn layouts_are_built_from_the_hyphenated_one() {
    let samples: [[u8; 16]; 3] = [[0; 16], [0xff; 16], *b"abcdefghijklmnop"];
    for bytes in samples {
        let hyphenated = render(&bytes, UuidFormat::Hyphenated);
        assert_eq!(hyphenated.len(), 36);
        assert_eq!(render(&bytes, UuidFormat::Braced), format!("{{{}}}", hyphenated));
        assert_eq!(render(&bytes, UuidFormat::Urn), format!("urn:uuid:{}", hyphenated));
        assert_eq!(render(&bytes, UuidFormat::Simple), hyphenated.replace('-', ""));
        for format in FORMATS {
            assert_eq!(render(&bytes, format), written(&Uuid::from_bytes(bytes), format));
        }
    }
}

#[test]
fn default_layout_is_hyphenated() {
    assert_eq!(UuidFormat::default(), UuidFormat::Hyphenated);
}

#[test]
fn v6_texts_order_as_their_ticks() {
    let ticks = [0u64, 1, 0xfff, 0x1000, 0x0123_4567_89ab_cdef, 0x0fff_ffff_ffff_fffe, 0x0fff_ffff_ffff_ffff];
    for format in FORMATS {
        for pair in ticks.windows(2) {
            let earlier = new_v6(Some((pair[0], 0xffff)), node(), format).unwrap();
            let later = new_v6(Some((pair[1], 0)), node(), format).unwrap();
            assert!(earlier < later);
        }
    }
}

#[test]
fn v1_texts_need_not_order_as_their_ticks() {
    let earlier = new_v1(Some((0x0000_0000_ffff_ffff, 0)), node(), UuidFormat::Hyphenated).unwrap();
    let later = new_v1(Some((0x0000_0001_0000_0000, 0)), node(), UuidFormat::Hyphenated).unwrap();
    assert!(earlier > later);
}

#[test]
fn v6_order_is_that_of_the_low_sixty_bits() {
    let earlier = new_v6(Some((1, 0)), node(), UuidFormat::Hyphenated).unwrap();
    let later = new_v6(Some((0x1000_0000_0000_0000, 0)), node(), UuidFormat::Hyphenated).unwrap();
    assert_eq!(earlier, "00000000-0000-6001-8000-010203040506");
    assert_eq!(later, "00000000-0000-6000-8000-010203040506");
    assert!(later < earlier);
}

#[test]
fn v7_places_the_counter_around_the_variant() {
    let ticks = [0u64, 1, 999, 1000, 1_645_557_742_000, 0x0000_ffff_ffff_ffff, 0x0001_0000_0000_0000, u64::MAX];
    let counters = [0u16, 1, 2, 3, 4, 0x3ff, 0x400, 0x2ab7, 0x3fff, 0x4000, 0x8000, 0xffff];
    for t in ticks {
        for c in counters {
            let text = new_v7(Some((t, c)), UuidFormat::Simple);
            let bytes = *Uuid::parse_str(&text).unwrap().as_bytes();
            for i in 0..6 {
                assert_eq!(bytes[i], (t >> (40 - 8 * i)) as u8);
            }
            assert_eq!(bytes[6], 0x70 | ((c >> 10) & 0x0f) as u8);
            assert_eq!(bytes[7], (c >> 2) as u8);
            assert_eq!(bytes[8] & 0xf0, 0x80 | ((c & 3) << 4) as u8);
        }
    }
}
