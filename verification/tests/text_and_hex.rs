use httpbin::data::hex::push_hex;
use httpbin::data::text::same_text;

#[test]
fn same_text_compares_every_character() {
    assert!(same_text("", ""));
    assert!(same_text("dns", "dns"));
    assert!(!same_text("dns", "dnS"));
    assert!(!same_text("dns", "dns "));
    assert!(!same_text("dn", "dns"));
    assert!(same_text("gr\u{fc}n", "gr\u{fc}n"));
    assert!(!same_text("gr\u{fc}n", "grun"));
}

#[test]
fn push_hex_writes_two_lower_case_digits_per_byte() {
    let bytes = [0x00u8, 0x0f, 0xa0, 0xff, 0x12, 0xcd];
    let mut text = String::from("x");
    push_hex(&mut text, &bytes, 0, 6);
    assert_eq!(text, "x000fa0ff12cd");
    let mut part = String::new();
    push_hex(&mut part, &bytes, 2, 4);
    assert_eq!(part, "a0ff");
    push_hex(&mut part, &bytes, 3, 3);
    assert_eq!(part, "a0ff");
}
