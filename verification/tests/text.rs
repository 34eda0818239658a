use converter::text::{format_ipv4, header_text, push_decimal};

#[test]
fn decimal_numerals() {
    let mut s = String::from("n=");
    push_decimal(&mut s, 0);
    assert_eq!(s, "n=0");
    let mut s = String::new();
    push_decimal(&mut s, 1024);
    assert_eq!(s, "1024");
    let mut s = String::new();
    push_decimal(&mut s, usize::MAX);
    assert_eq!(s, usize::MAX.to_string());
}

#[test]
fn ipv4_dotted_decimal() {
    assert_eq!(format_ipv4(10, 0, 0, 7), "10.0.0.7");
    assert_eq!(format_ipv4(255, 255, 0, 100), "255.255.0.100");
}

#[test]
fn header_text_accepts_visible_ascii_and_tab() {
    assert_eq!(header_text(b"kp-1"), Some("kp-1".to_string()));
    assert_eq!(header_text(b"a\tb c~"), Some("a\tb c~".to_string()));
    assert_eq!(header_text(b""), Some(String::new()));
}

#[test]
fn header_text_rejects_control_and_non_ascii() {
    assert_eq!(header_text(b"a\nb"), None);
    assert_eq!(header_text(&[0x7f]), None);
    assert_eq!(header_text("é".as_bytes()), None);
}
