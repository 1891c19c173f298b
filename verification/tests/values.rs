use paper_client::PaperValue;

#[test]
fn value_from_text_holds_utf8_bytes() {
    let v = PaperValue::from("value");
    assert_eq!(v.as_bytes(), b"value");
    let v = PaperValue::from(String::from("é"));
    assert_eq!(v.as_bytes(), &[0xc3, 0xa9]);
    let s = String::from("x");
    let v = PaperValue::from(&s);
    assert_eq!(v.as_bytes(), b"x");
}

#[test]
fn value_from_bytes_keeps_them() {
    let v = PaperValue::from(vec![1u8, 2, 3]);
    assert_eq!(v.as_bytes(), &[1, 2, 3]);
    let v = PaperValue::from(&[4u8, 5][..]);
    assert_eq!(v.len(), 2);
    let b: Box<[u8]> = vec![6u8].into_boxed_slice();
    let v = PaperValue::from(b);
    let back: Vec<u8> = v.into();
    assert_eq!(back, vec![6]);
    let v = PaperValue::from(vec![7u8, 8]);
    let boxed: Box<[u8]> = v.into();
    assert_eq!(&*boxed, &[7, 8]);
    let v = PaperValue::from(vec![9u8]);
    let slice: &[u8] = (&v).into();
    assert_eq!(slice, &[9]);
}

#[test]
fn value_text_roundtrip() {
    for text in ["value", "", "pong", "ünïcödé ✓"] {
        let v = PaperValue::from(text);
        let back: String = v.try_into().unwrap();
        assert_eq!(back, text);
    }
    let v = PaperValue::from("hello");
    let s: &str = (&v).try_into().unwrap();
    assert_eq!(s, "hello");
}

#[test]
fn invalid_utf8_is_refused() {
    let v = PaperValue::from(vec![0xffu8, 0xfe]);
    let s: Result<&str, _> = (&v).try_into();
    assert!(s.is_err());
    let s: Result<String, _> = v.try_into();
    assert!(s.is_err());
}

#[test]
fn value_debug_text() {
    assert_eq!(PaperValue::from("value").debug_text(), "PaperValue(\"value\")");
    assert_eq!(PaperValue::from("").debug_text(), "PaperValue(\"\")");
    assert_eq!(PaperValue::from("0123456789abcdef").debug_text(), "PaperValue(\"0123456789abcdef\")");
    assert_eq!(PaperValue::from("0123456789abcdefg").debug_text(), "PaperValue(...)");
    assert_eq!(PaperValue::from(vec![0xffu8]).debug_text(), "PaperValue(...)");
}
