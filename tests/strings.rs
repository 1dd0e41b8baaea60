use sart::string::SharableStr;

#[test]
fn create_then_read_back_ascii() {
    let s = SharableStr::create("hello");
    assert_eq!(s.len(), 5);
    assert_eq!(SharableStr::as_str(&s), Ok("hello"));
}

#[test]
fn create_then_read_back_empty() {
    let s = SharableStr::create("");
    assert_eq!(s.len(), 0);
    assert_eq!(SharableStr::as_str(&s), Ok(""));
}

#[test]
fn create_then_read_back_multibyte() {
    let text = "héllo ✓ 日本";
    let s = SharableStr::create(text);
    assert_eq!(s.len(), text.len());
    assert_eq!(SharableStr::as_str(&s), Ok(text));
    assert_eq!(SharableStr::as_str_unchecked(&s), text);
}

#[test]
fn invalid_bytes_give_encoding_error() {
    let s = SharableStr::from_raw(&[0x66, 0xFF, 0x6F]);
    assert_eq!(s.len(), 3);
    let err = SharableStr::as_str(&s).unwrap_err();
    assert_eq!(err.valid_up_to(), 1);
}

#[test]
fn raw_bytes_are_the_payload() {
    let mut s = SharableStr::create("abc");
    assert_eq!(s.into_raw(), b"abc");
    assert_eq!(SharableStr::as_str(&s), Ok("abc"));
}
