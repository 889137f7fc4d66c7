use irongate::buf::Buf;
use irongate::buf::Error;

#[test]
fn partial_line_persists() {
    let mut buf = Buf::new(b'\n');
    buf.append(b"abc");
    assert_eq!(Ok(None), buf.next_line());
    buf.append(b"def\n");
    assert_eq!(Ok(Some("abcdef".to_string())), buf.next_line());
    assert_eq!(Ok(None), buf.next_line());
}

#[test]
fn lines_in_order_never_twice() {
    let mut buf = Buf::new(b'\n');
    buf.append(b"one\ntwo\nthr");
    assert_eq!(Ok(Some("one".to_string())), buf.next_line());
    assert_eq!(Ok(Some("two".to_string())), buf.next_line());
    assert_eq!(Ok(None), buf.next_line());
    buf.append(b"ee\n");
    assert_eq!(Ok(Some("three".to_string())), buf.next_line());
    assert_eq!(Ok(None), buf.next_line());
}

#[test]
fn empty_line_is_a_line() {
    let mut buf = Buf::new(b'\n');
    buf.append(b"\n\nx\n");
    assert_eq!(Ok(Some(String::new())), buf.next_line());
    assert_eq!(Ok(Some(String::new())), buf.next_line());
    assert_eq!(Ok(Some("x".to_string())), buf.next_line());
}

#[test]
fn invalid_text_is_consumed_once() {
    let mut buf = Buf::new(b'\n');
    buf.append(&[0xff, 0xfe, b'\n', b'o', b'k', b'\n']);
    assert_eq!(Err(Error::Utf8Error), buf.next_line());
    // the malformed bytes are not retried; the next line still comes out
    assert_eq!(Ok(Some("ok".to_string())), buf.next_line());
}

#[test]
fn other_separator() {
    let mut buf = Buf::new(b';');
    buf.append(b"a;b");
    assert_eq!(Ok(Some("a".to_string())), buf.next_line());
    assert_eq!(Ok(None), buf.next_line());
}
