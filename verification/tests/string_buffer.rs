use coil_winder::string_buffer::StringBuffer;

#[test]
fn a_new_buffer_is_empty() {
    let b = StringBuffer::<8>::new();
    assert_eq!(b.as_str(), "");
}

#[test]
fn writes_append_until_the_capacity() {
    let mut b = StringBuffer::<8>::new();
    assert_eq!(b.write_str("abc"), Ok(()));
    assert_eq!(b.write_str("defgh"), Ok(()));
    assert_eq!(b.as_str(), "abcdefgh");
    assert_eq!(b.write_str("i"), Err(()));
    assert_eq!(b.as_str(), "abcdefgh");
    assert_eq!(b.write_str(""), Ok(()));
}

#[test]
fn a_write_that_does_not_fit_leaves_the_content() {
    let mut b = StringBuffer::<4>::new();
    assert_eq!(b.write_str("ab"), Ok(()));
    assert_eq!(b.write_str("cde"), Err(()));
    assert_eq!(b.as_str(), "ab");
    assert_eq!(b.write_str("cd"), Ok(()));
    assert_eq!(b.as_str(), "abcd");
}

#[test]
fn multibyte_text_is_kept_whole() {
    let mut b = StringBuffer::<5>::new();
    assert_eq!(b.write_str("é"), Ok(()));
    assert_eq!(b.write_str("ü€"), Err(()));
    assert_eq!(b.write_str("€"), Ok(()));
    assert_eq!(b.as_str(), "é€");
}

#[test]
fn numbers_are_written_in_decimal() {
    let mut b = StringBuffer::<16>::new();
    assert_eq!(b.write_u16(0), Ok(()));
    assert_eq!(b.write_str(" "), Ok(()));
    assert_eq!(b.write_u16(7), Ok(()));
    assert_eq!(b.write_str(" "), Ok(()));
    assert_eq!(b.write_u16(65535), Ok(()));
    assert_eq!(b.as_str(), "0 7 65535");
    let mut small = StringBuffer::<4>::new();
    assert_eq!(small.write_u16(12345), Err(()));
    assert_eq!(small.as_str(), "");
    assert_eq!(small.write_u16(1000), Ok(()));
    assert_eq!(small.as_str(), "1000");
}
