use toad::toad_string::{FromUtf16Error, FromUtf8Error, String};

#[test]
fn from_utf8_sparkle_heart() {
    let sparkle_heart = vec![240, 159, 146, 150];
    let sparkle_heart = String::<16>::from_utf8(&sparkle_heart).unwrap();
    assert!(sparkle_heart.eq_str("💖"));
    assert_eq!(sparkle_heart.len(), 4);
}

#[test]
fn from_utf8_refuses_invalid_bytes() {
    let sparkle_heart = vec![0, 159, 146, 150];
    assert_eq!(String::<16>::from_utf8(&sparkle_heart).unwrap_err(), FromUtf8Error);
}

#[test]
fn from_utf16_music() {
    let v = &[0xD834, 0xDD1E, 0x006d, 0x0075, 0x0073, 0x0069, 0x0063];
    assert!(String::<16>::from_str("𝄞music") == String::<16>::from_utf16(v).unwrap());

    let v = &[0xD834, 0xDD1E, 0x006d, 0x0075, 0xD800, 0x0069, 0x0063];
    assert_eq!(String::<16>::from_utf16(v).unwrap_err(), FromUtf16Error);
}

#[test]
fn from_utf16_lone_low_surrogate_is_refused() {
    assert!(String::<16>::from_utf16(&[0xDD1E]).is_err());
    assert!(String::<16>::from_utf16(&[0x0061, 0xD834]).is_err());
}

#[test]
fn insert_str_at_start() {
    let mut s = String::<16>::from_str("bar");
    s.insert_str(0, "foo");
    assert!(s.eq_str("foobar"));
}

#[test]
fn insert_chars() {
    let mut s = String::<16>::new();
    s.insert(0, 'f');
    s.insert(1, 'o');
    s.insert(2, 'o');
    assert!(s.eq_str("foo"));
    s.insert(0, 'é');
    assert!(s.eq_str("éfoo"));
    assert_eq!(s.len(), 5);
}

#[test]
fn push_chars() {
    let mut s = String::<16>::from_str("abc");
    s.push('1');
    s.push('2');
    s.push('3');
    assert!(s.eq_str("abc123"));
    s.push('💖');
    assert_eq!(s.as_bytes(), "abc123💖".as_bytes());
}

#[test]
fn push_str_appends() {
    let mut s = String::<16>::from_str("foo");
    s.push_str("bar");
    assert!(s.eq_str("foobar"));
    assert_eq!(s.as_str(), "foobar");
}

#[test]
fn capacity_length_and_clear() {
    let mut s = String::<4>::from_str("abcd");
    assert_eq!(s.capacity(), 4);
    assert!(s.is_full());
    s.clear();
    assert_eq!(s.len(), 0);
    assert!(!s.is_full());
    assert!(s == String::<4>::default());
}

#[test]
fn resize_moves_contents() {
    let mut s = String::<16>::from_str("hi");
    let t: String<2> = s.resize::<2>();
    assert!(t.eq_str("hi"));
    assert_eq!(s.len(), 0);
}

#[test]
fn equality_is_by_text() {
    assert!(String::<8>::from_str("a") == String::<8>::from_str("a"));
    assert!(String::<8>::from_str("a") != String::<8>::from_str("b"));
    assert!(!String::<8>::from_str("ab").eq_str("a"));
}
