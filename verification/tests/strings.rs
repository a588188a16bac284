use zfi::string::{EfiChar, EfiStr, EfiString, EfiStringError};

#[test]
fn empty_string_is_only_the_terminator() {
    let s = EfiStr::empty();
    assert_eq!(s.as_units(), &[0u16]);
    assert_eq!(s.len(), 0);
    assert!(s.is_empty());
}

#[test]
fn from_units_checks_the_terminator() {
    assert!(EfiStr::from_units(vec![]).is_none());
    assert!(EfiStr::from_units(vec![0x41]).is_none());
    assert!(EfiStr::from_units(vec![0x41, 0x00]).is_some());
    assert!(EfiStr::from_units(vec![0x41, 0x00, 0x42, 0x00]).is_none());
    assert!(EfiStr::from_units(vec![0x00, 0x00]).is_none());
}

#[test]
fn push_str_encodes_one_unit_per_character() {
    let s = EfiString::from_str("AB.ef").unwrap();
    assert_eq!(s.as_str().as_units(), &[0x41, 0x42, 0x2e, 0x65, 0x66, 0x00]);
    assert_eq!(s.as_str().len(), 5);
}

#[test]
fn push_str_refuses_nul() {
    let mut s = EfiString::from_str("ok").unwrap();
    let before: Vec<u16> = s.as_str().as_units().to_vec();
    assert_eq!(s.push_str("a\0b"), Err(EfiStringError::HasNul(1)));
    assert_eq!(s.as_str().as_units(), &before[..], "the string is unchanged");
}

#[test]
fn push_str_refuses_wide_characters() {
    let mut s = EfiString::new();
    // The second character does not fit one 16-bit unit.
    let r = s.push_str("a\u{10348}b");
    assert_eq!(r, Err(EfiStringError::UnsupportedChar(1, '\u{10348}')));
    assert_eq!(s.as_str().as_units(), &[0u16]);
}

#[test]
fn push_appends_before_the_terminator() {
    let mut s = EfiString::from_str("a").unwrap();
    s.push(EfiChar::full_stop());
    s.push(EfiChar::reverse_solidus());
    assert_eq!(s.as_str().as_units(), &[0x61, 0x2e, 0x5c, 0x00]);
}
