use x_desk::wide_string::WideString;

#[test]
fn new_encodes_utf16_with_terminator() {
    let w = WideString::new("a€😀");
    let expected: Vec<u16> = "a€😀".encode_utf16().chain([0]).collect();
    assert_eq!(w.clone_u16_array(), expected);
    assert_eq!(WideString::new("").clone_u16_array(), vec![0]);
}

#[test]
fn from_vec_adds_missing_terminator() {
    assert_eq!(WideString::from_vec_u16(vec![65, 66]).clone_u16_array(), vec![65, 66, 0]);
    assert_eq!(WideString::from_vec_u16(vec![65, 0]).clone_u16_array(), vec![65, 0]);
    assert_eq!(WideString::from_vec_u16(vec![]).clone_u16_array(), vec![0]);
    assert!(WideString::null().is_null());
    assert_eq!(WideString::empty().clone_u16_array(), vec![0]);
}

#[test]
fn copy_to_truncates_and_terminates() {
    let w = WideString::new("hello");
    let mut small = [9u16; 4];
    assert_eq!(w.copy_to(&mut small), 3);
    assert_eq!(small, [104, 101, 108, 0]);
    let mut big = [9u16; 10];
    assert_eq!(w.copy_to(&mut big), 6);
    assert_eq!(big, [104, 101, 108, 108, 111, 0, 0, 9, 9, 9]);
}

use x_desk::wide_string::{decode_utf16, Utf16DecodeError};

#[test]
fn wide_strings_read_back() {
    for s in ["", "x-desk", "桌面 😀 €"] {
        assert_eq!(WideString::new(s).to_string(), Ok(Some(s.to_string())));
    }
    assert_eq!(WideString::null().to_string(), Ok(None));
    assert_eq!(WideString::from_vec_u16(vec![72, 105, 0, 74]).to_string(), Ok(Some("Hi".to_string())));
    assert_eq!(WideString::from_vec_u16(vec![0xD800, 65]).to_string(), Err(Utf16DecodeError));
}

#[test]
fn utf16_decoding_matches_std() {
    let samples: Vec<Vec<u16>> = vec![
        vec![],
        vec![0x41, 0x42],
        vec![0xD83D, 0xDE00],
        vec![0xDE00],
        vec![0xD83D],
        vec![0xD83D, 0x41],
        vec![0xFFFF, 0xE000, 0xD7FF],
    ];
    for units in samples {
        assert_eq!(decode_utf16(&units), String::from_utf16(&units).ok(), "units {units:?}");
    }
}
