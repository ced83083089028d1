use classfile::util::{modified_utf8_to_string, MalformedModifiedUtf8};

#[test]
fn ascii_byte_decodes_to_itself() {
    let r = modified_utf8_to_string(&vec![0x41]);
    assert_eq!(r.unwrap(), "A");
}

#[test]
fn ascii_run_decodes() {
    let r = modified_utf8_to_string(&vec![0x43, 0x6F, 0x64, 0x65]);
    assert_eq!(r.unwrap(), "Code");
}

#[test]
fn empty_run_decodes_to_empty_text() {
    let r = modified_utf8_to_string(&vec![]);
    assert_eq!(r.unwrap(), "");
}

#[test]
fn null_byte_fails() {
    let r = modified_utf8_to_string(&vec![0x00]);
    assert_eq!(r.unwrap_err(), MalformedModifiedUtf8::InvalidLeadingByte { index: 0 });
}

#[test]
fn null_byte_after_ascii_fails_with_its_index() {
    let r = modified_utf8_to_string(&vec![0x41, 0x42, 0x00]);
    assert_eq!(r.unwrap_err(), MalformedModifiedUtf8::InvalidLeadingByte { index: 2 });
}

#[test]
fn leading_byte_f0_and_above_fails() {
    for b in 0xF0u8..=0xFF {
        let r = modified_utf8_to_string(&vec![b]);
        assert_eq!(r.unwrap_err(), MalformedModifiedUtf8::InvalidLeadingByte { index: 0 });
    }
}

#[test]
fn two_byte_form_decodes() {
    // 0xC3 0xA9 carries codepoint (0x03 << 6) + 0x29 = 0xE9.
    let r = modified_utf8_to_string(&vec![0xC3, 0xA9]);
    assert_eq!(r.unwrap(), "\u{E9}");
}

#[test]
fn overlong_two_byte_null_decodes_to_codepoint_zero() {
    // The two-byte rule applied to 0xC0 0x80 reconstructs codepoint 0.
    let r = modified_utf8_to_string(&vec![0xC0, 0x80]);
    assert_eq!(r.unwrap(), "\u{0}");
}

#[test]
fn two_byte_form_cut_off_fails() {
    let r = modified_utf8_to_string(&vec![0xC3]);
    assert_eq!(r.unwrap_err(), MalformedModifiedUtf8::UnexpectedLastByte { byte: 0xC3 });
}

#[test]
fn three_byte_form_decodes() {
    // 0xE2 0x82 0xAC carries (0x2 << 12) + (0x02 << 6) + 0x2C = 0x20AC.
    let r = modified_utf8_to_string(&vec![0xE2, 0x82, 0xAC]);
    assert_eq!(r.unwrap(), "\u{20AC}");
}

#[test]
fn three_byte_form_cut_off_fails() {
    let r = modified_utf8_to_string(&vec![0xE2, 0x82]);
    assert_eq!(
        r.unwrap_err(),
        MalformedModifiedUtf8::UnexpectedLastBytes { byte_1: 0xE2, byte_2: 0x82 },
    );
}

#[test]
fn three_byte_surrogate_codepoint_fails() {
    // 0xED 0xA0 0x80 reconstructs 0xD800, which no character holds.  The
    // error carries the leading byte and the index of the last byte read.
    let r = modified_utf8_to_string(&vec![0xED, 0xA0, 0x80]);
    assert_eq!(
        r.unwrap_err(),
        MalformedModifiedUtf8::InvalidCodepoint { codepoint: 0xED, byte_1_index: 2 },
    );
}

#[test]
fn six_byte_supplementary_form_decodes() {
    // A leading byte of the form 10xxxxxx starts the six-byte form: bytes
    // 2, 3, 5 and 6 carry the bits, byte 4 is ignored.
    let bytes = vec![0xAD, 0xA0, 0x80, 0xFF, 0xB0, 0x80];
    let r = modified_utf8_to_string(&bytes);
    let text = r.unwrap();
    let chars: Vec<char> = text.chars().collect();
    assert_eq!(chars.len(), 1);
    assert!(chars[0] as u32 >= 0x10000);
    assert_eq!(chars[0] as u32, 0x10000);
}

#[test]
fn six_byte_form_with_payload_bits_decodes() {
    // codepoint 0x10000 + (0x1 << 16) + (0x2 << 10) + (0x3 << 6) + 0x4.
    let bytes = vec![0x80, 0xA1, 0x82, 0x00, 0xB3, 0x84];
    let r = modified_utf8_to_string(&bytes);
    let chars: Vec<char> = r.unwrap().chars().collect();
    assert_eq!(chars.len(), 1);
    assert_eq!(chars[0] as u32, 0x10000 + (0x1 << 16) + (0x2 << 10) + (0x3 << 6) + 0x4);
}

#[test]
fn six_byte_form_cut_off_fails() {
    let r = modified_utf8_to_string(&vec![0xAD, 0xA0, 0x80, 0xFF]);
    assert_eq!(
        r.unwrap_err(),
        MalformedModifiedUtf8::MissingTrailingBytes {
            byte_1: 0xAD,
            byte_2: 0xA0,
            byte_3: 0x80,
            available: 3,
        },
    );
}

#[test]
fn mixed_forms_decode_in_order() {
    let r = modified_utf8_to_string(&vec![0x41, 0xC3, 0xA9, 0x42]);
    assert_eq!(r.unwrap(), "A\u{E9}B");
}

#[test]
fn invalid_codepoint_constructor_builds_that_error() {
    let e = MalformedModifiedUtf8::invalid_codepoint(0xED, 5);
    assert_eq!(e, MalformedModifiedUtf8::InvalidCodepoint { codepoint: 0xED, byte_1_index: 5 });
}

#[test]
fn unexpected_last_byte_constructor_builds_that_error() {
    let e = MalformedModifiedUtf8::unexpected_last_byte(0xC3);
    assert_eq!(e, MalformedModifiedUtf8::UnexpectedLastByte { byte: 0xC3 });
}
