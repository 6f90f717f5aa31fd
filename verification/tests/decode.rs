use uefi_str16::utf16::decode_utf16;
use uefi_str16::Str16;

#[test]
fn decodes_single_units() {
    assert_eq!(decode_utf16(&[0x0048, 0x0069]), Some(String::from("Hi")));
    assert_eq!(decode_utf16(&[]), Some(String::new()));
}

#[test]
fn decodes_units_next_to_the_surrogate_range() {
    assert_eq!(decode_utf16(&[0xD7FF, 0xE000]), Some(String::from("\u{D7FF}\u{E000}")));
    assert_eq!(decode_utf16(&[0xF8FF, 0xFFFF]), Some(String::from("\u{F8FF}\u{FFFF}")));
}

#[test]
fn decodes_surrogate_pairs() {
    assert_eq!(decode_utf16(&[0xD800, 0xDC00]), Some(String::from("\u{10000}")));
    assert_eq!(decode_utf16(&[0xD83D, 0xDE00]), Some(String::from("\u{1F600}")));
    assert_eq!(decode_utf16(&[0xDBFF, 0xDFFF]), Some(String::from("\u{10FFFF}")));
    assert_eq!(
        decode_utf16(&[0x0061, 0xD834, 0xDD1E, 0x0062]),
        Some(String::from("a\u{1D11E}b"))
    );
}

#[test]
fn refuses_unpaired_surrogates() {
    assert_eq!(decode_utf16(&[0xD800]), None);
    assert_eq!(decode_utf16(&[0xDC00]), None);
    assert_eq!(decode_utf16(&[0x0061, 0xD800, 0x0062]), None);
    assert_eq!(decode_utf16(&[0xDC00, 0xD800]), None);
    assert_eq!(decode_utf16(&[0xD800, 0xD800, 0xDC00]), None);
    assert_eq!(decode_utf16(&[0x0061, 0xDFFF]), None);
}

#[test]
fn agrees_with_the_standard_decoder() {
    let samples: [&[u16]; 6] = [
        &[0x0048, 0x0065, 0x006C, 0x006C, 0x006F],
        &[0xD83D, 0xDE00, 0x0021],
        &[0xD83D, 0x0021],
        &[0xDE00, 0xD83D],
        &[0xFFFF, 0xE000, 0xD7FF],
        &[0xDBFF, 0xDFFF, 0xD800, 0xDC00],
    ];
    for units in samples {
        assert_eq!(decode_utf16(units), String::from_utf16(units).ok());
    }
}

#[test]
fn view_decodes_text_the_encoder_would_refuse() {
    let buffer: [u16; 5] = [0xE000, 0xD83D, 0xDE00, 0x0041, 0];
    let view = Str16::from_ptr(&buffer);
    assert_eq!(view.try_to_string(), Some(String::from("\u{E000}\u{1F600}A")));
    assert_eq!(view.to_string(), "\u{E000}\u{1F600}A");
}

#[test]
fn view_with_malformed_payload_has_no_text() {
    let buffer: [u16; 3] = [0x0041, 0xD800, 0];
    let view = Str16::from_ptr(&buffer);
    assert_eq!(view.try_to_string(), None);
}
