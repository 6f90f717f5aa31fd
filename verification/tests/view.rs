use uefi_str16::Str16;

#[test]
fn scan_stops_at_the_terminator_and_includes_it() {
    let buffer: [u16; 4] = [0x0041, 0x0042, 0x0043, 0];
    let view = Str16::from_ptr(&buffer);
    assert_eq!(view.as_ptr().len(), 4);
    assert_eq!(view.as_ptr(), &[0x0041, 0x0042, 0x0043, 0][..]);
    assert_eq!(view.as_utf16(), &[0x0041, 0x0042, 0x0043][..]);
}

#[test]
fn scan_ignores_what_follows_the_first_terminator() {
    let buffer: [u16; 7] = [0x0041, 0x0042, 0x0043, 0, 0x0044, 0, 0];
    let view = Str16::from_ptr(&buffer);
    assert_eq!(view.as_ptr().len(), 4);
    assert_eq!(view.as_utf16(), &[0x0041, 0x0042, 0x0043][..]);
}

#[test]
fn scan_of_an_empty_string() {
    let buffer: [u16; 3] = [0, 0x0041, 0];
    let view = Str16::from_ptr(&buffer);
    assert_eq!(view.as_ptr(), &[0][..]);
    assert!(view.as_utf16().is_empty());
    assert_eq!(view.to_string(), "");
}

#[test]
fn storage_starts_at_the_first_code_unit() {
    let buffer: [u16; 3] = [0x0068, 0x0069, 0];
    let view = Str16::from_ptr(&buffer);
    assert_eq!(view.as_ptr().as_ptr(), buffer.as_ptr());
    assert_eq!(view.as_utf16().as_ptr(), buffer.as_ptr());
}

#[test]
fn view_over_a_terminated_slice() {
    let buffer: [u16; 3] = [0x0068, 0x0069, 0];
    let view = Str16::from_u16_slice(&buffer);
    assert_eq!(view.as_ptr(), &buffer[..]);
    assert_eq!(view.as_utf16(), &[0x0068, 0x0069][..]);
    assert_eq!(view.to_string(), "hi");
}
