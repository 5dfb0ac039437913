use qoi_decode::decode_qoi;
use qoi_decode::validate;
use qoi_decode::FormatError;

fn header_bytes(magic: [u8; 4], w: u32, h: u32, ch: u8, cs: u8) -> Vec<u8> {
    let mut v = Vec::new();
    v.extend_from_slice(&magic);
    v.extend_from_slice(&w.to_be_bytes());
    v.extend_from_slice(&h.to_be_bytes());
    v.push(ch);
    v.push(cs);
    v
}

fn with_end(mut v: Vec<u8>) -> Vec<u8> {
    v.extend_from_slice(&[0, 0, 0, 0, 0, 0, 0, 1]);
    v
}

const QOIF: [u8; 4] = [0x71, 0x6f, 0x69, 0x66];

#[test]
fn validate_and_decode_agree() {
    let cases: Vec<Vec<u8>> = vec![
        with_end(header_bytes(QOIF, 1, 1, 3, 0)),
        with_end(header_bytes(QOIF, 2, 2, 4, 1)),
        with_end(header_bytes([0x71, 0x6f, 0x69, 0x67], 1, 1, 3, 0)),
        with_end(header_bytes(QOIF, 0, 1, 3, 0)),
        with_end(header_bytes(QOIF, 1, 0, 3, 0)),
        with_end(header_bytes(QOIF, 1, 1, 2, 0)),
        with_end(header_bytes(QOIF, 1, 1, 5, 0)),
        with_end(header_bytes(QOIF, 1, 1, 3, 2)),
        with_end(header_bytes(QOIF, 20000, 20000, 3, 0)),
        vec![0x71, 0x6f, 0x69],
        Vec::new(),
    ];
    for bytes in cases {
        assert_eq!(validate(&bytes), decode_qoi(&bytes).is_ok());
    }
}

#[test]
fn buffer_too_short() {
    let bytes = vec![0x71, 0x6f, 0x69, 0x66, 0, 0, 0, 1, 0, 0, 0, 1, 3];
    assert!(matches!(decode_qoi(&bytes), Err(FormatError::BufferTooShort)));
    assert!(!validate(&bytes));
}

#[test]
fn bad_magic_with_otherwise_valid_fields() {
    let bytes = with_end(header_bytes([0x71, 0x6f, 0x69, 0x67], 1, 1, 3, 0));
    assert!(matches!(decode_qoi(&bytes), Err(FormatError::BadMagic)));
}

#[test]
fn bad_magic_beats_other_field_errors() {
    let bytes = with_end(header_bytes([0x00, 0x00, 0x00, 0x00], 0, 0, 9, 9));
    assert!(matches!(decode_qoi(&bytes), Err(FormatError::BadMagic)));
}

#[test]
fn zero_width_is_bad_dimensions() {
    let bytes = with_end(header_bytes(QOIF, 0, 7, 3, 0));
    assert!(matches!(decode_qoi(&bytes), Err(FormatError::BadDimensions)));
}

#[test]
fn zero_height_is_bad_dimensions() {
    let bytes = with_end(header_bytes(QOIF, 7, 0, 3, 0));
    assert!(matches!(decode_qoi(&bytes), Err(FormatError::BadDimensions)));
}

#[test]
fn pixel_count_at_limit_is_bad_dimensions() {
    // 20000 * 20000 = 400,000,000: at the maximum, so rejected.
    let bytes = with_end(header_bytes(QOIF, 20000, 20000, 3, 0));
    assert!(matches!(decode_qoi(&bytes), Err(FormatError::BadDimensions)));
}

#[test]
fn pixel_count_below_limit_validates() {
    // 20000 * 19999 pixels is below the maximum; the sniff accepts it
    // without allocating pixel data.
    let bytes = with_end(header_bytes(QOIF, 20000, 19999, 3, 0));
    assert!(validate(&bytes));
}

#[test]
fn bad_channels() {
    let low = with_end(header_bytes(QOIF, 1, 1, 2, 0));
    let high = with_end(header_bytes(QOIF, 1, 1, 5, 0));
    assert!(matches!(decode_qoi(&low), Err(FormatError::BadChannels)));
    assert!(matches!(decode_qoi(&high), Err(FormatError::BadChannels)));
}

#[test]
fn bad_colorspace() {
    let bytes = with_end(header_bytes(QOIF, 1, 1, 3, 2));
    assert!(matches!(decode_qoi(&bytes), Err(FormatError::BadColorspace)));
}

#[test]
fn valid_header_decodes() {
    let bytes = with_end(header_bytes(QOIF, 1, 1, 4, 1));
    let img = decode_qoi(&bytes).unwrap();
    assert_eq!(img.get_width(), 1);
    assert_eq!(img.get_height(), 1);
    assert_eq!(img.get_channels(), 4);
}
