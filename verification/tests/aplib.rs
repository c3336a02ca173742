use rom_recompress::aplib::{frame, strip_header};
use rom_recompress::error::Error;

#[test]
fn decompress_short_header_error() {
    let input_data = vec![0];
    let err = strip_header(&input_data).unwrap_err();
    assert_eq!(err, Error::AplibDecompressShortHeaderError());
}

#[test]
fn decompress_invalid_header_error() {
    let input_data = vec![0, 173, 1, 86, 192, 0];
    let err = strip_header(&input_data).unwrap_err();
    assert_eq!(err, Error::AplibDecompressInvalidheaderError());
}

#[test]
fn frame_prepends_magic() {
    let framed = frame(&[0, 173, 1, 86, 192, 0]);
    assert_eq!(framed, vec![0xFF, 0xFF, 0, 173, 1, 86, 192, 0]);
}

#[test]
fn frame_round_trip() {
    let payload = vec![7u8, 1, 2, 250];
    let framed = frame(&payload);
    let stripped = strip_header(&framed).unwrap();
    assert_eq!(stripped, &payload[..]);
}

#[test]
fn strip_header_of_bare_magic_is_empty() {
    let stripped = strip_header(&[0xFF, 0xFF]).unwrap();
    assert_eq!(stripped.len(), 0);
}

#[test]
fn invalid_header_one_good_byte() {
    let err = strip_header(&[0xFF, 0x00, 9]).unwrap_err();
    assert_eq!(err, Error::AplibDecompressInvalidheaderError());
}
