use rom_recompress::get_checked::{Error, GetChecked};

#[test]
fn index() {
    let bytes = vec![
        0xA0, 0x11, 0xB2, 0xD3, 0x0F4, 0x35, 0x66, 0x17, 0x53, 0x65, 0xDA, 0xCB, 0x4C, 0xD5, 0x3E,
        0x1F,
    ];

    let ret = *bytes.get_checked(4).unwrap();
    assert_eq!(ret, bytes[4]);
}

#[test]
fn index_edge() {
    let bytes = vec![
        0xA0, 0x11, 0xB2, 0xD3, 0x0F4, 0x35, 0x66, 0x17, 0x53, 0x65, 0xDA, 0xCB, 0x4C, 0xD5, 0x3E,
        0x1F,
    ];

    let ret = *bytes.get_checked(15).unwrap();
    assert_eq!(ret, bytes[15]);
}

#[test]
fn index_error() {
    let bytes = vec![
        0xA0, 0x11, 0xB2, 0xD3, 0x0F4, 0x35, 0x66, 0x17, 0x53, 0x65, 0xDA, 0xCB, 0x4C, 0xD5, 0x3E,
        0x1F,
    ];

    let err = bytes.get_checked(16).unwrap_err();
    assert_eq!(err, Error::IndexError(16, 16));
}

#[test]
fn get_checked_range_full() {
    let bytes = vec![
        0xA0, 0x11, 0xB2, 0xD3, 0x0F4, 0x35, 0x66, 0x17, 0x53, 0x65, 0xDA, 0xCB, 0x4C, 0xD5, 0x3E,
        0x1F,
    ];

    let ret = bytes.get_checked_full().unwrap();
    assert_eq!(ret.len(), 16);
    assert_eq!(ret, bytes);
}

#[test]
fn get_checked_range_full_exclusive() {
    let bytes = vec![
        0xA0, 0x11, 0xB2, 0xD3, 0x0F4, 0x35, 0x66, 0x17, 0x53, 0x65, 0xDA, 0xCB, 0x4C, 0xD5, 0x3E,
        0x1F,
    ];

    let ret = bytes.get_checked_range(2, 5).unwrap();
    assert_eq!(ret.len(), 3);
    assert_eq!(ret, &bytes[2..5]);
}

#[test]
fn get_checked_range_full_inclusive() {
    let bytes = vec![
        0xA0, 0x11, 0xB2, 0xD3, 0x0F4, 0x35, 0x66, 0x17, 0x53, 0x65, 0xDA, 0xCB, 0x4C, 0xD5, 0x3E,
        0x1F,
    ];

    let ret = bytes.get_checked_inclusive(2, 5).unwrap();
    assert_eq!(ret.len(), 4);
    assert_eq!(ret, &bytes[2..=5]);
}

#[test]
fn get_checked_range_full_zero_exclusive() {
    let bytes = vec![
        0xA0, 0x11, 0xB2, 0xD3, 0x0F4, 0x35, 0x66, 0x17, 0x53, 0x65, 0xDA, 0xCB, 0x4C, 0xD5, 0x3E,
        0x1F,
    ];

    let ret = bytes.get_checked_range(0, 0).unwrap();
    assert_eq!(ret.len(), 0);
    assert_eq!(ret, &bytes[0..0]);
}

#[test]
fn get_checked_range_full_zero_inclusive() {
    let bytes = vec![
        0xA0, 0x11, 0xB2, 0xD3, 0x0F4, 0x35, 0x66, 0x17, 0x53, 0x65, 0xDA, 0xCB, 0x4C, 0xD5, 0x3E,
        0x1F,
    ];

    let ret = bytes.get_checked_inclusive(0, 0).unwrap();
    assert_eq!(ret.len(), 1);
    assert_eq!(ret, &bytes[0..=0]);
}

#[test]
fn get_checked_range_from() {
    let bytes = vec![
        0xA0, 0x11, 0xB2, 0xD3, 0x0F4, 0x35, 0x66, 0x17, 0x53, 0x65, 0xDA, 0xCB, 0x4C, 0xD5, 0x3E,
        0x1F,
    ];

    let ret = bytes.get_checked_from(5).unwrap();
    assert_eq!(ret.len(), 16 - 5);
    assert_eq!(ret, &bytes[5..]);
}

#[test]
fn get_checked_range_from_zero() {
    let bytes = vec![
        0xA0, 0x11, 0xB2, 0xD3, 0x0F4, 0x35, 0x66, 0x17, 0x53, 0x65, 0xDA, 0xCB, 0x4C, 0xD5, 0x3E,
        0x1F,
    ];

    let ret = bytes.get_checked_from(16).unwrap();
    assert_eq!(ret.len(), 0);
    assert_eq!(ret, &bytes[16..]);
}

#[test]
fn get_checked_range_from_oob_error() {
    let bytes = vec![
        0xA0, 0x11, 0xB2, 0xD3, 0x0F4, 0x35, 0x66, 0x17, 0x53, 0x65, 0xDA, 0xCB, 0x4C, 0xD5, 0x3E,
        0x1F,
    ];

    let err = bytes.get_checked_from(17).unwrap_err();
    assert_eq!(err, Error::StartIndexError(17, 16));
}

#[test]
fn get_checked_range_from_inverse_error() {
    let bytes = vec![
        0xA0, 0x11, 0xB2, 0xD3, 0x0F4, 0x35, 0x66, 0x17, 0x53, 0x65, 0xDA, 0xCB, 0x4C, 0xD5, 0x3E,
        0x1F,
    ];

    let err = bytes.get_checked_range(17, 5).unwrap_err();
    assert_eq!(err, Error::StartIndexError(17, 5));
}

#[test]
fn get_checked_range_to_exclusive() {
    let bytes = vec![
        0xA0, 0x11, 0xB2, 0xD3, 0x0F4, 0x35, 0x66, 0x17, 0x53, 0x65, 0xDA, 0xCB, 0x4C, 0xD5, 0x3E,
        0x1F,
    ];

    let ret = bytes.get_checked_to(5).unwrap();
    assert_eq!(ret.len(), 5);
    assert_eq!(ret, &bytes[..5]);
}

#[test]
fn get_checked_range_to_inclusive() {
    let bytes = vec![
        0xA0, 0x11, 0xB2, 0xD3, 0x0F4, 0x35, 0x66, 0x17, 0x53, 0x65, 0xDA, 0xCB, 0x4C, 0xD5, 0x3E,
        0x1F,
    ];

    let ret = bytes.get_checked_to_inclusive(5).unwrap();
    assert_eq!(ret.len(), 6);
    assert_eq!(ret, &bytes[..6]);
}

#[test]
fn get_checked_range_overflow_error() {
    let bytes = vec![
        0xA0, 0x11, 0xB2, 0xD3, 0x0F4, 0x35, 0x66, 0x17, 0x53, 0x65, 0xDA, 0xCB, 0x4C, 0xD5, 0x3E,
        0x1F,
    ];

    let err = bytes.get_checked_inclusive(0, usize::MAX).unwrap_err();
    assert_eq!(err, Error::EndIndexOverflowError());
}
