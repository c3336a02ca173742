use rom_recompress::checked_get::{CheckedGet, Error, RangeBound};

#[test]
fn checked_get_range_full() {
    let bytes = vec![
        0x00, 0x01, 0x02, 0x03, 0x04, 0x05, 0x06, 0x07, 0x08, 0x09, 0x0A, 0x0B, 0x0C, 0x0D, 0x0E,
        0x0F,
    ];

    let ret = bytes.get_checked(RangeBound::Unbounded, RangeBound::Unbounded).unwrap();
    assert_eq!(ret.len(), 16);
    assert_eq!(ret, bytes);
}

#[test]
fn checked_get_range_full_exclusive() {
    let bytes = vec![
        0x00, 0x01, 0x02, 0x03, 0x04, 0x05, 0x06, 0x07, 0x08, 0x09, 0x0A, 0x0B, 0x0C, 0x0D, 0x0E,
        0x0F,
    ];

    let ret = bytes.get_checked(RangeBound::Included(2), RangeBound::Excluded(5)).unwrap();
    assert_eq!(ret.len(), 3);
    assert_eq!(ret, &bytes[2..5]);
}

#[test]
fn checked_get_range_full_inclusive() {
    let bytes = vec![
        0x00, 0x01, 0x02, 0x03, 0x04, 0x05, 0x06, 0x07, 0x08, 0x09, 0x0A, 0x0B, 0x0C, 0x0D, 0x0E,
        0x0F,
    ];

    let ret = bytes.get_checked(RangeBound::Included(2), RangeBound::Included(5)).unwrap();
    assert_eq!(ret.len(), 4);
    assert_eq!(ret, &bytes[2..=5]);
}

#[test]
fn checked_get_range_full_zero_exclusive() {
    let bytes = vec![
        0x00, 0x01, 0x02, 0x03, 0x04, 0x05, 0x06, 0x07, 0x08, 0x09, 0x0A, 0x0B, 0x0C, 0x0D, 0x0E,
        0x0F,
    ];

    let ret = bytes.get_checked(RangeBound::Included(0), RangeBound::Excluded(0)).unwrap();
    assert_eq!(ret.len(), 0);
    assert_eq!(ret, &bytes[0..0]);
}

#[test]
fn checked_get_range_full_zero_inclusive() {
    let bytes = vec![
        0x00, 0x01, 0x02, 0x03, 0x04, 0x05, 0x06, 0x07, 0x08, 0x09, 0x0A, 0x0B, 0x0C, 0x0D, 0x0E,
        0x0F,
    ];

    let ret = bytes.get_checked(RangeBound::Included(0), RangeBound::Included(0)).unwrap();
    assert_eq!(ret.len(), 1);
    assert_eq!(ret, &bytes[0..=0]);
}

#[test]
fn checked_get_range_from() {
    let bytes = vec![
        0x00, 0x01, 0x02, 0x03, 0x04, 0x05, 0x06, 0x07, 0x08, 0x09, 0x0A, 0x0B, 0x0C, 0x0D, 0x0E,
        0x0F,
    ];

    let ret = bytes.get_checked(RangeBound::Included(5), RangeBound::Unbounded).unwrap();
    assert_eq!(ret.len(), 16 - 5);
    assert_eq!(ret, &bytes[5..]);
}

#[test]
fn checked_get_range_from_zero() {
    let bytes = vec![
        0x00, 0x01, 0x02, 0x03, 0x04, 0x05, 0x06, 0x07, 0x08, 0x09, 0x0A, 0x0B, 0x0C, 0x0D, 0x0E,
        0x0F,
    ];

    let ret = bytes.get_checked(RangeBound::Included(16), RangeBound::Unbounded).unwrap();
    assert_eq!(ret.len(), 0);
    assert_eq!(ret, &bytes[16..]);
}

#[test]
fn checked_get_range_from_oob_error() {
    let bytes = vec![
        0x00, 0x01, 0x02, 0x03, 0x04, 0x05, 0x06, 0x07, 0x08, 0x09, 0x0A, 0x0B, 0x0C, 0x0D, 0x0E,
        0x0F,
    ];

    let err = bytes.get_checked(RangeBound::Included(17), RangeBound::Unbounded).unwrap_err();
    assert_eq!(err, Error::StartIndexError(17, 16));
}

#[test]
fn checked_get_range_from_inverse_error() {
    let bytes = vec![
        0x00, 0x01, 0x02, 0x03, 0x04, 0x05, 0x06, 0x07, 0x08, 0x09, 0x0A, 0x0B, 0x0C, 0x0D, 0x0E,
        0x0F,
    ];

    let err = bytes.get_checked(RangeBound::Included(17), RangeBound::Excluded(5)).unwrap_err();
    assert_eq!(err, Error::StartIndexError(17, 5));
}

#[test]
fn checked_get_range_to_exclusive() {
    let bytes = vec![
        0x00, 0x01, 0x02, 0x03, 0x04, 0x05, 0x06, 0x07, 0x08, 0x09, 0x0A, 0x0B, 0x0C, 0x0D, 0x0E,
        0x0F,
    ];

    let ret = bytes.get_checked(RangeBound::Unbounded, RangeBound::Excluded(5)).unwrap();
    assert_eq!(ret.len(), 5);
    assert_eq!(ret, &bytes[..5]);
}

#[test]
fn checked_get_range_to_inclusive() {
    let bytes = vec![
        0x00, 0x01, 0x02, 0x03, 0x04, 0x05, 0x06, 0x07, 0x08, 0x09, 0x0A, 0x0B, 0x0C, 0x0D, 0x0E,
        0x0F,
    ];

    let ret = bytes.get_checked(RangeBound::Unbounded, RangeBound::Included(5)).unwrap();
    assert_eq!(ret.len(), 6);
    assert_eq!(ret, &bytes[..6]);
}

#[test]
fn checked_get_range_overflow_error() {
    let bytes = vec![
        0x00, 0x01, 0x02, 0x03, 0x04, 0x05, 0x06, 0x07, 0x08, 0x09, 0x0A, 0x0B, 0x0C, 0x0D, 0x0E,
        0x0F,
    ];

    let err = bytes
        .get_checked(RangeBound::Included(0), RangeBound::Included(usize::MAX))
        .unwrap_err();
    assert_eq!(err, Error::EndIndexOverflowError());
}
