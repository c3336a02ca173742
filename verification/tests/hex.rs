use rom_recompress::error::Error;
use rom_recompress::hex::{hex_to, hex_to_range};

#[test]
fn to_usize_ok() {
    assert_eq!(hex_to("0x1F331").unwrap(), 0x1F331);
}

#[test]
fn to_usize_lowercase_ok() {
    assert_eq!(hex_to("0x1f331").unwrap(), 0x1F331);
}

#[test]
fn to_usize_sign_ok() {
    // Integer parsing accepts one leading plus sign.
    assert_eq!(hex_to("0x+1F").unwrap(), 0x1F);
}

#[test]
fn to_usize_empty_err() {
    assert_eq!(hex_to("").unwrap_err(), Error::HexEmptyError());
}

#[test]
fn to_usize_bare_prefix_err() {
    assert_eq!(hex_to("0x").unwrap_err(), Error::HexError(String::from("0x")));
}

#[test]
fn to_usize_invalid_err() {
    assert_eq!(hex_to("s").unwrap_err(), Error::HexError(String::from("s")));
    assert_eq!(hex_to("sss").unwrap_err(), Error::HexError(String::from("sss")));
    assert_eq!(hex_to("FFFF").unwrap_err(), Error::HexError(String::from("FFFF")));
    assert_eq!(hex_to("0x12g4").unwrap_err(), Error::HexError(String::from("0x12g4")));
}

#[test]
fn to_usize_overflow_err() {
    assert_eq!(
        hex_to("0x1FFFFFFFFFFFFFFFFF").unwrap_err(),
        Error::HexPosOverflowError(
            String::from("1FFFFFFFFFFFFFFFFF"),
            String::from("0x1FFFFFFFFFFFFFFFFF")
        )
    );
}

#[test]
fn range_usize_ok() {
    assert_eq!(hex_to_range("0x1F331-0xEEBB1").unwrap(), 0x1F331..0xEEBB1);
}

#[test]
fn range_usize_mixed_case_ok() {
    assert_eq!(hex_to_range("0x1f331-0xEEbB1").unwrap(), 0x1F331..0xEEBB1);
}

#[test]
fn range_empty_err() {
    assert_eq!(hex_to_range("").unwrap_err(), Error::HexEmptyError());
}

#[test]
fn range_structure_err() {
    for s in ["0x", "-", "0x-", "-0x", "q", "0xFF", "ssss", "ssss-", "-ssss", "0xssss-",
        "-0xssss", "FFFF-0xFFFF", "0xFFFF-FFFF", "0x1-0x2-0x3"]
    {
        assert_eq!(hex_to_range(s).unwrap_err(), Error::HexRangeError(String::from(s)), "{}", s);
    }
}

#[test]
fn range_invalid_digits_err() {
    for s in ["0xssss-0xFFFFFF", "0xFFFFFF-0xssss", "0xssss-0xqqqq"] {
        assert_eq!(hex_to_range(s).unwrap_err(), Error::HexRangeError(String::from(s)), "{}", s);
    }
}

#[test]
fn range_empty_number_err() {
    // "0x0x" trims to an empty number: the empty-number error, not the
    // range error.
    assert_eq!(
        hex_to_range("0x0x-0xFF").unwrap_err(),
        Error::HexError(String::from("0x0x-0xFF"))
    );
}

#[test]
fn range_overflow_err() {
    assert_eq!(
        hex_to_range("0x1-0x1FFFFFFFFFFFFFFFFF").unwrap_err(),
        Error::HexPosOverflowError(
            String::from("1FFFFFFFFFFFFFFFFF"),
            String::from("0x1-0x1FFFFFFFFFFFFFFFFF")
        )
    );
}
