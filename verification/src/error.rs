//! The error taxonomy of the recompression engine: every fallible operation
//! returns one of these values; nothing panics.

use vstd::prelude::*;
use crate::checked_get;

verus! {

/// Errors raised by the decoders, the codec header checks, the pointer-table
/// codec and the hex parser.
#[derive(Debug, PartialEq, Eq)]
pub enum Error {
    /// Codec decode input was shorter than the 2-byte magic header.
    AplibDecompressShortHeaderError(),
    /// Codec decode input did not start with the `0xFF, 0xFF` magic.
    AplibDecompressInvalidheaderError(),
    /// LZSS compressed length field was zero.
    LZSSDecompressZeroError(),
    /// LZSS input was shorter than the 2-byte length field.
    LZSSDecompressInputError(),
    /// LZSS ran out of input before consuming the stated compressed length;
    /// carries the expected payload length.
    LZSSDecompressOOBError(usize),
    /// LZSS length field exceeds the available input: `(available, stated)`.
    LZSSDecompressSizeError(usize, usize),
    /// A pointer-table read went out of bounds.
    ExtractPtrError(checked_get::Error),
    /// A pointer-table or image write went out of bounds.
    SplicePtrError(checked_get::Error),
    /// A hex string was empty.
    HexEmptyError(),
    /// A hex string was malformed; carries the string.
    HexError(String),
    /// A hex range string was malformed; carries the string.
    HexRangeError(String),
    /// A hex number was too large for the target type: `(number, string)`.
    HexPosOverflowError(String, String),
}

} // verus!
