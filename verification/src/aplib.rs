//! The on-disk framing of a recompressed asset: a 2-byte `0xFF, 0xFF` magic
//! header followed by the external compressor's raw output. The header is a
//! format invariant this engine owns even though the compressor itself is
//! external: encoding prepends it, decoding demands it.

use vstd::prelude::*;
use crate::error::Error;

verus! {

/// A compressed asset as stored in the image: the magic header followed by
/// the compressor's payload.
pub open spec fn framed(payload: Seq<u8>) -> Seq<u8> {
    seq![0xFFu8, 0xFFu8] + payload
}

/// Prepend the 2-byte magic header to the compressor's raw output.
pub fn frame(payload: &[u8]) -> (r: Vec<u8>)
    ensures
        r@ == framed(payload@),
        r@.len() == payload@.len() + 2,
{
    let mut out: Vec<u8> = Vec::new();
    out.push(0xFF);
    out.push(0xFF);
    out.extend_from_slice(payload);
    proof {
        assert(out@ =~= framed(payload@));
    }
    out
}

/// Validate the 2-byte magic header and return the compressor payload after
/// it. Fails with a short-header error iff the input is under 2 bytes, and
/// with an invalid-header error iff the first two bytes are not `0xFF, 0xFF`.
pub fn strip_header(input: &[u8]) -> (r: Result<&[u8], Error>)
    ensures
        input@.len() < 2 ==> r == Err::<&[u8], Error>(Error::AplibDecompressShortHeaderError()),
        input@.len() >= 2 && !(input@[0] == 0xFF && input@[1] == 0xFF) ==> r == Err::<
            &[u8],
            Error,
        >(Error::AplibDecompressInvalidheaderError()),
        input@.len() >= 2 && input@[0] == 0xFF && input@[1] == 0xFF ==> (r matches Ok(p) && p@
            == input@.skip(2)),
{
    if input.len() < 2 {
        return Err(Error::AplibDecompressShortHeaderError());
    }
    let low = *vstd::slice::slice_index_get(input, 0);
    let high = *vstd::slice::slice_index_get(input, 1);
    if high != 0xFF || low != 0xFF {
        return Err(Error::AplibDecompressInvalidheaderError());
    }
    Ok(vstd::slice::slice_subrange(input, 2, input.len()))
}

/// Framing round trip: stripping the header from a framed payload gives the
/// payload back, and a framed payload always carries a valid header.
pub proof fn lemma_frame_round_trip(payload: Seq<u8>)
    ensures
        framed(payload).len() == payload.len() + 2,
        framed(payload)[0] == 0xFF,
        framed(payload)[1] == 0xFF,
        framed(payload).skip(2) == payload,
{
    assert(framed(payload).skip(2) =~= payload);
}

} // verus!
