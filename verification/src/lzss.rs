//! LZSS decoder: a length-prefixed, bit-flag-driven sliding-window format.
//!
//! The input starts with a 2-byte little-endian compressed length `N`
//! (covering the length field itself plus the encoded payload). The decoder
//! keeps a 2048-byte ring buffer with its write cursor starting at `0x07DE`.
//! Each header byte supplies eight flag bits, least significant first: a set
//! bit copies one literal byte from the input, a clear bit reads a 2-byte
//! little-endian word whose low 11 bits give a ring offset and whose high 5
//! bits plus 3 give a run length to copy out of the ring. Decoding stops the
//! moment `N` input bytes have been consumed, even mid-header.

use vstd::prelude::*;
use crate::error::Error;

verus! {

/// Size of the sliding-window ring buffer.
pub const RING_SIZE: usize = 0x800;

/// Initial write-cursor position inside the ring buffer (a fixed console
/// convention).
pub const RING_START: usize = 0x7DE;

/// The 2-byte little-endian compressed-length field at the head of the input.
pub open spec fn length_field(input: Seq<u8>) -> int
    recommends
        input.len() >= 2,
{
    input[0] + 0x100 * input[1]
}

/// The ring buffer before any byte has been written: 2048 zero bytes.
pub open spec fn initial_ring() -> Seq<u8> {
    Seq::new(0x800nat, |i: int| 0u8)
}

/// Outcome of running the bitstream to completion: the decoded bytes, or the
/// stream claimed more payload than the length field admits.
pub enum SpecOutcome {
    Done(Seq<u8>),
    Oob,
}

/// Ring buffer, write cursor and emitted bytes after a back-reference copy.
pub struct CopyState {
    pub ring: Seq<u8>,
    pub b: int,
    pub line: Seq<u8>,
}

/// Copy `count` bytes one at a time from ring offset `o` (mod the ring size)
/// to the advancing write cursor `b`, collecting them in `line`.
pub open spec fn copy_run(ring: Seq<u8>, b: int, o: int, count: int) -> CopyState
    decreases count,
{
    if count <= 0 {
        CopyState { ring, b, line: Seq::empty() }
    } else {
        let c = ring[o % 0x800];
        let rest = copy_run(ring.update(b, c), (b + 1) % 0x800, o + 1, count - 1);
        CopyState { ring: rest.ring, b: rest.b, line: seq![c] + rest.line }
    }
}

/// Decode from source position `s`, at the start of a header byte.
pub open spec fn run_blocks(
    input: Seq<u8>,
    len: int,
    s: int,
    ring: Seq<u8>,
    b: int,
    out: Seq<u8>,
) -> SpecOutcome
    decreases len - s, 0int,
{
    if s >= len {
        SpecOutcome::Done(out)
    } else {
        run_group(input, len, s + 1, ring, b, input[s], 8, out)
    }
}

/// Decode the remaining `passes` flag bits of the current header byte, whose
/// unread bits sit in the low bits of `header`. Decoding ends the moment the
/// source position reaches `len`, and fails if a token needs bytes past it.
pub open spec fn run_group(
    input: Seq<u8>,
    len: int,
    s: int,
    ring: Seq<u8>,
    b: int,
    header: u8,
    passes: int,
    out: Seq<u8>,
) -> SpecOutcome
    decreases len - s, (if passes <= 0 { 1int } else { passes + 1 }),
{
    if passes <= 0 {
        run_blocks(input, len, s, ring, b, out)
    } else if header & 1 == 1 {
        if s >= len {
            SpecOutcome::Oob
        } else {
            let c = input[s];
            if s + 1 == len {
                SpecOutcome::Done(out.push(c))
            } else {
                run_group(
                    input,
                    len,
                    s + 1,
                    ring.update(b, c),
                    (b + 1) % 0x800,
                    header >> 1,
                    passes - 1,
                    out.push(c),
                )
            }
        }
    } else {
        if s + 1 >= len {
            SpecOutcome::Oob
        } else {
            let w = input[s] + 0x100 * input[s + 1];
            let count = w / 0x800 + 3;
            let o = w % 0x800;
            let cs = copy_run(ring, b, o, count);
            if s + 2 == len {
                SpecOutcome::Done(out + cs.line)
            } else {
                run_group(input, len, s + 2, cs.ring, cs.b, header >> 1, passes - 1, out + cs.line)
            }
        }
    }
}

/// The outcome of decoding a well-formed input (length field positive and
/// within the input).
pub open spec fn decode_outcome(input: Seq<u8>) -> SpecOutcome
    recommends
        input.len() >= 2,
{
    run_blocks(input, length_field(input), 2, initial_ring(), 0x7DE, Seq::empty())
}

/// The full decoder contract as one function of the input: either the
/// decoded bytes with the consumed length, or the exact error.
pub open spec fn lzss_result(input: Seq<u8>) -> Result<(Seq<u8>, int), Error> {
    if input.len() < 2 {
        Err(Error::LZSSDecompressInputError())
    } else if length_field(input) == 0 {
        Err(Error::LZSSDecompressZeroError())
    } else if length_field(input) > input.len() {
        Err(Error::LZSSDecompressSizeError(input.len() as usize, length_field(input) as usize))
    } else {
        match decode_outcome(input) {
            SpecOutcome::Done(out) => Ok((out, length_field(input))),
            SpecOutcome::Oob => Err(
                Error::LZSSDecompressOOBError((length_field(input) - 2) as usize),
            ),
        }
    }
}

/// Decoder state threaded through the executable passes.
struct DecodeState {
    s: usize,
    ring: Vec<u8>,
    b: usize,
    dest: Vec<u8>,
}

fn copy_run_exec(ring: Vec<u8>, b: usize, o: usize, count: usize, dest: Vec<u8>) -> (r: (
    Vec<u8>,
    usize,
    Vec<u8>,
))
    requires
        ring@.len() == 0x800,
        b < 0x800,
        o < 0x800,
        count <= 34,
    ensures
        ({
            let cs = copy_run(ring@, b as int, o as int, count as int);
            &&& r.0@ == cs.ring
            &&& r.1 as int == cs.b
            &&& r.2@ == dest@ + cs.line
            &&& r.0@.len() == 0x800
            &&& r.1 < 0x800
        }),
{
    let ghost cs = copy_run(ring@, b as int, o as int, count as int);
    let ghost dest0 = dest@;
    let mut ring = ring;
    let mut b = b;
    let mut dest = dest;
    let mut i: usize = 0;
    while i < count
        invariant
            i <= count,
            count <= 34,
            o < 0x800,
            ring@.len() == 0x800,
            b < 0x800,
            dest@.len() == dest0.len() + i,
            dest@.take(dest0.len() as int) == dest0,
            ({
                let rest = copy_run(ring@, b as int, o + i, (count - i) as int);
                &&& cs.ring == rest.ring
                &&& cs.b == rest.b
                &&& cs.line == dest@.skip(dest0.len() as int) + rest.line
            }),
        decreases count - i,
    {
        let idx = (o + i) % 0x800;
        let c = ring[idx];
        let ghost pre_ring = ring@;
        let ghost pre_b = b as int;
        let ghost pre_dest = dest@;
        dest.push(c);
        let bi = b;
        ring[bi] = c;
        b = (b + 1) % 0x800;
        i += 1;
        proof {
            let rest_pre = copy_run(pre_ring, pre_b, o + i - 1, (count - i + 1) as int);
            let rest_post = copy_run(ring@, b as int, o + i, (count - i) as int);
            assert(rest_pre.line == seq![c] + rest_post.line);
            assert(dest@.skip(dest0.len() as int) =~= pre_dest.skip(dest0.len() as int)
                + seq![c]);
            assert(pre_dest.skip(dest0.len() as int) + (seq![c] + rest_post.line) =~= (
            pre_dest.skip(dest0.len() as int) + seq![c]) + rest_post.line);
            assert(dest@.take(dest0.len() as int) =~= dest0);
        }
    }
    proof {
        assert(dest@ =~= dest0 + dest@.skip(dest0.len() as int));
    }
    (ring, b, dest)
}

#[verifier::loop_isolation(false)]
fn run_group_exec(input: &[u8], length: usize, header: u8, st: DecodeState) -> (r: Result<
    DecodeState,
    Error,
>)
    requires
        2 <= st.s <= length <= input@.len(),
        st.ring@.len() == 0x800,
        st.b < 0x800,
    ensures
        match r {
            Ok(st2) => {
                &&& st2.ring@.len() == 0x800
                &&& st2.b < 0x800
                &&& st.s < st2.s <= length
                &&& (st2.s == length ==> run_group(
                    input@,
                    length as int,
                    st.s as int,
                    st.ring@,
                    st.b as int,
                    header,
                    8,
                    st.dest@,
                ) == SpecOutcome::Done(st2.dest@))
                &&& (st2.s < length ==> run_group(
                    input@,
                    length as int,
                    st.s as int,
                    st.ring@,
                    st.b as int,
                    header,
                    8,
                    st.dest@,
                ) == run_blocks(
                    input@,
                    length as int,
                    st2.s as int,
                    st2.ring@,
                    st2.b as int,
                    st2.dest@,
                ))
            },
            Err(e) => {
                &&& e == Error::LZSSDecompressOOBError((length - 2) as usize)
                &&& run_group(
                    input@,
                    length as int,
                    st.s as int,
                    st.ring@,
                    st.b as int,
                    header,
                    8,
                    st.dest@,
                ) == SpecOutcome::Oob
            },
        },
{
    let ghost g = run_group(
        input@,
        length as int,
        st.s as int,
        st.ring@,
        st.b as int,
        header,
        8,
        st.dest@,
    );
    let ghost s0 = st.s;
    let mut st = st;
    let mut h = header;
    let mut pass: usize = 0;
    while pass < 8
        invariant
            pass <= 8,
            2 <= st.s <= length <= input@.len(),
            st.ring@.len() == 0x800,
            st.b < 0x800,
            st.s - s0 >= pass,
            s0 <= st.s,
            pass > 0 ==> st.s < length,
            g == run_group(
                input@,
                length as int,
                st.s as int,
                st.ring@,
                st.b as int,
                h,
                8 - pass,
                st.dest@,
            ),
        decreases 8 - pass,
    {
        if h & 1 == 1 {
            if st.s >= length {
                return Err(Error::LZSSDecompressOOBError(length - 2));
            }
            let c = *vstd::slice::slice_index_get(input, st.s);
            st.s = st.s + 1;
            st.dest.push(c);
            let bi = st.b;
            st.ring[bi] = c;
            st.b = (st.b + 1) % 0x800;
            if st.s == length {
                return Ok(st);
            }
        } else {
            if st.s >= length || st.s + 1 >= length {
                return Err(Error::LZSSDecompressOOBError(length - 2));
            }
            let lo = *vstd::slice::slice_index_get(input, st.s) as usize;
            let hi = *vstd::slice::slice_index_get(input, st.s + 1) as usize;
            st.s = st.s + 2;
            let w = lo + 0x100 * hi;
            let count = w / 0x800 + 3;
            let o = w % 0x800;
            let (ring2, b2, dest2) = copy_run_exec(st.ring, st.b, o, count, st.dest);
            st.ring = ring2;
            st.b = b2;
            st.dest = dest2;
            if st.s == length {
                return Ok(st);
            }
        }
        h = h >> 1;
        pass = pass + 1;
    }
    Ok(st)
}

/// Decode an LZSS block at the head of `input`.
///
/// Succeeds iff the input holds the 2-byte length field, the field `N` is
/// positive and at most the input length, and the bitstream does not run past
/// its `N - 2` payload bytes; the result is the decoded bytes together with
/// `N`, the exact number of compressed bytes consumed.
#[verifier::loop_isolation(false)]
pub fn decompress(input: &[u8]) -> (r: Result<(Vec<u8>, usize), Error>)
    ensures
        input@.len() < 2 ==> r == Err::<(Vec<u8>, usize), Error>(
            Error::LZSSDecompressInputError(),
        ),
        input@.len() >= 2 && length_field(input@) == 0 ==> r == Err::<(Vec<u8>, usize), Error>(
            Error::LZSSDecompressZeroError(),
        ),
        input@.len() >= 2 && length_field(input@) > input@.len() ==> r == Err::<
            (Vec<u8>, usize),
            Error,
        >(
            Error::LZSSDecompressSizeError(
                input@.len() as usize,
                length_field(input@) as usize,
            ),
        ),
        input@.len() >= 2 && 0 < length_field(input@) <= input@.len() ==> match decode_outcome(
            input@,
        ) {
            SpecOutcome::Done(out) => r matches Ok(p) && p.0@ == out && p.1 == length_field(
                input@,
            ),
            SpecOutcome::Oob => r == Err::<(Vec<u8>, usize), Error>(
                Error::LZSSDecompressOOBError((length_field(input@) - 2) as usize),
            ),
        },
        match lzss_result(input@) {
            Ok(p) => r matches Ok(q) && q.0@ == p.0 && q.1 == p.1 && p.1 <= input@.len(),
            Err(e) => r == Err::<(Vec<u8>, usize), Error>(e),
        },
{
    if input.len() < 2 {
        return Err(Error::LZSSDecompressInputError());
    }
    let lo = *vstd::slice::slice_index_get(input, 0) as usize;
    let hi = *vstd::slice::slice_index_get(input, 1) as usize;
    let length = lo + 0x100 * hi;
    if length == 0 {
        return Err(Error::LZSSDecompressZeroError());
    }
    if length > input.len() {
        return Err(Error::LZSSDecompressSizeError(input.len(), length));
    }
    let mut ring: Vec<u8> = vec![0u8; RING_SIZE];
    proof {
        assert(ring@ =~= initial_ring());
    }
    let mut st = DecodeState { s: 2, ring, b: RING_START, dest: Vec::new() };
    let ghost target = decode_outcome(input@);
    while st.s < length
        invariant
            2 <= st.s,
            st.s <= length || st.s == 2,
            length == length_field(input@),
            0 < length <= input@.len(),
            st.ring@.len() == 0x800,
            st.b < 0x800,
            target == run_blocks(
                input@,
                length as int,
                st.s as int,
                st.ring@,
                st.b as int,
                st.dest@,
            ),
        decreases length - st.s,
    {
        let header = *vstd::slice::slice_index_get(input, st.s);
        st.s = st.s + 1;
        match run_group_exec(input, length, header, st) {
            Err(e) => {
                return Err(e);
            },
            Ok(st2) => {
                st = st2;
            },
        }
    }
    Ok((st.dest, length))
}

} // verus!
