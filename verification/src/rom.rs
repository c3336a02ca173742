//! The dedup-aware recompression orchestrator: owns the image buffer and a
//! running savings counter; resolves bank addresses, decodes assets, splices
//! recompressed bytes back in and rewrites pointer tables, deduplicating
//! identical recompressed assets by content hash.

use vstd::prelude::*;
use vstd::arithmetic::div_mod::lemma_div_denominator;
use std::collections::HashMap;
use crate::checked_get;
use crate::error::Error;
use crate::hash::HashOne;
use crate::hash::hash_of;

verus! {

broadcast use vstd::std_specs::hash::group_hash_axioms;

/// Bank-address translation: an address maps into the flat image iff it has
/// a bit of `0x408000` set, and then its low 22 bits are the linear offset;
/// every other address translates to offset `0`.
pub open spec fn conv_addr_spec(addr: usize) -> usize {
    if addr & 0x408000 != 0 {
        (addr % 0x400000) as usize
    } else {
        0
    }
}

/// Fold a bank-addressed console address into a linear image offset. Total
/// and pure: never fails, has no side effects.
pub fn conv_addr(addr: usize) -> (r: usize)
    ensures
        r == conv_addr_spec(addr),
        r < 0x400000,
{
    if addr & 0x408000 != 0 {
        addr % 0x400000
    } else {
        0
    }
}

/// 256 to the power `n`: the weight of byte `n` in a little-endian value.
pub open spec fn pow256(n: int) -> int
    decreases n,
{
    if n <= 0 {
        1
    } else {
        0x100 * pow256(n - 1)
    }
}

/// The little-endian value of a byte sequence: byte `i` carries weight
/// `256^i`.
pub open spec fn le_value(bs: Seq<u8>) -> int
    decreases bs.len(),
{
    if bs.len() == 0 {
        0
    } else {
        bs[0] + 0x100 * le_value(bs.skip(1))
    }
}

/// Byte `i` of the little-endian encoding of `v`.
pub open spec fn le_byte(v: int, i: int) -> u8 {
    (((v / pow256(i)) % 0x100) as u8)
}

/// The `len`-byte little-endian encoding of `v` (truncating to 8 bits per
/// position).
pub open spec fn le_bytes(v: int, len: int) -> Seq<u8> {
    Seq::new(len as nat, |i: int| le_byte(v, i))
}

/// `image` with the `len` bytes at `idx` replaced by the little-endian
/// encoding of `v`; everything else unchanged.
pub open spec fn with_ptr(image: Seq<u8>, idx: int, len: int, v: int) -> Seq<u8> {
    Seq::new(
        image.len(),
        |j: int|
            if idx <= j < idx + len {
                le_byte(v, j - idx)
            } else {
                image[j]
            },
    )
}

/// `image` with the sub-range `[start, end)` replaced by `data`, shifting
/// subsequent bytes.
pub open spec fn spliced(image: Seq<u8>, start: int, end: int, data: Seq<u8>) -> Seq<u8> {
    image.take(start) + data + image.skip(end)
}

proof fn lemma_pow256_values()
    ensures
        pow256(0) == 1,
        pow256(1) == 0x100,
        pow256(2) == 0x10000,
        pow256(3) == 0x1000000,
        pow256(4) == 0x100000000,
{
    reveal_with_fuel(pow256, 6);
}

proof fn lemma_pow256_pos(n: int)
    ensures
        pow256(n) >= 1,
    decreases n,
{
    if n > 0 {
        lemma_pow256_pos(n - 1);
    }
}

proof fn lemma_le_value_bound(bs: Seq<u8>)
    ensures
        0 <= le_value(bs) < pow256(bs.len() as int),
    decreases bs.len(),
{
    if bs.len() == 0 {
    } else {
        lemma_le_value_bound(bs.skip(1));
        let rest = le_value(bs.skip(1));
        let p = pow256(bs.len() as int - 1);
        assert(0x100 * rest <= 0x100 * (p - 1)) by (nonlinear_arith)
            requires
                rest <= p - 1,
        ;
        assert(pow256(bs.len() as int) == 0x100 * p);
    }
}

/// Read the `len`-byte little-endian pointer at byte offset `idx`,
/// accumulating `value += byte[i] * 256^i`. Succeeds iff the `len` bytes at
/// `idx` lie within the buffer; fails with the bounds error of the check
/// that failed, labelled as a pointer extraction.
pub fn extract_ptr(bytes: &[u8], idx: usize, len: usize) -> (r: Result<usize, Error>)
    requires
        len <= 4,
    ensures
        len > usize::MAX - idx ==> r == Err::<usize, Error>(
            Error::ExtractPtrError(checked_get::Error::EndIndexOverflowError()),
        ),
        len <= usize::MAX - idx && idx > bytes@.len() ==> r == Err::<usize, Error>(
            Error::ExtractPtrError(
                checked_get::Error::StartIndexError(idx, bytes@.len() as usize),
            ),
        ),
        len <= usize::MAX - idx && idx <= bytes@.len() && idx + len > bytes@.len() ==> r == Err::<
            usize,
            Error,
        >(
            Error::ExtractPtrError(
                checked_get::Error::EndIndexError((idx + len) as usize, bytes@.len() as usize),
            ),
        ),
        idx + len <= bytes@.len() ==> (r matches Ok(v) && v == le_value(
            bytes@.subrange(idx as int, idx + len),
        )),
{
    let n = bytes.len();
    if len > usize::MAX - idx {
        return Err(Error::ExtractPtrError(checked_get::Error::EndIndexOverflowError()));
    }
    if idx > n {
        return Err(Error::ExtractPtrError(checked_get::Error::StartIndexError(idx, n)));
    }
    if idx + len > n {
        return Err(Error::ExtractPtrError(checked_get::Error::EndIndexError(idx + len, n)));
    }
    let ghost window = bytes@.subrange(idx as int, idx + len);
    proof {
        lemma_pow256_values();
        lemma_le_value_bound(window);
        assert(window.skip(0) =~= window);
    }
    let mut val: u64 = 0;
    let mut mul: u64 = 1;
    let mut i: usize = 0;
    while i < len
        invariant
            i <= len,
            len <= 4,
            idx + len <= usize::MAX,
            idx + len <= bytes@.len(),
            window == bytes@.subrange(idx as int, idx + len),
            mul == pow256(i as int),
            0 <= val < pow256(i as int),
            pow256(4) == 0x100000000,
            le_value(window) == val + mul * le_value(window.skip(i as int)),
        decreases len - i,
    {
        let byte = *vstd::slice::slice_index_get(bytes, idx + i) as u64;
        proof {
            lemma_pow256_values();
            let tail = window.skip(i as int);
            assert(tail[0] == window[i as int]);
            assert(tail.skip(1) =~= window.skip(i as int + 1));
            lemma_le_value_bound(window.skip(i as int + 1));
            let rest = le_value(window.skip(i as int + 1));
            assert(mul * le_value(tail) == mul * byte + (0x100 * mul) * rest)
                by (nonlinear_arith)
                requires
                    le_value(tail) == byte + 0x100 * rest,
            ;
            assert(mul * byte <= pow256(i as int) * 255) by (nonlinear_arith)
                requires
                    mul == pow256(i as int),
                    0 <= byte < 0x100,
                    pow256(i as int) >= 1,
            ;
            assert(pow256(i as int) >= 1) by {
                lemma_le_value_bound(Seq::<u8>::empty());
            }
        }
        val = val + mul * byte;
        mul = mul * 0x100;
        i = i + 1;
        proof {
            assert(pow256(i as int) == 0x100 * pow256(i as int - 1));
            assert(val < pow256(i as int)) by (nonlinear_arith)
                requires
                    val <= pow256(i as int - 1) - 1 + pow256(i as int - 1) * 255,
                    pow256(i as int) == 0x100 * pow256(i as int - 1),
                    pow256(i as int - 1) >= 1,
            ;
        }
    }
    proof {
        assert(window.skip(len as int) =~= Seq::<u8>::empty());
        lemma_pow256_values();
    }
    Ok(val as usize)
}

/// Write `ptr` into the `len` bytes at byte offset `idx`, little-endian,
/// truncating to 8 bits per position. Succeeds iff the `len` bytes at `idx`
/// lie within the buffer, leaving every other byte unchanged; fails with the
/// bounds error of the check that failed, labelled as a pointer splice, and
/// then changes nothing.
pub fn splice_ptr(bytes: &mut Vec<u8>, idx: usize, len: usize, ptr: usize) -> (r: Result<
    (),
    Error,
>)
    requires
        len <= 4,
    ensures
        len > usize::MAX - idx ==> r == Err::<(), Error>(
            Error::SplicePtrError(checked_get::Error::EndIndexOverflowError()),
        ) && final(bytes)@ == old(bytes)@,
        len <= usize::MAX - idx && idx > old(bytes)@.len() ==> r == Err::<(), Error>(
            Error::SplicePtrError(
                checked_get::Error::StartIndexError(idx, old(bytes)@.len() as usize),
            ),
        ) && final(bytes)@ == old(bytes)@,
        len <= usize::MAX - idx && idx <= old(bytes)@.len() && idx + len > old(bytes)@.len()
            ==> r == Err::<(), Error>(
            Error::SplicePtrError(
                checked_get::Error::EndIndexError(
                    (idx + len) as usize,
                    old(bytes)@.len() as usize,
                ),
            ),
        ) && final(bytes)@ == old(bytes)@,
        idx + len <= old(bytes)@.len() ==> (r matches Ok(u) && final(bytes)@ == with_ptr(
            old(bytes)@,
            idx as int,
            len as int,
            ptr as int,
        )),
{
    let n = bytes.len();
    if len > usize::MAX - idx {
        return Err(Error::SplicePtrError(checked_get::Error::EndIndexOverflowError()));
    }
    if idx > n {
        return Err(Error::SplicePtrError(checked_get::Error::StartIndexError(idx, n)));
    }
    if idx + len > n {
        return Err(Error::SplicePtrError(checked_get::Error::EndIndexError(idx + len, n)));
    }
    proof {
        lemma_pow256_values();
    }
    let mut p: u64 = ptr as u64;
    let mut i: usize = 0;
    while i < len
        invariant
            i <= len,
            len <= 4,
            idx + len <= usize::MAX,
            idx + len <= bytes@.len(),
            bytes@.len() == old(bytes)@.len(),
            p == ptr as int / pow256(i as int),
            forall|j: int| 0 <= j < i ==> bytes@[idx + j] == le_byte(ptr as int, j),
            forall|j: int|
                0 <= j < bytes@.len() && !(idx <= j < idx + i) ==> bytes@[j] == old(bytes)@[j],
        decreases len - i,
    {
        let byte = (p % 0x100) as u8;
        proof {
            lemma_pow256_values();
            assert(byte == le_byte(ptr as int, i as int));
        }
        let pos = idx + i;
        bytes[pos] = byte;
        proof {
            lemma_div_denominator(ptr as int, pow256(i as int), 0x100);
            assert(pow256(i as int) * 0x100 == 0x100 * pow256(i as int));
            assert(pow256(i as int + 1) == 0x100 * pow256(i as int));
        }
        p = p / 0x100;
        i = i + 1;
    }
    proof {
        assert(bytes@ =~= with_ptr(old(bytes)@, idx as int, len as int, ptr as int));
    }
    Ok(())
}

/// Replace the sub-range `[start, end)` of `v` with `data`, shifting all
/// subsequent bytes.
pub fn splice_bytes(v: &mut Vec<u8>, start: usize, end: usize, data: &[u8])
    requires
        start <= end <= old(v)@.len(),
    ensures
        final(v)@ == spliced(old(v)@, start as int, end as int, data@),
{
    let n = v.len();
    let mut out: Vec<u8> = Vec::new();
    out.extend_from_slice(vstd::slice::slice_subrange(v.as_slice(), 0, start));
    out.extend_from_slice(data);
    out.extend_from_slice(vstd::slice::slice_subrange(v.as_slice(), end, n));
    *v = out;
    proof {
        assert(v@ =~= spliced(old(v)@, start as int, end as int, data@));
    }
}

/// A pointer-table descriptor: the bank address of the table, the width in
/// bytes of each entry, the number of entries, and the bank base address
/// that the stored data pointers are relative to.
#[derive(Debug, Clone, Copy, PartialEq, Eq, Structural)]
pub struct TableDescriptor {
    pub start: usize,
    pub ptr_size: usize,
    pub arr_len: usize,
    pub offset: usize,
}

impl TableDescriptor {
    /// A well-formed descriptor has a pointer width of 1 to 4 bytes.
    pub open spec fn wf(&self) -> bool {
        1 <= self.ptr_size <= 4
    }
}

/// The sequential state of one table-recompression call: the table cursor,
/// the low-water-mark data pointer read from entry 0, the data pointers of
/// the entry being processed and of the write position, the compressed size
/// of a decoded entry awaiting its recompressed bytes, and the dedup lookup
/// from content hash to the first pointer assigned to that content.
pub struct TableJob {
    pub desc: TableDescriptor,
    pub idx: usize,
    pub tbl_pos: usize,
    pub init_dp: usize,
    pub old_dp: usize,
    pub new_dp: usize,
    pub pending: Option<usize>,
    pub lookup: HashMap<u64, usize>,
}

impl TableJob {
    /// The dedup lookup: content hash to first-seen data pointer.
    pub open spec fn lookup_map(&self) -> Map<u64, usize> {
        self.lookup@
    }
}

/// Both jobs describe the same position and lookup state.
pub open spec fn job_unchanged(a: TableJob, b: TableJob) -> bool {
    &&& b.desc == a.desc
    &&& b.idx == a.idx
    &&& b.tbl_pos == a.tbl_pos
    &&& b.init_dp == a.init_dp
    &&& b.old_dp == a.old_dp
    &&& b.new_dp == a.new_dp
    &&& b.pending == a.pending
    &&& b.lookup_map() == a.lookup_map()
}

/// `b` is `a` with the pending compressed size set to `orig`.
pub open spec fn job_pending_set(a: TableJob, b: TableJob, orig: int) -> bool {
    &&& b.desc == a.desc
    &&& b.idx == a.idx
    &&& b.tbl_pos == a.tbl_pos
    &&& b.init_dp == a.init_dp
    &&& b.old_dp == a.old_dp
    &&& b.new_dp == a.new_dp
    &&& b.pending == Some(orig as usize)
    &&& b.lookup_map() == a.lookup_map()
}

/// One table entry can be applied with candidate physical bytes `data`:
/// the write offset and the entry's pointer field lie within the image, the
/// next entry's pointer can be read afterwards, and no offset computation
/// overflows. Duplicate content (hash already in the lookup) writes no data
/// bytes, so only the pointer fields must fit.
pub open spec fn entry_applicable(pre: Rom, j: TableJob, data: Seq<u8>) -> bool {
    let h = hash_of(data);
    let dup = j.lookup_map().contains_key(h);
    let wlen = if dup {
        0int
    } else {
        data.len() as int
    };
    let n = pre.image().len() as int;
    &&& j.desc.offset + j.new_dp <= usize::MAX
    &&& conv_addr_spec((j.desc.offset + j.new_dp) as usize) + wlen <= n
    &&& j.tbl_pos + j.desc.ptr_size <= n
    &&& j.tbl_pos + 2 * j.desc.ptr_size <= n
    &&& j.new_dp + wlen <= usize::MAX
}

/// The exact error of applying one table entry that is not applicable:
/// the first check that fails, in the order the application performs them
/// (write-offset computation, data splice, pointer splice, next-pointer
/// read, write-pointer advance). Meaningful only when `entry_applicable`
/// does not hold.
pub open spec fn entry_error(pre: Rom, j: TableJob, data: Seq<u8>) -> Error {
    let h = hash_of(data);
    let dup = j.lookup_map().contains_key(h);
    let wlen = if dup {
        0int
    } else {
        data.len() as int
    };
    let n = pre.image().len() as int;
    let ps = j.desc.ptr_size as int;
    if j.desc.offset + j.new_dp > usize::MAX {
        Error::ExtractPtrError(checked_get::Error::StartIndexOverflowError())
    } else {
        let ndo = conv_addr_spec((j.desc.offset + j.new_dp) as usize) as int;
        if ndo + wlen > usize::MAX {
            Error::SplicePtrError(checked_get::Error::EndIndexOverflowError())
        } else if ndo + wlen > n {
            Error::SplicePtrError(
                checked_get::Error::EndIndexError((ndo + wlen) as usize, n as usize),
            )
        } else if j.tbl_pos + ps > usize::MAX {
            Error::SplicePtrError(checked_get::Error::EndIndexOverflowError())
        } else if j.tbl_pos > n {
            Error::SplicePtrError(checked_get::Error::StartIndexError(j.tbl_pos, n as usize))
        } else if j.tbl_pos + ps > n {
            Error::SplicePtrError(
                checked_get::Error::EndIndexError((j.tbl_pos + ps) as usize, n as usize),
            )
        } else if j.tbl_pos + 2 * ps > usize::MAX {
            Error::ExtractPtrError(checked_get::Error::EndIndexOverflowError())
        } else if j.tbl_pos + 2 * ps > n {
            Error::ExtractPtrError(
                checked_get::Error::EndIndexError((j.tbl_pos + 2 * ps) as usize, n as usize),
            )
        } else {
            Error::SplicePtrError(checked_get::Error::StartIndexOverflowError())
        }
    }
}

/// The relation between the orchestrator state before and after one table
/// entry is applied with candidate physical bytes `data`: duplicate content
/// reuses the first-seen pointer and writes no data bytes; new content is
/// recorded in the lookup, written at the translated write offset, and
/// advances the write pointer. Either way the entry's pointer field is
/// rewritten, the cursor moves to the next entry and that entry's stored
/// pointer is read from the updated image.
pub open spec fn entry_applied(
    pre: Rom,
    pre_job: TableJob,
    post: Rom,
    post_job: TableJob,
    data: Seq<u8>,
) -> bool {
    let h = hash_of(data);
    let dup = pre_job.lookup_map().contains_key(h);
    let dp = if dup {
        pre_job.lookup_map()[h]
    } else {
        pre_job.new_dp
    };
    let wdata = if dup {
        Seq::<u8>::empty()
    } else {
        data
    };
    let ndo = conv_addr_spec((pre_job.desc.offset + pre_job.new_dp) as usize) as int;
    let mid = spliced(pre.image(), ndo, ndo + wdata.len(), wdata);
    &&& pre_job.desc.offset + pre_job.new_dp <= usize::MAX
    &&& post.image() == with_ptr(
        mid,
        pre_job.tbl_pos as int,
        pre_job.desc.ptr_size as int,
        dp as int,
    )
    &&& post.image().len() == pre.image().len()
    &&& post_job.desc == pre_job.desc
    &&& post_job.idx == pre_job.idx + 1
    &&& post_job.tbl_pos == pre_job.tbl_pos + pre_job.desc.ptr_size
    &&& post_job.init_dp == pre_job.init_dp
    &&& post_job.new_dp == pre_job.new_dp + wdata.len()
    &&& post_job.tbl_pos + post_job.desc.ptr_size <= post.image().len()
    &&& post_job.old_dp == le_value(
        post.image().subrange(
            post_job.tbl_pos as int,
            post_job.tbl_pos + post_job.desc.ptr_size,
        ),
    )
    &&& post_job.lookup_map() == if dup {
        pre_job.lookup_map()
    } else {
        pre_job.lookup_map().insert(h, pre_job.new_dp)
    }
    &&& post_job.pending is None
}

/// What one step of table recompression asks of the caller next: the
/// table's final logical range, nothing (an entry whose pointer marked it
/// as foreign data was handled in place), or decoded bytes to hand to the
/// external compressor.
#[derive(Debug)]
pub enum TableStep {
    Done(usize, usize),
    Skipped,
    Compress(Vec<u8>),
}

/// The savings credited for one recompressed asset: the shrinkage when the
/// new size does not exceed the old, zero otherwise (the replacement still
/// happens when the asset grew, but no savings are credited).
pub open spec fn credit(orig: int, new_len: int) -> int {
    if new_len <= orig {
        orig - new_len
    } else {
        0
    }
}

/// Addition on the savings counter, saturating at the machine limit.
pub open spec fn sat_add(a: int, b: int) -> int {
    if a + b > usize::MAX {
        usize::MAX as int
    } else {
        a + b
    }
}

/// A single asset decoded from the image, awaiting its recompressed bytes:
/// the bank address it was described by, the translated image offset, the
/// compressed size it occupied, and the decoded bytes to hand to the
/// external compressor.
#[derive(Debug)]
pub struct SingleJob {
    pub start: usize,
    pub offset: usize,
    pub orig_size: usize,
    pub bytes: Vec<u8>,
}

/// The orchestrator: owns the image buffer and the running savings counter.
pub struct Rom {
    rom: Vec<u8>,
    saved_bytes: usize,
}

impl Rom {
    /// The image bytes.
    pub closed spec fn image(&self) -> Seq<u8> {
        self.rom@
    }

    /// The running total of bytes saved, monotonically non-decreasing.
    pub closed spec fn saved(&self) -> int {
        self.saved_bytes as int
    }

    /// Take ownership of an image read into memory.
    pub fn new(bytes: Vec<u8>) -> (r: Rom)
        ensures
            r.image() == bytes@,
            r.saved() == 0,
    {
        Rom { rom: bytes, saved_bytes: 0 }
    }

    /// The running total of bytes saved so far.
    pub fn saved_bytes(&self) -> (r: usize)
        ensures
            r as int == self.saved(),
    {
        self.saved_bytes
    }

    /// Borrow the image.
    pub fn bytes(&self) -> (r: &Vec<u8>)
        ensures
            r@ == self.image(),
    {
        &self.rom
    }

    /// Give the image back.
    pub fn into_bytes(self) -> (r: Vec<u8>)
        ensures
            r@ == self.image(),
    {
        self.rom
    }

    /// Begin recompressing the single asset at bank address `start`:
    /// translate the address and LZSS-decode the asset there. The returned
    /// job carries the decoded bytes for the external compressor and the
    /// compressed size the asset occupied; errors are exactly the bounds
    /// error on a start past the image and the decoder's own errors.
    pub fn single_begin(&self, start: usize) -> (r: Result<SingleJob, Error>)
        ensures
            ({
                let off = conv_addr_spec(start) as int;
                let n = self.image().len() as int;
                &&& (off > n ==> r == Err::<SingleJob, Error>(
                    Error::ExtractPtrError(
                        checked_get::Error::StartIndexError(
                            conv_addr_spec(start),
                            self.image().len() as usize,
                        ),
                    ),
                ))
                &&& (off <= n ==> match crate::lzss::lzss_result(self.image().skip(off)) {
                    Ok(p) => {
                        &&& r matches Ok(job)
                        &&& job.start == start
                        &&& job.offset == conv_addr_spec(start)
                        &&& job.bytes@ == p.0
                        &&& job.orig_size == p.1
                        &&& off + job.orig_size <= n
                    },
                    Err(e) => r == Err::<SingleJob, Error>(e),
                })
            }),
    {
        let off = conv_addr(start);
        let n = self.rom.len();
        if off > n {
            return Err(
                Error::ExtractPtrError(checked_get::Error::StartIndexError(off, n)),
            );
        }
        let tail = vstd::slice::slice_subrange(self.rom.as_slice(), off, n);
        proof {
            assert(tail@ =~= self.image().skip(off as int));
        }
        match crate::lzss::decompress(tail) {
            Ok((bytes, size)) => Ok(SingleJob { start, offset: off, orig_size: size, bytes }),
            Err(e) => Err(e),
        }
    }

    /// Finish recompressing a single asset: frame the external compressor's
    /// output with the magic header, credit the savings when the framed
    /// asset did not grow, and splice the framed bytes over the bytes the
    /// asset occupied. Returns the asset's new logical range
    /// `[start, start + framed length)`; on any error nothing is changed.
    pub fn single_finish(&mut self, job: &SingleJob, packed: &[u8]) -> (r: Result<
        (usize, usize),
        Error,
    >)
        ensures
            ({
                let n = old(self).image().len() as int;
                let flen = packed@.len() as int + 2;
                let off = job.offset as int;
                let orig = job.orig_size as int;
                &&& (off > n ==> r == Err::<(usize, usize), Error>(
                    Error::SplicePtrError(
                        checked_get::Error::StartIndexError(
                            job.offset,
                            old(self).image().len() as usize,
                        ),
                    ),
                ))
                &&& (off <= n && orig > usize::MAX - off ==> r == Err::<(usize, usize), Error>(
                    Error::SplicePtrError(checked_get::Error::EndIndexOverflowError()),
                ))
                &&& (off <= n && orig <= usize::MAX - off && off + orig > n ==> r == Err::<
                    (usize, usize),
                    Error,
                >(
                    Error::SplicePtrError(
                        checked_get::Error::EndIndexError(
                            (job.offset + job.orig_size) as usize,
                            old(self).image().len() as usize,
                        ),
                    ),
                ))
                &&& (off + orig <= n && flen > usize::MAX - job.start ==> r == Err::<
                    (usize, usize),
                    Error,
                >(Error::SplicePtrError(checked_get::Error::StartIndexOverflowError())))
                &&& (off + orig <= n && flen <= usize::MAX - job.start ==> {
                    &&& r == Ok::<(usize, usize), Error>(
                        (job.start, (job.start + flen) as usize),
                    )
                    &&& final(self).image() == spliced(
                        old(self).image(),
                        off,
                        off + orig,
                        crate::aplib::framed(packed@),
                    )
                    &&& final(self).saved() == sat_add(old(self).saved(), credit(orig, flen))
                })
            }),
            final(self).saved() >= old(self).saved(),
            r is Err ==> final(self).image() == old(self).image() && final(self).saved() == old(
                self,
            ).saved(),
    {
        let framed_data = crate::aplib::frame(packed);
        let flen = framed_data.len();
        let n = self.rom.len();
        if job.offset > n {
            return Err(
                Error::SplicePtrError(checked_get::Error::StartIndexError(job.offset, n)),
            );
        }
        if job.orig_size > usize::MAX - job.offset {
            return Err(Error::SplicePtrError(checked_get::Error::EndIndexOverflowError()));
        }
        let end = job.offset + job.orig_size;
        if end > n {
            return Err(Error::SplicePtrError(checked_get::Error::EndIndexError(end, n)));
        }
        if flen > usize::MAX - job.start {
            return Err(
                Error::SplicePtrError(checked_get::Error::StartIndexOverflowError()),
            );
        }
        let delta = if flen <= job.orig_size {
            job.orig_size - flen
        } else {
            0
        };
        self.saved_bytes = if delta > usize::MAX - self.saved_bytes {
            usize::MAX
        } else {
            self.saved_bytes + delta
        };
        splice_bytes(&mut self.rom, job.offset, end, framed_data.as_slice());
        Ok((job.start, job.start + flen))
    }

    /// Begin recompressing a pointer table: translate the table's bank
    /// address and read the initial data pointer from entry 0, the
    /// low-water mark below which stored pointers are treated as foreign
    /// data. The job starts at entry 0 with an empty dedup lookup.
    pub fn table_begin(&self, desc: TableDescriptor) -> (r: Result<TableJob, Error>)
        requires
            desc.wf(),
        ensures
            ({
                let tp = conv_addr_spec(desc.start) as int;
                let ps = desc.ptr_size as int;
                let n = self.image().len() as int;
                &&& (tp > n ==> r == Err::<TableJob, Error>(
                    Error::ExtractPtrError(
                        checked_get::Error::StartIndexError(
                            conv_addr_spec(desc.start),
                            self.image().len() as usize,
                        ),
                    ),
                ))
                &&& (tp <= n && tp + ps > n ==> r == Err::<TableJob, Error>(
                    Error::ExtractPtrError(
                        checked_get::Error::EndIndexError(
                            (tp + ps) as usize,
                            self.image().len() as usize,
                        ),
                    ),
                ))
                &&& (tp + ps <= n ==> {
                    let dp = le_value(self.image().subrange(tp, tp + ps));
                    &&& r matches Ok(job)
                    &&& job.desc == desc
                    &&& job.idx == 0
                    &&& job.tbl_pos == conv_addr_spec(desc.start)
                    &&& job.init_dp == dp
                    &&& job.old_dp == dp
                    &&& job.new_dp == dp
                    &&& job.pending is None
                    &&& job.lookup_map() == Map::<u64, usize>::empty()
                })
            }),
    {
        let tp = conv_addr(desc.start);
        match extract_ptr(self.rom.as_slice(), tp, desc.ptr_size) {
            Err(e) => Err(e),
            Ok(dp) => Ok(
                TableJob {
                    desc,
                    idx: 0,
                    tbl_pos: tp,
                    init_dp: dp,
                    old_dp: dp,
                    new_dp: dp,
                    pending: None,
                    lookup: HashMap::new(),
                },
            ),
        }
    }

    /// Apply one table entry with candidate physical bytes `data`: hash the
    /// bytes, reuse the first-seen pointer and write nothing when the hash
    /// is already in the lookup, otherwise record the hash and splice the
    /// bytes at the translated write offset; then rewrite the entry's
    /// pointer field, advance the cursor and read the next entry's stored
    /// pointer. Succeeds iff the entry is applicable; a failure aborts the
    /// call mid-way and the image may be left partially patched.
    fn apply_entry(&mut self, job: &mut TableJob, data: Vec<u8>) -> (r: Result<(), Error>)
        requires
            old(job).desc.wf(),
            old(job).idx < old(job).desc.arr_len,
        ensures
            final(job).desc == old(job).desc,
            final(self).saved() == old(self).saved(),
            r is Ok <==> entry_applicable(*old(self), *old(job), data@),
            r is Ok ==> entry_applied(*old(self), *old(job), *final(self), *final(job), data@),
            r is Err ==> r == Err::<(), Error>(entry_error(*old(self), *old(job), data@)),
    {
        let h = data.as_slice().hash_one();
        let dup = job.lookup.contains_key(&h);
        let dp: usize;
        let wdata: Vec<u8>;
        if dup {
            dp = *job.lookup.get(&h).unwrap();
            wdata = Vec::new();
        } else {
            dp = job.new_dp;
            job.lookup.insert(h, job.new_dp);
            wdata = data;
        }
        if job.new_dp > usize::MAX - job.desc.offset {
            return Err(Error::ExtractPtrError(checked_get::Error::StartIndexOverflowError()));
        }
        let ndo = conv_addr(job.desc.offset + job.new_dp);
        let wlen = wdata.len();
        let n = self.rom.len();
        if wlen > usize::MAX - ndo {
            return Err(Error::SplicePtrError(checked_get::Error::EndIndexOverflowError()));
        }
        let dend = ndo + wlen;
        if dend > n {
            return Err(Error::SplicePtrError(checked_get::Error::EndIndexError(dend, n)));
        }
        splice_bytes(&mut self.rom, ndo, dend, wdata.as_slice());
        match splice_ptr(&mut self.rom, job.tbl_pos, job.desc.ptr_size, dp) {
            Err(e) => {
                return Err(e);
            },
            Ok(u) => {},
        }
        job.tbl_pos = job.tbl_pos + job.desc.ptr_size;
        job.idx = job.idx + 1;
        match extract_ptr(self.rom.as_slice(), job.tbl_pos, job.desc.ptr_size) {
            Err(e) => {
                return Err(e);
            },
            Ok(v) => {
                job.old_dp = v;
            },
        }
        if wlen > usize::MAX - job.new_dp {
            return Err(Error::SplicePtrError(checked_get::Error::StartIndexOverflowError()));
        }
        job.new_dp = job.new_dp + wlen;
        job.pending = None;
        Ok(())
    }

    /// Advance one step through a table-recompression call. Past the last
    /// entry, report the table's new logical range
    /// `[data base + initial pointer, data base + write pointer)`. An entry
    /// whose stored pointer lies below the initial pointer points at
    /// foreign data: it is applied in place with zero bytes. Any other
    /// entry is decoded and its bytes are returned for the external
    /// compressor; hand the compressor's output to `table_supply`.
    pub fn table_advance(&mut self, job: &mut TableJob) -> (r: Result<TableStep, Error>)
        requires
            old(job).desc.wf(),
            old(job).pending is None,
        ensures
            final(job).desc == old(job).desc,
            final(self).saved() == old(self).saved(),
            old(job).idx >= old(job).desc.arr_len ==> ({
                let a = old(job).desc.offset + old(job).init_dp;
                let b = old(job).desc.offset + old(job).new_dp;
                &&& (a <= usize::MAX && b <= usize::MAX ==> r == Ok::<TableStep, Error>(
                    TableStep::Done(a as usize, b as usize),
                ))
                &&& (!(a <= usize::MAX && b <= usize::MAX) ==> r == Err::<TableStep, Error>(
                    Error::ExtractPtrError(checked_get::Error::StartIndexOverflowError()),
                ))
                &&& final(self).image() == old(self).image()
                &&& job_unchanged(*old(job), *final(job))
            }),
            old(job).idx < old(job).desc.arr_len && old(job).old_dp < old(job).init_dp ==> ({
                &&& (entry_applicable(*old(self), *old(job), Seq::<u8>::empty()) ==> r == Ok::<
                    TableStep,
                    Error,
                >(TableStep::Skipped) && entry_applied(
                    *old(self),
                    *old(job),
                    *final(self),
                    *final(job),
                    Seq::<u8>::empty(),
                ))
                &&& (!entry_applicable(*old(self), *old(job), Seq::<u8>::empty()) ==> r == Err::<
                    TableStep,
                    Error,
                >(entry_error(*old(self), *old(job), Seq::<u8>::empty())))
            }),
            old(job).idx < old(job).desc.arr_len && old(job).old_dp >= old(job).init_dp ==> ({
                let bank = old(job).desc.offset + old(job).old_dp;
                let n = old(self).image().len() as int;
                &&& (bank > usize::MAX ==> r == Err::<TableStep, Error>(
                    Error::ExtractPtrError(checked_get::Error::StartIndexOverflowError()),
                ) && final(self).image() == old(self).image() && job_unchanged(
                    *old(job),
                    *final(job),
                ))
                &&& (bank <= usize::MAX ==> {
                    let odo = conv_addr_spec(bank as usize) as int;
                    &&& (odo > n ==> r == Err::<TableStep, Error>(
                        Error::ExtractPtrError(
                            checked_get::Error::StartIndexError(
                                conv_addr_spec(bank as usize),
                                old(self).image().len() as usize,
                            ),
                        ),
                    ) && final(self).image() == old(self).image() && job_unchanged(
                        *old(job),
                        *final(job),
                    ))
                    &&& (odo <= n ==> match crate::lzss::lzss_result(
                        old(self).image().skip(odo),
                    ) {
                        Ok(p) => {
                            &&& r matches Ok(step)
                            &&& step matches TableStep::Compress(v) && v@ == p.0
                            &&& job_pending_set(*old(job), *final(job), p.1)
                            &&& final(self).image() == old(self).image()
                        },
                        Err(e) => r == Err::<TableStep, Error>(e) && final(self).image() == old(
                            self,
                        ).image() && job_unchanged(*old(job), *final(job)),
                    })
                })
            }),
    {
        if job.idx >= job.desc.arr_len {
            if job.init_dp > usize::MAX - job.desc.offset || job.new_dp > usize::MAX
                - job.desc.offset {
                return Err(
                    Error::ExtractPtrError(checked_get::Error::StartIndexOverflowError()),
                );
            }
            return Ok(
                TableStep::Done(job.desc.offset + job.init_dp, job.desc.offset + job.new_dp),
            );
        }
        if job.old_dp < job.init_dp {
            match self.apply_entry(job, Vec::new()) {
                Ok(u) => Ok(TableStep::Skipped),
                Err(e) => Err(e),
            }
        } else {
            if job.old_dp > usize::MAX - job.desc.offset {
                return Err(
                    Error::ExtractPtrError(checked_get::Error::StartIndexOverflowError()),
                );
            }
            let odo = conv_addr(job.desc.offset + job.old_dp);
            let n = self.rom.len();
            if odo > n {
                return Err(
                    Error::ExtractPtrError(checked_get::Error::StartIndexError(odo, n)),
                );
            }
            let tail = vstd::slice::slice_subrange(self.rom.as_slice(), odo, n);
            proof {
                assert(tail@ =~= self.image().skip(odo as int));
            }
            match crate::lzss::decompress(tail) {
                Ok((bytes, size)) => {
                    job.pending = Some(size);
                    Ok(TableStep::Compress(bytes))
                },
                Err(e) => Err(e),
            }
        }
    }

    /// Supply the external compressor's output for the entry that
    /// `table_advance` returned for compression: frame it with the magic
    /// header, credit the savings when the framed asset did not grow past
    /// the compressed size it replaces, and apply the entry (dedup, splice,
    /// pointer rewrite, cursor advance).
    pub fn table_supply(&mut self, job: &mut TableJob, packed: &[u8]) -> (r: Result<(), Error>)
        requires
            old(job).desc.wf(),
            old(job).pending is Some,
            old(job).idx < old(job).desc.arr_len,
        ensures
            final(job).desc == old(job).desc,
            final(self).saved() >= old(self).saved(),
            ({
                let orig = match old(job).pending {
                    Some(o) => o as int,
                    None => 0int,
                };
                let fdata = crate::aplib::framed(packed@);
                &&& final(self).saved() == sat_add(
                    old(self).saved(),
                    credit(orig, fdata.len() as int),
                )
                &&& (entry_applicable(*old(self), *old(job), fdata) ==> r == Ok::<(), Error>(())
                    && entry_applied(*old(self), *old(job), *final(self), *final(job), fdata))
                &&& (!entry_applicable(*old(self), *old(job), fdata) ==> r == Err::<(), Error>(
                    entry_error(*old(self), *old(job), fdata),
                ))
            }),
    {
        let orig: usize = match job.pending {
            Some(o) => o,
            None => vstd::pervasive::unreached(),
        };
        let framed_data = crate::aplib::frame(packed);
        let flen = framed_data.len();
        let delta = if flen <= orig {
            orig - flen
        } else {
            0
        };
        self.saved_bytes = if delta > usize::MAX - self.saved_bytes {
            usize::MAX
        } else {
            self.saved_bytes + delta
        };
        match self.apply_entry(job, framed_data) {
            Ok(u) => Ok(()),
            Err(e) => Err(e),
        }
    }
}

/// Pointer codec round trip: reading back the `len` bytes that a pointer
/// write produced yields the pointer's value truncated to those bytes,
/// `v mod 256^len`; a pointer that fits its field survives exactly.
pub proof fn lemma_ptr_round_trip(v: int, len: int)
    requires
        0 <= v,
        0 <= len,
    ensures
        le_value(le_bytes(v, len)) == v % pow256(len),
    decreases len,
{
    if len == 0 {
        assert(le_bytes(v, 0) =~= Seq::<u8>::empty());
        assert(v % 1 == 0) by (nonlinear_arith)
            requires
                v >= 0,
        ;
    } else {
        lemma_ptr_round_trip(v / 0x100, len - 1);
        let bs = le_bytes(v, len);
        assert(bs.skip(1) =~= le_bytes(v / 0x100, len - 1)) by {
            assert forall|i: int| 0 <= i < len - 1 implies bs.skip(1)[i] == le_byte(
                v / 0x100,
                i,
            ) by {
                lemma_pow256_pos(i);
                lemma_div_denominator(v, 0x100, pow256(i));
                assert(0x100 * pow256(i) == pow256(i) * 0x100);
                assert(pow256(i + 1) == 0x100 * pow256(i));
            }
        }
        assert(bs[0] == le_byte(v, 0));
        assert(le_byte(v, 0) as int == v % 0x100);
        assert(le_value(bs) == v % 0x100 + 0x100 * ((v / 0x100) % pow256(len - 1)));
        assert(pow256(len) == 0x100 * pow256(len - 1));
        assert(v % (0x100 * pow256(len - 1)) == 0x100 * ((v / 0x100) % pow256(len - 1)) + v
            % 0x100) by {
            lemma_pow256_pos(len - 1);
            vstd::arithmetic::div_mod::lemma_mod_breakdown(v, 0x100, pow256(len - 1));
        }
    }
}

/// Savings invariant: the running total is the fold of per-asset credits.
/// An asset credits its shrinkage exactly when the recompressed form did
/// not grow, and nothing otherwise, so the total equals the sum of
/// `old_size - new_size` over the assets that shrank, and never decreases
/// as more assets are processed.
pub proof fn lemma_savings_accumulate(s: int, orig1: int, new1: int, orig2: int, new2: int)
    requires
        0 <= s <= usize::MAX,
    ensures
        new1 <= orig1 ==> credit(orig1, new1) == orig1 - new1,
        new1 > orig1 ==> credit(orig1, new1) == 0,
        sat_add(s, credit(orig1, new1)) >= s,
        sat_add(sat_add(s, credit(orig1, new1)), credit(orig2, new2)) >= sat_add(
            s,
            credit(orig1, new1),
        ),
        s + credit(orig1, new1) + credit(orig2, new2) <= usize::MAX ==> sat_add(
            sat_add(s, credit(orig1, new1)),
            credit(orig2, new2),
        ) == s + credit(orig1, new1) + credit(orig2, new2),
{
}

/// Dedup invariant: when two table entries carry identical recompressed
/// bytes, the second is deduplicated against the first — it writes no data
/// bytes into the image (only its own pointer field changes, and the write
/// pointer does not advance), and both entries' pointer fields end up
/// holding the same data pointer, the one assigned to the first entry.
pub proof fn lemma_dedup_two_entries(
    r0: Rom,
    j0: TableJob,
    r1: Rom,
    j1: TableJob,
    r2: Rom,
    j2: TableJob,
    data: Seq<u8>,
)
    requires
        !j0.lookup_map().contains_key(hash_of(data)),
        entry_applicable(r0, j0, data),
        entry_applied(r0, j0, r1, j1, data),
        entry_applicable(r1, j1, data),
        entry_applied(r1, j1, r2, j2, data),
    ensures
        j2.new_dp == j1.new_dp,
        r2.image() == with_ptr(
            r1.image(),
            j1.tbl_pos as int,
            j1.desc.ptr_size as int,
            j0.new_dp as int,
        ),
        j1.tbl_pos == j0.tbl_pos + j0.desc.ptr_size,
        r2.image().subrange(j0.tbl_pos as int, j0.tbl_pos + j0.desc.ptr_size) == le_bytes(
            j0.new_dp as int,
            j0.desc.ptr_size as int,
        ),
        r2.image().subrange(j1.tbl_pos as int, j1.tbl_pos + j1.desc.ptr_size) == le_bytes(
            j0.new_dp as int,
            j1.desc.ptr_size as int,
        ),
        le_value(r2.image().subrange(j0.tbl_pos as int, j0.tbl_pos + j0.desc.ptr_size))
            == j0.new_dp as int % pow256(j0.desc.ptr_size as int),
        le_value(r2.image().subrange(j1.tbl_pos as int, j1.tbl_pos + j1.desc.ptr_size))
            == j0.new_dp as int % pow256(j1.desc.ptr_size as int),
{
    let h = hash_of(data);
    let ps = j0.desc.ptr_size as int;
    let n = r0.image().len() as int;
    // First application: new content, recorded in the lookup.
    assert(j1.lookup_map() == j0.lookup_map().insert(h, j0.new_dp));
    assert(j1.lookup_map().contains_key(h));
    assert(j1.lookup_map()[h] == j0.new_dp);
    assert(j1.desc == j0.desc);
    // Second application: duplicate content, empty write.
    let ndo1 = conv_addr_spec((j1.desc.offset + j1.new_dp) as usize) as int;
    let mid1 = spliced(r1.image(), ndo1, ndo1, Seq::<u8>::empty());
    assert(ndo1 <= r1.image().len());
    assert(mid1 =~= r1.image());
    assert(r2.image() == with_ptr(r1.image(), j1.tbl_pos as int, ps, j0.new_dp as int));
    // The first entry's pointer field, as written by the first application.
    let ndo0 = conv_addr_spec((j0.desc.offset + j0.new_dp) as usize) as int;
    let mid0 = spliced(r0.image(), ndo0, ndo0 + data.len(), data);
    assert(mid0.len() == n);
    assert(r1.image() == with_ptr(mid0, j0.tbl_pos as int, ps, j0.new_dp as int));
    assert(j0.tbl_pos + ps <= n);
    assert(r1.image().subrange(j0.tbl_pos as int, j0.tbl_pos + ps) =~= le_bytes(
        j0.new_dp as int,
        ps,
    ));
    // The second application leaves the first entry's field untouched: the
    // two fields are adjacent and disjoint.
    assert(j1.tbl_pos == j0.tbl_pos + ps);
    assert(r2.image().subrange(j0.tbl_pos as int, j0.tbl_pos + ps) =~= r1.image().subrange(
        j0.tbl_pos as int,
        j0.tbl_pos + ps,
    ));
    // The second entry's field holds the same pointer.
    assert(r2.image().subrange(j1.tbl_pos as int, j1.tbl_pos + ps) =~= le_bytes(
        j0.new_dp as int,
        ps,
    ));
    // Both fields read back as the same value.
    lemma_ptr_round_trip(j0.new_dp as int, ps);
}

} // verus!
