//! Hex-string parsing for descriptor values: `"0x1F331"` to a number, and
//! `"0x1F331-0xEEBB1"` to a range, with the exact error taxonomy of integer
//! parsing (empty, malformed, out of range).

use vstd::prelude::*;
use vstd::string::StrSliceExecFns;
use crate::error::Error;

verus! {

/// The value of one hex digit, or nothing for any other character.
pub open spec fn hex_digit(c: char) -> Option<int> {
    if '0' as int <= c as int <= '9' as int {
        Some(c as int - '0' as int)
    } else if 'a' as int <= c as int <= 'f' as int {
        Some(c as int - 'a' as int + 10)
    } else if 'A' as int <= c as int <= 'F' as int {
        Some(c as int - 'A' as int + 10)
    } else {
        None
    }
}

/// What scanning hex digits left to right produces: a value, a stop on the
/// first non-digit, or a stop where the accumulator first leaves the
/// machine range.
pub enum HexScan {
    Value(int),
    Invalid,
    Overflow,
}

/// Scan hex digits left to right onto an accumulator, exactly as integer
/// parsing does: fail on the first non-digit, or on the first digit that
/// takes the accumulator past `usize::MAX`.
pub open spec fn scan_hex(ds: Seq<char>, acc: int) -> HexScan
    decreases ds.len(),
{
    if ds.len() == 0 {
        HexScan::Value(acc)
    } else {
        match hex_digit(ds[0]) {
            None => HexScan::Invalid,
            Some(d) => {
                let acc2 = acc * 16 + d;
                if acc2 > usize::MAX {
                    HexScan::Overflow
                } else {
                    scan_hex(ds.skip(1), acc2)
                }
            },
        }
    }
}

/// The string after every leading `"0x"` has been removed.
pub open spec fn trim_hex_prefix(s: Seq<char>) -> Seq<char>
    decreases s.len(),
{
    if s.len() >= 2 && s[0] == '0' && s[1] == 'x' {
        trim_hex_prefix(s.skip(2))
    } else {
        s
    }
}

/// The digits of a trimmed number: integer parsing accepts one leading `+`.
pub open spec fn hex_body(s: Seq<char>) -> Seq<char> {
    if s.len() > 0 && s[0] == '+' {
        s.skip(1)
    } else {
        s
    }
}

/// Parse the hex number in `part` (already known to carry a `"0x"` prefix),
/// reporting errors against the string `whole`. A malformed number maps to
/// the range error when `range_default` is set, as when the part came out
/// of a range string; an empty number and an overflow map the same way
/// either way.
#[verifier::loop_isolation(false)]
fn parse_hex_part(part: &str, whole: &str, range_default: bool) -> (r: Result<usize, Error>)
    ensures
        ({
            let num = trim_hex_prefix(part@);
            let body = hex_body(num);
            &&& (num.len() == 0 ==> (r matches Err(e) && e matches Error::HexError(t) && t@
                == whole@))
            &&& (num.len() > 0 && body.len() == 0 ==> (r matches Err(e) && (if range_default {
                e matches Error::HexRangeError(t) && t@ == whole@
            } else {
                e matches Error::HexError(t) && t@ == whole@
            })))
            &&& (body.len() > 0 ==> match scan_hex(body, 0) {
                HexScan::Invalid => (r matches Err(e) && (if range_default {
                    e matches Error::HexRangeError(t) && t@ == whole@
                } else {
                    e matches Error::HexError(t) && t@ == whole@
                })),
                HexScan::Overflow => (r matches Err(e) && e matches Error::HexPosOverflowError(
                    nt,
                    t,
                ) && nt@ == num && t@ == whole@),
                HexScan::Value(v) => r == Ok::<usize, Error>(v as usize),
            })
        }),
{
    let n = part.unicode_len();
    // Strip every leading "0x", as trimming a repeated prefix pattern does.
    let mut start: usize = 0;
    proof {
        assert(part@.skip(0) =~= part@);
    }
    while start < n && start + 1 < n && part.get_char(start) == '0' && part.get_char(start + 1)
        == 'x'
        invariant
            start <= n,
            n == part@.len(),
            trim_hex_prefix(part@) == trim_hex_prefix(part@.skip(start as int)),
        decreases n - start,
    {
        proof {
            assert(part@.skip(start as int).skip(2) =~= part@.skip(start as int + 2));
        }
        start = start + 2;
    }
    let ghost num = trim_hex_prefix(part@);
    proof {
        assert(num == part@.skip(start as int));
    }
    if start == n {
        return Err(Error::HexError(whole.to_owned()));
    }
    // One leading '+' is accepted, as integer parsing does.
    let mut i = start;
    if part.get_char(i) == '+' {
        i = i + 1;
    }
    let ghost body = hex_body(num);
    proof {
        assert(body =~= part@.skip(i as int));
    }
    if i == n {
        // A bare sign: a malformed number, not an empty one.
        if range_default {
            return Err(Error::HexRangeError(whole.to_owned()));
        } else {
            return Err(Error::HexError(whole.to_owned()));
        }
    }
    let mut val: usize = 0;
    let mut j = i;
    while j < n
        invariant
            i <= j <= n,
            n == part@.len(),
            body == part@.skip(i as int),
            scan_hex(body, 0) == scan_hex(part@.skip(j as int), val as int),
        decreases n - j,
    {
        let c = part.get_char(j);
        let cv = c as u32;
        let d: usize;
        if cv >= 48 && cv <= 57 {
            d = (cv - 48) as usize;
        } else if cv >= 97 && cv <= 102 {
            d = (cv - 97) as usize + 10;
        } else if cv >= 65 && cv <= 70 {
            d = (cv - 65) as usize + 10;
        } else {
            proof {
                assert(part@.skip(j as int)[0] == c);
                assert(hex_digit(c) is None);
            }
            if range_default {
                return Err(Error::HexRangeError(whole.to_owned()));
            } else {
                return Err(Error::HexError(whole.to_owned()));
            }
        }
        proof {
            assert(part@.skip(j as int)[0] == c);
            assert(hex_digit(c) == Some(d as int));
        }
        if val > (usize::MAX - d) / 16 {
            proof {
                assert(val as int * 16 + d > usize::MAX) by (nonlinear_arith)
                    requires
                        val as int > (usize::MAX - d) / 16,
                        0 <= d < 16,
                ;
            }
            let num_str = part.substring_char(start, n);
            return Err(Error::HexPosOverflowError(num_str.to_owned(), whole.to_owned()));
        }
        proof {
            assert(val as int * 16 + d <= usize::MAX) by (nonlinear_arith)
                requires
                    val as int <= (usize::MAX - d) / 16,
                    0 <= d < 16,
            ;
            assert(part@.skip(j as int).skip(1) =~= part@.skip(j as int + 1));
        }
        val = val * 16 + d;
        j = j + 1;
    }
    proof {
        assert(part@.skip(n as int) =~= Seq::<char>::empty());
    }
    Ok(val)
}

/// Parse a hex string such as `"0x1F331"` into a number. Fails with the
/// empty-string error on `""`, the invalid-string error when the string
/// does not start with `"0x"` or its digits are malformed, and the
/// too-large error when the value does not fit.
pub fn hex_to(s: &str) -> (r: Result<usize, Error>)
    ensures
        s@.len() == 0 ==> r == Err::<usize, Error>(Error::HexEmptyError()),
        s@.len() > 0 && !(s@.len() >= 2 && s@[0] == '0' && s@[1] == 'x') ==> (r matches Err(e)
            && e matches Error::HexError(t) && t@ == s@),
        s@.len() >= 2 && s@[0] == '0' && s@[1] == 'x' ==> ({
            let num = trim_hex_prefix(s@);
            let body = hex_body(num);
            &&& (num.len() == 0 ==> (r matches Err(e) && e matches Error::HexError(t) && t@
                == s@))
            &&& (num.len() > 0 && body.len() == 0 ==> (r matches Err(e) && e matches
                Error::HexError(t) && t@ == s@))
            &&& (body.len() > 0 ==> match scan_hex(body, 0) {
                HexScan::Invalid => (r matches Err(e) && e matches Error::HexError(t) && t@
                    == s@),
                HexScan::Overflow => (r matches Err(e) && e matches Error::HexPosOverflowError(
                    nt,
                    t,
                ) && nt@ == num && t@ == s@),
                HexScan::Value(v) => r == Ok::<usize, Error>(v as usize),
            })
        }),
{
    let n = s.unicode_len();
    if n == 0 {
        return Err(Error::HexEmptyError());
    }
    if n < 2 || s.get_char(0) != '0' || s.get_char(1) != 'x' {
        return Err(Error::HexError(s.to_owned()));
    }
    parse_hex_part(s, s, false)
}

/// The outcome of parsing one `"0x..."` part: an empty number after
/// trimming, a malformed number, a number too large for the machine (with
/// the trimmed digits), or its value.
pub enum HexPartOutcome {
    EmptyNum,
    BadNum,
    TooBig(Seq<char>),
    Val(int),
}

/// The outcome of parsing one hex part, as integer parsing sees it.
pub open spec fn part_result(part: Seq<char>) -> HexPartOutcome {
    let num = trim_hex_prefix(part);
    let body = hex_body(num);
    if num.len() == 0 {
        HexPartOutcome::EmptyNum
    } else if body.len() == 0 {
        HexPartOutcome::BadNum
    } else {
        match scan_hex(body, 0) {
            HexScan::Invalid => HexPartOutcome::BadNum,
            HexScan::Overflow => HexPartOutcome::TooBig(num),
            HexScan::Value(v) => HexPartOutcome::Val(v),
        }
    }
}

/// What `hex_to_range` returns once a unique separator has been found at
/// `k` and the two parts pass the structural checks, as a predicate on the
/// result.
pub open spec fn range_parts_ok(
    s: Seq<char>,
    k: int,
    r: Result<core::ops::Range<usize>, Error>,
) -> bool {
    let p0 = s.take(k);
    let p1 = s.skip(k + 1);
    let ok = p0.len() >= 3 && p1.len() >= 3 && p0[0] == '0' && p0[1] == 'x' && p1[0] == '0'
        && p1[1] == 'x';
    &&& (!ok ==> (r matches Err(e) && e matches Error::HexRangeError(t) && t@ == s))
    &&& (ok ==> match part_result(p0) {
        HexPartOutcome::EmptyNum => (r matches Err(e) && e matches Error::HexError(t) && t@
            == s),
        HexPartOutcome::BadNum => (r matches Err(e) && e matches Error::HexRangeError(t) && t@
            == s),
        HexPartOutcome::TooBig(num) => (r matches Err(e) && e matches Error::HexPosOverflowError(
            nt,
            t,
        ) && nt@ == num && t@ == s),
        HexPartOutcome::Val(v0) => match part_result(p1) {
            HexPartOutcome::EmptyNum => (r matches Err(e) && e matches Error::HexError(t) && t@
                == s),
            HexPartOutcome::BadNum => (r matches Err(e) && e matches Error::HexRangeError(t)
                && t@ == s),
            HexPartOutcome::TooBig(num) => (r matches Err(e) && e matches
                Error::HexPosOverflowError(nt, t) && nt@ == num && t@ == s),
            HexPartOutcome::Val(v1) => (r matches Ok(rg) && rg.start == v0 as usize && rg.end
                == v1 as usize),
        },
    })
}

/// Parse a hex range string such as `"0x1F331-0xEEBB1"`. Fails with the
/// empty-string error on `""`; with the invalid-range error unless the
/// string is exactly two `"0x"`-prefixed parts of at least three characters
/// separated by one `-`; and with the errors of each part's number
/// otherwise, left part first.
#[verifier::loop_isolation(false)]
pub fn hex_to_range(s: &str) -> (r: Result<core::ops::Range<usize>, Error>)
    ensures
        s@.len() == 0 ==> r == Err::<core::ops::Range<usize>, Error>(Error::HexEmptyError()),
        s@.len() > 0 && (forall|i: int| 0 <= i < s@.len() ==> s@[i] != '-') ==> (r matches Err(e)
            && e matches Error::HexRangeError(t) && t@ == s@),
        s@.len() > 0 && (exists|k1: int, k2: int|
            0 <= k1 < k2 < s@.len() && #[trigger] s@[k1] == '-' && #[trigger] s@[k2] == '-')
            ==> (r matches Err(e) && e matches Error::HexRangeError(t) && t@ == s@),
        forall|k: int|
            0 <= k < s@.len() && #[trigger] s@[k] == '-' && (forall|i: int|
                0 <= i < s@.len() && i != k ==> s@[i] != '-') ==> range_parts_ok(s@, k, r),
{
    let n = s.unicode_len();
    if n == 0 {
        return Err(Error::HexEmptyError());
    }
    // Find the separator and demand it is unique.
    let mut k: usize = 0;
    while k < n && s.get_char(k) != '-'
        invariant
            k <= n,
            forall|i: int| 0 <= i < k ==> s@[i] != '-',
        decreases n - k,
    {
        k = k + 1;
    }
    if k == n {
        return Err(Error::HexRangeError(s.to_owned()));
    }
    let mut m = k + 1;
    while m < n && s.get_char(m) != '-'
        invariant
            k < m <= n,
            forall|i: int| k < i < m ==> s@[i] != '-',
        decreases n - m,
    {
        m = m + 1;
    }
    if m < n {
        return Err(Error::HexRangeError(s.to_owned()));
    }
    // Each part must be "0x" plus at least one character.
    if k < 3 || n - k - 1 < 3 || s.get_char(0) != '0' || s.get_char(1) != 'x' || s.get_char(k + 1)
        != '0' || s.get_char(k + 2) != 'x' {
        return Err(Error::HexRangeError(s.to_owned()));
    }
    let p0 = s.substring_char(0, k);
    let p1 = s.substring_char(k + 1, n);
    proof {
        assert(p0@ =~= s@.take(k as int));
        assert(p1@ =~= s@.skip(k as int + 1));
    }
    let beg = match parse_hex_part(p0, s, true) {
        Ok(v) => v,
        Err(e) => {
            return Err(e);
        },
    };
    let end = match parse_hex_part(p1, s, true) {
        Ok(v) => v,
        Err(e) => {
            return Err(e);
        },
    };
    Ok(core::ops::Range { start: beg, end })
}

} // verus!
