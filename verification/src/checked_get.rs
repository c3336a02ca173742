//! Bounds-checked range access over explicit endpoint bounds: the effective
//! `start`/`end` are computed from an included, excluded or unbounded
//! endpoint, and the sub-slice is returned iff `start <= end <= len`.

use vstd::prelude::*;

verus! {

/// One endpoint of a range: included, excluded, or absent.
#[derive(Debug, Clone, Copy, PartialEq, Eq, Structural)]
pub enum RangeBound {
    Included(usize),
    Excluded(usize),
    Unbounded,
}

/// The error taxonomy of checked range access.
#[derive(Debug, Clone, Copy, PartialEq, Eq, Structural)]
pub enum Error {
    /// The effective start was past the effective end or the length:
    /// `(start, limit)`.
    StartIndexError(usize, usize),
    /// The effective end was past the slice length: `(end, len)`.
    EndIndexError(usize, usize),
    /// An excluded start at `usize::MAX` cannot be advanced.
    StartIndexOverflowError(),
    /// An included end at `usize::MAX` cannot be advanced.
    EndIndexOverflowError(),
}

/// The effective start index of a range over a slice of length `len`, when
/// it exists: an excluded start of `usize::MAX` has none.
pub open spec fn start_of(b: RangeBound) -> Option<usize> {
    match b {
        RangeBound::Included(x) => Some(x),
        RangeBound::Excluded(x) => if x == usize::MAX {
            None
        } else {
            Some((x + 1) as usize)
        },
        RangeBound::Unbounded => Some(0usize),
    }
}

/// The effective (exclusive) end index of a range over a slice of length
/// `len`, when it exists: an included end of `usize::MAX` has none.
pub open spec fn end_of(b: RangeBound, len: nat) -> Option<usize> {
    match b {
        RangeBound::Included(x) => if x == usize::MAX {
            None
        } else {
            Some((x + 1) as usize)
        },
        RangeBound::Excluded(x) => Some(x),
        RangeBound::Unbounded => Some(len as usize),
    }
}

/// What checked range access returns, as a function of the bounds and the
/// slice: the sub-slice `[start, end)` iff `start <= end <= len`, else the
/// error naming the first check that failed.
pub open spec fn get_checked_spec(s: Seq<u8>, start_b: RangeBound, end_b: RangeBound) -> Result<
    Seq<u8>,
    Error,
> {
    match start_of(start_b) {
        None => Err(Error::StartIndexOverflowError()),
        Some(start) => match end_of(end_b, s.len()) {
            None => Err(Error::EndIndexOverflowError()),
            Some(end) => if start > end {
                Err(Error::StartIndexError(start, end))
            } else if start > s.len() {
                Err(Error::StartIndexError(start, s.len() as usize))
            } else if end > s.len() {
                Err(Error::EndIndexError(end, s.len() as usize))
            } else {
                Ok(s.subrange(start as int, end as int))
            },
        },
    }
}

/// Bounds-checked access to a byte slice over explicit endpoint bounds.
pub trait CheckedGet: View<V = Seq<u8>> {
    /// The sub-slice of the effective range, or the error naming the bound
    /// that failed; exactly `get_checked_spec`.
    fn get_checked(&self, start_b: RangeBound, end_b: RangeBound) -> (r: Result<&[u8], Error>)
        ensures
            match get_checked_spec(self@, start_b, end_b) {
                Ok(sub) => r matches Ok(s) && s@ == sub,
                Err(e) => r == Err::<&[u8], Error>(e),
            },
    ;
}

impl CheckedGet for [u8] {
    fn get_checked(&self, start_b: RangeBound, end_b: RangeBound) -> (r: Result<&[u8], Error>) {
        let start: usize = match start_b {
            RangeBound::Included(x) => x,
            RangeBound::Excluded(x) => {
                if x == usize::MAX {
                    return Err(Error::StartIndexOverflowError());
                }
                x + 1
            },
            RangeBound::Unbounded => 0,
        };
        let end: usize = match end_b {
            RangeBound::Included(x) => {
                if x == usize::MAX {
                    return Err(Error::EndIndexOverflowError());
                }
                x + 1
            },
            RangeBound::Excluded(x) => x,
            RangeBound::Unbounded => self.len(),
        };
        if start > end {
            Err(Error::StartIndexError(start, end))
        } else if start > self.len() {
            Err(Error::StartIndexError(start, self.len()))
        } else if end > self.len() {
            Err(Error::EndIndexError(end, self.len()))
        } else {
            Ok(vstd::slice::slice_subrange(self, start, end))
        }
    }
}

} // verus!
