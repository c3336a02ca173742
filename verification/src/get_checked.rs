//! Bounds-checked slice access: every index or range operation on a byte
//! slice either returns a borrowed view or a typed error; nothing panics and
//! nothing reads out of bounds.

use vstd::prelude::*;

verus! {

/// The error taxonomy of bounds-checked access: which bound failed, and
/// against what length.
#[derive(Debug, Clone, Copy, PartialEq, Eq, Structural)]
pub enum Error {
    /// A single index was at or past the slice length: `(index, len)`.
    IndexError(usize, usize),
    /// The effective start was past the effective end or the length:
    /// `(start, limit)`.
    StartIndexError(usize, usize),
    /// The effective end was past the slice length: `(end, len)`.
    EndIndexError(usize, usize),
    /// An exclusive start bound at `usize::MAX` cannot be advanced.
    StartIndexOverflowError(),
    /// An inclusive end bound at `usize::MAX` cannot be advanced.
    EndIndexOverflowError(),
}

/// Bounds-checked access to a byte slice, one method per range shape.
///
/// Success iff `start <= end <= len` for the effective endpoints; the
/// returned slice is exactly the native slice of the same indices.
pub trait GetChecked: View<V = Seq<u8>> {
    /// `slice[i]`, or `IndexError` iff `i >= len`.
    fn get_checked(&self, i: usize) -> (r: Result<&u8, Error>)
        ensures
            i < self@.len() ==> (r matches Ok(b) && *b == self@[i as int]),
            i >= self@.len() ==> r == Err::<&u8, Error>(Error::IndexError(i, self@.len() as usize)),
    ;

    /// `slice[start..end]`, or the error naming the bound that failed.
    fn get_checked_range(&self, start: usize, end: usize) -> (r: Result<&[u8], Error>)
        ensures
            start > end ==> r == Err::<&[u8], Error>(Error::StartIndexError(start, end)),
            start <= end && end > self@.len() ==> r == Err::<&[u8], Error>(
                Error::EndIndexError(end, self@.len() as usize),
            ),
            start <= end <= self@.len() ==> (r matches Ok(s) && s@ == self@.subrange(
                start as int,
                end as int,
            )),
    ;

    /// `slice[start..]`.
    fn get_checked_from(&self, start: usize) -> (r: Result<&[u8], Error>)
        ensures
            start > self@.len() ==> r == Err::<&[u8], Error>(
                Error::StartIndexError(start, self@.len() as usize),
            ),
            start <= self@.len() ==> (r matches Ok(s) && s@ == self@.skip(start as int)),
    ;

    /// `slice[..end]`.
    fn get_checked_to(&self, end: usize) -> (r: Result<&[u8], Error>)
        ensures
            end > self@.len() ==> r == Err::<&[u8], Error>(
                Error::EndIndexError(end, self@.len() as usize),
            ),
            end <= self@.len() ==> (r matches Ok(s) && s@ == self@.take(end as int)),
    ;

    /// `slice[..]`: always succeeds.
    fn get_checked_full(&self) -> (r: Result<&[u8], Error>)
        ensures
            r matches Ok(s) && s@ == self@,
    ;

    /// `slice[start..=end]`, or the error naming the bound that failed.
    fn get_checked_inclusive(&self, start: usize, end: usize) -> (r: Result<&[u8], Error>)
        ensures
            end == usize::MAX ==> r == Err::<&[u8], Error>(Error::EndIndexOverflowError()),
            end < usize::MAX && start > end + 1 ==> r == Err::<&[u8], Error>(
                Error::StartIndexError(start, (end + 1) as usize),
            ),
            end < usize::MAX && start <= end + 1 && start > self@.len() ==> r == Err::<
                &[u8],
                Error,
            >(Error::StartIndexError(start, self@.len() as usize)),
            end < usize::MAX && start <= end + 1 && start <= self@.len() && end + 1 > self@.len()
                ==> r == Err::<&[u8], Error>(Error::EndIndexError(
                (end + 1) as usize,
                self@.len() as usize,
            )),
            end < usize::MAX && start <= end + 1 && end + 1 <= self@.len() ==> (r matches Ok(s)
                && s@ == self@.subrange(start as int, end + 1)),
    ;

    /// `slice[..=end]`.
    fn get_checked_to_inclusive(&self, end: usize) -> (r: Result<&[u8], Error>)
        ensures
            end == usize::MAX ==> r == Err::<&[u8], Error>(Error::EndIndexOverflowError()),
            end < usize::MAX && end + 1 > self@.len() ==> r == Err::<&[u8], Error>(
                Error::EndIndexError((end + 1) as usize, self@.len() as usize),
            ),
            end < usize::MAX && end + 1 <= self@.len() ==> (r matches Ok(s) && s@ == self@.take(
                end + 1,
            )),
    ;
}

impl GetChecked for [u8] {
    fn get_checked(&self, i: usize) -> (r: Result<&u8, Error>) {
        if i < self.len() {
            Ok(vstd::slice::slice_index_get(self, i))
        } else {
            Err(Error::IndexError(i, self.len()))
        }
    }

    fn get_checked_range(&self, start: usize, end: usize) -> (r: Result<&[u8], Error>) {
        if start > end {
            Err(Error::StartIndexError(start, end))
        } else if end > self.len() {
            Err(Error::EndIndexError(end, self.len()))
        } else {
            Ok(vstd::slice::slice_subrange(self, start, end))
        }
    }

    fn get_checked_from(&self, start: usize) -> (r: Result<&[u8], Error>) {
        self.get_checked_range(start, self.len())
    }

    fn get_checked_to(&self, end: usize) -> (r: Result<&[u8], Error>) {
        self.get_checked_range(0, end)
    }

    fn get_checked_full(&self) -> (r: Result<&[u8], Error>) {
        Ok(vstd::slice::slice_subrange(self, 0, self.len()))
    }

    fn get_checked_inclusive(&self, start: usize, end: usize) -> (r: Result<&[u8], Error>) {
        if end == usize::MAX {
            Err(Error::EndIndexOverflowError())
        } else {
            let end_excl = end + 1;
            if start > end_excl {
                Err(Error::StartIndexError(start, end_excl))
            } else if start > self.len() {
                Err(Error::StartIndexError(start, self.len()))
            } else if end_excl > self.len() {
                Err(Error::EndIndexError(end_excl, self.len()))
            } else {
                Ok(vstd::slice::slice_subrange(self, start, end_excl))
            }
        }
    }

    fn get_checked_to_inclusive(&self, end: usize) -> (r: Result<&[u8], Error>) {
        self.get_checked_inclusive(0, end)
    }
}

} // verus!
