//! Signed, wraparound index resolution against a collection length.

use vstd::prelude::*;

use crate::stack::StackError;

verus! {

/// The position that a signed offset `i` denotes in a collection of `n` values:
/// a non-negative offset stands for itself, a negative one is taken modulo `n`
/// (so `-1` is the last value and `-(n + 1)` is the last value again).
/// `None` when that position is not in `[0, n)`.
pub open spec fn resolve_index(i: int, n: int) -> Option<int> {
    if n <= 0 {
        None
    } else {
        let candidate = if i >= 0 { i } else { i % n };
        if candidate < n {
            Some(candidate)
        } else {
            None
        }
    }
}

/// A signed offset into a collection.
#[derive(Debug, Clone, Copy, PartialEq, Eq, PartialOrd, Ord)]
pub struct Index(pub isize);

impl Index {
    /// The offset as a mathematical integer.
    pub open spec fn offset(self) -> int {
        self.0 as int
    }

    /// The offset.
    pub fn into_inner(self) -> (r: isize)
        ensures
            r as int == self.offset(),
    {
        self.0
    }
}

impl From<isize> for Index {
    fn from(value: isize) -> (r: Index) {
        Index(value)
    }
}

impl vstd::std_specs::convert::FromSpecImpl<isize> for Index {
    open spec fn obeys_from_spec() -> bool {
        true
    }

    open spec fn from_spec(v: isize) -> Index {
        Index(v)
    }
}

/// The length of a collection, as a non-negative signed magnitude.
#[derive(Debug, Clone, Copy, PartialEq, Eq, PartialOrd, Ord)]
pub struct CollectionLength(isize);

impl CollectionLength {
    /// The length as a mathematical integer.
    pub closed spec fn magnitude(self) -> int {
        self.0 as int
    }

    #[verifier::type_invariant]
    spec fn non_negative(self) -> bool {
        self.0 >= 0
    }

    /// Makes a length; a negative value is refused with `IndexOutOfBounds`.
    pub fn new<E>(value: isize) -> (r: Result<Self, StackError<E>>)
        ensures
            value < 0 <==> r is Err,
            r matches Err(e) ==> e is IndexOutOfBounds,
            r matches Ok(c) ==> c.magnitude() == value as int,
    {
        if value < 0 {
            Err(StackError::IndexOutOfBounds)
        } else {
            Ok(CollectionLength(value))
        }
    }

    /// The length of a collection of `len` values; `IndexOutOfBounds` when
    /// `len` does not fit in an `isize`.
    pub fn from_len<E>(len: usize) -> (r: Result<Self, StackError<E>>)
        ensures
            len > isize::MAX <==> r is Err,
            r matches Err(e) ==> e is IndexOutOfBounds,
            r matches Ok(c) ==> c.magnitude() == len as int,
    {
        if len > isize::MAX as usize {
            Err(StackError::IndexOutOfBounds)
        } else {
            Self::new(len as isize)
        }
    }

    /// Resolves `idx` to a position, Ruby-style: `-1` is the last value, and
    /// offsets below `-n` wrap around again.
    pub fn index_into<E>(&self, idx: Index) -> (r: Result<usize, StackError<E>>)
        ensures
            resolve_index(idx.offset(), self.magnitude()) is None <==> r is Err,
            r matches Err(e) ==> e is IndexOutOfBounds,
            r matches Ok(p) ==> resolve_index(idx.offset(), self.magnitude()) == Some(p as int),
    {
        proof {
            use_type_invariant(self);
        }
        let n = self.0;
        let i = idx.into_inner();
        if n == 0 {
            return Err(StackError::IndexOutOfBounds);
        }
        let candidate: isize = if i >= 0 {
            i
        } else {
            match i.checked_rem_euclid(n) {
                Some(m) => m,
                None => return Err(StackError::IndexOutOfBounds),
            }
        };
        if candidate >= n {
            Err(StackError::IndexOutOfBounds)
        } else {
            Ok(candidate as usize)
        }
    }
}

} // verus!
