//! Byte ranges into the input buffer, used to report where every decoded
//! object (and every decode error) came from.

use vstd::prelude::*;

verus! {

/// A half-open byte range `[offset, offset + length)` into the original
/// input buffer.
#[derive(Debug, Clone, Copy, PartialEq, Eq, Hash, Structural)]
pub struct SourceLocation {
    pub offset: usize,
    pub length: usize,
}

impl SourceLocation {
    /// One past the last byte of the range, as a mathematical integer.
    pub open spec fn spec_end(self) -> int {
        self.offset + self.length
    }

    pub fn new(offset: usize, length: usize) -> (r: SourceLocation)
        ensures
            r.offset == offset,
            r.length == length,
    {
        SourceLocation { offset, length }
    }

    /// The location of `slice` within `base`, for a `slice` that is a
    /// suffix of `base`.
    pub fn from_slice(base: &[u8], slice: &[u8]) -> (r: SourceLocation)
        requires
            slice@.len() <= base@.len(),
        ensures
            r.offset == base@.len() - slice@.len(),
            r.length == slice@.len(),
    {
        let offset = base.len() - slice.len();
        let length = slice.len();
        SourceLocation::new(offset, length)
    }

    pub fn end(&self) -> (r: usize)
        requires
            self.offset + self.length <= usize::MAX,
        ensures
            r == self.spec_end(),
    {
        self.offset + self.length
    }

    /// Whether `offset` falls inside the half-open range.
    pub fn contains(&self, offset: usize) -> (r: bool)
        requires
            self.offset + self.length <= usize::MAX,
        ensures
            r == (self.offset <= offset && offset < self.spec_end()),
    {
        offset >= self.offset && offset < self.end()
    }
}

/// A decoded value together with the byte range it was decoded from.
#[derive(Debug, Clone)]
pub struct Located<T> {
    pub value: T,
    pub location: SourceLocation,
}

impl<T> Located<T> {
    pub fn new(value: T, location: SourceLocation) -> (r: Located<T>)
        ensures
            r.value == value,
            r.location == location,
    {
        Located { value, location }
    }

    /// Wrap `value` with the range of `base` that precedes `remaining`,
    /// for a `remaining` that is a suffix of `base`.
    pub fn from_parse(base: &[u8], value: T, remaining: &[u8]) -> (r: Located<T>)
        requires
            remaining@.len() <= base@.len(),
        ensures
            r.value == value,
            r.location.offset == base@.len() - remaining@.len(),
            r.location.length == remaining@.len(),
    {
        let offset = base.len() - remaining.len();
        let length = remaining.len();
        Located::new(value, SourceLocation::new(offset, length))
    }

    /// Apply `f` to the carried value, keeping the location.
    pub fn map<U, F: FnOnce(T) -> U>(self, f: F) -> (r: Located<U>)
        requires
            f.requires((self.value,)),
        ensures
            r.location == self.location,
            f.ensures((self.value,), r.value),
    {
        let location = self.location;
        Located::new(f(self.value), location)
    }

    pub fn location(&self) -> (r: &SourceLocation)
        ensures
            r == self.location,
    {
        &self.location
    }

    pub fn value(&self) -> (r: &T)
        ensures
            r == self.value,
    {
        &self.value
    }

    pub fn into_inner(self) -> (r: T)
        ensures
            r == self.value,
    {
        self.value
    }
}

} // verus!
