//! The bytes of a RAW file, read at absolute offsets.
use vstd::prelude::*;
use vstd::slice::slice_subrange;

verus! {

/// Reads at absolute offsets of a file.
pub struct Source<'a> {
    bytes: &'a [u8],
}

impl<'a> View for Source<'a> {
    type V = Seq<u8>;

    closed spec fn view(&self) -> Seq<u8> {
        self.bytes@
    }
}

impl<'a> Source<'a> {
    pub fn new(bytes: &'a [u8]) -> (r: Self)
        ensures
            r@ == bytes@,
    {
        Source { bytes }
    }

    /// The length of the file.
    pub fn len(&self) -> (r: u64)
        ensures
            r == self@.len(),
            r <= usize::MAX,
    {
        self.bytes.len() as u64
    }

    /// Whether `len` bytes at `offset` are inside the file.
    pub fn contains(&self, offset: u64, len: u64) -> (r: bool)
        ensures
            r == (offset + len <= self@.len()),
            r ==> offset + len <= usize::MAX,
    {
        let total: u64 = self.bytes.len() as u64;
        len <= total && offset <= total - len
    }

    /// The `len` bytes at `offset`. `None` when they are not all inside the
    /// file.
    pub fn read_at(&self, offset: u64, len: usize) -> (r: Option<&'a [u8]>)
        ensures
            match r {
                Some(bytes) => offset + len <= self@.len() && bytes@ == self@.subrange(
                    offset as int,
                    offset + len,
                ),
                None => offset + len > self@.len(),
            },
    {
        if self.contains(offset, len as u64) {
            Some(self.bytes_at(offset, len))
        } else {
            None
        }
    }

    /// The `len` bytes at `offset`, which are inside the file.
    pub fn bytes_at(&self, offset: u64, len: usize) -> (r: &'a [u8])
        requires
            offset + len <= self@.len(),
        ensures
            r@ == self@.subrange(offset as int, offset + len),
    {
        assert(self.bytes@.len() == self.bytes.len());
        slice_subrange(self.bytes, offset as usize, offset as usize + len)
    }
}

} // verus!
