//! The source of the bytes to show.

use vstd::prelude::*;

verus! {

/// A source of bytes that hands out the bytes of a range.
///
/// An implementation returns the bytes from `offset` on, at most `count` of
/// them and fewer where the data ends before that; where `offset` is at or
/// behind the end of the data it returns nothing, or no bytes. A view trusts
/// none of this: it shows no more bytes than it asked for.
pub trait DataProvider {
    /// What [`DataProvider::get`] hands out for a request, as a function of
    /// the provider and the request alone: a provider that is asked the same
    /// again hands out the same. A verified implementation says here what it
    /// hands out; where nothing is said, nothing is known of it.
    open spec fn read(&self, offset: usize, count: usize) -> Option<Seq<u8>> {
        arbitrary()
    }

    /// Number of bytes that the source holds.
    fn len(&self) -> usize;

    /// The bytes from `offset` on, at most `count` of them.
    fn get(&self, offset: usize, count: usize) -> (bytes: Option<&[u8]>)
        ensures
            bytes is Some <==> self.read(offset, count) is Some,
            bytes matches Some(b) ==> self.read(offset, count) == Some(b@),
    ;
}

/// The bytes of `data` from `offset` on, at most `count` of them; nothing
/// where `offset` is at or behind their end.
pub open spec fn range_of(data: Seq<u8>, offset: int, count: int) -> Option<Seq<u8>> {
    if 0 <= offset < data.len() && 0 <= count {
        Some(
            data.subrange(
                offset,
                if offset + count <= data.len() {
                    offset + count
                } else {
                    data.len() as int
                },
            ),
        )
    } else {
        None
    }
}

} // verus!
