//! The byte chunks that travel through the toxics: `bytes::Bytes`, seen as the
//! sequence of bytes it holds.
use vstd::prelude::*;

use bytes::Bytes;

verus! {

#[verifier::external_type_specification]
#[verifier::external_body]
pub struct ExBytes(bytes::Bytes);

/// The bytes that a `Bytes` chunk holds, in order
pub uninterp spec fn bytes_view(b: Bytes) -> Seq<u8>;

/// `Bytes::len`: the number of bytes in the chunk.
#[verifier::external_body]
pub(crate) fn bytes_len(b: &Bytes) -> (r: usize)
    ensures
        r == bytes_view(*b).len(),
{
    b.len()
}

/// `Bytes::split_to`: afterwards the chunk holds the bytes from `at` on, and the
/// returned chunk the bytes before `at`. The outside function panics when
/// `at` exceeds the length, which `requires` leaves out.
#[verifier::external_body]
pub(crate) fn bytes_split_to(b: &mut Bytes, at: usize) -> (r: Bytes)
    requires
        at <= bytes_view(*old(b)).len(),
    ensures
        bytes_view(r) == bytes_view(*old(b)).take(at as int),
        bytes_view(*final(b)) == bytes_view(*old(b)).skip(at as int),
{
    b.split_to(at)
}

/// `Bytes::truncate`: keeps the first `len` bytes; has no effect when `len` is
/// not below the current length.
#[verifier::external_body]
pub(crate) fn bytes_truncate(b: &mut Bytes, len: usize)
    ensures
        bytes_view(*final(b)) == if len < bytes_view(*old(b)).len() {
            bytes_view(*old(b)).take(len as int)
        } else {
            bytes_view(*old(b))
        },
{
    b.truncate(len)
}

/// The bytes of a sequence of chunks, one chunk after the other
pub open spec fn concat_chunks(chunks: Seq<Bytes>) -> Seq<u8>
    decreases chunks.len(),
{
    if chunks.len() == 0 {
        Seq::empty()
    } else {
        concat_chunks(chunks.drop_last()) + bytes_view(chunks.last())
    }
}

} // verus!
