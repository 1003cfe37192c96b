//! The [`Bytes`] buffers that payloads travel in.

use bytes::{Buf, Bytes};
use vstd::prelude::*;

verus! {

/// The type `bytes::Bytes`: an immutable, shared run of bytes.
#[verifier::external_type_specification]
#[verifier::external_body]
pub struct ExBytes(bytes::Bytes);

/// The bytes that a [`Bytes`] holds.
pub uninterp spec fn contents(buffer: Bytes) -> Seq<u8>;

/// Calls `Bytes::from(Vec<u8>)`: the buffer holds the bytes of the vector.
#[verifier::external_body]
pub(crate) fn bytes_from_vec(data: Vec<u8>) -> (buffer: Bytes)
    ensures
        contents(buffer) == data@,
{
    Bytes::from(data)
}

/// Calls `<Bytes as AsRef<[u8]>>::as_ref`: the slice is what the buffer holds.
#[verifier::external_body]
pub(crate) fn bytes_as_slice(buffer: &Bytes) -> (data: &[u8])
    ensures
        data@ == contents(*buffer),
{
    buffer.as_ref()
}

/// Calls `<Bytes as Buf>::advance`, which drops `count` bytes from the front
/// and panics when there are fewer.
#[verifier::external_body]
pub(crate) fn bytes_advance(buffer: &mut Bytes, count: usize)
    requires
        count <= contents(*old(buffer)).len(),
    ensures
        contents(*final(buffer)) == contents(*old(buffer)).skip(count as int),
{
    buffer.advance(count)
}

/// `<Bytes as Clone>::clone`: the copy holds the same bytes.
pub assume_specification[ <bytes::Bytes as Clone>::clone ](buffer: &Bytes) -> (copy: Bytes)
    ensures
        contents(copy) == contents(*buffer),
;

} // verus!
