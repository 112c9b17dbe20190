//! The buffer of a tunnel, a `BytesMut` of the `bytes` crate.
//!
//! The functions of this module are believed, not proved: each makes the one
//! call that its comment names.
use bytes::{BufMut, BytesMut};
use vstd::prelude::*;

verus! {

#[verifier::external_type_specification]
#[verifier::external_body]
pub struct ExBytesMut(bytes::BytesMut);

/// The bytes that a buffer holds, in order.
pub uninterp spec fn contents(b: BytesMut) -> Seq<u8>;

/// `BytesMut::with_capacity`: an empty buffer. It panics where so much cannot be
/// allocated at all.
#[verifier::external_body]
pub(crate) fn empty_buffer(capacity: usize) -> (r: BytesMut)
    requires
        capacity <= isize::MAX,
    ensures
        contents(r) == Seq::<u8>::empty(),
{
    BytesMut::with_capacity(capacity)
}

/// `<BytesMut as Deref>::deref`: the bytes as a slice.
#[verifier::external_body]
pub(crate) fn as_slice(b: &BytesMut) -> (r: &[u8])
    ensures
        r@ == contents(*b),
{
    &b[..]
}

/// `<BytesMut as BufMut>::put_slice`: appends the bytes. It panics where the
/// buffer would outgrow what can be allocated. What the buffer has allocated
/// beyond its bytes counts into that, and is left unsaid here.
#[verifier::external_body]
pub(crate) fn put_slice(b: &mut BytesMut, data: &[u8])
    requires
        contents(*old(b)).len() + data@.len() <= isize::MAX,
    ensures
        contents(*final(b)) == contents(*old(b)) + data@,
{
    b.put_slice(data)
}

/// `BytesMut::split_to`: takes the first `n` bytes away. It panics where there
/// are fewer.
#[verifier::external_body]
pub(crate) fn split_to(b: &mut BytesMut, n: usize) -> (r: Vec<u8>)
    requires
        n <= contents(*old(b)).len(),
    ensures
        r@ == contents(*old(b)).take(n as int),
        contents(*final(b)) == contents(*old(b)).skip(n as int),
{
    b.split_to(n).to_vec()
}

} // verus!
