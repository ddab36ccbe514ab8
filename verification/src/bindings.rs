//! Declarations and wrappers for the outside crates that the library calls.
use vstd::prelude::*;
use bytes::BufMut;
use bytes::BytesMut;

verus! {

#[verifier::external_type_specification]
#[verifier::external_body]
pub struct ExBytesMut(bytes::BytesMut);

/// The bytes that a `BytesMut` holds, in order.
pub uninterp spec fn bytes_mut_contents(b: BytesMut) -> Seq<u8>;

/// `bytes::BytesMut::with_capacity`: a buffer that holds no bytes.
/// The capacity it reserved is not stated.
#[verifier::external_body]
pub(crate) fn bytes_with_capacity(capacity: usize) -> (b: BytesMut)
    requires
        capacity <= isize::MAX,
    ensures
        bytes_mut_contents(b) == Seq::<u8>::empty(),
{
    BytesMut::with_capacity(capacity)
}

/// `<bytes::BytesMut as bytes::BufMut>::put_u8`: appends one byte.
/// It panics when the buffer would pass `isize::MAX` bytes, which `requires` rules out.
#[verifier::external_body]
pub(crate) fn bytes_put_u8(b: &mut BytesMut, n: u8)
    requires
        bytes_mut_contents(*old(b)).len() + 1 <= isize::MAX,
    ensures
        bytes_mut_contents(*final(b)) == bytes_mut_contents(*old(b)).push(n),
{
    b.put_u8(n)
}

/// `<bytes::BytesMut as bytes::BufMut>::put_i32`: appends the four big-endian
/// bytes of `n` (`n.to_be_bytes()`).
#[verifier::external_body]
pub(crate) fn bytes_put_i32(b: &mut BytesMut, n: i32)
    requires
        bytes_mut_contents(*old(b)).len() + 4 <= isize::MAX,
    ensures
        bytes_mut_contents(*final(b)) == bytes_mut_contents(*old(b)) + crate::cursor::i32_be_bytes(n),
{
    b.put_i32(n)
}

/// `bytes::BytesMut::extend_from_slice`: appends the bytes of `extend`.
#[verifier::external_body]
pub(crate) fn bytes_extend_from_slice(b: &mut BytesMut, extend: &[u8])
    requires
        bytes_mut_contents(*old(b)).len() + extend@.len() <= isize::MAX,
    ensures
        bytes_mut_contents(*final(b)) == bytes_mut_contents(*old(b)) + extend@,
{
    b.extend_from_slice(extend)
}

} // verus!

verus! {

/// `rand::thread_rng().gen_range(low..high)`: a number drawn from the
/// thread-local generator. All that holds of every outcome is that it lies in
/// the half-open range; `gen_range` panics on an empty range, which `requires`
/// rules out.
#[verifier::external_body]
pub(crate) fn random_in_range(low: u64, high: u64) -> (r: u64)
    requires
        low < high,
    ensures
        low <= r < high,
{
    rand::Rng::gen_range(&mut rand::thread_rng(), low..high)
}

} // verus!

verus! {

#[verifier::external_type_specification]
#[verifier::external_body]
#[verifier::reject_recursive_types(T)]
pub struct ExSender<T>(tokio::sync::broadcast::Sender<T>);

/// `<tokio::sync::broadcast::Sender<T> as Clone>::clone`: the clone is a
/// second handle to the same channel (tokio clones the `Arc` of the shared
/// state and counts one more sender), so it is stated equal to the handle it
/// was cloned from. That the count of senders grew is not stated.
pub assume_specification<T>[ <tokio::sync::broadcast::Sender<T> as Clone>::clone ](
    s: &tokio::sync::broadcast::Sender<T>,
) -> (r: tokio::sync::broadcast::Sender<T>)
    ensures
        r == *s,
;

} // verus!
