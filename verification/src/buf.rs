use bytes::{Bytes, BytesMut};
use vstd::prelude::*;

verus! {

/// `bytes::Bytes`: a handle on bytes that can be shared and cut without
/// copying. Nothing of its inside is known here.
#[verifier::external_type_specification]
#[verifier::external_body]
pub struct ExBytes(bytes::Bytes);

/// `bytes::BytesMut`: a buffer of bytes that can grow. Nothing of its inside
/// is known here.
#[verifier::external_type_specification]
#[verifier::external_body]
pub struct ExBytesMut(bytes::BytesMut);

/// The bytes that a `Bytes` holds, in order.
pub uninterp spec fn bytes_contents(b: Bytes) -> Seq<u8>;

/// The bytes that a `BytesMut` holds, in order; its spare capacity holds none.
pub uninterp spec fn bytes_mut_contents(b: BytesMut) -> Seq<u8>;

/// `Bytes::len` is the number of bytes held.
pub assume_specification[ bytes::Bytes::len ](b: &Bytes) -> (n: usize)
    ensures
        n == bytes_contents(*b).len(),
;

/// Cloning a `Bytes` gives a second handle on the same bytes.
pub assume_specification[ <bytes::Bytes as Clone>::clone ](b: &Bytes) -> (r: Bytes)
    ensures
        bytes_contents(r) == bytes_contents(*b),
;

/// A `Bytes` dereferences to the slice of the bytes it holds.
pub assume_specification[ <bytes::Bytes as core::ops::Deref>::deref ](b: &Bytes) -> (s: &[u8])
    ensures
        s@ == bytes_contents(*b),
;

/// `Bytes::split_off` keeps the bytes before `at` and returns those from `at`
/// on. It panics where `at` is beyond the length.
pub assume_specification[ bytes::Bytes::split_off ](b: &mut Bytes, at: usize) -> (tail: Bytes)
    requires
        at <= bytes_contents(*old(b)).len(),
    ensures
        bytes_contents(*final(b)) == bytes_contents(*old(b)).take(at as int),
        bytes_contents(tail) == bytes_contents(*old(b)).skip(at as int),
;

/// `Bytes::split_to` returns the bytes before `at` and keeps those from `at`
/// on. It panics where `at` is beyond the length.
pub assume_specification[ bytes::Bytes::split_to ](b: &mut Bytes, at: usize) -> (head: Bytes)
    requires
        at <= bytes_contents(*old(b)).len(),
    ensures
        bytes_contents(head) == bytes_contents(*old(b)).take(at as int),
        bytes_contents(*final(b)) == bytes_contents(*old(b)).skip(at as int),
;

/// `BytesMut::with_capacity` gives a buffer that holds no byte. It allocates
/// as a `Vec` does, which panics where the capacity is beyond `isize::MAX`.
pub assume_specification[ bytes::BytesMut::with_capacity ](capacity: usize) -> (b: BytesMut)
    requires
        capacity <= isize::MAX,
    ensures
        bytes_mut_contents(b) == Seq::<u8>::empty(),
;

/// `BytesMut::len` is the number of bytes held.
pub assume_specification[ bytes::BytesMut::len ](b: &BytesMut) -> (n: usize)
    ensures
        n == bytes_mut_contents(*b).len(),
;

/// `BytesMut::clear` removes all bytes.
pub assume_specification[ bytes::BytesMut::clear ](b: &mut BytesMut)
    ensures
        bytes_mut_contents(*final(b)) == Seq::<u8>::empty(),
;

/// `BytesMut::extend_from_slice` appends the bytes of the slice.
pub assume_specification[ bytes::BytesMut::extend_from_slice ](b: &mut BytesMut, extend: &[u8])
    ensures
        bytes_mut_contents(*final(b)) == bytes_mut_contents(*old(b)) + extend@,
;

/// `BytesMut::split_to` returns the bytes before `at` and keeps those from
/// `at` on. It panics where `at` is beyond the length.
pub assume_specification[ bytes::BytesMut::split_to ](b: &mut BytesMut, at: usize) -> (head:
    BytesMut)
    requires
        at <= bytes_mut_contents(*old(b)).len(),
    ensures
        bytes_mut_contents(head) == bytes_mut_contents(*old(b)).take(at as int),
        bytes_mut_contents(*final(b)) == bytes_mut_contents(*old(b)).skip(at as int),
;

/// `BytesMut::split` returns all the bytes and keeps none.
pub assume_specification[ bytes::BytesMut::split ](b: &mut BytesMut) -> (head: BytesMut)
    ensures
        bytes_mut_contents(head) == bytes_mut_contents(*old(b)),
        bytes_mut_contents(*final(b)) == Seq::<u8>::empty(),
;

/// `BytesMut::resize` cuts the buffer to `new_len` bytes, or fills it up to
/// `new_len` bytes with `value`.
pub assume_specification[ bytes::BytesMut::resize ](b: &mut BytesMut, new_len: usize, value: u8)
    ensures
        bytes_mut_contents(*final(b)).len() == new_len,
        forall|i: int|
            0 <= i < new_len ==> #[trigger] bytes_mut_contents(*final(b))[i] == if i
                < bytes_mut_contents(*old(b)).len() {
                bytes_mut_contents(*old(b))[i]
            } else {
                value
            },
;

/// `BytesMut::freeze` turns the buffer into a `Bytes` of the same bytes.
pub assume_specification[ bytes::BytesMut::freeze ](b: BytesMut) -> (r: Bytes)
    ensures
        bytes_contents(r) == bytes_mut_contents(b),
;

/// A `BytesMut` dereferences to the slice of the bytes it holds.
pub assume_specification[ <bytes::BytesMut as core::ops::Deref>::deref ](b: &BytesMut) -> (s: &[u8])
    ensures
        s@ == bytes_mut_contents(*b),
;

} // verus!
