use vstd::prelude::*;
use bytes::{Bytes, BytesMut};

verus! {

/// The byte-buffer types of the `bytes` crate, carried through the library opaquely.
#[verifier::external_type_specification]
#[verifier::external_body]
pub struct ExBytes(Bytes);

#[verifier::external_type_specification]
#[verifier::external_body]
pub struct ExBytesMut(BytesMut);

/// What a `Bytes` handle holds.
pub uninterp spec fn bytes_contents(b: Bytes) -> Seq<u8>;

/// What a `BytesMut` buffer holds (its initialised part, `0..len`).
pub uninterp spec fn bytes_mut_contents(b: BytesMut) -> Seq<u8>;

/// `<Bytes as Deref>::deref`: the slice is the handle's contents.
#[verifier::external_body]
pub(crate) fn bytes_as_slice(b: &Bytes) -> (s: &[u8])
    ensures
        s@ == bytes_contents(*b),
{
    b
}

/// `<BytesMut as Deref>::deref`: the slice is the buffer's contents.
#[verifier::external_body]
pub(crate) fn bytes_mut_as_slice(b: &BytesMut) -> (s: &[u8])
    ensures
        s@ == bytes_mut_contents(*b),
{
    b
}

/// `BytesMut::split_to`: the first `at` bytes move into the returned buffer and
/// the rest stay behind. The crate panics for `at > len`, so that is excluded.
#[verifier::external_body]
pub(crate) fn bytes_mut_split_to(b: &mut BytesMut, at: usize) -> (front: BytesMut)
    requires
        at <= bytes_mut_contents(*old(b)).len(),
    ensures
        bytes_mut_contents(front) == bytes_mut_contents(*old(b)).subrange(0, at as int),
        bytes_mut_contents(*final(b)) == bytes_mut_contents(*old(b)).subrange(
            at as int,
            bytes_mut_contents(*old(b)).len() as int,
        ),
{
    b.split_to(at)
}

/// `BytesMut::freeze`: the same bytes as an immutable handle.
#[verifier::external_body]
pub(crate) fn bytes_mut_freeze(b: BytesMut) -> (frozen: Bytes)
    ensures
        bytes_contents(frozen) == bytes_mut_contents(b),
{
    b.freeze()
}

/// `<Bytes as PartialEq>::eq`: equal exactly when the contents are.
#[verifier::external_body]
pub(crate) fn bytes_eq(a: &Bytes, b: &Bytes) -> (r: bool)
    ensures
        r == (bytes_contents(*a) == bytes_contents(*b)),
{
    a == b
}

/// `<Bytes as Clone>::clone`: another handle on the same contents.
#[verifier::external_body]
pub(crate) fn bytes_clone(b: &Bytes) -> (c: Bytes)
    ensures
        bytes_contents(c) == bytes_contents(*b),
{
    b.clone()
}

/// The contents of an optional handle.
pub open spec fn opt_contents(b: Option<Bytes>) -> Option<Seq<u8>> {
    match b {
        Some(x) => Some(bytes_contents(x)),
        None => None,
    }
}

/// `BytesMut::new`: an empty buffer.
#[verifier::external_body]
pub(crate) fn bytes_mut_new() -> (b: BytesMut)
    ensures
        bytes_mut_contents(b) == Seq::<u8>::empty(),
{
    BytesMut::new()
}

/// `BytesMut::with_capacity`: an empty buffer (the capacity is not part of the
/// contents).
#[verifier::external_body]
pub(crate) fn bytes_mut_with_capacity(capacity: usize) -> (b: BytesMut)
    ensures
        bytes_mut_contents(b) == Seq::<u8>::empty(),
{
    BytesMut::with_capacity(capacity)
}

/// `BytesMut::extend_from_slice`: the slice is appended.
#[verifier::external_body]
pub(crate) fn bytes_mut_extend_from_slice(b: &mut BytesMut, extend: &[u8])
    ensures
        bytes_mut_contents(*final(b)) == bytes_mut_contents(*old(b)) + extend@,
{
    b.extend_from_slice(extend)
}

/// `BytesMut::split`: everything moves into the returned buffer; the buffer is
/// left empty.
#[verifier::external_body]
pub(crate) fn bytes_mut_split(b: &mut BytesMut) -> (all: BytesMut)
    ensures
        bytes_mut_contents(all) == bytes_mut_contents(*old(b)),
        bytes_mut_contents(*final(b)) == Seq::<u8>::empty(),
{
    b.split()
}

} // verus!
