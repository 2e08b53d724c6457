use vstd::prelude::*;

verus! {

/// Declares the shared byte buffer of the `bytes` crate, so that request
/// and response bodies can be held as the crate's `Bytes`.
#[verifier::external_type_specification]
#[verifier::external_body]
pub struct ExBytes(bytes::Bytes);

/// The bytes that a `Bytes` value holds.
pub uninterp spec fn bytes_content(b: bytes::Bytes) -> Seq<u8>;

/// Relies on `bytes::Bytes::new`: an empty buffer.
#[verifier::external_body]
pub(crate) fn empty_bytes() -> (r: bytes::Bytes)
    ensures
        bytes_content(r) == Seq::<u8>::empty(),
{
    bytes::Bytes::new()
}

/// Relies on `bytes::Bytes::copy_from_slice`: a buffer holding a copy of `data`.
#[verifier::external_body]
pub(crate) fn bytes_copied(data: &[u8]) -> (r: bytes::Bytes)
    ensures
        bytes_content(r) == data@,
{
    bytes::Bytes::copy_from_slice(data)
}

/// Relies on `impl From<Vec<u8>> for bytes::Bytes`: the buffer takes over the vector's bytes.
#[verifier::external_body]
pub(crate) fn bytes_from_vec(v: Vec<u8>) -> (r: bytes::Bytes)
    ensures
        bytes_content(r) == v@,
{
    bytes::Bytes::from(v)
}

/// Relies on `impl Deref for bytes::Bytes`: the slice of the bytes held.
#[verifier::external_body]
pub(crate) fn bytes_slice(b: &bytes::Bytes) -> (r: &[u8])
    ensures
        r@ == bytes_content(*b),
{
    b
}

} // verus!
