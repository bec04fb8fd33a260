//! Byte blocks handed to the transport: the `bytes` crate's `Bytes`.
use vstd::prelude::*;

verus! {

/// A block of bytes from the `bytes` crate, carried as it is.
#[verifier::external_type_specification]
#[verifier::external_body]
pub struct ExBytes(bytes::Bytes);

/// The bytes that a block holds.
pub uninterp spec fn block_content(b: bytes::Bytes) -> Seq<u8>;

/// Relies on `bytes::Bytes::copy_from_slice`: the new block holds a copy of
/// exactly the bytes of `data`.
pub assume_specification[ bytes::Bytes::copy_from_slice ](data: &[u8]) -> (r: bytes::Bytes)
    ensures
        block_content(r) == data@,
;

/// Relies on `bytes::Bytes::len`: the number of bytes the block holds.
pub assume_specification[ bytes::Bytes::len ](b: &bytes::Bytes) -> (r: usize)
    ensures
        r == block_content(*b).len(),
;

} // verus!
