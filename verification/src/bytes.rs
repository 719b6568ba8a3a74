//! Byte strings.
//!
//! Glass strings are plain byte sequences. They are kept in
//! `byte_string::ByteString`, which Verus cannot look into; this module gives
//! that type a content and the two conversions everything else is built on.

use vstd::prelude::*;
use byte_string::ByteString;

verus! {

/// `byte_string::ByteString`: a vector of bytes in a wrapper. Verus takes the
/// type as given and sees nothing inside a value of it.
#[verifier::external_type_specification]
#[verifier::external_body]
pub struct ExByteString(ByteString);

/// The bytes that a `ByteString` holds, in order.
pub uninterp spec fn bytes_of(s: ByteString) -> Seq<u8>;

/// `ByteString::new`: moves a vector into a byte string. Trusted: the byte
/// string holds exactly the bytes of the vector.
#[verifier::external_body]
pub(crate) fn new_byte_string(bytes: Vec<u8>) -> (s: ByteString)
    ensures
        bytes_of(s) == bytes@,
{
    ByteString::new(bytes)
}

/// `AsRef<Vec<u8>>::as_ref` of `ByteString`: borrows the vector inside.
/// Trusted: the vector is the content of the byte string.
#[verifier::external_body]
pub(crate) fn as_bytes(s: &ByteString) -> (bytes: &Vec<u8>)
    ensures
        bytes@ == bytes_of(*s),
{
    s.as_ref()
}

/// The contents of a pool of byte strings.
pub open spec fn pool_of(pool: Seq<ByteString>) -> Seq<Seq<u8>> {
    Seq::new(pool.len(), |i: int| bytes_of(pool[i]))
}

/// A fresh vector with the same bytes.
pub fn copy_bytes(bytes: &Vec<u8>) -> (copy: Vec<u8>)
    ensures
        copy@ == bytes@,
{
    let mut copy: Vec<u8> = Vec::new();
    let mut i: usize = 0;
    while i < bytes.len()
        invariant
            i <= bytes.len(),
            copy@ == bytes@.take(i as int),
        decreases bytes.len() - i,
    {
        copy.push(bytes[i]);
        assert(bytes@.take(i + 1) =~= bytes@.take(i as int).push(bytes@[i as int]));
        i += 1;
    }
    assert(bytes@.take(bytes.len() as int) =~= bytes@);
    copy
}

/// A second byte string with the same content.
pub fn duplicate(s: &ByteString) -> (copy: ByteString)
    ensures
        bytes_of(copy) == bytes_of(*s),
{
    new_byte_string(copy_bytes(as_bytes(s)))
}

/// Whether two byte vectors hold the same bytes.
pub fn same_bytes(a: &Vec<u8>, b: &Vec<u8>) -> (same: bool)
    ensures
        same == (a@ == b@),
{
    if a.len() != b.len() {
        return false;
    }
    let mut i: usize = 0;
    while i < a.len()
        invariant
            i <= a.len(),
            a.len() == b.len(),
            a@.take(i as int) == b@.take(i as int),
        decreases a.len() - i,
    {
        if a[i] != b[i] {
            return false;
        }
        assert(a@.take(i + 1) =~= a@.take(i as int).push(a@[i as int]));
        assert(b@.take(i + 1) =~= b@.take(i as int).push(b@[i as int]));
        i += 1;
    }
    assert(a@.take(a.len() as int) =~= a@);
    assert(b@.take(b.len() as int) =~= b@);
    true
}

} // verus!
