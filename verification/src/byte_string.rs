//! Byte strings.
//!
//! Payloads are held as `bytes::Bytes`, whose inside the verifier cannot see.
//! This module declares the type, names its contents, and states what is
//! taken on trust about the few conversions the library makes to and from it.

use bytes::Bytes;
use core::str::Utf8Error;
use vstd::prelude::*;
use vstd::utf8::{decode_utf8, encode_utf8, valid_utf8};

verus! {

/// `bytes::Bytes`, a shared handle to a run of bytes. It is carried as an
/// opaque value; what it holds is spoken of through `byte_string`.
#[verifier::external_type_specification]
#[verifier::external_body]
pub struct ExBytes(bytes::Bytes);

/// `core::str::Utf8Error`, the error of `core::str::from_utf8`. Nothing is
/// said of what it holds.
#[verifier::external_type_specification]
#[verifier::external_body]
pub struct ExUtf8Error(core::str::Utf8Error);

/// The bytes that a `Bytes` handle gives access to, in order.
pub uninterp spec fn byte_string(data: Bytes) -> Seq<u8>;

/// `Bytes::from_static`: the handle points at the given slice, so it holds
/// the slice's bytes.
#[verifier::external_body]
pub(crate) fn bytes_from_static(data: &'static [u8]) -> (bytes: Bytes)
    ensures
        byte_string(bytes) == data@,
{
    Bytes::from_static(data)
}

/// `Bytes::from(Vec<u8>)`: the handle takes the vector's buffer over, so it
/// holds the vector's elements.
#[verifier::external_body]
pub(crate) fn bytes_from_vec(data: Vec<u8>) -> (bytes: Bytes)
    ensures
        byte_string(bytes) == data@,
{
    Bytes::from(data)
}

/// `Bytes::as_ref`: the slice borrowed from a handle is the run of bytes
/// that the handle holds.
#[verifier::external_body]
pub(crate) fn bytes_as_slice(bytes: &Bytes) -> (data: &[u8])
    ensures
        data@ == byte_string(*bytes),
{
    bytes.as_ref()
}

/// `Bytes::clone`: the new handle points at the same run of bytes as the
/// old one, so both hold the same.
pub assume_specification[ <Bytes as Clone>::clone ](bytes: &Bytes) -> (copy: Bytes)
    ensures
        byte_string(copy) == byte_string(*bytes),
;

/// `String::into_bytes`: the vector is the string's buffer, which is the
/// UTF-8 encoding of its text.
#[verifier::external_body]
pub(crate) fn string_into_bytes(text: String) -> (data: Vec<u8>)
    ensures
        data@ == encode_utf8(text@),
{
    text.into_bytes()
}

/// `core::str::from_utf8`: succeeds exactly on well-formed UTF-8, and then
/// yields the text that the bytes encode.
#[verifier::external_body]
pub(crate) fn str_from_utf8(data: &[u8]) -> (text: Result<&str, Utf8Error>)
    ensures
        text is Ok <==> valid_utf8(data@),
        text matches Ok(s) ==> s@ == decode_utf8(data@),
{
    core::str::from_utf8(data)
}

} // verus!
