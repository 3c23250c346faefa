//! Bytes on the wire: how text is sent, how much of what arrives one read
//! takes, and how it becomes text again.

use crate::rokit_error::{failure, RokitError};
use vstd::prelude::*;
use vstd::slice::slice_subrange;
use vstd::string::{StrSliceExecFns, StringExecFns, StringSliceAdditionalSpecFns};
use vstd::utf8::{decode_utf8, encode_utf8, encode_utf8_decode_utf8, valid_utf8};

verus! {

/// `core::str::Utf8Error`, the error of [`core::str::from_utf8`]. Nothing is
/// said of what it holds.
#[verifier::external_type_specification]
#[verifier::external_body]
pub struct ExUtf8Error(core::str::Utf8Error);

/// `core::str::from_utf8` succeeds on exactly the byte sequences that are
/// valid UTF-8, and the string slice it then gives has those bytes.
pub assume_specification[ core::str::from_utf8 ](v: &[u8]) -> (r: Result<
    &str,
    core::str::Utf8Error,
>)
    ensures
        r is Ok <==> valid_utf8(v@),
        r matches Ok(s) ==> s.spec_bytes() == v@,
;

/// Bytes that one read can take.
pub const READ_BUFFER_SIZE: usize = 1024;

/// The bytes that a text is sent as: its UTF-8 encoding.
pub open spec fn wire_bytes(text: Seq<char>) -> Seq<u8> {
    encode_utf8(text)
}

/// What one read takes of the bytes that have arrived: as many as the
/// buffer holds.
pub open spec fn taken(arrived: Seq<u8>) -> Seq<u8> {
    if arrived.len() <= READ_BUFFER_SIZE {
        arrived
    } else {
        arrived.take(READ_BUFFER_SIZE as int)
    }
}

/// The number of bytes written, as it is reported: the low 32 bits.
pub open spec fn reported_count(written: usize) -> u32 {
    written as u32
}

/// Reports a byte count in 32 bits: the count itself where it fits.
pub fn report_count(written: usize) -> (n: u32)
    ensures
        n == reported_count(written),
        written <= u32::MAX ==> n == written,
{
    #[verifier::truncate]
    (written as u32)
}

/// The bytes to write for a text: its UTF-8 encoding.
pub fn payload(text: &str) -> (bytes: Vec<u8>)
    ensures
        bytes@ == wire_bytes(text@),
{
    text.as_bytes_vec()
}

/// The text of a received message, or why there is none.
pub fn decode(bytes: &[u8], prefix: &str) -> (r: Result<String, RokitError>)
    ensures
        valid_utf8(bytes@) ==> (r matches Ok(s) && s@ == decode_utf8(bytes@)),
        !valid_utf8(bytes@) ==> (r matches Err(e) && !e.ignore && prefix@.is_prefix_of(e.msg@)),
{
    match core::str::from_utf8(bytes) {
        Ok(s) => {
            proof {
                encode_utf8_decode_utf8(s@);
            }
            Ok(String::from_str(s))
        },
        Err(e) => {
            let detail = e.to_string();
            Err(failure(prefix, detail.as_str()))
        },
    }
}

/// As many of the bytes that have arrived as one read takes.
pub fn take_buffer(arrived: &Vec<u8>) -> (bytes: &[u8])
    ensures
        bytes@ == taken(arrived@),
{
    let len = if arrived.len() <= READ_BUFFER_SIZE {
        arrived.len()
    } else {
        READ_BUFFER_SIZE
    };
    let bytes = slice_subrange(arrived.as_slice(), 0, len);
    proof {
        assert(bytes@ =~= taken(arrived@));
    }
    bytes
}

/// Taking one buffer of what one buffer took changes nothing.
pub proof fn lemma_taken_twice(arrived: Seq<u8>)
    ensures
        taken(taken(arrived)) == taken(arrived),
        taken(arrived).len() <= READ_BUFFER_SIZE,
        taken(arrived).is_prefix_of(arrived),
{
}

} // verus!
