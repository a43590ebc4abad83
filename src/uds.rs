//! The bytes of the rendezvous channel: strings sent with a NUL terminator.
use vstd::prelude::*;
use vstd::string::StringSliceAdditionalSpecFns;
use vstd::utf8::{decode_utf8, valid_utf8};

verus! {

#[verifier::external_type_specification]
#[verifier::external_body]
pub struct ExIoError(std::io::Error);

#[verifier::external_type_specification]
#[verifier::external_body]
pub struct ExFromUtf8Error(std::string::FromUtf8Error);

/// Why a string could not be received.
#[derive(Debug)]
pub enum Error {
    ReadError(std::io::Error),
    InputNotUtf8(std::string::FromUtf8Error),
}

/// Relies on `String::from_utf8`: `Ok` exactly when the bytes are valid
/// UTF-8, holding the characters they encode.
#[verifier::external_body]
fn utf8_string(bytes: Vec<u8>) -> (r: Result<String, std::string::FromUtf8Error>)
    ensures
        r is Ok <==> valid_utf8(bytes@),
        r matches Ok(s) ==> s@ == decode_utf8(bytes@),
{
    String::from_utf8(bytes)
}

/// The string whose bytes were received before the terminating NUL.
pub fn decode_string(buffer: Vec<u8>) -> (r: Result<String, Error>)
    ensures
        r is Ok <==> valid_utf8(buffer@),
        r matches Ok(s) ==> s@ == decode_utf8(buffer@),
        r matches Err(e) ==> e is InputNotUtf8,
{
    match utf8_string(buffer) {
        Ok(s) => Ok(s),
        Err(e) => Err(Error::InputNotUtf8(e)),
    }
}

/// The bytes that carry `message` on the channel: its own, then a NUL.
pub fn null_terminated(message: &str) -> (r: Vec<u8>)
    ensures
        r@ == message.spec_bytes().push(0),
{
    let b = message.as_bytes();
    let n = b.len();
    let mut out: Vec<u8> = Vec::new();
    let mut i: usize = 0;
    while i < n
        invariant
            n == b@.len(),
            i <= n,
            out@ == b@.take(i as int),
        decreases n - i,
    {
        out.push(b[i]);
        proof {
            assert(out@ =~= b@.take(i + 1));
        }
        i = i + 1;
    }
    out.push(0);
    assert(b@.take(n as int) =~= b@);
    out
}

/// Takes one byte received on the channel into `buffer`, which holds the
/// string so far. The NUL that ends the string is not kept. Returns whether
/// the string is complete.
pub fn accept_byte(buffer: &mut Vec<u8>, c: u8) -> (complete: bool)
    ensures
        complete == (c == 0),
        complete ==> final(buffer)@ == old(buffer)@,
        !complete ==> final(buffer)@ == old(buffer)@.push(c),
{
    if c == 0 {
        true
    } else {
        buffer.push(c);
        false
    }
}

} // verus!
