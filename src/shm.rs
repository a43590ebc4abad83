//! Rules on the name of a shared segment.
use vstd::prelude::*;
use vstd::string::StringSliceAdditionalSpecFns;

verus! {

/// Why a segment name was refused.
#[derive(Clone, Copy, Debug, PartialEq, Eq, Structural)]
pub enum Error {
    StringNotAscii,
    StringNotNullTerminated,
    StringEmpty,
    StringHasInteriorNull,
    /// The system refused to open, size or map the segment, with this
    /// error code.
    SystemError(i32),
}

pub open spec fn all_ascii(b: Seq<u8>) -> bool {
    forall|i: int| 0 <= i < b.len() ==> b[i] < 128
}

/// The verdict on the bytes of a segment name: non-empty ASCII, ended by
/// one NUL byte and holding no other.
pub open spec fn name_check(b: Seq<u8>) -> Result<(), Error> {
    if !all_ascii(b) {
        Err(Error::StringNotAscii)
    } else if b.len() == 0 {
        Err(Error::StringEmpty)
    } else if b.last() != 0 {
        Err(Error::StringNotNullTerminated)
    } else if b.len() == 1 {
        Err(Error::StringEmpty)
    } else if exists|i: int| 0 <= i < b.len() - 1 && b[i] == 0 {
        Err(Error::StringHasInteriorNull)
    } else {
        Ok(())
    }
}

/// Checks a segment name before it is handed to the system.
pub fn validate_name(name: &str) -> (r: Result<(), Error>)
    ensures
        r == name_check(name.spec_bytes()),
{
    let b = name.as_bytes();
    let n = b.len();
    let mut i: usize = 0;
    while i < n
        invariant
            b@ == name.spec_bytes(),
            n == b@.len(),
            i <= n,
            forall|j: int| 0 <= j < i ==> b@[j] < 128,
        decreases n - i,
    {
        if b[i] >= 128 {
            assert(!all_ascii(b@));
            return Err(Error::StringNotAscii);
        }
        i = i + 1;
    }
    if n == 0 {
        return Err(Error::StringEmpty);
    }
    if b[n - 1] != 0 {
        return Err(Error::StringNotNullTerminated);
    }
    if n == 1 {
        return Err(Error::StringEmpty);
    }
    let mut k: usize = 0;
    while k < n - 1
        invariant
            b@ == name.spec_bytes(),
            n == b@.len(),
            n >= 2,
            all_ascii(b@),
            b@.last() == 0,
            k <= n - 1,
            forall|j: int| 0 <= j < k ==> b@[j] != 0,
        decreases n - 1 - k,
    {
        if b[k] == 0 {
            assert(b@[k as int] == 0);
            return Err(Error::StringHasInteriorNull);
        }
        k = k + 1;
    }
    Ok(())
}

} // verus!
