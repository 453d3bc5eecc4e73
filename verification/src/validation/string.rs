use crate::types::SIZE_OF_UOFFSET;
use crate::validation::offsets::{spec_try_read_uoffset, try_read_uoffset, Error};
use vstd::prelude::*;

verus! {

/// What the check of a string at `loc` gives: its length has to be readable, the byte after
/// its last one has to lie in the buffer, and that byte has to be zero.
pub open spec fn spec_verify_string(buf: Seq<u8>, loc: usize) -> Result<(), Error> {
    match spec_try_read_uoffset(buf, loc) {
        Err(e) => Err(e),
        Ok(len) => {
            let null_loc = loc + SIZE_OF_UOFFSET + len;
            if null_loc > usize::MAX || null_loc >= buf.len() {
                Err(Error::OutOfBounds)
            } else if buf[null_loc] != 0 {
                Err(Error::NonNullTerminatedString)
            } else {
                Ok(())
            }
        },
    }
}

/// Checks a string where it is stored.
pub struct StringVerifier<'a> {
    buf: &'a [u8],
    loc: usize,
}

impl<'a> StringVerifier<'a> {
    /// The buffer that is looked at.
    pub closed spec fn spec_buf(&self) -> Seq<u8> {
        self.buf@
    }

    /// The place that is looked at.
    pub closed spec fn spec_loc(&self) -> usize {
        self.loc
    }

    /// What checks the string that starts at `loc`.
    pub fn follow(buf: &'a [u8], loc: usize) -> (r: Self)
        ensures
            r.spec_buf() == buf@,
            r.spec_loc() == loc,
    {
        StringVerifier { buf, loc }
    }

    /// Checks the string.
    pub fn verify(&self) -> (r: Result<(), Error>)
        ensures
            r == spec_verify_string(self.spec_buf(), self.spec_loc()),
    {
        let buf_len = self.buf.len();
        let len = match try_read_uoffset(self.buf, self.loc) {
            Ok(len) => len,
            Err(e) => {
                return Err(e);
            },
        };
        let null_loc = match (self.loc + SIZE_OF_UOFFSET).checked_add(len) {
            Some(null_loc) => null_loc,
            None => {
                return Err(Error::OutOfBounds);
            },
        };
        if null_loc >= buf_len {
            return Err(Error::OutOfBounds);
        }
        if self.buf[null_loc] != 0 {
            return Err(Error::NonNullTerminatedString);
        }
        Ok(())
    }
}

} // verus!
