//! The byte-sink face of the fixed-capacity buffer.
//!
//! A buffer of bytes accepts "write these bytes" requests and grows towards
//! its capacity, surfacing a full buffer as a `CapacityExceeded` failure in
//! the style of an I/O error.

use vstd::prelude::*;

use crate::buf::ArrayBuf;
use crate::errors::Error;
use crate::interface::Array;

verus! {

impl<const N: usize> ArrayBuf<u8, N> {
    /// Appends `buf` to the sink and reports how many bytes were taken;
    /// a write that does not fit is refused whole with `CapacityExceeded`.
    pub fn write(&mut self, buf: &[u8]) -> (r: Result<usize, Error>)
        requires
            old(self).wf(),
        ensures
            final(self).wf(),
            old(self)@.len() + buf@.len() <= N ==> (r matches Ok(n) && n == buf@.len()
                && final(self)@ == old(self)@ + buf@),
            old(self)@.len() + buf@.len() > N ==> r == Err::<usize, Error>(Error::CapacityExceeded)
                && final(self)@ == old(self)@,
    {
        if buf.len() <= N - self.len() {
            self.extend_from_slice(buf);
            Ok(buf.len())
        } else {
            Err(Error::CapacityExceeded)
        }
    }

    /// Appends every byte of `buf`, or refuses the whole write with
    /// `CapacityExceeded` when it does not fit.
    pub fn write_all(&mut self, buf: &[u8]) -> (r: Result<(), Error>)
        requires
            old(self).wf(),
        ensures
            final(self).wf(),
            old(self)@.len() + buf@.len() <= N ==> (r matches Ok(()) && final(self)@ == old(self)@
                + buf@),
            old(self)@.len() + buf@.len() > N ==> r == Err::<(), Error>(Error::CapacityExceeded)
                && final(self)@ == old(self)@,
    {
        match self.write(buf) {
            Ok(_) => Ok(()),
            Err(e) => Err(e),
        }
    }

    /// Nothing is buffered beyond the sink itself, so flushing always
    /// succeeds and changes nothing.
    pub fn flush(&mut self) -> (r: Result<(), Error>)
        ensures
            *final(self) == *old(self),
            r == Ok::<(), Error>(()),
    {
        Ok(())
    }
}

} // verus!
