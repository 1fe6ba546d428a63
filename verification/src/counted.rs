//! A reader wrapper that counts the bytes read through it into a counter
//! owned by the caller.

use vstd::prelude::*;

verus! {

/// A reader that adds the number of bytes each successful read fills to a
/// counter it borrows. The caller reads the total from its own counter once
/// the reader is gone.
pub struct CountedAsyncReader<'a, R> {
    /// The reader read through.
    pub reader: R,
    /// The running count of bytes read.
    pub counter: &'a mut u64,
}

impl<'a, R> CountedAsyncReader<'a, R> {
    /// Wraps `reader`, counting into `counter`.
    pub fn new(reader: R, counter: &'a mut u64) -> (r: Self)
        ensures
            r.reader == reader,
            *r.counter == *old(counter),
            *final(counter) == *final(r.counter),
    {
        Self { reader, counter }
    }

    /// The wrapped reader, to read through.
    pub fn reader_mut(&mut self) -> (r: &mut R)
        ensures
            *r == old(self).reader,
            final(self).reader == *final(r),
            *final(self).counter == *old(self).counter,
            *final(final(self).counter) == *final(old(self).counter),
    {
        &mut self.reader
    }

    /// Records that a successful read left `filled` bytes in the buffer.
    pub fn record_filled(&mut self, filled: u64)
        requires
            *old(self).counter + filled <= u64::MAX,
        ensures
            *final(self).counter == *old(self).counter + filled,
            final(self).reader == old(self).reader,
            *final(final(self).counter) == *final(old(self).counter),
    {
        *self.counter = *self.counter + filled;
    }
}

} // verus!
