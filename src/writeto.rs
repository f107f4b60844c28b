//! Appending byte slices to an output buffer.

use vstd::prelude::*;

verus! {

/// A sink that bytes can be appended to.
pub trait WtiteTo {
    /// The bytes written to the sink so far.
    spec fn written(&self) -> Seq<u8>;

    /// Appends `bytes` at the end of the sink, in order.
    fn write(&mut self, bytes: &[u8])
        ensures
            final(self).written() == old(self).written() + bytes@,
    ;
}

impl WtiteTo for Vec<u8> {
    open spec fn written(&self) -> Seq<u8> {
        self@
    }

    fn write(&mut self, bytes: &[u8])
        ensures
            final(self)@ == old(self)@ + bytes@,
    {
        let mut i: usize = 0;
        while i < bytes.len()
            invariant
                0 <= i <= bytes@.len(),
                self@ == old(self)@ + bytes@.subrange(0, i as int),
            decreases bytes@.len() - i,
        {
            self.push(bytes[i]);
            i = i + 1;
            assert(bytes@.subrange(0, i as int) == bytes@.subrange(0, i - 1).push(bytes@[i - 1]));
            assert(self@ == old(self)@ + bytes@.subrange(0, i as int));
        }
        assert(bytes@.subrange(0, bytes@.len() as int) == bytes@);
    }
}

} // verus!
