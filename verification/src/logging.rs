//! A line of the log, in a buffer of fixed size.

use vstd::prelude::*;

verus! {

pub const LOG_BUFFER_SIZE: usize = 512;

/// A line. There is always room for the zero that ends it.
pub struct LogBuffer {
    bytes: [u8; LOG_BUFFER_SIZE],
    len: usize,
}

impl LogBuffer {
    #[verifier::type_invariant]
    pub closed spec fn terminated(self) -> bool {
        &&& self.len < LOG_BUFFER_SIZE
        &&& self.bytes@[self.len as int] == 0
    }

    /// The line so far.
    pub closed spec fn view(&self) -> Seq<u8> {
        self.bytes@.take(self.len as int)
    }

    pub fn new() -> (buffer: Self)
        ensures
            buffer.view() == Seq::<u8>::empty(),
    {
        let buffer = LogBuffer { bytes: [0;LOG_BUFFER_SIZE], len: 0 };
        assert(buffer.bytes@.take(0) =~= Seq::<u8>::empty());
        buffer
    }

    /// The line with the zero that ends it.
    pub fn terminated_bytes(&self) -> (bytes: &[u8; LOG_BUFFER_SIZE])
        ensures
            self.view().len() < LOG_BUFFER_SIZE,
            bytes@.take(self.view().len() as int) == self.view(),
            bytes@[self.view().len() as int] == 0,
    {
        proof {
            use_type_invariant(self);
        }
        &self.bytes
    }

    /// Adds to the line as much as there is room for, and says whether that was
    /// all.
    pub fn write_bytes(&mut self, text: &[u8]) -> (complete: bool)
        ensures
            ({
                let room = LOG_BUFFER_SIZE - 1 - old(self).view().len();
                let count = if text@.len() < room {
                    text@.len() as int
                } else {
                    room
                };
                &&& room >= 0
                &&& final(self).view() == old(self).view() + text@.take(count)
                &&& complete == (count == text@.len())
            }),
    {
        proof {
            use_type_invariant(&*self);
        }
        let ghost before = self.view();
        let start: usize = self.len;
        let available: usize = LOG_BUFFER_SIZE - start - 1;
        let count: usize = if available < text.len() {
            available
        } else {
            text.len()
        };
        let mut bytes = self.bytes;
        let mut index: usize = 0;
        while index < count
            invariant
                index <= count <= text@.len(),
                start + count < LOG_BUFFER_SIZE,
                before.len() == start,
                bytes@.take(start as int) == before,
                forall|k: int| 0 <= k < index ==> #[trigger] bytes@[start + k] == text@[k],
            decreases count - index,
        {
            let ghost previous = bytes@;
            bytes[start + index] = text[index];
            assert(bytes@.take(start as int) =~= previous.take(start as int));
            index = index + 1;
        }
        let ghost filled = bytes@;
        bytes[start + count] = 0;
        let written = LogBuffer { bytes, len: start + count };
        proof {
            assert forall|k: int| 0 <= k < start implies bytes@[k] == before[k] by {
                assert(filled.take(start as int)[k] == before[k]);
            }
            assert(written.view() =~= before + text@.take(count as int)) by {
                assert forall|k: int| start <= k < start + count implies bytes@[k] == text@[k
                    - start] by {
                    assert(filled[start + (k - start)] == text@[k - start]);
                }
            }
        }
        *self = written;
        count == text.len()
    }
}

} // verus!
