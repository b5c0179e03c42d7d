//! A cursored view over an owned byte buffer, the input side of every
//! decoder: `take` consumes bytes, `peek` reads them without consuming.

use vstd::prelude::*;

verus! {

/// Why a decode attempt was rejected.
#[derive(Debug, Clone, Copy, PartialEq, Eq, Structural)]
pub enum DecodeError {
    /// A read would run past the end of the scanner's buffer.
    Overrun,
    /// An inventory element carried a kind code outside the known set.
    UnknownInventoryKind,
    /// A message header did not begin with the network magic.
    BadMagic,
    /// The recomputed payload checksum disagreed with the header field.
    ChecksumMismatch,
    /// The header named a command outside the supported vocabulary.
    UnsupportedCommand,
}

/// A byte buffer with a cursor. The cursor never runs past the end: a read
/// that would is refused with `DecodeError::Overrun` and leaves the cursor
/// in place.
pub struct Scanner {
    bytes: Vec<u8>,
    it: usize,
}

impl Scanner {
    /// The whole underlying buffer; decoding never changes it.
    pub closed spec fn data(&self) -> Seq<u8> {
        self.bytes@
    }

    /// The cursor: how many bytes have been consumed so far.
    pub closed spec fn pos(&self) -> int {
        self.it as int
    }

    /// The scanner's invariant: the cursor stays inside the buffer.
    pub open spec fn wf(&self) -> bool {
        0 <= self.pos() <= self.data().len()
    }

    /// The bytes not yet consumed.
    pub open spec fn remaining(&self) -> Seq<u8> {
        self.data().skip(self.pos())
    }

    pub fn new(bytes: Vec<u8>) -> (r: Scanner)
        ensures
            r.wf(),
            r.data() == bytes@,
            r.pos() == 0,
    {
        Scanner { bytes, it: 0 }
    }

    /// How many bytes have been consumed so far.
    pub fn position(&self) -> (r: usize)
        ensures
            r == self.pos(),
    {
        self.it
    }

    /// How many bytes are left to read.
    pub fn remaining_len(&self) -> (r: usize)
        requires
            self.wf(),
        ensures
            r == self.remaining().len(),
    {
        self.bytes.len() - self.it
    }

    /// Consume and return the next `amnt` bytes; `Overrun` if fewer are left.
    pub fn take(&mut self, amnt: usize) -> (r: Result<Vec<u8>, DecodeError>)
        requires
            old(self).wf(),
        ensures
            final(self).wf(),
            final(self).data() == old(self).data(),
            amnt <= old(self).remaining().len() ==> {
                &&& r matches Ok(v) && v@ == old(self).remaining().take(amnt as int)
                &&& final(self).pos() == old(self).pos() + amnt
            },
            amnt > old(self).remaining().len() ==> {
                &&& r == Err::<Vec<u8>, DecodeError>(DecodeError::Overrun)
                &&& final(self).pos() == old(self).pos()
            },
    {
        if amnt > self.bytes.len() - self.it {
            return Err(DecodeError::Overrun);
        }
        let end = self.it + amnt;
        let piece = vstd::slice::slice_to_vec(vstd::slice::slice_subrange(
            self.bytes.as_slice(),
            self.it,
            end,
        ));
        self.it = end;
        proof {
            assert(piece@ =~= old(self).remaining().take(amnt as int));
        }
        Ok(piece)
    }

    /// Return the next `amnt` bytes without consuming them.
    pub fn peek(&self, amnt: usize) -> (r: Result<Vec<u8>, DecodeError>)
        requires
            self.wf(),
        ensures
            amnt <= self.remaining().len() ==> (r matches Ok(v) && v@ == self.remaining().take(
                amnt as int,
            )),
            amnt > self.remaining().len() ==> r == Err::<Vec<u8>, DecodeError>(
                DecodeError::Overrun,
            ),
    {
        if amnt > self.bytes.len() - self.it {
            return Err(DecodeError::Overrun);
        }
        let piece = vstd::slice::slice_to_vec(vstd::slice::slice_subrange(
            self.bytes.as_slice(),
            self.it,
            self.it + amnt,
        ));
        proof {
            assert(piece@ =~= self.remaining().take(amnt as int));
        }
        Ok(piece)
    }
}

} // verus!
