//! Defensive reassembly behind `receive_exact`: a single socket read may
//! return fewer bytes than requested, so the bytes of one message are
//! accumulated chunk by chunk, in arrival order, until exactly the expected
//! count has arrived. The peer always transmits a whole message at once, so
//! under normal operation one chunk completes the buffer; the loop exists
//! purely as a defensive invariant.

use vstd::prelude::*;

verus! {

use vstd::slice::slice_index_get;

/// Accumulates the bytes of one incoming message of a known size.
pub struct ExactReceiver {
    buf: Vec<u8>,
    expected: usize,
}

impl ExactReceiver {
    /// The bytes assembled so far, in arrival order.
    pub closed spec fn assembled(&self) -> Seq<u8> {
        self.buf@
    }

    /// The total number of bytes this receiver waits for.
    pub closed spec fn expected(&self) -> nat {
        self.expected as nat
    }

    /// The receiver never holds more bytes than it expects.
    pub open spec fn wf(&self) -> bool {
        self.assembled().len() <= self.expected()
    }

    /// A fresh receiver waiting for a message of `expected` bytes.
    pub fn new(expected: usize) -> (r: ExactReceiver)
        ensures
            r.wf(),
            r.assembled() == Seq::<u8>::empty(),
            r.expected() == expected,
    {
        ExactReceiver { buf: Vec::new(), expected }
    }

    /// How many bytes are still missing; the driver sizes its next read by it.
    pub fn missing(&self) -> (n: usize)
        requires
            self.wf(),
        ensures
            n == self.expected() - self.assembled().len(),
    {
        self.expected - self.buf.len()
    }

    /// Whether the message is fully assembled.
    pub fn is_complete(&self) -> (r: bool)
        requires
            self.wf(),
        ensures
            r == (self.assembled().len() == self.expected()),
    {
        self.buf.len() == self.expected
    }

    /// Append one received chunk. Earlier bytes stay in place and the chunk
    /// follows them unchanged, so the buffer is assembled in arrival order.
    pub fn absorb(&mut self, chunk: &[u8])
        requires
            old(self).wf(),
            chunk@.len() <= old(self).expected() - old(self).assembled().len(),
        ensures
            final(self).wf(),
            final(self).expected() == old(self).expected(),
            final(self).assembled() == old(self).assembled() + chunk@,
    {
        let mut i: usize = 0;
        while i < chunk.len()
            invariant
                i <= chunk@.len(),
                self.expected == old(self).expected,
                self.buf@ == old(self).buf@ + chunk@.subrange(0, i as int),
                self.buf@.len() + (chunk@.len() - i) <= self.expected,
            decreases chunk@.len() - i,
        {
            let b = *slice_index_get(chunk, i);
            self.buf.push(b);
            proof {
                assert(self.buf@ =~= old(self).buf@ + chunk@.subrange(0, i + 1));
            }
            i = i + 1;
        }
        proof {
            assert(chunk@.subrange(0, chunk@.len() as int) =~= chunk@);
        }
    }

    /// Hand the fully assembled message over.
    pub fn into_payload(self) -> (r: Vec<u8>)
        requires
            self.wf(),
            self.assembled().len() == self.expected(),
        ensures
            r@ == self.assembled(),
    {
        self.buf
    }
}

} // verus!
