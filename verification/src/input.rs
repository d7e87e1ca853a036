use vstd::prelude::*;

verus! {

/// Bytes received from the transport and not yet consumed by the decoders.
/// The application appends what it read; decoding consumes from the front.
/// `close` records that the transport reached end-of-stream.
pub struct WireInput {
    data: Vec<u8>,
    pos: usize,
    closed: bool,
}

impl WireInput {
    pub closed spec fn wf(self) -> bool {
        self.pos <= self.data@.len()
    }

    /// The bytes available for decoding, in arrival order.
    pub closed spec fn remaining(self) -> Seq<u8> {
        self.data@.skip(self.pos as int)
    }

    pub closed spec fn is_closed(self) -> bool {
        self.closed
    }

    pub fn new() -> (r: WireInput)
        ensures
            r.wf(),
            r.remaining() == Seq::<u8>::empty(),
            !r.is_closed(),
    {
        let r = WireInput { data: Vec::new(), pos: 0, closed: false };
        proof {
            assert(r.remaining() =~= Seq::<u8>::empty());
        }
        r
    }

    /// Append bytes read from the transport.
    pub fn feed(&mut self, bytes: &Vec<u8>)
        requires
            old(self).wf(),
        ensures
            final(self).wf(),
            final(self).remaining() == old(self).remaining() + bytes@,
            final(self).is_closed() == old(self).is_closed(),
    {
        if self.pos == self.data.len() {
            self.data.clear();
            self.pos = 0;
        }
        self.data.extend_from_slice(bytes.as_slice());
        proof {
            assert(self.remaining() =~= old(self).remaining() + bytes@);
        }
    }

    /// Record that the transport reached end-of-stream.
    pub fn close(&mut self)
        requires
            old(self).wf(),
        ensures
            final(self).wf(),
            final(self).remaining() == old(self).remaining(),
            final(self).is_closed(),
    {
        self.closed = true;
    }

    pub fn available(&self) -> (r: usize)
        requires
            self.wf(),
        ensures
            r == self.remaining().len(),
    {
        self.data.len() - self.pos
    }

    pub fn is_eof(&self) -> (r: bool)
        requires
            self.wf(),
        ensures
            r == (self.remaining().len() == 0 && self.is_closed()),
    {
        self.closed && self.pos == self.data.len()
    }

    /// Remove and return the first `n` available bytes.
    pub fn take(&mut self, n: usize) -> (r: Vec<u8>)
        requires
            old(self).wf(),
            n <= old(self).remaining().len(),
        ensures
            final(self).wf(),
            r@ == old(self).remaining().subrange(0, n as int),
            final(self).remaining() == old(self).remaining().skip(n as int),
            final(self).is_closed() == old(self).is_closed(),
    {
        proof {
            assert(old(self).remaining().len() == old(self).data@.len() - old(self).pos);
        }
        let dlen: usize = self.data.len();
        let mut out: Vec<u8> = Vec::new();
        let mut i: usize = 0;
        while i < n
            invariant
                *self == *old(self),
                i <= n,
                dlen == old(self).data@.len(),
                old(self).pos + n <= dlen,
                out@ == old(self).remaining().subrange(0, i as int),
            decreases n - i,
        {
            proof {
                assert(old(self).remaining() == old(self).data@.skip(old(self).pos as int));
            }
            out.push(self.data[self.pos + i]);
            i += 1;
            proof {
                assert(out@ =~= old(self).remaining().subrange(0, i as int));
            }
        }
        proof {
            assert(self.pos + n <= dlen);
        }
        self.pos = self.pos + n;
        proof {
            assert(self.remaining() =~= old(self).remaining().skip(n as int));
        }
        out
    }
}

} // verus!
