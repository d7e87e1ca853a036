use crate::frame::mask_is_zero;
use crate::input::WireInput;
use vstd::arithmetic::div_mod::lemma_add_mod_noop;
use vstd::prelude::*;

verus! {

/// The masking transform of the protocol: byte `i` of a payload range that
/// starts at `offset` within the payload is XORed with key byte
/// `(offset + i) mod 4`.
pub open spec fn mask_seq(key: Seq<u8>, offset: int, s: Seq<u8>) -> Seq<u8> {
    Seq::new(s.len(), |i: int| s[i] ^ key[(offset + i) % 4])
}

/// Masking with the all-zero key changes nothing: the wire form with key
/// `[0, 0, 0, 0]` decodes like an unmasked frame.
pub proof fn lemma_zero_mask_identity(key: Seq<u8>, offset: int, s: Seq<u8>)
    requires
        key.len() == 4,
        mask_is_zero(key),
    ensures
        mask_seq(key, offset, s) == s,
{
    assert forall|i: int| 0 <= i < s.len() implies mask_seq(key, offset, s)[i] == s[i] by {
        let x = s[i];
        assert(0 <= (offset + i) % 4 < 4);
        assert(key[(offset + i) % 4] == 0);
        assert(x ^ 0 == x) by (bit_vector);
    }
    assert(mask_seq(key, offset, s) =~= s);
}

/// Masking is its own inverse, whatever the key, the offset and the bytes.
pub proof fn lemma_mask_self_inverse(key: Seq<u8>, offset: int, s: Seq<u8>)
    requires
        key.len() == 4,
    ensures
        mask_seq(key, offset, mask_seq(key, offset, s)) == s,
{
    assert forall|i: int| 0 <= i < s.len() implies mask_seq(key, offset, mask_seq(key, offset, s))[i]
        == s[i] by {
        let x = s[i];
        let m = key[(offset + i) % 4];
        assert((x ^ m) ^ m == x) by (bit_vector);
    }
    assert(mask_seq(key, offset, mask_seq(key, offset, s)) =~= s);
}

/// Masking a concatenation masks each part, the second at the advanced
/// offset: unmasking chunk by chunk equals unmasking the whole payload.
pub proof fn lemma_mask_append(key: Seq<u8>, offset: int, s1: Seq<u8>, s2: Seq<u8>)
    requires
        key.len() == 4,
    ensures
        mask_seq(key, offset, s1 + s2) == mask_seq(key, offset, s1) + mask_seq(
            key,
            offset + s1.len(),
            s2,
        ),
{
    let lhs = mask_seq(key, offset, s1 + s2);
    let rhs = mask_seq(key, offset, s1) + mask_seq(key, offset + s1.len(), s2);
    assert forall|i: int| 0 <= i < lhs.len() implies lhs[i] == rhs[i] by {
        if i < s1.len() {
            assert((s1 + s2)[i] == s1[i]);
        } else {
            assert((s1 + s2)[i] == s2[i - s1.len()]);
            assert(offset + i == (offset + s1.len()) + (i - s1.len()));
        }
    }
    assert(lhs =~= rhs);
}

/// The offset matters only modulo 4.
pub proof fn lemma_mask_offset_mod(key: Seq<u8>, offset: int, s: Seq<u8>)
    requires
        key.len() == 4,
        0 <= offset,
    ensures
        mask_seq(key, offset % 4, s) == mask_seq(key, offset, s),
{
    assert forall|i: int| 0 <= i < s.len() implies mask_seq(key, offset % 4, s)[i] == mask_seq(
        key,
        offset,
        s,
    )[i] by {
        lemma_add_mod_noop(offset, i, 4);
        lemma_add_mod_noop(offset % 4, i, 4);
    }
    assert(mask_seq(key, offset % 4, s) =~= mask_seq(key, offset, s));
}

/// Mask or unmask a range of payload bytes in place.  `offset` is the
/// position of `buffer[0]` within the frame's payload.
pub fn payload_mask(mask: [u8; 4], offset: usize, buffer: &mut Vec<u8>)
    ensures
        final(buffer)@ == mask_seq(mask@, offset as int, old(buffer)@),
{
    if mask[0] == 0 && mask[1] == 0 && mask[2] == 0 && mask[3] == 0 {
        proof {
            lemma_zero_mask_identity(mask@, offset as int, buffer@);
        }
        return ;
    }
    let ghost orig = buffer@;
    let mut j: usize = offset % 4;
    let mut i: usize = 0;
    while i < buffer.len()
        invariant
            i <= buffer@.len(),
            buffer@.len() == orig.len(),
            mask@.len() == 4,
            j == (offset + i) % 4,
            forall|k: int|
                0 <= k < i ==> buffer@[k] == (orig[k] ^ mask@[(offset as int + k) % 4]),
            forall|k: int| i <= k < orig.len() ==> buffer@[k] == orig[k],
        decreases buffer@.len() - i,
    {
        let b = buffer[i];
        let m = if j == 0 {
            mask[0]
        } else if j == 1 {
            mask[1]
        } else if j == 2 {
            mask[2]
        } else {
            mask[3]
        };
        buffer.set(i, b ^ m);
        proof {
            lemma_add_mod_noop(offset as int + i as int, 1, 4);
            assert((j + 1) % 4 == if j == 3 {
                0int
            } else {
                j + 1
            });
        }
        j = if j == 3 {
            0
        } else {
            j + 1
        };
        i += 1;
    }
    proof {
        assert(buffer@ =~= mask_seq(mask@, offset as int, orig));
    }
}

/// The largest payload that fits a frame of at most `max_frame_size` bytes,
/// header included, for a masked or unmasked frame.
pub open spec fn max_payload_len_spec(masked: bool, max_frame_size: u64) -> u64 {
    if masked {
        if max_frame_size <= 6 {
            0
        } else if max_frame_size <= 132 {
            (max_frame_size - 6) as u64
        } else if max_frame_size <= 134 {
            126
        } else if max_frame_size <= 65542 {
            (max_frame_size - 8) as u64
        } else if max_frame_size <= 65548 {
            65536
        } else if max_frame_size <= 2147483661 {
            (max_frame_size - 14) as u64
        } else {
            2147483647
        }
    } else {
        if max_frame_size <= 2 {
            0
        } else if max_frame_size <= 128 {
            (max_frame_size - 2) as u64
        } else if max_frame_size <= 130 {
            126
        } else if max_frame_size <= 65538 {
            (max_frame_size - 4) as u64
        } else if max_frame_size <= 65544 {
            65536
        } else if max_frame_size <= 2147483657 {
            (max_frame_size - 10) as u64
        } else {
            2147483647
        }
    }
}

/// Calculate the maximum payload length given a maximum frame size.
pub fn max_payload_len(masked: bool, max_frame_size: u64) -> (r: u64)
    ensures
        r == max_payload_len_spec(masked, max_frame_size),
{
    if masked {
        if max_frame_size <= 6 {
            0
        } else if max_frame_size <= 132 {
            max_frame_size - 6
        } else if max_frame_size <= 134 {
            126
        } else if max_frame_size <= 65542 {
            max_frame_size - 8
        } else if max_frame_size <= 65548 {
            65536
        } else if max_frame_size <= 2147483661 {
            max_frame_size - 14
        } else {
            2147483647
        }
    } else {
        if max_frame_size <= 2 {
            0
        } else if max_frame_size <= 128 {
            max_frame_size - 2
        } else if max_frame_size <= 130 {
            126
        } else if max_frame_size <= 65538 {
            max_frame_size - 4
        } else if max_frame_size <= 65544 {
            65536
        } else if max_frame_size <= 2147483657 {
            max_frame_size - 10
        } else {
            2147483647
        }
    }
}

/// What a payload read step produced.
pub enum PayloadRead {
    /// Unmasked payload bytes; empty exactly when the payload was already
    /// fully consumed or the caller asked for nothing.
    Data(Vec<u8>),
    /// No input available yet.
    Pending,
    /// The transport closed before the payload was complete.
    Eof,
}

/// Progress through one frame's payload: how much of `payload_len` has been
/// consumed, and the key to unmask it with.
pub struct FramePayloadReaderState {
    mask: [u8; 4],
    payload_len: u64,
    completion: u64,
}

impl FramePayloadReaderState {
    pub closed spec fn wf(self) -> bool {
        self.completion <= self.payload_len <= 0x4000_0000
    }

    pub closed spec fn mask_key(self) -> Seq<u8> {
        self.mask@
    }

    pub closed spec fn total_len(self) -> u64 {
        self.payload_len
    }

    pub closed spec fn consumed(self) -> u64 {
        self.completion
    }

    pub fn new(mask: [u8; 4], payload_len: u64) -> (r: FramePayloadReaderState)
        requires
            payload_len <= 0x4000_0000,
        ensures
            r.wf(),
            r.mask_key() == mask@,
            r.total_len() == payload_len,
            r.consumed() == 0,
    {
        FramePayloadReaderState { mask, payload_len, completion: 0 }
    }

    pub fn finished(&self) -> (r: bool)
        ensures
            r == (self.total_len() == self.consumed()),
    {
        self.payload_len == self.completion
    }

    /// Consume up to `max` payload bytes from `rx` and unmask them.
    pub fn poll_read(&mut self, rx: &mut WireInput, max: usize) -> (r: PayloadRead)
        requires
            old(self).wf(),
            old(rx).wf(),
        ensures
            final(self).wf(),
            final(rx).wf(),
            final(self).mask_key() == old(self).mask_key(),
            final(self).total_len() == old(self).total_len(),
            final(rx).is_closed() == old(rx).is_closed(),
            match r {
                PayloadRead::Data(v) => {
                    let n = v@.len();
                    &&& n == 0 ==> (old(self).consumed() == old(self).total_len() || max == 0)
                        && *final(self) == *old(self) && *final(rx) == *old(rx)
                    &&& n > 0 ==> {
                        &&& n <= max
                        &&& n <= old(rx).remaining().len()
                        &&& old(self).consumed() + n <= old(self).total_len()
                        &&& final(self).consumed() == old(self).consumed() + n
                        &&& v@ == mask_seq(
                            old(self).mask_key(),
                            old(self).consumed() as int,
                            old(rx).remaining().subrange(0, n as int),
                        )
                        &&& final(rx).remaining() == old(rx).remaining().skip(n as int)
                    }
                },
                PayloadRead::Pending => *final(self) == *old(self) && *final(rx) == *old(rx) && old(
                    rx,
                ).remaining().len() == 0 && !old(rx).is_closed() && old(self).consumed() < old(
                    self,
                ).total_len() && max > 0,
                PayloadRead::Eof => *final(self) == *old(self) && *final(rx) == *old(rx) && old(
                    rx,
                ).remaining().len() == 0 && old(rx).is_closed() && old(self).consumed() < old(
                    self,
                ).total_len() && max > 0,
            },
    {
        if self.payload_len <= self.completion || max == 0 {
            return PayloadRead::Data(Vec::new());
        }
        let avail = rx.available();
        if avail == 0 {
            if rx.is_eof() {
                return PayloadRead::Eof;
            }
            return PayloadRead::Pending;
        }
        let rem64: u64 = self.payload_len - self.completion;
        let mut n: usize = max;
        if (n as u64) > rem64 {
            n = rem64 as usize;
        }
        if n > avail {
            n = avail;
        }
        let mut chunk = rx.take(n);
        let off: usize = (self.completion % 4) as usize;
        payload_mask(self.mask, off, &mut chunk);
        proof {
            lemma_mask_offset_mod(self.mask@, self.completion as int, old(rx).remaining().subrange(0, n as int));
        }
        self.completion = self.completion + (n as u64);
        PayloadRead::Data(chunk)
    }
}

} // verus!
