//! The prebuffering reader: wraps a byte source, eagerly reads ahead into a
//! prebuffer until a threshold is reached or the source is exhausted, and
//! hands the prebuffered bytes out first. Every read updates the status
//! counters that the caller passes in; sharing those counters between
//! threads, and the one-shot callback when the prebuffer is ready, are the
//! caller's concern.

use vstd::prelude::*;
use crate::status::StatusData;
use crate::transport::read_chunk;

verus! {

/// A byte source decorated with a prebuffer.
pub struct SlimBuffer<R> {
    /// The wrapped byte source.
    pub inner: R,
    /// The bytes read ahead of the consumer, handed out before the source
    /// is touched again.
    pub prebuf: Vec<u8>,
    /// How many bytes `pre_buf` reads ahead.
    pub threshold: u32,
}

impl<R: std::io::Read> SlimBuffer<R> {
    /// Wraps `inner`, records the default buffer size in `status`, and
    /// fills the prebuffer.
    pub fn new(inner: R, status: &mut StatusData, threshold: u32) -> (r: Self)
        ensures
            *final(status) == (StatusData { buffer_size: 8192u32, ..*old(status) }),
            r.threshold == threshold,
    {
        status.set_buffer_size(8192);
        let mut this = SlimBuffer { inner, prebuf: Vec::new(), threshold };
        this.pre_buf();
        this
    }

    /// Wraps `inner`, records the given buffer size in `status`, and fills
    /// the prebuffer.
    pub fn with_capacity(capacity: usize, inner: R, status: &mut StatusData, threshold: u32) -> (r:
        Self)
        ensures
            *final(status) == (StatusData {
                buffer_size: (capacity as u32) as u32,
                ..*old(status) }),
            r.threshold == threshold,
    {
        #[verifier::truncate]
        let cap32 = capacity as u32;
        status.set_buffer_size(cap32);
        let mut this = SlimBuffer { inner, prebuf: Vec::new(), threshold };
        this.pre_buf();
        this
    }

    /// Reads from the source in small chunks until the prebuffer holds at
    /// least the threshold, the source is exhausted, or a read fails. What
    /// was already prebuffered stays in place.
    pub fn pre_buf(&mut self)
        ensures
            old(self).prebuf@.is_prefix_of(final(self).prebuf@),
            final(self).threshold == old(self).threshold,
    {
        while self.prebuf.len() < (self.threshold as usize)
            invariant
                old(self).prebuf@.is_prefix_of(self.prebuf@),
                self.threshold == old(self).threshold,
            decreases
                    (if self.prebuf@.len() < self.threshold as int {
                        self.threshold as int - self.prebuf@.len()
                    } else {
                        0int
                    }),
        {
            match read_chunk(&mut self.inner, 1024) {
                Ok(mut chunk) => {
                    if chunk.len() == 0 {
                        return;
                    }
                    self.prebuf.append(&mut chunk);
                },
                Err(_) => {
                    return;
                },
            }
        }
    }

    /// Hands out up to `want` bytes: the front of the prebuffer while it
    /// holds any, bytes straight from the source once it is empty. The
    /// status counters record the bytes received, wrapping, and the
    /// prebuffer fullness; a source error is passed through unchanged and
    /// changes nothing.
    pub fn read(&mut self, want: usize, status: &mut StatusData) -> (r: Result<
        Vec<u8>,
        std::io::Error,
    >)
        ensures
            (match r {
                Ok(v) => {
                    let k = if want <= old(self).prebuf@.len() {
                        want as int
                    } else {
                        old(self).prebuf@.len() as int
                    };
                    &&& old(self).prebuf@.len() > 0 ==> v@ == old(self).prebuf@.take(k) && final(
                        self).prebuf@ == old(self).prebuf@.skip(k)
                    &&& old(self).prebuf@.len() == 0 ==> v@.len() <= want && final(self).prebuf@
                        == old(self).prebuf@
                    &&& *final(status) == (StatusData {
                        bytes_received: ((old(status).bytes_received + v@.len())
                            % 0x10000000000000000) as u64,
                        fullness: final(self).prebuf@.len() as u32,
                        ..*old(status)
                    })
                },
                Err(_) => final(self).prebuf@ == old(self).prebuf@ && *final(status) == *old(
                    status),
            }),
            old(self).prebuf@.len() > 0 ==> r is Ok,
            final(self).threshold == old(self).threshold,
    {
        let out: Vec<u8>;
        if self.prebuf.len() > 0 {
            let k = if want <= self.prebuf.len() {
                want
            } else {
                self.prebuf.len()
            };
            let mut taken: Vec<u8> = Vec::new();
            let mut i: usize = 0;
            while i < k
                invariant
                    k <= self.prebuf@.len(),
                    i <= k,
                    self.prebuf@ == old(self).prebuf@,
                    taken@ == self.prebuf@.take(i as int),
                decreases k - i,
            {
                let b = self.prebuf[i];
                taken.push(b);
                proof {
                    assert(taken@ =~= self.prebuf@.take(i + 1));
                }
                i += 1;
            }
            let mut rest: Vec<u8> = Vec::new();
            let mut j: usize = k;
            let n = self.prebuf.len();
            while j < n
                invariant
                    k <= n == self.prebuf@.len(),
                    k <= j <= n,
                    self.prebuf@ == old(self).prebuf@,
                    rest@ == self.prebuf@.subrange(k as int, j as int),
                decreases n - j,
            {
                let b = self.prebuf[j];
                rest.push(b);
                proof {
                    assert(rest@ =~= self.prebuf@.subrange(k as int, j + 1));
                }
                j += 1;
            }
            proof {
                assert(rest@ =~= old(self).prebuf@.skip(k as int));
            }
            self.prebuf = rest;
            out = taken;
        } else {
            match read_chunk(&mut self.inner, want) {
                Ok(v) => {
                    out = v;
                },
                Err(e) => {
                    return Err(e);
                },
            }
        }
        status.add_bytes_received(out.len() as u64);
        #[verifier::truncate]
        let fullness = self.prebuf.len() as u32;
        status.set_fullness(fullness);
        Ok(out)
    }
}

} // verus!
