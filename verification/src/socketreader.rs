//! A buffered reader over a non-seekable byte stream that still offers
//! limited seeking: backwards within the bytes it has buffered, forwards by
//! skipping, with a running count of the position from the start. Meant for
//! consumers that want to replay a little of a live stream.

use vstd::prelude::*;
use crate::transport::read_chunk;

verus! {

/// Where a seek aims, relative to the start, the cursor, or the end.
/// Seeking from the end is never possible on a live stream.
#[derive(Clone, Copy, Debug, PartialEq, Eq, Structural)]
pub enum SeekFrom {
    Start(u64),
    Current(i64),
    End(i64),
}

/// Why a seek failed: the target is outside what the reader can reach, or
/// the source failed.
#[derive(Debug)]
pub enum SeekError {
    OutOfRange,
    Io(std::io::Error),
}

/// The buffered reader. The cursor can move back over the bytes still in
/// the buffer, and forward by consuming; `pos_from_start` counts every
/// consumed byte, saturating at the top of its range.
pub struct SocketReader<R> {
    /// The wrapped byte source.
    pub inner: R,
    /// The bytes of the current buffer fill.
    pub buf: Vec<u8>,
    /// The cursor within `buf`.
    pub pos: usize,
    /// How many bytes each refill asks for.
    pub capacity: usize,
    /// Total bytes consumed since the start.
    pub pos_from_start: u64,
}

/// `x + y`, stopping at the top of `u64`.
pub open spec fn sat_add_u64(x: u64, y: int) -> u64 {
    if x + y > 0xFFFFFFFFFFFFFFFF {
        0xFFFFFFFFFFFFFFFFu64
    } else {
        (x + y) as u64
    }
}

proof fn lemma_sat_add_chain(x: u64, a: int, b: int)
    requires
        a >= 0,
        b >= 0,
    ensures
        sat_add_u64(sat_add_u64(x, a), b) == sat_add_u64(x, a + b),
{
}

impl<R: std::io::Read> SocketReader<R> {
    /// The reader's invariant: the cursor stays inside the buffer and never
    /// ahead of the total count.
    pub open spec fn wf(&self) -> bool {
        self.pos <= self.buf@.len() && self.pos <= self.pos_from_start
    }

    /// Wraps `inner` with the default buffer size.
    pub fn new(inner: R) -> (r: SocketReader<R>)
        ensures
            r.wf(),
            r.pos_from_start == 0,
            r.buf@.len() == 0,
            r.capacity == 8192,
    {
        SocketReader::with_capacity(8192, inner)
    }

    /// Wraps `inner`; each refill reads up to `capacity` bytes.
    pub fn with_capacity(capacity: usize, inner: R) -> (r: SocketReader<R>)
        ensures
            r.wf(),
            r.pos_from_start == 0,
            r.buf@.len() == 0,
            r.capacity == capacity,
    {
        SocketReader { inner, buf: Vec::new(), pos: 0, capacity, pos_from_start: 0 }
    }

    /// Moves the cursor back by `amt`, at most to the start of the buffer,
    /// and lowers the position count by the distance actually moved.
    pub fn unconsume(&mut self, amt: usize)
        requires
            old(self).wf(),
        ensures
            final(self).wf(),
            final(self).pos == if amt > old(self).pos {
                0int
            } else {
                old(self).pos - amt
            },
            final(self).pos_from_start == old(self).pos_from_start - (old(self).pos - final(
                self).pos),
            final(self).buf == old(self).buf,
            final(self).capacity == old(self).capacity,
    {
        let oldpos = self.pos;
        self.pos = if amt > self.pos {
            0
        } else {
            self.pos - amt
        };
        self.pos_from_start = self.pos_from_start - ((oldpos - self.pos) as u64);
    }

    /// Moves the cursor forward by `amt`, at most to the end of the buffer,
    /// raising the position count by the distance actually moved.
    pub fn consume(&mut self, amt: usize)
        requires
            old(self).wf(),
            old(self).pos + amt <= usize::MAX,
        ensures
            final(self).wf(),
            final(self).pos == if old(self).pos + amt > old(self).buf@.len() {
                old(self).buf@.len() as int
            } else {
                old(self).pos + amt
            },
            final(self).pos_from_start == sat_add_u64(
                old(self).pos_from_start,
                final(self).pos - old(self).pos,
            ),
            final(self).buf == old(self).buf,
            final(self).capacity == old(self).capacity,
    {
        let oldpos = self.pos;
        self.pos = if self.pos + amt > self.buf.len() {
            self.buf.len()
        } else {
            self.pos + amt
        };
        let delta = (self.pos - oldpos) as u64;
        self.pos_from_start = if self.pos_from_start > u64::MAX - delta {
            u64::MAX
        } else {
            self.pos_from_start + delta
        };
    }

    /// Refills the buffer from the source when the cursor has consumed it
    /// all; reports how many bytes are then available. Zero means the
    /// source is exhausted.
    pub fn fill_buf(&mut self) -> (r: Result<usize, std::io::Error>)
        requires
            old(self).wf(),
        ensures
            final(self).wf(),
            final(self).capacity == old(self).capacity,
            final(self).pos_from_start == old(self).pos_from_start,
            (match r {
                Ok(avail) => {
                    &&& avail == final(self).buf@.len() - final(self).pos
                    &&& (old(self).pos < old(self).buf@.len() ==> final(self).buf == old(self).buf
                        && final(self).pos == old(self).pos)
                },
                Err(_) => final(self).buf == old(self).buf && final(self).pos == old(self).pos,
            }),
            old(self).pos < old(self).buf@.len() ==> r is Ok,
    {
        if self.pos >= self.buf.len() {
            match read_chunk(&mut self.inner, self.capacity) {
                Ok(chunk) => {
                    self.buf = chunk;
                    self.pos = 0;
                },
                Err(e) => {
                    return Err(e);
                },
            }
        }
        Ok(self.buf.len() - self.pos)
    }

    /// Hands out up to `want` bytes from the buffer, refilling it first
    /// when it is empty, and consumes them.
    pub fn read(&mut self, want: usize) -> (r: Result<Vec<u8>, std::io::Error>)
        requires
            old(self).wf(),
        ensures
            final(self).wf(),
            final(self).capacity == old(self).capacity,
            old(self).pos < old(self).buf@.len() ==> r is Ok,
            (match r {
                Ok(v) => {
                    let k = if want <= old(self).buf@.len() - old(self).pos {
                        want as int
                    } else {
                        old(self).buf@.len() - old(self).pos
                    };
                    &&& v@.len() <= want
                    &&& (old(self).pos < old(self).buf@.len() ==> v@ == old(self).buf@.subrange(
                        old(self).pos as int,
                        old(self).pos + k,
                    ) && final(self).buf == old(self).buf && final(self).pos == old(self).pos + k
                        && final(self).pos_from_start == sat_add_u64(old(self).pos_from_start, k))
                },
                Err(_) => final(self).buf == old(self).buf && final(self).pos == old(self).pos,
            }),
    {
        let ghost pre = *self;
        match self.fill_buf() {
            Ok(_) => {},
            Err(e) => {
                return Err(e);
            },
        }
        let avail = self.buf.len() - self.pos;
        let k = if want <= avail {
            want
        } else {
            avail
        };
        let mut out: Vec<u8> = Vec::new();
        let mut i: usize = 0;
        while i < k
            invariant
                self.pos + k <= self.buf@.len(),
                self.buf@.len() <= usize::MAX,
                i <= k,
                out@ == self.buf@.subrange(self.pos as int, self.pos + i),
            decreases k - i,
        {
            let b = self.buf[self.pos + i];
            out.push(b);
            proof {
                assert(out@ =~= self.buf@.subrange(self.pos as int, self.pos + i + 1));
            }
            i += 1;
        }
        self.consume(k);
        Ok(out)
    }

    /// Moves the cursor. Backward seeks stay within the buffered bytes;
    /// forward seeks consume, refilling as needed, and fail at the end of
    /// the source; seeks from the end always fail. On success the new
    /// position from the start is returned.
    pub fn seek(&mut self, pos: SeekFrom) -> (r: Result<u64, SeekError>)
        requires
            old(self).wf(),
        ensures
            final(self).wf(),
            final(self).capacity == old(self).capacity,
            (r matches Ok(p) ==> p == final(self).pos_from_start),
            pos is End ==> r is Err && *final(self) == *old(self),
            (match pos {
                SeekFrom::Current(n) => {
                    &&& (i64::MIN < n < 0 && -n < old(self).pos ==> (r matches Ok(p) && p == old(
                        self).pos_from_start - (-n)) && final(self).pos == old(self).pos + n)
                    &&& (n < 0 && (n == i64::MIN || -n >= old(self).pos) ==> r is Err && *final(
                        self) == *old(self))
                    &&& (n >= 0 && r is Ok ==> final(self).pos_from_start == sat_add_u64(
                        old(self).pos_from_start, n as int))
                    &&& (0 <= n <= old(self).buf@.len() - old(self).pos ==> r is Ok)
                },
                _ => true,
            }),
    {
        let relpos: i64 = match pos {
            SeekFrom::Current(n) => n,
            SeekFrom::Start(n) => {
                let m = self.pos_from_start.wrapping_sub(n);
                if m < self.pos_from_start {
                    if m > 0x7FFFFFFFFFFFFFFF {
                        return Err(SeekError::OutOfRange);
                    }
                    -(m as i64)
                } else {
                    if m > 0x7FFFFFFFFFFFFFFF {
                        return Err(SeekError::OutOfRange);
                    }
                    m as i64
                }
            },
            SeekFrom::End(_) => {
                return Err(SeekError::OutOfRange);
            },
        };
        if relpos < 0 {
            if relpos == i64::MIN {
                return Err(SeekError::OutOfRange);
            }
            let back = (-relpos) as u64;
            if back < (self.pos as u64) {
                self.unconsume(back as usize);
            } else {
                return Err(SeekError::OutOfRange);
            }
        } else {
            let mut remaining = relpos as u64;
            let ghost goal = sat_add_u64(old(self).pos_from_start, relpos as int);
            let ghost within = relpos as int <= old(self).buf@.len() - old(self).pos;
            while remaining > 0
                invariant
                    self.wf(),
                    self.capacity == old(self).capacity,
                    sat_add_u64(self.pos_from_start, remaining as int) == goal,
                    goal == sat_add_u64(old(self).pos_from_start, relpos as int),
                    relpos >= 0,
                    !(pos is End),
                    (pos matches SeekFrom::Current(n) ==> n == relpos),
                    within == (relpos as int <= old(self).buf@.len() - old(self).pos),
                    within ==> remaining <= self.buf@.len() - self.pos,
                decreases remaining,
            {
                if self.pos >= self.buf.len() {
                    match self.fill_buf() {
                        Ok(avail) => {
                            if avail == 0 {
                                return Err(SeekError::OutOfRange);
                            }
                        },
                        Err(e) => {
                            return Err(SeekError::Io(e));
                        },
                    }
                }
                let avail = self.buf.len() - self.pos;
                let step: usize = if remaining <= (avail as u64) {
                    remaining as usize
                } else {
                    avail
                };
                proof {
                    lemma_sat_add_chain(self.pos_from_start, step as int, remaining - step);
                }
                self.consume(step);
                remaining = remaining - (step as u64);
            }
        }
        Ok(self.pos_from_start)
    }
}

} // verus!
