//! Read-stream helper: a cursor over an in-memory byte buffer with
//! exact-length reads, NUL-terminated-string reads, and a bounded sub-reader
//! that exposes only the next N bytes of the underlying cursor.

use vstd::math::min;
use vstd::prelude::*;
use vstd::slice::{slice_subrange, slice_to_vec};

use crate::byte_ext::{copy, spec_find_nul};
use crate::BlendError;

verus! {

/// A sequential cursor over a byte buffer. Reads either return exactly what
/// was asked for or fail with the position at which the bytes ran out, and a
/// failed read does not move the cursor.
pub struct Reader {
    pub data: Vec<u8>,
    pub pos: usize,
}

impl Reader {
    /// The cursor never points past the end of the buffer.
    pub open spec fn wf(&self) -> bool {
        self.pos <= self.data@.len()
    }

    pub fn new(data: Vec<u8>) -> (r: Reader)
        ensures
            r.data@ == data@,
            r.pos == 0,
            r.wf(),
    {
        Reader { data, pos: 0 }
    }

    /// How many bytes are left to read.
    pub fn remaining(&self) -> (r: usize)
        requires
            self.wf(),
        ensures
            r == self.data@.len() - self.pos,
            self.data@.len() <= usize::MAX,
    {
        self.data.len() - self.pos
    }

    /// Reads one byte, or reports where the buffer ran out.
    pub fn read_byte(&mut self) -> (r: Result<u8, BlendError>)
        requires
            old(self).wf(),
        ensures
            final(self).wf(),
            final(self).data@ == old(self).data@,
            (match r {
                Ok(b) => old(self).pos < old(self).data@.len() && b == old(self).data@[old(
                    self,
                ).pos as int] && final(self).pos == old(self).pos + 1,
                Err(e) => old(self).pos >= old(self).data@.len() && e == BlendError::Truncated(
                    old(self).pos,
                ) && final(self).pos == old(self).pos,
            }),
    {
        if self.pos < self.data.len() {
            let b = self.data[self.pos];
            self.pos = self.pos + 1;
            Ok(b)
        } else {
            Err(BlendError::Truncated(self.pos))
        }
    }

    /// Reads exactly `N` bytes into a fixed-size array.
    pub fn read_exact_array<const N: usize>(&mut self) -> (r: Result<[u8; N], BlendError>)
        requires
            old(self).wf(),
        ensures
            final(self).wf(),
            final(self).data@ == old(self).data@,
            (match r {
                Ok(a) => old(self).pos + N <= old(self).data@.len() && a@ == old(
                    self,
                ).data@.subrange(old(self).pos as int, old(self).pos + N) && final(self).pos == old(
                    self,
                ).pos + N,
                Err(e) => old(self).pos + N > old(self).data@.len() && e == BlendError::Truncated(
                    old(self).pos,
                ) && final(self).pos == old(self).pos,
            }),
    {
        if N > self.data.len() - self.pos {
            return Err(BlendError::Truncated(self.pos));
        }
        let s = slice_subrange(self.data.as_slice(), self.pos, self.pos + N);
        let a = copy::<N>(s);
        proof {
            assert(a@ =~= self.data@.subrange(self.pos as int, self.pos + N));
        }
        self.pos = self.pos + N;
        Ok(a)
    }

    /// Reads exactly `limit` bytes into a fresh buffer.
    pub fn read_exact_buffer(&mut self, limit: usize) -> (r: Result<Vec<u8>, BlendError>)
        requires
            old(self).wf(),
        ensures
            final(self).wf(),
            final(self).data@ == old(self).data@,
            (match r {
                Ok(b) => old(self).pos + limit <= old(self).data@.len() && b@ == old(
                    self,
                ).data@.subrange(old(self).pos as int, old(self).pos + limit) && final(self).pos
                    == old(self).pos + limit,
                Err(e) => old(self).pos + limit > old(self).data@.len() && e
                    == BlendError::Truncated(old(self).pos) && final(self).pos == old(self).pos,
            }),
    {
        if limit > self.data.len() - self.pos {
            return Err(BlendError::Truncated(self.pos));
        }
        let s = slice_subrange(self.data.as_slice(), self.pos, self.pos + limit);
        let b = slice_to_vec(s);
        self.pos = self.pos + limit;
        Ok(b)
    }

    /// Reads a NUL-terminated string: returns the bytes before the NUL and
    /// consumes the terminator as well. Fails from the current position when
    /// no NUL follows.
    pub fn read_cstr(&mut self) -> (r: Result<Vec<u8>, BlendError>)
        requires
            old(self).wf(),
        ensures
            final(self).wf(),
            final(self).data@ == old(self).data@,
            (match r {
                Ok(b) => {
                    &&& spec_find_nul(old(self).data@, old(self).pos as int) == Some(
                        old(self).pos + b@.len(),
                    )
                    &&& b@ == old(self).data@.subrange(
                        old(self).pos as int,
                        old(self).pos + b@.len(),
                    )
                    &&& final(self).pos == old(self).pos + b@.len() + 1
                },
                Err(e) => spec_find_nul(old(self).data@, old(self).pos as int) is None && e
                    == BlendError::Truncated(old(self).pos) && final(self).pos == old(self).pos,
            }),
    {
        let mut j = self.pos;
        while j < self.data.len() && self.data[j] != 0
            invariant
                self.wf(),
                self.pos <= j <= self.data@.len(),
                spec_find_nul(self.data@, self.pos as int) == spec_find_nul(self.data@, j as int),
            decreases self.data@.len() - j,
        {
            j = j + 1;
        }
        if j == self.data.len() {
            return Err(BlendError::Truncated(self.pos));
        }
        let b = slice_to_vec(slice_subrange(self.data.as_slice(), self.pos, j));
        self.pos = j + 1;
        Ok(b)
    }

    /// Hands out a bounded sub-reader that will serve at most `len` bytes
    /// from this cursor.
    pub fn take_borrowed(&self, len: usize) -> (r: BorrowedTake)
        ensures
            r.rem == len,
    {
        BorrowedTake { rem: len }
    }
}

/// A bounded sub-reader: it serves bytes from an underlying cursor, but never
/// more than the budget it was created with, reporting end-of-data once the
/// budget is exhausted even if the underlying buffer has more bytes.
pub struct BorrowedTake {
    pub rem: usize,
}

impl BorrowedTake {
    /// The number of bytes this sub-reader may still serve.
    pub fn remaining(&self) -> (r: usize)
        ensures
            r == self.rem,
    {
        self.rem
    }

    /// Reads up to `want` bytes from `from`, bounded both by the remaining
    /// budget and by the bytes the underlying cursor still has.
    pub fn read(&mut self, from: &mut Reader, want: usize) -> (r: Vec<u8>)
        requires
            old(from).wf(),
        ensures
            final(from).wf(),
            final(from).data@ == old(from).data@,
            r@.len() == min(
                want as int,
                min(old(self).rem as int, old(from).data@.len() - old(from).pos),
            ),
            r@ == old(from).data@.subrange(old(from).pos as int, old(from).pos + r@.len()),
            final(from).pos == old(from).pos + r@.len(),
            final(self).rem == old(self).rem - r@.len(),
    {
        let mut k = want;
        if self.rem < k {
            k = self.rem;
        }
        let avail = from.remaining();
        if avail < k {
            k = avail;
        }
        match from.read_exact_buffer(k) {
            Ok(b) => {
                self.rem = self.rem - k;
                b
            },
            Err(_) => {
                proof {
                    assert(false);
                }
                Vec::new()
            },
        }
    }
}

} // verus!
