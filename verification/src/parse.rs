//! A little-endian byte reader over a borrowed buffer with a moving
//! read position; the foundation every decoder in this crate uses.

use vstd::prelude::*;
use vstd::bytes::{spec_u16_from_le_bytes, spec_u32_from_le_bytes, spec_u64_from_le_bytes};
use vstd::bytes::{spec_u16_to_le_bytes, spec_u32_to_le_bytes, spec_u64_to_le_bytes};
use vstd::bytes::{u16_from_le_bytes, u32_from_le_bytes, u64_from_le_bytes};
use vstd::bytes::{u16_to_le_bytes, u32_to_le_bytes, u64_to_le_bytes};
use vstd::slice::slice_subrange;

verus! {

/// Appends every byte of a slice to a vector, in order.
pub(crate) fn push_bytes(dst: &mut Vec<u8>, src: &[u8])
    ensures
        final(dst)@ == old(dst)@ + src@,
{
    let n = src.len();
    let mut i: usize = 0;
    while i < n
        invariant
            i <= n,
            n == src@.len(),
            dst@ == old(dst)@ + src@.subrange(0, i as int),
        decreases n - i,
    {
        proof {
            assert(src@.subrange(0, i + 1) =~= src@.subrange(0, i as int).push(src@[i as int]));
        }
        dst.push(src[i]);
        i = i + 1;
    }
    proof {
        assert(src@.subrange(0, n as int) =~= src@);
    }
}

/// Appends the two little-endian bytes of a u16.
pub(crate) fn push_u16(dst: &mut Vec<u8>, x: u16)
    ensures
        final(dst)@ == old(dst)@ + spec_u16_to_le_bytes(x),
{
    let le = u16_to_le_bytes(x);
    push_bytes(dst, le.as_slice());
}

/// Appends the four little-endian bytes of a u32.
pub(crate) fn push_u32(dst: &mut Vec<u8>, x: u32)
    ensures
        final(dst)@ == old(dst)@ + spec_u32_to_le_bytes(x),
{
    let le = u32_to_le_bytes(x);
    push_bytes(dst, le.as_slice());
}

/// Appends the eight little-endian bytes of a u64.
pub(crate) fn push_u64(dst: &mut Vec<u8>, x: u64)
    ensures
        final(dst)@ == old(dst)@ + spec_u64_to_le_bytes(x),
{
    let le = u64_to_le_bytes(x);
    push_bytes(dst, le.as_slice());
}

/// Appends zero bytes until the vector reaches the given length.
pub(crate) fn pad_zero(dst: &mut Vec<u8>, size: usize)
    requires
        old(dst)@.len() <= size,
    ensures
        final(dst)@ == old(dst)@ + Seq::new((size - old(dst)@.len()) as nat, |i: int| 0u8),
        final(dst)@.len() == size,
{
    while dst.len() < size
        invariant
            old(dst)@.len() <= dst@.len() <= size,
            dst@ == old(dst)@ + Seq::new((dst@.len() - old(dst)@.len()) as nat, |i: int| 0u8),
        decreases size - dst@.len(),
    {
        proof {
            let k = (dst@.len() - old(dst)@.len()) as nat;
            assert(Seq::new(k, |i: int| 0u8).push(0u8) =~= Seq::new((k + 1) as nat, |i: int| 0u8));
            assert((old(dst)@ + Seq::new(k, |i: int| 0u8)).push(0u8) =~= old(dst)@ + Seq::new(
                (k + 1) as nat,
                |i: int| 0u8,
            ));
        }
        dst.push(0u8);
    }
}

/// A byte slice together with a read offset. Sequential reads consume
/// bytes from the offset onward; `copy_from` reads at an absolute
/// offset while still advancing the offset, so callers must keep the
/// two in sync.
pub struct LittleEndianBytes<'a> {
    pub data: &'a [u8],
    pub cursor: usize,
}

impl<'a> LittleEndianBytes<'a> {
    /// Wraps a buffer with the read position at its start.
    pub fn new(data: &'a [u8]) -> (r: Self)
        ensures
            r.data@ == data@,
            r.cursor == 0,
    {
        Self { data, cursor: 0 }
    }

    /// Reads one byte and advances by one, or returns nothing if the
    /// buffer is exhausted.
    pub fn parse_u8(&mut self) -> (r: Option<u8>)
        ensures
            final(self).data@ == old(self).data@,
            match r {
                Some(v) => {
                    &&& old(self).cursor + 1 <= old(self).data@.len()
                    &&& v == old(self).data@[old(self).cursor as int]
                    &&& final(self).cursor == old(self).cursor + 1
                },
                None => {
                    &&& old(self).cursor + 1 > old(self).data@.len()
                    &&& final(self).cursor == old(self).cursor
                },
            },
    {
        if self.cursor < self.data.len() {
            let res = self.data[self.cursor];
            self.cursor = self.cursor + 1;
            Some(res)
        } else {
            None
        }
    }

    /// Reads a little-endian u16 and advances by two, or returns
    /// nothing if fewer than two bytes remain.
    pub fn parse_u16(&mut self) -> (r: Option<u16>)
        ensures
            final(self).data@ == old(self).data@,
            match r {
                Some(v) => {
                    &&& old(self).cursor + 2 <= old(self).data@.len()
                    &&& v == spec_u16_from_le_bytes(
                        old(self).data@.subrange(old(self).cursor as int, old(self).cursor + 2),
                    )
                    &&& final(self).cursor == old(self).cursor + 2
                },
                None => {
                    &&& old(self).cursor + 2 > old(self).data@.len()
                    &&& final(self).cursor == old(self).cursor
                },
            },
    {
        if self.data.len() >= 2 && self.cursor <= self.data.len() - 2 {
            let s = slice_subrange(self.data, self.cursor, self.cursor + 2);
            let res = u16_from_le_bytes(s);
            self.cursor = self.cursor + 2;
            Some(res)
        } else {
            None
        }
    }

    /// Reads a little-endian u32 and advances by four, or returns
    /// nothing if fewer than four bytes remain.
    pub fn parse_u32(&mut self) -> (r: Option<u32>)
        ensures
            final(self).data@ == old(self).data@,
            match r {
                Some(v) => {
                    &&& old(self).cursor + 4 <= old(self).data@.len()
                    &&& v == spec_u32_from_le_bytes(
                        old(self).data@.subrange(old(self).cursor as int, old(self).cursor + 4),
                    )
                    &&& final(self).cursor == old(self).cursor + 4
                },
                None => {
                    &&& old(self).cursor + 4 > old(self).data@.len()
                    &&& final(self).cursor == old(self).cursor
                },
            },
    {
        if self.data.len() >= 4 && self.cursor <= self.data.len() - 4 {
            let s = slice_subrange(self.data, self.cursor, self.cursor + 4);
            let res = u32_from_le_bytes(s);
            self.cursor = self.cursor + 4;
            Some(res)
        } else {
            None
        }
    }

    /// Reads a little-endian u64 and advances by eight, or returns
    /// nothing if fewer than eight bytes remain.
    pub fn parse_u64(&mut self) -> (r: Option<u64>)
        ensures
            final(self).data@ == old(self).data@,
            match r {
                Some(v) => {
                    &&& old(self).cursor + 8 <= old(self).data@.len()
                    &&& v == spec_u64_from_le_bytes(
                        old(self).data@.subrange(old(self).cursor as int, old(self).cursor + 8),
                    )
                    &&& final(self).cursor == old(self).cursor + 8
                },
                None => {
                    &&& old(self).cursor + 8 > old(self).data@.len()
                    &&& final(self).cursor == old(self).cursor
                },
            },
    {
        if self.data.len() >= 8 && self.cursor <= self.data.len() - 8 {
            let s = slice_subrange(self.data, self.cursor, self.cursor + 8);
            let res = u64_from_le_bytes(s);
            self.cursor = self.cursor + 8;
            Some(res)
        } else {
            None
        }
    }

    /// Advances the read position without reading.
    pub fn skip(&mut self, size: usize)
        requires
            old(self).cursor + size <= usize::MAX,
        ensures
            final(self).data@ == old(self).data@,
            final(self).cursor == old(self).cursor + size,
    {
        self.cursor = self.cursor + size;
    }

    /// Copies exactly N bytes starting at an absolute offset into a
    /// fixed-size buffer, then advances the read position by N
    /// relative to where it was.
    pub fn copy_from<const N: usize>(&mut self, offset: usize) -> (r: [u8; N])
        requires
            offset + N <= old(self).data@.len(),
            old(self).cursor + N <= usize::MAX,
        ensures
            final(self).data@ == old(self).data@,
            final(self).cursor == old(self).cursor + N,
            r@ == old(self).data@.subrange(offset as int, offset + N),
    {
        let data_len = self.data.len();
        let mut res: [u8; N] = [0u8; N];
        let mut i: usize = 0;
        while i < N
            invariant
                i <= N,
                offset + N <= data_len == self.data@.len(),
                self.data@ == old(self).data@,
                self.cursor == old(self).cursor,
                res@.len() == N,
                forall|j: int| 0 <= j < i ==> res@[j] == self.data@[offset + j],
            decreases N - i,
        {
            res[i] = self.data[offset + i];
            i = i + 1;
        }
        self.cursor = self.cursor + N;
        proof {
            assert(res@ =~= old(self).data@.subrange(offset as int, offset + N));
        }
        res
    }
}

} // verus!
