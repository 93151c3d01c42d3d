//! Byte-addressed model of the physical memory the monitor mediates.
//!
//! One contiguous range of physical addresses is held as a vector of
//! bytes starting at `base`. Host memory, enclave private memory and
//! untrusted shared memory are all windows into this range; which window
//! a copy may touch is decided by the PMP overlap checks, not here.

use vstd::prelude::*;

use crate::codes::WORD_SIZE;

verus! {

/// Byte `i` of the little-endian encoding of `v`.
pub open spec fn word_byte(v: u64, i: int) -> u8 {
    ((v >> ((8 * i) as u64)) & 0xff) as u8
}

/// `s` with the `WORD_SIZE` bytes at `off` replaced by the little-endian
/// encoding of `v`.
pub open spec fn bytes_with_word(s: Seq<u8>, off: int, v: u64) -> Seq<u8> {
    Seq::new(s.len(), |j: int| if off <= j < off + WORD_SIZE { word_byte(v, j - off) } else { s[j] })
}

/// `s` with the `n` bytes at `off` replaced by zero.
pub open spec fn bytes_zeroed(s: Seq<u8>, off: int, n: int) -> Seq<u8> {
    Seq::new(s.len(), |j: int| if off <= j < off + n { 0u8 } else { s[j] })
}

/// `s` with the bytes at `off` replaced by `d`.
pub open spec fn bytes_written(s: Seq<u8>, off: int, d: Seq<u8>) -> Seq<u8> {
    Seq::new(s.len(), |j: int| if off <= j < off + d.len() { d[j - off] } else { s[j] })
}

/// A contiguous stretch of physical memory, starting at address `base`.
pub struct Memory {
    pub base: usize,
    pub bytes: Vec<u8>,
}

impl Memory {
    /// The modelled address range does not wrap around the address space.
    pub open spec fn wf(self) -> bool {
        self.base + self.bytes@.len() <= usize::MAX
    }

    /// `[addr, addr + size)` lies inside the modelled range.
    pub open spec fn in_range(self, addr: int, size: int) -> bool {
        self.base <= addr && addr + size <= self.base + self.bytes@.len()
    }

    /// The byte stored at physical address `addr`.
    pub open spec fn byte_at(self, addr: int) -> u8 {
        self.bytes@[addr - self.base]
    }

    /// Fresh memory: `len` zero bytes starting at `base`.
    pub fn new(base: usize, len: usize) -> (r: Memory)
        requires
            base + len <= usize::MAX,
        ensures
            r.wf(),
            r.base == base,
            r.bytes@.len() == len,
            forall|j: int| 0 <= j < len ==> r.bytes@[j] == 0u8,
    {
        let mut bytes: Vec<u8> = Vec::new();
        let mut i: usize = 0;
        while i < len
            invariant
                i <= len,
                bytes@.len() == i,
                forall|j: int| 0 <= j < i ==> bytes@[j] == 0u8,
            decreases len - i,
        {
            bytes.push(0u8);
            i += 1;
        }
        Memory { base, bytes }
    }

    /// Executable bounds test for `[addr, addr + size)`.
    pub fn in_bounds(&self, addr: usize, size: usize) -> (r: bool)
        requires
            self.wf(),
        ensures
            r == self.in_range(addr as int, size as int),
    {
        addr >= self.base && size <= self.bytes.len() && addr - self.base <= self.bytes.len() - size
    }

    /// Read one byte.
    pub fn read_byte(&self, addr: usize) -> (r: u8)
        requires
            self.wf(),
            self.in_range(addr as int, 1),
        ensures
            r == self.byte_at(addr as int),
    {
        self.bytes[addr - self.base]
    }

    /// Overwrite one byte.
    pub fn write_byte(&mut self, addr: usize, b: u8)
        requires
            old(self).wf(),
            old(self).in_range(addr as int, 1),
        ensures
            final(self).base == old(self).base,
            final(self).bytes@ == old(self).bytes@.update(addr - old(self).base, b),
    {
        let off = addr - self.base;
        self.bytes.set(off, b);
    }

    /// Copy `n` bytes starting at `addr` out of memory.
    pub fn read_bytes(&self, addr: usize, n: usize) -> (r: Vec<u8>)
        requires
            self.wf(),
            self.in_range(addr as int, n as int),
        ensures
            r@ == self.bytes@.subrange(addr - self.base, addr - self.base + n),
    {
        let off = addr - self.base;
        let mut r: Vec<u8> = Vec::new();
        let mut i: usize = 0;
        while i < n
            invariant
                i <= n,
                r@.len() == i,
                off + n <= self.bytes@.len(),
                off + n <= usize::MAX,
                forall|j: int| 0 <= j < i ==> r@[j] == self.bytes@[off + j],
            decreases n - i,
        {
            r.push(self.bytes[off + i]);
            i += 1;
        }
        proof {
            assert(r@ =~= self.bytes@.subrange(addr - self.base, addr - self.base + n));
        }
        r
    }

    /// Write the bytes of `d` starting at `addr`.
    pub fn write_bytes(&mut self, addr: usize, d: &Vec<u8>)
        requires
            old(self).wf(),
            old(self).in_range(addr as int, d@.len() as int),
        ensures
            final(self).base == old(self).base,
            final(self).bytes@ == bytes_written(old(self).bytes@, addr - old(self).base, d@),
    {
        let off = addr - self.base;
        let mut i: usize = 0;
        while i < d.len()
            invariant
                i <= d@.len(),
                self.base == old(self).base,
                self.bytes@.len() == old(self).bytes@.len(),
                off + d@.len() <= self.bytes@.len(),
                off + d@.len() <= usize::MAX,
                forall|j: int|
                    0 <= j < self.bytes@.len() ==> self.bytes@[j] == (if off <= j < off + i {
                        d@[j - off]
                    } else {
                        old(self).bytes@[j]
                    }),
            decreases d@.len() - i,
        {
            self.bytes.set(off + i, d[i]);
            i += 1;
        }
        proof {
            assert(self.bytes@ =~= bytes_written(old(self).bytes@, addr - old(self).base, d@));
        }
    }

    /// Write the little-endian encoding of `v` at `addr`.
    pub fn write_word(&mut self, addr: usize, v: u64)
        requires
            old(self).wf(),
            old(self).in_range(addr as int, WORD_SIZE as int),
        ensures
            final(self).base == old(self).base,
            final(self).bytes@ == bytes_with_word(old(self).bytes@, addr - old(self).base, v),
    {
        let off = addr - self.base;
        let mut i: usize = 0;
        while i < WORD_SIZE
            invariant
                i <= WORD_SIZE,
                self.base == old(self).base,
                self.bytes@.len() == old(self).bytes@.len(),
                off + WORD_SIZE <= self.bytes@.len(),
                off + WORD_SIZE <= usize::MAX,
                forall|j: int|
                    0 <= j < self.bytes@.len() ==> self.bytes@[j] == (if off <= j < off + i {
                        word_byte(v, j - off)
                    } else {
                        old(self).bytes@[j]
                    }),
            decreases WORD_SIZE - i,
        {
            let sh: u64 = (8 * i) as u64;
            assert((v >> sh) & 0xff <= 0xff) by (bit_vector);
            let b: u8 = ((v >> sh) & 0xff) as u8;
            assert(b == word_byte(v, i as int));
            self.bytes.set(off + i, b);
            i += 1;
        }
        proof {
            assert(self.bytes@ =~= bytes_with_word(old(self).bytes@, addr - old(self).base, v));
        }
    }

    /// Scrub the `n` bytes at `addr` to zero.
    pub fn zero_range(&mut self, addr: usize, n: usize)
        requires
            old(self).wf(),
            old(self).in_range(addr as int, n as int),
        ensures
            final(self).base == old(self).base,
            final(self).bytes@ == bytes_zeroed(old(self).bytes@, addr - old(self).base, n as int),
    {
        let off = addr - self.base;
        let mut i: usize = 0;
        while i < n
            invariant
                i <= n,
                self.base == old(self).base,
                self.bytes@.len() == old(self).bytes@.len(),
                off + n <= self.bytes@.len(),
                off + n <= usize::MAX,
                forall|j: int|
                    0 <= j < self.bytes@.len() ==> self.bytes@[j] == (if off <= j < off + i {
                        0u8
                    } else {
                        old(self).bytes@[j]
                    }),
            decreases n - i,
        {
            self.bytes.set(off + i, 0u8);
            i += 1;
        }
        proof {
            assert(self.bytes@ =~= bytes_zeroed(old(self).bytes@, addr - old(self).base, n as int));
        }
    }
}

} // verus!
