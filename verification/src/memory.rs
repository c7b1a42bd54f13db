//! A model of the target process's readable memory.
//!
//! The introspection layer never owns remote memory: it is handed a
//! [`ProcessMemory`] describing which address ranges are currently readable
//! and what bytes they hold.  Every multi-step traversal in this crate is
//! specified against the partial byte map this module defines.

use crate::IoFailure;
use vstd::prelude::*;

verus! {

/// One contiguous readable range of the target's address space.
pub struct MemRegion {
    pub base: u64,
    pub bytes: Vec<u8>,
}

/// The readable memory of the target process: a set of regions, queried as a
/// partial map from address to byte.  Where regions overlap, the earliest
/// region in the vector wins.
pub struct ProcessMemory {
    pub regions: Vec<MemRegion>,
}

impl MemRegion {
    pub open spec fn contains(self, a: int) -> bool {
        self.base <= a < self.base + self.bytes@.len()
    }

    pub open spec fn byte(self, a: int) -> u8 {
        self.bytes@[a - self.base]
    }
}

/// The byte the first region of `rs` containing `a` holds there, if any.
pub open spec fn region_lookup(rs: Seq<MemRegion>, a: int) -> Option<u8>
    decreases rs.len(),
{
    if rs.len() == 0 {
        None
    } else if rs[0].contains(a) {
        Some(rs[0].byte(a))
    } else {
        region_lookup(rs.drop_first(), a)
    }
}

impl ProcessMemory {
    /// The byte readable at address `a`, or `None` if `a` is unmapped.
    pub open spec fn mem_at(self, a: int) -> Option<u8> {
        region_lookup(self.regions@, a)
    }

    pub open spec fn is_mapped(self, a: int) -> bool {
        self.mem_at(a) is Some
    }

    /// The byte at `a`; meaningful only where `is_mapped(a)`.
    pub open spec fn byte_at(self, a: int) -> u8 {
        match self.mem_at(a) {
            Some(b) => b,
            None => 0,
        }
    }

    /// Every address in `[a, a + n)` is mapped.
    pub open spec fn mapped_range(self, a: int, n: int) -> bool {
        forall|i: int| a <= i < a + n ==> self.is_mapped(i)
    }

    /// The `n` bytes starting at `a`; meaningful only where mapped.
    pub open spec fn bytes_at(self, a: int, n: nat) -> Seq<u8> {
        Seq::new(n, |i: int| self.byte_at(a + i))
    }

    /// Little-endian 16-bit value at `a`.
    pub open spec fn u16_at(self, a: int) -> int {
        self.byte_at(a) + 0x100 * self.byte_at(a + 1)
    }

    /// Little-endian 32-bit value at `a`.
    pub open spec fn u32_at(self, a: int) -> int {
        self.byte_at(a) + 0x100 * self.byte_at(a + 1) + 0x1_0000 * self.byte_at(a + 2)
            + 0x100_0000 * self.byte_at(a + 3)
    }

    /// Little-endian 64-bit value at `a`.
    pub open spec fn u64_at(self, a: int) -> int {
        self.u32_at(a) + 0x1_0000_0000 * self.u32_at(a + 4)
    }

    /// Reads the single byte at `a`, `None` exactly where `a` is unmapped.
    pub fn read_byte(&self, a: u64) -> (r: Option<u8>)
        ensures
            r == self.mem_at(a as int),
    {
        let mut i: usize = 0;
        proof {
            assert(self.regions@.skip(0) =~= self.regions@);
        }
        while i < self.regions.len()
            invariant
                i <= self.regions@.len(),
                region_lookup(self.regions@.skip(i as int), a as int) == self.mem_at(a as int),
            decreases self.regions@.len() - i,
        {
            let reg = &self.regions[i];
            if a >= reg.base {
                let off = a - reg.base;
                if off < reg.bytes.len() as u64 {
                    let idx: usize = off as usize;
                    return Some(reg.bytes[idx]);
                }
            }
            proof {
                assert(self.regions@.skip(i as int).drop_first() =~= self.regions@.skip(
                    i as int + 1,
                ));
            }
            i = i + 1;
        }
        None
    }

    /// Reads `len` bytes starting at `addr`.  Succeeds exactly when the whole
    /// range lies in the address space and every byte of it is mapped; a
    /// failure anywhere discards all partial results.
    pub fn read_bytes(&self, addr: u64, len: usize) -> (r: Result<Vec<u8>, IoFailure>)
        ensures
            r is Ok <==> addr + len <= 0x1_0000_0000_0000_0000 && self.mapped_range(
                addr as int,
                len as int,
            ),
            r matches Ok(b) ==> b@ == self.bytes_at(addr as int, len as nat),
            r matches Err(IoFailure::Unmapped(a)) ==> addr <= a < addr + len && !self.is_mapped(
                a as int,
            ) && self.mapped_range(addr as int, a - addr),
            r matches Err(IoFailure::OutOfAddressSpace) ==> addr + len > 0x1_0000_0000_0000_0000,
            r is Err ==> (r matches Err(IoFailure::Unmapped(_)) || r matches Err(
                IoFailure::OutOfAddressSpace,
            )),
    {
        let mut out: Vec<u8> = Vec::new();
        let mut i: usize = 0;
        while i < len
            invariant
                i <= len,
                out@.len() == i,
                addr + i <= 0x1_0000_0000_0000_0000,
                self.mapped_range(addr as int, i as int),
                out@ == self.bytes_at(addr as int, i as nat),
            decreases len - i,
        {
            if (i as u64) > u64::MAX - addr {
                return Err(IoFailure::OutOfAddressSpace);
            }
            let a = addr + i as u64;
            match self.read_byte(a) {
                Some(b) => {
                    out.push(b);
                    proof {
                        assert(out@ =~= self.bytes_at(addr as int, (i + 1) as nat));
                    }
                },
                None => {
                    proof {
                        assert(!self.is_mapped(a as int));
                        assert(!self.mapped_range(addr as int, len as int));
                    }
                    return Err(IoFailure::Unmapped(a));
                },
            }
            i = i + 1;
        }
        Ok(out)
    }

    /// Reads the byte at `addr`, with the failure reported like the wider
    /// reads.
    pub fn read_u8(&self, addr: u64) -> (r: Result<u8, IoFailure>)
        ensures
            r is Ok <==> self.is_mapped(addr as int),
            r matches Ok(v) ==> v == self.byte_at(addr as int),
            r is Err ==> r matches Err(IoFailure::Unmapped(_)),
    {
        match self.read_byte(addr) {
            Some(b) => Ok(b),
            None => Err(IoFailure::Unmapped(addr)),
        }
    }

    /// Reads the little-endian 16-bit value at `addr`.
    pub fn read_u16(&self, addr: u64) -> (r: Result<u16, IoFailure>)
        ensures
            r is Ok <==> addr + 2 <= 0x1_0000_0000_0000_0000 && self.mapped_range(addr as int, 2),
            r matches Ok(v) ==> v as int == self.u16_at(addr as int),
            r is Err ==> (r matches Err(IoFailure::Unmapped(_)) || r matches Err(
                IoFailure::OutOfAddressSpace,
            )),
    {
        match self.read_bytes(addr, 2) {
            Ok(b) => Ok(b[0] as u16 + 0x100 * b[1] as u16),
            Err(e) => Err(e),
        }
    }

    /// Reads the little-endian 32-bit value at `addr`.
    pub fn read_u32(&self, addr: u64) -> (r: Result<u32, IoFailure>)
        ensures
            r is Ok <==> addr + 4 <= 0x1_0000_0000_0000_0000 && self.mapped_range(addr as int, 4),
            r matches Ok(v) ==> v as int == self.u32_at(addr as int),
            r is Err ==> (r matches Err(IoFailure::Unmapped(_)) || r matches Err(
                IoFailure::OutOfAddressSpace,
            )),
    {
        match self.read_bytes(addr, 4) {
            Ok(b) => Ok(
                b[0] as u32 + 0x100 * b[1] as u32 + 0x1_0000 * b[2] as u32 + 0x100_0000 * b[3]
                    as u32,
            ),
            Err(e) => Err(e),
        }
    }

    /// Reads the little-endian 64-bit value at `addr`.
    pub fn read_u64(&self, addr: u64) -> (r: Result<u64, IoFailure>)
        ensures
            r is Ok <==> addr + 8 <= 0x1_0000_0000_0000_0000 && self.mapped_range(addr as int, 8),
            r matches Ok(v) ==> v as int == self.u64_at(addr as int),
            r is Err ==> (r matches Err(IoFailure::Unmapped(_)) || r matches Err(
                IoFailure::OutOfAddressSpace,
            )),
    {
        match self.read_bytes(addr, 8) {
            Ok(b) => {
                let lo: u32 = b[0] as u32 + 0x100 * b[1] as u32 + 0x1_0000 * b[2] as u32
                    + 0x100_0000 * b[3] as u32;
                let hi: u32 = b[4] as u32 + 0x100 * b[5] as u32 + 0x1_0000 * b[6] as u32
                    + 0x100_0000 * b[7] as u32;
                Ok(lo as u64 + 0x1_0000_0000 * hi as u64)
            },
            Err(e) => Err(e),
        }
    }
}

} // verus!
