//! Typed remote pointers.
//!
//! A [`Ptr`] is a 64-bit address in the target process tagged with the
//! logical type it points at.  It owns nothing: the target process owns the
//! memory, and the tag only directs how the pointee is decoded.  Address 0 is
//! the canonical null and short-circuits every dereference.

use crate::memory::ProcessMemory;
use crate::IoFailure;
use core::marker::PhantomData;
use vstd::prelude::*;

verus! {

/// Marker for a remote null-terminated byte string.
#[derive(Clone, Copy, Debug)]
pub struct CStr;

/// The stride of a value of this type inside the target process, which is
/// unrelated to the local layout of its decoded form.
pub trait RemoteSized {
    spec fn spec_remote_size() -> u64;

    fn remote_size() -> (r: u64)
        ensures
            r == Self::spec_remote_size(),
    ;
}

/// A 64-bit address in the target process, tagged with the logical type of
/// its pointee.
#[derive(Debug)]
pub struct Ptr<T = ()> {
    pub addr: u64,
    pub marker: PhantomData<T>,
}

impl<T> Clone for Ptr<T> {
    fn clone(&self) -> (r: Self)
        ensures
            r.addr == self.addr,
    {
        Ptr { addr: self.addr, marker: PhantomData }
    }
}

impl<T> Copy for Ptr<T> {

}

impl<T> Ptr<T> {
    pub fn new(addr: u64) -> (r: Ptr<T>)
        ensures
            r.addr == addr,
    {
        Ptr { addr, marker: PhantomData }
    }

    pub fn null() -> (r: Ptr<T>)
        ensures
            r.addr == 0,
    {
        Ptr { addr: 0, marker: PhantomData }
    }

    pub fn is_null(&self) -> (r: bool)
        ensures
            r == (self.addr == 0),
    {
        self.addr == 0
    }

    /// Reinterprets the type tag; no remote access.
    pub fn cast<U>(self) -> (r: Ptr<U>)
        ensures
            r.addr == self.addr,
    {
        Ptr { addr: self.addr, marker: PhantomData }
    }

    pub fn byte_offset(self, bytes: u64) -> (r: Ptr<T>)
        requires
            self.addr + bytes <= u64::MAX,
        ensures
            r.addr == self.addr + bytes,
    {
        Ptr { addr: self.addr + bytes, marker: PhantomData }
    }

    /// Like [`Self::byte_offset`], but total: fails instead of leaving the
    /// address space.
    pub fn checked_byte_offset(self, bytes: u64) -> (r: Result<Ptr<T>, IoFailure>)
        ensures
            r is Ok <==> self.addr + bytes <= u64::MAX,
            r matches Ok(p) ==> p.addr == self.addr + bytes,
            r is Err ==> r matches Err(IoFailure::OutOfAddressSpace),
    {
        if bytes <= u64::MAX - self.addr {
            Ok(Ptr { addr: self.addr + bytes, marker: PhantomData })
        } else {
            Err(IoFailure::OutOfAddressSpace)
        }
    }
}

impl<T: RemoteSized> Ptr<T> {
    /// Advances by `count` elements of the pointee's remote stride.
    pub fn offset(self, count: u64) -> (r: Ptr<T>)
        requires
            self.addr + count * T::spec_remote_size() <= u64::MAX,
        ensures
            r.addr == self.addr + count * T::spec_remote_size(),
    {
        Ptr { addr: self.addr + count * T::remote_size(), marker: PhantomData }
    }
}

impl<T> RemoteSized for Ptr<T> {
    open spec fn spec_remote_size() -> u64 {
        8
    }

    fn remote_size() -> u64 {
        8
    }
}

impl<T> Ptr<Ptr<T>> {
    /// Dereferences: reads the pointer stored at this address.  Fails on
    /// null rather than reading address 0.
    pub fn read(self, mem: &ProcessMemory) -> (r: Result<Ptr<T>, IoFailure>)
        ensures
            r is Ok <==> self.addr != 0 && self.addr + 8 <= 0x1_0000_0000_0000_0000
                && mem.mapped_range(self.addr as int, 8),
            r matches Ok(p) ==> p.addr as int == mem.u64_at(self.addr as int),
            self.addr == 0 ==> r matches Err(IoFailure::NullPointer),
            r is Err ==> (r matches Err(IoFailure::NullPointer) || r matches Err(
                IoFailure::Unmapped(_),
            ) || r matches Err(IoFailure::OutOfAddressSpace)),
    {
        if self.addr == 0 {
            return Err(IoFailure::NullPointer);
        }
        match mem.read_u64(self.addr) {
            Ok(v) => Ok(Ptr { addr: v, marker: PhantomData }),
            Err(e) => Err(e),
        }
    }
}

impl Ptr<u32> {
    /// Reads the little-endian 32-bit value stored at this address.
    pub fn read(self, mem: &ProcessMemory) -> (r: Result<u32, IoFailure>)
        ensures
            r is Ok <==> self.addr != 0 && self.addr + 4 <= 0x1_0000_0000_0000_0000
                && mem.mapped_range(self.addr as int, 4),
            r matches Ok(v) ==> v as int == mem.u32_at(self.addr as int),
            self.addr == 0 ==> r matches Err(IoFailure::NullPointer),
            r is Err ==> (r matches Err(IoFailure::NullPointer) || r matches Err(
                IoFailure::Unmapped(_),
            ) || r matches Err(IoFailure::OutOfAddressSpace)),
    {
        if self.addr == 0 {
            return Err(IoFailure::NullPointer);
        }
        mem.read_u32(self.addr)
    }
}

impl Ptr<u64> {
    /// Reads the little-endian 64-bit value stored at this address.
    pub fn read(self, mem: &ProcessMemory) -> (r: Result<u64, IoFailure>)
        ensures
            r is Ok <==> self.addr != 0 && self.addr + 8 <= 0x1_0000_0000_0000_0000
                && mem.mapped_range(self.addr as int, 8),
            r matches Ok(v) ==> v as int == mem.u64_at(self.addr as int),
            self.addr == 0 ==> r matches Err(IoFailure::NullPointer),
            r is Err ==> (r matches Err(IoFailure::NullPointer) || r matches Err(
                IoFailure::Unmapped(_),
            ) || r matches Err(IoFailure::OutOfAddressSpace)),
    {
        if self.addr == 0 {
            return Err(IoFailure::NullPointer);
        }
        mem.read_u64(self.addr)
    }
}

} // verus!
