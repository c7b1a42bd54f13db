//! Fixed-layout descriptions of the runtime's metadata structures.
//!
//! Two mutually exclusive binary layouts describe the same logical concepts:
//! the legacy just-in-time runtime, and the incompatible layout used by
//! ahead-of-time-compiled builds of the same runtime family.  Decoded
//! structures hold only the fields the introspection logic reads; every
//! reader's contract pins each decoded field to the little-endian bytes at a
//! fixed offset of the remote structure.

use crate::memory::ProcessMemory;
use crate::ptr::{CStr, Ptr, RemoteSized};
use crate::IoFailure;
use vstd::prelude::*;

verus! {

/// Which of the two runtime layouts a decoded structure came from.
#[derive(Clone, Copy, Debug, PartialEq, Eq, Structural)]
pub enum Abi {
    /// The just-in-time runtime's layout.
    Legacy,
    /// The ahead-of-time runtime's layout.
    Il2cpp,
}

/// Reads a pointer-sized field that the caller knows is readable.
pub(crate) fn u64_field(mem: &ProcessMemory, base: u64, off: u64) -> (v: u64)
    requires
        base + off + 8 <= 0x1_0000_0000_0000_0000,
        mem.mapped_range(base + off, 8),
    ensures
        v as int == mem.u64_at(base + off),
{
    match mem.read_u64(base + off) {
        Ok(v) => v,
        Err(_) => {
            proof {
                assert(false);
            }
            0
        },
    }
}

/// Reads a 32-bit field that the caller knows is readable.
pub(crate) fn u32_field(mem: &ProcessMemory, base: u64, off: u64) -> (v: u32)
    requires
        base + off + 4 <= 0x1_0000_0000_0000_0000,
        mem.mapped_range(base + off, 4),
    ensures
        v as int == mem.u32_at(base + off),
{
    match mem.read_u32(base + off) {
        Ok(v) => v,
        Err(_) => {
            proof {
                assert(false);
            }
            0
        },
    }
}

/// Reads a 16-bit field that the caller knows is readable.
pub(crate) fn u16_field(mem: &ProcessMemory, base: u64, off: u64) -> (v: u16)
    requires
        base + off + 2 <= 0x1_0000_0000_0000_0000,
        mem.mapped_range(base + off, 2),
    ensures
        v as int == mem.u16_at(base + off),
{
    match mem.read_u16(base + off) {
        Ok(v) => v,
        Err(_) => {
            proof {
                assert(false);
            }
            0
        },
    }
}

/// Reads a byte field that the caller knows is readable.
pub(crate) fn u8_field(mem: &ProcessMemory, base: u64, off: u64) -> (v: u8)
    requires
        base + off + 1 <= 0x1_0000_0000_0000_0000,
        mem.mapped_range(base + off, 1),
    ensures
        v == mem.byte_at(base + off),
{
    match mem.read_u8(base + off) {
        Ok(v) => v,
        Err(_) => {
            proof {
                assert(false);
            }
            0
        },
    }
}

/// A type reference of the runtime: a data pointer, attribute bits, the
/// type's kind tag and flags.
#[derive(Clone, Copy, Debug)]
pub struct MonoType {
    pub data: Ptr<()>,
    pub attrs: u16,
    pub kind: u8,
    pub flags: u8,
}

/// Byte size of a remote type reference.
pub const MONO_TYPE_SIZE: u64 = 16;

impl MonoType {
    /// Decodes a type reference at `p`.
    pub fn read(mem: &ProcessMemory, p: Ptr<MonoType>) -> (r: Result<MonoType, IoFailure>)
        ensures
            r is Ok <==> p.addr != 0 && p.addr + MONO_TYPE_SIZE <= 0x1_0000_0000_0000_0000
                && mem.mapped_range(p.addr as int, MONO_TYPE_SIZE as int),
            r matches Ok(t) ==> t.data.addr as int == mem.u64_at(p.addr as int) && t.attrs as int
                == mem.u16_at(p.addr + 8) && t.kind == mem.byte_at(p.addr + 10) && t.flags
                == mem.byte_at(p.addr + 11),
            p.addr == 0 ==> r matches Err(IoFailure::NullPointer),
            r is Err ==> (r matches Err(IoFailure::NullPointer) || r matches Err(
                IoFailure::Unmapped(_),
            ) || r matches Err(IoFailure::OutOfAddressSpace)),
    {
        if p.addr == 0 {
            return Err(IoFailure::NullPointer);
        }
        match mem.read_bytes(p.addr, 16) {
            Ok(_) => {},
            Err(e) => {
                return Err(e);
            },
        }
        Ok(
            MonoType {
                data: Ptr::new(u64_field(mem, p.addr, 0)),
                attrs: u16_field(mem, p.addr, 8),
                kind: u8_field(mem, p.addr, 10),
                flags: u8_field(mem, p.addr, 11),
            },
        )
    }
}

/// A metadata stream header: where a stream lives and how long it is.
#[derive(Clone, Copy, Debug)]
pub struct MonoStreamHeader {
    pub data: Ptr<()>,
    pub size: u32,
}

/// Byte size of a remote stream header.
pub const MONO_STREAM_HEADER_SIZE: u64 = 16;

impl MonoStreamHeader {
    /// Decodes a stream header at `p`.
    pub fn read(mem: &ProcessMemory, p: Ptr<MonoStreamHeader>) -> (r: Result<
        MonoStreamHeader,
        IoFailure,
    >)
        ensures
            r is Ok <==> p.addr != 0 && p.addr + MONO_STREAM_HEADER_SIZE
                <= 0x1_0000_0000_0000_0000 && mem.mapped_range(
                p.addr as int,
                MONO_STREAM_HEADER_SIZE as int,
            ),
            r matches Ok(h) ==> h.data.addr as int == mem.u64_at(p.addr as int) && h.size as int
                == mem.u32_at(p.addr + 8),
            p.addr == 0 ==> r matches Err(IoFailure::NullPointer),
            r is Err ==> (r matches Err(IoFailure::NullPointer) || r matches Err(
                IoFailure::Unmapped(_),
            ) || r matches Err(IoFailure::OutOfAddressSpace)),
    {
        if p.addr == 0 {
            return Err(IoFailure::NullPointer);
        }
        match mem.read_bytes(p.addr, 16) {
            Ok(_) => {},
            Err(e) => {
                return Err(e);
            },
        }
        Ok(
            MonoStreamHeader {
                data: Ptr::new(u64_field(mem, p.addr, 0)),
                size: u32_field(mem, p.addr, 8),
            },
        )
    }
}

/// A metadata table descriptor: its base and the size of one row.
#[derive(Clone, Copy, Debug)]
pub struct MonoTableInfo {
    pub base: Ptr<()>,
    pub row_size: u8,
}

/// Byte size of a remote table descriptor.
pub const MONO_TABLE_INFO_SIZE: u64 = 16;

/// Number of metadata tables embedded in a legacy image.
pub const MONO_TABLE_NUM: u64 = 56;

impl MonoTableInfo {
    /// Decodes a table descriptor at `p`.
    pub fn read(mem: &ProcessMemory, p: Ptr<MonoTableInfo>) -> (r: Result<MonoTableInfo, IoFailure>)
        ensures
            r is Ok <==> p.addr != 0 && p.addr + MONO_TABLE_INFO_SIZE <= 0x1_0000_0000_0000_0000
                && mem.mapped_range(p.addr as int, MONO_TABLE_INFO_SIZE as int),
            r matches Ok(t) ==> t.base.addr as int == mem.u64_at(p.addr as int) && t.row_size
                == mem.byte_at(p.addr + 11),
            p.addr == 0 ==> r matches Err(IoFailure::NullPointer),
            r is Err ==> (r matches Err(IoFailure::NullPointer) || r matches Err(
                IoFailure::Unmapped(_),
            ) || r matches Err(IoFailure::OutOfAddressSpace)),
    {
        if p.addr == 0 {
            return Err(IoFailure::NullPointer);
        }
        match mem.read_bytes(p.addr, 16) {
            Ok(_) => {},
            Err(e) => {
                return Err(e);
            },
        }
        Ok(
            MonoTableInfo {
                base: Ptr::new(u64_field(mem, p.addr, 0)),
                row_size: u8_field(mem, p.addr, 11),
            },
        )
    }
}

/// The property bag hanging off a class: a single list head pointer.
#[derive(Clone, Copy, Debug)]
pub struct MonoPropertyBag {
    pub head: Ptr<()>,
}

/// Run-time information of a legacy class: the number of domain vtables,
/// followed in memory by the per-domain vtable pointers.
#[derive(Clone, Copy, Debug)]
pub struct MonoClassRuntimeInfo {
    pub max_domain: u16,
}

/// Byte size of the remote run-time information header; the domain vtable
/// pointer array starts right after it.
pub const MONO_CLASS_RUNTIME_INFO_SIZE: u64 = 8;

impl MonoClassRuntimeInfo {
    /// Decodes the run-time information header at `p`.
    pub fn read(mem: &ProcessMemory, p: Ptr<MonoClassRuntimeInfo>) -> (r: Result<
        MonoClassRuntimeInfo,
        IoFailure,
    >)
        ensures
            r is Ok <==> p.addr != 0 && p.addr + MONO_CLASS_RUNTIME_INFO_SIZE
                <= 0x1_0000_0000_0000_0000 && mem.mapped_range(
                p.addr as int,
                MONO_CLASS_RUNTIME_INFO_SIZE as int,
            ),
            r matches Ok(ri) ==> ri.max_domain as int == mem.u16_at(p.addr as int),
            p.addr == 0 ==> r matches Err(IoFailure::NullPointer),
            r is Err ==> (r matches Err(IoFailure::NullPointer) || r matches Err(
                IoFailure::Unmapped(_),
            ) || r matches Err(IoFailure::OutOfAddressSpace)),
    {
        if p.addr == 0 {
            return Err(IoFailure::NullPointer);
        }
        match mem.read_bytes(p.addr, 8) {
            Ok(_) => {},
            Err(e) => {
                return Err(e);
            },
        }
        Ok(MonoClassRuntimeInfo { max_domain: u16_field(mem, p.addr, 0) })
    }
}

/// A legacy virtual table header.  The static-field storage pointer array
/// trails the header.
#[derive(Clone, Copy, Debug)]
pub struct MonoVTable {
    pub klass: Ptr<MonoClass>,
    pub domain: Ptr<()>,
}

/// Byte size of the remote vtable header; the vtable slots trail it.
pub const MONO_VTABLE_SIZE: u64 = 64;

impl MonoVTable {
    /// Decodes a vtable header at `p`.
    pub fn read(mem: &ProcessMemory, p: Ptr<MonoVTable>) -> (r: Result<MonoVTable, IoFailure>)
        ensures
            r is Ok <==> p.addr != 0 && p.addr + MONO_VTABLE_SIZE <= 0x1_0000_0000_0000_0000
                && mem.mapped_range(p.addr as int, MONO_VTABLE_SIZE as int),
            r matches Ok(v) ==> v.klass.addr as int == mem.u64_at(p.addr as int) && v.domain.addr
                as int == mem.u64_at(p.addr + 16),
            p.addr == 0 ==> r matches Err(IoFailure::NullPointer),
            r is Err ==> (r matches Err(IoFailure::NullPointer) || r matches Err(
                IoFailure::Unmapped(_),
            ) || r matches Err(IoFailure::OutOfAddressSpace)),
    {
        if p.addr == 0 {
            return Err(IoFailure::NullPointer);
        }
        match mem.read_bytes(p.addr, 64) {
            Ok(_) => {},
            Err(e) => {
                return Err(e);
            },
        }
        Ok(
            MonoVTable {
                klass: Ptr::new(u64_field(mem, p.addr, 0)),
                domain: Ptr::new(u64_field(mem, p.addr, 16)),
            },
        )
    }
}

/// An assembly's identity: its name strings and version numbers.
#[derive(Clone, Copy, Debug)]
pub struct MonoAssemblyName {
    pub name: Ptr<CStr>,
    pub culture: Ptr<CStr>,
    pub major: u32,
    pub minor: u32,
    pub build: u32,
    pub revision: u32,
}

/// Byte size of the remote assembly-name structure, per layout.
pub open spec fn assembly_name_size(abi: Abi) -> int {
    match abi {
        Abi::Legacy => 80,
        Abi::Il2cpp => 64,
    }
}

impl MonoAssemblyName {
    /// Decodes the assembly name embedded at `base` of an assembly laid out
    /// per `abi`.
    pub fn read_at(mem: &ProcessMemory, base: u64, abi: Abi) -> (r: Result<
        MonoAssemblyName,
        IoFailure,
    >)
        ensures
            r is Ok <==> base != 0 && base + assembly_name_size(abi) <= 0x1_0000_0000_0000_0000
                && mem.mapped_range(base as int, assembly_name_size(abi)),
            r matches Ok(a) ==> a.name.addr as int == mem.u64_at(base as int) && a.culture.addr
                as int == mem.u64_at(base + 8) && (match abi {
                Abi::Legacy => a.major as int == mem.u16_at(base + 64) && a.minor as int
                    == mem.u16_at(base + 66) && a.build as int == mem.u16_at(base + 68)
                    && a.revision as int == mem.u16_at(base + 70),
                Abi::Il2cpp => a.major as int == mem.u32_at(base + 36) && a.minor as int
                    == mem.u32_at(base + 40) && a.build as int == mem.u32_at(base + 44)
                    && a.revision as int == mem.u32_at(base + 48),
            }),
            base == 0 ==> r matches Err(IoFailure::NullPointer),
            r is Err ==> (r matches Err(IoFailure::NullPointer) || r matches Err(
                IoFailure::Unmapped(_),
            ) || r matches Err(IoFailure::OutOfAddressSpace)),
    {
        if base == 0 {
            return Err(IoFailure::NullPointer);
        }
        match abi {
            Abi::Legacy => {
                match mem.read_bytes(base, 80) {
                    Ok(_) => {},
                    Err(e) => {
                        return Err(e);
                    },
                }
                Ok(
                    MonoAssemblyName {
                        name: Ptr::new(u64_field(mem, base, 0)),
                        culture: Ptr::new(u64_field(mem, base, 8)),
                        major: u16_field(mem, base, 64) as u32,
                        minor: u16_field(mem, base, 66) as u32,
                        build: u16_field(mem, base, 68) as u32,
                        revision: u16_field(mem, base, 70) as u32,
                    },
                )
            },
            Abi::Il2cpp => {
                match mem.read_bytes(base, 64) {
                    Ok(_) => {},
                    Err(e) => {
                        return Err(e);
                    },
                }
                Ok(
                    MonoAssemblyName {
                        name: Ptr::new(u64_field(mem, base, 0)),
                        culture: Ptr::new(u64_field(mem, base, 8)),
                        major: u32_field(mem, base, 36),
                        minor: u32_field(mem, base, 40),
                        build: u32_field(mem, base, 44),
                        revision: u32_field(mem, base, 48),
                    },
                )
            },
        }
    }
}

/// A loaded assembly: its identity and the image it owns.
#[derive(Clone, Copy, Debug)]
pub struct MonoAssembly {
    pub aname: MonoAssemblyName,
    pub image: Ptr<MonoImage>,
}

/// Byte offset of the embedded assembly name, per layout.
pub open spec fn assembly_aname_off(abi: Abi) -> int {
    match abi {
        Abi::Legacy => 16,
        Abi::Il2cpp => 24,
    }
}

/// Byte offset of the image pointer, per layout.
pub open spec fn assembly_image_off(abi: Abi) -> int {
    match abi {
        Abi::Legacy => 96,
        Abi::Il2cpp => 0,
    }
}

impl MonoAssembly {
    /// Decodes an assembly at `p` laid out per `abi`.
    pub fn read(mem: &ProcessMemory, p: Ptr<MonoAssembly>, abi: Abi) -> (r: Result<
        MonoAssembly,
        IoFailure,
    >)
        ensures
            r is Ok <==> p.addr != 0 && p.addr + assembly_aname_off(abi) + assembly_name_size(abi)
                <= 0x1_0000_0000_0000_0000 && mem.mapped_range(
                p.addr + assembly_aname_off(abi),
                assembly_name_size(abi),
            ) && p.addr + assembly_image_off(abi) + 8 <= 0x1_0000_0000_0000_0000
                && mem.mapped_range(p.addr + assembly_image_off(abi), 8),
            r matches Ok(a) ==> a.image.addr as int == mem.u64_at(
                p.addr + assembly_image_off(abi),
            ) && a.aname.name.addr as int == mem.u64_at(p.addr + assembly_aname_off(abi)),
            p.addr == 0 ==> r matches Err(IoFailure::NullPointer),
            r is Err ==> (r matches Err(IoFailure::NullPointer) || r matches Err(
                IoFailure::Unmapped(_),
            ) || r matches Err(IoFailure::OutOfAddressSpace)),
    {
        if p.addr == 0 {
            return Err(IoFailure::NullPointer);
        }
        let (aname_off, image_off): (u64, u64) = match abi {
            Abi::Legacy => (16, 96),
            Abi::Il2cpp => (24, 0),
        };
        let aname_base = match p.addr.checked_add(aname_off) {
            Some(x) => x,
            None => {
                return Err(IoFailure::OutOfAddressSpace);
            },
        };
        let aname = match MonoAssemblyName::read_at(mem, aname_base, abi) {
            Ok(a) => a,
            Err(e) => {
                return Err(e);
            },
        };
        let image = match mem.read_u64(match p.addr.checked_add(image_off) {
            Some(x) => x,
            None => {
                return Err(IoFailure::OutOfAddressSpace);
            },
        }) {
            Ok(v) => v,
            Err(e) => {
                return Err(e);
            },
        };
        Ok(MonoAssembly { aname, image: Ptr::new(image) })
    }
}

/// The embedded hash table a legacy image keeps its class cache in: a
/// bucket count, an entry count, and the bucket-head array.
#[derive(Clone, Copy, Debug)]
pub struct MonoInternalHashTable {
    pub size: u32,
    pub num_entries: u32,
    pub table: Ptr<Ptr<MonoClassDef>>,
}

/// Byte size of the remote internal-hash-table header.
pub const MONO_INTERNAL_HASH_TABLE_SIZE: u64 = 40;

impl MonoInternalHashTable {
    /// Decodes the internal hash table embedded at `base`.
    pub fn read_at(mem: &ProcessMemory, base: u64) -> (r: Result<MonoInternalHashTable, IoFailure>)
        ensures
            r is Ok <==> base != 0 && base + MONO_INTERNAL_HASH_TABLE_SIZE
                <= 0x1_0000_0000_0000_0000 && mem.mapped_range(
                base as int,
                MONO_INTERNAL_HASH_TABLE_SIZE as int,
            ),
            r matches Ok(t) ==> t.size as int == mem.u32_at(base + 24) && t.num_entries as int
                == mem.u32_at(base + 28) && t.table.addr as int == mem.u64_at(base + 32),
            base == 0 ==> r matches Err(IoFailure::NullPointer),
            r is Err ==> (r matches Err(IoFailure::NullPointer) || r matches Err(
                IoFailure::Unmapped(_),
            ) || r matches Err(IoFailure::OutOfAddressSpace)),
    {
        if base == 0 {
            return Err(IoFailure::NullPointer);
        }
        match mem.read_bytes(base, 40) {
            Ok(_) => {},
            Err(e) => {
                return Err(e);
            },
        }
        Ok(
            MonoInternalHashTable {
                size: u32_field(mem, base, 24),
                num_entries: u32_field(mem, base, 28),
                table: Ptr::new(u64_field(mem, base, 32)),
            },
        )
    }
}

/// One field descriptor of a class's field table.
#[derive(Clone, Copy, Debug)]
pub struct MonoClassField {
    pub field_type: Ptr<MonoType>,
    pub name: Ptr<CStr>,
    pub parent: Ptr<()>,
    pub offset: u32,
}

/// Byte stride of a remote field descriptor; the same under both layouts.
pub const MONO_CLASS_FIELD_SIZE: u64 = 32;

impl RemoteSized for MonoClassField {
    open spec fn spec_remote_size() -> u64 {
        32
    }

    fn remote_size() -> u64 {
        32
    }
}

/// Byte offset of the name pointer inside a remote field descriptor.
pub open spec fn field_name_off(abi: Abi) -> int {
    match abi {
        Abi::Legacy => 8,
        Abi::Il2cpp => 0,
    }
}

/// The address of the `index`-th descriptor of a field table at `base`.
pub open spec fn field_entry_addr(base: int, index: int) -> int {
    base + 32 * index
}

/// The whole field descriptor at `a` is readable.
pub open spec fn field_entry_readable(mem: ProcessMemory, a: int) -> bool {
    &&& a + 32 <= 0x1_0000_0000_0000_0000
    &&& mem.mapped_range(a, 32)
}

/// The name-string pointer stored in the field descriptor at `a`.
pub open spec fn field_name_ptr(mem: ProcessMemory, a: int, abi: Abi) -> int {
    mem.u64_at(a + field_name_off(abi))
}

/// The byte offset value stored in the field descriptor at `a`.
pub open spec fn field_offset_val(mem: ProcessMemory, a: int) -> int {
    mem.u32_at(a + 24)
}

impl MonoClassField {
    /// Decodes the `index`-th descriptor of the field table at `base`,
    /// laid out per `abi`.
    pub fn read_nth(mem: &ProcessMemory, base: Ptr<MonoClassField>, index: u32, abi: Abi) -> (r:
        Result<MonoClassField, IoFailure>)
        ensures
            r is Ok <==> base.addr != 0 && field_entry_readable(
                *mem,
                field_entry_addr(base.addr as int, index as int),
            ),
            r matches Ok(f) ==> {
                let a = field_entry_addr(base.addr as int, index as int);
                &&& f.name.addr as int == field_name_ptr(*mem, a, abi)
                &&& f.offset as int == field_offset_val(*mem, a)
                &&& f.parent.addr as int == mem.u64_at(a + 16)
                &&& f.field_type.addr as int == mem.u64_at(
                    a + (match abi {
                        Abi::Legacy => 0int,
                        Abi::Il2cpp => 8int,
                    }),
                )
            },
            base.addr == 0 ==> r matches Err(IoFailure::NullPointer),
            r is Err ==> (r matches Err(IoFailure::NullPointer) || r matches Err(
                IoFailure::Unmapped(_),
            ) || r matches Err(IoFailure::OutOfAddressSpace)),
    {
        if base.addr == 0 {
            return Err(IoFailure::NullPointer);
        }
        let a = match base.addr.checked_add(32 * (index as u64)) {
            Some(x) => x,
            None => {
                return Err(IoFailure::OutOfAddressSpace);
            },
        };
        match mem.read_bytes(a, 32) {
            Ok(_) => {},
            Err(e) => {
                return Err(e);
            },
        }
        let (type_off, name_off): (u64, u64) = match abi {
            Abi::Legacy => (0, 8),
            Abi::Il2cpp => (8, 0),
        };
        Ok(
            MonoClassField {
                field_type: Ptr::new(u64_field(mem, a, type_off)),
                name: Ptr::new(u64_field(mem, a, name_off)),
                parent: Ptr::new(u64_field(mem, a, 16)),
                offset: u32_field(mem, a, 24),
            },
        )
    }
}

/// A decoded class: its identity, its field table, its instance size, and
/// how to reach its static-field storage.  The `abi` tag records which
/// layout it was decoded from and which static-storage scheme applies.
#[derive(Clone, Copy, Debug)]
pub struct MonoClass {
    pub abi: Abi,
    pub name: Ptr<CStr>,
    pub name_space: Ptr<CStr>,
    pub instance_size: u32,
    pub fields: Ptr<MonoClassField>,
    pub field_count: u32,
    /// Legacy layout only: the run-time info leading to per-domain vtables.
    pub runtime_info: Ptr<MonoClassRuntimeInfo>,
    /// Legacy layout only: the number of vtable slots, which indexes the
    /// static-field storage behind the vtable.
    pub vtable_size: u32,
    /// Ahead-of-time layout only: the direct static-field storage pointer.
    pub static_fields: Ptr<()>,
}

/// Byte size of a remote legacy class.
pub const LEGACY_CLASS_SIZE: u64 = 240;

/// Byte size of a remote legacy class definition (a class plus its
/// definition trailer).
pub const LEGACY_CLASS_DEF_SIZE: u64 = 272;

/// Byte size of a remote ahead-of-time class.
pub const IL2CPP_CLASS_SIZE: u64 = 312;

/// A legacy class definition: the class itself, its field count, and the
/// intrusive pointer to the next class of the same class-cache bucket.
#[derive(Clone, Copy, Debug)]
pub struct MonoClassDef {
    pub klass: MonoClass,
    pub field_count: u32,
    pub next_class_cache: Ptr<MonoClass>,
}

/// The whole legacy class definition at `p` is readable.
pub open spec fn class_def_readable(mem: ProcessMemory, p: int) -> bool {
    &&& p != 0
    &&& p + LEGACY_CLASS_DEF_SIZE <= 0x1_0000_0000_0000_0000
    &&& mem.mapped_range(p, LEGACY_CLASS_DEF_SIZE as int)
}

/// `c` holds exactly the class-level fields of the legacy class at `p`.
pub open spec fn legacy_class_matches(mem: ProcessMemory, p: int, c: MonoClass) -> bool {
    &&& c.abi == Abi::Legacy
    &&& c.name.addr as int == mem.u64_at(p + 72)
    &&& c.name_space.addr as int == mem.u64_at(p + 80)
    &&& c.instance_size as int == mem.u32_at(p + 28)
    &&& c.fields.addr as int == mem.u64_at(p + 152)
    &&& c.field_count as int == mem.u32_at(p + 256)
    &&& c.runtime_info.addr as int == mem.u64_at(p + 208)
    &&& c.vtable_size as int == mem.u32_at(p + 92)
    &&& c.static_fields.addr == 0
}

/// `cd` holds exactly the fields of the legacy class definition at `p`.
pub open spec fn class_def_matches(mem: ProcessMemory, p: int, cd: MonoClassDef) -> bool {
    &&& legacy_class_matches(mem, p, cd.klass)
    &&& cd.field_count as int == mem.u32_at(p + 256)
    &&& cd.next_class_cache.addr as int == mem.u64_at(p + 264)
}

/// The whole ahead-of-time class at `p` is readable.
pub open spec fn class_aot_readable(mem: ProcessMemory, p: int) -> bool {
    &&& p != 0
    &&& p + IL2CPP_CLASS_SIZE <= 0x1_0000_0000_0000_0000
    &&& mem.mapped_range(p, IL2CPP_CLASS_SIZE as int)
}

/// `c` holds exactly the fields of the ahead-of-time class at `p`.
pub open spec fn class_aot_matches(mem: ProcessMemory, p: int, c: MonoClass) -> bool {
    &&& c.abi == Abi::Il2cpp
    &&& c.name.addr as int == mem.u64_at(p + 16)
    &&& c.name_space.addr as int == mem.u64_at(p + 24)
    &&& c.fields.addr as int == mem.u64_at(p + 128)
    &&& c.static_fields.addr as int == mem.u64_at(p + 184)
    &&& c.instance_size as int == mem.u32_at(p + 248)
    &&& c.field_count as int == mem.u16_at(p + 288)
    &&& c.runtime_info.addr == 0
    &&& c.vtable_size == 0
}

impl MonoClassDef {
    /// Decodes the legacy class definition at `p`.
    pub fn read(mem: &ProcessMemory, p: Ptr<MonoClassDef>) -> (r: Result<MonoClassDef, IoFailure>)
        ensures
            r is Ok <==> class_def_readable(*mem, p.addr as int),
            r matches Ok(cd) ==> class_def_matches(*mem, p.addr as int, cd),
            p.addr == 0 ==> r matches Err(IoFailure::NullPointer),
            r is Err ==> (r matches Err(IoFailure::NullPointer) || r matches Err(
                IoFailure::Unmapped(_),
            ) || r matches Err(IoFailure::OutOfAddressSpace)),
    {
        if p.addr == 0 {
            return Err(IoFailure::NullPointer);
        }
        match mem.read_bytes(p.addr, 272) {
            Ok(_) => {},
            Err(e) => {
                return Err(e);
            },
        }
        let klass = MonoClass {
            abi: Abi::Legacy,
            name: Ptr::new(u64_field(mem, p.addr, 72)),
            name_space: Ptr::new(u64_field(mem, p.addr, 80)),
            instance_size: u32_field(mem, p.addr, 28),
            fields: Ptr::new(u64_field(mem, p.addr, 152)),
            field_count: u32_field(mem, p.addr, 256),
            runtime_info: Ptr::new(u64_field(mem, p.addr, 208)),
            vtable_size: u32_field(mem, p.addr, 92),
            static_fields: Ptr::null(),
        };
        Ok(
            MonoClassDef {
                klass,
                field_count: u32_field(mem, p.addr, 256),
                next_class_cache: Ptr::new(u64_field(mem, p.addr, 264)),
            },
        )
    }
}

impl MonoClass {
    /// Decodes the ahead-of-time class at `p`.
    pub fn read_aot(mem: &ProcessMemory, p: Ptr<MonoClass>) -> (r: Result<MonoClass, IoFailure>)
        ensures
            r is Ok <==> class_aot_readable(*mem, p.addr as int),
            r matches Ok(c) ==> class_aot_matches(*mem, p.addr as int, c),
            p.addr == 0 ==> r matches Err(IoFailure::NullPointer),
            r is Err ==> (r matches Err(IoFailure::NullPointer) || r matches Err(
                IoFailure::Unmapped(_),
            ) || r matches Err(IoFailure::OutOfAddressSpace)),
    {
        if p.addr == 0 {
            return Err(IoFailure::NullPointer);
        }
        match mem.read_bytes(p.addr, 312) {
            Ok(_) => {},
            Err(e) => {
                return Err(e);
            },
        }
        Ok(
            MonoClass {
                abi: Abi::Il2cpp,
                name: Ptr::new(u64_field(mem, p.addr, 16)),
                name_space: Ptr::new(u64_field(mem, p.addr, 24)),
                instance_size: u32_field(mem, p.addr, 248),
                fields: Ptr::new(u64_field(mem, p.addr, 128)),
                field_count: u16_field(mem, p.addr, 288) as u32,
                runtime_info: Ptr::null(),
                vtable_size: 0,
                static_fields: Ptr::new(u64_field(mem, p.addr, 184)),
            },
        )
    }
}

/// Byte offset of the class cache inside a remote legacy image.
pub const LEGACY_IMAGE_CLASS_CACHE_OFF: u64 = 1216;

/// Byte offset of the type count inside a remote ahead-of-time image.
pub const IL2CPP_IMAGE_TYPE_COUNT_OFF: u64 = 24;

/// Byte offset of the metadata handle inside a remote ahead-of-time image.
pub const IL2CPP_IMAGE_METADATA_HANDLE_OFF: u64 = 40;

/// A loaded module's metadata root, owning its set of classes: either a
/// legacy image with an embedded class-cache hash table, or an
/// ahead-of-time image whose classes live in a flat, contiguously indexed
/// type-definition table.
#[derive(Clone, Copy, Debug)]
pub enum MonoImage {
    Legacy { class_cache: MonoInternalHashTable },
    Il2cpp { type_count: u32, type_defs: Ptr<Ptr<MonoClass>> },
}

/// The metadata-handle value of the ahead-of-time image at `p`: the index
/// offset into the shared type-definition table, or zero where the handle
/// is null or unreadable.
pub open spec fn aot_handle_value(mem: ProcessMemory, p: int) -> int {
    let hp = mem.u64_at(p + 40);
    if hp != 0 && hp + 4 <= 0x1_0000_0000_0000_0000 && mem.mapped_range(hp, 4) {
        mem.u32_at(hp)
    } else {
        0
    }
}

impl MonoImage {
    /// Decodes the class cache of the legacy image at `p`.
    pub fn read_legacy(mem: &ProcessMemory, p: Ptr<MonoImage>) -> (r: Result<MonoImage, IoFailure>)
        ensures
            r is Ok <==> p.addr != 0 && p.addr + LEGACY_IMAGE_CLASS_CACHE_OFF
                + MONO_INTERNAL_HASH_TABLE_SIZE <= 0x1_0000_0000_0000_0000 && mem.mapped_range(
                p.addr + LEGACY_IMAGE_CLASS_CACHE_OFF,
                MONO_INTERNAL_HASH_TABLE_SIZE as int,
            ),
            r matches Ok(img) ==> img matches MonoImage::Legacy { class_cache } && class_cache.size
                as int == mem.u32_at(p.addr + 1240) && class_cache.num_entries as int == mem.u32_at(
                p.addr + 1244,
            ) && class_cache.table.addr as int == mem.u64_at(p.addr + 1248),
            p.addr == 0 ==> r matches Err(IoFailure::NullPointer),
            r is Err ==> (r matches Err(IoFailure::NullPointer) || r matches Err(
                IoFailure::Unmapped(_),
            ) || r matches Err(IoFailure::OutOfAddressSpace)),
    {
        if p.addr == 0 {
            return Err(IoFailure::NullPointer);
        }
        let base = match p.addr.checked_add(1216) {
            Some(x) => x,
            None => {
                return Err(IoFailure::OutOfAddressSpace);
            },
        };
        match MonoInternalHashTable::read_at(mem, base) {
            Ok(t) => Ok(MonoImage::Legacy { class_cache: t }),
            Err(e) => Err(e),
        }
    }

    /// Decodes the ahead-of-time image at `p`.  `table_base` is the start
    /// of the shared type-definition table, located by the host through
    /// version-specific signature data; the image's metadata handle offsets
    /// it to this image's first entry.  A null or unreadable handle is
    /// treated as offset zero.
    pub fn read_aot(mem: &ProcessMemory, p: Ptr<MonoImage>, table_base: Ptr<Ptr<MonoClass>>) -> (r:
        Result<MonoImage, IoFailure>)
        ensures
            r is Ok <==> p.addr != 0 && p.addr + 48 <= 0x1_0000_0000_0000_0000
                && mem.mapped_range(p.addr as int, 48) && table_base.addr + 8 * aot_handle_value(
                *mem,
                p.addr as int,
            ) <= u64::MAX,
            r matches Ok(img) ==> img matches MonoImage::Il2cpp { type_count, type_defs }
                && type_count as int == mem.u32_at(p.addr + 24) && type_defs.addr as int
                == table_base.addr + 8 * aot_handle_value(*mem, p.addr as int),
            p.addr == 0 ==> r matches Err(IoFailure::NullPointer),
            r is Err ==> (r matches Err(IoFailure::NullPointer) || r matches Err(
                IoFailure::Unmapped(_),
            ) || r matches Err(IoFailure::OutOfAddressSpace)),
    {
        if p.addr == 0 {
            return Err(IoFailure::NullPointer);
        }
        match mem.read_bytes(p.addr, 48) {
            Ok(_) => {},
            Err(e) => {
                return Err(e);
            },
        }
        let type_count = u32_field(mem, p.addr, 24);
        let handle_ptr = u64_field(mem, p.addr, 40);
        let handle: u32 = match Ptr::<u32>::new(handle_ptr).read(mem) {
            Ok(v) => v,
            Err(_) => 0,
        };
        let type_defs = match table_base.addr.checked_add(8 * (handle as u64)) {
            Some(x) => x,
            None => {
                return Err(IoFailure::OutOfAddressSpace);
            },
        };
        Ok(MonoImage::Il2cpp { type_count, type_defs: Ptr::new(type_defs) })
    }
}

} // verus!
