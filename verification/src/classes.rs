//! Class enumeration, field lookup, singleton resolution, and instance
//! snapshots — the abstract capability contract both runtime layouts
//! expose.
//!
//! Enumeration walks the legacy image's class-cache hash table, or the
//! ahead-of-time image's flat type-definition table.  Field lookup is a
//! linear scan of the class's field table comparing decoded name strings;
//! the first match in table order wins.  Singleton resolution follows a
//! static field to the single live instance pointer of a class.

use crate::cstr::{bytes_eq, cstr_content, first_nul_at, scan_margin, STR_CAP};
use crate::glib::{
    bucket_chains, chain_cons, lemma_buckets_nodes_mapped, walk_buckets, CHAIN_CAP,
};
use crate::memory::ProcessMemory;
use crate::metadata::{
    class_aot_matches, class_aot_readable, class_def_readable, field_entry_addr,
    field_entry_readable, field_name_ptr, field_offset_val, legacy_class_matches, Abi, MonoClass,
    MonoClassDef, MonoClassField, MonoImage, LEGACY_CLASS_DEF_SIZE,
};
use crate::ptr::Ptr;
use crate::{DecodeFailure, IoFailure, LookupFailure};
use vstd::prelude::*;

verus! {

/// Cap on one instance snapshot; a declared instance size above it is a
/// model mismatch, not a transient runtime state.
pub const INSTANCE_BUF_CAP: usize = 4096;

/// A string scan at `a` is certain to succeed: a terminator exists within
/// the cap and a whole chunk margin past it is mapped.
pub open spec fn scan_guaranteed(mem: ProcessMemory, a: int) -> bool {
    exists|n: int|
        0 <= n < STR_CAP && #[trigger] first_nul_at(mem, a, n) && a != 0 && a + n
            < 0x1_0000_0000_0000_0000 && mem.mapped_range(a, scan_margin(n))
}

/// Field `i` of `cls`'s field table is readable and its name string decodes
/// to exactly `s`.
pub open spec fn field_name_is(mem: ProcessMemory, cls: MonoClass, i: int, s: Seq<u8>) -> bool {
    let a = field_entry_addr(cls.fields.addr as int, i);
    &&& cls.fields.addr != 0
    &&& field_entry_readable(mem, a)
    &&& cstr_content(mem, field_name_ptr(mem, a, cls.abi), s)
}

/// Every field descriptor of `cls` is readable and every field name is
/// certain to scan: on such a class a lookup cannot fail with a read error.
pub open spec fn field_table_scannable(mem: ProcessMemory, cls: MonoClass) -> bool {
    &&& cls.fields.addr != 0
    &&& forall|i: int|
        0 <= i < cls.field_count ==> field_entry_readable(
            mem,
            #[trigger] field_entry_addr(cls.fields.addr as int, i),
        ) && scan_guaranteed(
            mem,
            field_name_ptr(mem, field_entry_addr(cls.fields.addr as int, i), cls.abi),
        )
}

/// Where the class's static fields live: behind the run-time info's
/// per-domain vtable under the legacy layout, or directly on the class
/// under the ahead-of-time layout.
pub open spec fn static_base(mem: ProcessMemory, cls: MonoClass) -> int {
    match cls.abi {
        Abi::Legacy => mem.u64_at(
            mem.u64_at(cls.runtime_info.addr + 8) + 64 + 8 * cls.vtable_size,
        ),
        Abi::Il2cpp => cls.static_fields.addr as int,
    }
}

/// Byte offset of the field-table pointer inside a remote class.
pub open spec fn class_fields_off(abi: Abi) -> int {
    match abi {
        Abi::Legacy => 152,
        Abi::Il2cpp => 128,
    }
}

/// The field-table base address stored in the remote class at `p`.
pub open spec fn class_fields_base(mem: ProcessMemory, p: int, abi: Abi) -> int {
    mem.u64_at(p + class_fields_off(abi))
}

/// The field count stored in the remote class at `p`.
pub open spec fn class_field_count(mem: ProcessMemory, p: int, abi: Abi) -> int {
    match abi {
        Abi::Legacy => mem.u32_at(p + 256),
        Abi::Il2cpp => mem.u16_at(p + 288),
    }
}

/// Every field descriptor of the remote class at `p` is readable and every
/// field name is certain to scan.
pub open spec fn class_table_scannable(mem: ProcessMemory, p: int, abi: Abi) -> bool {
    let fb = class_fields_base(mem, p, abi);
    &&& fb != 0
    &&& forall|i: int|
        0 <= i < class_field_count(mem, p, abi) ==> field_entry_readable(
            mem,
            #[trigger] field_entry_addr(fb, i),
        ) && scan_guaranteed(mem, field_name_ptr(mem, field_entry_addr(fb, i), abi))
}

/// Entry `i` of the remote class's field table carries the name `s`.
pub open spec fn class_entry_field_named(
    mem: ProcessMemory,
    p: int,
    abi: Abi,
    i: int,
    s: Seq<u8>,
) -> bool {
    let fb = class_fields_base(mem, p, abi);
    &&& fb != 0
    &&& field_entry_readable(mem, field_entry_addr(fb, i))
    &&& cstr_content(mem, field_name_ptr(mem, field_entry_addr(fb, i), abi), s)
}

/// The first index of the class's field table whose name string decodes
/// exactly to `s`.
pub open spec fn first_match_index(mem: ProcessMemory, cls: MonoClass, s: Seq<u8>) -> int {
    choose|i: int|
        0 <= i < cls.field_count && #[trigger] field_name_is(mem, cls, i, s) && forall|j: int|
            0 <= j < i ==> !field_name_is(mem, cls, j, s)
}

/// Where any entry of the field table carries the name, a first matching
/// entry exists, and [`first_match_index`] denotes it.
pub proof fn lemma_first_match_exists(mem: ProcessMemory, cls: MonoClass, s: Seq<u8>, i: int)
    requires
        0 <= i < cls.field_count,
        field_name_is(mem, cls, i, s),
    ensures
        0 <= first_match_index(mem, cls, s) < cls.field_count,
        field_name_is(mem, cls, first_match_index(mem, cls, s), s),
        forall|j: int| 0 <= j < first_match_index(mem, cls, s) ==> !field_name_is(mem, cls, j, s),
    decreases i,
{
    if exists|j: int| 0 <= j < i && #[trigger] field_name_is(mem, cls, j, s) {
        let j = choose|j: int| 0 <= j < i && #[trigger] field_name_is(mem, cls, j, s);
        lemma_first_match_exists(mem, cls, s, j);
    } else {
        assert(0 <= i < cls.field_count && #[trigger] field_name_is(mem, cls, i, s) && forall|
            j: int,
        | 0 <= j < i ==> !field_name_is(mem, cls, j, s));
    }
}

/// The static-storage slot a singleton lookup under this name lands on:
/// the static base plus the first matching entry's stored offset.
pub open spec fn singleton_slot(mem: ProcessMemory, cls: MonoClass, s: Seq<u8>) -> int {
    static_base(mem, cls) + field_offset_val(
        mem,
        field_entry_addr(cls.fields.addr as int, first_match_index(mem, cls, s)),
    )
}

/// The pointer chase to the class's static storage is readable end to
/// end; trivial under the ahead-of-time layout, whose base is stored
/// directly on the class.
pub open spec fn static_chase_readable(mem: ProcessMemory, cls: MonoClass) -> bool {
    match cls.abi {
        Abi::Legacy => cls.runtime_info.addr != 0 && cls.runtime_info.addr + 16
            <= 0x1_0000_0000_0000_0000 && mem.mapped_range(cls.runtime_info.addr + 8, 8) && {
            let vt = mem.u64_at(cls.runtime_info.addr + 8);
            vt != 0 && vt + 64 + 8 * cls.vtable_size + 8 <= 0x1_0000_0000_0000_0000
                && mem.mapped_range(vt + 64 + 8 * cls.vtable_size, 8)
        },
        Abi::Il2cpp => true,
    }
}

/// A singleton lookup under this name is certain to settle on the stored
/// pointer: the field table is scannable, some entry carries the name, the
/// static chase is readable, and the slot it lands on is a readable
/// non-null address.
pub open spec fn singleton_resolvable(mem: ProcessMemory, cls: MonoClass, s: Seq<u8>) -> bool {
    &&& field_table_scannable(mem, cls)
    &&& exists|i: int| 0 <= i < cls.field_count && #[trigger] field_name_is(mem, cls, i, s)
    &&& static_chase_readable(mem, cls)
    &&& singleton_slot(mem, cls, s) != 0
    &&& singleton_slot(mem, cls, s) + 8 <= 0x1_0000_0000_0000_0000
    &&& mem.mapped_range(singleton_slot(mem, cls, s), 8)
}

/// The addresses of the non-null entries of the flat type-definition table
/// at `table`, entries `i ..= n - 1`, each pointing at a readable class.
pub open spec fn aot_class_addrs(mem: ProcessMemory, table: u64, i: int, n: int) -> Result<
    Seq<u64>,
    (),
>
    decreases n - i,
{
    if i >= n {
        Ok(Seq::empty())
    } else {
        let ea = table + 8 * i;
        if !(ea + 8 <= 0x1_0000_0000_0000_0000 && ea != 0 && mem.mapped_range(ea, 8)) {
            Err(())
        } else {
            let cp = mem.u64_at(ea) as u64;
            if cp == 0 {
                aot_class_addrs(mem, table, i + 1, n)
            } else if !class_aot_readable(mem, cp as int) {
                Err(())
            } else {
                chain_cons(cp, aot_class_addrs(mem, table, i + 1, n))
            }
        }
    }
}

impl MonoImage {
    /// Enumerates the classes the image owns, in the runtime's storage
    /// order: bucket-index order with chain order preserved for the legacy
    /// class cache, table order with null entries skipped for the
    /// ahead-of-time type-definition table.  Any mid-walk read failure
    /// discards the whole enumeration.
    #[verifier::loop_isolation(false)]
    pub fn classes(&self, mem: &ProcessMemory) -> (r: Result<Vec<MonoClass>, IoFailure>)
        ensures
            self matches MonoImage::Legacy { class_cache } ==> {
                &&& r is Ok <==> bucket_chains(
                    *mem,
                    class_cache.table.addr,
                    0,
                    class_cache.size as int,
                    LEGACY_CLASS_DEF_SIZE as int,
                    264,
                    CHAIN_CAP as nat,
                ) is Ok
                &&& (r matches Ok(v) ==> bucket_chains(
                    *mem,
                    class_cache.table.addr,
                    0,
                    class_cache.size as int,
                    LEGACY_CLASS_DEF_SIZE as int,
                    264,
                    CHAIN_CAP as nat,
                ) matches Ok(c) && v@.len() == c.len() && forall|k: int|
                    0 <= k < c.len() ==> legacy_class_matches(*mem, c[k] as int, #[trigger] v@[k]))
            },
            self matches MonoImage::Il2cpp { type_count, type_defs } ==> {
                &&& r is Ok <==> aot_class_addrs(
                    *mem,
                    type_defs.addr,
                    0,
                    type_count as int,
                ) is Ok
                &&& (r matches Ok(v) ==> aot_class_addrs(
                    *mem,
                    type_defs.addr,
                    0,
                    type_count as int,
                ) matches Ok(c) && v@.len() == c.len() && forall|k: int|
                    0 <= k < c.len() ==> class_aot_matches(*mem, c[k] as int, #[trigger] v@[k]))
            },
            r is Err ==> (r matches Err(IoFailure::NullPointer) || r matches Err(
                IoFailure::Unmapped(_),
            ) || r matches Err(IoFailure::OutOfAddressSpace) || r matches Err(
                IoFailure::ChainTooLong,
            )),
    {
        match self {
            MonoImage::Legacy { class_cache } => {
                let addrs = match walk_buckets(
                    mem,
                    class_cache.table.addr,
                    class_cache.size,
                    272,
                    264,
                    CHAIN_CAP,
                ) {
                    Ok(a) => a,
                    Err(e) => {
                        return Err(e);
                    },
                };
                proof {
                    lemma_buckets_nodes_mapped(
                        *mem,
                        class_cache.table.addr,
                        0,
                        class_cache.size as int,
                        272,
                        264,
                        CHAIN_CAP as nat,
                    );
                }
                let mut v: Vec<MonoClass> = Vec::new();
                let mut k: usize = 0;
                while k < addrs.len()
                    invariant
                        k <= addrs@.len(),
                        v@.len() == k,
                        forall|j: int|
                            0 <= j < addrs@.len() ==> (#[trigger] addrs@[j]) != 0 && addrs@[j]
                                + 272 <= 0x1_0000_0000_0000_0000 && mem.mapped_range(
                                addrs@[j] as int,
                                272,
                            ),
                        forall|j: int|
                            0 <= j < k ==> legacy_class_matches(
                                *mem,
                                addrs@[j] as int,
                                #[trigger] v@[j],
                            ),
                    decreases addrs@.len() - k,
                {
                    let a = addrs[k];
                    let cd = match MonoClassDef::read(mem, Ptr::new(a)) {
                        Ok(cd) => cd,
                        Err(_) => {
                            proof {
                                assert(class_def_readable(*mem, addrs@[k as int] as int));
                                assert(false);
                            }
                            return Err(IoFailure::ChainTooLong);
                        },
                    };
                    let ghost prev = v@;
                    v.push(cd.klass);
                    proof {
                        assert forall|j: int|
                            0 <= j < v@.len() implies legacy_class_matches(
                            *mem,
                            addrs@[j] as int,
                            #[trigger] v@[j],
                        ) by {
                            if j < prev.len() {
                                assert(prev.push(cd.klass)[j] == prev[j]);
                            } else {
                                assert(prev.push(cd.klass)[j] == cd.klass);
                            }
                        }
                    }
                    k = k + 1;
                }
                Ok(v)
            },
            MonoImage::Il2cpp { type_count, type_defs } => {
                let ghost total = aot_class_addrs(
                    *mem,
                    type_defs.addr,
                    0,
                    *type_count as int,
                );
                let ghost mut flat: Seq<u64> = Seq::empty();
                let mut v: Vec<MonoClass> = Vec::new();
                let mut i: u32 = 0;
                proof {
                    match total {
                        Ok(st) => {
                            assert(Seq::<u64>::empty() + st =~= st);
                        },
                        Err(_) => {},
                    }
                }
                while i < *type_count
                    invariant
                        i <= *type_count,
                        total == aot_class_addrs(*mem, type_defs.addr, 0, *type_count as int),
                        total == crate::glib::chain_append(
                            flat,
                            aot_class_addrs(*mem, type_defs.addr, i as int, *type_count as int),
                        ),
                        v@.len() == flat.len(),
                        forall|j: int|
                            0 <= j < flat.len() ==> class_aot_matches(
                                *mem,
                                flat[j] as int,
                                #[trigger] v@[j],
                            ),
                    decreases *type_count - i,
                {
                    let ea = match type_defs.addr.checked_add(8 * (i as u64)) {
                        Some(x) => x,
                        None => {
                            return Err(IoFailure::OutOfAddressSpace);
                        },
                    };
                    let entry = match Ptr::<Ptr<MonoClass>>::new(ea).read(mem) {
                        Ok(p) => p,
                        Err(e) => {
                            return Err(e);
                        },
                    };
                    if entry.addr != 0 {
                        let c = match MonoClass::read_aot(mem, entry) {
                            Ok(c) => c,
                            Err(e) => {
                                return Err(e);
                            },
                        };
                        proof {
                            crate::glib::lemma_chain_append_cons(
                                flat,
                                entry.addr,
                                aot_class_addrs(
                                    *mem,
                                    type_defs.addr,
                                    i as int + 1,
                                    *type_count as int,
                                ),
                            );
                        }
                        let ghost prev = v@;
                        let ghost prev_flat = flat;
                        v.push(c);
                        proof {
                            flat = flat.push(entry.addr);
                            assert forall|j: int|
                                0 <= j < flat.len() implies class_aot_matches(
                                *mem,
                                flat[j] as int,
                                #[trigger] v@[j],
                            ) by {
                                if j < prev.len() {
                                    assert(prev.push(c)[j] == prev[j]);
                                    assert(prev_flat.push(entry.addr)[j] == prev_flat[j]);
                                } else {
                                    assert(prev.push(c)[j] == c);
                                    assert(prev_flat.push(entry.addr)[j] == entry.addr);
                                }
                            }
                        }
                    }
                    i = i + 1;
                }
                proof {
                    match aot_class_addrs(*mem, type_defs.addr, i as int, *type_count as int) {
                        Ok(s) => {
                            assert(flat + s =~= flat);
                        },
                        Err(_) => {},
                    }
                }
                Ok(v)
            },
        }
    }
}

impl MonoClass {
    /// Enumerates the class's field descriptors, in table order, for
    /// diagnostics.
    #[verifier::loop_isolation(false)]
    pub fn fields(&self, mem: &ProcessMemory) -> (r: Result<Vec<MonoClassField>, IoFailure>)
        ensures
            r is Ok <==> (self.field_count == 0 || self.fields.addr != 0) && forall|i: int|
                0 <= i < self.field_count ==> field_entry_readable(
                    *mem,
                    #[trigger] field_entry_addr(self.fields.addr as int, i),
                ),
            r matches Ok(v) ==> v@.len() == self.field_count && forall|i: int|
                0 <= i < self.field_count ==> {
                    let a = field_entry_addr(self.fields.addr as int, i);
                    (#[trigger] v@[i]).name.addr as int == field_name_ptr(*mem, a, self.abi)
                        && v@[i].offset as int == field_offset_val(*mem, a)
                },
            r is Err ==> (r matches Err(IoFailure::NullPointer) || r matches Err(
                IoFailure::Unmapped(_),
            ) || r matches Err(IoFailure::OutOfAddressSpace)),
    {
        let mut v: Vec<MonoClassField> = Vec::new();
        let mut i: u32 = 0;
        while i < self.field_count
            invariant
                i <= self.field_count,
                v@.len() == i,
                forall|j: int|
                    0 <= j < i ==> field_entry_readable(
                        *mem,
                        #[trigger] field_entry_addr(self.fields.addr as int, j),
                    ),
                i > 0 ==> self.fields.addr != 0,
                forall|j: int|
                    0 <= j < i ==> {
                        let a = field_entry_addr(self.fields.addr as int, j);
                        (#[trigger] v@[j]).name.addr as int == field_name_ptr(*mem, a, self.abi)
                            && v@[j].offset as int == field_offset_val(*mem, a)
                    },
            decreases self.field_count - i,
        {
            let f = match MonoClassField::read_nth(mem, self.fields, i, self.abi) {
                Ok(f) => f,
                Err(e) => {
                    return Err(e);
                },
            };
            let ghost prev = v@;
            v.push(f);
            proof {
                assert forall|j: int|
                    0 <= j < v@.len() implies {
                    let a = field_entry_addr(self.fields.addr as int, j);
                    (#[trigger] v@[j]).name.addr as int == field_name_ptr(*mem, a, self.abi)
                        && v@[j].offset as int == field_offset_val(*mem, a)
                } by {
                    if j < prev.len() {
                        assert(prev.push(f)[j] == prev[j]);
                    } else {
                        assert(prev.push(f)[j] == f);
                    }
                }
            }
            i = i + 1;
        }
        Ok(v)
    }

    /// Looks a field up by name: a linear scan of the field table comparing
    /// each decoded name string against `name`; the first match in table
    /// order wins, and its byte offset is returned.  No match is a lookup
    /// failure; a read failure mid-scan fails the lookup, but cannot occur
    /// on a class whose whole field table is readable.
    #[verifier::loop_isolation(false)]
    pub fn find_field(&self, mem: &ProcessMemory, name: &[u8]) -> (r: Result<u32, LookupFailure>)
        ensures
            r matches Ok(off) ==> exists|i: int|
                0 <= i < self.field_count && #[trigger] field_name_is(*mem, *self, i, name@)
                    && off as int == field_offset_val(
                    *mem,
                    field_entry_addr(self.fields.addr as int, i),
                ) && forall|j: int| 0 <= j < i ==> !field_name_is(*mem, *self, j, name@),
            r matches Err(LookupFailure::NotFound) ==> forall|i: int|
                0 <= i < self.field_count ==> !field_name_is(*mem, *self, i, name@),
            field_table_scannable(*mem, *self) ==> !(r matches Err(LookupFailure::Io(_))),
            r is Err ==> (r matches Err(LookupFailure::Io(_)) || r matches Err(
                LookupFailure::NotFound,
            )),
    {
        let mut i: u32 = 0;
        while i < self.field_count
            invariant
                i <= self.field_count,
                forall|j: int| 0 <= j < i ==> !field_name_is(*mem, *self, j, name@),
            decreases self.field_count - i,
        {
            let f = match MonoClassField::read_nth(mem, self.fields, i, self.abi) {
                Ok(f) => f,
                Err(e) => {
                    proof {
                        if field_table_scannable(*mem, *self) {
                            assert(field_entry_readable(
                                *mem,
                                field_entry_addr(self.fields.addr as int, i as int),
                            ));
                            assert(false);
                        }
                    }
                    return Err(LookupFailure::Io(e));
                },
            };
            let fname = match f.name.read_str(mem) {
                Ok(s) => s,
                Err(e) => {
                    proof {
                        if field_table_scannable(*mem, *self) {
                            let ghost a = field_entry_addr(self.fields.addr as int, i as int);
                            assert(scan_guaranteed(*mem, field_name_ptr(*mem, a, self.abi)));
                            let n = choose|n: int|
                                0 <= n < STR_CAP && #[trigger] first_nul_at(
                                    *mem,
                                    field_name_ptr(*mem, a, self.abi),
                                    n,
                                ) && field_name_ptr(*mem, a, self.abi) != 0 && field_name_ptr(
                                    *mem,
                                    a,
                                    self.abi,
                                ) + n < 0x1_0000_0000_0000_0000 && mem.mapped_range(
                                    field_name_ptr(*mem, a, self.abi),
                                    scan_margin(n),
                                );
                            assert(first_nul_at(*mem, f.name.addr as int, n));
                            assert(false);
                        }
                    }
                    return Err(LookupFailure::Io(e));
                },
            };
            if bytes_eq(fname.as_slice(), name) {
                proof {
                    assert(field_name_is(*mem, *self, i as int, name@));
                }
                return Ok(f.offset);
            }
            proof {
                assert(!field_name_is(*mem, *self, i as int, name@)) by {
                    if field_name_is(*mem, *self, i as int, name@) {
                        crate::cstr::lemma_cstr_content_unique(
                            *mem,
                            f.name.addr as int,
                            name@,
                            fname@,
                        );
                    }
                }
            }
            i = i + 1;
        }
        Err(LookupFailure::NotFound)
    }

    /// Resolves the base of the class's static-field storage under the
    /// legacy layout: run-time info, then the first per-domain vtable, then
    /// the static-field slot that trails the vtable's slot array.
    pub fn get_static_field_memory(&self, mem: &ProcessMemory) -> (r: Result<Ptr<()>, IoFailure>)
        ensures
            r is Ok <==> self.runtime_info.addr != 0 && self.runtime_info.addr + 16
                <= 0x1_0000_0000_0000_0000 && mem.mapped_range(self.runtime_info.addr + 8, 8) && {
                let vt = mem.u64_at(self.runtime_info.addr + 8);
                vt != 0 && vt + 64 + 8 * self.vtable_size + 8 <= 0x1_0000_0000_0000_0000
                    && mem.mapped_range(vt + 64 + 8 * self.vtable_size, 8)
            },
            r matches Ok(p) ==> p.addr as int == mem.u64_at(
                mem.u64_at(self.runtime_info.addr + 8) + 64 + 8 * self.vtable_size,
            ),
            r is Err ==> (r matches Err(IoFailure::NullPointer) || r matches Err(
                IoFailure::Unmapped(_),
            ) || r matches Err(IoFailure::OutOfAddressSpace)),
    {
        let rt = self.runtime_info.addr;
        if rt == 0 {
            return Err(IoFailure::NullPointer);
        }
        if rt > u64::MAX - 8 {
            return Err(IoFailure::OutOfAddressSpace);
        }
        let vt = match mem.read_u64(rt + 8) {
            Ok(v) => v,
            Err(e) => {
                return Err(e);
            },
        };
        if vt == 0 {
            return Err(IoFailure::NullPointer);
        }
        let slot_off: u64 = 64 + 8 * (self.vtable_size as u64);
        if vt > u64::MAX - slot_off {
            return Err(IoFailure::OutOfAddressSpace);
        }
        match mem.read_u64(vt + slot_off) {
            Ok(v) => Ok(Ptr::new(v)),
            Err(e) => Err(e),
        }
    }

    /// Resolves the single live instance of the class: looks
    /// `instance_field_name` up among the class's fields, reads the
    /// pointer-sized value at that offset of the class's static-field
    /// storage, and fails if that pointer is null.
    pub fn find_singleton(&self, mem: &ProcessMemory, instance_field_name: &[u8]) -> (r: Result<
        Ptr<()>,
        LookupFailure,
    >)
        ensures
            r matches Ok(p) ==> p.addr != 0 && exists|i: int|
                0 <= i < self.field_count && #[trigger] field_name_is(
                    *mem,
                    *self,
                    i,
                    instance_field_name@,
                ) && p.addr as int == mem.u64_at(
                    static_base(*mem, *self) + field_offset_val(
                        *mem,
                        field_entry_addr(self.fields.addr as int, i),
                    ),
                ),
            r matches Err(LookupFailure::NotFound) ==> forall|i: int|
                0 <= i < self.field_count ==> !field_name_is(*mem, *self, i, instance_field_name@),
            r matches Err(LookupFailure::NullInstance) ==> exists|i: int|
                0 <= i < self.field_count && #[trigger] field_name_is(
                    *mem,
                    *self,
                    i,
                    instance_field_name@,
                ) && mem.u64_at(
                    static_base(*mem, *self) + field_offset_val(
                        *mem,
                        field_entry_addr(self.fields.addr as int, i),
                    ),
                ) == 0,
            r is Err ==> (r matches Err(LookupFailure::Io(_)) || r matches Err(
                LookupFailure::NotFound,
            ) || r matches Err(LookupFailure::NullInstance)),
            singleton_resolvable(*mem, *self, instance_field_name@) && mem.u64_at(
                singleton_slot(*mem, *self, instance_field_name@),
            ) != 0 ==> r is Ok,
            singleton_resolvable(*mem, *self, instance_field_name@) && mem.u64_at(
                singleton_slot(*mem, *self, instance_field_name@),
            ) == 0 ==> r matches Err(LookupFailure::NullInstance),
    {
        let ghost resolvable = singleton_resolvable(*mem, *self, instance_field_name@);
        let off = match self.find_field(mem, instance_field_name) {
            Ok(off) => off,
            Err(e) => {
                proof {
                    if resolvable {
                        let i = choose|i: int|
                            0 <= i < self.field_count && #[trigger] field_name_is(
                                *mem,
                                *self,
                                i,
                                instance_field_name@,
                            );
                        assert(false);
                    }
                }
                return Err(e);
            },
        };
        proof {
            if resolvable {
                let i = choose|i: int|
                    0 <= i < self.field_count && #[trigger] field_name_is(
                        *mem,
                        *self,
                        i,
                        instance_field_name@,
                    ) && off as int == field_offset_val(
                        *mem,
                        field_entry_addr(self.fields.addr as int, i),
                    ) && forall|j: int|
                        0 <= j < i ==> !field_name_is(*mem, *self, j, instance_field_name@);
                lemma_first_match_exists(*mem, *self, instance_field_name@, i);
                assert(i == first_match_index(*mem, *self, instance_field_name@));
                assert(off as int == field_offset_val(
                    *mem,
                    field_entry_addr(
                        self.fields.addr as int,
                        first_match_index(*mem, *self, instance_field_name@),
                    ),
                ));
            }
        }
        let base: Ptr<()> = match self.abi {
            Abi::Legacy => {
                match self.get_static_field_memory(mem) {
                    Ok(p) => p,
                    Err(e) => {
                        proof {
                            if resolvable {
                                assert(false);
                            }
                        }
                        return Err(LookupFailure::Io(e));
                    },
                }
            },
            Abi::Il2cpp => self.static_fields,
        };
        proof {
            assert(base.addr as int == static_base(*mem, *self));
        }
        let slot = match base.addr.checked_add(off as u64) {
            Some(x) => x,
            None => {
                proof {
                    if resolvable {
                        assert(false);
                    }
                }
                return Err(LookupFailure::Io(IoFailure::OutOfAddressSpace));
            },
        };
        let instance = match Ptr::<Ptr<()>>::new(slot).read(mem) {
            Ok(p) => p,
            Err(e) => {
                proof {
                    if resolvable {
                        assert(false);
                    }
                }
                return Err(LookupFailure::Io(e));
            },
        };
        if instance.is_null() {
            return Err(LookupFailure::NullInstance);
        }
        Ok(instance)
    }

    /// Takes exactly one bounded snapshot read of `instance_size` bytes
    /// starting at `instance`.  No further remote reads are needed to
    /// decode the snapshot's fields.  An instance size above the fixed cap
    /// is surfaced distinctly as a model mismatch.
    pub fn get_instance(&self, mem: &ProcessMemory, instance: Ptr<()>) -> (r: Result<
        Vec<u8>,
        DecodeFailure,
    >)
        ensures
            r is Ok <==> self.instance_size <= INSTANCE_BUF_CAP && instance.addr != 0
                && instance.addr + self.instance_size <= 0x1_0000_0000_0000_0000
                && mem.mapped_range(instance.addr as int, self.instance_size as int),
            r matches Ok(b) ==> b@ == mem.bytes_at(instance.addr as int, self.instance_size as nat),
            r matches Err(DecodeFailure::InstanceTooLarge) <==> self.instance_size
                > INSTANCE_BUF_CAP,
            r is Err ==> (r matches Err(DecodeFailure::InstanceTooLarge) || r matches Err(
                DecodeFailure::Io(IoFailure::NullPointer),
            ) || r matches Err(DecodeFailure::Io(IoFailure::Unmapped(_))) || r matches Err(
                DecodeFailure::Io(IoFailure::OutOfAddressSpace),
            )),
    {
        if self.instance_size > INSTANCE_BUF_CAP as u32 {
            return Err(DecodeFailure::InstanceTooLarge);
        }
        if instance.addr == 0 {
            return Err(DecodeFailure::Io(IoFailure::NullPointer));
        }
        match mem.read_bytes(instance.addr, self.instance_size as usize) {
            Ok(b) => Ok(b),
            Err(e) => Err(DecodeFailure::Io(e)),
        }
    }
}

impl MonoClassDef {
    /// Enumerates the class's field descriptors; see [`MonoClass::fields`].
    pub fn fields(&self, mem: &ProcessMemory) -> (r: Result<Vec<MonoClassField>, IoFailure>)
        ensures
            r is Ok <==> (self.klass.field_count == 0 || self.klass.fields.addr != 0) && forall|i: int|
                0 <= i < self.klass.field_count ==> field_entry_readable(
                    *mem,
                    #[trigger] field_entry_addr(self.klass.fields.addr as int, i),
                ),
            r matches Ok(v) ==> v@.len() == self.klass.field_count && forall|i: int|
                0 <= i < self.klass.field_count ==> {
                    let a = field_entry_addr(self.klass.fields.addr as int, i);
                    (#[trigger] v@[i]).name.addr as int == field_name_ptr(*mem, a, self.klass.abi)
                        && v@[i].offset as int == field_offset_val(*mem, a)
                },
            r is Err ==> (r matches Err(IoFailure::NullPointer) || r matches Err(
                IoFailure::Unmapped(_),
            ) || r matches Err(IoFailure::OutOfAddressSpace)),
    {
        self.klass.fields(mem)
    }

    /// Looks a field up by name; see [`MonoClass::find_field`].
    pub fn find_field(&self, mem: &ProcessMemory, name: &[u8]) -> (r: Result<u32, LookupFailure>)
        ensures
            r matches Ok(off) ==> exists|i: int|
                0 <= i < self.klass.field_count && #[trigger] field_name_is(
                    *mem,
                    self.klass,
                    i,
                    name@,
                ) && off as int == field_offset_val(
                    *mem,
                    field_entry_addr(self.klass.fields.addr as int, i),
                ) && forall|j: int| 0 <= j < i ==> !field_name_is(*mem, self.klass, j, name@),
            r matches Err(LookupFailure::NotFound) ==> forall|i: int|
                0 <= i < self.klass.field_count ==> !field_name_is(*mem, self.klass, i, name@),
            field_table_scannable(*mem, self.klass) ==> !(r matches Err(LookupFailure::Io(_))),
            r is Err ==> (r matches Err(LookupFailure::Io(_)) || r matches Err(
                LookupFailure::NotFound,
            )),
    {
        self.klass.find_field(mem, name)
    }

    /// Resolves the single live instance; see [`MonoClass::find_singleton`].
    pub fn find_singleton(&self, mem: &ProcessMemory, instance_field_name: &[u8]) -> (r: Result<
        Ptr<()>,
        LookupFailure,
    >)
        ensures
            r matches Ok(p) ==> p.addr != 0 && exists|i: int|
                0 <= i < self.klass.field_count && #[trigger] field_name_is(
                    *mem,
                    self.klass,
                    i,
                    instance_field_name@,
                ) && p.addr as int == mem.u64_at(
                    static_base(*mem, self.klass) + field_offset_val(
                        *mem,
                        field_entry_addr(self.klass.fields.addr as int, i),
                    ),
                ),
            r matches Err(LookupFailure::NotFound) ==> forall|i: int|
                0 <= i < self.klass.field_count ==> !field_name_is(
                    *mem,
                    self.klass,
                    i,
                    instance_field_name@,
                ),
            r matches Err(LookupFailure::NullInstance) ==> exists|i: int|
                0 <= i < self.klass.field_count && #[trigger] field_name_is(
                    *mem,
                    self.klass,
                    i,
                    instance_field_name@,
                ) && mem.u64_at(
                    static_base(*mem, self.klass) + field_offset_val(
                        *mem,
                        field_entry_addr(self.klass.fields.addr as int, i),
                    ),
                ) == 0,
            r is Err ==> (r matches Err(LookupFailure::Io(_)) || r matches Err(
                LookupFailure::NotFound,
            ) || r matches Err(LookupFailure::NullInstance)),
            singleton_resolvable(*mem, self.klass, instance_field_name@) && mem.u64_at(
                singleton_slot(*mem, self.klass, instance_field_name@),
            ) != 0 ==> r is Ok,
            singleton_resolvable(*mem, self.klass, instance_field_name@) && mem.u64_at(
                singleton_slot(*mem, self.klass, instance_field_name@),
            ) == 0 ==> r matches Err(LookupFailure::NullInstance),
    {
        self.klass.find_singleton(mem, instance_field_name)
    }
}

} // verus!
