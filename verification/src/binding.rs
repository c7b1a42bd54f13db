//! The field-binding resolver and the instance decoder.
//!
//! A [`RecordDesc`] declares a logical record: a class identified by name
//! and namespace, and an ordered list of named, sized fields.  [`bind`]
//! resolves it once — finding the class among the image's classes and every
//! field's byte offset in its field table — into a reusable
//! [`RecordBinding`]; binding is all-or-nothing, so a decode may assume
//! every offset is valid.  [`decode`] then takes one bounded snapshot of an
//! instance and slices every field's bytes out of that snapshot, never
//! re-reading memory field by field and never reading past the snapshot.

use crate::classes::{
    aot_class_addrs, class_entry_field_named, class_field_count, class_fields_base,
    class_table_scannable, field_name_is, field_table_scannable, scan_guaranteed,
    INSTANCE_BUF_CAP,
};
use crate::cstr::{
    bytes_eq, cstr_content, first_nul_at, lemma_cstr_content_unique, scan_margin, STR_CAP,
};
use crate::glib::{bucket_chains, CHAIN_CAP};
use crate::memory::ProcessMemory;
use crate::metadata::{
    class_aot_matches, field_entry_addr, field_entry_readable, field_name_ptr, field_offset_val,
    legacy_class_matches, Abi, MonoClass, MonoImage, LEGACY_CLASS_DEF_SIZE,
};
use crate::ptr::Ptr;
use crate::{BindFailure, DecodeFailure};
use vstd::prelude::*;

verus! {

/// One declared field of a logical record: its runtime name and its size
/// in bytes.
#[derive(Debug)]
pub struct FieldDesc {
    pub name: Vec<u8>,
    pub size: u32,
}

/// A logical record description: the class it lives in and its ordered
/// field list.
#[derive(Debug)]
pub struct RecordDesc {
    pub class_name: Vec<u8>,
    pub name_space: Vec<u8>,
    pub fields: Vec<FieldDesc>,
}

/// One resolved field: the declared name, the byte offset found in the
/// class's field table, and the declared size.
#[derive(Debug)]
pub struct FieldBinding {
    pub name: Vec<u8>,
    pub offset: u32,
    pub size: u32,
}

/// A record description resolved against one concrete class layout:
/// immutable once built, reused for every decode.
#[derive(Debug)]
pub struct RecordBinding {
    pub class: MonoClass,
    pub fields: Vec<FieldBinding>,
}

/// The decoded field values of one instance, in declaration order, each
/// exactly the field's bytes from the snapshot.
#[derive(Debug)]
pub struct Record {
    pub values: Vec<Vec<u8>>,
}

/// Byte offset of the name pointer inside a remote class, per layout.
pub open spec fn class_name_ptr_off(abi: Abi) -> int {
    match abi {
        Abi::Legacy => 72,
        Abi::Il2cpp => 16,
    }
}

/// Byte offset of the namespace pointer inside a remote class, per layout.
pub open spec fn class_space_ptr_off(abi: Abi) -> int {
    match abi {
        Abi::Legacy => 80,
        Abi::Il2cpp => 24,
    }
}

/// The remote class at `p` carries exactly these name and namespace
/// strings.
pub open spec fn class_entry_named(
    mem: ProcessMemory,
    p: int,
    abi: Abi,
    name: Seq<u8>,
    space: Seq<u8>,
) -> bool {
    &&& cstr_content(mem, mem.u64_at(p + class_name_ptr_off(abi)), name)
    &&& cstr_content(mem, mem.u64_at(p + class_space_ptr_off(abi)), space)
}

/// The class's name and namespace strings decode exactly to `name` and
/// `space`.
pub open spec fn class_named(
    mem: ProcessMemory,
    cls: MonoClass,
    name: Seq<u8>,
    space: Seq<u8>,
) -> bool {
    &&& cstr_content(mem, cls.name.addr as int, name)
    &&& cstr_content(mem, cls.name_space.addr as int, space)
}

/// `b` resolves every declared field of `desc`, in order, against its
/// class's field table: same names, declared sizes kept, and each offset
/// the one stored in the first field-table entry of that name.
pub open spec fn binding_resolves(mem: ProcessMemory, desc: RecordDesc, b: RecordBinding) -> bool {
    &&& b.fields@.len() == desc.fields@.len()
    &&& forall|k: int|
        0 <= k < desc.fields@.len() ==> {
            &&& (#[trigger] b.fields@[k]).name@ == desc.fields@[k].name@
            &&& b.fields@[k].size == desc.fields@[k].size
            &&& exists|i: int|
                0 <= i < b.class.field_count && #[trigger] field_name_is(
                    mem,
                    b.class,
                    i,
                    desc.fields@[k].name@,
                ) && b.fields@[k].offset as int == field_offset_val(
                    mem,
                    field_entry_addr(b.class.fields.addr as int, i),
                )
        }
}

/// The field-table index whose name matches field `k` of the binding and
/// whose stored offset the binding recorded, where one exists.
pub open spec fn sound_index(mem: ProcessMemory, b: RecordBinding, k: int) -> int {
    choose|i: int|
        0 <= i < b.class.field_count && #[trigger] field_name_is(
            mem,
            b.class,
            i,
            b.fields@[k].name@,
        ) && b.fields@[k].offset as int == field_offset_val(
            mem,
            field_entry_addr(b.class.fields.addr as int, i),
        )
}

/// Every resolved field's offset is the one the class's field table
/// stores under that field's own recorded name, at index
/// [`sound_index`].
pub open spec fn binding_sound(mem: ProcessMemory, b: RecordBinding) -> bool {
    forall|k: int|
        #![trigger b.fields@[k]]
        0 <= k < b.fields@.len() ==> {
            let i = sound_index(mem, b, k);
            &&& 0 <= i < b.class.field_count
            &&& field_name_is(mem, b.class, i, b.fields@[k].name@)
            &&& b.fields@[k].offset as int == field_offset_val(
                mem,
                field_entry_addr(b.class.fields.addr as int, i),
            )
        }
}

/// The enumerated class-address chain of the image, per its layout.
pub open spec fn image_chain(mem: ProcessMemory, image: MonoImage) -> Result<Seq<u64>, ()> {
    match image {
        MonoImage::Legacy { class_cache } => bucket_chains(
            mem,
            class_cache.table.addr,
            0,
            class_cache.size as int,
            LEGACY_CLASS_DEF_SIZE as int,
            264,
            CHAIN_CAP as nat,
        ),
        MonoImage::Il2cpp { type_count, type_defs } => aot_class_addrs(
            mem,
            type_defs.addr,
            0,
            type_count as int,
        ),
    }
}

/// The layout the image's classes are stored in.
pub open spec fn image_abi(image: MonoImage) -> Abi {
    match image {
        MonoImage::Legacy { .. } => Abi::Legacy,
        MonoImage::Il2cpp { .. } => Abi::Il2cpp,
    }
}

/// `c` is the decoded form of the remote class at `p` under `abi`.
pub open spec fn class_matches_at(mem: ProcessMemory, p: int, abi: Abi, c: MonoClass) -> bool {
    match abi {
        Abi::Legacy => legacy_class_matches(mem, p, c),
        Abi::Il2cpp => class_aot_matches(mem, p, c),
    }
}

/// Position `j` holds the first enumerated class carrying the name pair.
pub open spec fn first_named_at(
    mem: ProcessMemory,
    chain: Seq<u64>,
    abi: Abi,
    j: int,
    name: Seq<u8>,
    space: Seq<u8>,
) -> bool {
    &&& 0 <= j < chain.len()
    &&& class_entry_named(mem, chain[j] as int, abi, name, space)
    &&& forall|j2: int|
        0 <= j2 < j ==> !class_entry_named(mem, #[trigger] chain[j2] as int, abi, name, space)
}

/// The position of the first enumerated class carrying the name pair,
/// where one exists.
pub open spec fn first_named_index(
    mem: ProcessMemory,
    chain: Seq<u64>,
    abi: Abi,
    name: Seq<u8>,
    space: Seq<u8>,
) -> int {
    choose|j: int| #[trigger] first_named_at(mem, chain, abi, j, name, space)
}

/// The declared field names of a description, in order.
pub open spec fn field_names_of(desc: RecordDesc) -> Seq<Seq<u8>> {
    Seq::new(desc.fields@.len(), |k: int| desc.fields@[k].name@)
}

/// Binding is certain to succeed on this image: the enumeration succeeds,
/// every enumerated class's name strings are certain to scan, some
/// enumerated class carries the description's name pair — and the first
/// such class has a scannable field table with an entry for every declared
/// field name.
pub open spec fn bind_guaranteed(
    mem: ProcessMemory,
    image: MonoImage,
    name: Seq<u8>,
    space: Seq<u8>,
    fnames: Seq<Seq<u8>>,
) -> bool {
    image_chain(mem, image) matches Ok(chain) && {
        let abi = image_abi(image);
        let j = first_named_index(mem, chain, abi, name, space);
        &&& forall|k: int|
            #![trigger chain[k]]
            0 <= k < chain.len() ==> scan_guaranteed(
                mem,
                mem.u64_at(chain[k] + class_name_ptr_off(abi)),
            ) && scan_guaranteed(mem, mem.u64_at(chain[k] + class_space_ptr_off(abi)))
        &&& exists|j2: int| #[trigger] first_named_at(mem, chain, abi, j2, name, space)
        &&& class_table_scannable(mem, chain[j] as int, abi)
        &&& forall|k: int|
            #![trigger fnames[k]]
            0 <= k < fnames.len() ==> exists|i: int|
                0 <= i < class_field_count(mem, chain[j] as int, abi)
                    && #[trigger] class_entry_field_named(mem, chain[j] as int, abi, i, fnames[k])
    }
}

/// An instance snapshot of `cls` at `instance` can be taken.
pub open spec fn snapshot_available(
    mem: ProcessMemory,
    cls: MonoClass,
    instance: Ptr<()>,
) -> bool {
    &&& cls.instance_size <= INSTANCE_BUF_CAP
    &&& instance.addr != 0
    &&& instance.addr + cls.instance_size <= 0x1_0000_0000_0000_0000
    &&& mem.mapped_range(instance.addr as int, cls.instance_size as int)
}

/// Resolves `desc` against the image: finds the first enumerated class
/// whose name and namespace both match, then resolves every declared field
/// to its byte offset.  All-or-nothing: if the class or any field is
/// missing, or any read fails, no partial binding is returned.
#[verifier::loop_isolation(false)]
#[verifier::rlimit(100)]
pub fn bind(desc: &RecordDesc, image: &MonoImage, mem: &ProcessMemory) -> (r: Result<
    RecordBinding,
    BindFailure,
>)
    ensures
        r matches Ok(b) ==> class_named(*mem, b.class, desc.class_name@, desc.name_space@)
            && binding_resolves(*mem, *desc, b) && binding_sound(*mem, b),
        r matches Ok(b) ==> image_chain(*mem, *image) matches Ok(chain) && exists|j: int|
            #[trigger] first_named_at(
                *mem,
                chain,
                image_abi(*image),
                j,
                desc.class_name@,
                desc.name_space@,
            ) && class_matches_at(*mem, chain[j] as int, image_abi(*image), b.class),
        bind_guaranteed(
            *mem,
            *image,
            desc.class_name@,
            desc.name_space@,
            field_names_of(*desc),
        ) ==> r is Ok,
        r matches Err(BindFailure::FieldNotFound(k)) ==> k < desc.fields@.len(),
        r matches Err(BindFailure::ClassNotFound) ==> match *image {
            MonoImage::Legacy { class_cache } => bucket_chains(
                *mem,
                class_cache.table.addr,
                0,
                class_cache.size as int,
                LEGACY_CLASS_DEF_SIZE as int,
                264,
                CHAIN_CAP as nat,
            ) matches Ok(c) && forall|k: int|
                0 <= k < c.len() ==> !class_entry_named(
                    *mem,
                    #[trigger] c[k] as int,
                    Abi::Legacy,
                    desc.class_name@,
                    desc.name_space@,
                ),
            MonoImage::Il2cpp { type_count, type_defs } => aot_class_addrs(
                *mem,
                type_defs.addr,
                0,
                type_count as int,
            ) matches Ok(c) && forall|k: int|
                0 <= k < c.len() ==> !class_entry_named(
                    *mem,
                    #[trigger] c[k] as int,
                    Abi::Il2cpp,
                    desc.class_name@,
                    desc.name_space@,
                ),
        },
        r is Err ==> (r matches Err(BindFailure::Io(_)) || r matches Err(
            BindFailure::ClassNotFound,
        ) || r matches Err(BindFailure::FieldNotFound(_))),
{
    let classes = match image.classes(mem) {
        Ok(c) => c,
        Err(e) => {
            proof {
                match *image {
                    MonoImage::Legacy { class_cache } => {
                        assert(image_chain(*mem, *image) is Err);
                    },
                    MonoImage::Il2cpp { type_count, type_defs } => {
                        assert(image_chain(*mem, *image) is Err);
                    },
                }
            }
            return Err(BindFailure::Io(e));
        },
    };
    let ghost (cabi, chain): (Abi, Seq<u64>) = match *image {
        MonoImage::Legacy { class_cache } => (
            Abi::Legacy,
            choose|c: Seq<u64>|
                bucket_chains(
                    *mem,
                    class_cache.table.addr,
                    0,
                    class_cache.size as int,
                    LEGACY_CLASS_DEF_SIZE as int,
                    264,
                    CHAIN_CAP as nat,
                ) == Ok::<Seq<u64>, ()>(c),
        ),
        MonoImage::Il2cpp { type_count, type_defs } => (
            Abi::Il2cpp,
            choose|c: Seq<u64>|
                aot_class_addrs(*mem, type_defs.addr, 0, type_count as int) == Ok::<Seq<u64>, ()>(
                    c,
                ),
        ),
    };
    proof {
        match *image {
            MonoImage::Legacy { class_cache } => {
                assert(image_chain(*mem, *image) == Ok::<Seq<u64>, ()>(chain));
            },
            MonoImage::Il2cpp { type_count, type_defs } => {
                assert(image_chain(*mem, *image) == Ok::<Seq<u64>, ()>(chain));
            },
        }
    }
    let mut found: Option<MonoClass> = None;
    let mut ci: usize = 0;
    while ci < classes.len() && found.is_none()
        invariant
            ci <= classes@.len(),
            found matches Some(cls) ==> class_named(*mem, cls, desc.class_name@, desc.name_space@),
            found matches Some(cls) ==> exists|j: int|
                #[trigger] first_named_at(*mem, chain, cabi, j, desc.class_name@, desc.name_space@)
                    && class_matches_at(*mem, chain[j] as int, cabi, cls),
            image_chain(*mem, *image) == Ok::<Seq<u64>, ()>(chain),
            cabi == image_abi(*image),
            found is None ==> forall|j: int|
                0 <= j < ci ==> !class_entry_named(
                    *mem,
                    #[trigger] chain[j] as int,
                    cabi,
                    desc.class_name@,
                    desc.name_space@,
                ),
        decreases classes@.len() - ci,
    {
        let c = classes[ci];
        let ghost p = chain[ci as int] as int;
        proof {
            match cabi {
                Abi::Legacy => {
                    assert(c.name.addr as int == mem.u64_at(p + 72) && c.name_space.addr as int
                        == mem.u64_at(p + 80));
                },
                Abi::Il2cpp => {
                    assert(c.name.addr as int == mem.u64_at(p + 16) && c.name_space.addr as int
                        == mem.u64_at(p + 24));
                },
            }
        }
        let cname = match c.name.read_str(mem) {
            Ok(s) => s,
            Err(e) => {
                proof {
                    if bind_guaranteed(
                        *mem,
                        *image,
                        desc.class_name@,
                        desc.name_space@,
                        field_names_of(*desc),
                    ) {
                        assert(scan_guaranteed(*mem, c.name.addr as int));
                        let n = choose|n: int|
                            0 <= n < STR_CAP && #[trigger] first_nul_at(
                                *mem,
                                c.name.addr as int,
                                n,
                            ) && c.name.addr as int != 0 && c.name.addr as int + n
                                < 0x1_0000_0000_0000_0000 && mem.mapped_range(
                                c.name.addr as int,
                                scan_margin(n),
                            );
                        assert(false);
                    }
                }
                return Err(BindFailure::Io(e));
            },
        };
        if bytes_eq(cname.as_slice(), desc.class_name.as_slice()) {
            let cspace = match c.name_space.read_str(mem) {
                Ok(s) => s,
                Err(e) => {
                    proof {
                        if bind_guaranteed(
                            *mem,
                            *image,
                            desc.class_name@,
                            desc.name_space@,
                            field_names_of(*desc),
                        ) {
                            assert(scan_guaranteed(*mem, c.name_space.addr as int));
                            let n = choose|n: int|
                                0 <= n < STR_CAP && #[trigger] first_nul_at(
                                    *mem,
                                    c.name_space.addr as int,
                                    n,
                                ) && c.name_space.addr as int != 0 && c.name_space.addr as int + n
                                    < 0x1_0000_0000_0000_0000 && mem.mapped_range(
                                    c.name_space.addr as int,
                                    scan_margin(n),
                                );
                            assert(false);
                        }
                    }
                    return Err(BindFailure::Io(e));
                },
            };
            if bytes_eq(cspace.as_slice(), desc.name_space.as_slice()) {
                proof {
                    assert(class_entry_named(*mem, p, cabi, desc.class_name@, desc.name_space@));
                    assert(first_named_at(
                        *mem,
                        chain,
                        cabi,
                        ci as int,
                        desc.class_name@,
                        desc.name_space@,
                    ));
                    match cabi {
                        Abi::Legacy => {
                            assert(legacy_class_matches(*mem, p, c));
                        },
                        Abi::Il2cpp => {
                            assert(class_aot_matches(*mem, p, c));
                        },
                    }
                    assert(class_matches_at(*mem, chain[ci as int] as int, cabi, c));
                }
                found = Some(c);
            } else {
                proof {
                    assert(!class_entry_named(
                        *mem,
                        p,
                        cabi,
                        desc.class_name@,
                        desc.name_space@,
                    )) by {
                        if class_entry_named(*mem, p, cabi, desc.class_name@, desc.name_space@) {
                            lemma_cstr_content_unique(
                                *mem,
                                c.name_space.addr as int,
                                desc.name_space@,
                                cspace@,
                            );
                        }
                    }
                }
            }
        } else {
            proof {
                assert(!class_entry_named(*mem, p, cabi, desc.class_name@, desc.name_space@)) by {
                    if class_entry_named(*mem, p, cabi, desc.class_name@, desc.name_space@) {
                        lemma_cstr_content_unique(
                            *mem,
                            c.name.addr as int,
                            desc.class_name@,
                            cname@,
                        );
                    }
                }
            }
        }
        ci = ci + 1;
    }
    let cls = match found {
        Some(c) => c,
        None => {
            proof {
                if bind_guaranteed(
                    *mem,
                    *image,
                    desc.class_name@,
                    desc.name_space@,
                    field_names_of(*desc),
                ) {
                    let j2 = choose|j2: int| #[trigger] first_named_at(
                        *mem,
                        chain,
                        cabi,
                        j2,
                        desc.class_name@,
                        desc.name_space@,
                    );
                    assert(class_entry_named(
                        *mem,
                        chain[j2] as int,
                        cabi,
                        desc.class_name@,
                        desc.name_space@,
                    ));
                    assert(false);
                }
            }
            return Err(BindFailure::ClassNotFound);
        },
    };
    let ghost fidx = choose|j: int|
        #[trigger] first_named_at(*mem, chain, cabi, j, desc.class_name@, desc.name_space@)
            && class_matches_at(*mem, chain[j] as int, cabi, cls);
    proof {
        assert(first_named_at(*mem, chain, cabi, fidx, desc.class_name@, desc.name_space@)
            && class_matches_at(*mem, chain[fidx] as int, cabi, cls));
        match cabi {
            Abi::Legacy => {
                assert(cls.fields.addr as int == class_fields_base(*mem, chain[fidx] as int, cabi)
                    && cls.field_count as int == class_field_count(*mem, chain[fidx] as int, cabi)
                    && cls.abi == cabi);
            },
            Abi::Il2cpp => {
                assert(cls.fields.addr as int == class_fields_base(*mem, chain[fidx] as int, cabi)
                    && cls.field_count as int == class_field_count(*mem, chain[fidx] as int, cabi)
                    && cls.abi == cabi);
            },
        }
    }
    let mut fbs: Vec<FieldBinding> = Vec::new();
    let mut k: usize = 0;
    while k < desc.fields.len()
        invariant
            k <= desc.fields@.len(),
            fbs@.len() == k,
            class_named(*mem, cls, desc.class_name@, desc.name_space@),
            forall|j: int|
                0 <= j < k ==> {
                    &&& (#[trigger] fbs@[j]).name@ == desc.fields@[j].name@
                    &&& fbs@[j].size == desc.fields@[j].size
                    &&& exists|i: int|
                        0 <= i < cls.field_count && #[trigger] field_name_is(
                            *mem,
                            cls,
                            i,
                            desc.fields@[j].name@,
                        ) && fbs@[j].offset as int == field_offset_val(
                            *mem,
                            field_entry_addr(cls.fields.addr as int, i),
                        )
                },
        decreases desc.fields@.len() - k,
    {
        let fd = &desc.fields[k];
        let ghost bg = bind_guaranteed(
            *mem,
            *image,
            desc.class_name@,
            desc.name_space@,
            field_names_of(*desc),
        );
        proof {
            if bg {
                assert(fidx == first_named_index(
                    *mem,
                    chain,
                    cabi,
                    desc.class_name@,
                    desc.name_space@,
                ));
                assert(field_table_scannable(*mem, cls)) by {
                    assert forall|i: int|
                        0 <= i < cls.field_count implies field_entry_readable(
                        *mem,
                        #[trigger] field_entry_addr(cls.fields.addr as int, i),
                    ) && scan_guaranteed(
                        *mem,
                        field_name_ptr(*mem, field_entry_addr(cls.fields.addr as int, i), cls.abi),
                    ) by {
                        assert(field_entry_readable(
                            *mem,
                            field_entry_addr(class_fields_base(*mem, chain[fidx] as int, cabi), i),
                        ));
                    }
                }
            }
        }
        let off = match cls.find_field(mem, fd.name.as_slice()) {
            Ok(off) => off,
            Err(crate::LookupFailure::NotFound) => {
                proof {
                    if bg {
                        assert(field_names_of(*desc)[k as int] == desc.fields@[k as int].name@);
                        let i = choose|i: int|
                            0 <= i < class_field_count(*mem, chain[fidx] as int, cabi)
                                && #[trigger] class_entry_field_named(
                                *mem,
                                chain[fidx] as int,
                                cabi,
                                i,
                                field_names_of(*desc)[k as int],
                            );
                        assert(field_name_is(*mem, cls, i, desc.fields@[k as int].name@));
                        assert(false);
                    }
                }
                return Err(BindFailure::FieldNotFound(k));
            },
            Err(crate::LookupFailure::Io(e)) => {
                proof {
                    if bg {
                        assert(false);
                    }
                }
                return Err(BindFailure::Io(e));
            },
            Err(crate::LookupFailure::NullInstance) => {
                proof {
                    assert(false);
                }
                return Err(BindFailure::ClassNotFound);
            },
        };
        let fb = FieldBinding {
            name: vstd::slice::slice_to_vec(fd.name.as_slice()),
            offset: off,
            size: fd.size,
        };
        let ghost prev = fbs@;
        let ghost fbg = fb;
        fbs.push(fb);
        proof {
            assert forall|j: int|
                0 <= j < fbs@.len() implies {
                &&& (#[trigger] fbs@[j]).name@ == desc.fields@[j].name@
                &&& fbs@[j].size == desc.fields@[j].size
                &&& exists|i: int|
                    0 <= i < cls.field_count && #[trigger] field_name_is(
                        *mem,
                        cls,
                        i,
                        desc.fields@[j].name@,
                    ) && fbs@[j].offset as int == field_offset_val(
                        *mem,
                        field_entry_addr(cls.fields.addr as int, i),
                    )
            } by {
                if j < prev.len() {
                    assert(prev.push(fbg)[j] == prev[j]);
                } else {
                    assert(prev.push(fbg)[j] == fbg);
                }
            }
        }
        k = k + 1;
    }
    let ghost bres = RecordBinding { class: cls, fields: fbs };
    proof {
        assert forall|k: int|
            #![trigger bres.fields@[k]]
            0 <= k < bres.fields@.len() implies {
            let i = sound_index(*mem, bres, k);
            &&& 0 <= i < bres.class.field_count
            &&& field_name_is(*mem, bres.class, i, bres.fields@[k].name@)
            &&& bres.fields@[k].offset as int == field_offset_val(
                *mem,
                field_entry_addr(bres.class.fields.addr as int, i),
            )
        } by {
            assert(fbs@[k].name@ == desc.fields@[k].name@);
            let w = choose|i: int|
                0 <= i < cls.field_count && #[trigger] field_name_is(
                    *mem,
                    cls,
                    i,
                    desc.fields@[k].name@,
                ) && fbs@[k].offset as int == field_offset_val(
                    *mem,
                    field_entry_addr(cls.fields.addr as int, i),
                );
            assert(field_name_is(*mem, bres.class, w, bres.fields@[k].name@)
                && bres.fields@[k].offset as int == field_offset_val(
                *mem,
                field_entry_addr(bres.class.fields.addr as int, w),
            ) && 0 <= w < bres.class.field_count);
        }
        assert(binding_sound(*mem, bres));
        assert(first_named_at(*mem, chain, image_abi(*image), fidx, desc.class_name@,
            desc.name_space@) && class_matches_at(
            *mem,
            chain[fidx] as int,
            image_abi(*image),
            cls,
        ));
    }
    Ok(RecordBinding { class: cls, fields: fbs })
}

/// Decodes one instance through a binding: takes one snapshot read of the
/// whole instance, then slices every bound field's byte range out of it.
/// A field range past the snapshot's end fails the whole decode without
/// reading anything out of bounds; a failed snapshot read is a transient,
/// recoverable condition.
#[verifier::loop_isolation(false)]
pub fn decode(binding: &RecordBinding, instance: Ptr<()>, mem: &ProcessMemory) -> (r: Result<
    Record,
    DecodeFailure,
>)
    ensures
        r is Ok <==> snapshot_available(*mem, binding.class, instance) && forall|k: int|
            0 <= k < binding.fields@.len() ==> (#[trigger] binding.fields@[k]).offset
                + binding.fields@[k].size <= binding.class.instance_size,
        r matches Ok(rec) ==> rec.values@.len() == binding.fields@.len() && forall|k: int|
            0 <= k < binding.fields@.len() ==> (#[trigger] rec.values@[k])@ == mem.bytes_at(
                instance.addr + binding.fields@[k].offset,
                binding.fields@[k].size as nat,
            ),
        r matches Err(DecodeFailure::FieldOutOfRange(k)) ==> k < binding.fields@.len()
            && binding.fields@[k as int].offset + binding.fields@[k as int].size
            > binding.class.instance_size,
        r matches Err(DecodeFailure::InstanceTooLarge) <==> binding.class.instance_size
            > INSTANCE_BUF_CAP,
        r is Err ==> (r matches Err(DecodeFailure::InstanceTooLarge) || r matches Err(
            DecodeFailure::FieldOutOfRange(_),
        ) || r matches Err(DecodeFailure::Io(_))),
{
    let snap = match binding.class.get_instance(mem, instance) {
        Ok(b) => b,
        Err(e) => {
            return Err(e);
        },
    };
    let mut values: Vec<Vec<u8>> = Vec::new();
    let mut k: usize = 0;
    while k < binding.fields.len()
        invariant
            k <= binding.fields@.len(),
            values@.len() == k,
            snap@ == mem.bytes_at(instance.addr as int, binding.class.instance_size as nat),
            snap@.len() == binding.class.instance_size,
            forall|j: int|
                0 <= j < k ==> (#[trigger] binding.fields@[j]).offset + binding.fields@[j].size
                    <= binding.class.instance_size,
            forall|j: int|
                0 <= j < k ==> (#[trigger] values@[j])@ == mem.bytes_at(
                    instance.addr + binding.fields@[j].offset,
                    binding.fields@[j].size as nat,
                ),
        decreases binding.fields@.len() - k,
    {
        let fb = &binding.fields[k];
        let end: u64 = fb.offset as u64 + fb.size as u64;
        if end > snap.len() as u64 {
            return Err(DecodeFailure::FieldOutOfRange(k));
        }
        let part = vstd::slice::slice_to_vec(
            vstd::slice::slice_subrange(snap.as_slice(), fb.offset as usize, end as usize),
        );
        proof {
            assert(part@ =~= mem.bytes_at(
                instance.addr + binding.fields@[k as int].offset,
                binding.fields@[k as int].size as nat,
            ));
        }
        let ghost prev = values@;
        let ghost pg = part@;
        values.push(part);
        proof {
            let vlast = values@[prev.len() as int];
            assert(values@ == prev.push(vlast));
            assert(vlast@ == pg);
            assert forall|j: int|
                0 <= j < values@.len() implies (#[trigger] values@[j])@ == mem.bytes_at(
                instance.addr + binding.fields@[j].offset,
                binding.fields@[j].size as nat,
            ) by {
                if j < prev.len() {
                    assert(prev.push(vlast)[j] == prev[j]);
                } else {
                    assert(prev.push(vlast)[j] == vlast);
                }
            }
        }
        k = k + 1;
    }
    Ok(Record { values })
}

/// The field-table index a resolved binding's field `k` points at: the
/// witness of [`binding_resolves`]'s existential.
pub open spec fn field_index_of(mem: ProcessMemory, b: RecordBinding, desc: RecordDesc, k: int) -> int {
    choose|i: int|
        0 <= i < b.class.field_count && #[trigger] field_name_is(
            mem,
            b.class,
            i,
            desc.fields@[k].name@,
        ) && b.fields@[k].offset as int == field_offset_val(
            mem,
            field_entry_addr(b.class.fields.addr as int, i),
        )
}

/// Law: the bind-then-decode round trip reproduces the instance's field
/// values exactly.  If a binding resolves a description and a decode of an
/// instance through it succeeded, then the record has one value per
/// declared field, and value `k` is exactly the instance's bytes at the
/// offset the class's field table stores under the declared name — for any
/// number of declared fields.
pub proof fn lemma_bind_decode_round_trip(
    mem: ProcessMemory,
    desc: RecordDesc,
    b: RecordBinding,
    instance: Ptr<()>,
    rec: Record,
)
    requires
        binding_resolves(mem, desc, b),
        rec.values@.len() == b.fields@.len(),
        forall|k: int|
            0 <= k < b.fields@.len() ==> (#[trigger] rec.values@[k])@ == mem.bytes_at(
                instance.addr + b.fields@[k].offset,
                b.fields@[k].size as nat,
            ),
    ensures
        rec.values@.len() == desc.fields@.len(),
        forall|k: int|
            #![trigger desc.fields@[k]]
            0 <= k < desc.fields@.len() ==> field_name_is(
                mem,
                b.class,
                field_index_of(mem, b, desc, k),
                desc.fields@[k].name@,
            ) && 0 <= field_index_of(mem, b, desc, k) < b.class.field_count && (rec.values@[k])@
                == mem.bytes_at(
                instance.addr + field_offset_val(
                    mem,
                    field_entry_addr(b.class.fields.addr as int, field_index_of(mem, b, desc, k)),
                ),
                desc.fields@[k].size as nat,
            ),
{
    assert forall|k: int|
        #![trigger desc.fields@[k]]
        0 <= k < desc.fields@.len() implies field_name_is(
        mem,
        b.class,
        field_index_of(mem, b, desc, k),
        desc.fields@[k].name@,
    ) && 0 <= field_index_of(mem, b, desc, k) < b.class.field_count && (rec.values@[k])@
        == mem.bytes_at(
        instance.addr + field_offset_val(
            mem,
            field_entry_addr(b.class.fields.addr as int, field_index_of(mem, b, desc, k)),
        ),
        desc.fields@[k].size as nat,
    ) by {
        assert(b.fields@[k].name@ == desc.fields@[k].name@);
        let i = field_index_of(mem, b, desc, k);
        assert((rec.values@[k])@ == mem.bytes_at(
            instance.addr + b.fields@[k].offset,
            b.fields@[k].size as nat,
        ));
        assert(field_name_is(mem, b.class, i, desc.fields@[k].name@) && b.fields@[k].offset as int
            == field_offset_val(mem, field_entry_addr(b.class.fields.addr as int, i)) && 0 <= i
            < b.class.field_count);
    }
}

} // verus!
