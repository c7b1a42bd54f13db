use asr_dotnet::classes::INSTANCE_BUF_CAP;
use asr_dotnet::memory::{MemRegion, ProcessMemory};
use asr_dotnet::metadata::{
    Abi, MonoAssembly, MonoAssemblyName, MonoClass, MonoClassDef, MonoClassField,
    MonoClassRuntimeInfo, MonoImage, MonoInternalHashTable, MonoPropertyBag, MonoStreamHeader,
    MonoTableInfo, MonoType, MonoVTable,
};
use asr_dotnet::ptr::Ptr;
use asr_dotnet::{DecodeFailure, IoFailure, LookupFailure};

const BASE: u64 = 0x400000;

fn mw64(buf: &mut [u8], off: usize, v: u64) {
    buf[off..off + 8].copy_from_slice(&v.to_le_bytes());
}

fn mw32(buf: &mut [u8], off: usize, v: u32) {
    buf[off..off + 4].copy_from_slice(&v.to_le_bytes());
}

fn mw16(buf: &mut [u8], off: usize, v: u16) {
    buf[off..off + 2].copy_from_slice(&v.to_le_bytes());
}

fn mstr(buf: &mut [u8], off: usize, s: &[u8]) {
    buf[off..off + s.len()].copy_from_slice(s);
    buf[off + s.len()] = 0;
}

/// Builds a process image holding one legacy-layout image whose class
/// cache has two buckets and one class "Timer" with fields
/// `currentLevelTime` (offset 0), `timerStopped` (offset 4), `_instance`
/// (static, offset 0) and `_none` (static, offset 8).
fn legacy_image() -> (ProcessMemory, Ptr<MonoImage>) {
    let mut buf = vec![0u8; 0xA000];
    // image at +0: class cache at +1216: size, entries, bucket table
    mw32(&mut buf, 1240, 2);
    mw32(&mut buf, 1244, 1);
    mw64(&mut buf, 1248, BASE + 0x2000);
    // bucket array: bucket 0 -> class def, bucket 1 empty
    mw64(&mut buf, 0x2000, BASE + 0x3000);
    // class def at +0x3000
    mw32(&mut buf, 0x3000 + 28, 16); // instance_size
    mw64(&mut buf, 0x3000 + 72, BASE + 0x4000); // name
    mw64(&mut buf, 0x3000 + 80, BASE + 0x4100); // namespace
    mw32(&mut buf, 0x3000 + 92, 2); // vtable_size
    mw64(&mut buf, 0x3000 + 152, BASE + 0x5000); // field table
    mw64(&mut buf, 0x3000 + 208, BASE + 0x6000); // runtime info
    mw32(&mut buf, 0x3000 + 256, 4); // field count
    mw64(&mut buf, 0x3000 + 264, 0); // no next class in bucket
    // strings
    mstr(&mut buf, 0x4000, b"Timer");
    mstr(&mut buf, 0x4100, b"");
    mstr(&mut buf, 0x4200, b"currentLevelTime");
    mstr(&mut buf, 0x4300, b"timerStopped");
    mstr(&mut buf, 0x4400, b"_instance");
    mstr(&mut buf, 0x4500, b"_none");
    // field table: 32-byte entries, name at +8, offset at +24
    mw64(&mut buf, 0x5000 + 8, BASE + 0x4200);
    mw32(&mut buf, 0x5000 + 24, 0);
    mw64(&mut buf, 0x5020 + 8, BASE + 0x4300);
    mw32(&mut buf, 0x5020 + 24, 4);
    mw64(&mut buf, 0x5040 + 8, BASE + 0x4400);
    mw32(&mut buf, 0x5040 + 24, 0);
    mw64(&mut buf, 0x5060 + 8, BASE + 0x4500);
    mw32(&mut buf, 0x5060 + 24, 8);
    // runtime info at +0x6000: first domain vtable pointer at +8
    mw16(&mut buf, 0x6000, 1);
    mw64(&mut buf, 0x6008, BASE + 0x7000);
    // vtable at +0x7000: static-field memory pointer after 64-byte header
    // and 2 slots
    mw64(&mut buf, 0x7000 + 64 + 16, BASE + 0x8000);
    // static-field storage: `_instance` holds the singleton, `_none` null
    mw64(&mut buf, 0x8000, BASE + 0x9000);
    // instance bytes: 12.5f32 little-endian, then a zero flag byte
    buf[0x9000] = 0x00;
    buf[0x9001] = 0x00;
    buf[0x9002] = 0x48;
    buf[0x9003] = 0x41;
    let mem = ProcessMemory { regions: vec![MemRegion { base: BASE, bytes: buf }] };
    (mem, Ptr::new(BASE))
}

#[test]
fn legacy_image_and_class_decode() {
    let (mem, image_ptr) = legacy_image();
    let image = MonoImage::read_legacy(&mem, image_ptr).unwrap();
    match image {
        MonoImage::Legacy { class_cache } => {
            assert_eq!(class_cache.size, 2);
            assert_eq!(class_cache.num_entries, 1);
            assert_eq!(class_cache.table.addr, BASE + 0x2000);
        },
        _ => panic!("wrong layout"),
    }
    let cd = MonoClassDef::read(&mem, Ptr::new(BASE + 0x3000)).unwrap();
    assert_eq!(cd.klass.abi, Abi::Legacy);
    assert_eq!(cd.klass.instance_size, 16);
    assert_eq!(cd.klass.vtable_size, 2);
    assert_eq!(cd.field_count, 4);
    assert_eq!(cd.klass.name.addr, BASE + 0x4000);
    assert!(cd.next_class_cache.is_null());
}

#[test]
fn legacy_classes_enumerate() {
    let (mem, image_ptr) = legacy_image();
    let image = MonoImage::read_legacy(&mem, image_ptr).unwrap();
    let classes = image.classes(&mem).unwrap();
    assert_eq!(classes.len(), 1);
    let name = classes[0].name.read_str(&mem).unwrap();
    assert_eq!(name, b"Timer".to_vec());
}

#[test]
fn find_field_returns_first_match_offset() {
    let (mem, image_ptr) = legacy_image();
    let image = MonoImage::read_legacy(&mem, image_ptr).unwrap();
    let cls = image.classes(&mem).unwrap()[0];
    assert_eq!(cls.find_field(&mem, b"currentLevelTime").unwrap(), 0);
    assert_eq!(cls.find_field(&mem, b"timerStopped").unwrap(), 4);
    assert_eq!(cls.find_field(&mem, b"_none").unwrap(), 8);
    assert_eq!(
        cls.find_field(&mem, b"absent"),
        Err(LookupFailure::NotFound)
    );
}

#[test]
fn fields_enumerates_in_table_order() {
    let (mem, image_ptr) = legacy_image();
    let image = MonoImage::read_legacy(&mem, image_ptr).unwrap();
    let cls = image.classes(&mem).unwrap()[0];
    let fs = cls.fields(&mem).unwrap();
    assert_eq!(fs.len(), 4);
    assert_eq!(fs[0].offset, 0);
    assert_eq!(fs[1].offset, 4);
    assert_eq!(fs[1].name.read_str(&mem).unwrap(), b"timerStopped".to_vec());
    let f0 = MonoClassField::read_nth(&mem, cls.fields, 0, Abi::Legacy).unwrap();
    assert_eq!(f0.offset, 0);
}

#[test]
fn static_field_chain_resolves() {
    let (mem, image_ptr) = legacy_image();
    let image = MonoImage::read_legacy(&mem, image_ptr).unwrap();
    let cls = image.classes(&mem).unwrap()[0];
    let base = cls.get_static_field_memory(&mem).unwrap();
    assert_eq!(base.addr, BASE + 0x8000);
}

#[test]
fn find_singleton_follows_static_field() {
    let (mem, image_ptr) = legacy_image();
    let image = MonoImage::read_legacy(&mem, image_ptr).unwrap();
    let cls = image.classes(&mem).unwrap()[0];
    let inst = cls.find_singleton(&mem, b"_instance").unwrap();
    assert_eq!(inst.addr, BASE + 0x9000);
    // A present field whose static slot is null is reported as such.
    assert!(matches!(
        cls.find_singleton(&mem, b"_none"),
        Err(LookupFailure::NullInstance)
    ));
    assert!(matches!(
        cls.find_singleton(&mem, b"missing"),
        Err(LookupFailure::NotFound)
    ));
}

#[test]
fn get_instance_takes_one_bounded_snapshot() {
    let (mem, image_ptr) = legacy_image();
    let image = MonoImage::read_legacy(&mem, image_ptr).unwrap();
    let cls = image.classes(&mem).unwrap()[0];
    let snap = cls.get_instance(&mem, Ptr::new(BASE + 0x9000)).unwrap();
    assert_eq!(snap.len(), 16);
    assert_eq!(&snap[0..4], &[0x00, 0x00, 0x48, 0x41]);
    // Null instances fail without reading address 0.
    assert_eq!(
        cls.get_instance(&mem, Ptr::new(0)),
        Err(DecodeFailure::Io(IoFailure::NullPointer))
    );
    // An instance size over the snapshot cap is a distinct, loud failure.
    let mut big = cls;
    big.instance_size = (INSTANCE_BUF_CAP as u32) + 1;
    assert_eq!(
        big.get_instance(&mem, Ptr::new(BASE + 0x9000)),
        Err(DecodeFailure::InstanceTooLarge)
    );
}

#[test]
fn aot_image_and_classes() {
    let mut buf = vec![0u8; 0x4000];
    // image at +0: type_count 3 at +24, metadata handle pointer at +40
    mw32(&mut buf, 24, 3);
    mw64(&mut buf, 40, BASE + 0x100);
    mw32(&mut buf, 0x100, 2); // handle value: skip two table entries
    // type-definition table at +0x200: entries 2..4 belong to this image
    mw64(&mut buf, 0x210, BASE + 0x1000);
    mw64(&mut buf, 0x218, 0); // a null entry is skipped
    mw64(&mut buf, 0x220, BASE + 0x2000);
    // two ahead-of-time classes
    mw64(&mut buf, 0x1000 + 16, BASE + 0x3000); // name
    mw64(&mut buf, 0x1000 + 24, BASE + 0x3100); // namespace
    mw64(&mut buf, 0x1000 + 184, BASE + 0x3800); // static fields
    mw32(&mut buf, 0x1000 + 248, 24); // instance size
    mw16(&mut buf, 0x1000 + 288, 1); // field count
    mw64(&mut buf, 0x2000 + 16, BASE + 0x3200);
    mw64(&mut buf, 0x2000 + 24, BASE + 0x3100);
    mstr(&mut buf, 0x3000, b"GameManager");
    mstr(&mut buf, 0x3100, b"");
    mstr(&mut buf, 0x3200, b"Timer");
    let mem = ProcessMemory { regions: vec![MemRegion { base: BASE, bytes: buf }] };
    let image = MonoImage::read_aot(&mem, Ptr::new(BASE), Ptr::new(BASE + 0x200)).unwrap();
    match image {
        MonoImage::Il2cpp { type_count, type_defs } => {
            assert_eq!(type_count, 3);
            assert_eq!(type_defs.addr, BASE + 0x210);
        },
        _ => panic!("wrong layout"),
    }
    let classes = image.classes(&mem).unwrap();
    assert_eq!(classes.len(), 2);
    assert_eq!(classes[0].abi, Abi::Il2cpp);
    assert_eq!(classes[0].name.read_str(&mem).unwrap(), b"GameManager".to_vec());
    assert_eq!(classes[0].instance_size, 24);
    assert_eq!(classes[0].field_count, 1);
    assert_eq!(classes[0].static_fields.addr, BASE + 0x3800);
    assert_eq!(classes[1].name.read_str(&mem).unwrap(), b"Timer".to_vec());
    let direct = MonoClass::read_aot(&mem, Ptr::new(BASE + 0x1000)).unwrap();
    assert_eq!(direct.name.addr, BASE + 0x3000);
}

#[test]
fn auxiliary_structures_decode() {
    let mut buf = vec![0u8; 0x200];
    mw64(&mut buf, 0, 0x1234);
    mw16(&mut buf, 8, 7); // MonoType attrs
    buf[10] = 3; // MonoType kind
    buf[11] = 9; // MonoType flags / MonoTableInfo row size
    let mem = ProcessMemory { regions: vec![MemRegion { base: BASE, bytes: buf }] };
    let t = MonoType::read(&mem, Ptr::new(BASE)).unwrap();
    assert_eq!((t.data.addr, t.attrs, t.kind, t.flags), (0x1234, 7, 3, 9));
    let h = MonoStreamHeader::read(&mem, Ptr::new(BASE)).unwrap();
    assert_eq!(h.data.addr, 0x1234);
    let ti = MonoTableInfo::read(&mem, Ptr::new(BASE)).unwrap();
    assert_eq!((ti.base.addr, ti.row_size), (0x1234, 9));
    let ri = MonoClassRuntimeInfo::read(&mem, Ptr::new(BASE)).unwrap();
    assert_eq!(ri.max_domain, 0x1234);
    let vt = MonoVTable::read(&mem, Ptr::new(BASE)).unwrap();
    assert_eq!(vt.klass.addr, 0x1234);
    let bag = MonoPropertyBag { head: Ptr::new(5) };
    assert_eq!(bag.head.addr, 5);
    let _ = MonoInternalHashTable::read_at(&mem, BASE).unwrap();
}

#[test]
fn assembly_name_decodes_per_layout() {
    let mut buf = vec![0u8; 0x200];
    mw64(&mut buf, 0, BASE + 0x80); // name ptr
    mw64(&mut buf, 8, BASE + 0x90); // culture ptr
    mw16(&mut buf, 64, 1);
    mw16(&mut buf, 66, 2);
    mw16(&mut buf, 68, 3);
    mw16(&mut buf, 70, 4);
    let mem = ProcessMemory { regions: vec![MemRegion { base: BASE, bytes: buf }] };
    let a = MonoAssemblyName::read_at(&mem, BASE, Abi::Legacy).unwrap();
    assert_eq!(a.name.addr, BASE + 0x80);
    assert_eq!((a.major, a.minor, a.build, a.revision), (1, 2, 3, 4));
    let mut buf2 = vec![0u8; 0x200];
    mw64(&mut buf2, 24, BASE + 0x80); // embedded assembly name at +24
    mw32(&mut buf2, 24 + 36, 5);
    mw64(&mut buf2, 0, BASE + 0x100); // image pointer at +0
    let mem2 = ProcessMemory { regions: vec![MemRegion { base: BASE, bytes: buf2 }] };
    let assembly = MonoAssembly::read(&mem2, Ptr::new(BASE), Abi::Il2cpp).unwrap();
    assert_eq!(assembly.image.addr, BASE + 0x100);
    assert_eq!(assembly.aname.major, 5);
}

#[test]
fn ruined_chain_fails_enumeration() {
    // The single bucket points at a class whose body is unmapped.
    let mut buf = vec![0u8; 0x2100];
    mw32(&mut buf, 1240, 1);
    mw64(&mut buf, 1248, BASE + 0x2000);
    mw64(&mut buf, 0x2000, 0xDEAD0000);
    let mem = ProcessMemory { regions: vec![MemRegion { base: BASE, bytes: buf }] };
    let image = MonoImage::read_legacy(&mem, Ptr::new(BASE)).unwrap();
    assert!(image.classes(&mem).is_err());
}
