use asr_dotnet::binding::{bind, decode, FieldBinding, FieldDesc, RecordBinding, RecordDesc};
use asr_dotnet::classes::INSTANCE_BUF_CAP;
use asr_dotnet::memory::{MemRegion, ProcessMemory};
use asr_dotnet::metadata::{Abi, MonoClass, MonoImage};
use asr_dotnet::ptr::Ptr;
use asr_dotnet::{BindFailure, DecodeFailure};

const BASE: u64 = 0x800000;

fn rw64(buf: &mut [u8], off: usize, v: u64) {
    buf[off..off + 8].copy_from_slice(&v.to_le_bytes());
}

fn rw32(buf: &mut [u8], off: usize, v: u32) {
    buf[off..off + 4].copy_from_slice(&v.to_le_bytes());
}

fn rstr(buf: &mut [u8], off: usize, s: &[u8]) {
    buf[off..off + s.len()].copy_from_slice(s);
    buf[off + s.len()] = 0;
}

/// A legacy image with one class "Timer" whose fields sit at consecutive
/// 4-byte offsets, plus an instance at a fixed address.
fn image_with_fields(names: &[&[u8]], instance: &[u8]) -> (ProcessMemory, Ptr<MonoImage>) {
    let mut buf = vec![0u8; 0xA000];
    rw32(&mut buf, 1240, 1);
    rw64(&mut buf, 1248, BASE + 0x2000);
    rw64(&mut buf, 0x2000, BASE + 0x3000);
    rw32(&mut buf, 0x3000 + 28, instance.len() as u32);
    rw64(&mut buf, 0x3000 + 72, BASE + 0x4000);
    rw64(&mut buf, 0x3000 + 80, BASE + 0x4100);
    rw64(&mut buf, 0x3000 + 152, BASE + 0x5000);
    rw32(&mut buf, 0x3000 + 256, names.len() as u32);
    rstr(&mut buf, 0x4000, b"Timer");
    rstr(&mut buf, 0x4100, b"");
    for (i, name) in names.iter().enumerate() {
        let name_at = 0x4200 + 0x80 * i;
        rstr(&mut buf, name_at, name);
        rw64(&mut buf, 0x5000 + 32 * i + 8, BASE + name_at as u64);
        rw32(&mut buf, 0x5000 + 32 * i + 24, (4 * i) as u32);
    }
    buf[0x9000..0x9000 + instance.len()].copy_from_slice(instance);
    let mem = ProcessMemory { regions: vec![MemRegion { base: BASE, bytes: buf }] };
    (mem, Ptr::new(BASE))
}

fn desc_of(names: &[&[u8]], sizes: &[u32]) -> RecordDesc {
    RecordDesc {
        class_name: b"Timer".to_vec(),
        name_space: Vec::new(),
        fields: names
            .iter()
            .zip(sizes)
            .map(|(n, s)| FieldDesc { name: n.to_vec(), size: *s })
            .collect(),
    }
}

#[test]
fn bind_then_decode_round_trip() {
    // Three named fields at known offsets; decode must reproduce the exact
    // instance bytes of every field.
    let names: &[&[u8]] = &[b"alpha", b"beta", b"gamma"];
    let instance: Vec<u8> = (0u8..12).collect();
    let (mem, image_ptr) = image_with_fields(names, &instance);
    let image = MonoImage::read_legacy(&mem, image_ptr).unwrap();
    let desc = desc_of(names, &[4, 4, 4]);
    let binding = bind(&desc, &image, &mem).unwrap();
    assert_eq!(binding.fields.len(), 3);
    assert_eq!(binding.fields[0].offset, 0);
    assert_eq!(binding.fields[1].offset, 4);
    assert_eq!(binding.fields[2].offset, 8);
    let rec = decode(&binding, Ptr::new(BASE + 0x9000), &mem).unwrap();
    assert_eq!(rec.values.len(), 3);
    assert_eq!(rec.values[0], vec![0, 1, 2, 3]);
    assert_eq!(rec.values[1], vec![4, 5, 6, 7]);
    assert_eq!(rec.values[2], vec![8, 9, 10, 11]);
}

#[test]
fn bind_is_all_or_nothing_on_missing_field() {
    let names: &[&[u8]] = &[b"alpha", b"beta"];
    let (mem, image_ptr) = image_with_fields(names, &[0u8; 8]);
    let image = MonoImage::read_legacy(&mem, image_ptr).unwrap();
    let desc = desc_of(&[b"alpha", b"beta", b"gamma"], &[4, 4, 4]);
    assert!(matches!(
        bind(&desc, &image, &mem),
        Err(BindFailure::FieldNotFound(2))
    ));
}

#[test]
fn bind_fails_whole_when_last_field_unreadable() {
    // The last field of an otherwise satisfiable binding has its name
    // string in unmapped memory: bind must fail as a whole, never return
    // a binding missing one field.
    let names: &[&[u8]] = &[b"alpha", b"beta", b"gamma"];
    let (mut mem, image_ptr) = image_with_fields(names, &[0u8; 12]);
    // Point the last field's name out of the mapping.
    let buf = &mut mem.regions[0].bytes;
    rw64(buf, 0x5000 + 32 * 2 + 8, 0xDEAD0000);
    let image = MonoImage::read_legacy(&mem, image_ptr).unwrap();
    let desc = desc_of(names, &[4, 4, 4]);
    assert!(matches!(bind(&desc, &image, &mem), Err(BindFailure::Io(_))));
}

#[test]
fn bind_unknown_class_fails() {
    let names: &[&[u8]] = &[b"alpha"];
    let (mem, image_ptr) = image_with_fields(names, &[0u8; 4]);
    let image = MonoImage::read_legacy(&mem, image_ptr).unwrap();
    let mut desc = desc_of(names, &[4]);
    desc.class_name = b"Missing".to_vec();
    assert!(matches!(
        bind(&desc, &image, &mem),
        Err(BindFailure::ClassNotFound)
    ));
}

fn bare_class(instance_size: u32) -> MonoClass {
    MonoClass {
        abi: Abi::Legacy,
        name: Ptr::new(0),
        name_space: Ptr::new(0),
        instance_size,
        fields: Ptr::new(0),
        field_count: 0,
        runtime_info: Ptr::new(0),
        vtable_size: 0,
        static_fields: Ptr::new(0),
    }
}

#[test]
fn decode_rejects_field_past_snapshot() {
    // offset + size exceeds the snapshot length: the whole decode fails,
    // nothing is read past the snapshot slice.
    let mem = ProcessMemory {
        regions: vec![MemRegion { base: BASE, bytes: vec![9u8; 8] }],
    };
    let binding = RecordBinding {
        class: bare_class(8),
        fields: vec![
            FieldBinding { name: b"ok".to_vec(), offset: 0, size: 4 },
            FieldBinding { name: b"oob".to_vec(), offset: 6, size: 4 },
        ],
    };
    assert!(matches!(
        decode(&binding, Ptr::new(BASE), &mem),
        Err(DecodeFailure::FieldOutOfRange(1))
    ));
}

#[test]
fn decode_rejects_oversized_instance_loudly() {
    let mem = ProcessMemory { regions: vec![] };
    let binding = RecordBinding {
        class: bare_class((INSTANCE_BUF_CAP as u32) + 1),
        fields: vec![],
    };
    assert!(matches!(
        decode(&binding, Ptr::new(BASE), &mem),
        Err(DecodeFailure::InstanceTooLarge)
    ));
}

#[test]
fn decode_is_transient_on_unmapped_instance() {
    let mem = ProcessMemory { regions: vec![] };
    let binding = RecordBinding { class: bare_class(8), fields: vec![] };
    assert!(matches!(
        decode(&binding, Ptr::new(BASE), &mem),
        Err(DecodeFailure::Io(_))
    ));
}

#[test]
fn timer_scenario_decodes_expected_values() {
    // Class "Timer" with currentLevelTime: f32 at offset 0 and
    // timerStopped: u8 at offset 4; instance bytes 12.5f32 and false.
    let names: &[&[u8]] = &[b"currentLevelTime", b"timerStopped"];
    let mut instance = vec![0u8; 12];
    instance[0..4].copy_from_slice(&12.5f32.to_le_bytes());
    instance[4] = 0x00;
    let (mem, image_ptr) = image_with_fields(names, &instance);
    let image = MonoImage::read_legacy(&mem, image_ptr).unwrap();
    let desc = desc_of(names, &[4, 1]);
    let binding = bind(&desc, &image, &mem).unwrap();
    let rec = decode(&binding, Ptr::new(BASE + 0x9000), &mem).unwrap();
    let level_time = f32::from_le_bytes(rec.values[0][0..4].try_into().unwrap());
    let stopped = rec.values[1][0] != 0;
    assert_eq!(level_time, 12.5);
    assert!(!stopped);
}

#[test]
fn find_field_duplicate_names_first_wins() {
    // The runtime never presents duplicate names in practice, but the
    // lookup must not special-case them: first match in table order wins.
    let names: &[&[u8]] = &[b"alpha", b"dup", b"dup"];
    let (mem, image_ptr) = image_with_fields(names, &[0u8; 12]);
    let image = MonoImage::read_legacy(&mem, image_ptr).unwrap();
    let classes = image.classes(&mem).unwrap();
    assert_eq!(classes[0].find_field(&mem, b"dup").unwrap(), 4);
}

#[test]
fn decode_accepts_field_ending_exactly_at_snapshot() {
    let mem = ProcessMemory {
        regions: vec![MemRegion { base: BASE, bytes: vec![5u8; 8] }],
    };
    let binding = RecordBinding {
        class: bare_class(8),
        fields: vec![FieldBinding { name: b"tail".to_vec(), offset: 4, size: 4 }],
    };
    let rec = decode(&binding, Ptr::new(BASE), &mem).unwrap();
    assert_eq!(rec.values[0], vec![5, 5, 5, 5]);
}
