use asr_dotnet::glib::{GHashTable, GList, Slot};
use asr_dotnet::memory::{MemRegion, ProcessMemory};
use asr_dotnet::ptr::Ptr;
use asr_dotnet::IoFailure;

fn cw64(buf: &mut [u8], off: usize, v: u64) {
    buf[off..off + 8].copy_from_slice(&v.to_le_bytes());
}

fn cw32(buf: &mut [u8], off: usize, v: u32) {
    buf[off..off + 4].copy_from_slice(&v.to_le_bytes());
}

const BASE: u64 = 0x100000;

fn flat(buf: Vec<u8>) -> ProcessMemory {
    ProcessMemory { regions: vec![MemRegion { base: BASE, bytes: buf }] }
}

#[test]
fn glist_iterates_payloads_in_order() {
    // Three nodes at 0x100, 0x200, 0x300; payloads 0xA1, 0xA2, 0xA3.
    let mut buf = vec![0u8; 0x400];
    cw64(&mut buf, 0x100, 0xA1);
    cw64(&mut buf, 0x108, BASE + 0x200);
    cw64(&mut buf, 0x200, 0xA2);
    cw64(&mut buf, 0x208, BASE + 0x300);
    cw64(&mut buf, 0x300, 0xA3);
    let mem = flat(buf);
    let head: Ptr<GList<u64>> = Ptr::new(BASE + 0x100);
    let node = head.read(&mem).unwrap();
    assert_eq!(node.data.addr, 0xA1);
    assert_eq!(node.next.addr, BASE + 0x200);
    let items = head.iter(&mem).unwrap();
    let addrs: Vec<u64> = items.iter().map(|p| p.addr).collect();
    assert_eq!(addrs, vec![0xA1, 0xA2, 0xA3]);
}

#[test]
fn glist_empty_and_broken() {
    let mem = flat(vec![0u8; 0x40]);
    let empty: Ptr<GList<u64>> = Ptr::new(0);
    assert_eq!(empty.iter(&mem).unwrap().len(), 0);
    // A node pointing into unmapped memory fails the whole walk.
    let mut buf = vec![0u8; 0x40];
    cw64(&mut buf, 0x0, 0xA1);
    cw64(&mut buf, 0x8, 0xDEAD0000);
    let mem = flat(buf);
    let head: Ptr<GList<u64>> = Ptr::new(BASE);
    assert!(matches!(head.iter(&mem), Err(IoFailure::Unmapped(_))));
}

#[test]
fn glist_cycle_terminates() {
    let mut buf = vec![0u8; 0x40];
    cw64(&mut buf, 0x0, 0xA1);
    cw64(&mut buf, 0x8, BASE); // points back at itself
    let mem = flat(buf);
    let head: Ptr<GList<u64>> = Ptr::new(BASE);
    assert!(matches!(head.iter(&mem), Err(IoFailure::ChainTooLong)));
}

#[test]
fn hash_table_traversal_is_complete_and_ordered() {
    // Bucket array of size 4 holding 4 chained entries: bucket 0 chains two
    // slots, bucket 1 is empty, bucket 2 chains one, bucket 3 chains one.
    let mut buf = vec![0u8; 0x1000];
    // bucket-head array at 0x100
    cw64(&mut buf, 0x100, BASE + 0x200); // bucket 0 -> slot A
    cw64(&mut buf, 0x110, BASE + 0x280); // bucket 2 -> slot C
    cw64(&mut buf, 0x118, BASE + 0x2C0); // bucket 3 -> slot D
    // slot A at 0x200: key 1, value 11, next -> slot B
    cw64(&mut buf, 0x200, 1);
    cw64(&mut buf, 0x208, 11);
    cw64(&mut buf, 0x210, BASE + 0x240);
    // slot B at 0x240: key 2, value 12
    cw64(&mut buf, 0x240, 2);
    cw64(&mut buf, 0x248, 12);
    // slot C at 0x280: key 3, value 13
    cw64(&mut buf, 0x280, 3);
    cw64(&mut buf, 0x288, 13);
    // slot D at 0x2C0: key 4, value 14
    cw64(&mut buf, 0x2C0, 4);
    cw64(&mut buf, 0x2C8, 14);
    let mem = flat(buf);
    let table: GHashTable<u64, u64> = GHashTable { table: Ptr::new(BASE + 0x100), table_size: 4 };
    let entries = table.iter(&mem).unwrap();
    let pairs: Vec<(u64, u64)> = entries.iter().map(|(k, v)| (k.addr, v.addr)).collect();
    // Exactly the 4 entries, in bucket-index order with chain order kept.
    assert_eq!(pairs, vec![(1, 11), (2, 12), (3, 13), (4, 14)]);
}

#[test]
fn hash_table_header_decodes() {
    let mut buf = vec![0u8; 0x40];
    cw64(&mut buf, 16, BASE + 0x100);
    cw32(&mut buf, 24, 7);
    let mem = flat(buf);
    let h: Ptr<GHashTable<u64, u64>> = Ptr::new(BASE);
    let t = h.read(&mem).unwrap();
    assert_eq!(t.table.addr, BASE + 0x100);
    assert_eq!(t.table_size, 7);
}

#[test]
fn hash_table_empty_buckets_terminate() {
    let buf = vec![0u8; 0x100];
    let mem = flat(buf);
    let table: GHashTable<u64, u64> = GHashTable { table: Ptr::new(BASE), table_size: 8 };
    assert_eq!(table.iter(&mem).unwrap().len(), 0);
}

#[test]
fn hash_table_broken_chain_fails_whole_walk() {
    let mut buf = vec![0u8; 0x1000];
    cw64(&mut buf, 0x0, BASE + 0x200);
    cw64(&mut buf, 0x200, 1);
    cw64(&mut buf, 0x210, 0xDEAD0000); // next points into unmapped memory
    let mem = flat(buf);
    let table: GHashTable<u64, u64> = GHashTable { table: Ptr::new(BASE), table_size: 1 };
    assert!(matches!(table.iter(&mem), Err(IoFailure::Unmapped(_))));
}

#[test]
fn slot_type_exists() {
    let s: Slot<u64, u64> = Slot { key: Ptr::new(1), value: Ptr::new(2), next: Ptr::new(0) };
    assert_eq!(s.key.addr, 1);
    assert_eq!(s.value.addr, 2);
    assert!(s.next.is_null());
}
