use asr_dotnet::cstr::{PAGE_SIZE, STR_CAP};
use asr_dotnet::glib::g_str_hash_with_artificial_nul_terminator;
use asr_dotnet::memory::{MemRegion, ProcessMemory};
use asr_dotnet::ptr::{CStr, Ptr};
use asr_dotnet::IoFailure;

fn mem_one_region(base: u64, bytes: Vec<u8>) -> ProcessMemory {
    ProcessMemory { regions: vec![MemRegion { base, bytes }] }
}

#[test]
fn read_bytes_roundtrip() {
    let mem = mem_one_region(0x1000, vec![1, 2, 3, 4, 5]);
    assert_eq!(mem.read_bytes(0x1000, 5).unwrap(), vec![1, 2, 3, 4, 5]);
    assert_eq!(mem.read_bytes(0x1002, 2).unwrap(), vec![3, 4]);
    assert_eq!(mem.read_bytes(0x1000, 0).unwrap(), Vec::<u8>::new());
}

#[test]
fn read_bytes_reports_first_unmapped() {
    let mem = mem_one_region(0x1000, vec![1, 2, 3, 4, 5]);
    assert_eq!(mem.read_bytes(0x1003, 4), Err(IoFailure::Unmapped(0x1005)));
    assert_eq!(mem.read_bytes(0x0800, 1), Err(IoFailure::Unmapped(0x0800)));
}

#[test]
fn read_bytes_spans_adjacent_regions() {
    let mem = ProcessMemory {
        regions: vec![
            MemRegion { base: 0x1000, bytes: vec![1, 2] },
            MemRegion { base: 0x1002, bytes: vec![3, 4] },
        ],
    };
    assert_eq!(mem.read_bytes(0x1000, 4).unwrap(), vec![1, 2, 3, 4]);
}

#[test]
fn read_integers_little_endian() {
    let mem = mem_one_region(0x2000, vec![0x78, 0x56, 0x34, 0x12, 0xEF, 0xCD, 0xAB, 0x89]);
    assert_eq!(mem.read_u16(0x2000).unwrap(), 0x5678);
    assert_eq!(mem.read_u32(0x2000).unwrap(), 0x12345678);
    assert_eq!(mem.read_u64(0x2000).unwrap(), 0x89ABCDEF12345678);
}

#[test]
fn pointer_null_and_arithmetic() {
    let p = Ptr::<u64>::new(0);
    assert!(p.is_null());
    let q = Ptr::<u64>::new(0x4000);
    assert!(!q.is_null());
    assert_eq!(q.byte_offset(8).addr, 0x4008);
    assert_eq!(q.cast::<u32>().addr, 0x4000);
    let r: Ptr<Ptr<u64>> = Ptr::new(0x4000);
    assert_eq!(r.offset(3).addr, 0x4018);
    assert_eq!(q.checked_byte_offset(4).unwrap().addr, 0x4004);
    assert!(matches!(
        Ptr::<u64>::new(u64::MAX).checked_byte_offset(1),
        Err(IoFailure::OutOfAddressSpace)
    ));
}

#[test]
fn null_pointer_reads_fail_without_touching_memory() {
    // Map address 0 on purpose: the null check must fire first.
    let mem = mem_one_region(0, vec![7; 64]);
    assert_eq!(Ptr::<u64>::new(0).read(&mem), Err(IoFailure::NullPointer));
    assert_eq!(Ptr::<u32>::new(0).read(&mem), Err(IoFailure::NullPointer));
    let pp: Ptr<Ptr<u64>> = Ptr::new(0);
    assert!(matches!(pp.read(&mem), Err(IoFailure::NullPointer)));
    let cs: Ptr<CStr> = Ptr::new(0);
    assert_eq!(cs.read_str(&mem), Err(IoFailure::NullPointer));
}

#[test]
fn read_str_simple() {
    // The reader requests whole chunks, so map a chunk's worth of margin
    // past the terminator.
    let mut bytes = b"hello".to_vec();
    bytes.push(0);
    bytes.extend_from_slice(b"junk");
    bytes.resize(512, 0x7A);
    let mem = mem_one_region(0x3000, bytes);
    let s = Ptr::<CStr>::new(0x3000).read_str(&mem).unwrap();
    assert_eq!(s, b"hello".to_vec());
}

#[test]
fn read_str_terminator_on_page_boundary() {
    // The string occupies exactly [0x1FF7, 0x2000): its NUL is the last
    // byte of a 4096-byte page, and nothing past the boundary is mapped.
    let mut bytes = b"deadbeef".to_vec();
    bytes.push(0);
    let mem = mem_one_region(0x2000 - 9, bytes);
    let p = Ptr::<CStr>::new(0x2000 - 9);
    let with_default = p.read_str(&mem).unwrap();
    assert_eq!(with_default, b"deadbeef".to_vec());
    // The result must not depend on the chunking granularity: the same
    // bytes come back under every power-of-two page size.
    assert_eq!(PAGE_SIZE, 4096);
    for page in [64u64, 256, 512, 1024, 2048, 4096, 8192] {
        let s = p.read_str_paged(&mem, page).unwrap();
        assert_eq!(s, with_default);
    }
}

#[test]
fn read_str_unterminated_hits_cap() {
    let bytes = vec![b'x'; STR_CAP + 64];
    let mem = mem_one_region(0x10000, bytes);
    assert_eq!(
        Ptr::<CStr>::new(0x10000).read_str(&mem),
        Err(IoFailure::StringTooLong)
    );
}

#[test]
fn read_str_unmapped_tail_fails() {
    // No NUL before the mapping ends mid-page: the scan must fail, not
    // fabricate a string.
    let mem = mem_one_region(0x8000, b"abc".to_vec());
    assert!(matches!(
        Ptr::<CStr>::new(0x8000).read_str(&mem),
        Err(IoFailure::Unmapped(_))
    ));
}

#[test]
fn g_str_hash_known_values() {
    // Skips the first byte, then folds the remaining bytes and a final NUL
    // by h := 32 * h - (h + c) in wrapping 32-bit arithmetic.
    assert_eq!(g_str_hash_with_artificial_nul_terminator(b"a"), 0);
    assert_eq!(g_str_hash_with_artificial_nul_terminator(b"ab"), 4294964258);
    let h = g_str_hash_with_artificial_nul_terminator(b"GameManager");
    let mut expect: u32 = 0;
    for &c in b"ameManager\0" {
        expect = (expect << 5).wrapping_sub(expect.wrapping_add(c as u32));
    }
    assert_eq!(h, expect);
}
