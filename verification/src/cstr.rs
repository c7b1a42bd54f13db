//! Chunked reading of remote null-terminated byte strings.
//!
//! The terminator of a remote string is not guaranteed to lie within any
//! fixed window, so the reader proceeds in chunks that never cross a page
//! boundary of the target's address space: a page is readable either fully
//! or not at all, so stopping at the boundary avoids touching unmapped
//! memory just past the terminator.  Each chunk is further clamped to a
//! small ceiling to bound the cost of one request, and the whole scan is
//! bounded by a fixed buffer cap.

use crate::memory::ProcessMemory;
use crate::ptr::{CStr, Ptr};
use crate::IoFailure;
use vstd::prelude::*;

verus! {

/// Total cap on the length of a scanned string, terminator excluded.
pub const STR_CAP: usize = 32768;

/// Upper bound on the size of one chunk request.
pub const CHUNK_CEILING: u64 = 256;

/// Page size of the target's virtual address space, used by [`Ptr::read_str`].
pub const PAGE_SIZE: u64 = 4096;

/// The string starting at `a` has its first NUL at offset `n`: every byte
/// before it is mapped and non-zero, and the byte at `a + n` is a mapped
/// zero.
pub open spec fn first_nul_at(mem: ProcessMemory, a: int, n: int) -> bool {
    &&& forall|i: int| #![trigger mem.is_mapped(a + i)]
        0 <= i < n ==> mem.is_mapped(a + i) && mem.byte_at(a + i) != 0
    &&& mem.is_mapped(a + n)
    &&& mem.byte_at(a + n) == 0
}

/// `s` is exactly the content of the null-terminated string at `a`: the
/// bytes before the first NUL, in order.
pub open spec fn cstr_content(mem: ProcessMemory, a: int, s: Seq<u8>) -> bool {
    &&& first_nul_at(mem, a, s.len() as int)
    &&& s == mem.bytes_at(a, s.len())
}

/// How far past the terminator at offset `n` a scan may read at most,
/// ignoring page clamping.
pub open spec fn scan_margin(n: int) -> int {
    if n + CHUNK_CEILING <= STR_CAP {
        n + CHUNK_CEILING
    } else {
        STR_CAP as int
    }
}

/// Relies on bstr's `ByteSlice::find_byte`: the index of the first
/// occurrence of the given byte in the slice, `None` if it does not occur.
#[verifier::external_body]
fn find_byte(haystack: &[u8], needle: u8) -> (r: Option<usize>)
    ensures
        match r {
            Some(i) => i < haystack@.len() && haystack@[i as int] == needle && forall|j: int|
                0 <= j < i ==> haystack@[j] != needle,
            None => forall|j: int| 0 <= j < haystack@.len() ==> haystack@[j] != needle,
        },
{
    bstr::ByteSlice::find_byte(haystack, needle)
}

/// Compares two byte slices for equality.
pub fn bytes_eq(a: &[u8], b: &[u8]) -> (r: bool)
    ensures
        r == (a@ == b@),
{
    if a.len() != b.len() {
        return false;
    }
    let mut i: usize = 0;
    while i < a.len()
        invariant
            i <= a@.len(),
            a@.len() == b@.len(),
            forall|j: int| 0 <= j < i ==> a@[j] == #[trigger] b@[j],
        decreases a@.len() - i,
    {
        if a[i] != b[i] {
            return false;
        }
        i = i + 1;
    }
    proof {
        assert(a@ =~= b@);
    }
    true
}

/// The smallest multiple of `p` above `c` is `c + (p - c % p)`, so any
/// multiple of `p` above `c` is at least that.
proof fn lemma_next_multiple(c: int, p: int, b: int)
    requires
        0 < p,
        0 <= c < b,
        b % p == 0,
    ensures
        c + (p - c % p) <= b,
{
    vstd::arithmetic::div_mod::lemma_fundamental_div_mod(c, p);
    vstd::arithmetic::div_mod::lemma_fundamental_div_mod(b, p);
    vstd::arithmetic::div_mod::lemma_mod_bound(c, p);
    let q = c / p;
    let k = b / p;
    let r = c % p;
    assert(b == p * k + b % p);
    assert(q < k) by (nonlinear_arith)
        requires
            c == p * q + r,
            b == p * k,
            c < b,
            0 <= r,
            r < p,
            0 < p,
    ;
    assert(p * (q + 1) <= p * k) by (nonlinear_arith)
        requires
            q < k,
            0 < p,
    ;
    assert(c + (p - r) == p * (q + 1)) by (nonlinear_arith)
        requires
            c == p * q + r,
    ;
    assert(b == p * k);
}

/// One scan step: appending the chunk byte at `j` to a prefix that matches
/// memory keeps it matching memory.
proof fn lemma_scanned_extend(
    mem: ProcessMemory,
    a: int,
    prev: Seq<u8>,
    cur: Seq<u8>,
    cursor: int,
    chunk: Seq<u8>,
    j: int,
)
    requires
        cursor + j == a + prev.len(),
        0 <= j < chunk.len(),
        chunk == mem.bytes_at(cursor, chunk.len() as nat),
        mem.mapped_range(cursor, chunk.len() as int),
        chunk[j] != 0,
        cur == prev.push(chunk[j]),
        forall|i: int|
            #![trigger prev[i]]
            #![trigger mem.is_mapped(a + i)]
            0 <= i < prev.len() ==> mem.is_mapped(a + i) && mem.byte_at(a + i) == prev[i] && prev[i]
                != 0,
    ensures
        forall|i: int|
            #![trigger cur[i]]
            #![trigger mem.is_mapped(a + i)]
            0 <= i < cur.len() ==> mem.is_mapped(a + i) && mem.byte_at(a + i) == cur[i] && cur[i]
                != 0,
{
    assert forall|i: int|
        #![trigger cur[i]]
        #![trigger mem.is_mapped(a + i)]
        0 <= i < cur.len() implies mem.is_mapped(a + i) && mem.byte_at(a + i) == cur[i] && cur[i]
            != 0 by {
        if i < prev.len() {
            assert(prev.push(chunk[j])[i] == prev[i]);
        } else {
            assert(prev.push(chunk[j])[i] == chunk[j]);
            assert(mem.bytes_at(cursor, chunk.len() as nat)[j] == mem.byte_at(cursor + j));
            assert(mem.is_mapped(cursor + j));
        }
    }
}

impl Ptr<CStr> {
    /// Reads the null-terminated byte string starting at this address, in
    /// chunks that never cross a multiple of `page_size`, each at most
    /// [`CHUNK_CEILING`] bytes, up to a total of [`STR_CAP`] content bytes.
    ///
    /// On success the result is exactly the mapped, non-zero bytes up to the
    /// first NUL — independent of the chunking granularity.  Success is owed
    /// whenever a terminator exists within the cap and either a chunk margin
    /// past it is mapped or the terminator ends exactly on a page boundary.
    #[verifier::loop_isolation(false)]
    pub fn read_str_paged(self, mem: &ProcessMemory, page_size: u64) -> (r: Result<
        Vec<u8>,
        IoFailure,
    >)
        requires
            page_size > 0,
            0x1_0000_0000_0000_0000int % (page_size as int) == 0,
        ensures
            r matches Ok(s) ==> cstr_content(*mem, self.addr as int, s@) && s@.len() < STR_CAP,
            forall|n: int|
                0 <= n < STR_CAP && #[trigger] first_nul_at(*mem, self.addr as int, n)
                    && self.addr != 0 && self.addr + n < 0x1_0000_0000_0000_0000 && (
                mem.mapped_range(self.addr as int, scan_margin(n)) || (self.addr + n + 1) % (
                page_size as int) == 0) ==> r is Ok,
            r matches Err(IoFailure::StringTooLong) ==> forall|i: int|
                #![trigger mem.is_mapped(self.addr + i)]
                0 <= i < STR_CAP ==> mem.is_mapped(self.addr + i) && mem.byte_at(self.addr + i)
                    != 0,
            r matches Err(IoFailure::Unmapped(a)) ==> self.addr <= a && a < self.addr + STR_CAP
                && !mem.is_mapped(a as int),
            r matches Err(IoFailure::OutOfAddressSpace) ==> self.addr + STR_CAP
                > 0x1_0000_0000_0000_0000,
            self.addr == 0 ==> r matches Err(IoFailure::NullPointer),
            r is Err ==> (r matches Err(IoFailure::NullPointer) || r matches Err(
                IoFailure::Unmapped(_),
            ) || r matches Err(IoFailure::OutOfAddressSpace) || r matches Err(
                IoFailure::StringTooLong,
            )),
    {
        if self.addr == 0 {
            return Err(IoFailure::NullPointer);
        }
        let mut out: Vec<u8> = Vec::new();
        while out.len() < STR_CAP
            invariant
                self.addr != 0,
                page_size > 0,
                0x1_0000_0000_0000_0000int % (page_size as int) == 0,
                out@.len() <= STR_CAP,
                forall|i: int|
                    #![trigger out@[i]]
                    #![trigger mem.is_mapped(self.addr + i)]
                    0 <= i < out@.len() ==> mem.is_mapped(self.addr + i) && mem.byte_at(
                        self.addr + i,
                    ) == out@[i] && out@[i] != 0,
            decreases STR_CAP - out@.len(),
        {
            if (out.len() as u64) > u64::MAX - self.addr {
                proof {
                    assert forall|n: int|
                        0 <= n < STR_CAP && #[trigger] first_nul_at(*mem, self.addr as int, n)
                            && self.addr != 0 && self.addr + n
                            < 0x1_0000_0000_0000_0000 implies false by {
                        if n < out@.len() {
                            assert(mem.byte_at(self.addr + n) == out@[n]);
                        }
                    }
                }
                return Err(IoFailure::OutOfAddressSpace);
            }
            let cursor: u64 = self.addr + out.len() as u64;
            let to_page: u64 = page_size - cursor % page_size;
            let budget: usize = STR_CAP - out.len();
            let mut clen: u64 = to_page;
            if clen > CHUNK_CEILING {
                clen = CHUNK_CEILING;
            }
            if clen > budget as u64 {
                clen = budget as u64;
            }
            proof {
                lemma_next_multiple(cursor as int, page_size as int, 0x1_0000_0000_0000_0000);
            }
            match mem.read_bytes(cursor, clen as usize) {
                Ok(chunk) => {
                    match find_byte(chunk.as_slice(), 0) {
                        Some(pos) => {
                            let ghost base = out@.len();
                            let mut j: usize = 0;
                            while j < pos
                                invariant
                                    j <= pos,
                                    pos < chunk@.len(),
                                    chunk@.len() == clen,
                                    chunk@ == mem.bytes_at(cursor as int, clen as nat),
                                    mem.mapped_range(cursor as int, clen as int),
                                    cursor == self.addr + base,
                                    out@.len() == base + j,
                                    forall|k: int| 0 <= k < pos ==> #[trigger] chunk@[k] != 0,
                                    forall|i: int|
                                        #![trigger out@[i]]
                                        #![trigger mem.is_mapped(self.addr + i)]
                                        0 <= i < out@.len() ==> mem.is_mapped(self.addr + i)
                                            && mem.byte_at(self.addr + i) == out@[i] && out@[i]
                                            != 0,
                                decreases pos - j,
                            {
                                let ghost prev = out@;
                                out.push(chunk[j]);
                                proof {
                                    lemma_scanned_extend(
                                        *mem,
                                        self.addr as int,
                                        prev,
                                        out@,
                                        cursor as int,
                                        chunk@,
                                        j as int,
                                    );
                                }
                                j = j + 1;
                            }
                            proof {
                                assert(out@ =~= mem.bytes_at(self.addr as int, out@.len()));
                                assert(mem.byte_at(self.addr + out@.len()) == chunk@[pos as int]);
                                assert forall|i: int|
                                    #![trigger mem.is_mapped(self.addr + i)]
                                    0 <= i < out@.len() implies mem.is_mapped(
                                    self.addr + i,
                                ) && mem.byte_at(self.addr + i) != 0 by {
                                    assert(out@[i] != 0);
                                }
                            }
                            return Ok(out);
                        },
                        None => {
                            let ghost base = out@.len();
                            let mut j: usize = 0;
                            while j < clen as usize
                                invariant
                                    j <= clen,
                                    chunk@.len() == clen,
                                    1 <= clen,
                                    chunk@ == mem.bytes_at(cursor as int, clen as nat),
                                    mem.mapped_range(cursor as int, clen as int),
                                    cursor == self.addr + base,
                                    base + clen <= STR_CAP,
                                    out@.len() == base + j,
                                    forall|k: int| 0 <= k < chunk@.len() ==> #[trigger] chunk@[k] != 0,
                                    forall|i: int|
                                        #![trigger out@[i]]
                                        #![trigger mem.is_mapped(self.addr + i)]
                                        0 <= i < out@.len() ==> mem.is_mapped(self.addr + i)
                                            && mem.byte_at(self.addr + i) == out@[i] && out@[i]
                                            != 0,
                                decreases clen - j,
                            {
                                let ghost prev = out@;
                                out.push(chunk[j]);
                                proof {
                                    lemma_scanned_extend(
                                        *mem,
                                        self.addr as int,
                                        prev,
                                        out@,
                                        cursor as int,
                                        chunk@,
                                        j as int,
                                    );
                                }
                                j = j + 1;
                            }
                        },
                    }
                },
                Err(e) => {
                    match e {
                        IoFailure::Unmapped(bad) => {
                            proof {
                                assert forall|n: int|
                                    0 <= n < STR_CAP && #[trigger] first_nul_at(
                                        *mem,
                                        self.addr as int,
                                        n,
                                    ) && self.addr != 0 && self.addr + n < 0x1_0000_0000_0000_0000
                                        && (mem.mapped_range(self.addr as int, scan_margin(n)) || (
                                    self.addr + n + 1) % (page_size as int)
                                        == 0) implies false by {
                                    if n < out@.len() {
                                        assert(mem.byte_at(self.addr + n) == out@[n]);
                                    } else {
                                        assert(cursor <= self.addr + n);
                                        if mem.mapped_range(self.addr as int, scan_margin(n)) {
                                            assert(bad < self.addr + scan_margin(n));
                                            assert(mem.is_mapped(bad as int));
                                        } else {
                                            lemma_next_multiple(
                                                cursor as int,
                                                page_size as int,
                                                self.addr + n + 1,
                                            );
                                            assert(bad <= self.addr + n);
                                            if bad < self.addr + n {
                                                assert(mem.is_mapped(
                                                    self.addr + (bad - self.addr),
                                                ));
                                            }
                                            assert(mem.is_mapped(bad as int));
                                        }
                                    }
                                }
                            }
                            return Err(IoFailure::Unmapped(bad));
                        },
                        _ => {
                            proof {
                                assert(false);
                            }
                            return Err(e);
                        },
                    }
                },
            }
        }
        proof {
            assert forall|n: int|
                0 <= n < STR_CAP && #[trigger] first_nul_at(*mem, self.addr as int, n)
                    && self.addr != 0 && self.addr + n
                < 0x1_0000_0000_0000_0000 implies false by {
                assert(mem.byte_at(self.addr + n) == out@[n]);
            }
            assert forall|i: int|
                #![trigger mem.is_mapped(self.addr + i)]
                0 <= i < STR_CAP implies mem.is_mapped(self.addr + i)
                && mem.byte_at(self.addr + i) != 0 by {
                assert(out@[i] != 0);
            }
        }
        Err(IoFailure::StringTooLong)
    }

    /// [`Self::read_str_paged`] with the target's page size, [`PAGE_SIZE`].
    pub fn read_str(self, mem: &ProcessMemory) -> (r: Result<Vec<u8>, IoFailure>)
        ensures
            r matches Ok(s) ==> cstr_content(*mem, self.addr as int, s@) && s@.len() < STR_CAP,
            forall|n: int|
                0 <= n < STR_CAP && #[trigger] first_nul_at(*mem, self.addr as int, n)
                    && self.addr != 0 && self.addr + n < 0x1_0000_0000_0000_0000 && (
                mem.mapped_range(self.addr as int, scan_margin(n)) || (self.addr + n + 1) % (
                PAGE_SIZE as int) == 0) ==> r is Ok,
            r matches Err(IoFailure::StringTooLong) ==> forall|i: int|
                #![trigger mem.is_mapped(self.addr + i)]
                0 <= i < STR_CAP ==> mem.is_mapped(self.addr + i) && mem.byte_at(self.addr + i)
                    != 0,
            r matches Err(IoFailure::Unmapped(a)) ==> self.addr <= a && a < self.addr + STR_CAP
                && !mem.is_mapped(a as int),
            r matches Err(IoFailure::OutOfAddressSpace) ==> self.addr + STR_CAP
                > 0x1_0000_0000_0000_0000,
            self.addr == 0 ==> r matches Err(IoFailure::NullPointer),
            r is Err ==> (r matches Err(IoFailure::NullPointer) || r matches Err(
                IoFailure::Unmapped(_),
            ) || r matches Err(IoFailure::OutOfAddressSpace) || r matches Err(
                IoFailure::StringTooLong,
            )),
    {
        proof {
            assert(0x1_0000_0000_0000_0000int % (PAGE_SIZE as int) == 0);
        }
        self.read_str_paged(mem, PAGE_SIZE)
    }
}

/// Law: the decoded content of a remote string does not depend on the
/// chunking granularity.  Any two successful scans of the address `a` —
/// whatever page size each used — return the same bytes: exactly the content
/// up to the first NUL.
pub proof fn lemma_cstr_content_unique(mem: ProcessMemory, a: int, s1: Seq<u8>, s2: Seq<u8>)
    requires
        cstr_content(mem, a, s1),
        cstr_content(mem, a, s2),
    ensures
        s1 == s2,
{
    if s1.len() < s2.len() {
        assert(mem.byte_at(a + s1.len()) == 0);
        assert(s2[s1.len() as int] == mem.byte_at(a + s1.len()));
    }
    if s2.len() < s1.len() {
        assert(mem.byte_at(a + s2.len()) == 0);
        assert(s1[s2.len() as int] == mem.byte_at(a + s2.len()));
    }
    assert(s1 =~= s2);
}

} // verus!
