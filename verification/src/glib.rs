//! Lazy traversal of the two collection shapes found in the target's heap:
//! a singly linked list and an open-chaining hash table (an array of
//! bucket-head pointers with intrusive next pointers).
//!
//! Both are views over remote memory, never materialized remotely: each
//! traversal step re-reads the target.  A walk is bounded by a fixed step
//! budget so that a corrupted or cyclic chain terminates, and any read
//! failure mid-walk discards all partial results.

use crate::memory::ProcessMemory;
use crate::ptr::Ptr;
use crate::IoFailure;
use vstd::prelude::*;

verus! {

/// Step budget for one chain walk.
pub const CHAIN_CAP: usize = 65536;

/// Prefixes a chain result with already-walked node addresses.
pub open spec fn chain_append(prefix: Seq<u64>, r: Result<Seq<u64>, ()>) -> Result<Seq<u64>, ()> {
    match r {
        Ok(s) => Ok(prefix + s),
        Err(e) => Err(e),
    }
}

/// One intrusive chain step: the node `x` followed by the rest of the chain.
pub open spec fn chain_cons(x: u64, r: Result<Seq<u64>, ()>) -> Result<Seq<u64>, ()> {
    match r {
        Ok(s) => Ok(seq![x] + s),
        Err(e) => Err(e),
    }
}

/// The addresses of the nodes of the intrusive chain starting at `p`, where
/// each node occupies `node_size` readable bytes and holds the address of
/// the next node at byte offset `next_off`.  A null pointer ends the chain;
/// an unreadable node, or a chain longer than `fuel` (a cycle), fails it.
pub open spec fn chain_addrs(
    mem: ProcessMemory,
    p: u64,
    node_size: int,
    next_off: int,
    fuel: nat,
) -> Result<Seq<u64>, ()>
    decreases fuel,
{
    if p == 0 {
        Ok(Seq::empty())
    } else if fuel == 0 {
        Err(())
    } else if !(p + node_size <= 0x1_0000_0000_0000_0000 && mem.mapped_range(
        p as int,
        node_size,
    )) {
        Err(())
    } else {
        chain_cons(
            p,
            chain_addrs(
                mem,
                mem.u64_at(p + next_off) as u64,
                node_size,
                next_off,
                (fuel - 1) as nat,
            ),
        )
    }
}

/// The node addresses of every bucket chain of a bucket array at `table`,
/// for buckets `i ..= n - 1`, concatenated in bucket order.
pub open spec fn bucket_chains(
    mem: ProcessMemory,
    table: u64,
    i: int,
    n: int,
    node_size: int,
    next_off: int,
    fuel: nat,
) -> Result<Seq<u64>, ()>
    decreases n - i,
{
    if i >= n {
        Ok(Seq::empty())
    } else {
        let ha = table + 8 * i;
        if !(ha + 8 <= 0x1_0000_0000_0000_0000 && ha != 0 && mem.mapped_range(ha, 8)) {
            Err(())
        } else {
            match chain_addrs(mem, mem.u64_at(ha) as u64, node_size, next_off, fuel) {
                Ok(c) => chain_append(c, bucket_chains(mem, table, i + 1, n, node_size, next_off, fuel)),
                Err(e) => Err(e),
            }
        }
    }
}

pub proof fn lemma_chain_append_cons(prefix: Seq<u64>, x: u64, r: Result<Seq<u64>, ()>)
    ensures
        chain_append(prefix, chain_cons(x, r)) == chain_append(prefix.push(x), r),
{
    match r {
        Ok(s) => {
            assert(prefix + (seq![x] + s) =~= prefix.push(x) + s);
        },
        Err(_) => {},
    }
}

proof fn lemma_chain_append_assoc(prefix: Seq<u64>, c: Seq<u64>, r: Result<Seq<u64>, ()>)
    ensures
        chain_append(prefix, chain_append(c, r)) == chain_append(prefix + c, r),
{
    match r {
        Ok(s) => {
            assert(prefix + (c + s) =~= (prefix + c) + s);
        },
        Err(_) => {},
    }
}

/// Every node address of a successfully walked chain is non-null and the
/// whole node at it is readable.
pub proof fn lemma_chain_nodes_mapped(
    mem: ProcessMemory,
    p: u64,
    node_size: int,
    next_off: int,
    fuel: nat,
)
    ensures
        chain_addrs(mem, p, node_size, next_off, fuel) matches Ok(c) ==> forall|k: int|
            0 <= k < c.len() ==> (#[trigger] c[k]) != 0 && c[k] + node_size
                <= 0x1_0000_0000_0000_0000 && mem.mapped_range(c[k] as int, node_size),
    decreases fuel,
{
    if p != 0 && fuel > 0 && (p + node_size <= 0x1_0000_0000_0000_0000 && mem.mapped_range(
        p as int,
        node_size,
    )) {
        let nxt = mem.u64_at(p + next_off) as u64;
        lemma_chain_nodes_mapped(mem, nxt, node_size, next_off, (fuel - 1) as nat);
        match chain_addrs(mem, nxt, node_size, next_off, (fuel - 1) as nat) {
            Ok(rest) => {
                let c = seq![p] + rest;
                assert forall|k: int|
                    0 <= k < c.len() implies (#[trigger] c[k]) != 0 && c[k] + node_size
                    <= 0x1_0000_0000_0000_0000 && mem.mapped_range(c[k] as int, node_size) by {
                    if k > 0 {
                        assert(c[k] == rest[k - 1]);
                    }
                }
            },
            Err(_) => {},
        }
    }
}

/// Every node address of a successful bucket-array walk is non-null and
/// fully readable.
pub proof fn lemma_buckets_nodes_mapped(
    mem: ProcessMemory,
    table: u64,
    i: int,
    n: int,
    node_size: int,
    next_off: int,
    fuel: nat,
)
    ensures
        bucket_chains(mem, table, i, n, node_size, next_off, fuel) matches Ok(c) ==> forall|
            k: int,
        |
            0 <= k < c.len() ==> (#[trigger] c[k]) != 0 && c[k] + node_size
                <= 0x1_0000_0000_0000_0000 && mem.mapped_range(c[k] as int, node_size),
    decreases n - i,
{
    if i < n {
        let ha = table + 8 * i;
        if ha + 8 <= 0x1_0000_0000_0000_0000 && ha != 0 && mem.mapped_range(ha, 8) {
            let head = mem.u64_at(ha) as u64;
            lemma_chain_nodes_mapped(mem, head, node_size, next_off, fuel);
            lemma_buckets_nodes_mapped(mem, table, i + 1, n, node_size, next_off, fuel);
            match chain_addrs(mem, head, node_size, next_off, fuel) {
                Ok(c0) => {
                    match bucket_chains(mem, table, i + 1, n, node_size, next_off, fuel) {
                        Ok(rest) => {
                            let c = c0 + rest;
                            assert forall|k: int|
                                0 <= k < c.len() implies (#[trigger] c[k]) != 0 && c[k] + node_size
                                <= 0x1_0000_0000_0000_0000 && mem.mapped_range(
                                c[k] as int,
                                node_size,
                            ) by {
                                if k < c0.len() {
                                    assert(c[k] == c0[k]);
                                } else {
                                    assert(c[k] == rest[k - c0.len()]);
                                }
                            }
                        },
                        Err(_) => {},
                    }
                },
                Err(_) => {},
            }
        }
    }
}

/// The head-pointer slot of bucket `k` of the array at `table`.
pub open spec fn bucket_head_slot(table: u64, k: int) -> int {
    table + 8 * k
}

/// The head-pointer slot of bucket `k` is a readable non-null address.
pub open spec fn bucket_head_readable(mem: ProcessMemory, table: u64, k: int) -> bool {
    &&& bucket_head_slot(table, k) + 8 <= 0x1_0000_0000_0000_0000
    &&& bucket_head_slot(table, k) != 0
    &&& mem.mapped_range(bucket_head_slot(table, k), 8)
}

/// The chain head stored in bucket `k`.
pub open spec fn bucket_head(mem: ProcessMemory, table: u64, k: int) -> u64 {
    mem.u64_at(bucket_head_slot(table, k)) as u64
}

/// Law: hash-table traversal is complete and terminates.  Walking buckets
/// `i ..= n - 1` succeeds exactly when every bucket-head slot is readable
/// and every chain, followed from its head, reaches a null pointer within
/// the step budget through readable nodes — an empty chain (a null head)
/// trivially so.  On success the yield is bucket `i`'s chain followed by
/// that of the remaining buckets: bucket-index order, with within-bucket
/// chain order preserved.
pub proof fn lemma_traversal_complete(
    mem: ProcessMemory,
    table: u64,
    i: int,
    n: int,
    node_size: int,
    next_off: int,
    fuel: nat,
)
    ensures
        bucket_chains(mem, table, i, n, node_size, next_off, fuel) is Ok <==> forall|k: int|
            i <= k < n ==> bucket_head_readable(mem, table, k) && chain_addrs(
                mem,
                #[trigger] bucket_head(mem, table, k),
                node_size,
                next_off,
                fuel,
            ) is Ok,
        chain_addrs(mem, 0, node_size, next_off, fuel) == Ok::<Seq<u64>, ()>(Seq::empty()),
        i < n && bucket_chains(mem, table, i, n, node_size, next_off, fuel) is Ok ==> (chain_addrs(
            mem,
            bucket_head(mem, table, i),
            node_size,
            next_off,
            fuel,
        ) matches Ok(c0) && bucket_chains(mem, table, i + 1, n, node_size, next_off, fuel) matches Ok(
            rest,
        ) && bucket_chains(mem, table, i, n, node_size, next_off, fuel) == Ok::<Seq<u64>, ()>(
            c0 + rest,
        )),
    decreases n - i,
{
    if i < n {
        lemma_traversal_complete(mem, table, i + 1, n, node_size, next_off, fuel);
        if bucket_head_readable(mem, table, i) {
            match chain_addrs(mem, bucket_head(mem, table, i), node_size, next_off, fuel) {
                Ok(c0) => {
                    match bucket_chains(mem, table, i + 1, n, node_size, next_off, fuel) {
                        Ok(rest) => {
                            assert forall|k: int|
                                i <= k < n implies bucket_head_readable(mem, table, k)
                                && chain_addrs(
                                mem,
                                #[trigger] bucket_head(mem, table, k),
                                node_size,
                                next_off,
                                fuel,
                            ) is Ok by {
                                if k > i {
                                    assert(bucket_chains(
                                        mem,
                                        table,
                                        i + 1,
                                        n,
                                        node_size,
                                        next_off,
                                        fuel,
                                    ) is Ok);
                                }
                            }
                        },
                        Err(_) => {
                            if forall|k: int|
                                i <= k < n ==> bucket_head_readable(mem, table, k) && chain_addrs(
                                    mem,
                                    #[trigger] bucket_head(mem, table, k),
                                    node_size,
                                    next_off,
                                    fuel,
                                ) is Ok {
                                assert forall|k: int|
                                    i + 1 <= k < n implies bucket_head_readable(mem, table, k)
                                    && chain_addrs(
                                    mem,
                                    #[trigger] bucket_head(mem, table, k),
                                    node_size,
                                    next_off,
                                    fuel,
                                ) is Ok by {
                                    assert(bucket_head_readable(mem, table, k));
                                }
                                assert(false);
                            }
                        },
                    }
                },
                Err(_) => {
                    assert(!(chain_addrs(
                        mem,
                        bucket_head(mem, table, i),
                        node_size,
                        next_off,
                        fuel,
                    ) is Ok));
                },
            }
        } else {
            assert(!bucket_head_readable(mem, table, i));
        }
    }
}

/// Walks the intrusive chain starting at `head` and returns the node
/// addresses in chain order.  Fails — discarding everything — if a node is
/// unreadable or the budget runs out.
#[verifier::loop_isolation(false)]
pub fn walk_chain(
    mem: &ProcessMemory,
    head: u64,
    node_size: u64,
    next_off: u64,
    cap: usize,
) -> (r: Result<Vec<u64>, IoFailure>)
    requires
        8 <= node_size <= 4096,
        next_off + 8 <= node_size,
    ensures
        r is Ok <==> chain_addrs(*mem, head, node_size as int, next_off as int, cap as nat) is Ok,
        r matches Ok(v) ==> chain_addrs(*mem, head, node_size as int, next_off as int, cap as nat)
            == Ok::<Seq<u64>, ()>(v@),
        r is Err ==> (r matches Err(IoFailure::Unmapped(_)) || r matches Err(
            IoFailure::OutOfAddressSpace,
        ) || r matches Err(IoFailure::ChainTooLong)),
{
    let ghost total = chain_addrs(*mem, head, node_size as int, next_off as int, cap as nat);
    let mut acc: Vec<u64> = Vec::new();
    let mut cur: u64 = head;
    let mut steps: usize = cap;
    while cur != 0
        invariant
            8 <= node_size <= 4096,
            next_off + 8 <= node_size,
            steps <= cap,
            total == chain_addrs(*mem, head, node_size as int, next_off as int, cap as nat),
            total == chain_append(
                acc@,
                chain_addrs(*mem, cur, node_size as int, next_off as int, steps as nat),
            ),
        decreases steps,
    {
        if steps == 0 {
            return Err(IoFailure::ChainTooLong);
        }
        match mem.read_bytes(cur, node_size as usize) {
            Ok(_node) => {},
            Err(e) => {
                return Err(e);
            },
        }
        let nxt = match mem.read_u64(cur + next_off) {
            Ok(v) => v,
            Err(_) => {
                proof {
                    assert(mem.mapped_range(cur + next_off, 8));
                    assert(false);
                }
                return Err(IoFailure::ChainTooLong);
            },
        };
        proof {
            lemma_chain_append_cons(
                acc@,
                cur,
                chain_addrs(*mem, nxt, node_size as int, next_off as int, (steps - 1) as nat),
            );
        }
        acc.push(cur);
        cur = nxt;
        steps = steps - 1;
    }
    proof {
        assert(acc@ + Seq::<u64>::empty() =~= acc@);
    }
    Ok(acc)
}

/// Walks every chain of a bucket-head array: bucket `0` through
/// `nbuckets - 1`, each chain in order, returning the flat node-address
/// sequence.
#[verifier::loop_isolation(false)]
pub fn walk_buckets(
    mem: &ProcessMemory,
    table: u64,
    nbuckets: u32,
    node_size: u64,
    next_off: u64,
    cap: usize,
) -> (r: Result<Vec<u64>, IoFailure>)
    requires
        8 <= node_size <= 4096,
        next_off + 8 <= node_size,
    ensures
        r is Ok <==> bucket_chains(
            *mem,
            table,
            0,
            nbuckets as int,
            node_size as int,
            next_off as int,
            cap as nat,
        ) is Ok,
        r matches Ok(v) ==> bucket_chains(
            *mem,
            table,
            0,
            nbuckets as int,
            node_size as int,
            next_off as int,
            cap as nat,
        ) == Ok::<Seq<u64>, ()>(v@),
        r is Err ==> (r matches Err(IoFailure::NullPointer) || r matches Err(
            IoFailure::Unmapped(_),
        ) || r matches Err(IoFailure::OutOfAddressSpace) || r matches Err(IoFailure::ChainTooLong)),
{
    let ghost total = bucket_chains(
        *mem,
        table,
        0,
        nbuckets as int,
        node_size as int,
        next_off as int,
        cap as nat,
    );
    let mut acc: Vec<u64> = Vec::new();
    let mut i: u32 = 0;
    proof {
        match total {
            Ok(st) => {
                assert(Seq::<u64>::empty() + st =~= st);
            },
            Err(_) => {},
        }
    }
    while i < nbuckets
        invariant
            i <= nbuckets,
            total == bucket_chains(
                *mem,
                table,
                0,
                nbuckets as int,
                node_size as int,
                next_off as int,
                cap as nat,
            ),
            total == chain_append(
                acc@,
                bucket_chains(
                    *mem,
                    table,
                    i as int,
                    nbuckets as int,
                    node_size as int,
                    next_off as int,
                    cap as nat,
                ),
            ),
        decreases nbuckets - i,
    {
        let ha = match table.checked_add(8 * (i as u64)) {
            Some(x) => x,
            None => {
                return Err(IoFailure::OutOfAddressSpace);
            },
        };
        let head = match Ptr::<Ptr<()>>::new(ha).read(mem) {
            Ok(p) => p,
            Err(e) => {
                return Err(e);
            },
        };
        let mut addrs = match walk_chain(mem, head.addr, node_size, next_off, cap) {
            Ok(a) => a,
            Err(e) => {
                return Err(e);
            },
        };
        proof {
            lemma_chain_append_assoc(
                acc@,
                addrs@,
                bucket_chains(
                    *mem,
                    table,
                    i as int + 1,
                    nbuckets as int,
                    node_size as int,
                    next_off as int,
                    cap as nat,
                ),
            );
        }
        acc.append(&mut addrs);
        i = i + 1;
    }
    proof {
        match bucket_chains(
            *mem,
            table,
            i as int,
            nbuckets as int,
            node_size as int,
            next_off as int,
            cap as nat,
        ) {
            Ok(s) => {
                assert(acc@ + s =~= acc@);
            },
            Err(_) => {},
        }
    }
    Ok(acc)
}

/// A node of the target's doubly linked list shape: a payload pointer and
/// intrusive neighbour pointers.
#[derive(Debug)]
pub struct GList<T> {
    pub data: Ptr<T>,
    pub next: Ptr<()>,
    pub prev: Ptr<()>,
}

/// Byte offset of the payload pointer inside a remote list node.
pub const GLIST_DATA_OFF: u64 = 0;

/// Byte offset of the next pointer inside a remote list node.
pub const GLIST_NEXT_OFF: u64 = 8;

/// Byte size of a remote list node.
pub const GLIST_NODE_SIZE: u64 = 24;

impl<T> Ptr<GList<T>> {
    /// Reads one list node.
    pub fn read(self, mem: &ProcessMemory) -> (r: Result<GList<T>, IoFailure>)
        ensures
            r is Ok <==> self.addr != 0 && self.addr + GLIST_NODE_SIZE
                <= 0x1_0000_0000_0000_0000 && mem.mapped_range(
                self.addr as int,
                GLIST_NODE_SIZE as int,
            ),
            r matches Ok(node) ==> node.data.addr as int == mem.u64_at(self.addr as int)
                && node.next.addr as int == mem.u64_at(self.addr + 8) && node.prev.addr as int
                == mem.u64_at(self.addr + 16),
            self.addr == 0 ==> r matches Err(IoFailure::NullPointer),
    {
        if self.addr == 0 {
            return Err(IoFailure::NullPointer);
        }
        match mem.read_bytes(self.addr, 24) {
            Ok(_) => {},
            Err(e) => {
                return Err(e);
            },
        }
        let data = match mem.read_u64(self.addr) {
            Ok(v) => v,
            Err(e) => {
                proof {
                    assert(mem.mapped_range(self.addr as int, 8));
                    assert(false);
                }
                return Err(e);
            },
        };
        let next = match mem.read_u64(self.addr + 8) {
            Ok(v) => v,
            Err(e) => {
                proof {
                    assert(mem.mapped_range(self.addr + 8, 8));
                    assert(false);
                }
                return Err(e);
            },
        };
        let prev = match mem.read_u64(self.addr + 16) {
            Ok(v) => v,
            Err(e) => {
                proof {
                    assert(mem.mapped_range(self.addr + 16, 8));
                    assert(false);
                }
                return Err(e);
            },
        };
        Ok(GList { data: Ptr::new(data), next: Ptr::new(next), prev: Ptr::new(prev) })
    }

    /// Walks the list starting at this node and returns each node's payload
    /// pointer, in list order.  A mid-walk read failure fails the whole
    /// traversal.
    #[verifier::loop_isolation(false)]
    pub fn iter(self, mem: &ProcessMemory) -> (r: Result<Vec<Ptr<T>>, IoFailure>)
        ensures
            r is Ok <==> chain_addrs(
                *mem,
                self.addr,
                GLIST_NODE_SIZE as int,
                GLIST_NEXT_OFF as int,
                CHAIN_CAP as nat,
            ) is Ok,
            r matches Ok(v) ==> chain_addrs(
                *mem,
                self.addr,
                GLIST_NODE_SIZE as int,
                GLIST_NEXT_OFF as int,
                CHAIN_CAP as nat,
            ) matches Ok(c) && v@.len() == c.len() && forall|k: int|
                0 <= k < c.len() ==> (#[trigger] v@[k]).addr as int == mem.u64_at(c[k] as int),
            r is Err ==> (r matches Err(IoFailure::Unmapped(_)) || r matches Err(
                IoFailure::OutOfAddressSpace,
            ) || r matches Err(IoFailure::ChainTooLong)),
    {
        let addrs = match walk_chain(mem, self.addr, GLIST_NODE_SIZE, GLIST_NEXT_OFF, CHAIN_CAP) {
            Ok(a) => a,
            Err(e) => {
                return Err(e);
            },
        };
        proof {
            lemma_chain_nodes_mapped(
                *mem,
                self.addr,
                GLIST_NODE_SIZE as int,
                GLIST_NEXT_OFF as int,
                CHAIN_CAP as nat,
            );
        }
        let mut v: Vec<Ptr<T>> = Vec::new();
        let mut k: usize = 0;
        while k < addrs.len()
            invariant
                k <= addrs@.len(),
                v@.len() == k,
                forall|j: int|
                    0 <= j < addrs@.len() ==> (#[trigger] addrs@[j]) != 0 && addrs@[j]
                        + GLIST_NODE_SIZE <= 0x1_0000_0000_0000_0000 && mem.mapped_range(
                        addrs@[j] as int,
                        GLIST_NODE_SIZE as int,
                    ),
                forall|j: int|
                    0 <= j < k ==> (#[trigger] v@[j]).addr as int == mem.u64_at(addrs@[j] as int),
            decreases addrs@.len() - k,
        {
            let a = addrs[k];
            let data = match mem.read_u64(a) {
                Ok(x) => x,
                Err(_) => {
                    proof {
                        assert(mem.mapped_range(addrs@[k as int] as int, 8));
                        assert(false);
                    }
                    return Err(IoFailure::ChainTooLong);
                },
            };
            v.push(Ptr::new(data));
            k = k + 1;
        }
        Ok(v)
    }
}

/// One entry of the open-chaining hash table: a key pointer, a value
/// pointer, and the intrusive next pointer of its bucket chain.
#[derive(Debug)]
pub struct Slot<K, V> {
    pub key: Ptr<K>,
    pub value: Ptr<V>,
    pub next: Ptr<()>,
}

/// Byte size of a remote slot.
pub const SLOT_NODE_SIZE: u64 = 24;

/// Byte offset of the next pointer inside a remote slot.
pub const SLOT_NEXT_OFF: u64 = 16;

/// Byte offset of the bucket-head array inside the remote hash table.
pub const GHASH_TABLE_OFF: u64 = 16;

/// Byte offset of the bucket count inside the remote hash table.
pub const GHASH_SIZE_OFF: u64 = 24;

/// Byte size of the remote hash table header.
pub const GHASH_HEADER_SIZE: u64 = 56;

/// The decoded header of the target's general hash table: the bucket-head
/// array and its length.
#[derive(Debug)]
pub struct GHashTable<K = (), V = ()> {
    pub table: Ptr<Ptr<Slot<K, V>>>,
    pub table_size: u32,
}

impl<K, V> Ptr<GHashTable<K, V>> {
    /// Reads the hash table header.
    pub fn read(self, mem: &ProcessMemory) -> (r: Result<GHashTable<K, V>, IoFailure>)
        ensures
            r is Ok <==> self.addr != 0 && self.addr + GHASH_HEADER_SIZE
                <= 0x1_0000_0000_0000_0000 && mem.mapped_range(
                self.addr as int,
                GHASH_HEADER_SIZE as int,
            ),
            r matches Ok(t) ==> t.table.addr as int == mem.u64_at(self.addr + GHASH_TABLE_OFF)
                && t.table_size as int == mem.u32_at(self.addr + GHASH_SIZE_OFF),
            self.addr == 0 ==> r matches Err(IoFailure::NullPointer),
    {
        if self.addr == 0 {
            return Err(IoFailure::NullPointer);
        }
        match mem.read_bytes(self.addr, 56) {
            Ok(_) => {},
            Err(e) => {
                return Err(e);
            },
        }
        let table = match mem.read_u64(self.addr + 16) {
            Ok(v) => v,
            Err(e) => {
                proof {
                    assert(mem.mapped_range(self.addr + 16, 8));
                    assert(false);
                }
                return Err(e);
            },
        };
        let size = match mem.read_u32(self.addr + 24) {
            Ok(v) => v,
            Err(e) => {
                proof {
                    assert(mem.mapped_range(self.addr + 24, 4));
                    assert(false);
                }
                return Err(e);
            },
        };
        Ok(GHashTable { table: Ptr::new(table), table_size: size })
    }
}

impl<K, V> GHashTable<K, V> {
    /// Walks every bucket chain in bucket-index order, preserving
    /// within-bucket chain order, and returns each slot's key and value
    /// pointers.  The traversal yields exactly the chained entries and
    /// terminates even on empty chains; any mid-walk read failure fails the
    /// whole traversal.
    #[verifier::loop_isolation(false)]
    pub fn iter(&self, mem: &ProcessMemory) -> (r: Result<Vec<(Ptr<K>, Ptr<V>)>, IoFailure>)
        ensures
            r is Ok <==> bucket_chains(
                *mem,
                self.table.addr,
                0,
                self.table_size as int,
                SLOT_NODE_SIZE as int,
                SLOT_NEXT_OFF as int,
                CHAIN_CAP as nat,
            ) is Ok,
            r matches Ok(v) ==> bucket_chains(
                *mem,
                self.table.addr,
                0,
                self.table_size as int,
                SLOT_NODE_SIZE as int,
                SLOT_NEXT_OFF as int,
                CHAIN_CAP as nat,
            ) matches Ok(c) && v@.len() == c.len() && forall|k: int|
                0 <= k < c.len() ==> (#[trigger] v@[k]).0.addr as int == mem.u64_at(c[k] as int)
                    && v@[k].1.addr as int == mem.u64_at(c[k] + 8),
            r is Err ==> (r matches Err(IoFailure::NullPointer) || r matches Err(
                IoFailure::Unmapped(_),
            ) || r matches Err(IoFailure::OutOfAddressSpace) || r matches Err(
                IoFailure::ChainTooLong,
            )),
    {
        let ghost total = bucket_chains(
            *mem,
            self.table.addr,
            0,
            self.table_size as int,
            SLOT_NODE_SIZE as int,
            SLOT_NEXT_OFF as int,
            CHAIN_CAP as nat,
        );
        let ghost mut flat: Seq<u64> = Seq::empty();
        let mut v: Vec<(Ptr<K>, Ptr<V>)> = Vec::new();
        let mut i: u32 = 0;
        proof {
            match total {
                Ok(st) => {
                    assert(Seq::<u64>::empty() + st =~= st);
                },
                Err(_) => {},
            }
        }
        while i < self.table_size
            invariant
                i <= self.table_size,
                total == bucket_chains(
                    *mem,
                    self.table.addr,
                    0,
                    self.table_size as int,
                    SLOT_NODE_SIZE as int,
                    SLOT_NEXT_OFF as int,
                    CHAIN_CAP as nat,
                ),
                total == chain_append(
                    flat,
                    bucket_chains(
                        *mem,
                        self.table.addr,
                        i as int,
                        self.table_size as int,
                        SLOT_NODE_SIZE as int,
                        SLOT_NEXT_OFF as int,
                        CHAIN_CAP as nat,
                    ),
                ),
                v@.len() == flat.len(),
                forall|j: int|
                    0 <= j < flat.len() ==> (#[trigger] v@[j]).0.addr as int == mem.u64_at(
                        flat[j] as int,
                    ) && v@[j].1.addr as int == mem.u64_at(flat[j] + 8),
            decreases self.table_size - i,
        {
            let ha = match self.table.addr.checked_add(8 * (i as u64)) {
                Some(x) => x,
                None => {
                    return Err(IoFailure::OutOfAddressSpace);
                },
            };
            let head = match Ptr::<Ptr<Slot<K, V>>>::new(ha).read(mem) {
                Ok(p) => p,
                Err(e) => {
                    return Err(e);
                },
            };
            let addrs = match walk_chain(mem, head.addr, SLOT_NODE_SIZE, SLOT_NEXT_OFF, CHAIN_CAP) {
                Ok(a) => a,
                Err(e) => {
                    return Err(e);
                },
            };
            proof {
                lemma_chain_nodes_mapped(
                    *mem,
                    head.addr,
                    SLOT_NODE_SIZE as int,
                    SLOT_NEXT_OFF as int,
                    CHAIN_CAP as nat,
                );
                lemma_chain_append_assoc(
                    flat,
                    addrs@,
                    bucket_chains(
                        *mem,
                        self.table.addr,
                        i as int + 1,
                        self.table_size as int,
                        SLOT_NODE_SIZE as int,
                        SLOT_NEXT_OFF as int,
                        CHAIN_CAP as nat,
                    ),
                );
            }
            let mut k: usize = 0;
            while k < addrs.len()
                invariant
                    k <= addrs@.len(),
                    v@.len() == flat.len() + k,
                    forall|j: int|
                        0 <= j < addrs@.len() ==> (#[trigger] addrs@[j]) != 0 && addrs@[j]
                            + SLOT_NODE_SIZE <= 0x1_0000_0000_0000_0000 && mem.mapped_range(
                            addrs@[j] as int,
                            SLOT_NODE_SIZE as int,
                        ),
                    forall|j: int|
                        0 <= j < flat.len() ==> (#[trigger] v@[j]).0.addr as int == mem.u64_at(
                            flat[j] as int,
                        ) && v@[j].1.addr as int == mem.u64_at(flat[j] + 8),
                    forall|j: int|
                        flat.len() <= j < flat.len() + k ==> (#[trigger] v@[j]).0.addr as int
                            == mem.u64_at(addrs@[j - flat.len()] as int) && v@[j].1.addr as int
                            == mem.u64_at(addrs@[j - flat.len()] + 8),
                decreases addrs@.len() - k,
            {
                let a = addrs[k];
                let key = match mem.read_u64(a) {
                    Ok(x) => x,
                    Err(_) => {
                        proof {
                            assert(mem.mapped_range(addrs@[k as int] as int, 8));
                            assert(false);
                        }
                        return Err(IoFailure::ChainTooLong);
                    },
                };
                let value = match mem.read_u64(a + 8) {
                    Ok(x) => x,
                    Err(_) => {
                        proof {
                            assert(mem.mapped_range(addrs@[k as int] + 8, 8));
                            assert(false);
                        }
                        return Err(IoFailure::ChainTooLong);
                    },
                };
                v.push((Ptr::new(key), Ptr::new(value)));
                k = k + 1;
            }
            proof {
                flat = flat + addrs@;
                assert forall|j: int|
                    0 <= j < flat.len() implies (#[trigger] v@[j]).0.addr as int == mem.u64_at(
                    flat[j] as int,
                ) && v@[j].1.addr as int == mem.u64_at(flat[j] + 8) by {
                    if j >= flat.len() - addrs@.len() {
                        assert(flat[j] == addrs@[j - (flat.len() - addrs@.len())]);
                    }
                }
            }
            i = i + 1;
        }
        proof {
            match bucket_chains(
                *mem,
                self.table.addr,
                i as int,
                self.table_size as int,
                SLOT_NODE_SIZE as int,
                SLOT_NEXT_OFF as int,
                CHAIN_CAP as nat,
            ) {
                Ok(s) => {
                    assert(flat + s =~= flat);
                },
                Err(_) => {},
            }
        }
        Ok(v)
    }
}

/// The hash the runtime computes for a class-name key whose terminating NUL
/// is treated as part of the string: every byte after the first, then an
/// artificial final NUL, folded by `h := 32 * h - (h + c)` with wrapping
/// 32-bit arithmetic.
pub open spec fn g_str_hash_step(h: int, c: u8) -> int {
    (32 * h - (h + c)) % 0x1_0000_0000
}

/// The hash of the bytes of `s` starting at index `i`, folded onto `h`,
/// with the artificial NUL terminator appended.
pub open spec fn g_str_hash_from(s: Seq<u8>, i: int, h: int) -> int
    decreases s.len() - i + 1,
{
    if i < s.len() {
        g_str_hash_from(s, i + 1, g_str_hash_step(h, s[i]))
    } else {
        g_str_hash_step(h, 0)
    }
}

/// Hashes `value` as the target's string hash does when the terminating NUL
/// is included in the hashed bytes: the first byte is skipped and a zero
/// byte is folded in at the end.
pub fn g_str_hash_with_artificial_nul_terminator(value: &[u8]) -> (r: u32)
    ensures
        r as int == g_str_hash_from(value@, 1, 0),
{
    let mut hash: u32 = 0;
    let mut i: usize = 1;
    while i < value.len()
        invariant
            1 <= i,
            i <= value@.len() + 1,
            g_str_hash_from(value@, 1, 0) == g_str_hash_from(value@, i as int, hash as int),
        decreases value@.len() - i,
    {
        let c = value[i];
        proof {
            assert((32 * (hash as int) - (hash as int + c)) % 0x1_0000_0000 == (
            ((32 * (hash as int) - (hash as int + c)) + 0x1_0000_0000) % 0x1_0000_0000));
        }
        let wide: u64 = 32 * (hash as u64) + 0x1_0000_0000 - ((hash as u64) + (c as u64));
        let next: u32 = (wide % 0x1_0000_0000) as u32;
        proof {
            assert(next as int == g_str_hash_step(hash as int, c));
        }
        hash = next;
        i = i + 1;
    }
    let wide: u64 = 32 * (hash as u64) + 0x1_0000_0000 - (hash as u64);
    let last: u32 = (wide % 0x1_0000_0000) as u32;
    proof {
        assert((32 * (hash as int) - (hash as int + 0)) % 0x1_0000_0000 == (
        ((32 * (hash as int) - (hash as int)) + 0x1_0000_0000) % 0x1_0000_0000));
        assert(last as int == g_str_hash_step(hash as int, 0));
    }
    last
}

} // verus!
