//! Memory dumps: the regions of a dumped address space, where their bytes
//! lie in the dump, and reads of the address space from the dump.

use vstd::prelude::*;

use crate::memory::MemoryError;

verus! {

/// A dumped region: `length` bytes of the address space from `rva`, stored
/// at `offset` in the dump.
#[derive(Debug, Clone, Copy, PartialEq, Eq, Structural)]
pub struct DumpMemory {
    pub offset: u64,
    pub length: u64,
    pub rva: u64,
}

/// One copy out of the dump: `size` bytes at `file_offset` into the read
/// buffer at `buf_start`.
#[derive(Debug, Clone, Copy, PartialEq, Eq, Structural)]
pub struct DumpRead {
    pub file_offset: u64,
    pub buf_start: usize,
    pub size: usize,
}

/// Whether a read at `address` consults region `m`: the address lies in the
/// region.
pub open spec fn region_covers(m: DumpMemory, address: u64) -> bool {
    m.rva <= address && address < m.rva + m.length
}

/// The copies that a read of `len` bytes at `address` makes from the first
/// `n` regions, with the number of buffer bytes they fill: each region that
/// the read consults gives a copy from the address's place in the region,
/// of the region's length or the buffer's, whichever is smaller, placed
/// after the previous copies. None when a copy's dump offset overflows or a
/// copy would run past the buffer.
pub open spec fn plan_prefix(memory: Seq<DumpMemory>, n: int, address: u64, len: nat) -> Option<
    (Seq<DumpRead>, nat),
>
    decreases n,
{
    if n <= 0 {
        Some((Seq::empty(), 0))
    } else {
        match plan_prefix(memory, n - 1, address, len) {
            None => None,
            Some((reads, filled)) => {
                let m = memory[n - 1];
                if !region_covers(m, address) {
                    Some((reads, filled))
                } else {
                    let offset = m.offset + (address - m.rva);
                    let size: nat = if m.length < len {
                        m.length as nat
                    } else {
                        len
                    };
                    if offset > u64::MAX || filled + size > len {
                        None
                    } else {
                        Some(
                            (
                                reads.push(
                                    DumpRead {
                                        file_offset: offset as u64,
                                        buf_start: filled as usize,
                                        size: size as usize,
                                    },
                                ),
                                filled + size,
                            ),
                        )
                    }
                }
            },
        }
    }
}

/// Whether each copy ends before the next one starts, and all end by
/// `filled`.
pub open spec fn reads_ordered(reads: Seq<DumpRead>, filled: nat) -> bool {
    &&& forall|i: int| 0 <= i < reads.len() ==> #[trigger] reads[i].buf_start + reads[i].size <= filled
    &&& forall|i: int, j: int|
        0 <= i < j < reads.len() ==> #[trigger] reads[i].buf_start + reads[i].size
            <= #[trigger] reads[j].buf_start
}

proof fn lemma_plan_prefix(memory: Seq<DumpMemory>, n: int, address: u64, len: nat)
    requires
        len <= usize::MAX,
        n <= memory.len(),
    ensures
        plan_prefix(memory, n, address, len) matches Some((reads, filled)) ==> filled <= len
            && reads_ordered(reads, filled),
    decreases n,
{
    if n > 0 {
        lemma_plan_prefix(memory, n - 1, address, len);
    }
}

/// Whether every copy lies inside the dump.
pub open spec fn reads_in_dump(reads: Seq<DumpRead>, dump_len: nat) -> bool {
    forall|i: int| 0 <= i < reads.len() ==> #[trigger] reads[i].file_offset + reads[i].size <= dump_len
}

/// Whether `buf` holds the bytes of each copy.
pub open spec fn reads_done(dump: Seq<u8>, reads: Seq<DumpRead>, buf: Seq<u8>) -> bool {
    forall|i: int, p: int|
        #![trigger reads[i], buf[p]]
        0 <= i < reads.len() && reads[i].buf_start <= p < reads[i].buf_start + reads[i].size
            ==> buf[p] == dump[reads[i].file_offset + (p - reads[i].buf_start)]
}

/// Plans a read of `len` bytes at `address` over the dumped regions, as
/// `plan_prefix` over all of them. Fails as malformed where the plan does,
/// and as a failed read where the copies do not fill the whole buffer.
pub fn plan_virtual_read(memory: &[DumpMemory], address: u64, len: usize) -> (r: Result<
    Vec<DumpRead>,
    MemoryError,
>)
    ensures
        match plan_prefix(memory@, memory@.len() as int, address, len as nat) {
            None => r == Err::<Vec<DumpRead>, MemoryError>(MemoryError::Malformed),
            Some((reads, filled)) => if filled == len {
                r matches Ok(v) && v@ == reads
            } else {
                r == Err::<Vec<DumpRead>, MemoryError>(MemoryError::ReadFailed)
            },
        },
{
    let mut reads: Vec<DumpRead> = Vec::new();
    let mut filled: usize = 0;
    let mut i: usize = 0;
    while i < memory.len()
        invariant
            i <= memory@.len(),
            plan_prefix(memory@, i as int, address, len as nat) == Some((reads@, filled as nat)),
        decreases memory@.len() - i,
    {
        proof {
            lemma_plan_prefix(memory@, i as int, address, len as nat);
        }
        let m = memory[i];
        if m.rva <= address && address - m.rva < m.length {
            let delta = address - m.rva;
            if m.offset > u64::MAX - delta {
                proof {
                    lemma_plan_none_stays(memory@, i as int + 1, memory@.len() as int, address, len as nat);
                }
                return Err(MemoryError::Malformed);
            }
            let size: usize = if m.length < len as u64 {
                m.length as usize
            } else {
                len
            };
            if size > len - filled {
                proof {
                    lemma_plan_none_stays(memory@, i as int + 1, memory@.len() as int, address, len as nat);
                }
                return Err(MemoryError::Malformed);
            }
            reads.push(DumpRead { file_offset: m.offset + delta, buf_start: filled, size });
            filled = filled + size;
        }
        i += 1;
    }
    if filled == len {
        Ok(reads)
    } else {
        Err(MemoryError::ReadFailed)
    }
}

/// Once the plan fails over a prefix of the regions, it fails over every
/// longer prefix.
proof fn lemma_plan_none_stays(memory: Seq<DumpMemory>, n: int, m: int, address: u64, len: nat)
    requires
        0 <= n <= m,
        plan_prefix(memory, n, address, len) is None,
    ensures
        plan_prefix(memory, m, address, len) is None,
    decreases m - n,
{
    if n < m {
        lemma_plan_none_stays(memory, n + 1, m, address, len);
    }
}

/// Makes the copies of a plan from `dump` into `buf`, in order. Fails, as a
/// failed read, at the first copy that lies outside the dump.
pub fn copy_reads(dump: &[u8], reads: &[DumpRead], buf: &mut [u8]) -> (r: Result<(), MemoryError>)
    requires
        reads_ordered(reads@, old(buf)@.len()),
    ensures
        final(buf)@.len() == old(buf)@.len(),
        r is Ok <==> reads_in_dump(reads@, dump@.len()),
        r is Err ==> r == Err::<(), MemoryError>(MemoryError::ReadFailed),
        r is Ok ==> reads_done(dump@, reads@, final(buf)@),
{
    let mut i: usize = 0;
    while i < reads.len()
        invariant
            i <= reads@.len(),
            buf@.len() == old(buf)@.len(),
            reads_ordered(reads@, buf@.len()),
            reads_in_dump(reads@.take(i as int), dump@.len()),
            reads_done(dump@, reads@.take(i as int), buf@),
        decreases reads@.len() - i,
    {
        let read = reads[i];
        if read.file_offset > dump.len() as u64 || read.size as u64 > dump.len() as u64 - read.file_offset {
            assert(!reads_in_dump(reads@, dump@.len())) by {
                assert(reads@[i as int] == read);
            }
            return Err(MemoryError::ReadFailed);
        }
        proof {
            assert(reads@[i as int] == read);
            assert(read.buf_start + read.size <= buf@.len());
        }
        let ghost before = buf@;
        let file_offset: usize = read.file_offset as usize;
        let buf_len: usize = buf.len();
        let dump_len: usize = dump.len();
        let mut k: usize = 0;
        while k < read.size
            invariant
                k <= read.size,
                buf_len == buf@.len(),
                dump_len == dump@.len(),
                i < reads@.len(),
                file_offset == read.file_offset,
                read == reads@[i as int],
                read.buf_start + read.size <= buf@.len(),
                read.file_offset + read.size <= dump@.len(),
                buf@.len() == before.len(),
                forall|p: int|
                    0 <= p < before.len() && !(read.buf_start <= p < read.buf_start + read.size)
                        ==> buf@[p] == before[p],
                forall|p: int|
                    read.buf_start <= p < read.buf_start + k ==> #[trigger] buf@[p] == dump@[read.file_offset
                        + (p - read.buf_start)],
            decreases read.size - k,
        {
            buf[read.buf_start + k] = dump[file_offset + k];
            k += 1;
        }
        proof {
            let done = reads@.take(i as int + 1);
            assert forall|j: int, p: int|
                #![trigger done[j], buf@[p]]
                0 <= j < done.len() && done[j].buf_start <= p < done[j].buf_start + done[j].size
                    implies buf@[p] == dump@[done[j].file_offset + (p - done[j].buf_start)] by {
                if j < i {
                    let prev = reads@.take(i as int);
                    assert(done[j] == prev[j]);
                    assert(prev[j] == reads@[j]);
                    assert(reads@[j].buf_start + reads@[j].size <= reads@[i as int].buf_start);
                    assert(before[p] == dump@[prev[j].file_offset + (p - prev[j].buf_start)]);
                    assert(buf@[p] == before[p]);
                } else {
                    assert(done[j] == read);
                }
            }
            assert forall|j: int| 0 <= j < done.len() implies #[trigger] done[j].file_offset
                + done[j].size <= dump@.len() by {
                if j < i {
                    assert(done[j] == reads@.take(i as int)[j]);
                }
            }
        }
        i += 1;
    }
    proof {
        assert(reads@.take(reads@.len() as int) =~= reads@);
    }
    Ok(())
}

/// Whether a read of `len` bytes at `address` succeeds over the dump: the
/// plan succeeds, fills the buffer, and each copy lies inside the dump.
pub open spec fn virtual_read_ok(dump: Seq<u8>, memory: Seq<DumpMemory>, address: u64, len: nat) -> bool {
    match plan_prefix(memory, memory.len() as int, address, len) {
        Some((reads, filled)) => filled == len && reads_in_dump(reads, dump.len()),
        None => false,
    }
}

/// The place in the dump from which the copies put buffer position `p`:
/// that of the last copy covering it (zero where none does).
pub open spec fn copy_source(reads: Seq<DumpRead>, p: int) -> int
    decreases reads.len(),
{
    if reads.len() == 0 {
        0
    } else {
        let r = reads.last();
        if r.buf_start <= p < r.buf_start + r.size {
            r.file_offset + (p - r.buf_start)
        } else {
            copy_source(reads.drop_last(), p)
        }
    }
}

/// The bytes that a read of `len` bytes at `address` gives over the dump
/// where it succeeds (`virtual_read_ok`): each taken from where the plan's
/// copies take it.
pub open spec fn virtual_bytes(dump: Seq<u8>, memory: Seq<DumpMemory>, address: u64, len: nat) -> Seq<u8> {
    match plan_prefix(memory, memory.len() as int, address, len) {
        Some((reads, _)) => Seq::new(len, |p: int| dump[copy_source(reads, p)]),
        None => Seq::empty(),
    }
}

/// Whether a copy covers buffer position `p`.
spec fn covered_by(reads: Seq<DumpRead>, p: int) -> bool {
    exists|i: int| 0 <= i < reads.len() && #[trigger] reads[i].buf_start <= p < reads[i].buf_start + reads[i].size
}

/// Whether every buffer position before `filled` is covered by a copy.
spec fn reads_cover(reads: Seq<DumpRead>, filled: nat) -> bool {
    forall|p: int| 0 <= p < filled ==> #[trigger] covered_by(reads, p)
}

proof fn lemma_plan_covers(memory: Seq<DumpMemory>, n: int, address: u64, len: nat)
    requires
        n <= memory.len(),
        len <= usize::MAX,
    ensures
        plan_prefix(memory, n, address, len) matches Some((reads, filled)) ==> reads_cover(reads, filled),
    decreases n,
{
    if n > 0 {
        lemma_plan_covers(memory, n - 1, address, len);
        lemma_plan_prefix(memory, n - 1, address, len);
        match plan_prefix(memory, n - 1, address, len) {
            None => {},
            Some((reads, filled)) => {
                let m = memory[n - 1];
                if region_covers(m, address) {
                    let offset = m.offset + (address - m.rva);
                    let size: nat = if m.length < len {
                        m.length as nat
                    } else {
                        len
                    };
                    if !(offset > u64::MAX || filled + size > len) {
                        let rd = DumpRead {
                            file_offset: offset as u64,
                            buf_start: filled as usize,
                            size: size as usize,
                        };
                        let next = reads.push(rd);
                        assert(plan_prefix(memory, n, address, len) == Some((next, filled + size)));
                        assert forall|p: int| 0 <= p < filled + size implies #[trigger] covered_by(next, p) by {
                            if p < filled {
                                assert(covered_by(reads, p));
                                let i = choose|i: int|
                                    0 <= i < reads.len() && #[trigger] reads[i].buf_start <= p
                                        < reads[i].buf_start + reads[i].size;
                                assert(next[i] == reads[i]);
                                assert(0 <= i < next.len() && next[i].buf_start <= p < next[i].buf_start
                                    + next[i].size);
                            } else {
                                let k = reads.len() as int;
                                assert(next[k] == rd);
                                assert(0 <= k < next.len() && next[k].buf_start <= p < next[k].buf_start
                                    + next[k].size);
                            }
                        }
                    }
                }
            },
        }
    }
}

proof fn lemma_copy_source(reads: Seq<DumpRead>, filled: nat, i: int, p: int)
    requires
        reads_ordered(reads, filled),
        0 <= i < reads.len(),
        reads[i].buf_start <= p < reads[i].buf_start + reads[i].size,
    ensures
        copy_source(reads, p) == reads[i].file_offset + (p - reads[i].buf_start),
    decreases reads.len(),
{
    let last = reads.len() - 1;
    if i < last {
        assert(reads[i].buf_start + reads[i].size <= reads[last].buf_start);
        let rest = reads.drop_last();
        assert forall|a: int| 0 <= a < rest.len() implies #[trigger] rest[a].buf_start + rest[a].size
            <= filled by {
            assert(rest[a] == reads[a]);
        }
        assert forall|a: int, b: int| 0 <= a < b < rest.len() implies #[trigger] rest[a].buf_start
            + rest[a].size <= #[trigger] rest[b].buf_start by {
            assert(rest[a] == reads[a]);
            assert(rest[b] == reads[b]);
        }
        assert(rest[i] == reads[i]);
        lemma_copy_source(rest, filled, i, p);
    }
}

/// Reads `buf.len()` bytes at `address` of the dumped address space from
/// `dump`: plans the copies (`plan_virtual_read`) and makes them
/// (`copy_reads`).
pub fn read_from_virtual(dump: &[u8], memory: &[DumpMemory], address: u64, buf: &mut [u8]) -> (r:
    Result<(), MemoryError>)
    ensures
        final(buf)@.len() == old(buf)@.len(),
        r is Ok <==> virtual_read_ok(dump@, memory@, address, old(buf)@.len()),
        r matches Ok(()) ==> plan_prefix(memory@, memory@.len() as int, address, old(buf)@.len())
            matches Some((reads, _)) && reads_done(dump@, reads, final(buf)@),
        r is Ok ==> final(buf)@ == virtual_bytes(dump@, memory@, address, old(buf)@.len()),
{
    let reads = match plan_virtual_read(memory, address, buf.len()) {
        Ok(p) => p,
        Err(e) => {
            return Err(e);
        },
    };
    proof {
        lemma_plan_prefix(memory@, memory@.len() as int, address, buf@.len());
        lemma_plan_covers(memory@, memory@.len() as int, address, buf@.len());
    }
    let ghost len = buf@.len();
    let r = copy_reads(dump, reads.as_slice(), buf);
    proof {
        if r is Ok {
            let want = virtual_bytes(dump@, memory@, address, len);
            assert forall|p: int| 0 <= p < len implies buf@[p] == want[p] by {
                assert(covered_by(reads@, p));
                let i = choose|i: int|
                    0 <= i < reads@.len() && #[trigger] reads@[i].buf_start <= p < reads@[i].buf_start
                        + reads@[i].size;
                lemma_copy_source(reads@, len, i, p);
                assert(buf@[p] == dump@[reads@[i].file_offset + (p - reads@[i].buf_start)]);
            }
            assert(buf@ =~= want);
        }
    }
    r
}

/// A read inside one region, which no other region covers, is one copy:
/// the bytes at the address's place in that region fill the whole buffer.
pub proof fn lemma_read_in_one_region(memory: Seq<DumpMemory>, k: int, address: u64, len: nat)
    requires
        0 <= k < memory.len(),
        region_covers(memory[k], address),
        forall|j: int| 0 <= j < memory.len() && j != k ==> !region_covers(#[trigger] memory[j], address),
        len <= memory[k].length,
        len <= usize::MAX,
        memory[k].offset + (address - memory[k].rva) <= u64::MAX,
    ensures
        plan_prefix(memory, memory.len() as int, address, len) == Some(
            (
                seq![
                    DumpRead {
                        file_offset: (memory[k].offset + (address - memory[k].rva)) as u64,
                        buf_start: 0,
                        size: len as usize,
                    },
                ],
                len,
            ),
        ),
{
    lemma_plan_before_region(memory, k, address, len);
    lemma_plan_after_region(memory, memory.len() as int, k, address, len);
}

proof fn lemma_plan_before_region(memory: Seq<DumpMemory>, n: int, address: u64, len: nat)
    requires
        0 <= n <= memory.len(),
        forall|j: int| 0 <= j < n ==> !region_covers(#[trigger] memory[j], address),
    ensures
        plan_prefix(memory, n, address, len) == Some((Seq::<DumpRead>::empty(), 0nat)),
    decreases n,
{
    if n > 0 {
        lemma_plan_before_region(memory, n - 1, address, len);
        assert(!region_covers(memory[n - 1], address));
    }
}

proof fn lemma_plan_after_region(memory: Seq<DumpMemory>, m: int, k: int, address: u64, len: nat)
    requires
        0 <= k < m <= memory.len(),
        region_covers(memory[k], address),
        forall|j: int| 0 <= j < memory.len() && j != k ==> !region_covers(#[trigger] memory[j], address),
        len <= memory[k].length,
        len <= usize::MAX,
        memory[k].offset + (address - memory[k].rva) <= u64::MAX,
        plan_prefix(memory, k, address, len) == Some((Seq::<DumpRead>::empty(), 0nat)),
    ensures
        plan_prefix(memory, m, address, len) == Some(
            (
                seq![
                    DumpRead {
                        file_offset: (memory[k].offset + (address - memory[k].rva)) as u64,
                        buf_start: 0,
                        size: len as usize,
                    },
                ],
                len,
            ),
        ),
    decreases m,
{
    if m == k + 1 {
        assert(Seq::<DumpRead>::empty().push(
            DumpRead {
                file_offset: (memory[k].offset + (address - memory[k].rva)) as u64,
                buf_start: 0,
                size: len as usize,
            },
        ) =~= seq![
            DumpRead {
                file_offset: (memory[k].offset + (address - memory[k].rva)) as u64,
                buf_start: 0,
                size: len as usize,
            },
        ]);
    } else {
        lemma_plan_after_region(memory, m - 1, k, address, len);
        assert(!region_covers(memory[m - 1], address));
    }
}

/// What a read gives back of a dump: a read of `len` bytes inside one
/// region, which no other region covers, succeeds where those bytes lie in
/// the dump, and gives the dump's bytes at the address's place in the region.
pub proof fn lemma_dump_bytes_in_one_region(
    dump: Seq<u8>,
    memory: Seq<DumpMemory>,
    k: int,
    address: u64,
    len: nat,
)
    requires
        0 <= k < memory.len(),
        region_covers(memory[k], address),
        forall|j: int| 0 <= j < memory.len() && j != k ==> !region_covers(#[trigger] memory[j], address),
        len <= memory[k].length,
        len <= usize::MAX,
        memory[k].offset + (address - memory[k].rva) <= u64::MAX,
    ensures
        virtual_read_ok(dump, memory, address, len) <==> memory[k].offset + (address - memory[k].rva) + len
            <= dump.len(),
        virtual_read_ok(dump, memory, address, len) ==> virtual_bytes(dump, memory, address, len)
            == dump.subrange(
            memory[k].offset + (address - memory[k].rva),
            memory[k].offset + (address - memory[k].rva) + len,
        ),
{
    lemma_read_in_one_region(memory, k, address, len);
    let offset = memory[k].offset + (address - memory[k].rva);
    let rd = DumpRead { file_offset: offset as u64, buf_start: 0, size: len as usize };
    let reads = seq![rd];
    assert(reads[0] == rd);
    assert(rd.size == len && rd.file_offset == offset);
    assert(reads_in_dump(reads, dump.len()) == (offset + len <= dump.len())) by {
        if !(offset + len <= dump.len()) {
            assert(reads[0].file_offset + reads[0].size > dump.len());
        } else {
            assert forall|i: int| 0 <= i < reads.len() implies #[trigger] reads[i].file_offset
                + reads[i].size <= dump.len() by {
                assert(reads[i] == rd);
            }
        }
    }
    if virtual_read_ok(dump, memory, address, len) {
        let got = virtual_bytes(dump, memory, address, len);
        let want = dump.subrange(offset, offset + len);
        assert forall|p: int| 0 <= p < len implies got[p] == want[p] by {
            assert(reads.drop_last().len() == 0);
            assert(copy_source(reads, p) == offset + p);
        }
        assert(got =~= want);
    }
}

} // verus!
