//! The address-translation table: the immutable, binary-searched index
//! from physical address to mapped virtual address.

use vstd::prelude::*;

use crate::mem::MapPhysicalMemoryResponse;

verus! {

/// One row of the address-translation table: the physical interval
/// `[phys_addr, phys_addr + size)` is visible at
/// `[virt_addr, virt_addr + size)` in the process's address space.
#[derive(Clone, Copy, Debug, PartialEq, Eq, Structural)]
pub struct TranslationEntry {
    /// The starting physical address of the translated interval.
    pub phys_addr: u64,
    /// The number of bytes translated.
    pub size: u64,
    /// The virtual address the interval starts at.
    pub virt_addr: u64,
}

/// The table row describing a mapping returned by a driver adapter.
pub open spec fn entry_of(m: MapPhysicalMemoryResponse) -> TranslationEntry {
    TranslationEntry { phys_addr: m.phys_addr, size: m.size, virt_addr: m.virt_addr }
}

/// Whether the physical address `addr` falls inside the interval of `e`.
pub open spec fn entry_contains(e: TranslationEntry, addr: u64) -> bool {
    e.phys_addr <= addr < e.phys_addr as int + e.size as int
}

/// Whether an entry's intervals fit in the address space without wrapping.
pub open spec fn entry_valid(e: TranslationEntry) -> bool {
    &&& e.phys_addr as int + e.size as int <= u64::MAX as int + 1
    &&& e.virt_addr as int + e.size as int <= u64::MAX as int + 1
}

/// The address-translation table: the hot-path index from physical address to
/// mapped virtual address. Built once from the mapping cache, immutable
/// thereafter; lookups binary-search on the physical start address.
#[derive(Debug, PartialEq, Eq)]
pub struct TranslationTable {
    /// The rows of the table, one per mapping, in the order the mappings
    /// were established.
    pub entries: Vec<TranslationEntry>,
}

impl TranslationTable {
    /// Well-formedness: every row fits in the address space without
    /// wrapping, and the rows are sorted by physical start address with
    /// pairwise disjoint physical intervals.
    pub open spec fn wf(self) -> bool {
        &&& forall|i: int| 0 <= i < self.entries@.len() ==> entry_valid(#[trigger] self.entries@[i])
        &&& forall|i: int, j: int|
            0 <= i < j < self.entries@.len() ==> (#[trigger] self.entries@[i]).phys_addr as int
                + self.entries@[i].size as int <= (#[trigger] self.entries@[j]).phys_addr as int
    }

    /// The number of rows in the table.
    pub fn len(&self) -> (r: usize)
        ensures
            r == self.entries@.len(),
    {
        self.entries.len()
    }

    /// Returns a copy of the table. The table is small — one row per mapped
    /// range — so every holder of the context can afford its own copy.
    pub fn duplicate(&self) -> (t: TranslationTable)
        ensures
            t.entries@ == self.entries@,
    {
        let mut entries: Vec<TranslationEntry> = Vec::new();
        let mut k: usize = 0;
        while k < self.entries.len()
            invariant
                0 <= k <= self.entries@.len(),
                entries@ == self.entries@.take(k as int),
            decreases self.entries@.len() - k,
        {
            entries.push(self.entries[k]);
            proof {
                assert(self.entries@.take(k as int + 1).drop_last() =~= self.entries@.take(
                    k as int,
                ));
                assert(entries@ =~= self.entries@.take(k as int + 1));
            }
            k = k + 1;
        }
        proof {
            assert(self.entries@.take(self.entries@.len() as int) =~= self.entries@);
        }
        TranslationTable { entries }
    }

    /// Checks well-formedness: rows sorted by physical start, physical
    /// intervals disjoint, no interval wrapping around the address space.
    pub fn is_well_formed(&self) -> (r: bool)
        ensures
            r == self.wf(),
    {
        let n: usize = self.entries.len();
        let mut k: usize = 0;
        while k < n
            invariant
                n == self.entries@.len(),
                0 <= k <= n,
                forall|i: int| 0 <= i < k ==> entry_valid(#[trigger] self.entries@[i]),
                forall|i: int|
                    0 < i < k ==> (#[trigger] self.entries@[i - 1]).phys_addr as int + self.entries@[
                        i - 1
                    ].size as int <= self.entries@[i].phys_addr as int,
            decreases n - k,
        {
            let e = self.entries[k];
            let phys_fits = e.size == 0 || e.size - 1 <= u64::MAX - e.phys_addr;
            let virt_fits = e.size == 0 || e.size - 1 <= u64::MAX - e.virt_addr;
            if !(phys_fits && virt_fits) {
                assert(!entry_valid(self.entries@[k as int]));
                return false;
            }
            if k > 0 {
                let p = self.entries[k - 1];
                if !(p.phys_addr <= e.phys_addr && p.size <= e.phys_addr - p.phys_addr) {
                    assert(!(self.entries@[k as int - 1].phys_addr as int + self.entries@[k as int
                        - 1].size as int <= self.entries@[k as int].phys_addr as int));
                    return false;
                }
            }
            k = k + 1;
        }
        proof {
            if self.entries@.len() > 0 {
                Self::lemma_adjacent_sorted_implies_pairwise(self.entries@);
            }
        }
        true
    }

    /// Adjacent sortedness with disjointness extends to all pairs of rows.
    proof fn lemma_adjacent_sorted_implies_pairwise(s: Seq<TranslationEntry>)
        requires
            forall|i: int|
                0 < i < s.len() ==> (#[trigger] s[i - 1]).phys_addr as int + s[i - 1].size as int
                    <= s[i].phys_addr as int,
        ensures
            forall|i: int, j: int|
                0 <= i < j < s.len() ==> (#[trigger] s[i]).phys_addr as int + s[i].size as int <= (
                #[trigger] s[j]).phys_addr as int,
        decreases s.len(),
    {
        if s.len() > 1 {
            Self::lemma_adjacent_sorted_implies_pairwise(s.drop_last());
            assert forall|i: int, j: int| 0 <= i < j < s.len() implies (#[trigger] s[i]).phys_addr
                as int + s[i].size as int <= (#[trigger] s[j]).phys_addr as int by {
                if j < s.len() - 1 {
                    assert(s.drop_last()[i] == s[i]);
                    assert(s.drop_last()[j] == s[j]);
                } else if i < j - 1 {
                    assert(s.drop_last()[i] == s[i]);
                    assert(s.drop_last()[j - 1] == s[j - 1]);
                    assert(s[j - 1].phys_addr as int + s[j - 1].size as int <= s[j].phys_addr as int);
                }
            }
        }
    }

    /// Translates the physical address `addr` to the virtual address it is
    /// mapped at, or `None` when no row of the table covers it.
    pub fn translate(&self, addr: u64) -> (r: Option<u64>)
        requires
            self.wf(),
        ensures
            match r {
                Some(v) => exists|i: int|
                    0 <= i < self.entries@.len() && entry_contains(#[trigger] self.entries@[i], addr)
                        && v as int == self.entries@[i].virt_addr as int + (addr as int
                        - self.entries@[i].phys_addr as int),
                None => forall|i: int|
                    0 <= i < self.entries@.len() ==> !entry_contains(
                        #[trigger] self.entries@[i],
                        addr,
                    ),
            },
    {
        let n: usize = self.entries.len();
        let mut lo: usize = 0;
        let mut hi: usize = n;
        while lo < hi
            invariant
                self.wf(),
                n == self.entries@.len(),
                0 <= lo <= hi <= n,
                forall|i: int| 0 <= i < lo ==> (#[trigger] self.entries@[i]).phys_addr <= addr,
                forall|i: int| hi <= i < n ==> (#[trigger] self.entries@[i]).phys_addr > addr,
            decreases hi - lo,
        {
            let mid: usize = lo + (hi - lo) / 2;
            if self.entries[mid].phys_addr <= addr {
                lo = mid + 1;
            } else {
                hi = mid;
            }
        }
        if lo == 0 {
            return None;
        }
        let e = self.entries[lo - 1];
        if addr - e.phys_addr < e.size {
            assert(entry_contains(self.entries@[lo as int - 1], addr));
            Some(e.virt_addr + (addr - e.phys_addr))
        } else {
            assert forall|i: int| 0 <= i < self.entries@.len() implies !entry_contains(
                #[trigger] self.entries@[i],
                addr,
            ) by {
                if i < lo as int - 1 {
                    assert(self.entries@[i].phys_addr as int + self.entries@[i].size as int
                        <= self.entries@[lo as int - 1].phys_addr as int);
                }
            }
            None
        }
    }
}

} // verus!
