//! The mapping cache: owns the driver adapter, eagerly maps ranges,
//! retains the mappings, rolls everything back on partial failure, and
//! builds the address-translation table.

use vstd::prelude::*;

use crate::addr_map::TranslationEntry;
use crate::addr_map::TranslationTable;
use crate::addr_map::entry_of;
use crate::error::Error;
use crate::mem::DriverEvent;
use crate::mem::MapPhysicalMemoryResponse;
use crate::mem::PhysicalMemory;
use crate::phys_ranges::PhysicalMemoryRange;

verus! {

/// Whether the mapping `m` is the one requested for the range `r`: same
/// physical start address and same size.
pub open spec fn matches_range(m: MapPhysicalMemoryResponse, r: PhysicalMemoryRange) -> bool {
    m.phys_addr == r.addr && m.size == r.size
}

/// The successful map events for the given mappings, in order.
pub open spec fn map_ok_events(ms: Seq<MapPhysicalMemoryResponse>) -> Seq<DriverEvent> {
    ms.map_values(|m: MapPhysicalMemoryResponse| DriverEvent::MapOk { mapping: m })
}

/// The unmap events for the given mappings, in order.
pub open spec fn unmap_events(ms: Seq<MapPhysicalMemoryResponse>) -> Seq<DriverEvent> {
    ms.map_values(|m: MapPhysicalMemoryResponse| DriverEvent::Unmap { mapping: m })
}

/// The driver history left behind by a failed `map_ranges` call: the first
/// `k` ranges were mapped successfully (yielding the mappings `ms`), range
/// `k` itself failed, and the `k` successful mappings were then unmapped in
/// reverse order, so that no partial state survives.
pub open spec fn failed_map_history(
    old_events: Seq<DriverEvent>,
    new_events: Seq<DriverEvent>,
    ranges: Seq<PhysicalMemoryRange>,
    k: int,
    ms: Seq<MapPhysicalMemoryResponse>,
) -> bool {
    &&& 0 <= k < ranges.len()
    &&& ms.len() == k
    &&& (forall|i: int| 0 <= i < k ==> matches_range(#[trigger] ms[i], ranges[i]))
    &&& new_events == old_events + map_ok_events(ms) + seq![
        DriverEvent::MapFailed { phys_addr: ranges[k].addr },
    ] + unmap_events(ms.reverse())
}

/// Owns a driver adapter and the physical memory mappings established
/// through it.
///
/// Every range handed to `map_ranges` is mapped eagerly and retained; the
/// mappings are released together by `unmap_all`, and on a partial failure
/// nothing is retained at all.
#[derive(Debug)]
pub struct PhysicalMemoryMapper<M: PhysicalMemory> {
    pub(crate) mem: M,
    pub(crate) mappings: Vec<MapPhysicalMemoryResponse>,
}

impl<M: PhysicalMemory> PhysicalMemoryMapper<M> {
    /// The mappings currently held, in the order they were established.
    pub closed spec fn mappings(&self) -> Seq<MapPhysicalMemoryResponse> {
        self.mappings@
    }

    /// The driver adapter owned by this mapper.
    pub closed spec fn driver(&self) -> M {
        self.mem
    }

    /// The history of driver calls made through this mapper's adapter.
    pub open spec fn events(&self) -> Seq<DriverEvent> {
        self.driver().events()
    }

    /// Creates a mapper that owns `mem` and holds no mappings yet.
    pub fn with_mem(mem: M) -> (r: Result<Self, Error>)
        ensures
            match r {
                Ok(p) => p.mappings().len() == 0 && p.driver() == mem,
                Err(_) => false,
            },
    {
        Ok(PhysicalMemoryMapper { mem, mappings: Vec::new() })
    }

    /// The driver adapter, for inspection.
    pub fn mem(&self) -> (m: &M)
        ensures
            *m == self.driver(),
    {
        &self.mem
    }

    /// The number of mappings currently held.
    pub fn mapping_count(&self) -> (r: usize)
        ensures
            r == self.mappings().len(),
    {
        self.mappings.len()
    }

    /// The `i`-th mapping currently held.
    pub fn mapping_at(&self, i: usize) -> (m: MapPhysicalMemoryResponse)
        requires
            i < self.mappings().len(),
        ensures
            m == self.mappings()[i as int],
    {
        self.mappings[i]
    }

    /// Maps the given physical memory ranges, in order.
    ///
    /// On success every range has been mapped and the resulting mappings are
    /// retained, one per range, each covering exactly its range. On the first
    /// failure the iteration stops, every mapping established so far is
    /// unmapped again in reverse order with individual unmap failures
    /// discarded, and the offending physical address is surfaced; the mapper
    /// holds no mappings afterwards.
    pub fn map_ranges(&mut self, ranges: &Vec<PhysicalMemoryRange>) -> (r: Result<(), Error>)
        requires
            old(self).mappings().len() == 0,
        ensures
            match r {
                Ok(()) => {
                    &&& final (self).mappings().len() == ranges@.len()
                    &&& (forall|i: int|
                        0 <= i < ranges@.len() ==> matches_range(
                            #[trigger] final (self).mappings()[i],
                            ranges@[i],
                        ))
                    &&& final (self).events() == old(self).events() + map_ok_events(
                        final (self).mappings(),
                    )
                },
                Err(e) => {
                    &&& final (self).mappings().len() == 0
                    &&& exists|k: int, ms: Seq<MapPhysicalMemoryResponse>|
                        #![auto]
                        failed_map_history(
                            old(self).events(),
                            final (self).events(),
                            ranges@,
                            k,
                            ms,
                        ) && e == (Error::MapPhysicalMemory { addr: ranges@[k].addr })
                },
            },
    {
        let mut idx: usize = 0;
        while idx < ranges.len()
            invariant
                0 <= idx <= ranges@.len(),
                self.mappings().len() == idx,
                forall|i: int|
                    0 <= i < idx ==> matches_range(#[trigger] self.mappings()[i], ranges@[i]),
                self.events() == old(self).events() + map_ok_events(self.mappings()),
            decreases ranges@.len() - idx,
        {
            let rg = ranges[idx];
            let ghost pre_mappings = self.mappings();
            match self.mem.map_phys_mem(rg.addr, rg.size) {
                Ok(m) => {
                    self.mappings.push(m);
                    proof {
                        assert(self.mappings() =~= pre_mappings.push(m));
                        assert(map_ok_events(pre_mappings.push(m)) =~= map_ok_events(
                            pre_mappings,
                        ).push(DriverEvent::MapOk { mapping: m }));
                        assert(old(self).events() + map_ok_events(pre_mappings).push(
                            DriverEvent::MapOk { mapping: m },
                        ) =~= (old(self).events() + map_ok_events(pre_mappings)).push(
                            DriverEvent::MapOk { mapping: m },
                        ));
                    }
                    idx = idx + 1;
                },
                Err(_) => {
                    let ghost ms = self.mappings();
                    let ghost k = idx as int;
                    let ghost failed_events = old(self).events() + map_ok_events(ms) + seq![
                        DriverEvent::MapFailed { phys_addr: ranges@[k].addr },
                    ];
                    proof {
                        assert((old(self).events() + map_ok_events(ms)).push(
                            DriverEvent::MapFailed { phys_addr: ranges@[k].addr },
                        ) =~= failed_events);
                    }
                    while self.mappings.len() > 0
                        invariant
                            self.mappings().len() <= ms.len(),
                            self.mappings() == ms.take(self.mappings().len() as int),
                            self.events() == failed_events + unmap_events(
                                ms.skip(self.mappings().len() as int).reverse(),
                            ),
                        decreases self.mappings().len(),
                    {
                        let ghost pre_len = self.mappings().len() as int;
                        let m = self.mappings.pop().unwrap();
                        let _ = self.mem.unmap_phys_mem(m);
                        proof {
                            assert(m == ms[pre_len - 1]);
                            assert(self.mappings() =~= ms.take(pre_len - 1));
                            assert(ms.skip(pre_len - 1).reverse() =~= ms.skip(pre_len).reverse()
                                .push(ms[pre_len - 1]));
                            assert(unmap_events(ms.skip(pre_len).reverse().push(ms[pre_len - 1]))
                                =~= unmap_events(ms.skip(pre_len).reverse()).push(
                                DriverEvent::Unmap { mapping: ms[pre_len - 1] },
                            ));
                            assert(failed_events + unmap_events(ms.skip(pre_len).reverse()).push(
                                DriverEvent::Unmap { mapping: ms[pre_len - 1] },
                            ) =~= (failed_events + unmap_events(ms.skip(pre_len).reverse())).push(
                                DriverEvent::Unmap { mapping: ms[pre_len - 1] },
                            ));
                        }
                    }
                    proof {
                        assert(ms.skip(0) =~= ms);
                        assert(failed_map_history(
                            old(self).events(),
                            self.events(),
                            ranges@,
                            k,
                            ms,
                        ));
                    }
                    return Err(Error::MapPhysicalMemory { addr: rg.addr });
                },
            }
        }
        Ok(())
    }

    /// Unmaps every mapping currently held, in order, discarding individual
    /// unmap failures; afterwards the mapper holds no mappings.
    pub fn unmap_all(&mut self)
        ensures
            final (self).mappings().len() == 0,
            final (self).events() == old(self).events() + unmap_events(old(self).mappings()),
    {
        let ghost ms = self.mappings();
        let mut idx: usize = 0;
        while idx < self.mappings.len()
            invariant
                self.mappings() == ms,
                0 <= idx <= ms.len(),
                self.events() == old(self).events() + unmap_events(ms.take(idx as int)),
            decreases ms.len() - idx,
        {
            let m = self.mappings[idx];
            let _ = self.mem.unmap_phys_mem(m);
            proof {
                assert(ms.take(idx as int + 1) =~= ms.take(idx as int).push(ms[idx as int]));
                assert(unmap_events(ms.take(idx as int).push(ms[idx as int])) =~= unmap_events(
                    ms.take(idx as int),
                ).push(DriverEvent::Unmap { mapping: ms[idx as int] }));
                assert(old(self).events() + unmap_events(ms.take(idx as int)).push(
                    DriverEvent::Unmap { mapping: ms[idx as int] },
                ) =~= (old(self).events() + unmap_events(ms.take(idx as int))).push(
                    DriverEvent::Unmap { mapping: ms[idx as int] },
                ));
            }
            idx = idx + 1;
        }
        proof {
            assert(ms.take(ms.len() as int) =~= ms);
        }
        self.mappings.clear();
    }

    /// Builds the address-translation table from the mappings currently
    /// held: one row per mapping, in the order the mappings were
    /// established, each binding the mapping's physical interval to its
    /// virtual interval.
    pub fn addr_map(&self) -> (t: TranslationTable)
        ensures
            t.entries@.len() == self.mappings().len(),
            forall|i: int|
                0 <= i < self.mappings().len() ==> #[trigger] t.entries@[i] == entry_of(
                    self.mappings()[i],
                ),
    {
        let mut entries: Vec<TranslationEntry> = Vec::new();
        let mut idx: usize = 0;
        while idx < self.mappings.len()
            invariant
                0 <= idx <= self.mappings().len(),
                entries@.len() == idx,
                forall|i: int|
                    0 <= i < idx ==> entries@[i] == entry_of(#[trigger] self.mappings()[i]),
            decreases self.mappings().len() - idx,
        {
            let m = self.mappings[idx];
            entries.push(TranslationEntry {
                phys_addr: m.phys_addr,
                size: m.size,
                virt_addr: m.virt_addr,
            });
            idx = idx + 1;
        }
        TranslationTable { entries }
    }
}

} // verus!
