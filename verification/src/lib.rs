//! A driver-agnostic framework for exposing a machine's physical RAM as a
//! flat, mappable address space through a vulnerable kernel driver's
//! physical-to-virtual mapping capability.
//!
//! The core pieces are the physical-memory range enumerator's descriptor
//! parser, the driver capability interface, the mapping cache that eagerly
//! maps every range and rolls back on partial failure, the
//! address-translation table serving the hot read/write path, and the
//! builder and shared context that tie the lifecycle together: mappings are
//! released before the service that keeps the driver loaded is stopped.

use vstd::prelude::*;

pub mod addr_map;
pub mod error;
pub mod laws;
pub mod mem;
pub mod phys_mapper;
pub mod phys_ranges;
pub mod service;
pub mod wire;

pub use addr_map::TranslationEntry;
pub use addr_map::TranslationTable;
pub use error::Error;
pub use error::ServiceErrorKind;
pub use mem::DriverEvent;
pub use mem::MapPhysicalMemoryResponse;
pub use mem::MappingCookie;
pub use mem::MockDriver;
pub use mem::PhysicalMemory;
pub use mem::PhysicalMemoryMapping;
pub use phys_mapper::PhysicalMemoryMapper;
pub use phys_ranges::PhysicalMemoryRange;
pub use service::MockService;
pub use service::ServiceControl;
pub use service::ServiceEvent;
pub use service::ServiceState;

use crate::addr_map::entry_of;
use crate::phys_mapper::map_ok_events;
use crate::phys_mapper::matches_range;
use crate::phys_mapper::unmap_events;
use crate::service::start_history_failed;
use crate::service::start_history_ok;

verus! {

/// One action performed during the teardown of a context, as reported by
/// [`VdmContext::release`].
#[derive(Clone, Copy, Debug, PartialEq, Eq, Structural)]
pub enum TeardownEvent {
    /// The given mapping was handed back to the driver for unmapping.
    Unmapped { mapping: MapPhysicalMemoryResponse },
    /// The stop control was issued to the associated service.
    ServiceStopped,
}

/// The teardown record for unmapping the given mappings, in order.
pub open spec fn unmapped_trace(ms: Seq<MapPhysicalMemoryResponse>) -> Seq<TeardownEvent> {
    ms.map_values(|m: MapPhysicalMemoryResponse| TeardownEvent::Unmapped { mapping: m })
}

/// A ready-to-use connector context: the address-translation table, the
/// mapping cache that backs it, and, optionally, the service that keeps the
/// driver loaded.
///
/// The context is shared: every holder calls [`clone_ref`] to obtain its own
/// copy of the (small) translation table while the cache and the service
/// stay shared, and [`release`] to give its share back. Only when the last
/// share is released does teardown fire: every mapping is unmapped, and only
/// then is the service stopped.
///
/// [`clone_ref`]: VdmContext::clone_ref
/// [`release`]: VdmContext::release
#[derive(Debug)]
pub struct VdmContext<M: PhysicalMemory, S: ServiceControl> {
    table: TranslationTable,
    mapper: PhysicalMemoryMapper<M>,
    service: Option<S>,
    refs: u64,
}

impl<M: PhysicalMemory, S: ServiceControl> VdmContext<M, S> {
    /// The rows of the address-translation table.
    pub closed spec fn table_spec(&self) -> Seq<TranslationEntry> {
        self.table.entries@
    }

    /// The mappings currently held by the shared cache.
    pub closed spec fn mappings(&self) -> Seq<MapPhysicalMemoryResponse> {
        self.mapper.mappings()
    }

    /// The driver adapter owned by the shared cache.
    pub closed spec fn driver(&self) -> M {
        self.mapper.driver()
    }

    /// The history of driver calls made through the shared cache.
    pub open spec fn driver_events(&self) -> Seq<DriverEvent> {
        self.driver().events()
    }

    /// The service associated with the context, if any.
    pub closed spec fn service_spec(&self) -> Option<S> {
        self.service
    }

    /// The history of control requests issued to the associated service; an
    /// absent service has an empty history.
    pub open spec fn service_events(&self) -> Seq<ServiceEvent> {
        match self.service_spec() {
            Some(s) => s.events(),
            None => Seq::empty(),
        }
    }

    /// The number of shares currently outstanding.
    pub closed spec fn refs(&self) -> int {
        self.refs as int
    }

    /// Whether at least one share is still outstanding.
    pub open spec fn live(&self) -> bool {
        self.refs() >= 1
    }

    /// Creates a context with a single outstanding share.
    pub(crate) fn new(
        table: TranslationTable,
        mapper: PhysicalMemoryMapper<M>,
        service: Option<S>,
    ) -> (r: VdmContext<M, S>)
        ensures
            r.table_spec() == table.entries@,
            r.mappings() == mapper.mappings(),
            r.driver() == mapper.driver(),
            r.service_spec() == service,
            r.refs() == 1,
    {
        VdmContext { table, mapper, service, refs: 1 }
    }

    /// The address-translation table.
    pub fn addr_map(&self) -> (t: &TranslationTable)
        ensures
            t.entries@ == self.table_spec(),
    {
        &self.table
    }

    /// The driver adapter, for inspection.
    pub fn mem(&self) -> (m: &M)
        ensures
            *m == self.driver(),
    {
        self.mapper.mem()
    }

    /// The associated service, for inspection.
    pub fn service(&self) -> (s: &Option<S>)
        ensures
            *s == self.service_spec(),
    {
        &self.service
    }

    /// The number of shares currently outstanding.
    pub fn ref_count(&self) -> (r: u64)
        ensures
            r as int == self.refs(),
    {
        self.refs
    }

    /// Obtains a further share of the context, returning the new holder's
    /// own copy of the translation table.
    ///
    /// Nothing is mapped, unmapped, or asked of the service: the driver and
    /// service histories are exactly what they were.
    pub fn clone_ref(&mut self) -> (t: TranslationTable)
        requires
            old(self).live(),
            old(self).refs() < u64::MAX as int,
        ensures
            final (self).refs() == old(self).refs() + 1,
            t.entries@ == old(self).table_spec(),
            final (self).table_spec() == old(self).table_spec(),
            final (self).mappings() == old(self).mappings(),
            final (self).driver() == old(self).driver(),
            final (self).service_spec() == old(self).service_spec(),
    {
        self.refs = self.refs + 1;
        self.table.duplicate()
    }

    /// Gives one share of the context back.
    ///
    /// While other shares remain, nothing else happens: no mapping is
    /// released and no control request is issued. When the last share is
    /// given back, teardown fires: every mapping held by the cache is handed
    /// back to the driver, in order, and only after all of them does the
    /// associated service, if any, receive the stop control. The returned
    /// record lists what was done, in the order it was done.
    pub fn release(&mut self) -> (trace: Vec<TeardownEvent>)
        requires
            old(self).live(),
        ensures
            final (self).refs() == old(self).refs() - 1,
            final (self).table_spec() == old(self).table_spec(),
            old(self).refs() > 1 ==> {
                &&& trace@ == Seq::<TeardownEvent>::empty()
                &&& final (self).mappings() == old(self).mappings()
                &&& final (self).driver() == old(self).driver()
                &&& final (self).service_spec() == old(self).service_spec()
            },
            old(self).refs() == 1 ==> {
                &&& trace@ == unmapped_trace(old(self).mappings()) + (match old(
                    self,
                ).service_spec() {
                    Some(_) => seq![TeardownEvent::ServiceStopped],
                    None => Seq::<TeardownEvent>::empty(),
                })
                &&& final (self).mappings().len() == 0
                &&& final (self).driver_events() == old(self).driver_events() + unmap_events(
                    old(self).mappings(),
                )
                &&& final (self).service_events() == old(self).service_events() + (match old(
                    self,
                ).service_spec() {
                    Some(_) => seq![ServiceEvent::StopIssued],
                    None => Seq::<ServiceEvent>::empty(),
                })
                &&& final (self).service_spec() is Some <==> old(self).service_spec() is Some
            },
    {
        self.refs = self.refs - 1;
        if self.refs > 0 {
            return Vec::new();
        }
        let ghost pre_mappings = self.mapper.mappings();
        let mut trace: Vec<TeardownEvent> = Vec::new();
        let mut k: usize = 0;
        while k < self.mapper.mapping_count()
            invariant
                self.mapper.mappings() == pre_mappings,
                0 <= k <= pre_mappings.len(),
                trace@ == unmapped_trace(pre_mappings.take(k as int)),
            decreases pre_mappings.len() - k,
        {
            let m = self.mapper.mapping_at(k);
            trace.push(TeardownEvent::Unmapped { mapping: m });
            proof {
                assert(pre_mappings.take(k as int + 1) =~= pre_mappings.take(k as int).push(
                    pre_mappings[k as int],
                ));
                assert(unmapped_trace(pre_mappings.take(k as int).push(pre_mappings[k as int]))
                    =~= unmapped_trace(pre_mappings.take(k as int)).push(
                    TeardownEvent::Unmapped { mapping: pre_mappings[k as int] },
                ));
            }
            k = k + 1;
        }
        proof {
            assert(pre_mappings.take(pre_mappings.len() as int) =~= pre_mappings);
        }
        self.mapper.unmap_all();
        match &mut self.service {
            Some(s) => {
                let _ = s.issue_stop();
                trace.push(TeardownEvent::ServiceStopped);
                proof {
                    assert(trace@ =~= unmapped_trace(pre_mappings) + seq![
                        TeardownEvent::ServiceStopped,
                    ]);
                }
            },
            None => {
                proof {
                    assert(trace@ =~= unmapped_trace(pre_mappings)
                        + Seq::<TeardownEvent>::empty());
                }
            },
        }
        trace
    }
}

/// Builder for constructing a [`VdmContext`] from a driver adapter, the
/// physical memory ranges to map, and, optionally, the service that keeps
/// the driver loaded.
#[derive(Debug)]
pub struct VdmConnectorBuilder<M: PhysicalMemory, S: ServiceControl> {
    mem: Option<M>,
    ranges: Option<Vec<PhysicalMemoryRange>>,
    service: Option<S>,
}

impl<M: PhysicalMemory, S: ServiceControl> VdmConnectorBuilder<M, S> {
    /// The driver adapter configured so far.
    pub closed spec fn mem_spec(&self) -> Option<M> {
        self.mem
    }

    /// The physical memory ranges configured so far.
    pub closed spec fn ranges_spec(&self) -> Option<Seq<PhysicalMemoryRange>> {
        match self.ranges {
            Some(rs) => Some(rs@),
            None => None,
        }
    }

    /// The service configured so far.
    pub closed spec fn service_spec(&self) -> Option<S> {
        self.service
    }

    /// Creates a builder with nothing configured.
    pub fn new() -> (b: VdmConnectorBuilder<M, S>)
        ensures
            b.mem_spec() is None,
            b.ranges_spec() is None,
            b.service_spec() is None,
    {
        VdmConnectorBuilder { mem: None, ranges: None, service: None }
    }

    /// Sets the physical memory provider.
    ///
    /// This must be called before [`build`](Self::build) unless
    /// [`with_service`](Self::with_service) is used with a driver.
    pub fn with_memory(self, mem: M) -> (b: VdmConnectorBuilder<M, S>)
        ensures
            b.mem_spec() == Some(mem),
            b.ranges_spec() == self.ranges_spec(),
            b.service_spec() == self.service_spec(),
    {
        VdmConnectorBuilder { mem: Some(mem), ranges: self.ranges, service: self.service }
    }

    /// Specifies the physical memory ranges to map.
    ///
    /// [`build`](Self::build) maps exactly these ranges, in this order.
    pub fn with_ranges(self, ranges: Vec<PhysicalMemoryRange>) -> (b: VdmConnectorBuilder<M, S>)
        ensures
            b.mem_spec() == self.mem_spec(),
            b.ranges_spec() == Some(ranges@),
            b.service_spec() == self.service_spec(),
    {
        VdmConnectorBuilder { mem: self.mem, ranges: Some(ranges), service: self.service }
    }

    /// Attaches an already registered service for the vulnerable driver and
    /// starts it unless it is already running.
    ///
    /// On success the service is owned by the builder and, later, by the
    /// built context, which stops it on teardown. On failure the service is
    /// released again and the start failure is surfaced; the builder is
    /// gone, so nothing of the configuration survives.
    pub fn with_service(self, service: S) -> (r: Result<VdmConnectorBuilder<M, S>, Error>)
        ensures
            match r {
                Ok(b) => {
                    &&& b.mem_spec() == self.mem_spec()
                    &&& b.ranges_spec() == self.ranges_spec()
                    &&& match b.service_spec() {
                        Some(sv) => start_history_ok(service.events(), sv.events()),
                        None => false,
                    }
                },
                Err(e) => exists|ev: Seq<ServiceEvent>|
                    #![auto]
                    start_history_failed(service.events(), ev, e),
            },
    {
        let mut service = service;
        match service::start_service(&mut service) {
            Ok(()) => Ok(
                VdmConnectorBuilder {
                    mem: self.mem,
                    ranges: self.ranges,
                    service: Some(service),
                },
            ),
            Err(e) => Err(e),
        }
    }

    /// Consumes the builder and produces a [`VdmContext`].
    ///
    /// Every configured range is mapped, in order, and the translation table
    /// is built with one row per range, binding the range's physical
    /// interval to the virtual interval the driver reported. If any range
    /// fails to map, every mapping established before it is unmapped again,
    /// the service configured by [`with_service`](Self::with_service) is
    /// sent the stop control, and the offending physical address is
    /// surfaced: no context is produced and no resource stays acquired. An
    /// empty range list always succeeds, with an empty table.
    pub fn build(self) -> (r: Result<VdmContext<M, S>, Error>)
        requires
            self.mem_spec() is Some,
            self.ranges_spec() is Some,
        ensures
            match r {
                Ok(ctx) => {
                    &&& ctx.refs() == 1
                    &&& ctx.mappings().len() == self.ranges_spec().unwrap().len()
                    &&& (forall|i: int|
                        0 <= i < ctx.mappings().len() ==> matches_range(
                            #[trigger] ctx.mappings()[i],
                            self.ranges_spec().unwrap()[i],
                        ))
                    &&& ctx.table_spec().len() == self.ranges_spec().unwrap().len()
                    &&& (forall|i: int|
                        0 <= i < ctx.table_spec().len() ==> #[trigger] ctx.table_spec()[i]
                            == entry_of(ctx.mappings()[i]))
                    &&& (forall|i: int|
                        0 <= i < ctx.table_spec().len() ==> (#[trigger] ctx.table_spec()[i]).phys_addr
                            == self.ranges_spec().unwrap()[i].addr && ctx.table_spec()[i].size
                            == self.ranges_spec().unwrap()[i].size)
                    &&& ctx.driver_events() == self.mem_spec().unwrap().events() + map_ok_events(
                        ctx.mappings(),
                    )
                    &&& ctx.service_spec() == self.service_spec()
                },
                Err(e) => {
                    &&& self.ranges_spec().unwrap().len() > 0
                    &&& exists|k: int|
                        #![auto]
                        0 <= k < self.ranges_spec().unwrap().len() && e == (Error::MapPhysicalMemory {
                            addr: self.ranges_spec().unwrap()[k].addr,
                        })
                },
            },
    {
        let mem = match self.mem {
            Some(m) => m,
            None => vstd::pervasive::unreached(),
        };
        let ranges = match self.ranges {
            Some(rs) => rs,
            None => vstd::pervasive::unreached(),
        };
        let mut mapper = match PhysicalMemoryMapper::with_mem(mem) {
            Ok(p) => p,
            Err(e) => {
                return Err(e);
            },
        };
        match mapper.map_ranges(&ranges) {
            Ok(()) => {
                let table = mapper.addr_map();
                let ctx = VdmContext::new(table, mapper, self.service);
                proof {
                    assert(ctx.refs() == 1);
                    assert(ctx.mappings().len() == self.ranges_spec().unwrap().len());
                    assert(forall|i: int|
                        0 <= i < ctx.mappings().len() ==> matches_range(
                            #[trigger] ctx.mappings()[i],
                            self.ranges_spec().unwrap()[i],
                        ));
                    assert(ctx.table_spec().len() == self.ranges_spec().unwrap().len());
                    assert(forall|i: int|
                        0 <= i < ctx.table_spec().len() ==> #[trigger] ctx.table_spec()[i]
                            == entry_of(ctx.mappings()[i]));
                    assert(forall|i: int|
                        0 <= i < ctx.table_spec().len() ==> (#[trigger] ctx.table_spec()[i]).phys_addr
                            == self.ranges_spec().unwrap()[i].addr && ctx.table_spec()[i].size
                            == self.ranges_spec().unwrap()[i].size);
                    assert(ctx.driver_events() == self.mem_spec().unwrap().events()
                        + map_ok_events(ctx.mappings()));
                    assert(ctx.service_spec() == self.service_spec());
                }
                Ok(ctx)
            },
            Err(e) => {
                match self.service {
                    Some(mut s) => {
                        let _ = s.issue_stop();
                    },
                    None => {},
                }
                Err(e)
            },
        }
    }
}

} // verus!
