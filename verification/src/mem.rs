//! The driver capability interface: the mapping response type, the event
//! history over map and unmap calls, and a deterministic scripted adapter.

use vstd::prelude::*;

use crate::error::Error;

verus! {

/// Driver-specific data carried inside a mapping response. It must be handed
/// back to `unmap_phys_mem` exactly as it was received from `map_phys_mem`;
/// adapters rely on it to recover driver-specific state such as section and
/// object handles.
#[derive(Clone, Copy, Debug, PartialEq, Eq, Structural)]
pub enum MappingCookie {
    /// The adapter needs nothing beyond the virtual address.
    Empty,
    /// Section and object handles returned by the driver, as raw handle
    /// values.
    Handles { section: u64, object: u64 },
}

/// A successful response to a request to map physical memory: the physical
/// range that was requested, the virtual address it is now visible at, and an
/// opaque driver cookie.
#[derive(Clone, Copy, Debug, PartialEq, Eq, Structural)]
pub struct MapPhysicalMemoryResponse {
    /// The target physical address.
    pub phys_addr: u64,
    /// The number of bytes mapped.
    pub size: u64,
    /// The virtual address of where the physical memory was mapped to.
    pub virt_addr: u64,
    /// Driver-specific data, preserved verbatim between map and unmap.
    pub cookie: MappingCookie,
}

/// A physical to virtual memory mapping.
pub trait PhysicalMemoryMapping {
    /// The starting physical address of the memory region that was mapped.
    spec fn phys_addr_spec(&self) -> u64;

    /// The number of bytes of physical memory that were mapped.
    spec fn size_spec(&self) -> u64;

    /// The virtual address of where the physical memory has been mapped into
    /// the process's address space.
    spec fn virt_addr_spec(&self) -> u64;

    /// Returns the starting physical address of the mapped region.
    fn phys_addr(&self) -> (r: u64)
        ensures
            r == self.phys_addr_spec(),
    ;

    /// Returns the number of bytes of physical memory that were mapped.
    fn size(&self) -> (r: u64)
        ensures
            r == self.size_spec(),
    ;

    /// Returns the virtual address of the mapping.
    fn virt_addr(&self) -> (r: u64)
        ensures
            r == self.virt_addr_spec(),
    ;
}

impl PhysicalMemoryMapping for MapPhysicalMemoryResponse {
    open spec fn phys_addr_spec(&self) -> u64 {
        self.phys_addr
    }

    open spec fn size_spec(&self) -> u64 {
        self.size
    }

    open spec fn virt_addr_spec(&self) -> u64 {
        self.virt_addr
    }

    fn phys_addr(&self) -> (r: u64) {
        self.phys_addr
    }

    fn size(&self) -> (r: u64) {
        self.size
    }

    fn virt_addr(&self) -> (r: u64) {
        self.virt_addr
    }
}

/// One call made to a driver adapter, as recorded in the adapter's event
/// history.
#[derive(Clone, Copy, Debug, PartialEq, Eq, Structural)]
pub enum DriverEvent {
    /// A map request that succeeded, returning the recorded response.
    MapOk { mapping: MapPhysicalMemoryResponse },
    /// A map request for the physical address `phys_addr` that failed.
    MapFailed { phys_addr: u64 },
    /// An unmap request; `mapping` is the value handed back to the driver.
    Unmap { mapping: MapPhysicalMemoryResponse },
}

/// An interface for mapping physical memory.
///
/// Every adapter carries a ghost history of the map and unmap calls made to
/// it, so that callers can state how many driver calls a composite operation
/// performs and which values were handed back.
pub trait PhysicalMemory: Sized {
    /// The history of map and unmap calls made to this adapter, oldest first.
    spec fn events(&self) -> Seq<DriverEvent>;

    /// Maps the region of `size` bytes of physical memory starting at `addr`
    /// into the virtual address space.
    fn map_phys_mem(&mut self, addr: u64, size: u64) -> (r: Result<
        MapPhysicalMemoryResponse,
        Error,
    >)
        ensures
            match r {
                Ok(m) => m.phys_addr == addr && m.size == size && final (self).events() == old(
                    self,
                ).events().push(DriverEvent::MapOk { mapping: m }),
                Err(_) => final (self).events() == old(self).events().push(
                    DriverEvent::MapFailed { phys_addr: addr },
                ),
            },
    ;

    /// Unmaps a previously mapped region of physical memory. The `mapping`
    /// must be a value previously returned by `map_phys_mem`, passed back
    /// unchanged; it is recorded in the event history either way.
    fn unmap_phys_mem(&mut self, mapping: MapPhysicalMemoryResponse) -> (r: Result<(), Error>)
        ensures
            final (self).events() == old(self).events().push(DriverEvent::Unmap { mapping }),
    ;
}

/// A deterministic scripted driver adapter for exercising the framework
/// without a kernel driver.
///
/// Map requests consume virtual addresses from the front of `virt_addrs`; a
/// request made after the script is exhausted fails. Every call is also
/// recorded in `log`, so a caller can observe exactly which driver calls a
/// composite operation made and in which order.
#[derive(Debug)]
pub struct MockDriver {
    /// The virtual addresses still to be handed out, in order.
    pub virt_addrs: Vec<u64>,
    /// The history of calls made to this adapter, oldest first.
    pub log: Vec<DriverEvent>,
}

impl MockDriver {
    /// Creates a scripted driver that will serve one map request per element
    /// of `virt_addrs` and fail afterwards.
    pub fn new(virt_addrs: Vec<u64>) -> (r: MockDriver)
        ensures
            r.virt_addrs == virt_addrs,
            r.events() == Seq::<DriverEvent>::empty(),
    {
        MockDriver { virt_addrs, log: Vec::new() }
    }

    /// The number of map calls recorded so far, successful or not.
    pub fn map_calls(&self) -> (r: usize)
        ensures
            r as int == count_map_events(self.events()),
    {
        let mut n: usize = 0;
        let mut k: usize = 0;
        while k < self.log.len()
            invariant
                0 <= k <= self.log@.len(),
                n as int == count_map_events(self.log@.take(k as int)),
                n <= k,
            decreases self.log@.len() - k,
        {
            let is_map = match self.log[k] {
                DriverEvent::MapOk { .. } => true,
                DriverEvent::MapFailed { .. } => true,
                DriverEvent::Unmap { .. } => false,
            };
            proof {
                assert(self.log@.take(k as int + 1).drop_last() =~= self.log@.take(k as int));
                assert(self.log@.take(k as int + 1).last() == self.log@[k as int]);
            }
            if is_map {
                n = n + 1;
            }
            k = k + 1;
        }
        proof {
            assert(self.log@.take(self.log@.len() as int) =~= self.log@);
        }
        n
    }

    /// The number of unmap calls recorded so far.
    pub fn unmap_calls(&self) -> (r: usize)
        ensures
            r as int == count_unmap_events(self.events()),
    {
        let mut n: usize = 0;
        let mut k: usize = 0;
        while k < self.log.len()
            invariant
                0 <= k <= self.log@.len(),
                n as int == count_unmap_events(self.log@.take(k as int)),
                n <= k,
            decreases self.log@.len() - k,
        {
            let is_unmap = match self.log[k] {
                DriverEvent::Unmap { .. } => true,
                _ => false,
            };
            proof {
                assert(self.log@.take(k as int + 1).drop_last() =~= self.log@.take(k as int));
                assert(self.log@.take(k as int + 1).last() == self.log@[k as int]);
            }
            if is_unmap {
                n = n + 1;
            }
            k = k + 1;
        }
        proof {
            assert(self.log@.take(self.log@.len() as int) =~= self.log@);
        }
        n
    }
}

/// The number of map calls, successful or failed, in an event history.
pub open spec fn count_map_events(events: Seq<DriverEvent>) -> int
    decreases events.len(),
{
    if events.len() == 0 {
        0
    } else {
        count_map_events(events.drop_last()) + match events.last() {
            DriverEvent::MapOk { .. } => 1int,
            DriverEvent::MapFailed { .. } => 1int,
            DriverEvent::Unmap { .. } => 0int,
        }
    }
}

/// The number of unmap calls in an event history.
pub open spec fn count_unmap_events(events: Seq<DriverEvent>) -> int
    decreases events.len(),
{
    if events.len() == 0 {
        0
    } else {
        count_unmap_events(events.drop_last()) + match events.last() {
            DriverEvent::Unmap { .. } => 1int,
            _ => 0int,
        }
    }
}

impl PhysicalMemory for MockDriver {
    open spec fn events(&self) -> Seq<DriverEvent> {
        self.log@
    }

    fn map_phys_mem(&mut self, addr: u64, size: u64) -> (r: Result<
        MapPhysicalMemoryResponse,
        Error,
    >)
        ensures
            old(self).virt_addrs@.len() == 0 ==> r == Err::<MapPhysicalMemoryResponse, Error>(
                Error::MapPhysicalMemory { addr },
            ) && final (self).virt_addrs@ == old(self).virt_addrs@,
            old(self).virt_addrs@.len() > 0 ==> r == Ok::<MapPhysicalMemoryResponse, Error>(
                MapPhysicalMemoryResponse {
                    phys_addr: addr,
                    size,
                    virt_addr: old(self).virt_addrs@[0],
                    cookie: MappingCookie::Empty,
                },
            ) && final (self).virt_addrs@ == old(self).virt_addrs@.remove(0),
    {
        if self.virt_addrs.len() == 0 {
            self.log.push(DriverEvent::MapFailed { phys_addr: addr });
            Err(Error::MapPhysicalMemory { addr })
        } else {
            let virt_addr = self.virt_addrs.remove(0);
            let mapping = MapPhysicalMemoryResponse {
                phys_addr: addr,
                size,
                virt_addr,
                cookie: MappingCookie::Empty,
            };
            self.log.push(DriverEvent::MapOk { mapping });
            Ok(mapping)
        }
    }

    fn unmap_phys_mem(&mut self, mapping: MapPhysicalMemoryResponse) -> (r: Result<(), Error>)
        ensures
            r is Ok,
            final (self).virt_addrs@ == old(self).virt_addrs@,
    {
        self.log.push(DriverEvent::Unmap { mapping });
        Ok(())
    }
}

} // verus!
