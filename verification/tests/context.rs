use memflow_vdm::DriverEvent;
use memflow_vdm::Error;
use memflow_vdm::MockDriver;
use memflow_vdm::MockService;
use memflow_vdm::PhysicalMemoryRange;
use memflow_vdm::ServiceEvent;
use memflow_vdm::ServiceState;
use memflow_vdm::TeardownEvent;
use memflow_vdm::VdmConnectorBuilder;
use memflow_vdm::VdmContext;

fn two_ranges() -> Vec<PhysicalMemoryRange> {
    vec![
        PhysicalMemoryRange { addr: 0x0, size: 0x1000 },
        PhysicalMemoryRange { addr: 0x100000, size: 0x2000 },
    ]
}

fn build_context(virt_addrs: Vec<u64>) -> VdmContext<MockDriver, MockService> {
    VdmConnectorBuilder::new()
        .with_memory(MockDriver::new(virt_addrs))
        .with_ranges(two_ranges())
        .with_service(MockService::new(ServiceState::Stopped))
        .unwrap()
        .build()
        .unwrap()
}

#[test]
fn build_produces_one_table_row_per_range() {
    let ctx = build_context(vec![0x10000, 0x20000]);
    let table = ctx.addr_map();
    assert_eq!(table.entries.len(), 2);
    assert_eq!(table.entries[0].phys_addr, 0x0);
    assert_eq!(table.entries[0].size, 0x1000);
    assert_eq!(table.entries[0].virt_addr, 0x10000);
    assert_eq!(table.entries[1].phys_addr, 0x100000);
    assert_eq!(table.entries[1].size, 0x2000);
    assert_eq!(table.entries[1].virt_addr, 0x20000);
}

#[test]
fn full_cycle_conserves_mappings() {
    // Across a build-then-release cycle, the number of map calls equals the
    // number of unmap calls, and every unmap received a mapping previously
    // returned by a map call.
    let mut ctx = build_context(vec![0x10000, 0x20000]);
    ctx.release();

    let driver = ctx.mem();
    assert_eq!(driver.map_calls(), 2);
    assert_eq!(driver.unmap_calls(), 2);
    for (k, event) in driver.log.iter().enumerate() {
        if let DriverEvent::Unmap { mapping } = event {
            let mapped_before = driver.log[..k]
                .iter()
                .any(|e| matches!(e, DriverEvent::MapOk { mapping: m } if m == mapping));
            assert!(mapped_before);
        }
    }
}

#[test]
fn build_failure_rolls_back_and_produces_no_context() {
    // The driver serves the first range and fails on the second: exactly one
    // unmap fires before the error is surfaced, and no context is produced.
    let builder = VdmConnectorBuilder::<MockDriver, MockService>::new()
        .with_memory(MockDriver::new(vec![0x10000]))
        .with_ranges(two_ranges());
    let err = builder.build().unwrap_err();
    assert_eq!(err, Error::MapPhysicalMemory { addr: 0x100000 });
}

#[test]
fn build_failure_stops_the_configured_service() {
    let builder = VdmConnectorBuilder::new()
        .with_memory(MockDriver::new(vec![0x10000]))
        .with_ranges(two_ranges())
        .with_service(MockService::new(ServiceState::Stopped))
        .unwrap();
    let err = builder.build().unwrap_err();
    assert_eq!(err, Error::MapPhysicalMemory { addr: 0x100000 });
}

#[test]
fn unmaps_complete_before_the_service_stops() {
    let mut ctx = build_context(vec![0x10000, 0x20000]);
    let trace = ctx.release();

    // The teardown record holds both unmappings, then the service stop:
    // every unmap completes strictly before the stop control goes out.
    assert_eq!(trace.len(), 3);
    let stop_position = trace
        .iter()
        .position(|e| matches!(e, TeardownEvent::ServiceStopped))
        .unwrap();
    for (i, event) in trace.iter().enumerate() {
        if matches!(event, TeardownEvent::Unmapped { .. }) {
            assert!(i < stop_position);
        }
    }
    assert_eq!(ctx.service().as_ref().unwrap().state, ServiceState::Stopped);
    assert_eq!(
        ctx.service().as_ref().unwrap().log.last(),
        Some(&ServiceEvent::StopIssued)
    );
}

#[test]
fn clone_shares_the_mappings() {
    // Cloning the context maps nothing further; releasing all shares but the
    // last unmaps nothing; releasing the last share unmaps everything.
    let mut ctx = build_context(vec![0x10000, 0x20000]);
    assert_eq!(ctx.ref_count(), 1);

    let table_copy = ctx.clone_ref();
    assert_eq!(ctx.ref_count(), 2);
    assert_eq!(&table_copy, ctx.addr_map());
    assert_eq!(ctx.mem().map_calls(), 2);

    let trace = ctx.release();
    assert!(trace.is_empty());
    assert_eq!(ctx.mem().unmap_calls(), 0);

    let trace = ctx.release();
    assert_eq!(trace.len(), 3);
    assert_eq!(ctx.mem().unmap_calls(), 2);
    assert_eq!(ctx.ref_count(), 0);
}

#[test]
fn context_without_service_tears_down_mappings_only() {
    let mut ctx: VdmContext<MockDriver, MockService> = VdmConnectorBuilder::new()
        .with_memory(MockDriver::new(vec![0x10000, 0x20000]))
        .with_ranges(two_ranges())
        .build()
        .unwrap();
    let trace = ctx.release();
    assert_eq!(trace.len(), 2);
    assert!(trace.iter().all(|e| matches!(e, TeardownEvent::Unmapped { .. })));
    assert!(ctx.service().is_none());
}

#[test]
fn with_service_of_running_service_queries_only() {
    // Building with a service that already reports itself running issues no
    // start request.
    let builder = VdmConnectorBuilder::<MockDriver, MockService>::new()
        .with_memory(MockDriver::new(vec![0x10000, 0x20000]))
        .with_ranges(two_ranges())
        .with_service(MockService::new(ServiceState::Running))
        .unwrap();
    let ctx = builder.build().unwrap();
    assert_eq!(
        ctx.service().as_ref().unwrap().log,
        vec![ServiceEvent::Queried { state: ServiceState::Running }]
    );
}

#[test]
fn empty_range_list_builds_an_empty_table() {
    let mut ctx: VdmContext<MockDriver, MockService> = VdmConnectorBuilder::new()
        .with_memory(MockDriver::new(Vec::new()))
        .with_ranges(Vec::new())
        .build()
        .unwrap();
    assert_eq!(ctx.addr_map().entries.len(), 0);
    assert_eq!(ctx.mem().map_calls(), 0);
    let trace = ctx.release();
    assert!(trace.is_empty());
}
