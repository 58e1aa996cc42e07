use memflow_vdm::DriverEvent;
use memflow_vdm::Error;
use memflow_vdm::MockDriver;
use memflow_vdm::PhysicalMemoryMapper;
use memflow_vdm::PhysicalMemoryRange;
use memflow_vdm::TranslationEntry;

fn mapper_with(virt_addrs: Vec<u64>) -> PhysicalMemoryMapper<MockDriver> {
    PhysicalMemoryMapper::with_mem(MockDriver::new(virt_addrs)).unwrap()
}

#[test]
fn single_range_maps_and_unmaps_once() {
    // Scenario: one range, one deterministic virtual address.
    let mut mapper = mapper_with(vec![0x10000000]);
    let ranges = vec![PhysicalMemoryRange { addr: 0x0, size: 0x1000 }];
    mapper.map_ranges(&ranges).unwrap();

    let table = mapper.addr_map();
    assert_eq!(
        table.entries,
        vec![TranslationEntry { phys_addr: 0x0, size: 0x1000, virt_addr: 0x10000000 }]
    );
    assert_eq!(mapper.mem().map_calls(), 1);
    assert_eq!(mapper.mem().unmap_calls(), 0);

    mapper.unmap_all();
    assert_eq!(mapper.mem().map_calls(), 1);
    assert_eq!(mapper.mem().unmap_calls(), 1);
    assert_eq!(mapper.mapping_count(), 0);
}

#[test]
fn two_ranges_both_present() {
    let mut mapper = mapper_with(vec![0x10000, 0x20000]);
    let ranges = vec![
        PhysicalMemoryRange { addr: 0x0, size: 0x1000 },
        PhysicalMemoryRange { addr: 0x100000, size: 0x2000 },
    ];
    mapper.map_ranges(&ranges).unwrap();

    let table = mapper.addr_map();
    assert_eq!(table.entries.len(), 2);
    assert_eq!(
        table.entries[0],
        TranslationEntry { phys_addr: 0x0, size: 0x1000, virt_addr: 0x10000 }
    );
    assert_eq!(
        table.entries[1],
        TranslationEntry { phys_addr: 0x100000, size: 0x2000, virt_addr: 0x20000 }
    );
    assert_eq!(mapper.mem().map_calls(), 2);

    mapper.unmap_all();
    assert_eq!(mapper.mem().unmap_calls(), 2);
}

#[test]
fn failure_on_second_range_rolls_back_the_first() {
    // Scenario: the driver serves the first range and fails on the second.
    let mut mapper = mapper_with(vec![0x10000]);
    let ranges = vec![
        PhysicalMemoryRange { addr: 0x0, size: 0x1000 },
        PhysicalMemoryRange { addr: 0x100000, size: 0x2000 },
    ];
    let err = mapper.map_ranges(&ranges).unwrap_err();
    assert_eq!(err, Error::MapPhysicalMemory { addr: 0x100000 });

    // Two map attempts, then exactly one unmap before the error surfaced.
    assert_eq!(mapper.mem().map_calls(), 2);
    assert_eq!(mapper.mem().unmap_calls(), 1);
    assert_eq!(mapper.mapping_count(), 0);

    let log = &mapper.mem().log;
    assert_eq!(log.len(), 3);
    assert!(matches!(log[0], DriverEvent::MapOk { .. }));
    assert_eq!(log[1], DriverEvent::MapFailed { phys_addr: 0x100000 });
    match (&log[0], &log[2]) {
        (DriverEvent::MapOk { mapping: mapped }, DriverEvent::Unmap { mapping: unmapped }) => {
            assert_eq!(mapped, unmapped);
        }
        _ => panic!("unexpected driver history"),
    }
}

#[test]
fn rollback_happens_in_reverse_order() {
    let mut mapper = mapper_with(vec![0x10000, 0x20000]);
    let ranges = vec![
        PhysicalMemoryRange { addr: 0x1000, size: 0x1000 },
        PhysicalMemoryRange { addr: 0x2000, size: 0x1000 },
        PhysicalMemoryRange { addr: 0x3000, size: 0x1000 },
    ];
    let err = mapper.map_ranges(&ranges).unwrap_err();
    assert_eq!(err, Error::MapPhysicalMemory { addr: 0x3000 });

    let log = &mapper.mem().log;
    assert_eq!(log.len(), 5);
    // Mapped 0x1000 then 0x2000, failed on 0x3000, then unmapped in
    // reverse: 0x2000 first, 0x1000 last.
    match (&log[3], &log[4]) {
        (DriverEvent::Unmap { mapping: first }, DriverEvent::Unmap { mapping: second }) => {
            assert_eq!(first.phys_addr, 0x2000);
            assert_eq!(second.phys_addr, 0x1000);
        }
        _ => panic!("unexpected driver history"),
    }
}

#[test]
fn empty_ranges_need_no_driver_calls() {
    let mut mapper = mapper_with(Vec::new());
    mapper.map_ranges(&Vec::new()).unwrap();
    assert_eq!(mapper.addr_map().entries.len(), 0);
    assert_eq!(mapper.mem().map_calls(), 0);
    mapper.unmap_all();
    assert_eq!(mapper.mem().unmap_calls(), 0);
}

#[test]
fn mapping_keeps_requested_interval() {
    // The mapping returned for each range covers exactly that range.
    let mut mapper = mapper_with(vec![0xaaaa0000, 0xbbbb0000]);
    let ranges = vec![
        PhysicalMemoryRange { addr: 0x7000, size: 0x123 },
        PhysicalMemoryRange { addr: 0x9000, size: 0x456 },
    ];
    mapper.map_ranges(&ranges).unwrap();
    for (i, range) in ranges.iter().enumerate() {
        let m = mapper.mapping_at(i);
        assert_eq!(m.phys_addr, range.addr);
        assert_eq!(m.size, range.size);
    }
}
