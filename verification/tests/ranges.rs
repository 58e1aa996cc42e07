use memflow_vdm::Error;
use memflow_vdm::PhysicalMemoryRange;
use memflow_vdm::phys_ranges::parse_resource_map;

/// Builds a full resource descriptor: interface type, bus number, then a
/// partial resource list with the given records laid out back to back.
fn full_descriptor(records: &[(u8, u16, u64, u64)]) -> Vec<u8> {
    let mut out = Vec::new();
    out.extend_from_slice(&0i32.to_le_bytes()); // interface type
    out.extend_from_slice(&0u32.to_le_bytes()); // bus number
    out.extend_from_slice(&1u16.to_le_bytes()); // version
    out.extend_from_slice(&1u16.to_le_bytes()); // revision
    out.extend_from_slice(&(records.len() as u32).to_le_bytes());
    for &(ty, flags, start, size) in records {
        out.push(ty);
        out.push(0); // share disposition
        out.extend_from_slice(&flags.to_le_bytes());
        out.extend_from_slice(&start.to_le_bytes());
        out.extend_from_slice(&size.to_le_bytes());
    }
    out
}

/// Builds a resource map holding one full descriptor with the given records.
fn resource_map(records: &[(u8, u16, u64, u64)]) -> Vec<u8> {
    let mut out = Vec::new();
    out.extend_from_slice(&1u32.to_le_bytes());
    out.extend_from_slice(&full_descriptor(records));
    out
}

const MEMORY: u8 = 3;
const MEMORY_LARGE: u8 = 7;

#[test]
fn empty_buffer_fails() {
    assert_eq!(parse_resource_map(&Vec::new()), Err(Error::EnumerationFailed));
    assert_eq!(parse_resource_map(&vec![0u8, 0, 0]), Err(Error::EnumerationFailed));
}

#[test]
fn zero_descriptors_yield_no_ranges() {
    let ranges = parse_resource_map(&0u32.to_le_bytes().to_vec()).unwrap();
    assert!(ranges.is_empty());
}

#[test]
fn single_memory_record() {
    let bytes = resource_map(&[(MEMORY, 0, 0x1000, 0x8000)]);
    let ranges = parse_resource_map(&bytes).unwrap();
    assert_eq!(ranges, vec![PhysicalMemoryRange { addr: 0x1000, size: 0x8000 }]);
}

#[test]
fn several_memory_records_preserve_order() {
    let bytes = resource_map(&[
        (MEMORY, 0, 0x100000, 0x2000),
        (MEMORY, 0, 0x1000, 0x1000),
        (MEMORY, 0, 0x500000, 0x3000),
    ]);
    let ranges = parse_resource_map(&bytes).unwrap();
    assert_eq!(
        ranges,
        vec![
            PhysicalMemoryRange { addr: 0x100000, size: 0x2000 },
            PhysicalMemoryRange { addr: 0x1000, size: 0x1000 },
            PhysicalMemoryRange { addr: 0x500000, size: 0x3000 },
        ]
    );
}

#[test]
fn large_memory_scaling_by_flag() {
    // Flag 0x200 scales by 8 bits, 0x400 by 16, 0x800 by 32.
    let bytes = resource_map(&[(MEMORY_LARGE, 0x200, 0x0, 0x5)]);
    assert_eq!(parse_resource_map(&bytes).unwrap()[0].size, 0x5 << 8);

    let bytes = resource_map(&[(MEMORY_LARGE, 0x400, 0x0, 0x2)]);
    assert_eq!(parse_resource_map(&bytes).unwrap()[0].size, 0x20000);

    let bytes = resource_map(&[(MEMORY_LARGE, 0x800, 0x0, 0x1)]);
    assert_eq!(parse_resource_map(&bytes).unwrap()[0].size, 0x100000000);
}

#[test]
fn large_memory_without_scaling_flag_keeps_raw_size() {
    let bytes = resource_map(&[(MEMORY_LARGE, 0x1, 0x4000, 0x123)]);
    assert_eq!(parse_resource_map(&bytes).unwrap()[0].size, 0x123);
}

#[test]
fn non_memory_record_ends_the_descriptor() {
    // A port record (type 1) aborts the rest of its descriptor: the memory
    // record after it is not enumerated.
    let bytes = resource_map(&[
        (MEMORY, 0, 0x1000, 0x1000),
        (1, 0, 0xdead, 0xbeef),
        (MEMORY, 0, 0x2000, 0x1000),
    ]);
    let ranges = parse_resource_map(&bytes).unwrap();
    assert_eq!(ranges, vec![PhysicalMemoryRange { addr: 0x1000, size: 0x1000 }]);
}

#[test]
fn truncated_descriptor_fails() {
    let mut bytes = resource_map(&[(MEMORY, 0, 0x1000, 0x1000)]);
    bytes.truncate(bytes.len() - 1);
    assert_eq!(parse_resource_map(&bytes), Err(Error::EnumerationFailed));

    // A descriptor count that promises more than the buffer holds.
    let bytes = 5u32.to_le_bytes().to_vec();
    assert_eq!(parse_resource_map(&bytes), Err(Error::EnumerationFailed));
}

#[test]
fn large_memory_scaling_discards_shifted_out_bits() {
    // Shifting is bit-level: bits pushed past the top of the size are lost.
    let bytes = resource_map(&[(MEMORY_LARGE, 0x800, 0x0, u64::MAX)]);
    assert_eq!(parse_resource_map(&bytes).unwrap()[0].size, u64::MAX << 32);
}

#[test]
fn range_at_the_top_of_the_address_space() {
    let bytes = resource_map(&[(MEMORY, 0, u64::MAX - 0xfff, 0x1000)]);
    let ranges = parse_resource_map(&bytes).unwrap();
    assert_eq!(ranges, vec![PhysicalMemoryRange { addr: u64::MAX - 0xfff, size: 0x1000 }]);
}

#[test]
fn two_full_descriptors() {
    let mut bytes = Vec::new();
    bytes.extend_from_slice(&2u32.to_le_bytes());
    bytes.extend_from_slice(&full_descriptor(&[(MEMORY, 0, 0x1000, 0x1000)]));
    bytes.extend_from_slice(&full_descriptor(&[(MEMORY, 0, 0x9000, 0x2000)]));
    let ranges = parse_resource_map(&bytes).unwrap();
    assert_eq!(
        ranges,
        vec![
            PhysicalMemoryRange { addr: 0x1000, size: 0x1000 },
            PhysicalMemoryRange { addr: 0x9000, size: 0x2000 },
        ]
    );
}
