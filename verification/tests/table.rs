use memflow_vdm::TranslationEntry;
use memflow_vdm::TranslationTable;

fn entry(phys_addr: u64, size: u64, virt_addr: u64) -> TranslationEntry {
    TranslationEntry { phys_addr, size, virt_addr }
}

#[test]
fn sorted_disjoint_table_is_well_formed() {
    let table = TranslationTable {
        entries: vec![entry(0x0, 0x1000, 0x10000), entry(0x1000, 0x1000, 0x90000)],
    };
    assert!(table.is_well_formed());
}

#[test]
fn unsorted_table_is_not_well_formed() {
    let table = TranslationTable {
        entries: vec![entry(0x2000, 0x1000, 0x10000), entry(0x0, 0x1000, 0x90000)],
    };
    assert!(!table.is_well_formed());
}

#[test]
fn overlapping_table_is_not_well_formed() {
    let table = TranslationTable {
        entries: vec![entry(0x0, 0x1001, 0x10000), entry(0x1000, 0x1000, 0x90000)],
    };
    assert!(!table.is_well_formed());
}

#[test]
fn wrapping_interval_is_not_well_formed() {
    let table = TranslationTable { entries: vec![entry(u64::MAX, 0x2, 0x10000)] };
    assert!(!table.is_well_formed());
}

#[test]
fn translate_hits_and_misses() {
    let table = TranslationTable {
        entries: vec![entry(0x1000, 0x1000, 0x10000), entry(0x100000, 0x2000, 0x20000)],
    };
    assert!(table.is_well_formed());

    assert_eq!(table.translate(0x1000), Some(0x10000));
    assert_eq!(table.translate(0x1fff), Some(0x10fff));
    assert_eq!(table.translate(0x100800), Some(0x20800));

    assert_eq!(table.translate(0x0), None);
    assert_eq!(table.translate(0x2000), None); // one past the first interval
    assert_eq!(table.translate(0x102000), None);
    assert_eq!(table.translate(u64::MAX), None);
}

#[test]
fn translate_across_adjacent_pages_reaches_distinct_mappings() {
    // Two adjacent physical pages backed by far-apart virtual mappings: a
    // read crossing the boundary must be split, one page against each
    // virtual address.
    let table = TranslationTable {
        entries: vec![entry(0x0, 0x1000, 0x70000000), entry(0x1000, 0x1000, 0x30000000)],
    };
    assert!(table.is_well_formed());
    assert_eq!(table.translate(0x800), Some(0x70000800));
    assert_eq!(table.translate(0x1800), Some(0x30000800));
}

#[test]
fn empty_table_translates_nothing() {
    let table = TranslationTable { entries: Vec::new() };
    assert!(table.is_well_formed());
    assert_eq!(table.translate(0x0), None);
}

#[test]
fn duplicate_copies_all_rows() {
    let table = TranslationTable {
        entries: vec![entry(0x1000, 0x1000, 0x10000), entry(0x100000, 0x2000, 0x20000)],
    };
    let copy = table.duplicate();
    assert_eq!(copy, table);
}
