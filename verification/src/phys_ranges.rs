//! The physical-memory range enumerator's parser: interprets a translated
//! resource-map descriptor as a packed sequence of type-tagged resource
//! records and yields the memory ranges they describe.

use vstd::prelude::*;

use crate::error::Error;

verus! {

/// A contiguous range of physical memory addresses.
#[derive(Clone, Copy, Debug, PartialEq, Eq, Structural)]
pub struct PhysicalMemoryRange {
    /// The starting physical address of the memory range.
    pub addr: u64,

    /// The size of the memory range, in bytes.
    pub size: u64,
}

/// Resource records of this type describe a plain memory range.
pub const RESOURCE_TYPE_MEMORY: u8 = 3;

/// Resource records of this type describe a large memory range whose size
/// field is scaled according to the record's flags.
pub const RESOURCE_TYPE_MEMORY_LARGE: u8 = 7;

/// Flag bit of a large-memory record: the raw size is shifted left by 8.
pub const MEMORY_FLAG_LARGE_40: u16 = 0x200;

/// Flag bit of a large-memory record: the raw size is shifted left by 16.
pub const MEMORY_FLAG_LARGE_48: u16 = 0x400;

/// Flag bit of a large-memory record: the raw size is shifted left by 32.
pub const MEMORY_FLAG_LARGE_64: u16 = 0x800;

/// The value of the two bytes at `off`, little endian.
pub open spec fn le16(b: Seq<u8>, off: int) -> int {
    b[off] as int + 0x100 * (b[off + 1] as int)
}

/// The value of the four bytes at `off`, little endian.
pub open spec fn le32(b: Seq<u8>, off: int) -> int {
    le16(b, off) + 0x10000 * le16(b, off + 2)
}

/// The value of the eight bytes at `off`, little endian.
pub open spec fn le64(b: Seq<u8>, off: int) -> int {
    le32(b, off) + 0x100000000 * le32(b, off + 4)
}

/// The size of a large-memory record, scaled by the record's flag bits.
pub open spec fn large_scaled_size(size: u64, flags: u16) -> u64 {
    if flags & MEMORY_FLAG_LARGE_40 != 0 {
        size << 8
    } else if flags & MEMORY_FLAG_LARGE_48 != 0 {
        size << 16
    } else if flags & MEMORY_FLAG_LARGE_64 != 0 {
        size << 32
    } else {
        size
    }
}

/// The range described by the memory resource record at `off`: a type tag and
/// a share-disposition byte, then the flags, then the start address and the
/// raw size, each little endian.
pub open spec fn record_range(b: Seq<u8>, off: int) -> PhysicalMemoryRange {
    PhysicalMemoryRange {
        addr: le64(b, off + 4) as u64,
        size: if b[off] == RESOURCE_TYPE_MEMORY_LARGE {
            large_scaled_size(le64(b, off + 12) as u64, le16(b, off + 2) as u16)
        } else {
            le64(b, off + 12) as u64
        },
    }
}

/// Concatenation over optional parses: a failure on either side fails the whole.
pub open spec fn opt_cat(
    a: Option<Seq<PhysicalMemoryRange>>,
    b: Option<Seq<PhysicalMemoryRange>>,
) -> Option<Seq<PhysicalMemoryRange>> {
    match (a, b) {
        (Some(x), Some(y)) => Some(x + y),
        _ => None,
    }
}

/// The ranges contributed by the partial resource records `j .. count` of the
/// descriptor whose partial list starts at `base + 16`. A record of a type
/// other than memory or large memory ends the enclosing descriptor early; a
/// record that runs past the end of the buffer fails the parse.
pub open spec fn parse_partials(b: Seq<u8>, base: int, j: int, count: int) -> Option<
    Seq<PhysicalMemoryRange>,
>
    decreases count - j,
{
    if j >= count {
        Some(Seq::empty())
    } else {
        let off = base + 16 + 20 * j;
        if off + 20 > b.len() {
            None
        } else if b[off] == RESOURCE_TYPE_MEMORY || b[off] == RESOURCE_TYPE_MEMORY_LARGE {
            opt_cat(Some(seq![record_range(b, off)]), parse_partials(b, base, j + 1, count))
        } else {
            Some(Seq::empty())
        }
    }
}

/// The ranges contributed by the full resource descriptors `i .. count`. Each
/// full descriptor occupies 36 bytes starting at `4 + 36 * i`: an interface
/// type and a bus number (ignored), then its partial resource list, whose
/// record count sits 12 bytes in.
pub open spec fn parse_fulls(b: Seq<u8>, i: int, count: int) -> Option<Seq<PhysicalMemoryRange>>
    decreases count - i,
{
    if i >= count {
        Some(Seq::empty())
    } else {
        let base = 4 + 36 * i;
        if base + 16 > b.len() {
            None
        } else {
            opt_cat(
                parse_partials(b, base, 0, le32(b, base + 12)),
                parse_fulls(b, i + 1, count),
            )
        }
    }
}

/// The physical memory ranges described by a translated resource-map
/// descriptor: a count of full resource descriptors, then the descriptors
/// themselves. `None` when the descriptor is truncated.
pub open spec fn parse_resource_map_spec(b: Seq<u8>) -> Option<Seq<PhysicalMemoryRange>> {
    if b.len() < 4 {
        None
    } else {
        parse_fulls(b, 0, le32(b, 0))
    }
}

pub(crate) fn read_u16(b: &Vec<u8>, off: usize) -> (r: u16)
    requires
        off + 2 <= b@.len(),
    ensures
        r as int == le16(b@, off as int),
{
    let n: usize = b.len();
    assert(off + 2 <= n);
    b[off] as u16 + 0x100 * (b[off + 1] as u16)
}

pub(crate) fn read_u32(b: &Vec<u8>, off: usize) -> (r: u32)
    requires
        off + 4 <= b@.len(),
    ensures
        r as int == le32(b@, off as int),
{
    let n: usize = b.len();
    assert(off + 4 <= n);
    read_u16(b, off) as u32 + 0x10000 * (read_u16(b, off + 2) as u32)
}

pub(crate) fn read_u64(b: &Vec<u8>, off: usize) -> (r: u64)
    requires
        off + 8 <= b@.len(),
    ensures
        r as int == le64(b@, off as int),
{
    let n: usize = b.len();
    assert(off + 8 <= n);
    read_u32(b, off) as u64 + 0x100000000 * (read_u32(b, off + 4) as u64)
}

/// Parses a translated physical-memory resource-map descriptor into the
/// physical memory ranges it describes, in the order they are enumerated.
/// Ranges are neither merged nor sorted.
pub fn parse_resource_map(bytes: &Vec<u8>) -> (r: Result<Vec<PhysicalMemoryRange>, Error>)
    ensures
        match r {
            Ok(v) => parse_resource_map_spec(bytes@) == Some(v@),
            Err(e) => parse_resource_map_spec(bytes@) is None && e == Error::EnumerationFailed,
        },
{
    if bytes.len() < 4 {
        return Err(Error::EnumerationFailed);
    }
    let count: u32 = read_u32(bytes, 0);
    let mut ranges: Vec<PhysicalMemoryRange> = Vec::new();
    let mut i: u32 = 0;
    while i < count
        invariant
            bytes@.len() >= 4,
            count as int == le32(bytes@, 0),
            0 <= i <= count,
            parse_resource_map_spec(bytes@) == opt_cat(
                Some(ranges@),
                parse_fulls(bytes@, i as int, count as int),
            ),
        decreases count - i,
    {
        let base: u64 = 4 + 36 * (i as u64);
        if base + 16 > bytes.len() as u64 {
            assert(parse_fulls(bytes@, i as int, count as int) is None);
            return Err(Error::EnumerationFailed);
        }
        let base: usize = base as usize;
        let pcount: u32 = read_u32(bytes, base + 12);
        let ghost fulls_rest = parse_fulls(bytes@, i as int + 1, count as int);
        assert(parse_fulls(bytes@, i as int, count as int) == opt_cat(
            parse_partials(bytes@, base as int, 0, pcount as int),
            fulls_rest,
        ));
        let mut j: u32 = 0;
        let mut aborted: bool = false;
        while j < pcount && !aborted
            invariant
                bytes@.len() >= 4,
                base as int == 4 + 36 * (i as int),
                base + 16 <= bytes@.len(),
                pcount as int == le32(bytes@, base as int + 12),
                0 <= j <= pcount,
                !aborted ==> parse_resource_map_spec(bytes@) == opt_cat(
                    Some(ranges@),
                    opt_cat(
                        parse_partials(bytes@, base as int, j as int, pcount as int),
                        fulls_rest,
                    ),
                ),
                aborted ==> parse_resource_map_spec(bytes@) == opt_cat(Some(ranges@), fulls_rest),
            decreases pcount - j, if aborted { 0int } else { 1int },
        {
            let off64: u64 = base as u64 + 16 + 20 * (j as u64);
            if off64 + 20 > bytes.len() as u64 {
                assert(parse_partials(bytes@, base as int, j as int, pcount as int) is None);
                return Err(Error::EnumerationFailed);
            }
            let off: usize = off64 as usize;
            let ty: u8 = bytes[off];
            if ty == RESOURCE_TYPE_MEMORY || ty == RESOURCE_TYPE_MEMORY_LARGE {
                let start: u64 = read_u64(bytes, off + 4);
                let raw_size: u64 = read_u64(bytes, off + 12);
                let size: u64 = if ty == RESOURCE_TYPE_MEMORY_LARGE {
                    let flags: u16 = read_u16(bytes, off + 2);
                    if flags & MEMORY_FLAG_LARGE_40 != 0 {
                        raw_size << 8
                    } else if flags & MEMORY_FLAG_LARGE_48 != 0 {
                        raw_size << 16
                    } else if flags & MEMORY_FLAG_LARGE_64 != 0 {
                        raw_size << 32
                    } else {
                        raw_size
                    }
                } else {
                    raw_size
                };
                let range = PhysicalMemoryRange { addr: start, size };
                assert(range == record_range(bytes@, off as int));
                let ghost old_ranges = ranges@;
                ranges.push(range);
                proof {
                    assert(parse_partials(bytes@, base as int, j as int, pcount as int) == opt_cat(
                        Some(seq![record_range(bytes@, off as int)]),
                        parse_partials(bytes@, base as int, j as int + 1, pcount as int),
                    ));
                    assert(ranges@ == old_ranges.push(range));
                    let pp_next = parse_partials(bytes@, base as int, j as int + 1, pcount as int);
                    match (pp_next, fulls_rest) {
                        (Some(p), Some(f)) => {
                            assert(old_ranges + ((seq![range] + p) + f) =~= ranges@ + (p + f));
                        },
                        _ => {},
                    }
                }
                j = j + 1;
            } else {
                assert(parse_partials(bytes@, base as int, j as int, pcount as int) == Some(
                    Seq::<PhysicalMemoryRange>::empty(),
                ));
                proof {
                    match fulls_rest {
                        Some(f) => {
                            assert(ranges@ + (Seq::<PhysicalMemoryRange>::empty() + f) =~= ranges@
                                + f);
                        },
                        None => {},
                    }
                }
                aborted = true;
            }
        }
        proof {
            if !aborted {
                assert(parse_partials(bytes@, base as int, pcount as int, pcount as int) == Some(
                    Seq::<PhysicalMemoryRange>::empty(),
                ));
                match fulls_rest {
                    Some(f) => {
                        assert(ranges@ + (Seq::<PhysicalMemoryRange>::empty() + f) =~= ranges@ + f);
                    },
                    None => {},
                }
            }
        }
        i = i + 1;
    }
    assert(parse_fulls(bytes@, count as int, count as int) == Some(
        Seq::<PhysicalMemoryRange>::empty(),
    ));
    assert(ranges@ + Seq::<PhysicalMemoryRange>::empty() =~= ranges@);
    Ok(ranges)
}

} // verus!
