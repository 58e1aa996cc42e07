//! The on-wire device-control formats of the two driver back-ends:
//! encoders and decoders for their mapping and unmapping request and
//! response payloads.

use vstd::prelude::*;

use crate::phys_ranges::le32;
use crate::phys_ranges::le64;

verus! {

/// The RTCore64 device control code for mapping physical memory.
pub const RTCORE64_MAP_IOCTL: u32 = 0x80002000;

/// The RTCore64 device control code for unmapping physical memory.
pub const RTCORE64_UNMAP_IOCTL: u32 = 0x80002004;

/// The WinIo device control code for mapping physical memory.
pub const WINIO_MAP_IOCTL: u32 = 0x80102040;

/// The WinIo device control code for unmapping physical memory.
pub const WINIO_UNMAP_IOCTL: u32 = 0x80102044;

/// Appends the eight little-endian bytes of `x`.
#[verifier::rlimit(60)]
fn push_u64_le(out: &mut Vec<u8>, x: u64)
    ensures
        final (out)@.len() == old(out)@.len() + 8,
        final (out)@.subrange(0, old(out)@.len() as int) == old(out)@,
        le64(final (out)@, old(out)@.len() as int) == x as int,
{
    let ghost n = out@.len() as int;
    let b0: u8 = (x % 0x100) as u8;
    let b1: u8 = ((x / 0x100) % 0x100) as u8;
    let b2: u8 = ((x / 0x10000) % 0x100) as u8;
    let b3: u8 = ((x / 0x1000000) % 0x100) as u8;
    let b4: u8 = ((x / 0x100000000) % 0x100) as u8;
    let b5: u8 = ((x / 0x10000000000) % 0x100) as u8;
    let b6: u8 = ((x / 0x1000000000000) % 0x100) as u8;
    let b7: u8 = ((x / 0x100000000000000) % 0x100) as u8;
    out.push(b0);
    out.push(b1);
    out.push(b2);
    out.push(b3);
    out.push(b4);
    out.push(b5);
    out.push(b6);
    out.push(b7);
    proof {
        assert(out@.subrange(0, n) =~= old(out)@);
        let xi = x as int;
        vstd::arithmetic::div_mod::lemma_fundamental_div_mod(xi, 0x100);
        vstd::arithmetic::div_mod::lemma_fundamental_div_mod(xi / 0x100, 0x100);
        vstd::arithmetic::div_mod::lemma_fundamental_div_mod(xi / 0x10000, 0x100);
        vstd::arithmetic::div_mod::lemma_fundamental_div_mod(xi / 0x1000000, 0x100);
        vstd::arithmetic::div_mod::lemma_fundamental_div_mod(xi / 0x100000000, 0x100);
        vstd::arithmetic::div_mod::lemma_fundamental_div_mod(xi / 0x10000000000, 0x100);
        vstd::arithmetic::div_mod::lemma_fundamental_div_mod(xi / 0x1000000000000, 0x100);
        assert((xi / 0x100) / 0x100 == xi / 0x10000) by (nonlinear_arith)
            requires
                xi >= 0,
        ;
        assert((xi / 0x10000) / 0x100 == xi / 0x1000000) by (nonlinear_arith)
            requires
                xi >= 0,
        ;
        assert((xi / 0x1000000) / 0x100 == xi / 0x100000000) by (nonlinear_arith)
            requires
                xi >= 0,
        ;
        assert((xi / 0x100000000) / 0x100 == xi / 0x10000000000) by (nonlinear_arith)
            requires
                xi >= 0,
        ;
        assert((xi / 0x10000000000) / 0x100 == xi / 0x1000000000000) by (nonlinear_arith)
            requires
                xi >= 0,
        ;
        assert((xi / 0x1000000000000) / 0x100 == xi / 0x100000000000000) by (nonlinear_arith)
            requires
                xi >= 0,
        ;
        assert(xi / 0x100000000000000 < 0x100 && xi / 0x100000000000000 >= 0) by (nonlinear_arith)
            requires
                0 <= xi < 0x10000000000000000,
        ;
        assert(xi / 0x100000000000000 == (xi / 0x100000000000000) % 0x100);
        assert(le64(out@, n) == x as int);
    }
}

/// Appends the four little-endian bytes of `x`.
fn push_u32_le(out: &mut Vec<u8>, x: u32)
    ensures
        final (out)@.len() == old(out)@.len() + 4,
        final (out)@.subrange(0, old(out)@.len() as int) == old(out)@,
        le32(final (out)@, old(out)@.len() as int) == x as int,
{
    let ghost n = out@.len() as int;
    let b0: u8 = (x % 0x100) as u8;
    let b1: u8 = ((x / 0x100) % 0x100) as u8;
    let b2: u8 = ((x / 0x10000) % 0x100) as u8;
    let b3: u8 = ((x / 0x1000000) % 0x100) as u8;
    out.push(b0);
    out.push(b1);
    out.push(b2);
    out.push(b3);
    proof {
        assert(out@.subrange(0, n) =~= old(out)@);
        let xi = x as int;
        assert(xi == xi % 0x100 + 0x100 * (xi / 0x100));
        assert(xi / 0x100 == (xi / 0x100) % 0x100 + 0x100 * (xi / 0x10000));
        assert(xi / 0x10000 == (xi / 0x10000) % 0x100 + 0x100 * (xi / 0x1000000));
        assert(xi / 0x1000000 == (xi / 0x1000000) % 0x100);
        assert(le32(out@, n) == x as int);
    }
}

/// Encodes the RTCore64 mapping request: the physical address, then the
/// request size, each little endian.
pub fn encode_rtcore_map_request(phys_addr: u64, size: u32) -> (v: Vec<u8>)
    ensures
        v@.len() == 12,
        le64(v@, 0) == phys_addr as int,
        le32(v@, 8) == size as int,
{
    let mut v: Vec<u8> = Vec::new();
    push_u64_le(&mut v, phys_addr);
    push_u32_le(&mut v, size);
    v
}

/// Decodes the RTCore64 mapping response: the virtual address the range was
/// mapped at, little endian. `None` when the buffer has the wrong size.
pub fn decode_rtcore_map_response(bytes: &Vec<u8>) -> (r: Option<u64>)
    ensures
        match r {
            Some(v) => bytes@.len() == 8 && v as int == le64(bytes@, 0),
            None => bytes@.len() != 8,
        },
{
    if bytes.len() != 8 {
        return None;
    }
    Some(crate::phys_ranges::read_u64(bytes, 0))
}

/// Encodes the RTCore64 unmapping request: the virtual address to unmap,
/// little endian.
pub fn encode_rtcore_unmap_request(virt_addr: u64) -> (v: Vec<u8>)
    ensures
        v@.len() == 8,
        le64(v@, 0) == virt_addr as int,
{
    let mut v: Vec<u8> = Vec::new();
    push_u64_le(&mut v, virt_addr);
    v
}

/// Encodes the WinIo mapping request: the request size and the physical
/// address; the section handle, virtual address and object handle fields are
/// zero, to be filled by the driver.
pub fn encode_winio_map_request(phys_addr: u64, size: u64) -> (v: Vec<u8>)
    ensures
        v@.len() == 40,
        le64(v@, 0) == size as int,
        le64(v@, 8) == phys_addr as int,
        le64(v@, 16) == 0,
        le64(v@, 24) == 0,
        le64(v@, 32) == 0,
{
    let mut v: Vec<u8> = Vec::new();
    push_u64_le(&mut v, size);
    push_u64_le(&mut v, phys_addr);
    push_u64_le(&mut v, 0);
    push_u64_le(&mut v, 0);
    push_u64_le(&mut v, 0);
    v
}

/// Decodes the WinIo mapping response: the section handle, the virtual
/// address and the object handle the driver filled in. `None` when the
/// buffer has the wrong size.
pub fn decode_winio_map_response(bytes: &Vec<u8>) -> (r: Option<(u64, u64, u64)>)
    ensures
        match r {
            Some(t) => bytes@.len() == 40 && t.0 as int == le64(bytes@, 16) && t.1 as int == le64(
                bytes@,
                24,
            ) && t.2 as int == le64(bytes@, 32),
            None => bytes@.len() != 40,
        },
{
    if bytes.len() != 40 {
        return None;
    }
    let section = crate::phys_ranges::read_u64(bytes, 16);
    let virt = crate::phys_ranges::read_u64(bytes, 24);
    let obj = crate::phys_ranges::read_u64(bytes, 32);
    Some((section, virt, obj))
}

/// Encodes the WinIo unmapping request: the section handle, virtual address
/// and object handle exactly as the mapping response returned them, with the
/// size and physical address fields zero.
pub fn encode_winio_unmap_request(section_handle: u64, virt_addr: u64, obj_handle: u64) -> (v: Vec<
    u8,
>)
    ensures
        v@.len() == 40,
        le64(v@, 0) == 0,
        le64(v@, 8) == 0,
        le64(v@, 16) == section_handle as int,
        le64(v@, 24) == virt_addr as int,
        le64(v@, 32) == obj_handle as int,
{
    let mut v: Vec<u8> = Vec::new();
    push_u64_le(&mut v, 0);
    push_u64_le(&mut v, 0);
    push_u64_le(&mut v, section_handle);
    push_u64_le(&mut v, virt_addr);
    push_u64_le(&mut v, obj_handle);
    v
}

} // verus!
