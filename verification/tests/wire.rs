use memflow_vdm::wire::{
    decode_rtcore_map_response, decode_winio_map_response, encode_rtcore_map_request,
    encode_rtcore_unmap_request, encode_winio_map_request, encode_winio_unmap_request,
};

#[test]
fn rtcore_map_request_layout() {
    let bytes = encode_rtcore_map_request(0x0102030405060708, 0x11223344);
    assert_eq!(
        bytes,
        vec![0x08, 0x07, 0x06, 0x05, 0x04, 0x03, 0x02, 0x01, 0x44, 0x33, 0x22, 0x11]
    );
}

#[test]
fn rtcore_unmap_request_layout() {
    let bytes = encode_rtcore_unmap_request(0xdeadbeef);
    assert_eq!(bytes, vec![0xef, 0xbe, 0xad, 0xde, 0x00, 0x00, 0x00, 0x00]);
}

#[test]
fn rtcore_map_response_round_trip() {
    let bytes = vec![0x00, 0x00, 0x00, 0x10, 0x00, 0x00, 0x00, 0x00];
    assert_eq!(decode_rtcore_map_response(&bytes), Some(0x10000000));

    assert_eq!(decode_rtcore_map_response(&Vec::new()), None);
    assert_eq!(decode_rtcore_map_response(&vec![0u8; 7]), None);
}

#[test]
fn winio_map_request_layout() {
    let bytes = encode_winio_map_request(0x1000, 0x2000);
    assert_eq!(bytes.len(), 40);
    // Request size first, physical address second, the rest zeroed for the
    // driver to fill.
    assert_eq!(&bytes[0..8], &[0x00, 0x20, 0, 0, 0, 0, 0, 0]);
    assert_eq!(&bytes[8..16], &[0x00, 0x10, 0, 0, 0, 0, 0, 0]);
    assert!(bytes[16..].iter().all(|&b| b == 0));
}

#[test]
fn winio_response_and_unmap_echo() {
    // The driver fills section handle, virtual address and object handle;
    // the unmap request echoes them verbatim with size and physical address
    // zero.
    let mut response = encode_winio_map_request(0x1000, 0x2000);
    response[16..24].copy_from_slice(&0x1111u64.to_le_bytes());
    response[24..32].copy_from_slice(&0x70000000u64.to_le_bytes());
    response[32..40].copy_from_slice(&0x2222u64.to_le_bytes());

    let (section, virt, object) = decode_winio_map_response(&response).unwrap();
    assert_eq!((section, virt, object), (0x1111, 0x70000000, 0x2222));

    let unmap = encode_winio_unmap_request(section, virt, object);
    assert!(unmap[0..16].iter().all(|&b| b == 0));
    assert_eq!(&unmap[16..40], &response[16..40]);

    assert_eq!(decode_winio_map_response(&vec![0u8; 39]), None);
}
