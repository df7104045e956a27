//! Byte order, text, configuration spaces and guest memory.

use krun_devices::byte_order::{
    le16_array, le32_array, le64_array, put, read_be_u16, read_be_u32, read_le_i32, read_le_u16,
    read_le_u32, read_le_u64, to_signed, to_unsigned, write_be_u16, write_be_u32, write_le_i32,
    write_le_u16, write_le_u32, write_le_u64,
};
use krun_devices::guest_memory::{GuestAddress, GuestMemory};
use krun_devices::text::{append_decimal, append_hex_byte, append_ipv4, append_mac};
use krun_devices::virtio_device::{
    quiesce_result, read_over, read_zeroed, QueueConfig, QuiesceTimeout,
};
use vm_memory::{Bytes, GuestMemoryMmap};

const CASES: [(u64, [u8; 8]); 6] = [
    (
        0x0123_4567_89AB_CDEF,
        [0x01, 0x23, 0x45, 0x67, 0x89, 0xab, 0xcd, 0xef],
    ),
    (
        0x0000_0000_0000_0000,
        [0x00, 0x00, 0x00, 0x00, 0x00, 0x00, 0x00, 0x00],
    ),
    (
        0x1923_2345_ABF3_CCD4,
        [0x19, 0x23, 0x23, 0x45, 0xAB, 0xF3, 0xCC, 0xD4],
    ),
    (
        0x0FF0_0FF0_0FF0_0FF0,
        [0x0F, 0xF0, 0x0F, 0xF0, 0x0F, 0xF0, 0x0F, 0xF0],
    ),
    (
        0xFFFF_FFFF_FFFF_FFFF,
        [0xFF, 0xFF, 0xFF, 0xFF, 0xFF, 0xFF, 0xFF, 0xFF],
    ),
    (
        0x89AB_12D4_C2D2_09BB,
        [0x89, 0xAB, 0x12, 0xD4, 0xC2, 0xD2, 0x09, 0xBB],
    ),
];

fn little(bytes: &[u8; 8], size: usize) -> Vec<u8> {
    bytes.iter().rev().take(size).copied().collect()
}

#[test]
fn test_le_u16() {
    for (val, bytes) in &CASES {
        let v = *val as u16;
        let mut buf = vec![0u8; 2];
        write_le_u16(&mut buf, v);
        assert_eq!(buf, little(bytes, 2));
        assert_eq!(read_le_u16(&buf), v);
        assert_eq!(le16_array(v).to_vec(), buf);
    }
}

#[test]
fn test_le_u32() {
    for (val, bytes) in &CASES {
        let v = *val as u32;
        let mut buf = vec![0u8; 4];
        write_le_u32(&mut buf, v);
        assert_eq!(buf, little(bytes, 4));
        assert_eq!(read_le_u32(&buf), v);
        assert_eq!(le32_array(v).to_vec(), buf);
    }
}

#[test]
fn test_le_u64() {
    for (val, bytes) in &CASES {
        let v = *val;
        let mut buf = vec![0u8; 8];
        write_le_u64(&mut buf, v);
        assert_eq!(buf, little(bytes, 8));
        assert_eq!(read_le_u64(&buf), v);
        assert_eq!(le64_array(v).to_vec(), buf);
    }
}

#[test]
fn test_le_i32() {
    for (val, bytes) in &CASES {
        let v = *val as i32;
        let mut buf = vec![0i8; 4];
        write_le_i32(&mut buf, v);
        let unsigned: Vec<u8> = buf.iter().map(|b| *b as u8).collect();
        assert_eq!(unsigned, little(bytes, 4));
        assert_eq!(read_le_i32(&buf), v);
        assert_eq!(to_signed(*val as u32), v);
        assert_eq!(to_unsigned(v), *val as u32);
    }
}

#[test]
fn test_be_u16() {
    for (val, bytes) in &CASES {
        let v = *val as u16;
        let mut buf = vec![0u8; 2];
        write_be_u16(&mut buf, v);
        assert_eq!(buf, bytes[6..].to_vec());
        assert_eq!(read_be_u16(&buf), v);
    }
}

#[test]
fn test_be_u32() {
    for (val, bytes) in &CASES {
        let v = *val as u32;
        let mut buf = vec![0u8; 4];
        write_be_u32(&mut buf, v);
        assert_eq!(buf, bytes[4..].to_vec());
        assert_eq!(read_be_u32(&buf), v);
    }
}

#[test]
fn bytes_are_put_in_place() {
    let mut buf = vec![1u8, 2, 3, 4];
    put(&mut buf, 1, &[9, 8]);
    assert_eq!(buf, vec![1, 9, 8, 4]);
}

#[test]
fn numbers_become_text() {
    let mut out = String::new();
    append_decimal(&mut out, 0);
    append_decimal(&mut out, 1_234_567_890);
    append_decimal(&mut out, u64::MAX);
    assert_eq!(out, "0123456789018446744073709551615");
    let mut hex = String::new();
    append_hex_byte(&mut hex, 0x0f);
    append_hex_byte(&mut hex, 0xa0);
    assert_eq!(hex, "0fa0");
    let mut ip = String::new();
    append_ipv4(&mut ip, 0xc0a8_6402);
    assert_eq!(ip, "192.168.100.2");
    let mut mac = String::new();
    append_mac(&mut mac, &[0x52, 0x54, 0x00, 0xab, 0xcd, 0xef]);
    assert_eq!(mac, "52:54:00:ab:cd:ef");
}

#[test]
fn configuration_reads_show_nothing_stale() {
    let config = [1u8, 2, 3, 4];
    let mut buf = [0xff; 4];
    read_zeroed(&config, 2, &mut buf);
    assert_eq!(buf, [3, 4, 0, 0]);
    let mut buf = [0xff; 4];
    read_over(&config, 2, &mut buf);
    assert_eq!(buf, [3, 4, 0xff, 0xff]);
    let mut buf = [0xff; 4];
    read_zeroed(&config, u64::MAX, &mut buf);
    assert_eq!(buf, [0; 4]);
}

#[test]
fn quiescing_times_out() {
    assert_eq!(quiesce_result(true, false, 50), Ok(()));
    assert_eq!(
        quiesce_result(false, true, 50),
        Err(QuiesceTimeout { timeout_ms: 50 })
    );
    assert_eq!(QueueConfig::new(7).size, 7);
}

fn two_regions() -> GuestMemoryMmap {
    GuestMemoryMmap::from_ranges(&[
        (vm_memory::GuestAddress(0x1000), 0x1000),
        (vm_memory::GuestAddress(0x2000), 0x1000),
    ])
    .unwrap()
}

#[test]
fn memory_is_read_and_written() {
    let m = two_regions();
    let mut mem = GuestMemory::new(m.clone());
    mem.write(&[1, 2, 3, 4], GuestAddress(0x1ffe)).unwrap();
    assert_eq!(mem.read(GuestAddress(0x1ffe), 4).unwrap(), vec![1, 2, 3, 4]);
    // Across regions, but not in one piece.
    assert!(mem.read_contiguous(GuestAddress(0x1ffe), 4).is_err());
    assert_eq!(
        mem.read_contiguous(GuestAddress(0x1ffe), 2).unwrap(),
        vec![1, 2]
    );
    assert!(mem.read(GuestAddress(0x2ffe), 4).is_err());
    assert!(mem.write(&[0; 4], GuestAddress(0xffe)).is_err());

    mem.store(0x1234, GuestAddress(0x1010)).unwrap();
    assert_eq!(mem.load(GuestAddress(0x1010)).unwrap(), 0x1234);
    assert_eq!(
        m.read_obj::<[u8; 2]>(vm_memory::GuestAddress(0x1010)).unwrap(),
        [0x34, 0x12]
    );
    assert!(mem.load(GuestAddress(0x1011)).is_err());
    assert!(mem.store(1, GuestAddress(0x3000)).is_err());
}

#[test]
fn reach_is_told_before_access() {
    let mem = GuestMemory::new(two_regions());
    assert!(mem.address_in_range(GuestAddress(0x1000)));
    assert!(!mem.address_in_range(GuestAddress(0xfff)));
    assert!(mem.cell_in_reach(GuestAddress(0x2ffe)));
    assert!(!mem.cell_in_reach(GuestAddress(0x2fff)));
    assert!(mem.range_in_reach(GuestAddress(0x1800), 0x1000));
    assert!(!mem.range_in_reach(GuestAddress(0x2800), 0x1000));
    assert_eq!(
        mem.checked_offset(GuestAddress(0x1000), 0x10),
        Some(GuestAddress(0x1010))
    );
    assert_eq!(mem.checked_offset(GuestAddress(0x1000), 0x2000), None);
    assert_eq!(mem.checked_offset(GuestAddress(u64::MAX), 1), None);
    assert_eq!(GuestAddress(5).checked_add(2), Some(GuestAddress(7)));
    assert_eq!(GuestAddress(5).raw_value(), 5);
}
