//! The VM generation ID.

use krun_devices::guest_memory::GuestMemory;
use krun_devices::vmgenid::Vmgenid;
use vm_memory::{Bytes, GuestAddress, GuestMemoryMmap};

fn memory() -> (GuestMemoryMmap, GuestMemory) {
    let m = GuestMemoryMmap::from_ranges(&[(GuestAddress(0), 0x100000)]).unwrap();
    let mem = GuestMemory::new(m.clone());
    (m, mem)
}

#[test]
fn test_new_generates_non_zero_guid() {
    let (_, mut mem) = memory();
    let vmgenid = Vmgenid::new(0x1000, 40, 16, &mut mem).unwrap();

    assert_ne!(vmgenid.guid(), &[0u8; 16]);
}

#[test]
fn test_new_writes_guid_to_guest_memory() {
    let (m, mut mem) = memory();
    let vmgenid = Vmgenid::new(0x1000, 40, 16, &mut mem).unwrap();

    let addr = GuestAddress(0x1000 + 40);
    let mut buffer = [0u8; 16];
    m.read_slice(&mut buffer, addr).unwrap();
    assert_eq!(buffer, *vmgenid.guid());
}

#[test]
fn test_update_guid_produces_different_guid() {
    let (_, mut mem) = memory();
    let mut vmgenid = Vmgenid::new(0x2000, 50, 16, &mut mem).unwrap();

    let initial_guid = *vmgenid.guid();
    let (old_guid, new_guid) = vmgenid.update_guid(&mut mem).unwrap();

    assert_eq!(old_guid, initial_guid);
    assert_ne!(old_guid, new_guid);
    assert_eq!(*vmgenid.guid(), new_guid);
}

#[test]
fn test_update_guid_writes_to_guest_memory() {
    let (m, mut mem) = memory();
    let mut vmgenid = Vmgenid::new(0x3000, 60, 16, &mut mem).unwrap();

    let (_old_guid, new_guid) = vmgenid.update_guid(&mut mem).unwrap();

    let addr = GuestAddress(0x3000 + 60);
    let mut buffer = [0u8; 16];
    m.read_slice(&mut buffer, addr).unwrap();
    assert_eq!(buffer, new_guid);
}

#[test]
fn test_multiple_updates_produce_different_guids() {
    let (_, mut mem) = memory();
    let mut vmgenid = Vmgenid::new(0x4000, 70, 16, &mut mem).unwrap();

    let (_old1, guid1) = vmgenid.update_guid(&mut mem).unwrap();
    let (_old2, guid2) = vmgenid.update_guid(&mut mem).unwrap();
    let (_old3, guid3) = vmgenid.update_guid(&mut mem).unwrap();

    assert_ne!(guid1, guid2);
    assert_ne!(guid2, guid3);
    assert_ne!(guid1, guid3);
}

#[test]
fn test_guest_addr_calculation() {
    let (_, mut mem) = memory();
    let vmgenid = Vmgenid::new(0x5000, 80, 16, &mut mem).unwrap();

    assert_eq!(vmgenid.guest_addr(), 0x5000 + 80);
    assert_eq!(vmgenid.irq(), 16);
}

#[test]
fn test_new_handles_invalid_guest_address() {
    let (_, mut mem) = memory();
    let result = Vmgenid::new(0x200000, 0, 16, &mut mem);
    assert!(result.is_err());
}

#[test]
fn test_update_guid_handles_invalid_guest_address() {
    let (_, mut mem) = memory();
    let mut vmgenid = Vmgenid::new(0x50000, 0, 16, &mut mem).unwrap();

    vmgenid.guid_page_addr = 0x200000;
    let result = vmgenid.update_guid(&mut mem);
    assert!(result.is_err());
}

#[test]
fn given_guids_are_written() {
    let (m, mut mem) = memory();
    let mut vmgenid = Vmgenid::with_guid(0x1000, 8, 5, [7; 16], &mut mem).unwrap();
    assert_eq!(m.read_obj::<[u8; 16]>(GuestAddress(0x1008)).unwrap(), [7; 16]);
    assert_eq!(
        vmgenid.replace_guid([9; 16], &mut mem).unwrap(),
        ([7; 16], [9; 16])
    );
    assert_eq!(m.read_obj::<[u8; 16]>(GuestAddress(0x1008)).unwrap(), [9; 16]);
    vmgenid.guid_page_addr = 0xff_fff8;
    assert!(vmgenid.replace_guid([1; 16], &mut mem).is_err());
    assert_eq!(vmgenid.guid(), &[1; 16]);
}
