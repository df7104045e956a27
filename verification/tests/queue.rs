//! The split virtqueue.

use krun_devices::guest_memory::{GuestAddress, GuestMemory};
use krun_devices::queue::{
    Descriptor, DescriptorChain, Error, Queue, VirtqUsedElem, VIRTQ_DESC_F_NEXT,
    VIRTQ_DESC_F_WRITE, VRING_USED_F_NO_NOTIFY,
};
use vm_memory::{Bytes, GuestMemoryMmap};

fn at(addr: u64) -> vm_memory::GuestAddress {
    vm_memory::GuestAddress(addr)
}

/// A queue laid out in guest memory: the descriptor table, the available ring and, at the
/// next multiple of four, the used ring.
struct VirtQueue {
    mem: GuestMemoryMmap,
    size: u16,
    start: u64,
}

impl VirtQueue {
    fn new(start: u64, mem: &GuestMemoryMmap, size: u16) -> Self {
        VirtQueue {
            mem: mem.clone(),
            size,
            start,
        }
    }

    fn dtable_start(&self) -> u64 {
        self.start
    }

    fn avail_start(&self) -> u64 {
        self.start + 16 * self.size as u64
    }

    fn used_start(&self) -> u64 {
        let end = self.avail_start() + 4 + 2 * self.size as u64 + 2;
        (end + 3) & !3
    }

    fn end(&self) -> u64 {
        self.used_start() + 4 + 8 * self.size as u64 + 2
    }

    fn set_desc(&self, i: u64, addr: u64, len: u32, flags: u16, next: u16) {
        let d = self.start + i * 16;
        self.mem.write_obj(addr, at(d)).unwrap();
        self.mem.write_obj(len, at(d + 8)).unwrap();
        self.mem.write_obj(flags, at(d + 12)).unwrap();
        self.mem.write_obj(next, at(d + 14)).unwrap();
    }

    fn set_desc_flags(&self, i: u64, flags: u16) {
        self.mem.write_obj(flags, at(self.start + i * 16 + 12)).unwrap();
    }

    fn set_desc_next(&self, i: u64, next: u16) {
        self.mem.write_obj(next, at(self.start + i * 16 + 14)).unwrap();
    }

    fn set_avail_idx(&self, idx: u16) {
        self.mem.write_obj(idx, at(self.avail_start() + 2)).unwrap();
    }

    fn set_avail_ring(&self, i: u64, head: u16) {
        self.mem.write_obj(head, at(self.avail_start() + 4 + 2 * i)).unwrap();
    }

    fn set_used_event(&self, event: u16) {
        let addr = self.avail_start() + 4 + 2 * self.size as u64;
        self.mem.write_obj(event, at(addr)).unwrap();
    }

    fn used_flags(&self) -> u16 {
        self.mem.read_obj(at(self.used_start())).unwrap()
    }

    fn used_idx(&self) -> u16 {
        self.mem.read_obj(at(self.used_start() + 2)).unwrap()
    }

    fn used_ring(&self, i: u64) -> (u32, u32) {
        let e = self.used_start() + 4 + 8 * i;
        (
            self.mem.read_obj(at(e)).unwrap(),
            self.mem.read_obj(at(e + 4)).unwrap(),
        )
    }

    fn avail_event(&self) -> u16 {
        let addr = self.used_start() + 4 + 8 * self.size as u64;
        self.mem.read_obj(at(addr)).unwrap()
    }

    fn create_queue(&self) -> Queue {
        let mut q = Queue::new(self.size);
        q.size = self.size;
        q.ready = true;
        q.desc_table = GuestAddress(self.dtable_start());
        q.avail_ring = GuestAddress(self.avail_start());
        q.used_ring = GuestAddress(self.used_start());
        q
    }
}

fn one_region() -> GuestMemoryMmap {
    GuestMemoryMmap::from_ranges(&[(at(0), 0x10000)]).unwrap()
}

#[test]
fn test_checked_new_descriptor_chain() {
    let m = GuestMemoryMmap::from_ranges(&[(at(0), 0x10000), (at(0x20000), 0x2000)]).unwrap();
    let mem = &mut GuestMemory::new(m.clone());
    let vq = VirtQueue::new(0, &m, 16);
    let table = GuestAddress(vq.dtable_start());

    assert!(vq.end() < 0x1000);

    // index >= queue_size
    assert!(DescriptorChain::checked_new(mem, table, 16, 16).is_none());

    // desc_table address is way off
    assert!(DescriptorChain::checked_new(mem, GuestAddress(0x00ff_ffff_ffff), 16, 0).is_none());

    // An invalid chain: the index of the next descriptor is too large.
    vq.set_desc(0, 0x1000, 0x1000, VIRTQ_DESC_F_NEXT, 16);
    assert!(DescriptorChain::checked_new(mem, table, 16, 0).is_none());

    // A valid one.
    vq.set_desc_next(0, 1);
    vq.set_desc(1, 0x2000, 0x1000, 0, 0);

    let c = DescriptorChain::checked_new(mem, table, 16, 0).unwrap();
    assert_eq!(c.desc_table, table);
    assert_eq!(c.queue_size, 16);
    assert_eq!(c.ttl, c.queue_size);
    assert_eq!(c.index, 0);
    assert_eq!(c.addr, GuestAddress(0x1000));
    assert_eq!(c.len, 0x1000);
    assert_eq!(c.flags, VIRTQ_DESC_F_NEXT);
    assert_eq!(c.next, 1);

    assert!(c
        .next_descriptor(mem)
        .unwrap()
        .next_descriptor(mem)
        .is_none());
}

#[test]
fn test_queue_validation() {
    let m = one_region();
    let mem = &GuestMemory::new(m.clone());
    let vq = VirtQueue::new(0, &m, 16);

    let mut q = vq.create_queue();

    // q is currently valid
    assert!(q.is_valid(mem));

    // shouldn't be valid when not marked as ready
    q.ready = false;
    assert!(!q.is_valid(mem));
    q.ready = true;

    // or when size > max_size
    q.size = q.max_size << 1;
    assert!(!q.is_valid(mem));
    q.size = q.max_size;

    // or when size is 0
    q.size = 0;
    assert!(!q.is_valid(mem));
    q.size = q.max_size;

    // or when size is not a power of 2
    q.size = 11;
    assert!(!q.is_valid(mem));
    q.size = q.max_size;

    // or if the various addresses are off
    q.desc_table = GuestAddress(0xffff_ffff);
    assert!(!q.is_valid(mem));
    q.desc_table = GuestAddress(0x1001);
    assert!(!q.is_valid(mem));
    q.desc_table = GuestAddress(vq.dtable_start());

    q.avail_ring = GuestAddress(0xffff_ffff);
    assert!(!q.is_valid(mem));
    q.avail_ring = GuestAddress(0x1001);
    assert!(!q.is_valid(mem));
    q.avail_ring = GuestAddress(vq.avail_start());

    q.used_ring = GuestAddress(0xffff_ffff);
    assert!(!q.is_valid(mem));
    q.used_ring = GuestAddress(0x1001);
    assert!(!q.is_valid(mem));
    q.used_ring = GuestAddress(vq.used_start());
    assert!(q.is_valid(mem));
}

#[test]
fn test_is_valid_params_matches_is_valid_conditions() {
    // Valid inputs.
    assert!(Queue::is_valid_params(true, 16, 256, 0x0000, 0x0000, 0x0000));

    // not ready
    assert!(!Queue::is_valid_params(false, 16, 256, 0x0000, 0x0000, 0x0000));

    // size == 0
    assert!(!Queue::is_valid_params(true, 0, 256, 0x0000, 0x0000, 0x0000));

    // size > max_size
    assert!(!Queue::is_valid_params(true, 512, 256, 0x0000, 0x0000, 0x0000));

    // size not a power of two
    assert!(!Queue::is_valid_params(true, 3, 256, 0x0000, 0x0000, 0x0000));

    // desc_table misaligned (not 16-byte aligned)
    assert!(!Queue::is_valid_params(true, 16, 256, 0x0001, 0x0000, 0x0000));

    // avail_ring misaligned (not 2-byte aligned)
    assert!(!Queue::is_valid_params(true, 16, 256, 0x0000, 0x0001, 0x0000));

    // used_ring misaligned (not 4-byte aligned)
    assert!(!Queue::is_valid_params(true, 16, 256, 0x0000, 0x0000, 0x0002));

    // All alignment boundaries.
    assert!(Queue::is_valid_params(true, 1, 1, 0x0010, 0x0002, 0x0004));
}

#[test]
fn test_queue_processing() {
    let m = one_region();
    let mem = &mut GuestMemory::new(m.clone());
    let vq = VirtQueue::new(0, &m, 16);
    let mut q = vq.create_queue();

    q.ready = true;

    // Two simple descriptor chains.
    for j in 0..5u64 {
        vq.set_desc(
            j,
            0x1000 * (j + 1),
            0x1000,
            VIRTQ_DESC_F_NEXT,
            (j + 1) as u16,
        );
    }

    // the chains are (0, 1) and (2, 3, 4)
    vq.set_desc_flags(1, 0);
    vq.set_desc_flags(4, 0);
    vq.set_avail_ring(0, 0);
    vq.set_avail_ring(1, 2);
    vq.set_avail_idx(2);

    // We've just set up two chains.
    assert_eq!(q.len(mem), 2);

    // The first chain should hold exactly two descriptors.
    let d = q.pop(mem).unwrap().next_descriptor(mem).unwrap();
    assert!(!d.has_next());
    assert!(d.next_descriptor(mem).is_none());

    // We popped one chain, so there should be only one left.
    assert_eq!(q.len(mem), 1);

    // The next chain holds three descriptors.
    let d = q
        .pop(mem)
        .unwrap()
        .next_descriptor(mem)
        .unwrap()
        .next_descriptor(mem)
        .unwrap();
    assert!(!d.has_next());
    assert!(d.next_descriptor(mem).is_none());

    // We've popped both chains, so the queue should be empty.
    assert!(q.is_empty(mem));
    assert!(q.pop(mem).is_none());

    // Undoing the last pop should let us walk the last chain again.
    q.undo_pop();
    assert_eq!(q.len(mem), 1);

    // Walk the last chain again (three descriptors).
    let d = q
        .pop(mem)
        .unwrap()
        .next_descriptor(mem)
        .unwrap()
        .next_descriptor(mem)
        .unwrap();
    assert!(!d.has_next());
    assert!(d.next_descriptor(mem).is_none());
}

#[test]
fn test_add_used() {
    let m = one_region();
    let mem = &mut GuestMemory::new(m.clone());
    let vq = VirtQueue::new(0, &m, 16);

    let mut q = vq.create_queue();
    assert_eq!(vq.used_idx(), 0);

    // index too large
    let _ = q.add_used(mem, 16, 0x1000);
    assert_eq!(vq.used_idx(), 0);

    // should be ok
    let _ = q.add_used(mem, 1, 0x1000);
    assert_eq!(vq.used_idx(), 1);
    let x = vq.used_ring(0);
    assert_eq!(x.0, 1);
    assert_eq!(x.1, 0x1000);
}

#[test]
fn add_used_reports_what_went_wrong() {
    let m = one_region();
    let mem = &mut GuestMemory::new(m.clone());
    let vq = VirtQueue::new(0, &m, 16);
    let mut q = vq.create_queue();
    assert!(matches!(q.add_used(mem, 16, 0), Err(Error::InvalidDescriptorIndex)));
    assert_eq!(q.next_used(), 0);

    q.used_ring = GuestAddress(0x2_0000);
    assert!(matches!(q.add_used(mem, 0, 0), Err(Error::GuestMemory(_))));
    q.used_ring = GuestAddress(u64::MAX - 3);
    assert!(matches!(q.add_used(mem, 0, 0), Err(Error::AddressOverflow)));
}

#[test]
fn used_ring_wraps_around() {
    let m = one_region();
    let mem = &mut GuestMemory::new(m.clone());
    let vq = VirtQueue::new(0, &m, 16);
    let mut q = vq.create_queue();
    q.set_next_used(u16::MAX);
    assert!(q.add_used(mem, 3, 7).is_ok());
    assert_eq!(vq.used_idx(), 0);
    assert_eq!(q.next_used(), 0);
    assert_eq!(vq.used_ring(15), (3, 7));
}

#[test]
fn cyclic_chains_end() {
    let m = one_region();
    let mem = &mut GuestMemory::new(m.clone());
    let vq = VirtQueue::new(0, &m, 4);
    let mut q = vq.create_queue();
    vq.set_desc(0, 0x1000, 1, VIRTQ_DESC_F_NEXT, 1);
    vq.set_desc(1, 0x2000, 1, VIRTQ_DESC_F_NEXT, 0);
    vq.set_avail_ring(0, 0);
    vq.set_avail_idx(1);
    let chain = q.pop(mem).unwrap().into_iter(mem);
    let visited: Vec<u16> = chain.items.iter().map(|d| d.index).collect();
    assert_eq!(visited, vec![0, 1, 0, 1]);
}

#[test]
fn chains_split_into_readable_and_writable() {
    let m = one_region();
    let mem = &mut GuestMemory::new(m.clone());
    let vq = VirtQueue::new(0, &m, 4);
    let mut q = vq.create_queue();
    vq.set_desc(0, 0x1000, 1, VIRTQ_DESC_F_NEXT, 1);
    vq.set_desc(1, 0x2000, 2, VIRTQ_DESC_F_NEXT | VIRTQ_DESC_F_WRITE, 2);
    vq.set_desc(2, 0x3000, 3, VIRTQ_DESC_F_WRITE, 0);
    vq.set_avail_ring(0, 0);
    vq.set_avail_idx(1);
    let head = q.pop(mem).unwrap();
    assert!(head.is_read_only() && !head.is_write_only());
    let readable = head.into_iter(mem).readable();
    let writable = head.into_iter(mem).writable();
    assert_eq!(readable.len(), 1);
    assert_eq!(readable[0].len, 1);
    assert_eq!(writable.len(), 2);
    assert_eq!(writable[0].addr, GuestAddress(0x2000));
    assert_eq!(writable[1].len, 3);
    assert!(writable[1].is_write_only());
    assert_eq!(writable[1].descriptor().addr, 0x3000);

    // The order of the two kinds does not matter.
    vq.set_desc(2, 0x3000, 3, 0, 0);
    let writable = head.into_iter(mem).writable();
    assert_eq!(writable.len(), 1);
    assert_eq!(writable[0].addr, GuestAddress(0x2000));
    let readable = head.into_iter(mem).readable();
    assert_eq!(readable.len(), 2);
    assert_eq!(readable[1].addr, GuestAddress(0x3000));
}

#[test]
fn broken_heads_are_not_popped() {
    let m = one_region();
    let mem = &mut GuestMemory::new(m.clone());
    let vq = VirtQueue::new(0, &m, 4);
    let mut q = vq.create_queue();
    vq.set_avail_ring(0, 9);
    vq.set_avail_idx(1);
    assert!(q.pop(mem).is_none());
    assert_eq!(q.next_avail(), 0);

    // More available than the queue can hold.
    vq.set_avail_ring(0, 0);
    vq.set_avail_idx(5);
    assert_eq!(q.len(mem), 5);
    assert!(q.is_readable(mem));
}

#[test]
fn notifications_by_event_index() {
    let m = one_region();
    let mem = &mut GuestMemory::new(m.clone());
    let vq = VirtQueue::new(0, &m, 16);
    let mut q = vq.create_queue();

    // Without event indices the driver is always told.
    assert!(q.needs_notification(mem).unwrap());

    q.set_event_idx(true);
    vq.set_used_event(2);
    q.add_used(mem, 0, 0).unwrap();
    assert!(!q.needs_notification(mem).unwrap());
    q.add_used(mem, 1, 0).unwrap();
    q.add_used(mem, 2, 0).unwrap();
    assert!(q.needs_notification(mem).unwrap());
    assert_eq!(q.used_event(mem).unwrap(), 2);
    // Nothing was added since.
    assert!(!q.needs_notification(mem).unwrap());
}

#[test]
fn notifications_are_asked_for() {
    let m = one_region();
    let mem = &mut GuestMemory::new(m.clone());
    let vq = VirtQueue::new(0, &m, 16);
    let mut q = vq.create_queue();

    q.disable_notification(mem).unwrap();
    assert_eq!(vq.used_flags(), VRING_USED_F_NO_NOTIFY);
    assert!(!q.enable_notification(mem).unwrap());
    assert_eq!(vq.used_flags(), 0);
    vq.set_avail_idx(1);
    assert!(q.enable_notification(mem).unwrap());

    q.set_event_idx(true);
    q.set_next_avail(7);
    q.enable_notification(mem).unwrap();
    assert_eq!(vq.avail_event(), 7);
    q.set_avail_event(mem, 9).unwrap();
    assert_eq!(vq.avail_event(), 9);
    q.set_used_flags(mem, 1).unwrap();
    assert_eq!(vq.used_flags(), 1);
    assert_eq!(q.avail_idx(mem).unwrap(), 1);
}

#[test]
fn notification_fields_out_of_reach() {
    let m = one_region();
    let mem = &mut GuestMemory::new(m.clone());
    let mut q = VirtQueue::new(0, &m, 16).create_queue();
    q.set_event_idx(true);
    q.avail_ring = GuestAddress(0x4_0000);
    assert!(matches!(q.used_event(mem), Err(Error::GuestMemory(_))));
    assert!(matches!(q.needs_notification(mem), Err(Error::GuestMemory(_))));
    q.avail_ring = GuestAddress(u64::MAX - 1);
    assert!(matches!(q.used_event(mem), Err(Error::AddressOverflow)));
    assert!(!q.is_readable(mem));
    q.used_ring = GuestAddress(0x4_0000);
    assert!(!q.is_writable(mem));
    assert!(q.enable_notification(mem).is_err());
}

#[test]
fn valid_queues_are_in_reach() {
    let m = one_region();
    let mem = GuestMemory::new(m.clone());
    let q = VirtQueue::new(0, &m, 16).create_queue();
    assert!(q.is_valid(&mem));
    assert!(q.is_readable(&mem) && q.is_writable(&mem));

    // Rings that only end in memory are valid, too, but cannot be used.
    let split =
        GuestMemoryMmap::from_ranges(&[(at(0), 0x1000), (at(0x2020), 0x1000)]).unwrap();
    let mut broken = q;
    broken.avail_ring = GuestAddress(0x2000);
    let mem = GuestMemory::new(split);
    assert!(broken.is_valid(&mem));
    assert!(!broken.is_readable(&mem));
}

#[test]
fn going_back_undoes_pops() {
    let mut q = Queue::new(16);
    q.set_next_avail(5);
    q.undo_pop();
    assert_eq!(q.next_avail(), 4);
    q.go_to_previous_position();
    assert_eq!(q.next_avail(), 3);
    q.set_next_avail(0);
    q.undo_pop();
    assert_eq!(q.next_avail(), u16::MAX);
}

#[test]
fn sizes_are_capped() {
    let mut q = Queue::new(16);
    q.size = 64;
    assert_eq!(q.get_max_size(), 16);
    assert_eq!(q.actual_size(), 16);
    q.size = 8;
    assert_eq!(q.actual_size(), 8);
}

#[test]
fn descriptors_and_used_elements_have_exact_bytes() {
    let mut bytes = [0u8; 16];
    bytes[0] = 0x78;
    bytes[1] = 0x56;
    bytes[8] = 0x10;
    bytes[12] = 3;
    bytes[14] = 7;
    let d = Descriptor::from_bytes(&bytes);
    assert_eq!((d.addr, d.len, d.flags, d.next), (0x5678, 0x10, 3, 7));
    assert_eq!(
        VirtqUsedElem::new(0x01020304, 5).to_bytes(),
        [4, 3, 2, 1, 5, 0, 0, 0]
    );
}

#[test]
fn errors_say_what_happened() {
    assert_eq!(Error::AddressOverflow.description(), "address overflow");
    assert_eq!(Error::InvalidChain.description(), "invalid descriptor chain");
    assert_eq!(
        Error::SplitOutOfBounds(1234).description(),
        "`DescriptorChain` split is out of bounds: 1234"
    );
    let e = vm_memory::GuestMemoryError::InvalidBackendAddress;
    assert_eq!(
        Error::GuestMemoryError(e).description(),
        format!(
            "descriptor guest memory error: {}",
            vm_memory::GuestMemoryError::InvalidBackendAddress
        )
    );
    let v = vm_memory::VolatileMemoryError::OutOfBounds { addr: 16 };
    assert_eq!(
        Error::VolatileMemoryError(v).description(),
        format!(
            "volatile memory error: {}",
            vm_memory::VolatileMemoryError::OutOfBounds { addr: 16 }
        )
    );
}
