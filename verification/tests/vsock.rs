//! The socket device: packets, queues, events and released sockets.

use krun_devices::guest_memory::{GuestAddress, GuestMemory};
use krun_devices::queue::{DescriptorChain, Queue, VIRTQ_DESC_F_NEXT, VIRTQ_DESC_F_WRITE};
use krun_devices::virtio_device::BadActivate;
use krun_devices::vsock::defs;
use krun_devices::vsock::device::Vsock;
use krun_devices::vsock::event_handler::{
    is_queue_event, process, VsockEvent, VsockFds,
};
use krun_devices::vsock::muxer::{RecordedMuxer, VsockMuxer};
use krun_devices::vsock::packet::{
    SockAddr, TsiAcceptReq, TsiAcceptRsp, TsiConnectRsp, TsiGetnameReq, TsiGetnameRsp,
    TsiListenRsp, TsiProxyCreate, TsiReleaseReq, VsockError, VsockPacket, VSOCK_PKT_HDR_SIZE,
};
use krun_devices::vsock::reaper::{
    reaper_wakeup_deadline, remaining_timeout, Reaper, TIMEOUT_NS,
};
use vm_memory::{Bytes, GuestMemoryMmap};

const HDR: u64 = 0x4000;
const DATA: u64 = 0x5000;
const AVAIL: u64 = 0x2000;
const USED: u64 = 0x3000;
const TABLE: u64 = 0x1000;

fn at(addr: u64) -> vm_memory::GuestAddress {
    vm_memory::GuestAddress(addr)
}

fn memory() -> GuestMemoryMmap {
    GuestMemoryMmap::from_ranges(&[(at(0), 0x20000)]).unwrap()
}

fn write_descriptor(m: &GuestMemoryMmap, i: u64, addr: u64, len: u32, flags: u16, next: u16) {
    let d = TABLE + i * 16;
    m.write_obj(addr, at(d)).unwrap();
    m.write_obj(len, at(d + 8)).unwrap();
    m.write_obj(flags, at(d + 12)).unwrap();
    m.write_obj(next, at(d + 14)).unwrap();
}

fn queue(m: &GuestMemoryMmap, heads: &[u16]) -> Queue {
    m.write_obj(heads.len() as u16, at(AVAIL + 2)).unwrap();
    for (i, head) in heads.iter().enumerate() {
        m.write_obj(*head, at(AVAIL + 4 + 2 * i as u64)).unwrap();
    }
    let mut q = Queue::new(256);
    q.size = 256;
    q.ready = true;
    q.desc_table = GuestAddress(TABLE);
    q.avail_ring = GuestAddress(AVAIL);
    q.used_ring = GuestAddress(USED);
    q
}

fn head(m: &GuestMemoryMmap, mem: &mut GuestMemory) -> DescriptorChain {
    queue(m, &[0]).pop(mem).unwrap()
}

fn used(m: &GuestMemoryMmap, i: u64) -> (u32, u32) {
    let e = USED + 4 + 8 * i;
    (m.read_obj(at(e)).unwrap(), m.read_obj(at(e + 4)).unwrap())
}

fn packet(data: Option<Vec<u8>>) -> VsockPacket {
    VsockPacket {
        hdr: [0; VSOCK_PKT_HDR_SIZE],
        hdr_addr: GuestAddress(HDR),
        data,
        data_addr: GuestAddress(DATA),
    }
}

#[test]
fn header_fields_have_their_places() {
    let mut p = packet(None);
    p.set_src_cid(0x1111_1111_1111_1101)
        .set_dst_cid(0x2222_2222_2222_2202)
        .set_src_port(0x3333_3303)
        .set_dst_port(0x4444_4404)
        .set_len(0x5555_5505)
        .set_type(0x6606)
        .set_op(0x7707)
        .set_flags(0x8888_8808)
        .set_buf_alloc(0x9999_9909)
        .set_fwd_cnt(0xaaaa_aa0a);
    assert_eq!(p.src_cid(), 0x1111_1111_1111_1101);
    assert_eq!(p.dst_cid(), 0x2222_2222_2222_2202);
    assert_eq!(p.src_port(), 0x3333_3303);
    assert_eq!(p.dst_port(), 0x4444_4404);
    assert_eq!(p.len(), 0x5555_5505);
    assert_eq!(p.type_(), 0x6606);
    assert_eq!(p.op(), 0x7707);
    assert_eq!(p.flags(), 0x8888_8808);
    assert_eq!(p.buf_alloc(), 0x9999_9909);
    assert_eq!(p.fwd_cnt(), 0xaaaa_aa0a);
    assert_eq!(p.hdr()[0], 0x01);
    assert_eq!(p.hdr()[7], 0x11);
    assert_eq!(p.hdr()[16..20], [0x03, 0x33, 0x33, 0x33]);
    assert_eq!(p.hdr()[28..32], [0x06, 0x66, 0x07, 0x77]);
    p.set_flag(0x1);
    assert_eq!(p.flags(), 0x8888_8809);
    assert_eq!(p.buf_alloc(), 0x9999_9909);
}

#[test]
fn sent_packets_are_read() {
    let m = memory();
    let mut mem = GuestMemory::new(m.clone());
    write_descriptor(&m, 0, HDR, 44, VIRTQ_DESC_F_NEXT, 1);
    write_descriptor(&m, 1, DATA, 8, 0, 0);
    m.write_obj(5u32, at(HDR + 24)).unwrap();
    m.write_slice(b"abcdefgh", at(DATA)).unwrap();
    let h = head(&m, &mut mem);
    let p = VsockPacket::from_tx_virtq_head(&h, &mut mem).ok().unwrap();
    assert_eq!(p.len(), 5);
    assert_eq!(p.buf(), Some(&b"abcdefgh"[..]));
    assert_eq!(p.buf_size(), 8);

    // Without data there is no buffer.
    m.write_obj(0u32, at(HDR + 24)).unwrap();
    let p = VsockPacket::from_tx_virtq_head(&h, &mut mem).ok().unwrap();
    assert_eq!(p.buf(), None);
    assert_eq!(p.buf_size(), 0);
}

#[test]
fn broken_sent_packets_are_refused() {
    let m = memory();
    let mut mem = GuestMemory::new(m.clone());
    write_descriptor(&m, 0, HDR, 44, 0, 0);
    m.write_obj(5u32, at(HDR + 24)).unwrap();
    let h = head(&m, &mut mem);
    let parse = |h: &DescriptorChain, mem: &mut GuestMemory| {
        VsockPacket::from_tx_virtq_head(h, mem).err()
    };
    assert_eq!(parse(&h, &mut mem), Some(VsockError::BufDescMissing));
    m.write_obj(65537u32, at(HDR + 24)).unwrap();
    assert_eq!(parse(&h, &mut mem), Some(VsockError::InvalidPktLen(65537)));
    let mut writable = h;
    writable.flags = VIRTQ_DESC_F_WRITE;
    assert_eq!(
        parse(&writable, &mut mem),
        Some(VsockError::UnreadableDescriptor)
    );
    let mut short = h;
    short.len = 43;
    assert_eq!(parse(&short, &mut mem), Some(VsockError::HdrDescTooSmall(43)));
    let mut lost = h;
    lost.addr = GuestAddress(0x9_0000);
    assert_eq!(parse(&lost, &mut mem), Some(VsockError::GuestMemoryMmap));

    m.write_obj(5u32, at(HDR + 24)).unwrap();
    write_descriptor(&m, 0, HDR, 44, VIRTQ_DESC_F_NEXT, 1);
    write_descriptor(&m, 1, DATA, 4, 0, 0);
    let h = head(&m, &mut mem);
    assert_eq!(parse(&h, &mut mem), Some(VsockError::BufDescTooSmall));
    write_descriptor(&m, 1, DATA, 8, VIRTQ_DESC_F_WRITE, 0);
    assert_eq!(parse(&h, &mut mem), Some(VsockError::UnreadableDescriptor));
}

#[test]
fn received_packets_may_use_one_buffer() {
    let m = memory();
    let mut mem = GuestMemory::new(m.clone());
    write_descriptor(&m, 0, HDR, 64, VIRTQ_DESC_F_WRITE, 0);
    let h = head(&m, &mut mem);
    let p = VsockPacket::from_rx_virtq_head(&h, &mut mem).ok().unwrap();
    assert_eq!(p.buf_size(), 20);
    assert_eq!(p.data_addr, GuestAddress(HDR + 44));

    write_descriptor(&m, 0, HDR, 64, VIRTQ_DESC_F_WRITE | VIRTQ_DESC_F_NEXT, 1);
    write_descriptor(&m, 1, DATA, 100, VIRTQ_DESC_F_WRITE, 0);
    let h = head(&m, &mut mem);
    let p = VsockPacket::from_rx_virtq_head(&h, &mut mem).ok().unwrap();
    assert_eq!(p.buf_size(), 100);
    assert_eq!(p.data_addr, GuestAddress(DATA));

    // The data has to be writable too.
    write_descriptor(&m, 1, DATA, 100, 0, 0);
    assert_eq!(
        VsockPacket::from_rx_virtq_head(&h, &mut mem).err(),
        Some(VsockError::UnwritableDescriptor)
    );

    let mut exact = h;
    exact.flags = VIRTQ_DESC_F_WRITE;
    exact.len = 44;
    assert_eq!(
        VsockPacket::from_rx_virtq_head(&exact, &mut mem).err(),
        Some(VsockError::BufDescMissing)
    );
    exact.flags = 0;
    assert_eq!(
        VsockPacket::from_rx_virtq_head(&exact, &mut mem).err(),
        Some(VsockError::UnwritableDescriptor)
    );
}

#[test]
fn packets_are_written_back() {
    let m = memory();
    let mut mem = GuestMemory::new(m.clone());
    let mut p = packet(Some(vec![0; 8]));
    p.write_buf(1, b"xyz");
    p.set_len(3);
    assert!(p.write_back(&packet(Some(vec![0; 8])), &mut mem).is_ok());
    assert_eq!(m.read_obj::<u32>(at(HDR + 24)).unwrap(), 3);
    // The whole buffer is there, not only what the header announces.
    assert_eq!(m.read_obj::<[u8; 5]>(at(DATA)).unwrap(), *b"\0xyz\0");

    // What was not changed is not written.
    m.write_obj(9u32, at(HDR + 24)).unwrap();
    m.write_obj(0xffu8, at(DATA)).unwrap();
    let given = p.copied();
    assert!(p.write_back(&given, &mut mem).is_ok());
    assert_eq!(m.read_obj::<u32>(at(HDR + 24)).unwrap(), 9);
    assert_eq!(m.read_obj::<u8>(at(DATA)).unwrap(), 0xff);
    p.set_op(1);
    assert!(p.write_back(&given, &mut mem).is_ok());
    assert_eq!(m.read_obj::<u32>(at(HDR + 24)).unwrap(), 3);
    assert_eq!(m.read_obj::<u8>(at(DATA)).unwrap(), 0xff);

    p.hdr_addr = GuestAddress(0x9_0000);
    assert_eq!(p.write_back(&given, &mut mem), Err(VsockError::GuestMemoryMmap));
}

#[test]
fn packets_stay_in_their_buffers() {
    let given = packet(Some(b"abcdef".to_vec()));
    let mut left = packet(Some(b"xyz".to_vec()));
    left.hdr_addr = GuestAddress(1);
    left.data_addr = GuestAddress(2);
    left.set_op(5);
    left.settle(&given);
    assert_eq!((left.hdr_addr, left.data_addr), (given.hdr_addr, given.data_addr));
    assert_eq!(left.op(), 5);
    assert_eq!(left.buf().unwrap(), b"xyzdef");

    let mut longer = packet(Some(b"0123456789".to_vec()));
    longer.settle(&given);
    assert_eq!(longer.buf().unwrap(), b"012345");
    let mut gone = packet(None);
    gone.settle(&given);
    assert_eq!(gone.buf().unwrap(), b"abcdef");
    let mut grown = packet(Some(vec![1]));
    grown.settle(&packet(None));
    assert!(grown.buf().is_none());
}

#[test]
fn requests_are_read_from_the_data() {
    let mut bytes = vec![0u8; 16];
    bytes[0] = 7;
    bytes[4] = 2;
    bytes[6] = 1;
    bytes[8] = 1;
    let p = packet(Some(bytes));
    assert_eq!(
        p.read_proxy_create(),
        Some(TsiProxyCreate {
            peer_port: 7,
            family: 2,
            _type: 1
        })
    );
    assert_eq!(
        p.read_getname_req(),
        Some(TsiGetnameReq {
            peer_port: 7,
            local_port: 0x1_0002,
            peer: 1
        })
    );
    assert_eq!(
        p.read_accept_req(),
        Some(TsiAcceptReq {
            peer_port: 7,
            flags: 0x1_0002
        })
    );
    assert_eq!(
        p.read_release_req(),
        Some(TsiReleaseReq {
            peer_port: 7,
            local_port: 0x1_0002
        })
    );
    let short = packet(Some(vec![0; 7]));
    assert_eq!(short.read_proxy_create(), None);
    assert_eq!(short.read_accept_req(), None);
    assert_eq!(short.read_release_req(), None);
    assert_eq!(short.read_getname_req(), None);
    assert_eq!(packet(None).read_proxy_create(), None);
}

#[test]
fn socket_addresses_are_read_from_the_data() {
    let mut bytes = vec![0u8; 8 + 16];
    bytes[0] = 9;
    bytes[4] = 16;
    bytes[8] = 2;
    bytes[10] = 0x1f;
    bytes[11] = 0x90;
    bytes[12..16].copy_from_slice(&[127, 0, 0, 1]);
    let p = packet(Some(bytes.clone()));
    let req = p.read_connect_req().unwrap();
    assert_eq!(req.peer_port, 9);
    assert_eq!(req.addr.bytes, bytes[8..].to_vec());
    assert_eq!(p.read_sendto_addr().unwrap().addr.bytes, bytes[8..].to_vec());

    // An unknown family, a length that is too short or beyond the buffer.
    for (i, value) in [(8, 99), (4, 1), (4, 17)] {
        let mut bad = bytes.clone();
        bad[i] = value;
        assert!(packet(Some(bad)).read_connect_req().is_none());
    }
    assert!(packet(Some(vec![0; 3])).read_connect_req().is_none());

    let mut listen = vec![0u8; 16 + 16];
    listen[4] = 80;
    listen[8..12].copy_from_slice(&(-1i32).to_le_bytes());
    listen[12] = 16;
    listen[16] = 10;
    let req = packet(Some(listen)).read_listen_req().unwrap();
    assert_eq!((req.peer_port, req.vm_port, req.backlog), (0, 80, -1));
    assert_eq!(req.addr.bytes.len(), 16);

    assert!(VsockPacket::validate_parse_address_len(8, 8));
    assert!(!VsockPacket::validate_parse_address_len(9, 8));
}

#[test]
fn addresses_in_the_data() {
    let mut bytes = vec![0u8; 108];
    bytes[0] = 1;
    bytes[2..8].copy_from_slice(b"/a/b.c");
    let p = packet(Some(bytes.clone()));
    assert_eq!(p.sa_family(), Some(1));
    assert_eq!(p.unix_path(), Some("/a/b.c".to_string()));
    assert_eq!(p.inet_port(), Some(0x2f61));
    assert_eq!(p.inet_addr(), Some([b'/', b'b', b'.', b'c']));

    // Not terminated, not text, too short.
    assert_eq!(packet(Some(vec![b'x'; 108])).unix_path(), None);
    bytes[3] = 0xff;
    assert_eq!(packet(Some(bytes)).unix_path(), None);
    assert_eq!(packet(Some(vec![0; 107])).unix_path(), None);
    assert_eq!(packet(Some(vec![0; 1])).sa_family(), None);
    assert_eq!(packet(Some(vec![0; 3])).inet_port(), None);
    assert_eq!(packet(None).inet_addr(), None);
}

#[test]
fn answers_are_written_to_the_data() {
    let mut p = packet(Some(vec![0xff; 8]));
    p.write_connect_rsp(TsiConnectRsp { result: -2 });
    assert_eq!(p.buf().unwrap()[..5], [0xfe, 0xff, 0xff, 0xff, 0xff]);
    p.write_listen_rsp(TsiListenRsp { result: 1 });
    assert_eq!(p.buf().unwrap()[..4], [1, 0, 0, 0]);
    p.write_accept_rsp(TsiAcceptRsp { result: 2 });
    assert_eq!(p.buf().unwrap()[..4], [2, 0, 0, 0]);
    p.write_time_sync(0x0102_0304_0506_0708);
    assert_eq!(p.buf().unwrap(), [8, 7, 6, 5, 4, 3, 2, 1]);
    let mut short = packet(Some(vec![9; 3]));
    short.write_connect_rsp(TsiConnectRsp { result: 0 });
    short.write_time_sync(0);
    assert_eq!(short.buf().unwrap(), [9; 3]);

    let rsp = TsiGetnameRsp::default();
    assert_eq!((rsp.result, rsp.addr_len), (-1, 16));
    assert_eq!(rsp.addr.bytes.len(), 128);
    assert_eq!(rsp.addr.bytes[..2], [2, 0]);
    let mut p = packet(Some(vec![0xff; 140]));
    p.write_getname_rsp(&rsp);
    let data = p.buf().unwrap();
    assert_eq!(data[..10], [0xff, 0xff, 0xff, 0xff, 16, 0, 0, 0, 2, 0]);
    assert_eq!(data[135], 0);
    assert_eq!(data[136], 0xff);
    let small = TsiGetnameRsp {
        result: 0,
        addr_len: 2,
        addr: SockAddr { bytes: vec![1, 0] },
    };
    let mut p = packet(Some(vec![0xff; 100]));
    p.write_getname_rsp(&small);
    assert_eq!(p.buf().unwrap(), [0xff; 100]);
}

/// A multiplexer with packets for the guest, which takes some packets of the guest.
struct Mux {
    pending: Vec<&'static [u8]>,
    room: usize,
    streams: Vec<u32>,
    datagrams: Vec<u32>,
}

fn mux(pending: Vec<&'static [u8]>, room: usize) -> RecordedMuxer<Mux> {
    RecordedMuxer::new(Mux {
        pending,
        room,
        streams: Vec::new(),
        datagrams: Vec::new(),
    })
}

impl VsockMuxer for Mux {
    fn recv_pkt(&mut self, pkt: &mut VsockPacket) -> bool {
        if self.pending.is_empty() {
            return false;
        }
        let data = self.pending.remove(0);
        pkt.set_src_cid(2).set_len(data.len() as u32);
        pkt.write_buf(0, data);
        true
    }

    fn send_stream_pkt(&mut self, pkt: &VsockPacket) -> bool {
        if self.room == 0 {
            return false;
        }
        self.room -= 1;
        self.streams.push(pkt.src_port());
        true
    }

    fn send_dgram_pkt(&mut self, pkt: &VsockPacket) -> bool {
        if self.room == 0 {
            return false;
        }
        self.room -= 1;
        self.datagrams.push(pkt.src_port());
        true
    }

    fn has_pending_rx(&self) -> bool {
        !self.pending.is_empty()
    }
}

#[test]
fn packets_go_through_the_device() {
    let m = memory();
    let mut mem = GuestMemory::new(m.clone());
    // Chain 0 holds no packet, chains 1 and 2 do.
    write_descriptor(&m, 0, HDR, 10, 0, 0);
    write_descriptor(&m, 1, HDR, 44, 0, 0);
    write_descriptor(&m, 2, HDR + 64, 44, 0, 0);
    m.write_obj(11u32, at(HDR + 16)).unwrap();
    m.write_obj(3u16, at(HDR + 28)).unwrap();
    m.write_obj(12u32, at(HDR + 64 + 16)).unwrap();
    m.write_obj(1u16, at(HDR + 64 + 28)).unwrap();
    let tx = queue(&m, &[0, 1, 2]);
    let mut vsock = Vsock::with_queues(3, vec![Queue::new(256), tx, Queue::new(256)]);
    assert_eq!(vsock.activate(), Ok(()));

    // The multiplexer has no room at first: only the broken chain is given back.
    let mut full = mux(Vec::new(), 0);
    assert!(vsock.process_stream_tx(&mut mem, &mut full));
    assert_eq!(used(&m, 0), (0, 0));
    assert_eq!(vsock.queues()[1].next_avail(), 1);
    assert_eq!(vsock.queues()[1].next_used(), 1);
    assert!(!vsock.process_stream_tx(&mut mem, &mut full));
    assert_eq!(vsock.queues()[1].next_avail(), 1);

    let mut free = mux(Vec::new(), 5);
    assert!(vsock.process_stream_tx(&mut mem, &mut free));
    assert_eq!(free.inner().datagrams, [11]);
    assert_eq!(free.inner().streams, [12]);
    assert_eq!(used(&m, 1), (1, 0));
    assert_eq!(used(&m, 2), (2, 0));
    assert_eq!(vsock.queues()[1].next_avail(), 3);
    assert!(!vsock.process_stream_tx(&mut mem, &mut free));
    assert!(full.inner().streams.is_empty());
}

#[test]
fn the_guest_receives_what_was_filled() {
    let m = memory();
    let mut mem = GuestMemory::new(m.clone());
    write_descriptor(&m, 0, HDR, 64, VIRTQ_DESC_F_WRITE, 0);
    write_descriptor(&m, 1, HDR + 64, 64, VIRTQ_DESC_F_WRITE, 0);
    let rx = queue(&m, &[0, 1]);
    let mut vsock = Vsock::with_queues(3, vec![rx, Queue::new(256), Queue::new(256)]);
    assert_eq!(vsock.activate(), Ok(()));
    assert!(!vsock.process_stream_rx(&mut mem, &mut mux(Vec::new(), 0)));
    assert_eq!(vsock.queues()[0].next_avail(), 0);

    // One packet for two buffers: the second buffer is kept.
    assert!(vsock.process_stream_rx(&mut mem, &mut mux(vec![b"data"], 0)));
    assert_eq!(used(&m, 0), (0, 48));
    assert_eq!(m.read_obj::<u64>(at(HDR)).unwrap(), 2);
    assert_eq!(m.read_obj::<[u8; 4]>(at(HDR + 44)).unwrap(), *b"data");
    assert_eq!(m.read_obj::<u64>(at(HDR + 64)).unwrap(), 0);
    assert_eq!(vsock.queues()[0].next_avail(), 1);
    assert_eq!(vsock.queues()[0].next_used(), 1);
}

/// A multiplexer that changes packets, moves them and does not fill them.
struct Restless;

impl VsockMuxer for Restless {
    fn recv_pkt(&mut self, pkt: &mut VsockPacket) -> bool {
        pkt.set_op(7);
        pkt.write_buf(0, b"gone");
        pkt.hdr_addr = GuestAddress(DATA);
        pkt.data_addr = GuestAddress(DATA + 64);
        false
    }

    fn send_stream_pkt(&mut self, _pkt: &VsockPacket) -> bool {
        false
    }

    fn send_dgram_pkt(&mut self, _pkt: &VsockPacket) -> bool {
        false
    }

    fn has_pending_rx(&self) -> bool {
        false
    }
}

#[test]
fn what_the_multiplexer_writes_is_in_the_buffers() {
    let m = memory();
    let mut mem = GuestMemory::new(m.clone());
    write_descriptor(&m, 0, HDR, 64, VIRTQ_DESC_F_WRITE, 0);
    let rx = queue(&m, &[0]);
    let mut vsock = Vsock::with_queues(3, vec![rx, Queue::new(256), Queue::new(256)]);
    assert_eq!(vsock.activate(), Ok(()));
    let mut muxer = RecordedMuxer::new(Restless);
    assert!(!vsock.process_stream_rx(&mut mem, &mut muxer));
    assert_eq!(vsock.queues()[0].next_avail(), 0);
    assert_eq!(m.read_obj::<u16>(at(HDR + 30)).unwrap(), 7);
    assert_eq!(m.read_obj::<[u8; 4]>(at(HDR + 44)).unwrap(), *b"gone");
    assert_eq!(m.read_obj::<[u8; 4]>(at(DATA)).unwrap(), [0; 4]);
    assert_eq!(m.read_obj::<[u8; 4]>(at(DATA + 64)).unwrap(), [0; 4]);
}

#[test]
fn sent_packets_are_answered_in_one_event() {
    let m = memory();
    let mut mem = GuestMemory::new(m.clone());
    write_descriptor(&m, 0, HDR, 64, VIRTQ_DESC_F_WRITE, 0);
    let rx = queue(&m, &[0]);
    let mut vsock = Vsock::with_queues(3, vec![rx, rx, Queue::new(256)]);
    assert_eq!(vsock.activate(), Ok(()));

    // Other events than readiness, and events that cannot be read, change nothing.
    assert!(!vsock.handle_rxq_event(5, true, &mut mem, &mut mux(vec![b"a"], 1)));
    assert!(!vsock.handle_rxq_event(1, false, &mut mem, &mut mux(vec![b"a"], 1)));
    assert!(!vsock.handle_txq_event(4, true, &mut mem, &mut mux(vec![b"a"], 1)));
    assert_eq!(vsock.queues()[0].next_avail(), 0);

    // The guest has sent nothing, but where a packet waits for it, it gets it.
    let mut waiting = mux(vec![b"abc"], 1);
    vsock.queue_tx.set_next_avail(1);
    assert!(vsock.handle_txq_event(1, true, &mut mem, &mut waiting));
    assert_eq!(used(&m, 0), (0, 47));
    assert_eq!(vsock.queues()[0].next_avail(), 1);
    assert!(!vsock.handle_txq_event(1, true, &mut mem, &mut waiting));

    vsock.queues_mut()[0].set_next_avail(9);
    assert_eq!(vsock.queues()[0].next_avail(), 9);
    vsock.write_config(0, &[1, 2]);
    assert_eq!(vsock.cid(), 3);
}

#[test]
fn bytes_of_packets_can_be_changed() {
    let mut p = packet(Some(vec![0; 10]));
    p.hdr_mut()[28] = 3;
    assert_eq!(p.type_(), 3);
    assert!(Vsock::is_datagram(&p));
    p.buf_mut().unwrap()[9] = 7;
    assert_eq!(p.buf().unwrap()[9], 7);
    assert!(packet(None).buf_mut().is_none());

    let req = TsiProxyCreate {
        peer_port: 0x0102_0304,
        family: 2,
        _type: 0x0506,
    };
    p.write_proxy_create(req);
    assert_eq!(p.buf().unwrap(), [4, 3, 2, 1, 2, 0, 6, 5, 0, 7]);
    let read = p.read_proxy_create().unwrap();
    assert_eq!((read.peer_port, read.family, read._type), (0x0102_0304, 2, 0x0506));
}

#[test]
fn vsock_device_basics() {
    let mut vsock = Vsock::new(0x1_0000_002a);
    assert_eq!(vsock.cid(), 0x1_0000_002a);
    assert_eq!(vsock.id(), "vsock");
    assert_eq!(vsock.device_name(), "vsock");
    assert_eq!(vsock.device_type(), 19);
    assert_eq!(vsock.avail_features(), defs::AVAIL_FEATURES);
    assert_eq!(vsock.queues().len(), 3);
    let mut whole = [0xff; 8];
    vsock.read_config(0, &mut whole);
    assert_eq!(u64::from_le_bytes(whole), 0x1_0000_002a);
    let mut half = [0xff; 4];
    vsock.read_config(0, &mut half);
    assert_eq!(half, [0x2a, 0, 0, 0]);
    vsock.read_config(4, &mut half);
    assert_eq!(half, [1, 0, 0, 0]);
    vsock.read_config(2, &mut half);
    assert_eq!(half, [1, 0, 0, 0]);

    vsock.set_acked_features(6);
    assert_eq!(vsock.acked_features(), 6);
    assert!(!vsock.begin_snapshot_quiesce());
    assert_eq!(vsock.activate(), Ok(()));
    assert!(vsock.is_activated());
    assert!(vsock.begin_snapshot_quiesce() && vsock.abort_snapshot_quiesce());
    vsock.queue_rx.set_next_avail(9);
    vsock.queue_tx.set_next_avail(8);
    vsock.sync_queues_for_snapshot();
    vsock.queue_rx = Queue::new(1);
    vsock.post_snapshot_restore();
    assert_eq!(vsock.queue_rx.next_avail(), 9);
    assert_eq!(vsock.queue_tx.next_avail(), 8);
    assert!(vsock.reset());
    assert!(!vsock.is_activated());
    vsock.queues.pop();
    assert_eq!(vsock.activate(), Err(BadActivate));
}

#[test]
fn vsock_events_are_told_apart() {
    let fds = VsockFds {
        activate: 1,
        rx: 2,
        tx: 3,
        events: 4,
    };
    assert_eq!(process(1, &fds, false), VsockEvent::Activate);
    assert_eq!(process(2, &fds, false), VsockEvent::Spurious);
    assert_eq!(process(2, &fds, true), VsockEvent::Rx);
    assert_eq!(process(3, &fds, true), VsockEvent::Tx);
    assert_eq!(process(4, &fds, true), VsockEvent::Events);
    assert_eq!(process(5, &fds, true), VsockEvent::Unexpected);
    assert!(is_queue_event(1));
    assert!(!is_queue_event(5));
}

#[test]
fn released_sockets_are_reaped() {
    assert_eq!(remaining_timeout(3, 10), Some(7));
    assert_eq!(remaining_timeout(10, 10), None);
    assert_eq!(reaper_wakeup_deadline(&[], 10), None);
    assert_eq!(reaper_wakeup_deadline(&[10, 12], 10), None);
    assert_eq!(reaper_wakeup_deadline(&[0], 5), Some(5));
    assert_eq!(reaper_wakeup_deadline(&[0, 12], 10), Some(10));
    assert_eq!(reaper_wakeup_deadline(&[1, 8, 3, 15], 10), Some(2));

    let mut reaper = Reaper::new();
    assert_eq!(reaper.check_expiration(0), (vec![], None));
    reaper.release(7, 1000);
    reaper.release(8, 2000);
    assert_eq!(
        reaper.check_expiration(3000),
        (vec![], Some(TIMEOUT_NS - 2000))
    );
    assert_eq!(
        reaper.check_expiration(1000 + TIMEOUT_NS),
        (vec![7], Some(1000))
    );
    assert_eq!(
        reaper.check_expiration(2000 + TIMEOUT_NS),
        (vec![8], None)
    );

    // A socket that was released just now has all of its time left.
    reaper.release(9, 9000);
    assert_eq!(reaper.check_expiration(9000), (vec![], Some(TIMEOUT_NS)));
    reaper.release(10, 9500);
    assert_eq!(reaper.check_expiration(9500), (vec![], Some(TIMEOUT_NS - 500)));
}
