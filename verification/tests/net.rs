//! The network device, its worker and the proxy.

use krun_devices::guest_memory::{GuestAddress, GuestMemory};
use krun_devices::net::backend::{AsyncNetBackend, RecordedBackend};
use krun_devices::net::device::{
    Net, NetStart, VirtioNetBackend, VirtioNetConfig, VIRTIO_F_VERSION_1, VIRTIO_NET_F_MAC,
};
use krun_devices::net::dissect::{format_tcp_flags, log_vm_packet_in, log_vm_packet_out};
use krun_devices::net::forward::{
    accept_step, after_read, after_recv, after_write, begin, host_event, next_step,
    poll_interest, AcceptOutcome, AcceptStep, Begin, HostEvent, HostStep, Interest, Phase,
    ReadOutcome, RecvOutcome, SocketOp, SocketStatus, WriteOutcome, PROXY_IP, VM_IP,
};
use krun_devices::net::frames::{strip_header, VIRTIO_NET_HDR_SIZE};
use krun_devices::net::phy::{Signals, VirtualDevice};
use krun_devices::net::proxy::ProxyNetWorker;
use krun_devices::net::reply::{datagram_with_sums, udp_reply};
use krun_devices::net::sessions::{
    classify, cleanup_due, Action, ConnKind, Endpoint, EphemeralPorts, EventSource, ProxyError,
    Session, Sessions,
};
use krun_devices::net::worker::{
    push_to_rx_queue, resync_queue, wait_ns, NetWorker, SharedQueues, StartupEvent, WorkerEvent,
    WorkerNext, WorkerStage,
};
use krun_devices::queue::{Queue, VIRTQ_DESC_F_NEXT, VIRTQ_DESC_F_WRITE};
use krun_devices::virtio_device::BadActivate;
use vm_memory::{Bytes, GuestMemoryMmap};

const DESC_TABLE_ADDR: u64 = 0x1000;
const AVAIL_RING_ADDR: u64 = 0x2000;
const USED_RING_ADDR: u64 = 0x3000;
const PKT_DATA_ADDR: u64 = 0x4000;

/// The second queue lies this much further up.
const SECOND: u64 = 0x8000;

fn at(addr: u64) -> vm_memory::GuestAddress {
    vm_memory::GuestAddress(addr)
}

fn memory() -> GuestMemoryMmap {
    GuestMemoryMmap::from_ranges(&[(at(0), 0x20000)]).unwrap()
}

fn write_descriptor(m: &GuestMemoryMmap, base: u64, i: u64, addr: u64, len: u32, flags: u16, next: u16) {
    let d = base + DESC_TABLE_ADDR + i * 16;
    m.write_obj(addr, at(d)).unwrap();
    m.write_obj(len, at(d + 8)).unwrap();
    m.write_obj(flags, at(d + 12)).unwrap();
    m.write_obj(next, at(d + 14)).unwrap();
}

/// A queue at `base` with the chains `heads` available.
fn setup_queue(m: &GuestMemoryMmap, base: u64, heads: &[u16]) -> Queue {
    m.write_obj(0u16, at(base + AVAIL_RING_ADDR)).unwrap();
    m.write_obj(heads.len() as u16, at(base + AVAIL_RING_ADDR + 2)).unwrap();
    for (i, head) in heads.iter().enumerate() {
        m.write_obj(*head, at(base + AVAIL_RING_ADDR + 4 + 2 * i as u64)).unwrap();
    }
    m.write_obj(0u16, at(base + USED_RING_ADDR)).unwrap();
    m.write_obj(0u16, at(base + USED_RING_ADDR + 2)).unwrap();
    let mut q = Queue::new(256);
    q.size = 256;
    q.ready = true;
    q.desc_table = GuestAddress(base + DESC_TABLE_ADDR);
    q.avail_ring = GuestAddress(base + AVAIL_RING_ADDR);
    q.used_ring = GuestAddress(base + USED_RING_ADDR);
    q
}

fn used(m: &GuestMemoryMmap, base: u64, i: u64) -> (u32, u32) {
    let e = base + USED_RING_ADDR + 4 + 8 * i;
    (m.read_obj(at(e)).unwrap(), m.read_obj(at(e + 4)).unwrap())
}

fn used_idx(m: &GuestMemoryMmap, base: u64) -> u16 {
    m.read_obj(at(base + USED_RING_ADDR + 2)).unwrap()
}

/// A frame with an IPv4 packet from 192.168.100.2:54321 to `dest`.
fn ipv4_frame(protocol: u8, dest: Endpoint, body: &[u8]) -> Vec<u8> {
    let mut frame = vec![
        0x02, 0x00, 0x00, 0x01, 0x02, 0x03, 0xde, 0xad, 0xbe, 0xef, 0x00, 0x00, 0x08, 0x00,
    ];
    let total = 20 + 4 + body.len();
    frame.extend_from_slice(&[0x45, 0, (total >> 8) as u8, total as u8, 0, 0, 0, 0, 64, protocol, 0, 0]);
    frame.extend_from_slice(&VM_IP.to_be_bytes());
    frame.extend_from_slice(&dest.addr.to_be_bytes());
    frame.extend_from_slice(&54321u16.to_be_bytes());
    frame.extend_from_slice(&dest.port.to_be_bytes());
    frame.extend_from_slice(body);
    frame
}

fn tcp_frame(flags: u8, dest: Endpoint, payload: &[u8]) -> Vec<u8> {
    let mut body = vec![0, 0, 0x03, 0xe8, 0, 0, 0, 7, 0x50, flags, 0xff, 0xff, 0, 0, 0, 0];
    body.extend_from_slice(payload);
    ipv4_frame(6, dest, &body)
}

fn udp_frame(dest: Endpoint, payload: &[u8]) -> Vec<u8> {
    let len = 8 + payload.len();
    let mut body = vec![(len >> 8) as u8, len as u8, 0, 0];
    body.extend_from_slice(payload);
    ipv4_frame(17, dest, &body)
}

const LOCALHOST: Endpoint = Endpoint {
    addr: 0x7f00_0001,
    port: 8080,
};

/// A backend that records its calls.
struct TrackingNetBackend {
    tx_received: Vec<Vec<u8>>,
    polls: usize,
    exited: bool,
    restored: Option<Vec<u8>>,
}

impl TrackingNetBackend {
    fn new() -> Self {
        TrackingNetBackend {
            tx_received: Vec::new(),
            polls: 0,
            exited: false,
            restored: None,
        }
    }
}

impl AsyncNetBackend for TrackingNetBackend {
    fn handle_guest_tx(&mut self, packet: &[u8]) {
        self.tx_received.push(packet.to_vec());
    }

    fn poll(&mut self) {
        self.polls += 1;
    }

    fn on_exit(&mut self) {
        self.exited = true;
    }

    fn save_snapshot_state(&self) -> Option<Vec<u8>> {
        Some(vec![1, 2, 3])
    }

    fn restore_snapshot_state(&mut self, data: &[u8]) {
        self.restored = Some(data.to_vec());
    }
}

#[test]
fn test_virtio_net_hdr_size() {
    assert_eq!(
        VIRTIO_NET_HDR_SIZE,
        std::mem::size_of::<virtio_bindings::virtio_net::virtio_net_hdr_v1>()
    );
}

#[test]
fn test_receive_raw_strips_header() {
    let m = memory();
    let mut mem = GuestMemory::new(m.clone());

    // A packet with header (12 bytes) + payload (5 bytes recognizable data).
    let mut data = vec![0u8; VIRTIO_NET_HDR_SIZE + 5];
    data[VIRTIO_NET_HDR_SIZE..].copy_from_slice(&[0xDE, 0xAD, 0xBE, 0xEF, 0x42]);
    m.write_slice(&data, at(PKT_DATA_ADDR)).unwrap();
    write_descriptor(&m, 0, 0, PKT_DATA_ADDR, (VIRTIO_NET_HDR_SIZE + 5) as u32, 0, 0);

    let tx_queue = setup_queue(&m, 0, &[0]);
    let rx_queue = Queue::new(256);
    let mut vdev = VirtualDevice::new(rx_queue, tx_queue);

    let result = vdev.receive_raw_from_guest(&mut mem);
    assert!(
        result.is_some(),
        "Header-stripped packet should return Some"
    );
    let payload = result.unwrap();
    assert_eq!(payload, vec![0xDE, 0xAD, 0xBE, 0xEF, 0x42]);
    assert_eq!(used_idx(&m, 0), 1);
    assert_eq!(used(&m, 0, 0), (0, 0));
    assert!(vdev.receive_raw_from_guest(&mut mem).is_none());
}

#[test]
fn test_receive_raw_header_only_no_panic() {
    let m = memory();
    let mut mem = GuestMemory::new(m.clone());

    let data = vec![0u8; VIRTIO_NET_HDR_SIZE];
    m.write_slice(&data, at(PKT_DATA_ADDR)).unwrap();
    write_descriptor(&m, 0, 0, PKT_DATA_ADDR, VIRTIO_NET_HDR_SIZE as u32, 0, 0);

    let tx_queue = setup_queue(&m, 0, &[0]);
    let rx_queue = Queue::new(256);
    let mut vdev = VirtualDevice::new(rx_queue, tx_queue);

    let result = vdev.receive_raw_from_guest(&mut mem);
    assert_eq!(
        result, None,
        "Header-only packet should return None; no panic"
    );
}

#[test]
fn test_tcp_syn_interception() {
    let mut table = Sessions::new(&vec![]);
    match table.intercept(&tcp_frame(0x02, LOCALHOST, &[]), 0) {
        Action::Connect { dest } => assert_eq!(dest, LOCALHOST),
        _ => panic!("TCP SYN packet should be intercepted"),
    }
    let token = table.open(ConnKind::Tcp, 7);
    let conn = table.conn(token);
    assert_eq!(
        conn.map(|c| (c.kind, c.last_activity)),
        Some((ConnKind::Tcp, 7)),
        "Socket count should increase after TCP SYN interception"
    );

    // Later segments are for the stack.
    assert!(matches!(
        table.intercept(&tcp_frame(0x10, LOCALHOST, b"x"), 0),
        Action::PassOn
    ));
    assert!(matches!(
        table.intercept(&tcp_frame(0x12, LOCALHOST, &[]), 0),
        Action::PassOn
    ));
    assert!(matches!(table.intercept(&[0; 13], 0), Action::PassOn));
}

#[test]
fn test_udp_nat_entry_created() {
    let mut table = Sessions::new(&vec![]);
    assert_eq!(table.nat_len(), 0, "NAT table should be empty initially");

    match table.intercept(&udp_frame(LOCALHOST, b"hello"), 0) {
        Action::OpenUdp { token, dest, payload } => {
            assert_eq!(token, 2);
            assert_eq!(dest, LOCALHOST);
            assert_eq!(payload, b"hello");
        }
        _ => panic!("a session should be opened"),
    }
    assert_eq!(
        table.nat_len(),
        1,
        "NAT table should have one entry after first UDP datagram"
    );
    assert_eq!(
        table.reply_to(2),
        Some(Endpoint {
            addr: VM_IP,
            port: 54321
        })
    );
}

#[test]
fn test_udp_nat_entry_reused() {
    let mut table = Sessions::new(&vec![]);
    table.intercept(&udp_frame(LOCALHOST, &[]), 0);
    assert_eq!(
        table.nat_len(),
        1,
        "NAT table should have one entry after first datagram"
    );

    match table.intercept(&udp_frame(LOCALHOST, b"again"), 5) {
        Action::Forward { token, dest, payload } => {
            assert_eq!(token, 2);
            assert_eq!(dest, LOCALHOST);
            assert_eq!(payload, b"again");
        }
        _ => panic!("the session should be used again"),
    }
    assert_eq!(
        table.nat_len(),
        1,
        "NAT table should still have one entry after second datagram to same endpoint"
    );
    assert_eq!(table.conn(2).unwrap().last_activity, 5);
}

#[test]
fn test_ephemeral_port_exhaustion() {
    let mut ports = EphemeralPorts::new();
    let result = ports.get_ephemeral_port(&vec![]);
    assert!(
        result.is_ok(),
        "Fresh ports should return Ok for get_ephemeral_port"
    );
    let port = result.unwrap();
    assert!(port >= 49152, "Port should be in ephemeral range");

    let error = ProxyError::EphemeralPortsExhausted;
    match error {
        ProxyError::EphemeralPortsExhausted => {}
    }

    const EPHEMERAL_PORT_MIN: u16 = 49152;
    const EPHEMERAL_PORT_MAX: u16 = 65535;
    assert!(EPHEMERAL_PORT_MAX > EPHEMERAL_PORT_MIN);
    assert_eq!(EPHEMERAL_PORT_MAX - EPHEMERAL_PORT_MIN + 1, 16384);

    let all: Vec<u16> = (EPHEMERAL_PORT_MIN..=EPHEMERAL_PORT_MAX).collect();
    assert_eq!(
        ports.get_ephemeral_port(&all),
        Err(ProxyError::EphemeralPortsExhausted)
    );
    // The search goes round the range.
    ports.next = 65535;
    assert_eq!(ports.get_ephemeral_port(&vec![65535, 49152]), Ok(49153));
    assert_eq!(ports.next, 49154);
}

/// Handles an event to its end. Gives the number of polls of the backend before each signal.
fn handle(
    worker: &mut NetWorker,
    event: WorkerEvent,
    shared: &SharedQueues,
    mem: &mut GuestMemory,
    backend: &mut RecordedBackend<TrackingNetBackend>,
) -> Vec<usize> {
    let mut signals = Vec::new();
    let mut out = worker.handle_event(event, shared, mem, backend);
    loop {
        if out.signal {
            signals.push(backend.inner().polls);
        }
        let WorkerNext::GoOn { stage } = out.next else {
            assert_eq!(out.next, WorkerNext::Run);
            return signals;
        };
        out = worker.go_on(stage, mem, backend);
    }
}

#[test]
fn test_quiesce_ack_resume() {
    let m = memory();
    let mut mem = GuestMemory::new(m.clone());
    let mut worker = NetWorker::new(Queue::new(256), Queue::new(256));
    let mut backend = RecordedBackend::new(TrackingNetBackend::new());
    let shared = SharedQueues {
        generation: 0,
        queues: None,
    };
    for _ in 0..2 {
        let out = worker.handle_event(WorkerEvent::Quiesce, &shared, &mut mem, &mut backend);
        assert_eq!(out.next, WorkerNext::Park);
        assert!(!out.signal);
        let published = out.publish.unwrap();
        assert_eq!(published.rx, Queue::new(256));
        assert_eq!(published.backend, Some(vec![1, 2, 3]));
    }
    let out = worker.handle_event(WorkerEvent::Stop, &shared, &mut mem, &mut backend);
    assert_eq!(out.next, WorkerNext::Stop);
    assert!(backend.inner().exited);
}

#[test]
fn unready_queues_need_not_be_in_memory() {
    let m = memory();
    let mut mem = GuestMemory::new(m.clone());
    let mut far = Queue::new(256);
    far.avail_ring = GuestAddress(0x9_0000);
    let mut worker = NetWorker::new(far, far);
    let none = SharedQueues {
        generation: 0,
        queues: None,
    };
    assert!(worker.is_ready_for(&WorkerEvent::Quiesce, &none, &mem));
    assert!(worker.is_ready_for(&WorkerEvent::Stop, &none, &mem));
    assert!(worker.is_ready_for(&WorkerEvent::Timer, &none, &mem));
    assert!(worker.is_ready_for(&WorkerEvent::TxReady, &none, &mem));
    assert!(worker.is_ready_at(WorkerStage::Look, &mem));
    assert!(!worker.is_ready_at(WorkerStage::Drain, &mem));
    assert!(worker.is_ready_at(WorkerStage::Poll, &mem));
    assert!(!worker.is_ready_for(&WorkerEvent::Packet { packet: vec![1] }, &none, &mem));

    // The queues that were published count, once.
    let near = setup_queue(&m, 0, &[]);
    let some = SharedQueues {
        generation: 1,
        queues: Some((near, near)),
    };
    assert!(worker.is_ready_for(&WorkerEvent::Packet { packet: vec![1] }, &some, &mem));
    worker.tx.ready = true;
    assert!(!worker.is_ready_at(WorkerStage::Look, &mem));
    worker.apply_shared_queue_state(&some, &mut mem);
    assert!(worker.is_ready_at(WorkerStage::Look, &mem));
    assert!(worker.is_ready_at(WorkerStage::Drain, &mem));

    // The index alone has to be there for a look at the queue.
    let mut edge = near;
    edge.avail_ring = GuestAddress(0x1_fffc);
    assert!(edge.is_countable(&mem) && !edge.is_readable(&mem));
    assert_eq!(edge.len(&mut mem), 0);
    assert!(edge.is_empty(&mut mem));
}

#[test]
fn frames_go_to_the_backend_and_back() {
    let m = memory();
    let mut mem = GuestMemory::new(m.clone());
    // Two chains to send: one in two pieces, one with a header alone.
    m.write_slice(&[0; 12], at(PKT_DATA_ADDR)).unwrap();
    m.write_slice(b"abc", at(PKT_DATA_ADDR + 0x100)).unwrap();
    write_descriptor(&m, 0, 0, PKT_DATA_ADDR, 12, VIRTQ_DESC_F_NEXT, 1);
    write_descriptor(&m, 0, 1, PKT_DATA_ADDR + 0x100, 3, 0, 0);
    write_descriptor(&m, 0, 2, PKT_DATA_ADDR, 12, 0, 0);
    let tx = setup_queue(&m, 0, &[0, 2]);
    // One chain to receive into, in two pieces.
    write_descriptor(
        &m,
        SECOND,
        0,
        SECOND + PKT_DATA_ADDR,
        10,
        VIRTQ_DESC_F_NEXT | VIRTQ_DESC_F_WRITE,
        1,
    );
    write_descriptor(&m, SECOND, 1, SECOND + PKT_DATA_ADDR + 0x100, 64, VIRTQ_DESC_F_WRITE, 0);
    let rx = setup_queue(&m, SECOND, &[0]);
    m.write_slice(&[0xff; 64], at(SECOND + PKT_DATA_ADDR)).unwrap();

    let mut worker = NetWorker::new(rx, tx);
    let mut backend = RecordedBackend::new(TrackingNetBackend::new());
    let shared = SharedQueues {
        generation: 0,
        queues: None,
    };
    let signals = handle(&mut worker, WorkerEvent::TxReady, &shared, &mut mem, &mut backend);
    // The driver is signalled before the backend is polled.
    assert_eq!(signals, [0]);
    assert_eq!(backend.inner().tx_received, vec![b"abc".to_vec()]);
    assert_eq!(backend.inner().polls, 1);
    assert_eq!(used_idx(&m, 0), 2);

    let packet = b"answer".to_vec();
    let event = WorkerEvent::Packet { packet };
    assert_eq!(handle(&mut worker, event, &shared, &mut mem, &mut backend), [1]);
    assert_eq!(backend.inner().polls, 1);
    assert_eq!(used(&m, SECOND, 0), (0, 18));
    let mut head = [0xff; 10];
    m.read_slice(&mut head, at(SECOND + PKT_DATA_ADDR)).unwrap();
    assert_eq!(head, [0; 10]);
    let mut rest = [0xff; 8];
    m.read_slice(&mut rest, at(SECOND + PKT_DATA_ADDR + 0x100)).unwrap();
    assert_eq!(&rest, b"\0\0answer");

    // No room is left.
    let event = WorkerEvent::Packet { packet: vec![1] };
    assert!(handle(&mut worker, event, &shared, &mut mem, &mut backend).is_empty());
    let mut rx = worker.rx;
    assert!(!push_to_rx_queue(&mut rx, &mut mem, &[1]));
}

#[test]
fn descriptors_are_read_behind_the_ones_before_them() {
    let m = memory();
    let mut mem = GuestMemory::new(m.clone());
    // The first buffer lies where the second descriptor is: once it is filled, that one is
    // no longer writable.
    let flags = VIRTQ_DESC_F_WRITE | VIRTQ_DESC_F_NEXT;
    write_descriptor(&m, 0, 0, DESC_TABLE_ADDR + 16, 16, flags, 1);
    write_descriptor(&m, 0, 1, PKT_DATA_ADDR, 100, VIRTQ_DESC_F_WRITE, 0);
    let mut rx = setup_queue(&m, 0, &[0]);
    assert!(push_to_rx_queue(&mut rx, &mut mem, &[0; 50]));
    assert_eq!(used(&m, 0, 0), (0, 16));

    // The same with a link of the proxy.
    write_descriptor(&m, SECOND, 0, SECOND + DESC_TABLE_ADDR + 16, 16, flags, 1);
    write_descriptor(&m, SECOND, 1, PKT_DATA_ADDR, 100, VIRTQ_DESC_F_WRITE, 0);
    let rx = setup_queue(&m, SECOND, &[0]);
    let tx = setup_queue(&m, 0, &[]);
    let mut link = VirtualDevice::new(rx, tx);
    link.transmit(&mut mem, &[0; 50]);
    assert_eq!(used(&m, SECOND, 0), (0, 16));
}

#[test]
fn chains_without_notification_are_found() {
    let m = memory();
    let mut mem = GuestMemory::new(m.clone());
    m.write_slice(&[7; 20], at(PKT_DATA_ADDR)).unwrap();
    write_descriptor(&m, 0, 0, PKT_DATA_ADDR, 20, 0, 0);
    let tx = setup_queue(&m, 0, &[0]);
    let rx = setup_queue(&m, SECOND, &[]);
    let mut worker = NetWorker::new(rx, tx);
    let mut backend = RecordedBackend::new(TrackingNetBackend::new());
    let shared = SharedQueues {
        generation: 0,
        queues: None,
    };
    let signals = handle(&mut worker, WorkerEvent::Wake, &shared, &mut mem, &mut backend);
    assert_eq!(signals, [1]);
    assert_eq!(backend.inner().tx_received, vec![vec![7; 8]]);
    assert_eq!(backend.inner().polls, 2);
    let signals = handle(&mut worker, WorkerEvent::Wake, &shared, &mut mem, &mut backend);
    assert!(signals.is_empty());
    assert_eq!(backend.poll_delay(), None);
    let signals = handle(&mut worker, WorkerEvent::Timer, &shared, &mut mem, &mut backend);
    assert_eq!(signals, [4]);
}

#[test]
fn the_driver_is_signalled_at_each_turn() {
    let m = memory();
    let mut mem = GuestMemory::new(m.clone());
    m.write_slice(&[7; 20], at(PKT_DATA_ADDR)).unwrap();
    write_descriptor(&m, 0, 0, PKT_DATA_ADDR, 20, 0, 0);
    let tx = setup_queue(&m, 0, &[0]);
    write_descriptor(&m, SECOND, 0, SECOND + PKT_DATA_ADDR, 64, VIRTQ_DESC_F_WRITE, 0);
    let rx = setup_queue(&m, SECOND, &[0]);
    let shared = SharedQueues {
        generation: 0,
        queues: None,
    };

    // Behind the packet for the guest, and again behind those from it.
    let mut worker = NetWorker::new(rx, tx);
    let mut backend = RecordedBackend::new(TrackingNetBackend::new());
    let event = WorkerEvent::Packet { packet: vec![1] };
    assert_eq!(handle(&mut worker, event, &shared, &mut mem, &mut backend), [0, 0]);
    assert_eq!(backend.inner().polls, 1);

    // On the timer before the queue is looked at, and again behind it.
    let mut worker = NetWorker::new(rx, tx);
    let mut backend = RecordedBackend::new(TrackingNetBackend::new());
    let out = worker.handle_event(WorkerEvent::Timer, &shared, &mut mem, &mut backend);
    assert!(out.signal);
    assert_eq!(out.next, WorkerNext::GoOn { stage: WorkerStage::Look });
    assert!(backend.inner().tx_received.is_empty());
    let out = worker.go_on(WorkerStage::Look, &mut mem, &mut backend);
    assert!(!out.signal);
    assert_eq!(out.next, WorkerNext::GoOn { stage: WorkerStage::Drain });
    let out = worker.go_on(WorkerStage::Drain, &mut mem, &mut backend);
    assert!(out.signal);
    assert_eq!(out.next, WorkerNext::GoOn { stage: WorkerStage::Poll });
    assert_eq!(backend.inner().tx_received, vec![vec![7; 8]]);
    let out = worker.go_on(WorkerStage::Poll, &mut mem, &mut backend);
    assert!(!out.signal);
    assert_eq!(out.next, WorkerNext::Run);
    assert_eq!(backend.inner().polls, 2);

    // A transmit queue that is not ready is neither looked at nor signalled for.
    worker.tx.ready = false;
    assert!(handle(&mut worker, WorkerEvent::Timer, &shared, &mut mem, &mut backend).is_empty());
}

#[test]
fn restored_queues_are_taken_over_once() {
    let m = memory();
    let mut mem = GuestMemory::new(m.clone());
    let tx = setup_queue(&m, 0, &[]);
    let rx = setup_queue(&m, SECOND, &[]);
    m.write_obj(4u16, at(SECOND + USED_RING_ADDR + 2)).unwrap();
    let mut worker = NetWorker::new(Queue::new(256), Queue::new(256));
    let mut backend = RecordedBackend::new(TrackingNetBackend::new());
    let shared = SharedQueues {
        generation: 1,
        queues: Some((rx, tx)),
    };
    let saved = Some(vec![9]);
    let event = WorkerEvent::Resync { saved };
    assert!(handle(&mut worker, event, &shared, &mut mem, &mut backend).is_empty());
    assert_eq!(backend.inner().restored, Some(vec![9]));
    assert_eq!(worker.applied_generation, 1);
    assert_eq!(worker.rx, resync_queue(rx, &mut mem));
    assert!(worker.tx.ready);

    worker.rx = Queue::new(256);
    worker.apply_shared_queue_state(&shared, &mut mem);
    assert_eq!(worker.rx, Queue::new(256));
}

#[test]
fn chains_are_handed_back_while_there_is_no_backend() {
    let m = memory();
    let mut mem = GuestMemory::new(m.clone());
    write_descriptor(&m, 0, 0, PKT_DATA_ADDR, 20, 0, 0);
    let tx = setup_queue(&m, 0, &[0]);
    let mut worker = NetWorker::new(setup_queue(&m, SECOND, &[]), tx);
    let out = worker.handle_startup_event(StartupEvent::TxReady, &mut mem);
    assert!(out.signal);
    assert_eq!(out.next, WorkerNext::Run);
    assert_eq!(used(&m, 0, 0), (0, 0));
    assert_eq!(used_idx(&m, 0), 1);
    let failed = worker.handle_startup_event(StartupEvent::Failed, &mut mem);
    assert_eq!(failed.next, WorkerNext::Stop);
}

#[test]
fn the_worker_waits_a_second_at_most() {
    assert_eq!(wait_ns(None), 1_000_000_000);
    assert_eq!(wait_ns(Some(5)), 5);
    assert_eq!(wait_ns(Some(999_999_999)), 999_999_999);
    assert_eq!(wait_ns(Some(5_000_000_000)), 1_000_000_000);
}

#[test]
fn the_link_carries_frames_of_the_stack() {
    let m = memory();
    let mut mem = GuestMemory::new(m.clone());
    write_descriptor(&m, SECOND, 0, SECOND + PKT_DATA_ADDR, 64, VIRTQ_DESC_F_WRITE, 0);
    let rx = setup_queue(&m, SECOND, &[0]);
    let tx = setup_queue(&m, 0, &[]);
    let mut link = VirtualDevice::new(rx, tx);
    assert!(link.can_transmit(&mut mem));
    link.transmit(&mut mem, b"frame");
    assert_eq!(used(&m, SECOND, 0), (0, 17));
    let mut got = [0xff; 17];
    m.read_slice(&mut got, at(SECOND + PKT_DATA_ADDR)).unwrap();
    assert_eq!(&got[12..], b"frame");
    assert_eq!(got[..12], [0; 12]);
    assert!(!link.can_transmit(&mut mem));

    assert_eq!(
        link.end_round(&mut mem).unwrap(),
        Signals { rx: true, tx: true }
    );
    link.rx.set_event_idx(true);
    link.tx.set_event_idx(true);
    assert_eq!(
        link.end_round(&mut mem).unwrap(),
        Signals {
            rx: true,
            tx: false
        }
    );
    link.rx.used_ring = GuestAddress(0x9_0000);
    assert!(link.end_round(&mut mem).is_err());

    link.keep(vec![1]);
    link.keep(vec![2]);
    assert_eq!(link.receive(), Some(vec![1]));
    assert_eq!(link.receive(), Some(vec![2]));
    assert_eq!(link.receive(), None);
    assert_eq!(strip_header(vec![0; 12]), None);
    assert_eq!(strip_header(vec![5; 13]), Some(vec![5]));
}

#[test]
fn net_devices_offer_their_address() {
    let mut net = Net::new(
        "eth0".to_string(),
        VirtioNetBackend::UnixstreamFd(3),
        [1, 2, 3, 4, 5, 6],
        0x80,
        256,
    );
    assert_eq!(net.id(), "eth0");
    assert_eq!(net.device_type(), 1);
    assert_eq!(net.device_name(), "net");
    assert_eq!(
        net.avail_features(),
        0x80 | VIRTIO_NET_F_MAC | VIRTIO_F_VERSION_1
    );
    assert_eq!(net.queues().len(), 2);
    net.write_config(0, &[9; 6]);
    net.queues_mut()[1].set_next_used(4);
    assert_eq!(net.queues()[1].next_used(), 4);
    let mut data = [0xff; 12];
    net.read_config(0, &mut data);
    assert_eq!(data, [1, 2, 3, 4, 5, 6, 0, 0, 0, 0, 0xff, 0xff]);
    let mut tail = [0xff; 2];
    net.read_config(5, &mut tail);
    assert_eq!(tail, [6, 0]);
    let config = VirtioNetConfig::from_slice(&data[..10]).unwrap();
    assert_eq!(config.to_bytes(), data[..10].to_vec());
    assert!(VirtioNetConfig::from_slice(&data).is_none());
}

#[test]
fn net_devices_start_by_their_backend() {
    let queues = vec![Queue::new(8), Queue::new(16)];
    let mut net = Net::new(
        "a".to_string(),
        VirtioNetBackend::Tap("tap0".to_string()),
        [0; 6],
        0,
        256,
    );
    assert!(matches!(net.activate(&vec![Queue::new(8)]), Err(BadActivate)));
    match net.activate(&queues).unwrap() {
        NetStart::Sync { rx, tx, backend } => {
            assert_eq!((rx.max_size, tx.max_size), (8, 16));
            assert_eq!(backend, VirtioNetBackend::Tap("tap0".to_string()));
        }
        _ => panic!("a worker with a backend"),
    }
    assert!(!net.is_activated());
    assert_eq!(net.finish_activation(false), Err(BadActivate));
    assert_eq!(net.finish_activation(true), Ok(()));
    assert!(net.is_activated());
    assert!(net.backend().is_some());
    assert!(!net.begin_snapshot_quiesce());

    let mut net = Net::new(
        "b".to_string(),
        VirtioNetBackend::CustomAsyncFactory,
        [0; 6],
        0,
        256,
    );
    assert!(matches!(
        net.activate(&queues),
        Ok(NetStart::Async { .. })
    ));
    assert!(net.is_activated());
    assert!(net.backend().is_none());
    assert!(net.begin_snapshot_quiesce());
    assert!(net.abort_snapshot_quiesce());
    // The factory is used up.
    assert!(net.activate(&queues).is_err());

    let generation = net.shared.generation;
    net.sync_queues_for_snapshot();
    assert_eq!(net.queues()[1].max_size, 16);
    net.restore_backend_state(&[4, 5]);
    assert_eq!(net.save_backend_state(), Some(vec![4, 5]));
    net.post_snapshot_restore();
    assert_ne!(net.shared.generation, generation);
    assert_eq!(
        VirtioNetBackend::UnixgramPath("p".to_string(), true).duplicate(),
        VirtioNetBackend::UnixgramPath("p".to_string(), true)
    );
}

#[test]
fn frames_are_described() {
    let syn = tcp_frame(0x02, LOCALHOST, b"xy");
    assert_eq!(
        log_vm_packet_in(&syn).describe(),
        "[VM|IN] IP 192.168.100.2.54321 > 127.0.0.1.8080: Flags [S], seq 1000, ack 7, win 65535, len 2"
    );
    let udp = udp_frame(LOCALHOST, b"abc");
    assert_eq!(
        log_vm_packet_out(&udp).describe(),
        "[VM|OUT] IP 192.168.100.2.54321 > 127.0.0.1.8080: len 11 (de:ad:be:ef:00:00 > 02:00:00:01:02:03)"
    );
    let icmp = ipv4_frame(1, LOCALHOST, &[]);
    assert_eq!(
        log_vm_packet_in(&icmp).describe(),
        format!(
            "[VM|IN] IPv4 192.168.100.2 > 127.0.0.1: proto {} (de:ad:be:ef:00:00 > 02:00:00:01:02:03)",
            pnet::packet::ip::IpNextHeaderProtocol(1)
        )
    );
    let mut arp = vec![0u8; 42];
    arp[12] = 0x08;
    arp[13] = 0x06;
    arp[21] = 1;
    arp[28..32].copy_from_slice(&VM_IP.to_be_bytes());
    arp[38..42].copy_from_slice(&PROXY_IP.to_be_bytes());
    assert_eq!(
        log_vm_packet_in(&arp).describe(),
        "[VM|IN] ARP, request, who has 192.168.100.1? Tell 192.168.100.2"
    );
    let mut v6 = vec![0u8; 54];
    v6[12] = 0x86;
    v6[13] = 0xdd;
    v6[20] = 58;
    v6[37] = 1;
    assert_eq!(
        log_vm_packet_in(&v6).describe(),
        format!(
            "[VM|IN] IPv6 ::1 > ::: proto {}",
            pnet::packet::ip::IpNextHeaderProtocol(58)
        )
    );
    let mut other = vec![0u8; 14];
    other[12] = 0x88;
    other[13] = 0xcc;
    assert_eq!(
        log_vm_packet_in(&other).describe(),
        format!(
            "[VM|IN] Unknown L3 protocol: {}",
            pnet::packet::ethernet::EtherType(0x88cc)
        )
    );
    assert_eq!(
        log_vm_packet_in(&[0; 5]).describe(),
        "[VM|IN] Ethernet packet (parse failed)"
    );
    assert_eq!(format_tcp_flags(0x3f), "S.FRPU");
    assert_eq!(format_tcp_flags(0), "");
}

#[test]
fn truncated_packets_are_described() {
    let mut short_ip = ipv4_frame(6, LOCALHOST, &[]);
    short_ip.truncate(30);
    assert_eq!(
        log_vm_packet_in(&short_ip).describe(),
        "[VM|IN] IPv4 packet (parse failed)"
    );
    assert_eq!(
        log_vm_packet_in(&ipv4_frame(6, LOCALHOST, &[])).describe(),
        "[VM|IN] IP 192.168.100.2 > 127.0.0.1: TCP (parse failed)"
    );
    assert_eq!(
        log_vm_packet_in(&ipv4_frame(17, LOCALHOST, &[])).describe(),
        "[VM|IN] IP 192.168.100.2 > 127.0.0.1: UDP (parse failed)"
    );
    assert!(matches!(
        classify(&ipv4_frame(17, LOCALHOST, &[])),
        Session::Other
    ));
}

#[test]
fn replies_have_valid_checksums() {
    let from = LOCALHOST;
    let to = Endpoint {
        addr: VM_IP,
        port: 54321,
    };
    let packet = udp_reply(from, to, b"odd");
    assert_eq!(packet.len(), 31);
    assert_eq!(packet[..4], [0x45, 0, 0, 31]);
    assert_eq!(packet[8..10], [64, 17]);
    assert_eq!(packet[12..20], [127, 0, 0, 1, 192, 168, 100, 2]);
    assert_eq!(packet[20..26], [0x1f, 0x90, 0xd4, 0x31, 0, 11]);
    assert_eq!(&packet[28..], b"odd");

    // Sums of 16-bit words are all ones where the checksum fits.
    let fold = |mut sum: u32| {
        while sum > 0xffff {
            sum = (sum & 0xffff) + (sum >> 16);
        }
        sum
    };
    let words = |bytes: &[u8]| -> u32 {
        bytes
            .chunks(2)
            .map(|c| (c[0] as u32) << 8 | *c.get(1).unwrap_or(&0) as u32)
            .sum()
    };
    assert_eq!(fold(words(&packet[..20])), 0xffff);
    assert_eq!(fold(words(&packet[12..20]) + 17 + 11 + words(&packet[20..])), 0xffff);
    assert_eq!(datagram_with_sums(from, to, b"odd", 0, 0)[10..12], [0, 0]);

    assert_eq!(
        after_recv(
            RecvOutcome::Datagram {
                from,
                payload: b"odd".to_vec()
            },
            to
        ),
        Some(packet)
    );
    assert_eq!(after_recv(RecvOutcome::WouldBlock, to), None);
}

#[test]
fn idle_sessions_expire() {
    let mut table = Sessions::new(&vec![80, 443]);
    assert_eq!(table.next_token(), 4);
    assert_eq!(table.source(0), EventSource::TxQueue);
    assert_eq!(table.source(1), EventSource::RxQueue);
    assert_eq!(table.source(3), EventSource::Listener { port: 443 });
    assert_eq!(table.source(4), EventSource::Host);

    table.intercept(&udp_frame(LOCALHOST, &[]), 1000);
    let tcp = table.open(ConnKind::Tcp, 0);
    assert!(table.expire(31_000).is_empty());
    assert_eq!(table.expire(31_001), vec![4]);
    assert_eq!(table.nat_len(), 0);
    assert_eq!(table.reply_to(4), None);
    assert!(table.conn(tcp).is_some());

    assert!(!cleanup_due(5000, 0));
    assert!(cleanup_due(5001, 0));
    assert!(!cleanup_due(0, 5001));

    table.finish(tcp, true, true, 99);
    assert_eq!(table.conn(tcp).unwrap().last_activity, 99);
    table.finish(tcp, false, false, 99);
    assert!(table.conn(tcp).is_none());
}

#[test]
fn host_events_are_told_apart() {
    let mut table = Sessions::new(&vec![]);
    table.intercept(&udp_frame(LOCALHOST, &[]), 0);
    let stream = table.open(ConnKind::Unix, 0);
    let guest = Endpoint {
        addr: VM_IP,
        port: 54321,
    };
    assert_eq!(host_event(&table, 2, true), HostEvent::Datagrams { guest });
    assert_eq!(host_event(&table, 2, false), HostEvent::Idle);
    assert_eq!(host_event(&table, stream, false), HostEvent::Stream);
    assert_eq!(host_event(&table, 77, true), HostEvent::Ignore);
}

#[test]
fn connections_are_accepted() {
    let mut table = Sessions::new(&vec![22]);
    let mut ports = EphemeralPorts::new();
    let step = accept_step(
        AcceptOutcome::Accepted,
        22,
        &mut ports,
        &vec![49152],
        &mut table,
        0,
    );
    assert_eq!(
        step,
        AcceptStep::Connect {
            token: 3,
            local: Endpoint {
                addr: PROXY_IP,
                port: 49153
            },
            remote: Endpoint {
                addr: VM_IP,
                port: 22
            },
        }
    );
    assert_eq!(table.conn(3).unwrap().kind, ConnKind::Unix);
    let all: Vec<u16> = (49152..=65535).collect();
    assert_eq!(
        accept_step(AcceptOutcome::Accepted, 22, &mut ports, &all, &mut table, 0),
        AcceptStep::Refuse
    );
    assert_eq!(
        accept_step(AcceptOutcome::WouldBlock, 22, &mut ports, &vec![], &mut table, 0),
        AcceptStep::Stop
    );
}

const OPEN: SocketStatus = SocketStatus {
    closed: false,
    active: true,
    may_send: true,
    may_recv: true,
    can_send: true,
    can_recv: true,
    send_capacity: 3000,
    send_queue: 0,
};

#[test]
fn streams_are_forwarded_step_by_step() {
    assert_eq!(begin(&SocketStatus { closed: true, ..OPEN }, true, true), Begin::Remove);
    assert_eq!(begin(&SocketStatus { active: false, ..OPEN }, true, true), Begin::Wait);
    let half_open = SocketStatus {
        may_send: false,
        may_recv: false,
        ..OPEN
    };
    assert_eq!(begin(&half_open, true, true), Begin::Wait);
    let reading = Begin::Run {
        phase: Phase::Reading,
    };
    assert_eq!(begin(&OPEN, true, true), reading);
    assert_eq!(
        begin(&OPEN, false, false),
        Begin::Run {
            phase: Phase::Settling
        }
    );

    assert_eq!(
        next_step(Phase::Reading, &OPEN, true),
        (Phase::Reading, HostStep::ReadHost { limit: 2048 })
    );
    let nearly_full = SocketStatus {
        send_queue: 2990,
        ..OPEN
    };
    assert_eq!(
        next_step(Phase::Reading, &nearly_full, true),
        (Phase::Reading, HostStep::ReadHost { limit: 10 })
    );
    let full = SocketStatus {
        can_send: false,
        ..OPEN
    };
    assert_eq!(
        next_step(Phase::Reading, &full, true),
        (Phase::Writing, HostStep::WriteHost)
    );
    assert_eq!(
        next_step(Phase::Reading, &full, false),
        (Phase::Settling, HostStep::Register { writable: true })
    );

    assert_eq!(after_read(ReadOutcome::Data, true), (Phase::Reading, SocketOp::Send));
    assert_eq!(after_read(ReadOutcome::Eof, true), (Phase::Writing, SocketOp::Close));
    assert_eq!(
        after_read(ReadOutcome::WouldBlock, false),
        (Phase::Settling, SocketOp::Nothing)
    );
    assert_eq!(
        after_read(ReadOutcome::Failed, false),
        (Phase::Settling, SocketOp::Abort)
    );

    let wrote = after_write(WriteOutcome::Wrote { count: 5 }, 9);
    assert_eq!((wrote.phase, wrote.consumed, wrote.abort), (Phase::Writing, 5, false));
    let none = after_write(WriteOutcome::Wrote { count: 0 }, 9);
    assert_eq!((none.phase, none.consumed), (Phase::Settling, 0));
    let failed = after_write(WriteOutcome::Failed, 9);
    assert_eq!((failed.consumed, failed.abort), (9, true));
    let blocked = after_write(WriteOutcome::WouldBlock, 9);
    assert_eq!((blocked.consumed, blocked.abort), (0, false));
    assert!(after_write(WriteOutcome::SocketFailed, 9).abort);

    assert_eq!(
        poll_interest(true, true),
        Some(Interest {
            readable: true,
            writable: true
        })
    );
    assert_eq!(
        poll_interest(true, false),
        Some(Interest {
            readable: false,
            writable: true
        })
    );
    assert_eq!(poll_interest(false, false), None);
}

#[test]
fn rounds_of_the_proxy() {
    let m = memory();
    let mut mem = GuestMemory::new(m.clone());
    let frames = [
        tcp_frame(0x02, LOCALHOST, &[]),
        tcp_frame(0x10, LOCALHOST, b"later"),
        udp_frame(LOCALHOST, b"hi"),
    ];
    for (i, frame) in frames.iter().enumerate() {
        let place = PKT_DATA_ADDR + 0x100 * i as u64;
        m.write_slice(frame, at(place + 12)).unwrap();
        write_descriptor(&m, 0, i as u64, place, 12 + frame.len() as u32, 0, 0);
    }
    let rx = setup_queue(&m, SECOND, &[]);
    let tx = setup_queue(&m, 0, &[0, 1, 2]);
    let mut proxy = ProxyNetWorker::new(rx, tx, &vec![80], 1000);
    assert_eq!(proxy.sessions.source(2), EventSource::Listener { port: 80 });

    // Notifications of the queue are off while its event is handled.
    assert!(proxy.silence(EventSource::Host, &mut mem).is_ok());
    assert_eq!(m.read_obj::<u16>(at(USED_RING_ADDR)).unwrap(), 0);
    assert!(proxy.silence(EventSource::TxQueue, &mut mem).is_ok());
    assert_eq!(m.read_obj::<u16>(at(USED_RING_ADDR)).unwrap(), 1);
    assert!(proxy.silence(EventSource::RxQueue, &mut mem).is_ok());
    assert_eq!(m.read_obj::<u16>(at(SECOND + USED_RING_ADDR)).unwrap(), 1);

    match proxy.take_frame(&mut mem, 1000) {
        Some(Action::Connect { dest }) => assert_eq!(dest, LOCALHOST),
        _ => panic!("a connection should be opened"),
    }
    assert!(proxy.device.receive().is_none());
    assert!(matches!(proxy.take_frame(&mut mem, 1000), Some(Action::PassOn)));
    assert_eq!(proxy.device.receive(), Some(frames[1].clone()));
    match proxy.take_frame(&mut mem, 1000) {
        Some(Action::OpenUdp { token, dest, payload }) => {
            assert_eq!((token, dest, payload.as_slice()), (3, LOCALHOST, &b"hi"[..]));
        }
        _ => panic!("a session should be opened"),
    }
    assert!(proxy.take_frame(&mut mem, 1000).is_none());
    assert_eq!(used_idx(&m, 0), 3);

    // The session is stale after half a minute; nobody looks before five seconds are over.
    assert!(proxy.clean_up(6000).is_empty());
    assert_eq!(proxy.last_cleanup, 1000);
    assert!(proxy.clean_up(31_000).is_empty());
    assert_eq!(proxy.last_cleanup, 31_000);
    assert!(proxy.clean_up(36_000).is_empty());
    assert_eq!(proxy.clean_up(36_001), [3]);
    assert!(proxy.sessions.conn(3).is_none());
    assert_eq!(proxy.sessions.nat_len(), 0);
}
