//! Requests and responses of the clock device, and the loop that serves them.
use vstd::prelude::*;

use super::uapi;
use crate::byte_order;
use crate::byte_order::{read_le_u16, write_le_u16, write_le_u64};
use crate::guest_memory;
use crate::guest_memory::{GuestAddress, GuestMemory, MemOp};
use crate::queue;
use crate::queue::{DescriptorChain, Error, Queue};

verus! {

/// Index of the request queue.
pub const REQ_INDEX: usize = 0;

/// The features that the device offers: virtio version 1.
pub const AVAIL_FEATURES: u64 = 0x1_0000_0000;

/// The number of clocks: UTC alone.
pub const NUM_CLOCKS: u16 = 1;

pub const RTC_DEV_ID: &'static str = "virtio_rtc";

pub const NUM_QUEUES: usize = 1;

pub const QUEUE_SIZE: u16 = 64;

/// A 16-bit integer in little-endian order.
#[derive(Clone, Copy, Debug)]
pub struct Le16 {
    bytes: [u8; 2],
}

impl View for Le16 {
    type V = u16;

    closed spec fn view(&self) -> u16 {
        byte_order::le_u16(self.bytes@)
    }
}

impl Le16 {
    pub fn new(n: u16) -> (res: Le16)
        ensures
            res@ == n,
    {
        let mut bytes: [u8; 2] = [0, 0];
        let ghost zero = bytes@;
        write_le_u16(&mut bytes, n);
        proof {
            byte_order::write_then_read_u16(zero, n);
        }
        Le16 { bytes }
    }

    pub fn to_native(&self) -> (res: u16)
        ensures
            res == self@,
    {
        read_le_u16(&self.bytes)
    }

    fn append_to(&self, out: &mut Vec<u8>)
        ensures
            final(out)@ == old(out)@ + byte_order::le16_bytes(self@),
    {
        out.push(self.bytes[0]);
        out.push(self.bytes[1]);
        proof {
            assert(out@ =~= old(out)@ + byte_order::le16_bytes(self@));
        }
    }
}

/// A 64-bit integer in little-endian order.
#[derive(Clone, Copy, Debug)]
pub struct Le64 {
    bytes: [u8; 8],
}

impl View for Le64 {
    type V = Seq<u8>;

    closed spec fn view(&self) -> Seq<u8> {
        self.bytes@
    }
}

impl Le64 {
    pub fn new(n: u64) -> (res: Le64)
        ensures
            res@ == byte_order::le64_bytes(n),
    {
        let mut bytes: [u8; 8] = [0, 0, 0, 0, 0, 0, 0, 0];
        write_le_u64(&mut bytes, n);
        proof {
            assert(bytes@ =~= byte_order::le64_bytes(n));
        }
        Le64 { bytes }
    }

    fn append_to(&self, out: &mut Vec<u8>)
        ensures
            final(out)@ == old(out)@ + self@,
    {
        let mut i: usize = 0;
        while i < 8
            invariant
                i <= 8,
                out@ == old(out)@ + self@.take(i as int),
                self@.len() == 8,
            decreases 8 - i,
        {
            out.push(self.bytes[i]);
            i += 1;
            proof {
                assert(self@.take(i as int) =~= self@.take(i - 1).push(self@[i - 1]));
            }
        }
        proof {
            assert(self@.take(8) =~= self@);
        }
    }
}

/// A request header.
#[derive(Clone, Copy, Debug)]
pub struct ReqHead {
    pub msg_type: Le16,
    pub reserved: [u8; 6],
}

impl ReqHead {
    /// Reads a header from its eight bytes.
    pub fn from_bytes(bytes: &[u8]) -> (res: ReqHead)
        requires
            bytes@.len() == 8,
        ensures
            res.msg_type@ == byte_order::le_u16(bytes@),
            res.reserved@ == bytes@.skip(2),
    {
        let res = ReqHead {
            msg_type: Le16 { bytes: [bytes[0], bytes[1]] },
            reserved: [bytes[2], bytes[3], bytes[4], bytes[5], bytes[6], bytes[7]],
        };
        proof {
            assert(res.reserved@ =~= bytes@.skip(2));
        }
        res
    }
}

/// A response header.
#[derive(Clone, Copy, Debug)]
pub struct RespHead {
    pub status: u8,
    pub reserved: [u8; 7],
}

impl RespHead {
    pub open spec fn bytes(&self) -> Seq<u8> {
        seq![self.status] + self.reserved@
    }

    pub fn new(status: u8) -> (res: RespHead)
        ensures
            res.bytes() == head_bytes(status),
    {
        let res = RespHead { status, reserved: [0, 0, 0, 0, 0, 0, 0] };
        proof {
            assert(res.bytes() =~= head_bytes(status));
        }
        res
    }

    pub fn to_bytes(&self) -> (res: Vec<u8>)
        ensures
            res@ == self.bytes(),
    {
        let mut out: Vec<u8> = vec![self.status];
        let mut i: usize = 0;
        while i < 7
            invariant
                i <= 7,
                out@ == seq![self.status] + self.reserved@.take(i as int),
            decreases 7 - i,
        {
            out.push(self.reserved[i]);
            i += 1;
            proof {
                assert(self.reserved@.take(i as int) =~= self.reserved@.take(i - 1).push(
                    self.reserved@[i - 1],
                ));
            }
        }
        proof {
            assert(self.reserved@.take(7) =~= self.reserved@);
        }
        out
    }
}

/// A response header with a status and nothing else.
pub open spec fn head_bytes(status: u8) -> Seq<u8> {
    seq![status] + byte_order::zeros(7)
}

/// The response to a configuration request.
#[derive(Clone, Copy, Debug)]
pub struct RespCfg {
    pub head: RespHead,
    pub num_clocks: Le16,
    pub padding: [u8; 6],
}

impl RespCfg {
    pub fn to_bytes(&self) -> (res: Vec<u8>)
        ensures
            res@ == self.head.bytes() + byte_order::le16_bytes(self.num_clocks@) + self.padding@,
    {
        let mut out = self.head.to_bytes();
        self.num_clocks.append_to(&mut out);
        append_bytes(&mut out, &self.padding);
        out
    }
}

/// The body of a clock capability request.
#[derive(Clone, Copy, Debug)]
pub struct ReqClockCap {
    pub clock_id: Le16,
    pub padding: [u8; 6],
}

/// The response to a clock capability request.
#[derive(Clone, Copy, Debug)]
pub struct RespClockCap {
    pub head: RespHead,
    pub clock_type: Le16,
    pub flags: u8,
    pub reserved: [u8; 5],
}

impl RespClockCap {
    pub fn to_bytes(&self) -> (res: Vec<u8>)
        ensures
            res@ == self.head.bytes() + byte_order::le16_bytes(self.clock_type@) + seq![self.flags]
                + self.reserved@,
    {
        let mut out = self.head.to_bytes();
        self.clock_type.append_to(&mut out);
        out.push(self.flags);
        append_bytes(&mut out, &self.reserved);
        proof {
            assert(out@ =~= self.head.bytes() + byte_order::le16_bytes(self.clock_type@)
                + seq![self.flags] + self.reserved@);
        }
        out
    }
}

/// The body of a read request.
#[derive(Clone, Copy, Debug)]
pub struct ReqRead {
    pub clock_id: Le16,
    pub padding: [u8; 6],
}

/// The response to a read request.
#[derive(Clone, Copy, Debug)]
pub struct RespRead {
    pub head: RespHead,
    pub clock_ns: Le64,
}

impl RespRead {
    pub fn to_bytes(&self) -> (res: Vec<u8>)
        ensures
            res@ == self.head.bytes() + self.clock_ns@,
    {
        let mut out = self.head.to_bytes();
        self.clock_ns.append_to(&mut out);
        out
    }
}

/// The body of a cross timestamp capability request.
#[derive(Clone, Copy, Debug)]
pub struct ReqCrossCap {
    pub clock_id: Le16,
    pub hw_counter: u8,
    pub padding: [u8; 5],
}

/// The response to a cross timestamp capability request; bit 0 of the flags says that
/// cross timestamps are supported.
#[derive(Clone, Copy, Debug)]
pub struct RespCrossCap {
    pub head: RespHead,
    pub flags: u8,
    pub reserved: [u8; 7],
}

impl RespCrossCap {
    pub fn to_bytes(&self) -> (res: Vec<u8>)
        ensures
            res@ == self.head.bytes() + seq![self.flags] + self.reserved@,
    {
        let mut out = self.head.to_bytes();
        out.push(self.flags);
        append_bytes(&mut out, &self.reserved);
        proof {
            assert(out@ =~= self.head.bytes() + seq![self.flags] + self.reserved@);
        }
        out
    }
}

/// The body of a cross timestamp request.
#[derive(Clone, Copy, Debug)]
pub struct ReqReadCross {
    pub clock_id: Le16,
    pub hw_counter: u8,
    pub padding: [u8; 5],
}

/// The response to a cross timestamp request.
#[derive(Clone, Copy, Debug)]
pub struct RespReadCross {
    pub head: RespHead,
    pub clock_ns: Le64,
    pub counter_value: Le64,
}

impl RespReadCross {
    pub fn to_bytes(&self) -> (res: Vec<u8>)
        ensures
            res@ == self.head.bytes() + self.clock_ns@ + self.counter_value@,
    {
        let mut out = self.head.to_bytes();
        self.clock_ns.append_to(&mut out);
        self.counter_value.append_to(&mut out);
        out
    }
}

fn append_bytes(out: &mut Vec<u8>, bytes: &[u8])
    ensures
        final(out)@ == old(out)@ + bytes@,
{
    let mut i: usize = 0;
    while i < bytes.len()
        invariant
            i <= bytes@.len(),
            out@ == old(out)@ + bytes@.take(i as int),
        decreases bytes@.len() - i,
    {
        out.push(bytes[i]);
        i += 1;
        proof {
            assert(bytes@.take(i as int) =~= bytes@.take(i - 1).push(bytes@[i - 1]));
        }
    }
    proof {
        assert(bytes@.take(i as int) =~= bytes@);
    }
}

/// The hardware counter that cross timestamps on an x86-64 host would use.
pub fn supported_counter_id() -> (res: u16)
    ensures
        res == uapi::VIRTIO_RTC_COUNTER_X86_TSC,
{
    uapi::VIRTIO_RTC_COUNTER_X86_TSC
}

/// The frequency of the time stamp counter in Hz, from what the processor reports: the
/// crystal clock `ecx` times the ratio `ebx / eax` of leaf 0x15; failing that the base
/// frequency in MHz of leaf 0x16; failing that 2.4 GHz.
pub fn counter_freq(eax: u32, ebx: u32, ecx: u32, base_mhz: u32) -> (res: u64)
    ensures
        res == if eax != 0 && ebx != 0 && ecx != 0 {
            (ecx * ebx) / eax as int
        } else if base_mhz != 0 {
            base_mhz * 1_000_000
        } else {
            2_400_000_000
        },
{
    if eax != 0 && ebx != 0 && ecx != 0 {
        assert(ecx as u64 * ebx as u64 <= 0xffff_ffff * 0xffff_ffff) by (nonlinear_arith)
            requires
                ecx as u64 <= 0xffff_ffff,
                ebx as u64 <= 0xffff_ffff,
        ;
        (ecx as u64 * ebx as u64) / eax as u64
    } else if base_mhz != 0 {
        base_mhz as u64 * 1_000_000
    } else {
        2_400_000_000
    }
}

/// `std::time::SystemTime`, a reading of the host's clock.
#[verifier::external_type_specification]
#[verifier::external_body]
pub struct ExSystemTime(std::time::SystemTime);

/// Calls `SystemTime::now`. Nothing is claimed of the reading.
#[verifier::external_body]
fn host_time() -> std::time::SystemTime {
    std::time::SystemTime::now()
}

/// Calls `SystemTime::duration_since` for the Unix epoch, with nothing in place of the error,
/// which comes where the clock stands before it. Nothing is claimed of the span, which rests
/// on the clock.
#[verifier::external_body]
fn since_epoch(time: std::time::SystemTime) -> Option<std::time::Duration> {
    time.duration_since(std::time::UNIX_EPOCH).ok()
}

/// Calls `Duration::as_nanos`. Nothing is claimed of the number, which rests on the clock that
/// the span was taken from.
#[verifier::external_body]
fn nanoseconds(span: std::time::Duration) -> u128 {
    span.as_nanos()
}

/// Whether `reading` came from the host's clock: the clock was read, the span from the epoch
/// to that time was taken, and `reading` is that span in nanoseconds, or nothing where the
/// clock stands before the epoch.
pub closed spec fn is_reading(reading: Option<u128>) -> bool {
    exists|time: std::time::SystemTime, span: Option<std::time::Duration>|
        {
            &&& #[trigger] call_ensures(host_time, (), time)
            &&& #[trigger] call_ensures(since_epoch, (time,), span)
            &&& match span {
                Some(span) => reading matches Some(ns) && call_ensures(nanoseconds, (span,), ns),
                None => reading is None,
            }
        }
}

/// The clock value for a reading of the host's clock: its low 64 bits, or zero where the clock
/// stands before the epoch.
pub open spec fn clock_value(reading: Option<u128>) -> u64 {
    match reading {
        Some(ns) => (ns % 0x1_0000_0000_0000_0000) as u64,
        None => 0,
    }
}

/// Whether `ns` is a time of the host's clock: the value for a reading of it.
pub open spec fn is_time(ns: u64) -> bool {
    exists|reading: Option<u128>| #[trigger] is_reading(reading) && ns == clock_value(reading)
}

/// Whether the request type is followed by a body with a clock number.
pub open spec fn names_a_clock(msg_type: u16) -> bool {
    msg_type == uapi::VIRTIO_RTC_REQ_CLOCK_CAP || msg_type == uapi::VIRTIO_RTC_REQ_READ
}

/// The status of a request for clock `clock_id`.
pub open spec fn clock_status(clock_id: u16) -> u8 {
    if clock_id == 0 {
        uapi::VIRTIO_RTC_S_OK
    } else {
        uapi::VIRTIO_RTC_S_EINVAL
    }
}

/// The response to a request of type `msg_type` for clock `clock_id` at `now_ns`.
pub open spec fn response_to(msg_type: u16, clock_id: u16, now_ns: u64) -> Seq<u8> {
    if msg_type == uapi::VIRTIO_RTC_REQ_CFG {
        head_bytes(uapi::VIRTIO_RTC_S_OK) + byte_order::le16_bytes(NUM_CLOCKS) + byte_order::zeros(6)
    } else if msg_type == uapi::VIRTIO_RTC_REQ_CLOCK_CAP {
        head_bytes(clock_status(clock_id)) + byte_order::le16_bytes(uapi::VIRTIO_RTC_CLOCK_UTC)
            + seq![
            if clock_id == 0 {
                uapi::VIRTIO_RTC_FLAG_LEAP_SECOND_INFO
            } else {
                0
            },
        ] + byte_order::zeros(5)
    } else if msg_type == uapi::VIRTIO_RTC_REQ_READ {
        head_bytes(clock_status(clock_id)) + byte_order::le64_bytes(
            if clock_id == 0 {
                now_ns
            } else {
                0
            },
        )
    } else if msg_type == uapi::VIRTIO_RTC_REQ_CROSS_CAP {
        head_bytes(uapi::VIRTIO_RTC_S_OK) + seq![0u8] + byte_order::zeros(7)
    } else if msg_type == uapi::VIRTIO_RTC_REQ_READ_CROSS {
        head_bytes(uapi::VIRTIO_RTC_S_EOPNOTSUPP) + byte_order::le64_bytes(0)
            + byte_order::le64_bytes(0)
    } else {
        head_bytes(uapi::VIRTIO_RTC_S_EINVAL)
    }
}

/// The clock that a request names in its body; an unreadable body names clock 0.
pub open spec fn clock_in(msg_type: u16, body: Option<Seq<u8>>) -> u16 {
    match body {
        Some(b) => if names_a_clock(msg_type) {
            byte_order::le_u16(b)
        } else {
            0
        },
        None => 0,
    }
}

/// Whether serving the request in `chain` took the log from `before` to `after` and wrote
/// `written` bytes. The first descriptor holds the request, the second takes the response. A
/// request to read the clock is answered with a time of the host's clock.
pub open spec fn answer_step(
    regions: Seq<(u64, u64)>,
    chain: Seq<DescriptorChain>,
    before: Seq<MemOp>,
    after: Seq<MemOp>,
    written: u32,
) -> bool {
    if chain.len() < 2 {
        after == before && written == 0
    } else {
        let head = after[before.len() as int]->bytes;
        let log1 = before.push(MemOp::Read { addr: chain[0].addr.0, len: 8, bytes: head });
        &&& guest_memory::reads_as(regions, chain[0].addr.0, 8, head)
        &&& match head {
            None => after == log1 && written == 0,
            Some(h) => {
                let msg_type = byte_order::le_u16(h);
                let body = after[before.len() as int + 1]->bytes;
                let log2 = if names_a_clock(msg_type) {
                    log1.push(
                        MemOp::Read {
                            addr: (chain[0].addr.0 + 8) as u64,
                            len: 8,
                            bytes: body,
                        },
                    )
                } else {
                    log1
                };
                &&& names_a_clock(msg_type) ==> guest_memory::reads_as(
                    regions,
                    (chain[0].addr.0 + 8) as u64,
                    8,
                    body,
                )
                &&& exists|now_ns: u64|
                    {
                        let data = #[trigger] response_to(
                            msg_type,
                            clock_in(msg_type, body),
                            now_ns,
                        );
                        let ok = guest_memory::span_mapped(
                            regions,
                            chain[1].addr.0,
                            data.len() as int,
                        );
                        &&& msg_type == uapi::VIRTIO_RTC_REQ_READ && clock_in(msg_type, body)
                            == 0 ==> is_time(now_ns)
                        &&& after == log2.push(
                            MemOp::Write { addr: chain[1].addr.0, data, written: ok },
                        )
                        &&& written == if ok {
                            data.len() as int
                        } else {
                            0
                        }
                    }
            },
        }
    }
}

/// What happened while one chain was served.
pub struct Round {
    pub head: DescriptorChain,
    pub popped: Queue,
    pub after_pop: Seq<MemOp>,
    pub chain: Seq<DescriptorChain>,
    pub after_walk: Seq<MemOp>,
    pub after_answer: Seq<MemOp>,
    pub written: u32,
    pub used: Result<(), Error>,
}

/// Whether `round` took the queue and the log from `from` to `to`: a chain is popped,
/// walked, answered, and handed back with the number of bytes written.
pub open spec fn round_step(
    regions: Seq<(u64, u64)>,
    from: (Queue, Seq<MemOp>),
    round: Round,
    to: (Queue, Seq<MemOp>),
) -> bool {
    &&& queue::pop_step(
        regions,
        from.0,
        from.1,
        round.popped,
        round.after_pop,
        Some(round.head),
    )
    &&& queue::walk_step(
        regions,
        round.head,
        round.after_pop,
        round.after_walk,
        round.chain,
    )
    &&& answer_step(regions, round.chain, round.after_walk, round.after_answer, round.written)
    &&& queue::add_used_step(
        regions,
        round.popped,
        round.after_answer,
        to.0,
        to.1,
        round.head.index,
        round.written,
        round.used,
    )
}

/// Whether step `i` of `run` serves a chain.
pub open spec fn serves_at(
    regions: Seq<(u64, u64)>,
    run: Seq<(Queue, Seq<MemOp>)>,
    i: int,
) -> bool {
    exists|round: Round| #[trigger] round_step(regions, run[i], round, run[i + 1])
}

/// Whether `run` serves one chain after the other from `start` on.
pub open spec fn serves_all(
    regions: Seq<(u64, u64)>,
    start: (Queue, Seq<MemOp>),
    run: Seq<(Queue, Seq<MemOp>)>,
) -> bool {
    &&& run.len() >= 1
    &&& run[0] == start
    &&& forall|i: int| 0 <= i < run.len() - 1 ==> #[trigger] serves_at(regions, run, i)
}

/// Whether serving requests takes the queue and the log from `from` to `to`: one after the
/// other, until there are no more or there were 2^64 - 1; `have_used` if there were any.
pub open spec fn serves(
    regions: Seq<(u64, u64)>,
    from: (Queue, Seq<MemOp>),
    to: (Queue, Seq<MemOp>),
    have_used: bool,
) -> bool {
    exists|run: Seq<(Queue, Seq<MemOp>)>|
        {
            &&& #[trigger] serves_all(regions, from, run)
            &&& have_used == (run.len() > 1)
            &&& if run.len() - 1 < u64::MAX {
                queue::pop_step(regions, run.last().0, run.last().1, to.0, to.1, None)
            } else {
                to == run.last()
            }
        }
}

/// The clock device.
pub struct Rtc {
    pub queues: Vec<Queue>,
    pub avail_features: u64,
    pub acked_features: u64,
    pub activated: bool,
}

impl Rtc {
    /// A device with the given queues, not active yet.
    pub fn with_queues(queues: Vec<Queue>) -> (res: Rtc)
        ensures
            res.queues@ == queues@,
            res.avail_features == AVAIL_FEATURES,
            res.acked_features == 0,
            !res.activated,
    {
        Rtc { queues, avail_features: AVAIL_FEATURES, acked_features: 0, activated: false }
    }

    /// A device with one empty queue, not active yet.
    pub fn new() -> (res: Rtc)
        ensures
            res.queues@ == seq![queue::empty_queue(QUEUE_SIZE)],
            res.avail_features == AVAIL_FEATURES,
            res.acked_features == 0,
            !res.activated,
    {
        Rtc::with_queues(vec![Queue::new(QUEUE_SIZE)])
    }

    pub fn id(&self) -> (res: &'static str)
        ensures
            res@ == RTC_DEV_ID@,
    {
        RTC_DEV_ID
    }

    /// The status of a request for clock `clock_id`: only clock 0, UTC, is there.
    pub fn validate_clock_id(clock_id: u16) -> (res: u8)
        ensures
            res == clock_status(clock_id),
    {
        if clock_id == 0 {
            uapi::VIRTIO_RTC_S_OK
        } else {
            uapi::VIRTIO_RTC_S_EINVAL
        }
    }

    /// The clock value for a reading of the host's clock: its low 64 bits, or zero where
    /// the clock stands before the epoch.
    pub fn utc_ns_of(reading: Option<u128>) -> (res: u64)
        ensures
            res == clock_value(reading),
    {
        match reading {
            Some(ns) => (ns % 0x1_0000_0000_0000_0000) as u64,
            None => 0,
        }
    }

    /// The current UTC time in nanoseconds since the epoch: the clock value for a reading of
    /// the host's clock. Which reading that is, the clock alone decides.
    pub fn get_utc_ns() -> (res: u64)
        ensures
            is_time(res),
    {
        let time = host_time();
        let span = since_epoch(time);
        let reading: Option<u128> = match span {
            Some(span) => Some(nanoseconds(span)),
            None => None,
        };
        assert(is_reading(reading));
        Rtc::utc_ns_of(reading)
    }

    /// The cross timestamp for a time read between two counter readings: the time, and
    /// the counter in the middle.
    pub fn cross_timestamp(cnt1: u64, time_ns: u64, cnt2: u64) -> (res: (u64, u64))
        ensures
            res.0 == time_ns,
            res.1 == (cnt1 + cnt2) / 2,
    {
        (time_ns, ((cnt1 as u128 + cnt2 as u128) / 2) as u64)
    }

    /// The response to a request.
    pub fn response(msg_type: u16, clock_id: u16, now_ns: u64) -> (res: Vec<u8>)
        ensures
            res@ == response_to(msg_type, clock_id, now_ns),
            8 <= res@.len() <= 24,
    {
        if msg_type == uapi::VIRTIO_RTC_REQ_CFG {
            let resp = RespCfg {
                head: RespHead::new(uapi::VIRTIO_RTC_S_OK),
                num_clocks: Le16::new(NUM_CLOCKS),
                padding: [0, 0, 0, 0, 0, 0],
            };
            proof {
                assert(resp.padding@ =~= byte_order::zeros(6));
            }
            resp.to_bytes()
        } else if msg_type == uapi::VIRTIO_RTC_REQ_CLOCK_CAP {
            let status: u8 = Rtc::validate_clock_id(clock_id);
            let resp = RespClockCap {
                head: RespHead::new(status),
                clock_type: Le16::new(uapi::VIRTIO_RTC_CLOCK_UTC),
                flags: if status == uapi::VIRTIO_RTC_S_OK {
                    uapi::VIRTIO_RTC_FLAG_LEAP_SECOND_INFO
                } else {
                    0
                },
                reserved: [0, 0, 0, 0, 0],
            };
            proof {
                assert(resp.reserved@ =~= byte_order::zeros(5));
            }
            resp.to_bytes()
        } else if msg_type == uapi::VIRTIO_RTC_REQ_READ {
            let status: u8 = Rtc::validate_clock_id(clock_id);
            let clock_ns: u64 = if status == uapi::VIRTIO_RTC_S_OK {
                now_ns
            } else {
                0
            };
            let resp = RespRead { head: RespHead::new(status), clock_ns: Le64::new(clock_ns) };
            resp.to_bytes()
        } else if msg_type == uapi::VIRTIO_RTC_REQ_CROSS_CAP {
            // Cross timestamps are not offered.
            let resp = RespCrossCap {
                head: RespHead::new(uapi::VIRTIO_RTC_S_OK),
                flags: 0,
                reserved: [0, 0, 0, 0, 0, 0, 0],
            };
            proof {
                assert(resp.reserved@ =~= byte_order::zeros(7));
            }
            resp.to_bytes()
        } else if msg_type == uapi::VIRTIO_RTC_REQ_READ_CROSS {
            let resp = RespReadCross {
                head: RespHead::new(uapi::VIRTIO_RTC_S_EOPNOTSUPP),
                clock_ns: Le64::new(0),
                counter_value: Le64::new(0),
            };
            resp.to_bytes()
        } else {
            RespHead::new(uapi::VIRTIO_RTC_S_EINVAL).to_bytes()
        }
    }
}

impl Rtc {
    /// Serves the request in `chain` and gives the number of bytes written to it.
    pub fn answer(chain: &Vec<DescriptorChain>, mem: &mut GuestMemory) -> (written: u32)
        ensures
            final(mem).regions() == old(mem).regions(),
            final(mem).backed() == old(mem).backed(),
            answer_step(
                old(mem).regions(),
                chain@,
                old(mem).log(),
                final(mem).log(),
                written,
            ),
    {
        // One descriptor for the request, one for the response.
        if chain.len() < 2 {
            return 0;
        }
        let ghost log0 = mem.log();
        let req_desc = chain[0];
        let resp_desc = chain[1];
        let req_head = match mem.read(req_desc.addr, 8) {
            Ok(bytes) => ReqHead::from_bytes(bytes.as_slice()),
            Err(_) => return 0,
        };
        let ghost log1 = mem.log();
        let msg_type: u16 = req_head.msg_type.to_native();
        let mut clock_id: u16 = 0;
        if msg_type == uapi::VIRTIO_RTC_REQ_CLOCK_CAP || msg_type == uapi::VIRTIO_RTC_REQ_READ {
            clock_id = match mem.read(GuestAddress(req_desc.addr.0 + 8), 8) {
                Ok(bytes) => read_le_u16(bytes.as_slice()),
                Err(_) => 0,
            };
        }
        let now_ns: u64 = if msg_type == uapi::VIRTIO_RTC_REQ_READ && clock_id == 0 {
            Rtc::get_utc_ns()
        } else {
            0
        };
        let resp = Rtc::response(msg_type, clock_id, now_ns);
        let ghost asked = mem.log();
        let sent = mem.write(resp.as_slice(), resp_desc.addr);
        proof {
            let body = mem.log()[log0.len() as int + 1]->bytes;
            assert(mem.log()[log0.len() as int] == log1[log0.len() as int]);
            assert(names_a_clock(msg_type) ==> body == asked.last()->bytes);
            assert(resp@ == response_to(msg_type, clock_in(msg_type, body), now_ns));
        }
        match sent {
            Ok(()) => resp.len() as u32,
            Err(_) => 0,
        }
    }

    /// Whether the device may serve requests: it is active, and the available ring of its
    /// queue can be read.
    pub open spec fn can_serve(&self, regions: Seq<(u64, u64)>) -> bool {
        &&& self.activated
        &&& self.queues@.len() == NUM_QUEUES
        &&& self.queues@[0].readable_in(regions)
    }

    /// Serves the requests that the driver made available, until there are no more;
    /// `true` if there were any. A run ends after 2^64 - 1 chains in any case.
    pub fn process_req(&mut self, mem: &mut GuestMemory) -> (have_used: bool)
        requires
            old(self).can_serve(old(mem).regions()),
        ensures
            final(mem).regions() == old(mem).regions(),
            final(mem).backed() == old(mem).backed(),
            final(self).can_serve(final(mem).regions()),
            final(self).avail_features == old(self).avail_features,
            final(self).acked_features == old(self).acked_features,
            serves(
                old(mem).regions(),
                (old(self).queues@[0], old(mem).log()),
                (final(self).queues@[0], final(mem).log()),
                have_used,
            ),
    {
        let mut queue: Queue = self.queues[REQ_INDEX];
        let ghost regions = mem.regions();
        let ghost start = (queue, mem.log());
        let ghost mut run: Seq<(Queue, Seq<MemOp>)> = seq![start];
        let mut have_used = false;
        let mut budget: u64 = u64::MAX;
        let mut drained = false;
        while budget > 0
            invariant_except_break
                (queue, mem.log()) == run.last(),
                !drained,
            invariant
                regions == mem.regions(),
                mem.backed() == old(mem).backed(),
                queue.readable_in(regions),
                serves_all(regions, start, run),
                have_used == (run.len() > 1),
                run.len() - 1 == u64::MAX - budget,
            ensures
                drained ==> budget > 0 && queue::pop_step(
                    regions,
                    run.last().0,
                    run.last().1,
                    queue,
                    mem.log(),
                    None,
                ),
                !drained ==> budget == 0 && (queue, mem.log()) == run.last(),
            decreases budget,
        {
            let ghost from = run.last();
            let head = match queue.pop(mem) {
                Some(head) => head,
                None => {
                    drained = true;
                    break;
                },
            };
            let ghost popped = queue;
            let ghost after_pop = mem.log();
            let index: u16 = head.index;
            let descriptors = head.into_iter(mem);
            let ghost after_walk = mem.log();
            let written: u32 = Rtc::answer(&descriptors.items, mem);
            let ghost after_answer = mem.log();
            let used = queue.add_used(mem, index, written);
            have_used = true;
            budget -= 1;
            proof {
                let round = Round {
                    head,
                    popped,
                    after_pop,
                    chain: descriptors@,
                    after_walk,
                    after_answer,
                    written,
                    used,
                };
                let to = (queue, mem.log());
                assert(round_step(regions, from, round, to));
                let longer = run.push(to);
                assert forall|i: int| 0 <= i < longer.len() - 1 implies #[trigger] serves_at(
                    regions,
                    longer,
                    i,
                ) by {
                    if i < run.len() - 1 {
                        assert(serves_at(regions, run, i));
                        assert(longer[i] == run[i] && longer[i + 1] == run[i + 1]);
                    } else {
                        assert(longer[i] == from && longer[i + 1] == to);
                    }
                }
                run = longer;
            }
        }
        self.queues.set(REQ_INDEX, queue);
        have_used
    }

    pub fn avail_features(&self) -> (res: u64)
        ensures
            res == self.avail_features,
    {
        self.avail_features
    }

    pub fn acked_features(&self) -> (res: u64)
        ensures
            res == self.acked_features,
    {
        self.acked_features
    }

    pub fn set_acked_features(&mut self, acked_features: u64)
        ensures
            final(self).acked_features == acked_features,
            final(self).avail_features == old(self).avail_features,
            final(self).queues@ == old(self).queues@,
            final(self).activated == old(self).activated,
    {
        self.acked_features = acked_features;
    }

    pub fn device_type(&self) -> (res: u32)
        ensures
            res == uapi::VIRTIO_ID_CLOCK,
    {
        uapi::VIRTIO_ID_CLOCK
    }

    pub fn device_name(&self) -> (res: &'static str)
        ensures
            res@ == "rtc"@,
    {
        "rtc"
    }

    pub fn queues(&self) -> (res: &Vec<Queue>)
        ensures
            res@ == self.queues@,
    {
        &self.queues
    }

    /// There is no configuration space: nothing is read from it.
    pub fn read_config(&self, _offset: u64, data: &mut [u8])
        ensures
            final(data)@ == old(data)@,
    {
    }

    /// What the guest writes to the configuration space changes nothing.
    pub fn write_config(&mut self, _offset: u64, _data: &[u8])
        ensures
            *final(self) == *old(self),
    {
    }

    pub fn queues_mut(&mut self) -> (res: &mut [Queue])
        ensures
            res@ == old(self).queues@,
            final(self).queues@ == final(res)@,
            *final(self) == (Rtc { queues: final(self).queues, ..*old(self) }),
    {
        self.queues.as_mut_slice()
    }

    pub fn is_activated(&self) -> (res: bool)
        ensures
            res == self.activated,
    {
        self.activated
    }

    /// Takes over the queues that the driver configured: `false`, with nothing changed,
    /// unless there is exactly one.
    pub fn activate(&mut self, queues: Vec<Queue>) -> (res: bool)
        ensures
            res == (queues@.len() == NUM_QUEUES),
            final(self).avail_features == old(self).avail_features,
            final(self).acked_features == old(self).acked_features,
            res ==> final(self).queues@ == queues@ && final(self).activated,
            !res ==> final(self).queues@ == old(self).queues@ && final(self).activated == old(
                self,
            ).activated,
    {
        if queues.len() != NUM_QUEUES {
            return false;
        }
        self.queues = queues;
        self.activated = true;
        true
    }

    /// The device has no state to reset.
    pub fn reset(&mut self) -> (res: bool)
        ensures
            res,
            *final(self) == *old(self),
    {
        true
    }
}

/// Every request gets a response that begins with a status and is eight bytes or more;
/// requests for a clock other than UTC are refused as invalid, in both kinds alike.
pub proof fn responses_carry_a_status(msg_type: u16, clock_id: u16, now_ns: u64)
    ensures
        response_to(msg_type, clock_id, now_ns).len() >= 8,
        names_a_clock(msg_type) ==> response_to(msg_type, clock_id, now_ns)[0] == clock_status(
            clock_id,
        ),
        clock_status(clock_id) == uapi::VIRTIO_RTC_S_OK <==> clock_id == 0,
        clock_status(clock_id) == uapi::VIRTIO_RTC_S_OK || clock_status(clock_id)
            == uapi::VIRTIO_RTC_S_EINVAL,
{
}

/// What is answered, byte by byte. A request for the configuration says that there is one clock.
/// One for the capabilities of a clock says UTC with leap seconds for clock 0. One to read clock
/// 0 gives the time in eight bytes, little-endian. Both are refused for every other clock.
/// Cross timestamps are said not to be there, and one is refused. Anything else is refused.
pub proof fn requests_are_answered_byte_by_byte(msg_type: u16, clock_id: u16, now_ns: u64, i: int)
    ensures
        ({
            let r = response_to(msg_type, clock_id, now_ns);
            &&& 1 <= i < 8 ==> r[i] == 0
            &&& msg_type == 0x1000 ==> r.len() == 16 && r[0] == 0 && r[8] == 1 && r[9] == 0 && (10
                <= i < 16 ==> r[i] == 0)
            &&& msg_type == 0x1001 && clock_id == 0 ==> r.len() == 16 && r[0] == 0 && r[8] == 0
                && r[9] == 0 && r[10] == 1 && (11 <= i < 16 ==> r[i] == 0)
            &&& msg_type == 0x1001 && clock_id != 0 ==> r.len() == 16 && r[0] == 4 && (8 <= i < 16
                ==> r[i] == 0)
            &&& msg_type == 1 && clock_id == 0 ==> r.len() == 16 && r[0] == 0 && byte_order::le_u64(
                r.skip(8),
            ) == now_ns
            &&& msg_type == 1 && clock_id != 0 ==> r.len() == 16 && r[0] == 4 && (8 <= i < 16
                ==> r[i] == 0)
            &&& msg_type == 0x1002 ==> r.len() == 16 && r[0] == 0 && (8 <= i < 16 ==> r[i] == 0)
            &&& msg_type == 2 ==> r.len() == 24 && r[0] == 2 && (8 <= i < 24 ==> r[i] == 0)
            &&& msg_type != 0x1000 && msg_type != 0x1001 && msg_type != 1 && msg_type != 0x1002
                && msg_type != 2 ==> r.len() == 8 && r[0] == 4
        }),
{
    let r = response_to(msg_type, clock_id, now_ns);
    if msg_type == 1 && clock_id == 0 {
        let b = byte_order::le64_bytes(now_ns);
        assert(r.skip(8) =~= b);
        byte_order::write_then_read_u64(b, now_ns);
        assert(byte_order::overlay(b, 0, b) =~= b);
    }
}

/// The time that is given is a reading of the host's clock, as it is where that fits in 64 bits.
/// It is zero where the clock stands before the epoch.
pub proof fn times_are_readings(ns: u128)
    ensures
        ns <= u64::MAX ==> clock_value(Some(ns)) == ns,
        clock_value(None) == 0,
{
}

/// A request is served with two buffers. The first holds its type in its first two bytes and, for
/// a clock, the number of that from its ninth byte on. The answer goes to the second buffer, and
/// its length is reported if it could be written. With fewer buffers, or a request that cannot be
/// read, nothing is written.
pub proof fn requests_are_served_in_their_chain(
    regions: Seq<(u64, u64)>,
    chain: Seq<DescriptorChain>,
    before: Seq<MemOp>,
    after: Seq<MemOp>,
    written: u32,
)
    requires
        answer_step(regions, chain, before, after, written),
    ensures
        chain.len() < 2 ==> after == before && written == 0,
        chain.len() >= 2 ==> {
            &&& after.len() >= before.len() + 1
            &&& after[before.len() as int] matches MemOp::Read { addr, len, bytes: head }
            &&& addr == chain[0].addr.0 && len == 8
            &&& head is None ==> after.len() == before.len() + 1 && written == 0
            &&& head matches Some(h) ==> {
                let kind = h[0] + 256 * h[1];
                let reads = kind == 1 || kind == 0x1001;
                let at = if reads {
                    before.len() as int + 2
                } else {
                    before.len() as int + 1
                };
                &&& after.len() == at + 1
                &&& reads ==> (after[before.len() as int + 1] matches MemOp::Read { addr, len, .. }
                    && addr == chain[0].addr.0 + 8 && len == 8)
                &&& after[at] matches MemOp::Write { addr, data, written: stored }
                &&& addr == chain[1].addr.0
                &&& written == if stored {
                    data.len() as int
                } else {
                    0
                }
                &&& exists|clock_id: u16, now_ns: u64|
                    {
                        &&& data == #[trigger] response_to(kind as u16, clock_id, now_ns)
                        &&& kind == 1 && clock_id == 0 ==> is_time(now_ns)
                        &&& reads ==> (after[before.len() as int + 1]->bytes matches Some(b)
                            ==> clock_id == b[0] + 256 * b[1])
                    }
            }
        },
{
    if chain.len() >= 2 {
        let head = after[before.len() as int]->bytes;
        if let Some(h) = head {
            byte_order::bytes_count_by_their_place(h);
            let body = after[before.len() as int + 1]->bytes;
            if names_a_clock(byte_order::le_u16(h)) {
                if let Some(b) = body {
                    byte_order::bytes_count_by_their_place(b);
                }
            }
        }
    }
}

/// A chain that was served is handed back with the length of its answer, and the next one comes
/// behind it.
pub proof fn served_chains_are_handed_back(
    regions: Seq<(u64, u64)>,
    from: (Queue, Seq<MemOp>),
    round: Round,
    to: (Queue, Seq<MemOp>),
)
    requires
        round_step(regions, from, round, to),
    ensures
        round.popped.next_avail == (from.0.next_avail + 1) % 65536,
        to.0.next_avail == round.popped.next_avail,
        round.used matches Ok(()) ==> {
            &&& to.1[round.after_answer.len() as int] matches MemOp::Write { addr, data, .. }
            &&& addr == from.0.used_ring.0 + 4 + 8 * (from.0.next_used as int
                % from.0.size as int)
            &&& data[0] + 256 * data[1] + 65536 * data[2] + 16777216 * data[3] == round.head.index
            &&& data[4] + 256 * data[5] + 65536 * data[6] + 16777216 * data[7] == round.written
            &&& to.0.next_used == (from.0.next_used + 1) % 65536
        },
{
    if let Ok(()) = round.used {
        queue::used_elements_are_written_in_order(
            regions,
            round.popped,
            round.after_answer,
            to.0,
            to.1,
            round.head.index,
            round.written,
        );
    }
}

/// Serving ends when the driver has made no more chains available: the last pop gave none.
pub proof fn all_requests_are_served(
    regions: Seq<(u64, u64)>,
    from: (Queue, Seq<MemOp>),
    to: (Queue, Seq<MemOp>),
    have_used: bool,
)
    requires
        serves(regions, from, to, have_used),
    ensures
        exists|run: Seq<(Queue, Seq<MemOp>)>|
            {
                &&& #[trigger] serves_all(regions, from, run)
                &&& have_used <==> run.len() >= 2
                &&& run.len() <= u64::MAX ==> queue::pop_step(
                    regions,
                    run.last().0,
                    run.last().1,
                    to.0,
                    to.1,
                    None,
                )
            },
        !have_used ==> to.0 == from.0,
{
    let run = choose|run: Seq<(Queue, Seq<MemOp>)>|
        {
            &&& #[trigger] serves_all(regions, from, run)
            &&& have_used == (run.len() > 1)
            &&& if run.len() - 1 < u64::MAX {
                queue::pop_step(regions, run.last().0, run.last().1, to.0, to.1, None)
            } else {
                to == run.last()
            }
        };
    assert(serves_all(regions, from, run));
}

} // verus!
