//! What the device models have in common.
use vstd::prelude::*;

use crate::byte_order;

verus! {

/// The size of one queue of a device.
#[derive(Clone, Copy, Debug, PartialEq, Eq, Structural)]
pub struct QueueConfig {
    pub size: u16,
}

impl QueueConfig {
    pub fn new(size: u16) -> (res: QueueConfig)
        ensures
            res.size == size,
    {
        QueueConfig { size }
    }
}

/// The device was not activated.
#[derive(Clone, Copy, Debug, PartialEq, Eq, Structural)]
pub struct BadActivate;

/// A worker did not answer in time that it has parked.
#[derive(Clone, Copy, Debug, PartialEq, Eq, Structural)]
pub struct QuiesceTimeout {
    pub timeout_ms: u64,
}

/// What comes of asking a worker to park: it has to answer within the time.
pub fn quiesce_result(acked: bool, timed_out: bool, timeout_ms: u64) -> (res: Result<
    (),
    QuiesceTimeout,
>)
    ensures
        res == if acked && !timed_out {
            Ok::<(), QuiesceTimeout>(())
        } else {
            Err(QuiesceTimeout { timeout_ms })
        },
{
    if !acked || timed_out {
        Err(QuiesceTimeout { timeout_ms })
    } else {
        Ok(())
    }
}

/// The events of a descriptor: something can be read.
pub const EVENT_IN: u32 = 1;

/// Memory that a device shares with its guest.
#[derive(Clone, Copy, Debug, PartialEq, Eq, Structural)]
pub struct VirtioShmRegion {
    pub host_addr: u64,
    pub guest_addr: u64,
    pub size: usize,
}

/// `under` with the bytes of `config` from `offset` on laid over its beginning, as far as
/// there are any. A window that does not end in the 64-bit address space shows nothing.
pub open spec fn window(config: Seq<u8>, offset: u64, under: Seq<u8>) -> Seq<u8> {
    Seq::new(
        under.len(),
        |i: int|
            if offset + under.len() <= u64::MAX && offset + i < config.len() {
                config[offset + i]
            } else {
                under[i]
            },
    )
}

/// Copies the configuration space `config` from `offset` on to `data`. What lies beyond the
/// configuration space is left alone.
pub fn read_over(config: &[u8], offset: u64, data: &mut [u8])
    ensures
        final(data)@ == window(config@, offset, old(data)@),
{
    let config_len: u64 = config.len() as u64;
    let data_len: usize = data.len();
    if offset >= config_len {
        assert(data@ =~= window(config@, offset, old(data)@));
        return;
    }
    let end: u64 = match offset.checked_add(data_len as u64) {
        Some(end) => end,
        None => {
            assert(data@ =~= window(config@, offset, old(data)@));
            return;
        },
    };
    let start: usize = offset as usize;
    let stop: usize = if end < config_len {
        end as usize
    } else {
        config.len()
    };
    let mut i: usize = start;
    while i < stop
        invariant
            start == offset,
            start <= i <= stop <= config@.len(),
            stop <= start + data_len,
            data_len == data@.len() == old(data)@.len(),
            forall|j: int|
                #![trigger data@[j]]
                0 <= j < data_len ==> data@[j] == if start + j < i {
                    config@[start + j]
                } else {
                    old(data)@[j]
                },
        decreases stop - i,
    {
        data[i - start] = config[i];
        i += 1;
    }
    assert(data@ =~= window(config@, offset, old(data)@));
}

/// Fills `data` with zeros.
pub fn clear(data: &mut [u8])
    ensures
        final(data)@ == byte_order::zeros(old(data)@.len()),
{
    let n: usize = data.len();
    let mut i: usize = 0;
    while i < n
        invariant
            i <= n == data@.len() == old(data)@.len(),
            forall|j: int| 0 <= j < i ==> data@[j] == 0,
        decreases n - i,
    {
        data[i] = 0;
        i += 1;
    }
    assert(data@ =~= byte_order::zeros(old(data)@.len()));
}

/// Copies the configuration space `config` from `offset` on to `data`; what lies beyond the
/// configuration space reads as zero.
pub fn read_zeroed(config: &[u8], offset: u64, data: &mut [u8])
    ensures
        final(data)@ == window(config@, offset, byte_order::zeros(old(data)@.len())),
{
    clear(data);
    read_over(config, offset, data);
}

/// A read of the configuration space shows its bytes and zeros, never what the buffer held
/// before.
pub proof fn nothing_stale(config: Seq<u8>, offset: u64, n: nat, i: int)
    requires
        0 <= i < n,
    ensures
        window(config, offset, byte_order::zeros(n)).len() == n,
        offset + i >= config.len() ==> window(config, offset, byte_order::zeros(n))[i] == 0,
        offset + i < config.len() && offset + n <= u64::MAX ==> window(
            config,
            offset,
            byte_order::zeros(n),
        )[i] == config[offset + i],
{
}

/// A read shows the bytes of the configuration space from its offset on, and leaves alone what
/// lies beyond, or all where it does not end in the address space.
pub proof fn windows_show_the_configuration(config: Seq<u8>, offset: u64, under: Seq<u8>, i: int)
    requires
        0 <= i < under.len(),
    ensures
        window(config, offset, under).len() == under.len(),
        offset + under.len() > u64::MAX ==> window(config, offset, under)[i] == under[i],
        offset + i >= config.len() ==> window(config, offset, under)[i] == under[i],
        offset + under.len() <= u64::MAX && offset + i < config.len() ==> window(
            config,
            offset,
            under,
        )[i] == config[offset + i],
{
}

} // verus!
