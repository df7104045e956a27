//! The VM generation ID: a random number in guest memory that changes whenever the guest is
//! resumed from a snapshot.
use vstd::prelude::*;

use rand::Rng;
use vm_memory::GuestMemoryError;

use crate::guest_memory;
use crate::guest_memory::{GuestAddress, GuestMemory, MemOp};

verus! {

/// The size of the ID.
pub const GUID_SIZE: usize = 16;

/// Calls `rand::Rng::fill` on the generator of the thread. Nothing is claimed of the bytes.
#[verifier::external_body]
fn random_guid() -> [u8; 16] {
    let mut guid = [0u8; 16];
    rand::rng().fill(&mut guid);
    guid
}

/// Whether `guid` was drawn from the generator.
pub closed spec fn is_drawn(guid: [u8; 16]) -> bool {
    call_ensures(random_guid, (), guid)
}

/// The device.
pub struct Vmgenid {
    /// The guest address of the page that the ID is on.
    pub guid_page_addr: u64,
    /// Where on the page the ID is.
    pub guid_offset: u64,
    pub guid: [u8; 16],
    /// The interrupt that tells the guest of a new ID.
    pub irq: u32,
}

impl Vmgenid {
    /// Where in guest memory the ID is.
    pub open spec fn addr(&self) -> int {
        self.guid_page_addr + self.guid_offset
    }

    /// The accesses `log` with this ID written to guest memory.
    pub open spec fn written(&self, regions: Seq<(u64, u64)>, log: Seq<MemOp>) -> Seq<MemOp> {
        log.push(
            MemOp::Write {
                addr: self.addr() as u64,
                data: self.guid@,
                written: guest_memory::span_mapped(regions, self.addr() as u64, 16),
            },
        )
    }

    /// A device with the ID `guid`, which is written to guest memory.
    pub fn with_guid(
        guid_page_addr: u64,
        guid_offset: u64,
        irq: u32,
        guid: [u8; 16],
        mem: &mut GuestMemory,
    ) -> (res: Result<Vmgenid, GuestMemoryError>)
        requires
            guid_page_addr + guid_offset <= u64::MAX,
        ensures
            final(mem).regions() == old(mem).regions(),
            final(mem).backed() == old(mem).backed(),
            ({
                let made = Vmgenid { guid_page_addr, guid_offset, guid, irq };
                &&& final(mem).log() == made.written(old(mem).regions(), old(mem).log())
                &&& res is Ok <==> guest_memory::span_mapped(
                    old(mem).regions(),
                    made.addr() as u64,
                    16,
                )
                &&& res matches Ok(vmgenid) ==> vmgenid == made
            }),
    {
        let vmgenid = Vmgenid { guid_page_addr, guid_offset, guid, irq };
        match vmgenid.write_guid_to_memory(mem) {
            Ok(()) => Ok(vmgenid),
            Err(e) => Err(e),
        }
    }

    /// A device with a random ID, which is written to guest memory. Which ID is drawn, the
    /// generator alone decides.
    pub fn new(guid_page_addr: u64, guid_offset: u64, irq: u32, mem: &mut GuestMemory) -> (res:
        Result<Vmgenid, GuestMemoryError>)
        requires
            guid_page_addr + guid_offset <= u64::MAX,
        ensures
            final(mem).regions() == old(mem).regions(),
            final(mem).backed() == old(mem).backed(),
            exists|made: Vmgenid|
                {
                    &&& made.guid_page_addr == guid_page_addr
                    &&& made.guid_offset == guid_offset
                    &&& made.irq == irq
                    &&& is_drawn(made.guid)
                    &&& final(mem).log() == #[trigger] made.written(
                        old(mem).regions(),
                        old(mem).log(),
                    )
                    &&& res is Ok <==> guest_memory::span_mapped(
                        old(mem).regions(),
                        made.addr() as u64,
                        16,
                    )
                    &&& res matches Ok(vmgenid) ==> vmgenid == made
                },
    {
        let guid = random_guid();
        assert(is_drawn(guid));
        Vmgenid::with_guid(guid_page_addr, guid_offset, irq, guid, mem)
    }

    /// Takes `guid` for its ID and writes it to guest memory; gives the one before it and the
    /// new one. The ID is taken also where it cannot be written.
    pub fn replace_guid(&mut self, guid: [u8; 16], mem: &mut GuestMemory) -> (res: Result<
        ([u8; 16], [u8; 16]),
        GuestMemoryError,
    >)
        requires
            old(self).addr() <= u64::MAX,
        ensures
            final(mem).regions() == old(mem).regions(),
            final(mem).backed() == old(mem).backed(),
            *final(self) == (Vmgenid { guid, ..*old(self) }),
            final(mem).log() == final(self).written(old(mem).regions(), old(mem).log()),
            res is Ok <==> guest_memory::span_mapped(
                old(mem).regions(),
                old(self).addr() as u64,
                16,
            ),
            res matches Ok(guids) ==> guids == (old(self).guid, guid),
    {
        let old_guid: [u8; 16] = self.guid;
        self.guid = guid;
        match self.write_guid_to_memory(mem) {
            Ok(()) => Ok((old_guid, guid)),
            Err(e) => Err(e),
        }
    }

    /// Takes a random ID and writes it to guest memory; gives the one before it and the new
    /// one.
    pub fn update_guid(&mut self, mem: &mut GuestMemory) -> (res: Result<
        ([u8; 16], [u8; 16]),
        GuestMemoryError,
    >)
        requires
            old(self).addr() <= u64::MAX,
        ensures
            final(mem).regions() == old(mem).regions(),
            final(mem).backed() == old(mem).backed(),
            is_drawn(final(self).guid),
            *final(self) == (Vmgenid { guid: final(self).guid, ..*old(self) }),
            final(mem).log() == final(self).written(old(mem).regions(), old(mem).log()),
            res is Ok <==> guest_memory::span_mapped(
                old(mem).regions(),
                old(self).addr() as u64,
                16,
            ),
            res matches Ok(guids) ==> guids == (old(self).guid, final(self).guid),
    {
        self.replace_guid(random_guid(), mem)
    }

    pub fn guid(&self) -> (res: &[u8; 16])
        ensures
            *res == self.guid,
    {
        &self.guid
    }

    pub fn guest_addr(&self) -> (res: u64)
        requires
            self.addr() <= u64::MAX,
        ensures
            res == self.addr(),
    {
        self.guid_page_addr + self.guid_offset
    }

    pub fn irq(&self) -> (res: u32)
        ensures
            res == self.irq,
    {
        self.irq
    }

    /// Writes the ID to guest memory.
    fn write_guid_to_memory(&self, mem: &mut GuestMemory) -> (res: Result<(), GuestMemoryError>)
        requires
            self.addr() <= u64::MAX,
        ensures
            final(mem).regions() == old(mem).regions(),
            final(mem).backed() == old(mem).backed(),
            final(mem).log() == self.written(old(mem).regions(), old(mem).log()),
            res is Ok <==> guest_memory::span_mapped(
                old(mem).regions(),
                self.addr() as u64,
                16,
            ),
    {
        mem.write(self.guid.as_slice(), GuestAddress(self.guest_addr()))
    }
}

/// What the guest finds in its memory is the ID that the device reports: the last write is
/// of the current ID, to the place that it announces.
pub proof fn memory_holds_the_guid(
    vmgenid: Vmgenid,
    regions: Seq<(u64, u64)>,
    log: Seq<MemOp>,
)
    requires
        vmgenid.addr() <= u64::MAX,
        guest_memory::span_mapped(regions, vmgenid.addr() as u64, 16),
    ensures
        vmgenid.written(regions, log).last() == (MemOp::Write {
            addr: vmgenid.addr() as u64,
            data: vmgenid.guid@,
            written: true,
        }),
        vmgenid.guid@.len() == GUID_SIZE,
{
}

/// The ID stands at its offset on its page, 16 bytes of it, and nothing else is written.
pub proof fn the_id_stands_on_its_page(
    vmgenid: Vmgenid,
    regions: Seq<(u64, u64)>,
    log: Seq<MemOp>,
)
    requires
        vmgenid.guid_page_addr + vmgenid.guid_offset <= u64::MAX,
    ensures
        vmgenid.addr() == vmgenid.guid_page_addr + vmgenid.guid_offset,
        vmgenid.written(regions, log).len() == log.len() + 1,
        vmgenid.written(regions, log).drop_last() == log,
        vmgenid.written(regions, log).last() matches MemOp::Write { addr, data, written } && {
            &&& addr == vmgenid.guid_page_addr + vmgenid.guid_offset
            &&& data == vmgenid.guid@
            &&& data.len() == 16
            &&& written == guest_memory::span_mapped(regions, addr, 16)
        },
{
    assert(vmgenid.written(regions, log).drop_last() =~= log);
}

} // verus!
