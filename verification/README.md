# krun_devices

The device models of a small virtual machine monitor, with contracts that Verus proves: the split
virtqueue, virtio devices for networking, sockets, a clock and vhost-user backends, the VM
generation ID, and the builder that turns a configuration into the resources of a machine.

## Layout

- `src/` is the library. Everything in it is verified.
  - `guest_memory` is the memory of the guest. The guest may change it at any time, so contracts
    speak of a log of accesses: what was read where, and what was written.
  - `queue` is the virtqueue: validation, popping chains, handing them back, notifications.
  - `virtio_device` holds what devices have in common, `byte_order` and `text` are helpers.
  - `net` is the network device: the worker for asynchronous backends, and a proxy with its
    sessions, its link to the guest, and the steps by which it forwards streams.
  - `vsock` is the socket device: packets, queues, events, and the reaper of released sockets.
  - `rtc` is the clock device, `vmgenid` the generation ID.
  - `vhost_user` has the devices that another process serves: what is asked of it, in which
    order, and what is saved and restored.
  - `krun` is the builder of machines, with the balloon and the work on a paused machine.
- `tests/` runs the library.
- `app/` is ordinary Rust around it: descriptors, threads, sockets, the TCP/IP stack, and the
  connection to vhost-user backends. It asks the library what to do and does it.

## How contracts are phrased

A function that touches guest memory or a backend states how a log or a state moves, by a relation
named `..._step` or `..._rel`. A loop states that there is a run of such steps. Types that callers
implement, such as a network backend or a socket multiplexer, promise nothing; they are wrapped so
that the calls they got are on record.

Functions that need the rings of a queue to lie in guest memory say so with `readable_in` and
`writable_in`; `Queue::is_readable` and `Queue::is_writable` test it at run time.

What is believed without proof stands in functions marked `external_body`, each with a comment that
names the function it calls: the guest memory of `vm-memory`, packet parsing and checksums of
`pnet`, the flags of `vhost`, random bytes of `rand`, the encoding of saved states by
`bincode-next`, the clock and text conversions of the standard library.
