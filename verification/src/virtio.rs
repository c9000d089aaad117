//! Virtio plain-data structures and the virtqueue configuration handler:
//! the common-configuration window a driver fills in, the descriptor
//! layout, and the block-device request vocabulary. The handler owns its
//! view of the configuration window; the surrounding runtime mirrors the
//! written fields to the device.

use vstd::prelude::*;

verus! {

/// Descriptor flag: the descriptor continues via `next`.
pub const VIRTQ_DESC_F_NEXT: u16 = 1;

/// Descriptor flag: the device writes into this buffer.
pub const VIRTQ_DESC_F_WRITE: u16 = 2;

/// Descriptor flag: the buffer is available to the device.
pub const VIRTQ_DESC_F_AVAIL: u16 = 0x80;

/// Descriptor flag: the buffer has been used by the device.
pub const VIRTQ_DESC_F_USED: u16 = 0x8000;

/// One virtqueue descriptor: a buffer's address, length, flags, and chain
/// link.
#[derive(Clone, Copy, PartialEq, Eq, Structural, Debug)]
pub struct Descriptor {
    pub address: u64,
    pub len: u32,
    pub flags: u16,
    pub next: u16,
}

impl Descriptor {
    /// A descriptor over `len` bytes at physical address `data`; a length
    /// beyond 32 bits is reduced to its low 32 bits, as the ring field
    /// holds no more.
    pub fn new_raw(data: u64, len: usize, flags: u16) -> (r: Descriptor)
        ensures
            r.address == data,
            r.len == (len as u64 % 0x1_0000_0000) as u32,
            r.flags == flags,
            r.next == 0,
    {
        Descriptor { address: data, len: (len as u64 % 0x1_0000_0000) as u32, flags, next: 0 }
    }
}

/// The common configuration window of a virtio device, as the driver sees
/// it: feature negotiation, status, and the per-queue registers selected
/// through `queue_select`.
#[derive(Clone, Copy, PartialEq, Eq, Structural, Debug)]
pub struct ComCfgRaw {
    pub device_feature_select: u32,
    pub device_feature: u32,
    pub driver_feature_select: u32,
    pub driver_feature: u32,
    pub config_msix_vector: u16,
    pub num_queues: u16,
    pub device_status: u8,
    pub config_generation: u8,
    pub queue_select: u16,
    pub queue_size: u16,
    pub queue_msix_vector: u16,
    pub queue_enable: u16,
    pub queue_notify_off: u16,
    pub queue_desc: u64,
    pub queue_driver: u64,
    pub queue_device: u64,
}

/// The device's status field interpretations.
#[derive(Clone, Copy, PartialEq, Eq, Structural, Debug)]
pub enum DeviceStatus {
    ACKNOWLEDGE,
    DRIVER,
    DRIVER_OK,
    FEATURES_OK,
    DEVICE_NEEDS_RESET,
    FAILED,
}

impl DeviceStatus {
    /// The status bit this state sets in the device-status register.
    pub fn code(&self) -> (r: u8)
        ensures
            r == (match *self {
                DeviceStatus::ACKNOWLEDGE => 1u8,
                DeviceStatus::DRIVER => 2u8,
                DeviceStatus::DRIVER_OK => 4u8,
                DeviceStatus::FEATURES_OK => 8u8,
                DeviceStatus::DEVICE_NEEDS_RESET => 64u8,
                DeviceStatus::FAILED => 128u8,
            }),
    {
        match *self {
            DeviceStatus::ACKNOWLEDGE => 1,
            DeviceStatus::DRIVER => 2,
            DeviceStatus::DRIVER_OK => 4,
            DeviceStatus::FEATURES_OK => 8,
            DeviceStatus::DEVICE_NEEDS_RESET => 64,
            DeviceStatus::FAILED => 128,
        }
    }
}

/// Kind of structure a virtio PCI capability points at.
#[derive(Clone, Copy, PartialEq, Eq, Structural, Debug)]
pub enum CfgType {
    INVALID,
    VIRTIO_PCI_CAP_COMMON_CFG,
    VIRTIO_PCI_CAP_NOTIFY_CFG,
    VIRTIO_PCI_CAP_ISR_CFG,
    VIRTIO_PCI_CAP_DEVICE_CFG,
    VIRTIO_PCI_CAP_PCI_CFG,
    VIRTIO_PCI_CAP_SHARED_MEMORY_CFG,
}

impl CfgType {
    /// The capability type read from the capability's config-type byte; an
    /// unknown code is `INVALID`.
    pub fn from_code(code: u8) -> (r: CfgType)
        ensures
            r == (match code {
                1u8 => CfgType::VIRTIO_PCI_CAP_COMMON_CFG,
                2u8 => CfgType::VIRTIO_PCI_CAP_NOTIFY_CFG,
                3u8 => CfgType::VIRTIO_PCI_CAP_ISR_CFG,
                4u8 => CfgType::VIRTIO_PCI_CAP_DEVICE_CFG,
                5u8 => CfgType::VIRTIO_PCI_CAP_PCI_CFG,
                8u8 => CfgType::VIRTIO_PCI_CAP_SHARED_MEMORY_CFG,
                _ => CfgType::INVALID,
            }),
    {
        match code {
            1 => CfgType::VIRTIO_PCI_CAP_COMMON_CFG,
            2 => CfgType::VIRTIO_PCI_CAP_NOTIFY_CFG,
            3 => CfgType::VIRTIO_PCI_CAP_ISR_CFG,
            4 => CfgType::VIRTIO_PCI_CAP_DEVICE_CFG,
            5 => CfgType::VIRTIO_PCI_CAP_PCI_CFG,
            8 => CfgType::VIRTIO_PCI_CAP_SHARED_MEMORY_CFG,
            _ => CfgType::INVALID,
        }
    }
}

/// The handler a driver uses to configure one virtqueue: it owns the
/// driver's view of the common configuration window, the queue's index, and
/// the address the device is notified through.
pub struct VirtqHandler {
    pub index: u16,
    pub notify_addr: u64,
    pub raw: ComCfgRaw,
}

impl VirtqHandler {
    /// A handler for queue `index` over the given configuration view.
    pub fn new(raw: ComCfgRaw, index: u16, notify_addr: u64) -> (r: VirtqHandler)
        ensures
            r.raw == raw,
            r.index == index,
            r.notify_addr == notify_addr,
    {
        VirtqHandler { index, notify_addr, raw }
    }

    /// Selects this queue and lowers the device's advertised queue size to
    /// at most `size`; returns the size now in force.
    pub fn set_vq_size(&mut self, size: u16) -> (r: u16)
        ensures
            r == (if old(self).raw.queue_size > size {
                size
            } else {
                old(self).raw.queue_size
            }),
            final(self).raw == (ComCfgRaw {
                queue_select: old(self).index,
                queue_size: r,
                ..old(self).raw
            }),
            final(self).index == old(self).index,
            final(self).notify_addr == old(self).notify_addr,
    {
        self.raw.queue_select = self.index;
        if self.raw.queue_size > size {
            self.raw.queue_size = size;
        }
        self.raw.queue_size
    }

    /// Selects this queue and publishes the descriptor ring's address.
    pub fn set_desc_ring_addr(&mut self, addr: u64)
        ensures
            final(self).raw == (ComCfgRaw {
                queue_select: old(self).index,
                queue_desc: addr,
                ..old(self).raw
            }),
            final(self).index == old(self).index,
            final(self).notify_addr == old(self).notify_addr,
    {
        self.raw.queue_select = self.index;
        self.raw.queue_desc = addr;
    }

    /// Selects this queue and publishes the available ring's address.
    pub fn set_avail_ring_addr(&mut self, addr: u64)
        ensures
            final(self).raw == (ComCfgRaw {
                queue_select: old(self).index,
                queue_driver: addr,
                ..old(self).raw
            }),
            final(self).index == old(self).index,
            final(self).notify_addr == old(self).notify_addr,
    {
        self.raw.queue_select = self.index;
        self.raw.queue_driver = addr;
    }

    /// Selects this queue and publishes the used ring's address.
    pub fn set_used_ring_addr(&mut self, addr: u64)
        ensures
            final(self).raw == (ComCfgRaw {
                queue_select: old(self).index,
                queue_device: addr,
                ..old(self).raw
            }),
            final(self).index == old(self).index,
            final(self).notify_addr == old(self).notify_addr,
    {
        self.raw.queue_select = self.index;
        self.raw.queue_device = addr;
    }

    /// Selects this queue and routes its interrupts to the given
    /// message-signaled-interrupt vector.
    pub fn set_msix_vector(&mut self, vector: u16)
        ensures
            final(self).raw == (ComCfgRaw {
                queue_select: old(self).index,
                queue_msix_vector: vector,
                ..old(self).raw
            }),
            final(self).index == old(self).index,
            final(self).notify_addr == old(self).notify_addr,
    {
        self.raw.queue_select = self.index;
        self.raw.queue_msix_vector = vector;
    }

    /// Selects this queue and enables it.
    pub fn enable_queue(&mut self)
        ensures
            final(self).raw == (ComCfgRaw {
                queue_select: old(self).index,
                queue_enable: 1u16,
                ..old(self).raw
            }),
            final(self).index == old(self).index,
            final(self).notify_addr == old(self).notify_addr,
    {
        self.raw.queue_select = self.index;
        self.raw.queue_enable = 1;
    }

    /// The address the device is notified through for this queue.
    pub fn get_notify_addr(&self) -> (r: u64)
        ensures
            r == self.notify_addr,
    {
        self.notify_addr
    }
}

/// One element of the used ring: which descriptor chain the device
/// finished, and how many bytes it wrote.
#[derive(Clone, Copy, PartialEq, Eq, Structural, Debug)]
pub struct UsedElem {
    pub id: u32,
    pub len: u32,
}

/// Whether ring slot `k` lies on the walk from `last` (inclusive) to `ui`
/// (exclusive), wrapping at `size`.
pub open spec fn spec_in_window(last: int, ui: int, size: int, k: int) -> bool {
    if last <= ui {
        last <= k < ui
    } else {
        last <= k < size || 0 <= k < ui
    }
}

/// One split virtqueue as the driver maintains it: the descriptor table
/// with its free-list chaining, the available ring the driver fills, the
/// used ring the device fills, and the completion flag per descriptor
/// slot. The device's side — filling the used ring and its index — is data
/// handed in by the surrounding runtime.
pub struct StaticQueue {
    pub size: usize,
    pub avail_wrap_count: bool,
    pub state: Vec<bool>,
    pub descr_head: usize,
    pub descr_current: usize,
    pub descr_next: usize,
    pub avail_next: usize,
    pub descriptors: Vec<Descriptor>,
    pub avail_ring: Vec<u16>,
    pub avail_index: u16,
    pub used_ring: Vec<UsedElem>,
    pub used_index: u16,
    pub used_last: usize,
}

impl StaticQueue {
    /// The rings all have the queue's size, every cursor stays inside it,
    /// and the device never names a descriptor outside the table.
    pub open spec fn wf(self) -> bool {
        &&& 1 <= self.size <= 0x8000
        &&& self.state.len() == self.size
        &&& self.descriptors.len() == self.size
        &&& self.avail_ring.len() == self.size
        &&& self.used_ring.len() == self.size
        &&& self.descr_head < self.size
        &&& self.descr_current < self.size
        &&& self.descr_next < self.size
        &&& self.avail_next <= self.size
        &&& self.used_last < self.size
        &&& forall|i: int| 0 <= i < self.size ==> (#[trigger] self.used_ring[i]).id < self.size
    }

    /// A fresh queue of `size` descriptors, all unused, chained in order as
    /// the free list.
    pub fn new(size: usize) -> (r: StaticQueue)
        requires
            1 <= size <= 0x8000,
        ensures
            r.wf(),
            r.size == size,
            r.avail_wrap_count == true,
            r.descr_head == 0 && r.descr_current == 0 && r.descr_next == 0,
            r.avail_next == 0 && r.avail_index == 0,
            r.used_index == 0 && r.used_last == 0,
            forall|i: int| 0 <= i < size ==> (#[trigger] r.descriptors[i]).next == i + 1,
            forall|i: int| 0 <= i < size ==> !(#[trigger] r.state[i]),
    {
        let mut state: Vec<bool> = Vec::new();
        let mut descriptors: Vec<Descriptor> = Vec::new();
        let mut avail_ring: Vec<u16> = Vec::new();
        let mut used_ring: Vec<UsedElem> = Vec::new();
        let mut i: usize = 0;
        while i < size
            invariant
                i <= size,
                size <= 0x8000,
                state.len() == i,
                descriptors.len() == i,
                avail_ring.len() == i,
                used_ring.len() == i,
                forall|k: int| 0 <= k < i ==> (#[trigger] descriptors[k]).next == k + 1,
                forall|k: int| 0 <= k < i ==> !(#[trigger] state[k]),
                forall|k: int| 0 <= k < i ==> (#[trigger] used_ring[k]).id < size,
            decreases size - i,
        {
            state.push(false);
            descriptors.push(
                Descriptor { address: 0, len: 0, flags: 0, next: (i + 1) as u16 },
            );
            avail_ring.push(0);
            used_ring.push(UsedElem { id: 0, len: 0 });
            i = i + 1;
        }
        StaticQueue {
            size,
            avail_wrap_count: true,
            state,
            descr_head: 0,
            descr_current: 0,
            descr_next: 0,
            avail_next: 0,
            descriptors,
            avail_ring,
            avail_index: 0,
            used_ring,
            used_index: 0,
            used_last: 0,
        }
    }

    /// Takes the next free descriptor slot for `desc`: the slot's flags
    /// gain the availability marking of the current wrap phase, the
    /// previous descriptor of the chain (if the chain has begun) is linked
    /// to it, and the free-list cursor moves on.
    pub fn insert_descriptor(&mut self, desc: &Descriptor)
        requires
            old(self).wf(),
            old(self).descriptors[old(self).descr_next as int].next < old(self).size,
        ensures
            final(self).wf(),
            final(self).size == old(self).size,
            final(self).descr_next == old(self).descriptors[old(self).descr_next as int].next,
            final(self).descr_head == old(self).descr_head,
            ({
                let slot = old(self).descr_next as int;
                let written = Descriptor {
                    flags: (if old(self).avail_wrap_count {
                        (desc.flags | VIRTQ_DESC_F_AVAIL) & !VIRTQ_DESC_F_USED
                    } else {
                        (desc.flags & !VIRTQ_DESC_F_AVAIL) | VIRTQ_DESC_F_USED
                    }),
                    ..*desc
                };
                if old(self).descr_current != slot {
                    &&& final(self).descr_current == slot
                    &&& final(self).descriptors@ == old(self).descriptors@.update(
                        slot,
                        written,
                    ).update(
                        old(self).descr_current as int,
                        Descriptor {
                            flags: old(self).descriptors[old(self).descr_current as int].flags
                                | VIRTQ_DESC_F_NEXT,
                            next: slot as u16,
                            ..old(self).descriptors[old(self).descr_current as int]
                        },
                    )
                } else {
                    &&& final(self).descr_current == old(self).descr_current
                    &&& final(self).descriptors@ == old(self).descriptors@.update(slot, written)
                }
            }),
            final(self).state == old(self).state,
            final(self).avail_ring == old(self).avail_ring,
            final(self).avail_index == old(self).avail_index,
            final(self).avail_next == old(self).avail_next,
            final(self).used_ring == old(self).used_ring,
            final(self).used_index == old(self).used_index,
            final(self).used_last == old(self).used_last,
            final(self).avail_wrap_count == old(self).avail_wrap_count,
    {
        let slot = self.descr_next;
        let next_free = self.descriptors[slot].next as usize;
        let mut written = *desc;
        if self.avail_wrap_count {
            written.flags = (written.flags | VIRTQ_DESC_F_AVAIL) & !VIRTQ_DESC_F_USED;
        } else {
            written.flags = (written.flags & !VIRTQ_DESC_F_AVAIL) | VIRTQ_DESC_F_USED;
        }
        self.descriptors[slot] = written;
        if self.descr_current != slot {
            let cur = self.descr_current;
            let mut link = self.descriptors[cur];
            link.flags = link.flags | VIRTQ_DESC_F_NEXT;
            link.next = slot as u16;
            self.descriptors[cur] = link;
            self.descr_current = slot;
        }
        self.descr_next = next_free;
    }

    /// Publishes the current chain in the available ring and starts a new
    /// one: the chain's head enters the ring, the available index advances,
    /// and the head cursors move to the free list. Returns the published
    /// chain's head, which the device is then notified with.
    pub fn publish_chain(&mut self) -> (r: u16)
        requires
            old(self).wf(),
            old(self).avail_next < old(self).size,
            old(self).avail_index < u16::MAX,
        ensures
            final(self).wf(),
            r == old(self).descr_head,
            final(self).avail_ring@ == old(self).avail_ring@.update(
                old(self).avail_next as int,
                old(self).descr_head as u16,
            ),
            final(self).avail_next == old(self).avail_next + 1,
            final(self).avail_index == old(self).avail_index + 1,
            final(self).descr_head == old(self).descr_next,
            final(self).descr_current == old(self).descr_next,
            final(self).size == old(self).size,
            final(self).descriptors == old(self).descriptors,
            final(self).state == old(self).state,
            final(self).used_ring == old(self).used_ring,
            final(self).used_last == old(self).used_last,
            final(self).used_index == old(self).used_index,
            final(self).avail_wrap_count == old(self).avail_wrap_count,
            final(self).descr_next == old(self).descr_next,
    {
        let head = self.descr_head;
        let slot = self.avail_next;
        self.avail_ring[slot] = head as u16;
        self.avail_next = slot + 1;
        self.avail_index = self.avail_index + 1;
        self.descr_head = self.descr_next;
        self.descr_current = self.descr_next;
        head as u16
    }

    /// Whether the chain headed at `head` has completed: what polling a
    /// request checks.
    pub fn is_complete(&self, head: usize) -> (r: bool)
        requires
            self.wf(),
            head < self.size,
        ensures
            r == self.state[head as int],
    {
        self.state[head]
    }

    /// Drains the used ring up to the device's used index: every chain the
    /// device reported done has its completion flag set, the drain cursor
    /// catches up with the device, and the wrap phase flips if the cursor
    /// wrapped past the ring's end.
    pub fn process_used_queue(&mut self)
        requires
            old(self).wf(),
            (old(self).used_index as int) < old(self).size,
        ensures
            final(self).wf(),
            final(self).used_last == old(self).used_index,
            forall|j: int|
                0 <= j < old(self).size ==> final(self).state[j] == (old(self).state[j] || (
                exists|k: int|
                    #![trigger old(self).used_ring[k]]
                    spec_in_window(
                        old(self).used_last as int,
                        old(self).used_index as int,
                        old(self).size as int,
                        k,
                    ) && old(self).used_ring[k].id == j)),
            final(self).avail_wrap_count == (if old(self).used_last > old(self).used_index as int {
                !old(self).avail_wrap_count
            } else {
                old(self).avail_wrap_count
            }),
            final(self).size == old(self).size,
            final(self).descriptors == old(self).descriptors,
            final(self).avail_ring == old(self).avail_ring,
            final(self).avail_next == old(self).avail_next,
            final(self).avail_index == old(self).avail_index,
            final(self).used_ring == old(self).used_ring,
            final(self).used_index == old(self).used_index,
            final(self).descr_head == old(self).descr_head,
            final(self).descr_current == old(self).descr_current,
            final(self).descr_next == old(self).descr_next,
    {
        let ui = self.used_index as usize;
        while self.used_last != ui
            invariant
                self.wf(),
                ui == old(self).used_index as int,
                ui < self.size,
                self.size == old(self).size,
                self.used_ring == old(self).used_ring,
                self.used_index == old(self).used_index,
                self.descriptors == old(self).descriptors,
                self.avail_ring == old(self).avail_ring,
                self.avail_next == old(self).avail_next,
                self.avail_index == old(self).avail_index,
                self.descr_head == old(self).descr_head,
                self.descr_current == old(self).descr_current,
                self.descr_next == old(self).descr_next,
                // the cursor only walks from where it started toward the
                // device's index
                (if old(self).used_last <= ui {
                    old(self).used_last <= self.used_last <= ui
                } else {
                    old(self).used_last <= self.used_last < self.size || self.used_last <= ui
                }),
                forall|j: int|
                    0 <= j < self.size ==> self.state[j] == (old(self).state[j] || (exists|k: int|
                        #![trigger old(self).used_ring[k]]
                        spec_in_window(
                            old(self).used_last as int,
                            self.used_last as int,
                            self.size as int,
                            k,
                        ) && old(self).used_ring[k].id == j)),
                self.avail_wrap_count == (if (self.used_last as int) < old(self).used_last as int {
                    !old(self).avail_wrap_count
                } else {
                    old(self).avail_wrap_count
                }),
            decreases (if self.used_last <= ui {
                ui - self.used_last
            } else {
                ui + self.size - self.used_last
            }),
        {
            let ghost prev = self.used_last as int;
            let ghost pre_state = self.state@;
            let idx = self.used_ring[self.used_last].id as usize;
            self.state[idx] = true;
            self.used_last = (self.used_last + 1) % self.size;
            if self.used_last == 0 {
                self.avail_wrap_count = !self.avail_wrap_count;
            }
            proof {
                let ol = old(self).used_last as int;
                let sz = self.size as int;
                let nl = self.used_last as int;
                if prev + 1 < sz {
                    vstd::arithmetic::div_mod::lemma_small_mod((prev + 1) as nat, sz as nat);
                    assert(nl == prev + 1);
                } else {
                    vstd::arithmetic::div_mod::lemma_mod_self_0(sz);
                    assert(nl == 0);
                }
                // the window grew by exactly the slot just drained
                assert(forall|k: int|
                    spec_in_window(ol, nl, sz, k) <==> (spec_in_window(ol, prev, sz, k) || k
                        == prev));
                assert(self.state@ == pre_state.update(idx as int, true));
                assert forall|j: int| 0 <= j < sz implies self.state[j] == (old(self).state[j] || (
                exists|k: int|
                    #![trigger old(self).used_ring[k]]
                    spec_in_window(ol, nl, sz, k) && old(self).used_ring[k].id == j)) by {
                    if j == idx {
                        assert(self.state[j]);
                        assert(spec_in_window(ol, nl, sz, prev));
                        assert(old(self).used_ring[prev].id == j);
                    } else {
                        assert(self.state[j] == pre_state[j]);
                        assert(pre_state[j] == (old(self).state[j] || (exists|k: int|
                            #![trigger old(self).used_ring[k]]
                            spec_in_window(ol, prev, sz, k) && old(self).used_ring[k].id == j)));
                        if self.state[j] {
                            if !old(self).state[j] {
                                let k0 = choose|k: int|
                                    #![trigger old(self).used_ring[k]]
                                    spec_in_window(ol, prev, sz, k) && old(self).used_ring[k].id
                                        == j;
                                assert(spec_in_window(ol, nl, sz, k0));
                            }
                        } else {
                            if exists|k: int|
                                #![trigger old(self).used_ring[k]]
                                spec_in_window(ol, nl, sz, k) && old(self).used_ring[k].id == j {
                                let k0 = choose|k: int|
                                    #![trigger old(self).used_ring[k]]
                                    spec_in_window(ol, nl, sz, k) && old(self).used_ring[k].id
                                        == j;
                                assert(k0 != prev);
                                assert(spec_in_window(ol, prev, sz, k0));
                                assert(false);
                            }
                        }
                    }
                }
            }
        }
    }
}

/// Virtio block-device configuration, as the device advertises it.
#[derive(Clone, Copy, PartialEq, Eq, Structural, Debug)]
pub struct BlkConfig {
    pub capacity: u64,
    pub size_max: u32,
    pub seg_max: u32,
    pub geometry_cylinders: u16,
    pub geometry_heads: u8,
    pub geometry_sectors: u8,
    pub blk_size: u32,
}

/// Kind of one block-device request.
#[derive(Clone, Copy, PartialEq, Eq, Structural, Debug)]
pub enum BlkRequestType {
    VIRTIO_BLK_T_IN,
    VIRTIO_BLK_T_OUT,
    VIRTIO_BLK_T_FLUSH,
    VIRTIO_BLK_T_DISCARD,
    VIRTIO_BLK_T_WRITE_ZEROES,
}

impl BlkRequestType {
    /// The request-type code written into the request header.
    pub fn code(&self) -> (r: u32)
        ensures
            r == (match *self {
                BlkRequestType::VIRTIO_BLK_T_IN => 0u32,
                BlkRequestType::VIRTIO_BLK_T_OUT => 1u32,
                BlkRequestType::VIRTIO_BLK_T_FLUSH => 4u32,
                BlkRequestType::VIRTIO_BLK_T_DISCARD => 11u32,
                BlkRequestType::VIRTIO_BLK_T_WRITE_ZEROES => 13u32,
            }),
    {
        match *self {
            BlkRequestType::VIRTIO_BLK_T_IN => 0,
            BlkRequestType::VIRTIO_BLK_T_OUT => 1,
            BlkRequestType::VIRTIO_BLK_T_FLUSH => 4,
            BlkRequestType::VIRTIO_BLK_T_DISCARD => 11,
            BlkRequestType::VIRTIO_BLK_T_WRITE_ZEROES => 13,
        }
    }
}

/// Status the device reports for one finished request.
#[derive(Clone, Copy, PartialEq, Eq, Structural, Debug)]
pub enum BlkRequestStatus {
    VIRTIO_BLK_S_OK,
    VIRTIO_BLK_S_IOERR,
    VIRTIO_BLK_S_UNSUPP,
}

impl BlkRequestStatus {
    /// The status read back from the request's status byte; an unknown code
    /// is an I/O error.
    pub fn from_code(code: u8) -> (r: BlkRequestStatus)
        ensures
            r == (match code {
                0u8 => BlkRequestStatus::VIRTIO_BLK_S_OK,
                2u8 => BlkRequestStatus::VIRTIO_BLK_S_UNSUPP,
                _ => BlkRequestStatus::VIRTIO_BLK_S_IOERR,
            }),
    {
        match code {
            0 => BlkRequestStatus::VIRTIO_BLK_S_OK,
            2 => BlkRequestStatus::VIRTIO_BLK_S_UNSUPP,
            _ => BlkRequestStatus::VIRTIO_BLK_S_IOERR,
        }
    }
}

/// One block-device request header: kind, padding, and the sector to act
/// on.
#[derive(Clone, Copy, PartialEq, Eq, Structural, Debug)]
pub struct BlkRequest {
    pub request_type: BlkRequestType,
    pub reserved: u32,
    pub sector: u64,
}

impl BlkRequest {
    /// A read request for one sector.
    pub fn read_of(sector: u64) -> (r: BlkRequest)
        ensures
            r == (BlkRequest {
                request_type: BlkRequestType::VIRTIO_BLK_T_IN,
                reserved: 0u32,
                sector,
            }),
    {
        BlkRequest { request_type: BlkRequestType::VIRTIO_BLK_T_IN, reserved: 0, sector }
    }
}

} // verus!
