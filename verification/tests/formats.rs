//! Scenarios over the binary formats and driver-facing data: the image
//! builder (sizes, segments, relocations, rejections), the partition table,
//! the FAT16 structures, the virtqueue handler, the PCI pieces, the
//! console, and the keyboard path.

use ios_kernel::console::{Console, FrameBuffer, FONT_HEIGHT};
use ios_kernel::elf::{build_image, LoadError};
use ios_kernel::keyboard::PcKeyboard;
use ios_kernel::mbr::{Mbr, MbrPartition, PartitionEntry};
use ios_kernel::pci::{config_address, MsixCapability};
use ios_kernel::syscall::{decode_syscall, SyscallAction};
use ios_kernel::vfat::{Entry, ListPosition, VFat16, VFat16File, DIR_ENTRY_SIZE};
use ios_kernel::virtio::{
    BlkRequest, BlkRequestStatus, BlkRequestType, ComCfgRaw, Descriptor, DeviceStatus,
    StaticQueue, UsedElem, VirtqHandler, VIRTQ_DESC_F_AVAIL, VIRTQ_DESC_F_NEXT,
    VIRTQ_DESC_F_WRITE,
};

fn put16(b: &mut [u8], off: usize, v: u16) {
    b[off..off + 2].copy_from_slice(&v.to_le_bytes());
}

fn put32(b: &mut [u8], off: usize, v: u32) {
    b[off..off + 4].copy_from_slice(&v.to_le_bytes());
}

fn put64(b: &mut [u8], off: usize, v: u64) {
    b[off..off + 8].copy_from_slice(&v.to_le_bytes());
}

/// An image with one loadable segment ending at 0x2000 and a dynamic
/// section carrying exactly one relative relocation.
fn relocatable_image(reloc_type: u32) -> Vec<u8> {
    let mut data = vec![0u8; 512];
    data[0] = 0x7f;
    data[1] = b'E';
    data[2] = b'L';
    data[3] = b'F';
    put64(&mut data, 24, 0x40); // entry
    put64(&mut data, 32, 64); // phoff
    put16(&mut data, 54, 56); // phentsize
    put16(&mut data, 56, 2); // phnum
    // program header 0: PT_LOAD, 16 file bytes at vaddr 0x1000, ends 0x2000
    put32(&mut data, 64, 1);
    put64(&mut data, 64 + 8, 256);
    put64(&mut data, 64 + 16, 0x1000);
    put64(&mut data, 64 + 32, 16);
    put64(&mut data, 64 + 40, 0x1000);
    // program header 1: PT_DYNAMIC, 64 file bytes at offset 320
    put32(&mut data, 120, 2);
    put64(&mut data, 120 + 8, 320);
    put64(&mut data, 120 + 32, 64);
    put64(&mut data, 120 + 40, 64);
    // dynamic entries: DT_RELA -> 384, DT_RELASZ -> 24, DT_RELAENT -> 24
    put64(&mut data, 320, 7);
    put64(&mut data, 328, 384);
    put64(&mut data, 336, 8);
    put64(&mut data, 344, 24);
    put64(&mut data, 352, 9);
    put64(&mut data, 360, 24);
    // one relocation at file offset 384: write base + 0x10 at image 0x1800
    put64(&mut data, 384, 0x1800);
    put64(&mut data, 392, reloc_type as u64);
    put64(&mut data, 400, 0x10);
    // segment bytes
    for k in 0..16 {
        data[256 + k] = k as u8;
    }
    data
}

#[test]
fn image_of_0x2000_bytes_takes_exactly_two_pages() {
    let data = relocatable_image(8);
    let img = build_image(&data, 0).expect("image should load");
    assert_eq!(img.pages, 2);
    assert_eq!(img.bytes.len(), 2 * 4096);
    assert_eq!(img.entry_offset, 0x40);
    // the segment's file bytes landed at its virtual address
    for k in 0..16 {
        assert_eq!(img.bytes[0x1000 + k], k as u8);
    }
    // zero-fill everywhere else in the segment's page
    assert_eq!(img.bytes[0x1010], 0);
}

#[test]
fn relative_relocation_writes_base_plus_addend() {
    let data = relocatable_image(8);
    let base = 0x9_0000_0000u64;
    let img = build_image(&data, base).expect("image should load");
    let mut got = [0u8; 8];
    got.copy_from_slice(&img.bytes[0x1800..0x1808]);
    assert_eq!(u64::from_le_bytes(got), base + 0x10);
}

#[test]
fn unsupported_relocation_kind_is_rejected_outright() {
    let data = relocatable_image(5);
    assert_eq!(build_image(&data, 0), Err(LoadError::UnsupportedRelocation(5)));
}

#[test]
fn truncated_and_unmagical_images_are_bad() {
    assert_eq!(build_image(&[], 0), Err(LoadError::BadImage));
    let mut data = relocatable_image(8);
    data[1] = b'X';
    assert_eq!(build_image(&data, 0), Err(LoadError::BadImage));
}

#[test]
fn image_without_loadable_segments_is_rejected() {
    let mut data = relocatable_image(8);
    // turn the loadable segment into an unknown one
    put32(&mut data, 64, 99);
    assert_eq!(build_image(&data, 0), Err(LoadError::NoLoadableSegments));
}

#[test]
fn segment_reaching_outside_the_file_is_rejected() {
    let mut data = relocatable_image(8);
    put64(&mut data, 64 + 8, 509); // file offset too close to the end
    assert_eq!(build_image(&data, 0), Err(LoadError::SegmentOutOfRange));
}

#[test]
fn partition_table_parses_and_translates_sectors() {
    let mut sector = vec![0u8; 512];
    sector[446] = 0x80;
    sector[446 + 1] = 1;
    sector[446 + 2] = 2;
    sector[446 + 3] = 3;
    sector[446 + 4] = 0x0b;
    put32(&mut sector, 446 + 8, 2048);
    put32(&mut sector, 446 + 12, 4096);
    sector[510] = 0x55;
    sector[511] = 0xaa;
    let mbr = Mbr::new(&sector).expect("512 bytes parse");
    let parts = mbr.partitions();
    assert_eq!(parts[0].boot_indicator, 0x80);
    assert_eq!(parts[0].partition_type, 0x0b);
    assert_eq!(parts[0].starting_lba, 2048);
    assert_eq!(parts[0].size_in_sectors, 4096);
    assert_eq!(parts[1].partition_type, 0);
    assert_eq!(mbr.header.signature, 0xaa55);
    let part = mbr.get_partition(0).expect("first partition exists");
    assert_eq!(part.absolute_sector(10), 2058);
    assert!(mbr.get_partition(4).is_err());
    assert!(Mbr::new(&sector[..100]).is_err());
    let direct = MbrPartition::new(parts[0]);
    assert_eq!(direct.absolute_sector(0), 2048);
}

#[test]
fn partition_entry_parses_its_sixteen_bytes() {
    let mut b = vec![0u8; 16];
    b[0] = 0x80;
    b[4] = 0x83;
    put32(&mut b, 8, 7);
    put32(&mut b, 12, 9);
    let e = PartitionEntry::parse(&b, 0);
    assert_eq!(e.boot_indicator, 0x80);
    assert_eq!(e.partition_type, 0x83);
    assert_eq!(e.starting_lba, 7);
    assert_eq!(e.size_in_sectors, 9);
}

#[test]
fn fat_volume_locates_root_directory_and_plans_reads() {
    let mut sector = vec![0u8; 512];
    put16(&mut sector, 11, 512); // bytes per sector
    sector[13] = 4; // sectors per cluster
    put16(&mut sector, 14, 4); // reserved sectors
    sector[16] = 2; // number of FATs
    put16(&mut sector, 22, 32); // sectors per FAT
    let fs = VFat16::new(&sector).expect("parameter block parses");
    assert_eq!(fs.root_dir_start(), 4 + 32 * 2);
    assert!(VFat16::new(&sector[..32]).is_err());

    let mut file = VFat16File::new(1000, 5);
    let plan = file.read_plan(&fs, 600).expect("bytes are left");
    assert_eq!(plan.sector, 68 + 4 * 5);
    assert_eq!(plan.sector_offset, 0);
    assert_eq!(plan.take, 512);
    let sector_data: Vec<u8> = (0..=255u8).cycle().take(512).collect();
    let mut out: Vec<u8> = Vec::new();
    file.accept_sector(&plan, &sector_data, &mut out);
    assert_eq!(out.len(), 512);
    assert_eq!(out[0], 0);
    assert_eq!(out[255], 255);
    assert_eq!(file.remaining(), 488);
    let plan2 = file.read_plan(&fs, 600).expect("bytes are left");
    assert_eq!(plan2.sector, 68 + 4 * 5 + 1);
    assert_eq!(plan2.sector_offset, 0);
    assert_eq!(plan2.take, 488);
}

#[test]
fn directory_entry_parses_and_trims_its_name() {
    let mut b = vec![0u8; DIR_ENTRY_SIZE];
    b[..11].copy_from_slice(b"HELLO   TXT");
    b[11] = 0x20;
    put16(&mut b, 26, 5);
    put32(&mut b, 28, 1234);
    let e = Entry::parse(&b, 0);
    assert_eq!(e.name.as_slice(), b"HELLO   TXT");
    assert_eq!(e.first_cluster_low, 5);
    assert_eq!(e.size, 1234);
    assert!(!e.is_end());
    let mut padded = vec![0u8; DIR_ENTRY_SIZE];
    padded[..11].copy_from_slice(b"HELLO      ");
    let p = Entry::parse(&padded, 0);
    assert_eq!(p.trimmed_name_len(), 5);
    let empty = Entry::parse(&vec![0u8; DIR_ENTRY_SIZE], 0);
    assert!(empty.is_end());
}

#[test]
fn virtq_handler_programs_the_selected_queue() {
    let raw = ComCfgRaw {
        device_feature_select: 0,
        device_feature: 0,
        driver_feature_select: 0,
        driver_feature: 0,
        config_msix_vector: 0,
        num_queues: 1,
        device_status: 0,
        config_generation: 0,
        queue_select: 0,
        queue_size: 512,
        queue_msix_vector: 0,
        queue_enable: 0,
        queue_notify_off: 0,
        queue_desc: 0,
        queue_driver: 0,
        queue_device: 0,
    };
    let mut handler = VirtqHandler::new(raw, 3, 0xfee0);
    assert_eq!(handler.set_vq_size(256), 256);
    assert_eq!(handler.raw.queue_select, 3);
    assert_eq!(handler.raw.queue_size, 256);
    // a smaller advertised size is kept
    assert_eq!(handler.set_vq_size(512), 256);
    handler.set_desc_ring_addr(0x1000);
    handler.set_avail_ring_addr(0x2000);
    handler.set_used_ring_addr(0x3000);
    handler.set_msix_vector(7);
    handler.enable_queue();
    assert_eq!(handler.raw.queue_desc, 0x1000);
    assert_eq!(handler.raw.queue_driver, 0x2000);
    assert_eq!(handler.raw.queue_device, 0x3000);
    assert_eq!(handler.raw.queue_msix_vector, 7);
    assert_eq!(handler.raw.queue_enable, 1);
    assert_eq!(handler.get_notify_addr(), 0xfee0);
}

#[test]
fn descriptors_and_block_requests_carry_their_fields() {
    let d = Descriptor::new_raw(0xabc000, 512, VIRTQ_DESC_F_WRITE);
    assert_eq!(d.address, 0xabc000);
    assert_eq!(d.len, 512);
    assert_eq!(d.flags, VIRTQ_DESC_F_WRITE);
    assert_eq!(d.next, 0);
    let r = BlkRequest::read_of(77);
    assert_eq!(r.request_type, BlkRequestType::VIRTIO_BLK_T_IN);
    assert_eq!(r.sector, 77);
    assert_eq!(r.request_type.code(), 0);
    assert_eq!(BlkRequestType::VIRTIO_BLK_T_FLUSH.code(), 4);
    assert_eq!(DeviceStatus::ACKNOWLEDGE.code(), 1);
    assert_eq!(DeviceStatus::DRIVER_OK.code(), 4);
    assert_eq!(BlkRequestStatus::from_code(0), BlkRequestStatus::VIRTIO_BLK_S_OK);
    assert_eq!(BlkRequestStatus::from_code(1), BlkRequestStatus::VIRTIO_BLK_S_IOERR);
}

#[test]
fn pci_address_word_and_msix_capability() {
    assert_eq!(config_address(1, 2, 4), 0x8001_1004);
    assert_eq!(config_address(0, 0, 0), 0x8000_0000);
    let mut cap = MsixCapability::from_words(0x0007_0011, 0x2005, 0x3000);
    assert_eq!(cap.cap_id, 0x11);
    assert_eq!(cap.cap_next, 0x00);
    assert_eq!(cap.message_control, 0x0007);
    assert_eq!(cap.table_offset, 0x2005);
    cap.enable();
    assert_eq!(cap.message_control, 0x8007);
    assert_eq!(cap.table_length(), 7);
    assert_eq!(cap.table_start(0x1000), 0x1000 + 0x2004);
}

#[test]
fn console_writes_characters_and_draws_pixels() {
    let fb = FrameBuffer {
        width: 70,
        height: 2 * FONT_HEIGHT,
        stride: 70,
        bpp: 32,
        pixels: vec![0u8; 2 * FONT_HEIGHT * 70 * 4],
    };
    let mut console = Console::new(fb);
    assert_eq!(console.width, 10);
    assert_eq!(console.height, 2);
    assert_eq!(console.chars.len(), 20);
    console.write_byte(b'A');
    assert_eq!(console.chars[0], b'A');
    assert_eq!(console.pos, 1);
    // writing a visible glyph touched the framebuffer
    assert!(console.fb.pixels.iter().any(|p| *p != 0));
    console.write_string(b"B\nC\x01");
    assert_eq!(console.chars[1], b'B');
    // the newline jumped to the next line's start
    assert_eq!(console.chars[10], b'C');
    // the unprintable byte became the replacement glyph
    assert_eq!(console.chars[11], 0xfe);
    assert_eq!(console.pos, 12);
}

#[test]
fn keyboard_decodes_a_scancode_into_a_buffered_character() {
    let mut kbd = PcKeyboard::new();
    // scancode-set-2 make code for the letter key that types 'a'
    let got = kbd.add_scancode(0x1c);
    assert_eq!(got, Some('a'));
    assert_eq!(kbd.read_char(), Some('a'));
    assert_eq!(kbd.read_char(), None);
}

#[test]
fn static_queue_chains_descriptors_and_drains_the_used_ring() {
    let mut q = StaticQueue::new(8);
    // the fresh free list chains the slots in order
    assert_eq!(q.descriptors[3].next, 4);
    // build a two-descriptor chain
    q.insert_descriptor(&Descriptor::new_raw(0x1000, 16, 0));
    q.insert_descriptor(&Descriptor::new_raw(0x2000, 32, VIRTQ_DESC_F_WRITE));
    assert_eq!(q.descriptors[0].address, 0x1000);
    assert_ne!(q.descriptors[0].flags & VIRTQ_DESC_F_AVAIL, 0);
    assert_ne!(q.descriptors[0].flags & VIRTQ_DESC_F_NEXT, 0);
    assert_eq!(q.descriptors[0].next, 1);
    assert_eq!(q.descriptors[1].address, 0x2000);
    let head = q.publish_chain();
    assert_eq!(head, 0);
    assert_eq!(q.avail_ring[0], 0);
    assert_eq!(q.avail_index, 1);
    assert_eq!(q.descr_head, 2);
    assert!(!q.is_complete(0));
    // the device reports the chain used; draining completes it
    q.used_ring[0] = UsedElem { id: 0, len: 32 };
    q.used_index = 1;
    q.process_used_queue();
    assert!(q.is_complete(0));
    assert!(!q.is_complete(1));
    assert_eq!(q.used_last, 1);
}

#[test]
fn directory_listing_walks_sixteen_entries_per_sector() {
    let mut pos = ListPosition::start(68);
    assert_eq!(pos.sector, 67);
    // the first advance loads the first root-directory sector
    assert!(pos.advance());
    assert_eq!(pos.sector, 68);
    assert_eq!(pos.offset, 0);
    for k in 1..16 {
        assert!(!pos.advance());
        assert_eq!(pos.offset, k);
    }
    // entry 16 does not exist: the next advance loads the next sector
    assert!(pos.advance());
    assert_eq!(pos.sector, 69);
    assert_eq!(pos.offset, 0);
}

#[test]
fn syscall_one_writes_the_console_and_the_rest_are_reported() {
    assert_eq!(decode_syscall(1, 0x5000, 12), SyscallAction::WriteConsole(0x5000, 12));
    assert_eq!(decode_syscall(7, 1, 2), SyscallAction::Unknown(7));
}
