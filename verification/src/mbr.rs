//! The master boot record: parsing the 512-byte first sector into its four
//! partition entries, and translating a partition-relative sector number
//! into an absolute one.

use vstd::prelude::*;

use crate::bytes::{le16, le32, read_u16_le, read_u32_le};

verus! {

/// Byte offset of the partition table inside the boot sector.
pub const MBR_PARTITIONS_OFFSET: usize = 446;

/// A packed cylinder/head/sector triple, kept as its three raw bytes.
#[derive(Clone, Copy, PartialEq, Eq, Structural, Debug)]
pub struct Chs {
    pub b0: u8,
    pub b1: u8,
    pub b2: u8,
}

/// One entry of the partition table.
#[derive(Clone, Copy, PartialEq, Eq, Structural, Debug)]
pub struct PartitionEntry {
    pub boot_indicator: u8,
    pub starting_chs: Chs,
    pub partition_type: u8,
    pub ending_chs: Chs,
    pub starting_lba: u32,
    pub size_in_sectors: u32,
}

/// What one 16-byte partition entry at `off` of the boot sector holds.
pub open spec fn spec_partition_entry(b: Seq<u8>, off: int) -> PartitionEntry {
    PartitionEntry {
        boot_indicator: b[off],
        starting_chs: Chs { b0: b[off + 1], b1: b[off + 2], b2: b[off + 3] },
        partition_type: b[off + 4],
        ending_chs: Chs { b0: b[off + 5], b1: b[off + 6], b2: b[off + 7] },
        starting_lba: le32(b, off + 8) as u32,
        size_in_sectors: le32(b, off + 12) as u32,
    }
}

impl PartitionEntry {
    /// Parses the 16-byte entry at `off`.
    pub fn parse(b: &[u8], off: usize) -> (r: PartitionEntry)
        requires
            off + 16 <= b@.len(),
        ensures
            r == spec_partition_entry(b@, off as int),
    {
        PartitionEntry {
            boot_indicator: b[off],
            starting_chs: Chs { b0: b[off + 1], b1: b[off + 2], b2: b[off + 3] },
            partition_type: b[off + 4],
            ending_chs: Chs { b0: b[off + 5], b1: b[off + 6], b2: b[off + 7] },
            starting_lba: read_u32_le(b, off + 8),
            size_in_sectors: read_u32_le(b, off + 12),
        }
    }
}

/// The parsed boot sector: the four partition entries and the signature
/// word.
#[derive(Clone, Copy, Debug)]
pub struct MbrHeader {
    pub partitions: [PartitionEntry; 4],
    pub signature: u16,
}

/// The master boot record read off a block device.
#[derive(Clone, Copy, Debug)]
pub struct Mbr {
    pub header: MbrHeader,
}

impl Mbr {
    /// Parses the boot sector. The caller reads the device's first sector
    /// and hands the 512 bytes in.
    pub fn new(buf: &[u8]) -> (r: Result<Mbr, &'static str>)
        ensures
            r is Ok <==> buf@.len() == 512,
            r matches Ok(m) ==> {
                &&& forall|i: int|
                    0 <= i < 4 ==> #[trigger] m.header.partitions[i] == spec_partition_entry(
                        buf@,
                        MBR_PARTITIONS_OFFSET + 16 * i,
                    )
                &&& m.header.signature == le16(buf@, 510)
            },
    {
        if buf.len() != 512 {
            return Err("MBR sector must be 512 bytes");
        }
        let p0 = PartitionEntry::parse(buf, MBR_PARTITIONS_OFFSET);
        let p1 = PartitionEntry::parse(buf, MBR_PARTITIONS_OFFSET + 16);
        let p2 = PartitionEntry::parse(buf, MBR_PARTITIONS_OFFSET + 32);
        let p3 = PartitionEntry::parse(buf, MBR_PARTITIONS_OFFSET + 48);
        let signature = read_u16_le(buf, 510);
        Ok(Mbr { header: MbrHeader { partitions: [p0, p1, p2, p3], signature } })
    }

    /// The four partition entries.
    pub fn partitions(&self) -> (r: [PartitionEntry; 4])
        ensures
            r == self.header.partitions,
    {
        self.header.partitions
    }

    /// The partition at `index`, ready to translate its sector numbers; an
    /// index past the table is rejected.
    pub fn get_partition(&self, index: usize) -> (r: Result<MbrPartition, &'static str>)
        ensures
            r is Ok <==> index < 4,
            r matches Ok(p) ==> p.entry == self.header.partitions[index as int],
    {
        if index >= 4 {
            return Err("Partition index out of bounds");
        }
        Ok(MbrPartition { entry: self.header.partitions[index] })
    }
}

/// One partition of the record: reads of it are offset by its starting
/// sector.
#[derive(Clone, Copy, PartialEq, Eq, Structural, Debug)]
pub struct MbrPartition {
    pub entry: PartitionEntry,
}

impl MbrPartition {
    /// A partition handle over the given table entry.
    pub fn new(entry: PartitionEntry) -> (r: MbrPartition)
        ensures
            r.entry == entry,
    {
        MbrPartition { entry }
    }

    /// The device-absolute sector that sector `sector` of this partition
    /// lives at.
    pub fn absolute_sector(&self, sector: u64) -> (r: u64)
        requires
            sector + self.entry.starting_lba <= u64::MAX,
        ensures
            r == sector + self.entry.starting_lba,
    {
        sector + self.entry.starting_lba as u64
    }
}

} // verus!
