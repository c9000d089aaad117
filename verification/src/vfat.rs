//! FAT16 on-disk structures and the arithmetic of reading them: the driver
//! parameter block, directory entries, and the sector/offset computations a
//! file read performs. The sector I/O itself is done by the surrounding
//! runtime, which hands the sector bytes in.

use vstd::prelude::*;

use crate::bytes::{le16, le32, read_u16_le, read_u32_le};

verus! {

/// Size in bytes of one on-disk directory entry.
pub const DIR_ENTRY_SIZE: usize = 32;

/// The driver parameter block of the first sector of a FAT16 volume.
#[derive(Clone, Copy, PartialEq, Eq, Structural, Debug)]
pub struct DriverParameterBlock {
    pub bytes_per_sector: u16,
    pub sectors_per_cluster: u8,
    pub reserved_sectors: u16,
    pub num_fats: u8,
    pub root_entries: u16,
    pub total_sectors_16: u16,
    pub media_descriptor: u8,
    pub sectors_per_fat_16: u16,
    pub sectors_per_track: u16,
    pub num_heads: u16,
    pub hidden_sectors: u32,
    pub total_sectors_32: u32,
}

impl DriverParameterBlock {
    /// Parses the parameter block out of the volume's first sector. The
    /// caller reads the sector and hands the 512 bytes in.
    pub fn parse(buf: &[u8]) -> (r: Result<DriverParameterBlock, &'static str>)
        ensures
            r is Ok <==> buf@.len() == 512,
            r matches Ok(h) ==> {
                &&& h.bytes_per_sector == le16(buf@, 11)
                &&& h.sectors_per_cluster == buf@[13]
                &&& h.reserved_sectors == le16(buf@, 14)
                &&& h.num_fats == buf@[16]
                &&& h.root_entries == le16(buf@, 17)
                &&& h.total_sectors_16 == le16(buf@, 19)
                &&& h.media_descriptor == buf@[21]
                &&& h.sectors_per_fat_16 == le16(buf@, 22)
                &&& h.sectors_per_track == le16(buf@, 24)
                &&& h.num_heads == le16(buf@, 26)
                &&& h.hidden_sectors == le32(buf@, 28)
                &&& h.total_sectors_32 == le32(buf@, 32)
            },
    {
        if buf.len() != 512 {
            return Err("Parameter block sector must be 512 bytes");
        }
        Ok(
            DriverParameterBlock {
                bytes_per_sector: read_u16_le(buf, 11),
                sectors_per_cluster: buf[13],
                reserved_sectors: read_u16_le(buf, 14),
                num_fats: buf[16],
                root_entries: read_u16_le(buf, 17),
                total_sectors_16: read_u16_le(buf, 19),
                media_descriptor: buf[21],
                sectors_per_fat_16: read_u16_le(buf, 22),
                sectors_per_track: read_u16_le(buf, 24),
                num_heads: read_u16_le(buf, 26),
                hidden_sectors: read_u32_le(buf, 28),
                total_sectors_32: read_u32_le(buf, 32),
            },
        )
    }
}

/// One on-disk directory entry: the name as its eleven raw bytes, the
/// attributes, the file's first cluster and its byte size.
#[derive(Clone, PartialEq, Eq, Debug)]
pub struct Entry {
    pub name: Vec<u8>,
    pub attributes: u8,
    pub first_cluster_low: u16,
    pub size: u32,
}

impl Entry {
    /// Parses the 32-byte directory entry at `off` of a directory sector.
    pub fn parse(buf: &[u8], off: usize) -> (r: Entry)
        requires
            off + DIR_ENTRY_SIZE <= buf@.len(),
        ensures
            r.name@ == buf@.subrange(off as int, off + 11),
            r.attributes == buf@[off + 11],
            r.first_cluster_low == le16(buf@, off + 26),
            r.size == le32(buf@, off + 28),
    {
        let blen: usize = buf.len();
        let mut name: Vec<u8> = Vec::new();
        let mut k: usize = 0;
        while k < 11
            invariant
                k <= 11,
                name.len() == k,
                blen == buf@.len(),
                off + DIR_ENTRY_SIZE <= blen,
                forall|i: int| 0 <= i < k ==> name[i] == buf@[off + i],
            decreases 11 - k,
        {
            name.push(buf[off + k]);
            k = k + 1;
        }
        proof {
            assert(name@ =~= buf@.subrange(off as int, off + 11));
        }
        Entry {
            name,
            attributes: buf[off + 11],
            first_cluster_low: read_u16_le(buf, off + 26),
            size: read_u32_le(buf, off + 28),
        }
    }

    /// The entry marks the end of the directory: its first name byte is 0.
    pub fn is_end(&self) -> (r: bool)
        requires
            self.name.len() == 11,
        ensures
            r == (self.name[0] == 0),
    {
        self.name[0] == 0
    }

    /// The length of the name with its trailing space padding removed.
    pub fn trimmed_name_len(&self) -> (r: usize)
        ensures
            r <= self.name.len(),
            forall|i: int| r <= i < self.name.len() ==> self.name[i] == 0x20,
            r > 0 ==> self.name[r - 1] != 0x20,
    {
        let mut r = self.name.len();
        while r > 0
            invariant
                r <= self.name.len(),
                forall|i: int| r <= i < self.name.len() ==> self.name[i] == 0x20,
            decreases r,
        {
            if self.name[r - 1] != 0x20 {
                return r;
            }
            r = r - 1;
        }
        0
    }
}

/// One directory listing result: the entry's first cluster as its inode,
/// its name, and its length in bytes.
#[derive(Clone, PartialEq, Eq, Debug)]
pub struct FileEntry {
    pub inode: u64,
    pub name: String,
    pub length: usize,
}

/// A FAT16 volume: its parsed parameter block. Sector reads go through the
/// surrounding runtime.
#[derive(Clone, Copy, PartialEq, Eq, Structural, Debug)]
pub struct VFat16 {
    pub header: DriverParameterBlock,
}

impl VFat16 {
    /// A volume over the parameter block parsed from its first sector.
    pub fn new(buf: &[u8]) -> (r: Result<VFat16, &'static str>)
        ensures
            r is Ok <==> buf@.len() == 512,
            r matches Ok(v) ==> {
                &&& v.header.bytes_per_sector == le16(buf@, 11)
                &&& v.header.sectors_per_cluster == buf@[13]
                &&& v.header.reserved_sectors == le16(buf@, 14)
                &&& v.header.num_fats == buf@[16]
                &&& v.header.root_entries == le16(buf@, 17)
                &&& v.header.sectors_per_fat_16 == le16(buf@, 22)
            },
    {
        let header = DriverParameterBlock::parse(buf)?;
        Ok(VFat16 { header })
    }

    /// The sector the root directory starts at: past the reserved sectors
    /// and every copy of the file-allocation table.
    pub fn root_dir_start(&self) -> (r: u64)
        ensures
            r == self.header.reserved_sectors + self.header.sectors_per_fat_16
                * self.header.num_fats,
    {
        proof {
            assert(self.header.sectors_per_fat_16 as int * self.header.num_fats as int <= 0xffff
                * 0xff) by (nonlinear_arith)
                requires
                    self.header.sectors_per_fat_16 <= 0xffff,
                    self.header.num_fats <= 0xff,
            ;
        }
        self.header.reserved_sectors as u64 + self.header.sectors_per_fat_16 as u64
            * self.header.num_fats as u64
    }

    /// The sector the data area starts at for a file beginning at
    /// `cluster`.
    pub fn cluster_start(&self, cluster: u64) -> (r: u64)
        requires
            self.header.sectors_per_cluster * cluster + self.header.reserved_sectors
                + self.header.sectors_per_fat_16 * self.header.num_fats <= u64::MAX,
        ensures
            r == self.header.reserved_sectors + self.header.sectors_per_fat_16
                * self.header.num_fats + self.header.sectors_per_cluster * cluster,
    {
        proof {
            vstd::arithmetic::mul::lemma_mul_is_commutative(
                self.header.sectors_per_cluster as int,
                cluster as int,
            );
            vstd::arithmetic::mul::lemma_mul_nonnegative(
                self.header.sectors_per_cluster as int,
                cluster as int,
            );
        }
        self.root_dir_start() + self.header.sectors_per_cluster as u64 * cluster
    }
}

/// Where a directory listing stands: the sector it is reading and the
/// entry index inside that sector's buffer.
#[derive(Clone, Copy, PartialEq, Eq, Structural, Debug)]
pub struct ListPosition {
    pub sector: u32,
    pub offset: u16,
}

impl ListPosition {
    /// Where a listing of the root directory starts: one sector before it,
    /// with the entry index past the buffer, so that the first advance
    /// loads the first sector.
    pub fn start(root_sector: u32) -> (r: ListPosition)
        requires
            root_sector >= 1,
        ensures
            r.sector == root_sector - 1,
            r.offset == 16,
    {
        ListPosition { sector: root_sector - 1, offset: 16 }
    }

    /// Advances to the next directory entry; the result says whether the
    /// caller must read the (then current) sector before parsing. A sector
    /// holds 16 entries of 32 bytes.
    pub fn advance(&mut self) -> (needs_read: bool)
        requires
            old(self).sector < u32::MAX,
        ensures
            needs_read == (old(self).offset + 1 >= 16),
            needs_read ==> final(self).sector == old(self).sector + 1 && final(self).offset == 0,
            !needs_read ==> final(self).sector == old(self).sector && final(self).offset == old(
                self,
            ).offset + 1,
            final(self).offset < 16,
    {
        if self.offset >= 15 {
            self.sector = self.sector + 1;
            self.offset = 0;
            true
        } else {
            self.offset = self.offset + 1;
            false
        }
    }
}

/// An open file of a FAT16 volume: its read position, its length, and the
/// cluster its data starts at.
#[derive(Clone, Copy, PartialEq, Eq, Structural, Debug)]
pub struct VFat16File {
    pub offset: usize,
    pub length: usize,
    pub cluster: usize,
}

/// One planned sector read of a file: which device sector to read, where
/// inside it the wanted bytes start, and how many to take.
#[derive(Clone, Copy, PartialEq, Eq, Structural, Debug)]
pub struct ReadPlan {
    pub sector: u64,
    pub sector_offset: usize,
    pub take: usize,
}

impl VFat16File {
    /// An open file of `length` bytes starting at `cluster`, positioned at
    /// its beginning.
    pub fn new(length: usize, cluster: usize) -> (r: VFat16File)
        ensures
            r.offset == 0,
            r.length == length,
            r.cluster == cluster,
    {
        VFat16File { offset: 0, length, cluster }
    }

    /// How many bytes are left to read.
    pub fn remaining(&self) -> (r: usize)
        requires
            self.offset <= self.length,
        ensures
            r == self.length - self.offset,
    {
        self.length - self.offset
    }

    /// Plans the next read into a caller's buffer of `buf_len` bytes: the
    /// device sector holding the current position, the position's offset
    /// inside that sector, and how many bytes to take — bounded by the
    /// buffer, by the sector's remainder, and by the bytes left in the
    /// file. `None` when the file is exhausted.
    pub fn read_plan(&self, fs: &VFat16, buf_len: usize) -> (r: Option<ReadPlan>)
        requires
            self.offset <= self.length,
            fs.header.bytes_per_sector == 512,
            fs.header.sectors_per_cluster * self.cluster + fs.header.reserved_sectors
                + fs.header.sectors_per_fat_16 * fs.header.num_fats + self.offset / 512
                <= u64::MAX,
        ensures
            r is None <==> self.offset == self.length,
            r matches Some(p) ==> {
                &&& p.sector == fs.header.reserved_sectors + fs.header.sectors_per_fat_16
                    * fs.header.num_fats + fs.header.sectors_per_cluster * self.cluster
                    + self.offset / 512
                &&& p.sector_offset == self.offset % 512
                &&& p.take <= buf_len
                &&& p.take <= self.length - self.offset
                &&& p.take + p.sector_offset <= 512
                &&& p.take == vstd::math::min(
                    vstd::math::min(buf_len as int, (512 - p.sector_offset) as int),
                    (self.length - self.offset) as int,
                )
            },
    {
        let data_left = self.length - self.offset;
        if data_left == 0 {
            return None;
        }
        let current_sector = self.offset / 512;
        let sector_offset = self.offset % 512;
        let sector_left = 512 - sector_offset;
        let mut take = buf_len;
        if sector_left < take {
            take = sector_left;
        }
        if data_left < take {
            take = data_left;
        }
        let base = fs.cluster_start(self.cluster as u64);
        Some(ReadPlan { sector: base + current_sector as u64, sector_offset, take })
    }

    /// Takes the planned bytes out of the sector the runtime read, appends
    /// them to the caller's sink, and advances the position.
    pub fn accept_sector(&mut self, plan: &ReadPlan, sector_buf: &[u8], out: &mut Vec<u8>)
        requires
            old(self).offset + plan.take <= old(self).length,
            plan.sector_offset + plan.take <= sector_buf@.len(),
        ensures
            final(self).offset == old(self).offset + plan.take,
            final(self).length == old(self).length,
            final(self).cluster == old(self).cluster,
            final(out)@ == old(out)@ + sector_buf@.subrange(
                plan.sector_offset as int,
                plan.sector_offset + plan.take,
            ),
    {
        let slen: usize = sector_buf.len();
        let mut k: usize = 0;
        while k < plan.take
            invariant
                k <= plan.take,
                slen == sector_buf@.len(),
                plan.sector_offset + plan.take <= slen,
                out.len() == old(out).len() + k,
                forall|i: int| 0 <= i < old(out).len() ==> out[i] == old(out)[i],
                forall|i: int|
                    old(out).len() <= i < out.len() ==> #[trigger] out[i]
                        == sector_buf@[plan.sector_offset + (i - old(out).len())],
            decreases plan.take - k,
        {
            out.push(sector_buf[plan.sector_offset + k]);
            k = k + 1;
        }
        proof {
            assert(out@ =~= old(out)@ + sector_buf@.subrange(
                plan.sector_offset as int,
                plan.sector_offset + plan.take,
            ));
        }
        self.offset = self.offset + plan.take;
    }
}

} // verus!
