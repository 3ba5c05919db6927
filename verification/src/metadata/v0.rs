//! The version 0.90 superblock (legacy format, stored near the end of the device).

use vstd::prelude::*;
use vstd::bytes::*;
use crate::bytes::{le_u32_at, read_u32_at, words_le, lemma_words_le, lemma_words_le_read, read_words, words_to_le_bytes};
use crate::error::{MdError, MdResult, eof_message, eof_error};
use crate::text::{dec, dec_u64, cat3};
use vstd::slice::slice_subrange;
use vstd::arithmetic::div_mod::lemma_add_mod_noop;

verus! {

pub const MD_SB_MAGIC_V0: u32 = 0xa92b4efc;
pub const MD_SB_CLEAN: u32 = 0;
pub const MD_SB_ERRORS: u32 = 1;

pub const MD_DISK_FAULTY_V0: u32 = 1;
pub const MD_DISK_ACTIVE_V0: u32 = 2;
pub const MD_DISK_SYNC_V0: u32 = 4;
pub const MD_DISK_REMOVED_V0: u32 = 8;

/// Size of the area that holds a 0.90 superblock.
pub const MD_SB_BYTES: u64 = 4096;

/// Number of 32-bit words of the fixed part of the superblock.
pub const V0_HEADER_WORDS: usize = 36;

/// Most disk entries that a superblock is read with.
pub const V0_MAX_DISKS: u32 = 27;

/// Bytes from the superblock offset that a load can look at: the fixed part
/// and the largest disk table.
pub const V0_MAX_BYTES: usize = 684;

/// One entry of the disk table.
#[derive(Debug, Clone, Copy)]
pub struct DiskInfoV0 {
    pub number: u32,
    pub major: u32,
    pub minor: u32,
    pub raid_disk: u32,
    pub state: u32,
}

impl Default for DiskInfoV0 {
    fn default() -> (r: Self)
        ensures
            r.number == 0 && r.major == 0 && r.minor == 0 && r.raid_disk == 0 && r.state == 0,
    {
        DiskInfoV0 { number: 0, major: 0, minor: 0, raid_disk: 0, state: 0 }
    }
}

/// Version 0.90 superblock.
#[derive(Debug, Clone)]
pub struct SuperblockV0 {
    pub md_magic: u32,
    pub major_version: u32,
    pub minor_version: u32,
    pub patch_version: u32,
    pub gvalid_words: u32,
    pub set_uuid0: u32,
    pub ctime: u32,
    pub level: u32,
    pub size: u32,
    pub nr_disks: u32,
    pub raid_disks: u32,
    pub md_minor: u32,
    pub not_persistent: u32,
    pub set_uuid1: u32,
    pub set_uuid2: u32,
    pub set_uuid3: u32,
    pub utime: u32,
    pub state: u32,
    pub active_disks: u32,
    pub working_disks: u32,
    pub failed_disks: u32,
    pub spare_disks: u32,
    pub sb_csum: u32,
    pub events_lo: u32,
    pub events_hi: u32,
    pub cp_events_lo: u32,
    pub cp_events_hi: u32,
    pub recovery_cp: u32,
    pub reshape_position_lo: u32,
    pub reshape_position_hi: u32,
    pub new_level: u32,
    pub delta_disks: u32,
    pub new_layout: u32,
    pub new_chunk: u32,
    pub layout: u32,
    pub chunk_size: u32,
    pub disks: Vec<DiskInfoV0>,
    pub pad: Vec<u32>,
}

/// The five words of a disk entry, in on-disk order.
pub open spec fn disk_words(d: DiskInfoV0) -> Seq<u32> {
    seq![d.number, d.major, d.minor, d.raid_disk, d.state]
}

/// The words of a disk table, entry after entry.
pub open spec fn disk_table_words(ds: Seq<DiskInfoV0>) -> Seq<u32>
    decreases ds.len(),
{
    if ds.len() == 0 {
        Seq::empty()
    } else {
        disk_table_words(ds.drop_last()) + disk_words(ds.last())
    }
}

/// The disk entry stored at `pos` of `data`.
pub open spec fn disk_at(data: Seq<u8>, pos: int) -> DiskInfoV0 {
    DiskInfoV0 {
        number: le_u32_at(data, pos),
        major: le_u32_at(data, pos + 4),
        minor: le_u32_at(data, pos + 8),
        raid_disk: le_u32_at(data, pos + 12),
        state: le_u32_at(data, pos + 16),
    }
}

/// Number of disk entries that a superblock with `nr_disks` is read with.
pub open spec fn v0_disk_count(nr_disks: u32) -> nat {
    if nr_disks < V0_MAX_DISKS { nr_disks as nat } else { V0_MAX_DISKS as nat }
}

impl SuperblockV0 {
    /// The fixed part of the superblock, word by word, in on-disk order.
    pub open spec fn header_words(&self) -> Seq<u32> {
        seq![
            self.md_magic, self.major_version, self.minor_version, self.patch_version,
            self.gvalid_words, self.set_uuid0, self.ctime, self.level, self.size,
            self.nr_disks, self.raid_disks, self.md_minor, self.not_persistent,
            self.set_uuid1, self.set_uuid2, self.set_uuid3, self.utime, self.state,
            self.active_disks, self.working_disks, self.failed_disks, self.spare_disks,
            self.sb_csum, self.events_lo, self.events_hi, self.cp_events_lo,
            self.cp_events_hi, self.recovery_cp, self.reshape_position_lo,
            self.reshape_position_hi, self.new_level, self.delta_disks, self.new_layout,
            self.new_chunk, self.layout, self.chunk_size,
        ]
    }

    /// Every word that is written to disk: the fixed part, then the disk table.
    pub open spec fn all_words(&self) -> Seq<u32> {
        self.header_words() + disk_table_words(self.disks@)
    }

    /// The bytes that are written to disk.
    pub open spec fn spec_bytes(&self) -> Seq<u8> {
        words_le(self.all_words())
    }

    /// `self` is what is stored in `data`: the fixed part word by word, and as
    /// many disk entries as `nr_disks` says, at most 27.
    pub open spec fn parsed_from(&self, data: Seq<u8>) -> bool {
        &&& self.header_words() == Seq::new(36, |i: int| le_u32_at(data, 4 * i))
        &&& self.disks@ == Seq::new(v0_disk_count(self.nr_disks), |k: int| disk_at(data, 144 + 20 * k))
        &&& self.pad@.len() == 0
    }

    /// What loading the bytes `data` found at the superblock offset gives:
    /// an end of file while a field still needed bytes, a wrong magic number,
    /// a version other than 0.90, or the superblock stored there.
    pub open spec fn load_result(data: Seq<u8>, r: Result<SuperblockV0, MdError>) -> bool {
        if data.len() < 4 {
            r matches Err(MdError::Io(m)) && m@ == eof_message()
        } else if le_u32_at(data, 0) != MD_SB_MAGIC_V0 {
            r matches Err(MdError::MagicMismatch { expected, found })
                && expected == MD_SB_MAGIC_V0 && found == le_u32_at(data, 0)
        } else if data.len() < 16 {
            r matches Err(MdError::Io(m)) && m@ == eof_message()
        } else if le_u32_at(data, 4) != 0 || le_u32_at(data, 8) != 90 {
            r matches Err(MdError::UnsupportedMetadataVersion(m))
                && m@ == dec(le_u32_at(data, 4) as nat) + "."@ + dec(le_u32_at(data, 8) as nat)
        } else if data.len() < 144 || data.len() < 144 + 20 * v0_disk_count(le_u32_at(data, 36)) {
            r matches Err(MdError::Io(m)) && m@ == eof_message()
        } else {
            r matches Ok(sb) && sb.parsed_from(data)
        }
    }

    /// A superblock that a load gives back exactly as it was written: right
    /// magic and version, a disk table of the length that is read back, no padding.
    pub open spec fn is_loadable(&self) -> bool {
        &&& self.md_magic == MD_SB_MAGIC_V0
        &&& self.major_version == 0
        &&& self.minor_version == 90
        &&& self.disks@.len() == v0_disk_count(self.nr_disks)
        &&& self.pad@.len() == 0
    }
}

/// The words of a disk table sit five per entry, field by field.
pub proof fn lemma_disk_table_words(ds: Seq<DiskInfoV0>)
    ensures
        disk_table_words(ds).len() == 5 * ds.len(),
        forall|k: int, j: int| #![trigger ds[k], disk_words(ds[k])[j]]
            0 <= k < ds.len() && 0 <= j < 5 ==>
            disk_table_words(ds)[5 * k + j] == disk_words(ds[k])[j],
    decreases ds.len(),
{
    if ds.len() > 0 {
        let p = ds.drop_last();
        lemma_disk_table_words(p);
        assert forall|k: int, j: int| #![trigger ds[k], disk_words(ds[k])[j]]
            0 <= k < ds.len() && 0 <= j < 5 implies
            disk_table_words(ds)[5 * k + j] == disk_words(ds[k])[j] by {
            if k < ds.len() - 1 {
                assert(p[k] == ds[k]);
                assert(disk_words(p[k])[j] == disk_words(ds[k])[j]);
            }
        }
    }
}

impl Default for SuperblockV0 {
    /// A clean, empty 0.90 superblock: the magic number, version 0.90, every
    /// other field zero, no disks.
    fn default() -> (r: Self)
        ensures
            r.header_words() == Seq::new(36, |i: int| if i == 0 { MD_SB_MAGIC_V0 } else if i == 2 { 90u32 } else { 0u32 }),
            r.disks@.len() == 0,
            r.pad@.len() == 0,
    {
        let r = SuperblockV0 {
            md_magic: MD_SB_MAGIC_V0,
            major_version: 0,
            minor_version: 90,
            patch_version: 0,
            gvalid_words: 0,
            set_uuid0: 0,
            ctime: 0,
            level: 0,
            size: 0,
            nr_disks: 0,
            raid_disks: 0,
            md_minor: 0,
            not_persistent: 0,
            set_uuid1: 0,
            set_uuid2: 0,
            set_uuid3: 0,
            utime: 0,
            state: MD_SB_CLEAN,
            active_disks: 0,
            working_disks: 0,
            failed_disks: 0,
            spare_disks: 0,
            sb_csum: 0,
            events_lo: 0,
            events_hi: 0,
            cp_events_lo: 0,
            cp_events_hi: 0,
            recovery_cp: 0,
            reshape_position_lo: 0,
            reshape_position_hi: 0,
            new_level: 0,
            delta_disks: 0,
            new_layout: 0,
            new_chunk: 0,
            layout: 0,
            chunk_size: 0,
            disks: Vec::new(),
            pad: Vec::new(),
        };
        assert(r.header_words() =~= Seq::new(36, |i: int| if i == 0 { MD_SB_MAGIC_V0 } else if i == 2 { 90u32 } else { 0u32 }));
        r
    }
}

impl SuperblockV0 {
    /// The 64-bit event counter, high word first.
    pub fn events(&self) -> (r: u64)
        ensures
            r == self.events_hi as int * 0x1_0000_0000 + self.events_lo as int,
    {
        let hi = self.events_hi;
        let lo = self.events_lo;
        assert(((hi as u64) << 32u64) | (lo as u64) == (hi as u64) * 0x1_0000_0000u64 + (lo as u64)) by (bit_vector);
        ((hi as u64) << 32u64) | (lo as u64)
    }

    /// The 64-bit reshape position, high word first.
    pub fn reshape_position(&self) -> (r: u64)
        ensures
            r == self.reshape_position_hi as int * 0x1_0000_0000 + self.reshape_position_lo as int,
    {
        let hi = self.reshape_position_hi;
        let lo = self.reshape_position_lo;
        assert(((hi as u64) << 32u64) | (lo as u64) == (hi as u64) * 0x1_0000_0000u64 + (lo as u64)) by (bit_vector);
        ((hi as u64) << 32u64) | (lo as u64)
    }

    /// The array UUID as bytes: the four UUID words, each little-endian.
    pub open spec fn spec_uuid_bytes(&self) -> Seq<u8> {
        spec_u32_to_le_bytes(self.set_uuid0) + spec_u32_to_le_bytes(self.set_uuid1)
            + spec_u32_to_le_bytes(self.set_uuid2) + spec_u32_to_le_bytes(self.set_uuid3)
    }

    /// Gets the UUID as bytes.
    pub fn uuid_bytes(&self) -> (r: [u8; 16])
        ensures
            r@ == self.spec_uuid_bytes(),
    {
        proof { lemma_auto_spec_u32_to_from_le_bytes(); }
        let a = u32_to_le_bytes(self.set_uuid0);
        let b = u32_to_le_bytes(self.set_uuid1);
        let c = u32_to_le_bytes(self.set_uuid2);
        let d = u32_to_le_bytes(self.set_uuid3);
        let r = [a[0], a[1], a[2], a[3], b[0], b[1], b[2], b[3], c[0], c[1], c[2], c[3], d[0], d[1], d[2], d[3]];
        assert(r@ =~= self.spec_uuid_bytes());
        r
    }

    /// Replaces the UUID: each group of four bytes becomes one UUID word, read
    /// little-endian; nothing else changes.
    pub fn update_uuid(&mut self, new_uuid: [u8; 16])
        ensures
            final(self).header_words() == old(self).header_words()
                .update(5, spec_u32_from_le_bytes(new_uuid@.subrange(0, 4)))
                .update(13, spec_u32_from_le_bytes(new_uuid@.subrange(4, 8)))
                .update(14, spec_u32_from_le_bytes(new_uuid@.subrange(8, 12)))
                .update(15, spec_u32_from_le_bytes(new_uuid@.subrange(12, 16))),
            final(self).disks@ == old(self).disks@,
            final(self).pad@ == old(self).pad@,
    {
        let s = new_uuid.as_slice();
        self.set_uuid0 = u32_from_le_bytes(slice_subrange(s, 0, 4));
        self.set_uuid1 = u32_from_le_bytes(slice_subrange(s, 4, 8));
        self.set_uuid2 = u32_from_le_bytes(slice_subrange(s, 8, 12));
        self.set_uuid3 = u32_from_le_bytes(slice_subrange(s, 12, 16));
        assert(self.header_words() =~= old(self).header_words()
                .update(5, spec_u32_from_le_bytes(new_uuid@.subrange(0, 4)))
                .update(13, spec_u32_from_le_bytes(new_uuid@.subrange(4, 8)))
                .update(14, spec_u32_from_le_bytes(new_uuid@.subrange(8, 12)))
                .update(15, spec_u32_from_le_bytes(new_uuid@.subrange(12, 16))));
    }

    /// Offset of the superblock on a device of `device_size` bytes: 4 KiB below
    /// the device size rounded down to 64 KiB, or 0 on a device under 64 KiB.
    pub fn calculate_offset(device_size: u64) -> (r: u64)
        ensures
            r == if device_size >= 0x10000 { device_size - device_size % 0x10000 - 4096 } else { 0 },
    {
        let aligned_size = device_size & !0xFFFFu64;
        assert(aligned_size == device_size - device_size % 0x10000) by (bit_vector)
            requires aligned_size == device_size & !0xFFFFu64;
        if aligned_size >= MD_SB_BYTES {
            aligned_size - MD_SB_BYTES
        } else {
            0
        }
    }

    /// Checksum of the identifying fields: their sum modulo 2^32.
    pub fn calculate_checksum(&self) -> (r: u32)
        ensures
            r as int == (self.md_magic + self.major_version + self.minor_version + self.ctime
                + self.level + self.size) % 0x1_0000_0000,
    {
        let mut sum: u32 = 0;
        sum = sum.wrapping_add(self.md_magic);
        sum = sum.wrapping_add(self.major_version);
        let ghost s2: int = self.md_magic + self.major_version;
        assert(sum == s2 % 0x1_0000_0000);
        sum = sum.wrapping_add(self.minor_version);
        proof { lemma_add_mod_noop(s2, self.minor_version as int, 0x1_0000_0000); }
        let ghost s3: int = s2 + self.minor_version;
        assert(sum == s3 % 0x1_0000_0000);
        sum = sum.wrapping_add(self.ctime);
        proof { lemma_add_mod_noop(s3, self.ctime as int, 0x1_0000_0000); }
        let ghost s4: int = s3 + self.ctime;
        assert(sum == s4 % 0x1_0000_0000);
        sum = sum.wrapping_add(self.level);
        proof { lemma_add_mod_noop(s4, self.level as int, 0x1_0000_0000); }
        let ghost s5: int = s4 + self.level;
        assert(sum == s5 % 0x1_0000_0000);
        sum = sum.wrapping_add(self.size);
        proof { lemma_add_mod_noop(s5, self.size as int, 0x1_0000_0000); }
        sum
    }

    /// Loads a superblock from `data`, the bytes of the device from the
    /// superblock offset on (at least `V0_MAX_BYTES` of them, or all up to the end).
    pub fn load(data: &[u8]) -> (r: MdResult<SuperblockV0>)
        ensures
            Self::load_result(data@, r),
    {
        let n = data.len();
        if n < 4 {
            return Err(eof_error());
        }
        let md_magic = read_u32_at(data, 0);
        if md_magic != MD_SB_MAGIC_V0 {
            return Err(MdError::MagicMismatch { expected: MD_SB_MAGIC_V0, found: md_magic });
        }
        if n < 16 {
            return Err(eof_error());
        }
        let major_version = read_u32_at(data, 4);
        let minor_version = read_u32_at(data, 8);
        if major_version != 0 || minor_version != 90 {
            let m = cat3(dec_u64(major_version as u64).as_str(), ".", dec_u64(minor_version as u64).as_str());
            return Err(MdError::UnsupportedMetadataVersion(m));
        }
        if n < 144 {
            return Err(eof_error());
        }
        let w = read_words(data, 0, 36);
        let count: usize = if w[9] < V0_MAX_DISKS { w[9] as usize } else { V0_MAX_DISKS as usize };
        if n < 144 + 20 * count {
            return Err(eof_error());
        }
        let mut disks: Vec<DiskInfoV0> = Vec::new();
        let mut k: usize = 0;
        while k < count
            invariant
                n == data@.len(),
                144 + 20 * count <= n,
                k <= count,
                disks@ == Seq::new(k as nat, |j: int| disk_at(data@, 144 + 20 * j)),
            decreases count - k,
        {
            let p = 144 + 20 * k;
            let d = DiskInfoV0 {
                number: read_u32_at(data, p),
                major: read_u32_at(data, p + 4),
                minor: read_u32_at(data, p + 8),
                raid_disk: read_u32_at(data, p + 12),
                state: read_u32_at(data, p + 16),
            };
            disks.push(d);
            k = k + 1;
            assert(disks@ =~= Seq::new(k as nat, |j: int| disk_at(data@, 144 + 20 * j)));
        }
        let sb = SuperblockV0 {
            md_magic: w[0],
            major_version: w[1],
            minor_version: w[2],
            patch_version: w[3],
            gvalid_words: w[4],
            set_uuid0: w[5],
            ctime: w[6],
            level: w[7],
            size: w[8],
            nr_disks: w[9],
            raid_disks: w[10],
            md_minor: w[11],
            not_persistent: w[12],
            set_uuid1: w[13],
            set_uuid2: w[14],
            set_uuid3: w[15],
            utime: w[16],
            state: w[17],
            active_disks: w[18],
            working_disks: w[19],
            failed_disks: w[20],
            spare_disks: w[21],
            sb_csum: w[22],
            events_lo: w[23],
            events_hi: w[24],
            cp_events_lo: w[25],
            cp_events_hi: w[26],
            recovery_cp: w[27],
            reshape_position_lo: w[28],
            reshape_position_hi: w[29],
            new_level: w[30],
            delta_disks: w[31],
            new_layout: w[32],
            new_chunk: w[33],
            layout: w[34],
            chunk_size: w[35],
            disks,
            pad: Vec::new(),
        };
        assert(sb.header_words() =~= Seq::new(36, |i: int| le_u32_at(data@, 4 * i)));
        Ok(sb)
    }

    /// The bytes that writing the superblock puts at its offset: the fixed part
    /// and every disk entry, word by word, little-endian.
    pub fn to_bytes(&self) -> (r: Vec<u8>)
        ensures
            r@ == self.spec_bytes(),
    {
        let mut w: Vec<u32> = Vec::new();
        w.push(self.md_magic);
        w.push(self.major_version);
        w.push(self.minor_version);
        w.push(self.patch_version);
        w.push(self.gvalid_words);
        w.push(self.set_uuid0);
        w.push(self.ctime);
        w.push(self.level);
        w.push(self.size);
        w.push(self.nr_disks);
        w.push(self.raid_disks);
        w.push(self.md_minor);
        w.push(self.not_persistent);
        w.push(self.set_uuid1);
        w.push(self.set_uuid2);
        w.push(self.set_uuid3);
        w.push(self.utime);
        w.push(self.state);
        w.push(self.active_disks);
        w.push(self.working_disks);
        w.push(self.failed_disks);
        w.push(self.spare_disks);
        w.push(self.sb_csum);
        w.push(self.events_lo);
        w.push(self.events_hi);
        w.push(self.cp_events_lo);
        w.push(self.cp_events_hi);
        w.push(self.recovery_cp);
        w.push(self.reshape_position_lo);
        w.push(self.reshape_position_hi);
        w.push(self.new_level);
        w.push(self.delta_disks);
        w.push(self.new_layout);
        w.push(self.new_chunk);
        w.push(self.layout);
        w.push(self.chunk_size);
        assert(w@ =~= self.header_words());
        let mut k: usize = 0;
        while k < self.disks.len()
            invariant
                k <= self.disks@.len(),
                w@ == self.header_words() + disk_table_words(self.disks@.subrange(0, k as int)),
            decreases self.disks@.len() - k,
        {
            let d = self.disks[k];
            w.push(d.number);
            w.push(d.major);
            w.push(d.minor);
            w.push(d.raid_disk);
            w.push(d.state);
            assert(self.disks@.subrange(0, k + 1).drop_last() =~= self.disks@.subrange(0, k as int));
            k = k + 1;
            assert(w@ =~= self.header_words() + disk_table_words(self.disks@.subrange(0, k as int)));
        }
        assert(self.disks@.subrange(0, k as int) =~= self.disks@);
        words_to_le_bytes(w.as_slice())
    }
}

/// What loading gives back of what writing put on disk: a loadable superblock,
/// written and then read from the same offset, whatever bytes follow it, comes
/// back with the same fields, the same disk table and no padding.
pub proof fn lemma_load_after_write(sb: SuperblockV0, rest: Seq<u8>, r: Result<SuperblockV0, MdError>)
    requires
        sb.is_loadable(),
        SuperblockV0::load_result(sb.spec_bytes() + rest, r),
    ensures
        r matches Ok(back) && back.header_words() == sb.header_words() && back.disks@ == sb.disks@
            && back.pad@ == sb.pad@,
{
    let all = sb.all_words();
    let data = sb.spec_bytes() + rest;
    let n = v0_disk_count(sb.nr_disks);
    lemma_words_le(all);
    lemma_disk_table_words(sb.disks@);
    assert(all.len() == 36 + 5 * n);
    assert forall|i: int| 0 <= i < all.len() implies #[trigger] le_u32_at(data, 4 * i) == all[i] by {
        lemma_words_le_read(all, rest, i);
    }
    assert(le_u32_at(data, 4 * 0int) == all[0]);
    assert(le_u32_at(data, 4 * 1int) == all[1]);
    assert(le_u32_at(data, 4 * 2int) == all[2]);
    assert(le_u32_at(data, 4 * 9int) == all[9]);
    let back = r->Ok_0;
    assert(back.header_words() =~= sb.header_words()) by {
        assert forall|i: int| 0 <= i < 36 implies back.header_words()[i] == sb.header_words()[i] by {
            assert(le_u32_at(data, 4 * i) == all[i]);
        }
    }
    assert(back.disks@ =~= sb.disks@) by {
        assert forall|k: int| 0 <= k < n implies back.disks@[k] == sb.disks@[k] by {
            let d = sb.disks@[k];
            assert(disk_words(d)[0] == d.number);
            assert(disk_table_words(sb.disks@)[5 * k + 0] == disk_words(d)[0]);
            assert(disk_table_words(sb.disks@)[5 * k + 1] == disk_words(d)[1]);
            assert(disk_table_words(sb.disks@)[5 * k + 2] == disk_words(d)[2]);
            assert(disk_table_words(sb.disks@)[5 * k + 3] == disk_words(d)[3]);
            assert(disk_table_words(sb.disks@)[5 * k + 4] == disk_words(d)[4]);
            assert(all[36 + 5 * k] == d.number);
            assert(le_u32_at(data, 4 * (36 + 5 * k)) == all[36 + 5 * k]);
            assert(le_u32_at(data, 4 * (36 + 5 * k + 1)) == all[36 + 5 * k + 1]);
            assert(le_u32_at(data, 4 * (36 + 5 * k + 2)) == all[36 + 5 * k + 2]);
            assert(le_u32_at(data, 4 * (36 + 5 * k + 3)) == all[36 + 5 * k + 3]);
            assert(le_u32_at(data, 4 * (36 + 5 * k + 4)) == all[36 + 5 * k + 4]);
        }
    }
}

/// Setting a UUID and reading it back gives the same sixteen bytes.
pub proof fn lemma_uuid_roundtrip(before: SuperblockV0, after: SuperblockV0, uuid: Seq<u8>)
    requires
        uuid.len() == 16,
        after.header_words() == before.header_words()
            .update(5, spec_u32_from_le_bytes(uuid.subrange(0, 4)))
            .update(13, spec_u32_from_le_bytes(uuid.subrange(4, 8)))
            .update(14, spec_u32_from_le_bytes(uuid.subrange(8, 12)))
            .update(15, spec_u32_from_le_bytes(uuid.subrange(12, 16))),
    ensures
        after.spec_uuid_bytes() == uuid,
{
    lemma_auto_spec_u32_to_from_le_bytes();
    assert(after.header_words()[5] == after.set_uuid0);
    assert(after.header_words()[13] == after.set_uuid1);
    assert(after.header_words()[14] == after.set_uuid2);
    assert(after.header_words()[15] == after.set_uuid3);
    assert(after.spec_uuid_bytes() =~= uuid.subrange(0, 4) + uuid.subrange(4, 8) + uuid.subrange(8, 12) + uuid.subrange(12, 16));
    assert(uuid.subrange(0, 4) + uuid.subrange(4, 8) + uuid.subrange(8, 12) + uuid.subrange(12, 16) =~= uuid);
}


/// Each field of a loaded 0.90 superblock is the little-endian word at its
/// fixed byte offset: the magic at 0, the versions at 4, 8 and 12, and so on
/// to the layout at 136 and the chunk size at 140; the disk entries follow
/// from byte 144, twenty bytes each.
pub proof fn lemma_loaded_fields_at_offsets(data: Seq<u8>, r: Result<SuperblockV0, MdError>)
    requires
        SuperblockV0::load_result(data, r),
        r is Ok,
    ensures
        r matches Ok(sb) && data.len() >= 144
            && sb.md_magic == le_u32_at(data, 0)
            && sb.major_version == le_u32_at(data, 4)
            && sb.minor_version == le_u32_at(data, 8)
            && sb.patch_version == le_u32_at(data, 12)
            && sb.gvalid_words == le_u32_at(data, 16)
            && sb.set_uuid0 == le_u32_at(data, 20)
            && sb.ctime == le_u32_at(data, 24)
            && sb.level == le_u32_at(data, 28)
            && sb.size == le_u32_at(data, 32)
            && sb.nr_disks == le_u32_at(data, 36)
            && sb.raid_disks == le_u32_at(data, 40)
            && sb.md_minor == le_u32_at(data, 44)
            && sb.not_persistent == le_u32_at(data, 48)
            && sb.set_uuid1 == le_u32_at(data, 52)
            && sb.set_uuid2 == le_u32_at(data, 56)
            && sb.set_uuid3 == le_u32_at(data, 60)
            && sb.utime == le_u32_at(data, 64)
            && sb.state == le_u32_at(data, 68)
            && sb.active_disks == le_u32_at(data, 72)
            && sb.working_disks == le_u32_at(data, 76)
            && sb.failed_disks == le_u32_at(data, 80)
            && sb.spare_disks == le_u32_at(data, 84)
            && sb.sb_csum == le_u32_at(data, 88)
            && sb.events_lo == le_u32_at(data, 92)
            && sb.events_hi == le_u32_at(data, 96)
            && sb.cp_events_lo == le_u32_at(data, 100)
            && sb.cp_events_hi == le_u32_at(data, 104)
            && sb.recovery_cp == le_u32_at(data, 108)
            && sb.reshape_position_lo == le_u32_at(data, 112)
            && sb.reshape_position_hi == le_u32_at(data, 116)
            && sb.new_level == le_u32_at(data, 120)
            && sb.delta_disks == le_u32_at(data, 124)
            && sb.new_layout == le_u32_at(data, 128)
            && sb.new_chunk == le_u32_at(data, 132)
            && sb.layout == le_u32_at(data, 136)
            && sb.chunk_size == le_u32_at(data, 140)
            && sb.disks@.len() == v0_disk_count(le_u32_at(data, 36))
            && (forall|k: int| 0 <= k < sb.disks@.len() ==> #[trigger] sb.disks@[k] == disk_at(data, 144 + 20 * k)),
{
    let sb = r->Ok_0;
    let h = Seq::new(36, |i: int| le_u32_at(data, 4 * i));
    assert(sb.header_words() == h);
    assert forall|i: int| 0 <= i < 36 implies #[trigger] sb.header_words()[i] == le_u32_at(data, 4 * i) by {
        assert(h[i] == le_u32_at(data, 4 * i));
    }
    assert(sb.header_words()[9] == le_u32_at(data, 36));
}

/// Writing a 0.90 superblock puts each field at its fixed byte offset, as a
/// little-endian word: the magic at 0, and so on to the layout at 136 and the
/// chunk size at 140; the disk entries follow from byte 144, twenty bytes each.
pub proof fn lemma_written_fields_at_offsets(sb: SuperblockV0)
    ensures
        sb.spec_bytes().len() == 144 + 20 * sb.disks@.len(),
        le_u32_at(sb.spec_bytes(), 0) == sb.md_magic,
        le_u32_at(sb.spec_bytes(), 4) == sb.major_version,
        le_u32_at(sb.spec_bytes(), 8) == sb.minor_version,
        le_u32_at(sb.spec_bytes(), 12) == sb.patch_version,
        le_u32_at(sb.spec_bytes(), 16) == sb.gvalid_words,
        le_u32_at(sb.spec_bytes(), 20) == sb.set_uuid0,
        le_u32_at(sb.spec_bytes(), 24) == sb.ctime,
        le_u32_at(sb.spec_bytes(), 28) == sb.level,
        le_u32_at(sb.spec_bytes(), 32) == sb.size,
        le_u32_at(sb.spec_bytes(), 36) == sb.nr_disks,
        le_u32_at(sb.spec_bytes(), 40) == sb.raid_disks,
        le_u32_at(sb.spec_bytes(), 44) == sb.md_minor,
        le_u32_at(sb.spec_bytes(), 48) == sb.not_persistent,
        le_u32_at(sb.spec_bytes(), 52) == sb.set_uuid1,
        le_u32_at(sb.spec_bytes(), 56) == sb.set_uuid2,
        le_u32_at(sb.spec_bytes(), 60) == sb.set_uuid3,
        le_u32_at(sb.spec_bytes(), 64) == sb.utime,
        le_u32_at(sb.spec_bytes(), 68) == sb.state,
        le_u32_at(sb.spec_bytes(), 72) == sb.active_disks,
        le_u32_at(sb.spec_bytes(), 76) == sb.working_disks,
        le_u32_at(sb.spec_bytes(), 80) == sb.failed_disks,
        le_u32_at(sb.spec_bytes(), 84) == sb.spare_disks,
        le_u32_at(sb.spec_bytes(), 88) == sb.sb_csum,
        le_u32_at(sb.spec_bytes(), 92) == sb.events_lo,
        le_u32_at(sb.spec_bytes(), 96) == sb.events_hi,
        le_u32_at(sb.spec_bytes(), 100) == sb.cp_events_lo,
        le_u32_at(sb.spec_bytes(), 104) == sb.cp_events_hi,
        le_u32_at(sb.spec_bytes(), 108) == sb.recovery_cp,
        le_u32_at(sb.spec_bytes(), 112) == sb.reshape_position_lo,
        le_u32_at(sb.spec_bytes(), 116) == sb.reshape_position_hi,
        le_u32_at(sb.spec_bytes(), 120) == sb.new_level,
        le_u32_at(sb.spec_bytes(), 124) == sb.delta_disks,
        le_u32_at(sb.spec_bytes(), 128) == sb.new_layout,
        le_u32_at(sb.spec_bytes(), 132) == sb.new_chunk,
        le_u32_at(sb.spec_bytes(), 136) == sb.layout,
        le_u32_at(sb.spec_bytes(), 140) == sb.chunk_size,
        forall|k: int| 0 <= k < sb.disks@.len() ==> disk_at(sb.spec_bytes(), 144 + 20 * k) == #[trigger] sb.disks@[k],
{
    let all = sb.all_words();
    let bytes = sb.spec_bytes();
    lemma_disk_table_words(sb.disks@);
    lemma_words_le(all);
    assert(bytes + Seq::<u8>::empty() =~= bytes);
    assert forall|i: int| 0 <= i < all.len() implies #[trigger] le_u32_at(bytes, 4 * i) == all[i] by {
        lemma_words_le_read(all, Seq::<u8>::empty(), i);
    }
    assert forall|i: int| 0 <= i < 36 implies #[trigger] all[i] == sb.header_words()[i] by {}
    lemma_words_le_read(all, Seq::<u8>::empty(), 0);
    lemma_words_le_read(all, Seq::<u8>::empty(), 1);
    lemma_words_le_read(all, Seq::<u8>::empty(), 2);
    lemma_words_le_read(all, Seq::<u8>::empty(), 3);
    lemma_words_le_read(all, Seq::<u8>::empty(), 4);
    lemma_words_le_read(all, Seq::<u8>::empty(), 5);
    lemma_words_le_read(all, Seq::<u8>::empty(), 6);
    lemma_words_le_read(all, Seq::<u8>::empty(), 7);
    lemma_words_le_read(all, Seq::<u8>::empty(), 8);
    lemma_words_le_read(all, Seq::<u8>::empty(), 9);
    lemma_words_le_read(all, Seq::<u8>::empty(), 10);
    lemma_words_le_read(all, Seq::<u8>::empty(), 11);
    lemma_words_le_read(all, Seq::<u8>::empty(), 12);
    lemma_words_le_read(all, Seq::<u8>::empty(), 13);
    lemma_words_le_read(all, Seq::<u8>::empty(), 14);
    lemma_words_le_read(all, Seq::<u8>::empty(), 15);
    lemma_words_le_read(all, Seq::<u8>::empty(), 16);
    lemma_words_le_read(all, Seq::<u8>::empty(), 17);
    lemma_words_le_read(all, Seq::<u8>::empty(), 18);
    lemma_words_le_read(all, Seq::<u8>::empty(), 19);
    lemma_words_le_read(all, Seq::<u8>::empty(), 20);
    lemma_words_le_read(all, Seq::<u8>::empty(), 21);
    lemma_words_le_read(all, Seq::<u8>::empty(), 22);
    lemma_words_le_read(all, Seq::<u8>::empty(), 23);
    lemma_words_le_read(all, Seq::<u8>::empty(), 24);
    lemma_words_le_read(all, Seq::<u8>::empty(), 25);
    lemma_words_le_read(all, Seq::<u8>::empty(), 26);
    lemma_words_le_read(all, Seq::<u8>::empty(), 27);
    lemma_words_le_read(all, Seq::<u8>::empty(), 28);
    lemma_words_le_read(all, Seq::<u8>::empty(), 29);
    lemma_words_le_read(all, Seq::<u8>::empty(), 30);
    lemma_words_le_read(all, Seq::<u8>::empty(), 31);
    lemma_words_le_read(all, Seq::<u8>::empty(), 32);
    lemma_words_le_read(all, Seq::<u8>::empty(), 33);
    lemma_words_le_read(all, Seq::<u8>::empty(), 34);
    lemma_words_le_read(all, Seq::<u8>::empty(), 35);
        assert(sb.header_words()[0] == sb.md_magic);
        assert(sb.header_words()[1] == sb.major_version);
        assert(sb.header_words()[2] == sb.minor_version);
        assert(sb.header_words()[3] == sb.patch_version);
        assert(sb.header_words()[4] == sb.gvalid_words);
        assert(sb.header_words()[5] == sb.set_uuid0);
        assert(sb.header_words()[6] == sb.ctime);
        assert(sb.header_words()[7] == sb.level);
        assert(sb.header_words()[8] == sb.size);
        assert(sb.header_words()[9] == sb.nr_disks);
        assert(sb.header_words()[10] == sb.raid_disks);
        assert(sb.header_words()[11] == sb.md_minor);
        assert(sb.header_words()[12] == sb.not_persistent);
        assert(sb.header_words()[13] == sb.set_uuid1);
        assert(sb.header_words()[14] == sb.set_uuid2);
        assert(sb.header_words()[15] == sb.set_uuid3);
        assert(sb.header_words()[16] == sb.utime);
        assert(sb.header_words()[17] == sb.state);
        assert(sb.header_words()[18] == sb.active_disks);
        assert(sb.header_words()[19] == sb.working_disks);
        assert(sb.header_words()[20] == sb.failed_disks);
        assert(sb.header_words()[21] == sb.spare_disks);
        assert(sb.header_words()[22] == sb.sb_csum);
        assert(sb.header_words()[23] == sb.events_lo);
        assert(sb.header_words()[24] == sb.events_hi);
        assert(sb.header_words()[25] == sb.cp_events_lo);
        assert(sb.header_words()[26] == sb.cp_events_hi);
        assert(sb.header_words()[27] == sb.recovery_cp);
        assert(sb.header_words()[28] == sb.reshape_position_lo);
        assert(sb.header_words()[29] == sb.reshape_position_hi);
        assert(sb.header_words()[30] == sb.new_level);
        assert(sb.header_words()[31] == sb.delta_disks);
        assert(sb.header_words()[32] == sb.new_layout);
        assert(sb.header_words()[33] == sb.new_chunk);
        assert(sb.header_words()[34] == sb.layout);
        assert(sb.header_words()[35] == sb.chunk_size);
    assert forall|k: int| 0 <= k < sb.disks@.len() implies disk_at(bytes, 144 + 20 * k) == #[trigger] sb.disks@[k] by {
        let d = sb.disks@[k];
        assert forall|j: int| 0 <= j < 5 implies #[trigger] all[36 + 5 * k + j] == disk_words(d)[j] by {
            assert(all[36 + 5 * k + j] == disk_table_words(sb.disks@)[5 * k + j]);
        }
        assert(le_u32_at(bytes, 4 * (36 + 5 * k + 0)) == all[36 + 5 * k + 0]);
        assert(le_u32_at(bytes, 4 * (36 + 5 * k + 1)) == all[36 + 5 * k + 1]);
        assert(le_u32_at(bytes, 4 * (36 + 5 * k + 2)) == all[36 + 5 * k + 2]);
        assert(le_u32_at(bytes, 4 * (36 + 5 * k + 3)) == all[36 + 5 * k + 3]);
        assert(le_u32_at(bytes, 4 * (36 + 5 * k + 4)) == all[36 + 5 * k + 4]);
        assert(disk_words(d)[0] == d.number);
        assert(disk_words(d)[1] == d.major);
        assert(disk_words(d)[2] == d.minor);
        assert(disk_words(d)[3] == d.raid_disk);
        assert(disk_words(d)[4] == d.state);
    }
}

} // verus!
