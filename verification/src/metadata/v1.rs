//! The version 1.x superblock (1.0 at the end of the device, 1.1 at its start,
//! 1.2 four KiB from its start).

use vstd::prelude::*;
use vstd::bytes::*;
use crate::bytes::{le_u16_at, le_u32_at, le_u64_at, read_u16_at, read_u32_at, read_u64_at, push_u16, push_u32, push_u64};
use crate::error::{MdError, MdResult, eof_message, eof_error};
use vstd::arithmetic::div_mod::lemma_add_mod_noop;

verus! {

pub const MD_SB_MAGIC: u32 = 0xa92b4efc;

pub const MD_FEATURE_BITMAP_OFFSET: u32 = 1;
pub const MD_FEATURE_RECOVERY_OFFSET: u32 = 2;
pub const MD_FEATURE_RESHAPE_ACTIVE: u32 = 4;
pub const MD_FEATURE_BAD_BLOCKS: u32 = 8;
pub const MD_FEATURE_REPLACEMENT: u32 = 16;
pub const MD_FEATURE_RESHAPE_BACKWARDS: u32 = 32;
pub const MD_FEATURE_NEW_OFFSET: u32 = 64;
pub const MD_FEATURE_RECOVERY_BITMAP: u32 = 128;
pub const MD_FEATURE_CLUSTERED: u32 = 256;
pub const MD_FEATURE_JOURNAL: u32 = 512;

pub const MD_DISK_ROLE_SPARE: u16 = 0xffff;
pub const MD_DISK_ROLE_FAULTY: u16 = 0xfffe;
pub const MD_DISK_ROLE_JOURNAL: u16 = 0xfffd;
pub const MD_DISK_ROLE_MAX: u16 = 0xff00;

/// Bytes of the fixed part that a superblock must hold to be loaded at all.
pub const V1_REQUIRED_BYTES: usize = 100;

/// Bytes of the fixed part, before the device roles.
pub const V1_FIXED_BYTES: usize = 200;

/// Version 1.x superblock.
#[derive(Debug, Clone)]
pub struct SuperblockV1 {
    pub magic: u32,
    pub major_version: u32,
    pub feature_map: u32,
    pub pad0: u32,
    pub set_uuid: [u8; 16],
    pub set_name: [u8; 32],
    pub ctime: u64,
    pub utime: u64,
    pub level: i32,
    pub layout: i32,
    pub size: u64,
    pub chunksize: i32,
    pub raid_disks: i32,
    pub bitmap_offset: i32,
    pub new_level: i32,
    pub reshape_position: u64,
    pub delta_disks: i32,
    pub new_layout: i32,
    pub new_chunk: i32,
    pub new_offset: i32,
    pub data_offset: u64,
    pub data_size: u64,
    pub super_offset: u64,
    pub recovery_offset: u64,
    pub dev_number: u32,
    pub cnt_corrected_read: u32,
    pub dev_roles: Vec<u16>,
    pub sb_csum: u32,
    pub events: u64,
    pub resync_offset: u64,
    pub bblog_shift: u8,
    pub bblog_size: u16,
    pub bblog_offset: u32,
    pub max_dev: u32,
    pub minor_version: u32,
    pub pad_bytes: Vec<u8>,
}

/// The `u32` at `pos` of `data`, or `default` when `data` ends before it.
pub open spec fn opt_u32(data: Seq<u8>, pos: int, default: u32) -> u32 {
    if pos + 4 <= data.len() { le_u32_at(data, pos) } else { default }
}

/// The `i32` at `pos` of `data`, or `default` when `data` ends before it.
pub open spec fn opt_i32(data: Seq<u8>, pos: int, default: i32) -> i32 {
    if pos + 4 <= data.len() { le_u32_at(data, pos) as i32 } else { default }
}

/// The `u64` at `pos` of `data`, or `default` when `data` ends before it.
pub open spec fn opt_u64(data: Seq<u8>, pos: int, default: u64) -> u64 {
    if pos + 8 <= data.len() { le_u64_at(data, pos) } else { default }
}

/// Number of device roles that are read: as many as `max_dev` says, as long as
/// the data lasts; none when the data ends inside the fixed part.
pub open spec fn role_count(data: Seq<u8>, max_dev: u32) -> nat {
    if data.len() < 200 {
        0
    } else if max_dev as int <= (data.len() - 200) / 2 {
        max_dev as nat
    } else {
        ((data.len() - 200) / 2) as nat
    }
}

/// Whether the bad-block fields are read at all: only after every device role was read.
pub open spec fn bblog_readable(data: Seq<u8>, max_dev: u32) -> bool {
    data.len() >= 200 && role_count(data, max_dev) == max_dev
}

/// The little-endian encoding of device roles, one after the other.
pub open spec fn roles_le(r: Seq<u16>) -> Seq<u8>
    decreases r.len(),
{
    if r.len() == 0 {
        Seq::empty()
    } else {
        roles_le(r.drop_last()) + spec_u16_to_le_bytes(r.last())
    }
}

/// What a load attempt at one position finds.
pub enum V1Probe {
    /// No 1.x magic number there: the next position is tried.
    NoMagic,
    /// The magic number, with a major version other than 1: the next position is tried.
    WrongMajor,
    /// Reading failed: the load stops with this error.
    Failed(MdError),
    /// A superblock.
    Found(SuperblockV1),
}

impl SuperblockV1 {
    /// `self` is the superblock stored in `data`, read as version `1.minor`
    /// at byte `offset` of the device. Fields past the first 100 bytes that the
    /// data does not hold take their defaults.
    pub open spec fn parsed_at(&self, data: Seq<u8>, minor: u32, offset: u64) -> bool {
        let level = le_u32_at(data, 72) as i32;
        let layout = le_u32_at(data, 76) as i32;
        let size = le_u64_at(data, 80);
        let chunksize = le_u32_at(data, 88) as i32;
        let raid_disks = le_u32_at(data, 92) as i32;
        let ctime = le_u64_at(data, 64);
        let max_dev = opt_u32(data, 196, raid_disks as u32);
        let p = 200 + 2 * max_dev;
        let bb = bblog_readable(data, max_dev);
        &&& self.magic == le_u32_at(data, 0)
        &&& self.major_version == le_u32_at(data, 4)
        &&& self.feature_map == le_u32_at(data, 8)
        &&& self.pad0 == le_u32_at(data, 12)
        &&& self.set_uuid@ == data.subrange(16, 32)
        &&& self.set_name@ == data.subrange(32, 64)
        &&& self.ctime == ctime
        &&& self.level == level
        &&& self.layout == layout
        &&& self.size == size
        &&& self.chunksize == chunksize
        &&& self.raid_disks == raid_disks
        &&& self.bitmap_offset == le_u32_at(data, 96) as i32
        &&& self.new_level == opt_i32(data, 100, level)
        &&& self.reshape_position == opt_u64(data, 104, 0)
        &&& self.delta_disks == opt_i32(data, 112, 0)
        &&& self.new_layout == opt_i32(data, 116, layout)
        &&& self.new_chunk == opt_i32(data, 120, chunksize)
        &&& self.new_offset == opt_i32(data, 124, 0)
        &&& self.data_offset == opt_u64(data, 128, 0)
        &&& self.data_size == opt_u64(data, 136, size)
        &&& self.super_offset == opt_u64(data, 144, offset / 512)
        &&& self.recovery_offset == opt_u64(data, 152, 0)
        &&& self.dev_number == opt_u32(data, 160, 0)
        &&& self.cnt_corrected_read == opt_u32(data, 164, 0)
        &&& self.utime == opt_u64(data, 168, ctime)
        &&& self.events == opt_u64(data, 176, 0)
        &&& self.resync_offset == opt_u64(data, 184, 0)
        &&& self.sb_csum == opt_u32(data, 192, 0)
        &&& self.max_dev == max_dev
        &&& self.dev_roles@ == Seq::new(role_count(data, max_dev), |i: int| le_u16_at(data, 200 + 2 * i))
        &&& self.bblog_shift == (if bb && p + 1 <= data.len() { data[p] } else { 0u8 })
        &&& self.bblog_size == (if bb && p + 3 <= data.len() { le_u16_at(data, p + 1) } else { 0u16 })
        &&& self.bblog_offset == (if bb && p + 7 <= data.len() { le_u32_at(data, p + 3) } else { 0u32 })
        &&& self.minor_version == minor
        &&& self.pad_bytes@.len() == 0
    }

    /// What one load attempt finds in `data`, the bytes of the device from
    /// `offset` on, read as version `1.minor`.
    pub open spec fn probe_result(data: Seq<u8>, minor: u32, offset: u64, r: V1Probe) -> bool {
        if data.len() < 4 || le_u32_at(data, 0) != MD_SB_MAGIC {
            r is NoMagic
        } else if data.len() < 8 {
            r matches V1Probe::Failed(MdError::Io(m)) && m@ == eof_message()
        } else if le_u32_at(data, 4) != 1 {
            r is WrongMajor
        } else if data.len() < 100 {
            r matches V1Probe::Failed(MdError::Io(m)) && m@ == eof_message()
        } else {
            r matches V1Probe::Found(sb) && sb.parsed_at(data, minor, offset)
        }
    }
}


/// Whether a load attempt on `data` moves on to the next position: no magic
/// number there, or a major version other than 1.
pub open spec fn v1_skips(data: Seq<u8>) -> bool {
    data.len() < 4 || le_u32_at(data, 0) != MD_SB_MAGIC || (data.len() >= 8 && le_u32_at(data, 4) != 1)
}

/// Whether `data` holds the magic number but ends inside the first 100 bytes.
pub open spec fn v1_truncated(data: Seq<u8>) -> bool {
    !v1_skips(data) && data.len() < 100
}

/// Offset of a `1.minor` superblock on a device of `device_size` bytes: 8 KiB
/// below the size rounded down to 8 KiB for 1.0 (0 on a device of at most 16 KiB),
/// the start for 1.1, and 4 KiB for 1.2 and any other minor version.
pub open spec fn spec_offset_for_minor(minor: u32, device_size: u64) -> u64 {
    if minor == 0 {
        if device_size - device_size % 8192 > 8192 { (device_size - device_size % 8192 - 8192) as u64 } else { 0 }
    } else if minor == 1 {
        0
    } else {
        4096
    }
}

impl SuperblockV1 {
    /// What loading a 1.x superblock from a device of `device_size` bytes gives,
    /// where `at2`, `at1` and `at0` are the bytes of the device from the 1.2, 1.1
    /// and 1.0 offsets on: the first of these positions, in that order, that holds
    /// the magic number and major version 1 is read; when none does, no superblock
    /// is found.
    pub open spec fn load_result(device_size: u64, at2: Seq<u8>, at1: Seq<u8>, at0: Seq<u8>, r: Result<SuperblockV1, MdError>) -> bool {
        if !v1_skips(at2) {
            if v1_truncated(at2) {
                r matches Err(MdError::Io(m)) && m@ == eof_message()
            } else {
                r matches Ok(sb) && sb.parsed_at(at2, 2, spec_offset_for_minor(2, device_size))
            }
        } else if !v1_skips(at1) {
            if v1_truncated(at1) {
                r matches Err(MdError::Io(m)) && m@ == eof_message()
            } else {
                r matches Ok(sb) && sb.parsed_at(at1, 1, spec_offset_for_minor(1, device_size))
            }
        } else if !v1_skips(at0) {
            if v1_truncated(at0) {
                r matches Err(MdError::Io(m)) && m@ == eof_message()
            } else {
                r matches Ok(sb) && sb.parsed_at(at0, 0, spec_offset_for_minor(0, device_size))
            }
        } else {
            r matches Err(MdError::InvalidMetadata(m)) && m@ == "No valid 1.x superblock found"@
        }
    }

    /// Offset of the superblock of metadata version `1.minor`.
    pub fn offset_for_minor(minor: u32, device_size: u64) -> (r: u64)
        ensures
            r == spec_offset_for_minor(minor, device_size),
    {
        match minor {
            0 => {
                let aligned_size = device_size & !0x1FFFu64;
                assert(aligned_size == device_size - device_size % 8192) by (bit_vector)
                    requires aligned_size == device_size & !0x1FFFu64;
                if aligned_size > 8192 {
                    aligned_size - 8192
                } else {
                    0
                }
            },
            1 => 0,
            _ => 4096,
        }
    }

    /// Bytes from the superblock offset that a load reads at most: the fixed
    /// part, every device role and the bad-block fields.
    pub fn bytes_needed(head: &[u8]) -> (r: u64)
        ensures
            r == if head@.len() >= 200 { 207 + 2 * le_u32_at(head@, 196) } else { 200 },
    {
        if head.len() >= 200 {
            let max_dev = read_u32_at(head, 196);
            207 + 2 * (max_dev as u64)
        } else {
            200
        }
    }

    /// One load attempt: the bytes of the device from `offset` on, read as version `1.minor`.
    pub fn probe(data: &[u8], minor: u32, offset: u64) -> (r: V1Probe)
        ensures
            Self::probe_result(data@, minor, offset, r),
    {
        let n = data.len();
        if n < 4 {
            return V1Probe::NoMagic;
        }
        let magic = read_u32_at(data, 0);
        if magic != MD_SB_MAGIC {
            return V1Probe::NoMagic;
        }
        if n < 8 {
            return V1Probe::Failed(eof_error());
        }
        let major_version = read_u32_at(data, 4);
        if major_version != 1 {
            return V1Probe::WrongMajor;
        }
        if n < 100 {
            return V1Probe::Failed(eof_error());
        }
        let feature_map = read_u32_at(data, 8);
        let pad0 = read_u32_at(data, 12);
        let set_uuid: [u8; 16] = [
            data[16], data[17], data[18], data[19], data[20], data[21], data[22], data[23],
            data[24], data[25], data[26], data[27], data[28], data[29], data[30], data[31],
        ];
        let set_name: [u8; 32] = [
            data[32], data[33], data[34], data[35], data[36], data[37], data[38], data[39],
            data[40], data[41], data[42], data[43], data[44], data[45], data[46], data[47],
            data[48], data[49], data[50], data[51], data[52], data[53], data[54], data[55],
            data[56], data[57], data[58], data[59], data[60], data[61], data[62], data[63],
        ];
        assert(set_uuid@ =~= data@.subrange(16, 32));
        assert(set_name@ =~= data@.subrange(32, 64));
        let ctime = read_u64_at(data, 64);
        let level = read_u32_at(data, 72) as i32;
        let layout = read_u32_at(data, 76) as i32;
        let size = read_u64_at(data, 80);
        let chunksize = read_u32_at(data, 88) as i32;
        let raid_disks = read_u32_at(data, 92) as i32;
        let bitmap_offset = read_u32_at(data, 96) as i32;

        let new_level = if n >= 104 { read_u32_at(data, 100) as i32 } else { level };
        let reshape_position = if n >= 112 { read_u64_at(data, 104) } else { 0 };
        let delta_disks = if n >= 116 { read_u32_at(data, 112) as i32 } else { 0 };
        let new_layout = if n >= 120 { read_u32_at(data, 116) as i32 } else { layout };
        let new_chunk = if n >= 124 { read_u32_at(data, 120) as i32 } else { chunksize };
        let new_offset = if n >= 128 { read_u32_at(data, 124) as i32 } else { 0 };
        let data_offset = if n >= 136 { read_u64_at(data, 128) } else { 0 };
        let data_size = if n >= 144 { read_u64_at(data, 136) } else { size };
        let super_offset = if n >= 152 { read_u64_at(data, 144) } else { offset / 512 };
        let recovery_offset = if n >= 160 { read_u64_at(data, 152) } else { 0 };
        let dev_number = if n >= 164 { read_u32_at(data, 160) } else { 0 };
        let cnt_corrected_read = if n >= 168 { read_u32_at(data, 164) } else { 0 };
        let utime = if n >= 176 { read_u64_at(data, 168) } else { ctime };
        let events = if n >= 184 { read_u64_at(data, 176) } else { 0 };
        let resync_offset = if n >= 192 { read_u64_at(data, 184) } else { 0 };
        let sb_csum = if n >= 196 { read_u32_at(data, 192) } else { 0 };
        let max_dev = if n >= 200 { read_u32_at(data, 196) } else { raid_disks as u32 };

        let mut dev_roles: Vec<u16> = Vec::new();
        let mut i: u32 = 0;
        if n >= 200 {
            while i < max_dev && (i as usize) < (n - 200) / 2
                invariant
                    n == data@.len(),
                    n >= 200,
                    i <= max_dev,
                    200 + 2 * i <= n,
                    dev_roles@ == Seq::new(i as nat, |k: int| le_u16_at(data@, 200 + 2 * k)),
                decreases max_dev - i,
            {
                let role = read_u16_at(data, 200 + 2 * (i as usize));
                dev_roles.push(role);
                i = i + 1;
                assert(dev_roles@ =~= Seq::new(i as nat, |k: int| le_u16_at(data@, 200 + 2 * k)));
            }
        }
        assert(i as nat == role_count(data@, max_dev));
        let readable = n >= 200 && i == max_dev;
        let p: usize = if readable { 200 + 2 * (max_dev as usize) } else { 0 };
        let bblog_shift = if readable && n - p >= 1 { data[p] } else { 0 };
        let bblog_size = if readable && n - p >= 3 { read_u16_at(data, p + 1) } else { 0 };
        let bblog_offset = if readable && n - p >= 7 { read_u32_at(data, p + 3) } else { 0 };

        let sb = SuperblockV1 {
            magic,
            major_version,
            feature_map,
            pad0,
            set_uuid,
            set_name,
            ctime,
            utime,
            level,
            layout,
            size,
            chunksize,
            raid_disks,
            bitmap_offset,
            new_level,
            reshape_position,
            delta_disks,
            new_layout,
            new_chunk,
            new_offset,
            data_offset,
            data_size,
            super_offset,
            recovery_offset,
            dev_number,
            cnt_corrected_read,
            dev_roles,
            sb_csum,
            events,
            resync_offset,
            bblog_shift,
            bblog_size,
            bblog_offset,
            max_dev,
            minor_version: minor,
            pad_bytes: Vec::new(),
        };
        assert(sb.dev_roles@ == Seq::new(role_count(data@, max_dev), |i: int| le_u16_at(data@, 200 + 2 * i)));
        assert(sb.max_dev == opt_u32(data@, 196, raid_disks as u32));
        assert(sb.bblog_shift == (if bblog_readable(data@, max_dev) && 200 + 2 * max_dev + 1 <= data@.len() { data@[200 + 2 * max_dev] } else { 0u8 }));
        assert(sb.bblog_size == (if bblog_readable(data@, max_dev) && 200 + 2 * max_dev + 3 <= data@.len() { le_u16_at(data@, 200 + 2 * max_dev + 1) } else { 0u16 }));
        assert(sb.new_level == opt_i32(data@, 100, level));
        assert(sb.super_offset == opt_u64(data@, 144, offset / 512));
        V1Probe::Found(sb)
    }

    /// Loads a 1.x superblock, trying 1.2, then 1.1, then 1.0.
    pub fn load(device_size: u64, at2: &[u8], at1: &[u8], at0: &[u8]) -> (r: MdResult<SuperblockV1>)
        ensures
            Self::load_result(device_size, at2@, at1@, at0@, r),
    {
        let o2 = Self::offset_for_minor(2, device_size);
        match Self::probe(at2, 2, o2) {
            V1Probe::Found(sb) => return Ok(sb),
            V1Probe::Failed(e) => return Err(e),
            _ => {},
        }
        let o1 = Self::offset_for_minor(1, device_size);
        match Self::probe(at1, 1, o1) {
            V1Probe::Found(sb) => return Ok(sb),
            V1Probe::Failed(e) => return Err(e),
            _ => {},
        }
        let o0 = Self::offset_for_minor(0, device_size);
        match Self::probe(at0, 0, o0) {
            V1Probe::Found(sb) => return Ok(sb),
            V1Probe::Failed(e) => return Err(e),
            _ => {},
        }
        Err(MdError::InvalidMetadata(String::from_str("No valid 1.x superblock found")))
    }
}


/// Name of a device role: an active slot below `0xff00`, or one of the markers.
pub open spec fn role_name(role: u16) -> Seq<char> {
    if role == MD_DISK_ROLE_SPARE {
        "spare"@
    } else if role == MD_DISK_ROLE_FAULTY {
        "faulty"@
    } else if role == MD_DISK_ROLE_JOURNAL {
        "journal"@
    } else if role < MD_DISK_ROLE_MAX {
        "active"@
    } else {
        "unknown"@
    }
}

impl SuperblockV1 {
    /// The fixed part as written to disk, field after field, little-endian.
    pub open spec fn fixed_bytes(&self) -> Seq<u8> {
        spec_u32_to_le_bytes(self.magic)
        + spec_u32_to_le_bytes(self.major_version)
        + spec_u32_to_le_bytes(self.feature_map)
        + spec_u32_to_le_bytes(self.pad0)
        + self.set_uuid@
        + self.set_name@
        + spec_u64_to_le_bytes(self.ctime)
        + spec_u32_to_le_bytes(self.level as u32)
        + spec_u32_to_le_bytes(self.layout as u32)
        + spec_u64_to_le_bytes(self.size)
        + spec_u32_to_le_bytes(self.chunksize as u32)
        + spec_u32_to_le_bytes(self.raid_disks as u32)
        + spec_u32_to_le_bytes(self.bitmap_offset as u32)
        + spec_u32_to_le_bytes(self.new_level as u32)
        + spec_u64_to_le_bytes(self.reshape_position)
        + spec_u32_to_le_bytes(self.delta_disks as u32)
        + spec_u32_to_le_bytes(self.new_layout as u32)
        + spec_u32_to_le_bytes(self.new_chunk as u32)
        + spec_u32_to_le_bytes(self.new_offset as u32)
        + spec_u64_to_le_bytes(self.data_offset)
        + spec_u64_to_le_bytes(self.data_size)
        + spec_u64_to_le_bytes(self.super_offset)
        + spec_u64_to_le_bytes(self.recovery_offset)
        + spec_u32_to_le_bytes(self.dev_number)
        + spec_u32_to_le_bytes(self.cnt_corrected_read)
        + spec_u64_to_le_bytes(self.utime)
        + spec_u64_to_le_bytes(self.events)
        + spec_u64_to_le_bytes(self.resync_offset)
        + spec_u32_to_le_bytes(self.sb_csum)
        + spec_u32_to_le_bytes(self.max_dev)
    }

    /// Everything that writing the superblock puts at its offset: the fixed
    /// part, every device role, then the bad-block fields.
    pub open spec fn spec_bytes(&self) -> Seq<u8> {
        self.fixed_bytes() + roles_le(self.dev_roles@) + seq![self.bblog_shift]
            + spec_u16_to_le_bytes(self.bblog_size) + spec_u32_to_le_bytes(self.bblog_offset)
    }

    /// A superblock that a load gives back exactly as it was written at the
    /// offset of version `1.minor`.
    pub open spec fn is_loadable(&self, minor: u32) -> bool {
        &&& self.magic == MD_SB_MAGIC
        &&& self.major_version == 1
        &&& self.dev_roles@.len() == self.max_dev
        &&& self.minor_version == minor
        &&& self.pad_bytes@.len() == 0
    }

    /// Whether the feature map announces a write-intent bitmap.
    pub fn has_bitmap(&self) -> (r: bool)
        ensures
            r == (self.feature_map & MD_FEATURE_BITMAP_OFFSET != 0),
    {
        (self.feature_map & MD_FEATURE_BITMAP_OFFSET) != 0
    }

    /// Whether the feature map announces a reshape in progress.
    pub fn is_reshaping(&self) -> (r: bool)
        ensures
            r == (self.feature_map & MD_FEATURE_RESHAPE_ACTIVE != 0),
    {
        (self.feature_map & MD_FEATURE_RESHAPE_ACTIVE) != 0
    }

    /// Whether the feature map announces a bad-block log.
    pub fn has_bad_blocks(&self) -> (r: bool)
        ensures
            r == (self.feature_map & MD_FEATURE_BAD_BLOCKS != 0),
    {
        (self.feature_map & MD_FEATURE_BAD_BLOCKS) != 0
    }

    /// Whether the feature map announces a journal device.
    pub fn has_journal(&self) -> (r: bool)
        ensures
            r == (self.feature_map & MD_FEATURE_JOURNAL != 0),
    {
        (self.feature_map & MD_FEATURE_JOURNAL) != 0
    }

    /// Describes the role of device `dev_num`; `unknown` past the role table.
    pub fn get_device_role(&self, dev_num: usize) -> (r: &str)
        ensures
            r@ == (if dev_num >= self.dev_roles@.len() { "unknown"@ } else { role_name(self.dev_roles@[dev_num as int]) }),
    {
        if dev_num >= self.dev_roles.len() {
            return "unknown";
        }
        let role = self.dev_roles[dev_num];
        if role == MD_DISK_ROLE_SPARE {
            "spare"
        } else if role == MD_DISK_ROLE_FAULTY {
            "faulty"
        } else if role == MD_DISK_ROLE_JOURNAL {
            "journal"
        } else if role < MD_DISK_ROLE_MAX {
            "active"
        } else {
            "unknown"
        }
    }

    /// Checksum of the identifying fields: their sum modulo 2^32, the creation
    /// time and the level taken modulo 2^32.
    pub fn calculate_checksum(&self) -> (r: u32)
        ensures
            r as int == (self.magic + self.major_version + self.feature_map + (self.ctime as u32)
                + (self.level as u32)) % 0x1_0000_0000,
    {
        let mut sum: u32 = 0;
        sum = sum.wrapping_add(self.magic);
        sum = sum.wrapping_add(self.major_version);
        let ghost s2: int = self.magic + self.major_version;
        assert(sum == s2 % 0x1_0000_0000);
        sum = sum.wrapping_add(self.feature_map);
        proof { lemma_add_mod_noop(s2, self.feature_map as int, 0x1_0000_0000); }
        let ghost s3: int = s2 + self.feature_map;
        assert(sum == s3 % 0x1_0000_0000);
        sum = sum.wrapping_add(self.ctime as u32);
        proof { lemma_add_mod_noop(s3, (self.ctime as u32) as int, 0x1_0000_0000); }
        let ghost s4: int = s3 + (self.ctime as u32);
        assert(sum == s4 % 0x1_0000_0000);
        sum = sum.wrapping_add(self.level as u32);
        proof { lemma_add_mod_noop(s4, (self.level as u32) as int, 0x1_0000_0000); }
        sum
    }

    /// Replaces the array UUID; nothing else changes.
    pub fn update_uuid(&mut self, new_uuid: [u8; 16])
        ensures
            *final(self) == (SuperblockV1 { set_uuid: new_uuid, ..*old(self) }),
    {
        self.set_uuid = new_uuid;
    }

    /// The bytes that writing the superblock puts at its offset.
    pub fn to_bytes(&self) -> (r: Vec<u8>)
        ensures
            r@ == self.spec_bytes(),
    {
        let mut out: Vec<u8> = Vec::new();
        push_u32(&mut out, self.magic);
        push_u32(&mut out, self.major_version);
        push_u32(&mut out, self.feature_map);
        push_u32(&mut out, self.pad0);
        let mut i: usize = 0;
        while i < 16
            invariant
                i <= 16,
                out@ == spec_u32_to_le_bytes(self.magic) + spec_u32_to_le_bytes(self.major_version)
                    + spec_u32_to_le_bytes(self.feature_map) + spec_u32_to_le_bytes(self.pad0)
                    + self.set_uuid@.subrange(0, i as int),
            decreases 16 - i,
        {
            out.push(self.set_uuid[i]);
            i = i + 1;
            assert(out@ =~= spec_u32_to_le_bytes(self.magic) + spec_u32_to_le_bytes(self.major_version)
                    + spec_u32_to_le_bytes(self.feature_map) + spec_u32_to_le_bytes(self.pad0)
                    + self.set_uuid@.subrange(0, i as int));
        }
        assert(self.set_uuid@.subrange(0, 16) =~= self.set_uuid@);
        let mut j: usize = 0;
        while j < 32
            invariant
                j <= 32,
                out@ == spec_u32_to_le_bytes(self.magic) + spec_u32_to_le_bytes(self.major_version)
                    + spec_u32_to_le_bytes(self.feature_map) + spec_u32_to_le_bytes(self.pad0)
                    + self.set_uuid@ + self.set_name@.subrange(0, j as int),
            decreases 32 - j,
        {
            out.push(self.set_name[j]);
            j = j + 1;
            assert(out@ =~= spec_u32_to_le_bytes(self.magic) + spec_u32_to_le_bytes(self.major_version)
                    + spec_u32_to_le_bytes(self.feature_map) + spec_u32_to_le_bytes(self.pad0)
                    + self.set_uuid@ + self.set_name@.subrange(0, j as int));
        }
        assert(self.set_name@.subrange(0, 32) =~= self.set_name@);
        push_u64(&mut out, self.ctime);
        push_u32(&mut out, self.level as u32);
        push_u32(&mut out, self.layout as u32);
        push_u64(&mut out, self.size);
        push_u32(&mut out, self.chunksize as u32);
        push_u32(&mut out, self.raid_disks as u32);
        push_u32(&mut out, self.bitmap_offset as u32);
        push_u32(&mut out, self.new_level as u32);
        push_u64(&mut out, self.reshape_position);
        push_u32(&mut out, self.delta_disks as u32);
        push_u32(&mut out, self.new_layout as u32);
        push_u32(&mut out, self.new_chunk as u32);
        push_u32(&mut out, self.new_offset as u32);
        push_u64(&mut out, self.data_offset);
        push_u64(&mut out, self.data_size);
        push_u64(&mut out, self.super_offset);
        push_u64(&mut out, self.recovery_offset);
        push_u32(&mut out, self.dev_number);
        push_u32(&mut out, self.cnt_corrected_read);
        push_u64(&mut out, self.utime);
        push_u64(&mut out, self.events);
        push_u64(&mut out, self.resync_offset);
        push_u32(&mut out, self.sb_csum);
        push_u32(&mut out, self.max_dev);
        assert(out@ == self.fixed_bytes());
        let mut k: usize = 0;
        while k < self.dev_roles.len()
            invariant
                k <= self.dev_roles@.len(),
                out@ == self.fixed_bytes() + roles_le(self.dev_roles@.subrange(0, k as int)),
            decreases self.dev_roles@.len() - k,
        {
            push_u16(&mut out, self.dev_roles[k]);
            assert(self.dev_roles@.subrange(0, k + 1).drop_last() =~= self.dev_roles@.subrange(0, k as int));
            k = k + 1;
        }
        assert(self.dev_roles@.subrange(0, k as int) =~= self.dev_roles@);
        out.push(self.bblog_shift);
        push_u16(&mut out, self.bblog_size);
        push_u32(&mut out, self.bblog_offset);
        out
    }
}


impl SuperblockV1 {
    /// `self` and `other` hold the same superblock: every field, the role table
    /// and the padding are equal.
    pub open spec fn same_as(&self, other: &SuperblockV1) -> bool {
        &&& self.magic == other.magic
        &&& self.major_version == other.major_version
        &&& self.feature_map == other.feature_map
        &&& self.pad0 == other.pad0
        &&& self.set_uuid@ == other.set_uuid@
        &&& self.set_name@ == other.set_name@
        &&& self.ctime == other.ctime
        &&& self.utime == other.utime
        &&& self.level == other.level
        &&& self.layout == other.layout
        &&& self.size == other.size
        &&& self.chunksize == other.chunksize
        &&& self.raid_disks == other.raid_disks
        &&& self.bitmap_offset == other.bitmap_offset
        &&& self.new_level == other.new_level
        &&& self.reshape_position == other.reshape_position
        &&& self.delta_disks == other.delta_disks
        &&& self.new_layout == other.new_layout
        &&& self.new_chunk == other.new_chunk
        &&& self.new_offset == other.new_offset
        &&& self.data_offset == other.data_offset
        &&& self.data_size == other.data_size
        &&& self.super_offset == other.super_offset
        &&& self.recovery_offset == other.recovery_offset
        &&& self.dev_number == other.dev_number
        &&& self.cnt_corrected_read == other.cnt_corrected_read
        &&& self.dev_roles@ == other.dev_roles@
        &&& self.sb_csum == other.sb_csum
        &&& self.events == other.events
        &&& self.resync_offset == other.resync_offset
        &&& self.bblog_shift == other.bblog_shift
        &&& self.bblog_size == other.bblog_size
        &&& self.bblog_offset == other.bblog_offset
        &&& self.max_dev == other.max_dev
        &&& self.minor_version == other.minor_version
        &&& self.pad_bytes@ == other.pad_bytes@
    }
}

/// The role table of an encoding sits two bytes per role.
pub proof fn lemma_roles_le(r: Seq<u16>)
    ensures
        roles_le(r).len() == 2 * r.len(),
        forall|i: int| #![trigger r[i]] 0 <= i < r.len() ==>
            roles_le(r).subrange(2 * i, 2 * i + 2) == spec_u16_to_le_bytes(r[i]),
    decreases r.len(),
{
    lemma_auto_spec_u16_to_from_le_bytes();
    if r.len() > 0 {
        let p = r.drop_last();
        lemma_roles_le(p);
        assert forall|i: int| #![trigger r[i]] 0 <= i < r.len() implies
            roles_le(r).subrange(2 * i, 2 * i + 2) == spec_u16_to_le_bytes(r[i]) by {
            if i < r.len() - 1 {
                assert(p[i] == r[i]);
                assert(roles_le(r).subrange(2 * i, 2 * i + 2) =~= roles_le(p).subrange(2 * i, 2 * i + 2));
            } else {
                assert(roles_le(r).subrange(2 * i, 2 * i + 2) =~= spec_u16_to_le_bytes(r.last()));
            }
        }
    }
}

proof fn lemma_i32_bits(x: i32)
    ensures
        (x as u32) as i32 == x,
{
    assert((x as u32) as i32 == x) by (bit_vector);
}

/// Reading back the fixed part of an encoding, whatever follows it.
#[verifier::rlimit(50)]
proof fn lemma_fixed_read(sb: SuperblockV1, tail: Seq<u8>)
    ensures
        ({
            let data = sb.fixed_bytes() + tail;
            &&& sb.fixed_bytes().len() == 200
            &&& le_u32_at(data, 0) == sb.magic
            &&& le_u32_at(data, 4) == sb.major_version
            &&& le_u32_at(data, 8) == sb.feature_map
            &&& le_u32_at(data, 12) == sb.pad0
            &&& data.subrange(16, 32) == sb.set_uuid@
            &&& data.subrange(32, 64) == sb.set_name@
            &&& le_u64_at(data, 64) == sb.ctime
            &&& le_u32_at(data, 72) == sb.level as u32
            &&& le_u32_at(data, 76) == sb.layout as u32
            &&& le_u64_at(data, 80) == sb.size
            &&& le_u32_at(data, 88) == sb.chunksize as u32
            &&& le_u32_at(data, 92) == sb.raid_disks as u32
            &&& le_u32_at(data, 96) == sb.bitmap_offset as u32
            &&& le_u32_at(data, 100) == sb.new_level as u32
            &&& le_u64_at(data, 104) == sb.reshape_position
            &&& le_u32_at(data, 112) == sb.delta_disks as u32
            &&& le_u32_at(data, 116) == sb.new_layout as u32
            &&& le_u32_at(data, 120) == sb.new_chunk as u32
            &&& le_u32_at(data, 124) == sb.new_offset as u32
            &&& le_u64_at(data, 128) == sb.data_offset
            &&& le_u64_at(data, 136) == sb.data_size
            &&& le_u64_at(data, 144) == sb.super_offset
            &&& le_u64_at(data, 152) == sb.recovery_offset
            &&& le_u32_at(data, 160) == sb.dev_number
            &&& le_u32_at(data, 164) == sb.cnt_corrected_read
            &&& le_u64_at(data, 168) == sb.utime
            &&& le_u64_at(data, 176) == sb.events
            &&& le_u64_at(data, 184) == sb.resync_offset
            &&& le_u32_at(data, 192) == sb.sb_csum
            &&& le_u32_at(data, 196) == sb.max_dev
        }),
{
    lemma_auto_spec_u32_to_from_le_bytes();
    lemma_auto_spec_u64_to_from_le_bytes();
    let data = sb.fixed_bytes() + tail;
    assert(sb.fixed_bytes().len() == 200);
    assert(data.subrange(0, 4) =~= spec_u32_to_le_bytes(sb.magic));
    assert(data.subrange(4, 8) =~= spec_u32_to_le_bytes(sb.major_version));
    assert(data.subrange(8, 12) =~= spec_u32_to_le_bytes(sb.feature_map));
    assert(data.subrange(12, 16) =~= spec_u32_to_le_bytes(sb.pad0));
    assert(data.subrange(16, 32) =~= sb.set_uuid@);
    assert(data.subrange(32, 64) =~= sb.set_name@);
    assert(data.subrange(64, 72) =~= spec_u64_to_le_bytes(sb.ctime));
    assert(data.subrange(72, 76) =~= spec_u32_to_le_bytes(sb.level as u32));
    assert(data.subrange(76, 80) =~= spec_u32_to_le_bytes(sb.layout as u32));
    assert(data.subrange(80, 88) =~= spec_u64_to_le_bytes(sb.size));
    assert(data.subrange(88, 92) =~= spec_u32_to_le_bytes(sb.chunksize as u32));
    assert(data.subrange(92, 96) =~= spec_u32_to_le_bytes(sb.raid_disks as u32));
    assert(data.subrange(96, 100) =~= spec_u32_to_le_bytes(sb.bitmap_offset as u32));
    assert(data.subrange(100, 104) =~= spec_u32_to_le_bytes(sb.new_level as u32));
    assert(data.subrange(104, 112) =~= spec_u64_to_le_bytes(sb.reshape_position));
    assert(data.subrange(112, 116) =~= spec_u32_to_le_bytes(sb.delta_disks as u32));
    assert(data.subrange(116, 120) =~= spec_u32_to_le_bytes(sb.new_layout as u32));
    assert(data.subrange(120, 124) =~= spec_u32_to_le_bytes(sb.new_chunk as u32));
    assert(data.subrange(124, 128) =~= spec_u32_to_le_bytes(sb.new_offset as u32));
    assert(data.subrange(128, 136) =~= spec_u64_to_le_bytes(sb.data_offset));
    assert(data.subrange(136, 144) =~= spec_u64_to_le_bytes(sb.data_size));
    assert(data.subrange(144, 152) =~= spec_u64_to_le_bytes(sb.super_offset));
    assert(data.subrange(152, 160) =~= spec_u64_to_le_bytes(sb.recovery_offset));
    assert(data.subrange(160, 164) =~= spec_u32_to_le_bytes(sb.dev_number));
    assert(data.subrange(164, 168) =~= spec_u32_to_le_bytes(sb.cnt_corrected_read));
    assert(data.subrange(168, 176) =~= spec_u64_to_le_bytes(sb.utime));
    assert(data.subrange(176, 184) =~= spec_u64_to_le_bytes(sb.events));
    assert(data.subrange(184, 192) =~= spec_u64_to_le_bytes(sb.resync_offset));
    assert(data.subrange(192, 196) =~= spec_u32_to_le_bytes(sb.sb_csum));
    assert(data.subrange(196, 200) =~= spec_u32_to_le_bytes(sb.max_dev));
}


/// What a load attempt finds where a superblock was written: the same
/// superblock, whatever bytes follow it on the device.
pub proof fn lemma_probe_after_write(sb: SuperblockV1, rest: Seq<u8>, minor: u32, offset: u64, r: V1Probe)
    requires
        sb.is_loadable(minor),
        SuperblockV1::probe_result(sb.spec_bytes() + rest, minor, offset, r),
    ensures
        r matches V1Probe::Found(back) && back.same_as(&sb),
{
    lemma_auto_spec_u16_to_from_le_bytes();
    lemma_auto_spec_u32_to_from_le_bytes();
    lemma_auto_spec_u64_to_from_le_bytes();
    let roles = roles_le(sb.dev_roles@);
    let tail = roles + seq![sb.bblog_shift] + spec_u16_to_le_bytes(sb.bblog_size)
        + spec_u32_to_le_bytes(sb.bblog_offset) + rest;
    let data = sb.spec_bytes() + rest;
    assert(data =~= sb.fixed_bytes() + tail);
    lemma_fixed_read(sb, tail);
    lemma_roles_le(sb.dev_roles@);
    lemma_i32_bits(sb.level);
    lemma_i32_bits(sb.layout);
    lemma_i32_bits(sb.chunksize);
    lemma_i32_bits(sb.raid_disks);
    lemma_i32_bits(sb.bitmap_offset);
    lemma_i32_bits(sb.new_level);
    lemma_i32_bits(sb.delta_disks);
    lemma_i32_bits(sb.new_layout);
    lemma_i32_bits(sb.new_chunk);
    lemma_i32_bits(sb.new_offset);
    let n = sb.max_dev as int;
    let p = 200 + 2 * n;
    assert(data.len() >= p + 7);
    assert(role_count(data, sb.max_dev) == sb.max_dev);
    let back = r->Found_0;
    assert(back.dev_roles@ =~= sb.dev_roles@) by {
        assert forall|i: int| 0 <= i < n implies back.dev_roles@[i] == sb.dev_roles@[i] by {
            assert(data.subrange(200 + 2 * i, 200 + 2 * i + 2) =~= roles.subrange(2 * i, 2 * i + 2));
            assert(roles.subrange(2 * i, 2 * i + 2) == spec_u16_to_le_bytes(sb.dev_roles@[i]));
        }
    }
    assert(data[p] == sb.bblog_shift);
    assert(data.subrange(p + 1, p + 3) =~= spec_u16_to_le_bytes(sb.bblog_size));
    assert(data.subrange(p + 3, p + 7) =~= spec_u32_to_le_bytes(sb.bblog_offset));
    assert(bblog_readable(data, sb.max_dev));
    assert(back.bblog_shift == sb.bblog_shift);
    assert(back.bblog_size == sb.bblog_size);
    assert(back.bblog_offset == sb.bblog_offset);
    assert(back.max_dev == sb.max_dev);
    assert(back.level == sb.level);
    assert(back.new_level == sb.new_level);
    assert(back.super_offset == sb.super_offset);
    assert(back.utime == sb.utime);
    assert(back.set_uuid@ == sb.set_uuid@);
    assert(back.pad_bytes@ =~= sb.pad_bytes@);
}

/// What loading gives back of what writing put on disk: a superblock written
/// at the offset of its version `1.minor` is loaded back unchanged, whatever
/// follows it, provided that the positions a load tries first (1.2, then 1.1,
/// then 1.0) hold no superblock of their own.
pub proof fn lemma_load_after_write(
    sb: SuperblockV1,
    rest: Seq<u8>,
    device_size: u64,
    at2: Seq<u8>,
    at1: Seq<u8>,
    at0: Seq<u8>,
    r: Result<SuperblockV1, MdError>,
)
    requires
        sb.is_loadable(sb.minor_version),
        sb.minor_version <= 2,
        sb.minor_version == 2 ==> at2 == sb.spec_bytes() + rest,
        sb.minor_version == 1 ==> at1 == sb.spec_bytes() + rest && v1_skips(at2),
        sb.minor_version == 0 ==> at0 == sb.spec_bytes() + rest && v1_skips(at2) && v1_skips(at1),
        SuperblockV1::load_result(device_size, at2, at1, at0, r),
    ensures
        r matches Ok(back) && back.same_as(&sb),
{
    lemma_auto_spec_u32_to_from_le_bytes();
    let data = sb.spec_bytes() + rest;
    let roles = roles_le(sb.dev_roles@);
    let tail = roles + seq![sb.bblog_shift] + spec_u16_to_le_bytes(sb.bblog_size)
        + spec_u32_to_le_bytes(sb.bblog_offset) + rest;
    assert(data =~= sb.fixed_bytes() + tail);
    lemma_fixed_read(sb, tail);
    assert(!v1_skips(data));
    assert(!v1_truncated(data));
    let m = sb.minor_version;
    let off = spec_offset_for_minor(m, device_size);
    let back = r->Ok_0;
    let probe = V1Probe::Found(back);
    assert(back.parsed_at(data, m, off));
    assert(SuperblockV1::probe_result(data, m, off, probe));
    lemma_probe_after_write(sb, rest, m, off, probe);
}


impl Default for SuperblockV1 {
    /// An empty 1.2 superblock: the magic number, major version 1, minor
    /// version 2, every other field zero, no roles.
    fn default() -> (r: Self)
        ensures
            r.magic == MD_SB_MAGIC,
            r.major_version == 1,
            r.minor_version == 2,
            r.feature_map == 0 && r.pad0 == 0,
            r.set_uuid@ == Seq::new(16, |i: int| 0u8),
            r.set_name@ == Seq::new(32, |i: int| 0u8),
            r.ctime == 0 && r.utime == 0 && r.level == 0 && r.layout == 0 && r.size == 0,
            r.chunksize == 0 && r.raid_disks == 0 && r.bitmap_offset == 0,
            r.new_level == 0 && r.reshape_position == 0 && r.delta_disks == 0,
            r.new_layout == 0 && r.new_chunk == 0 && r.new_offset == 0,
            r.data_offset == 0 && r.data_size == 0 && r.super_offset == 0 && r.recovery_offset == 0,
            r.dev_number == 0 && r.cnt_corrected_read == 0,
            r.dev_roles@.len() == 0,
            r.sb_csum == 0 && r.events == 0 && r.resync_offset == 0,
            r.bblog_shift == 0 && r.bblog_size == 0 && r.bblog_offset == 0 && r.max_dev == 0,
            r.pad_bytes@.len() == 0,
    {
        let r = SuperblockV1 {
            magic: MD_SB_MAGIC,
            major_version: 1,
            feature_map: 0,
            pad0: 0,
            set_uuid: [0u8; 16],
            set_name: [0u8; 32],
            ctime: 0,
            utime: 0,
            level: 0,
            layout: 0,
            size: 0,
            chunksize: 0,
            raid_disks: 0,
            bitmap_offset: 0,
            new_level: 0,
            reshape_position: 0,
            delta_disks: 0,
            new_layout: 0,
            new_chunk: 0,
            new_offset: 0,
            data_offset: 0,
            data_size: 0,
            super_offset: 0,
            recovery_offset: 0,
            dev_number: 0,
            cnt_corrected_read: 0,
            dev_roles: Vec::new(),
            sb_csum: 0,
            events: 0,
            resync_offset: 0,
            bblog_shift: 0,
            bblog_size: 0,
            bblog_offset: 0,
            max_dev: 0,
            minor_version: 2,
            pad_bytes: Vec::new(),
        };
        assert(r.set_uuid@ =~= Seq::new(16, |i: int| 0u8));
        assert(r.set_name@ =~= Seq::new(32, |i: int| 0u8));
        r
    }
}

} // verus!
