//! Creating an array: the checks before it, the MD device it needs, and the
//! 1.x superblock that each member receives.

use vstd::prelude::*;
use crate::error::MdError;
use crate::ioctl::{dev_major, spec_dev_major, MD_MAJOR};
use crate::metadata::v1::{SuperblockV1, MD_SB_MAGIC, spec_offset_for_minor, v1_skips, lemma_load_after_write};
use crate::num::{is_power_of_two, power_of_two};
use crate::paths::{file_name, device_name};
use crate::text::{dec, dec_int, dec_u64, dec_i64, cat, cat3, str_eq};
use crate::validation::{DeviceInfo, spec_validate_devices, validate_devices_for_array};

verus! {

/// The chunk size used when none is given: 512 KiB, in bytes.
pub const DEFAULT_CHUNK_SIZE: i32 = 512 * 1024;

/// Whether a chunk size in KiB is allowed: a power of two from 4 to 32768.
pub open spec fn chunk_kib_ok(kib: u32) -> bool {
    4 <= kib <= 32768 && is_power_of_two(kib as nat)
}

/// The chunk size in bytes that the kernel takes, from a size in KiB.
pub fn chunk_size_kib_to_bytes(chunk_size_kib: u32) -> (r: Result<i32, MdError>)
    ensures
        chunk_kib_ok(chunk_size_kib) ==> r == Ok::<i32, MdError>((chunk_size_kib * 1024) as i32),
        !chunk_kib_ok(chunk_size_kib) ==> (r matches Err(MdError::ConfigValidation(m)) && m@ == "Invalid chunk size: "@
            + dec(chunk_size_kib as nat) + " KiB (must be a power of 2 between 4 and 32768 KiB)"@),
{
    if !(4 <= chunk_size_kib && chunk_size_kib <= 32768) || !power_of_two(chunk_size_kib) {
        let n = dec_u64(chunk_size_kib as u64);
        return Err(MdError::ConfigValidation(
            cat3("Invalid chunk size: ", n.as_str(), " KiB (must be a power of 2 between 4 and 32768 KiB)"),
        ));
    }
    Ok((chunk_size_kib * 1024) as i32)
}

/// The 1.x minor version that a metadata name asks for: `1.0`, `1.1` and
/// `1.2` by their number, anything else as `1.2`.
pub open spec fn spec_metadata_minor(name: Seq<char>) -> u32 {
    if name == "1.0"@ {
        0
    } else if name == "1.1"@ {
        1
    } else {
        2
    }
}

/// The 1.x minor version that a metadata name asks for.
pub fn metadata_minor(name: &str) -> (r: u32)
    ensures
        r == spec_metadata_minor(name@),
{
    if str_eq(name, "1.0") {
        0
    } else if str_eq(name, "1.1") {
        1
    } else {
        2
    }
}

/// Checks a request to create an array of `level` over `components`: there
/// must be as many components as `raid_devices`, and every device must pass
/// its checks (`checks` holds the outcome for each, in order).
pub fn check_create_request(
    level: u8,
    raid_devices: u32,
    components: &Vec<String>,
    checks: Vec<Result<DeviceInfo, MdError>>,
) -> (r: Result<Vec<DeviceInfo>, MdError>)
    requires
        checks@.len() == components@.len(),
        components@.len() <= u32::MAX,
    ensures
        components@.len() as u32 != raid_devices ==> (r matches Err(MdError::InsufficientDevices { level: l, needed, actual })
            && l == level && needed == raid_devices && actual == components@.len() as u32),
        components@.len() as u32 == raid_devices ==> spec_validate_devices(components@, level, checks@, r),
{
    let n = components.len() as u32;
    if n != raid_devices {
        return Err(MdError::InsufficientDevices { level, needed: raid_devices, actual: n });
    }
    validate_devices_for_array(components, level, checks)
}

/// What a device path that should be an MD device amounts to.
#[derive(Debug, Clone, PartialEq, Eq)]
pub enum MdDeviceAction {
    /// It is there and is an MD device.
    Ready,
    /// It is missing, and this is a dry run.
    DryRun,
    /// It is missing: ask the kernel for an array of this name.
    Create(String),
}

/// What the device at `md_device` is, as found: whether it is a block device,
/// and its device number.
#[derive(Debug, Clone, Copy)]
pub struct DeviceNode {
    pub is_block: bool,
    pub rdev: u64,
}

/// What to do about the MD device `md_device` before an array is created on
/// it: an existing one must be a block device of the MD major; a missing one
/// is asked for by its name.
pub open spec fn spec_md_device(
    md_device: Seq<char>,
    node: Option<Result<DeviceNode, MdError>>,
    dry_run: bool,
    r: Result<MdDeviceAction, MdError>,
) -> bool {
    match node {
        Some(Err(e)) => r == Err::<MdDeviceAction, MdError>(e),
        Some(Ok(n)) => if !n.is_block {
            r matches Err(MdError::NotBlockDevice(p)) && p@ == md_device
        } else if spec_dev_major(n.rdev) as i32 != MD_MAJOR as i32 {
            r matches Err(MdError::InvalidDevice(m)) && m@ == md_device + " is block major "@
                + dec_int((spec_dev_major(n.rdev) as i32) as int) + ", not an MD device (major 9)"@
        } else {
            r == Ok::<MdDeviceAction, MdError>(MdDeviceAction::Ready)
        },
        None => if file_name(md_device) is None {
            r matches Err(MdError::InvalidMetadata(m)) && m@ == "Invalid MD device name"@
        } else if dry_run {
            r == Ok::<MdDeviceAction, MdError>(MdDeviceAction::DryRun)
        } else {
            r matches Ok(MdDeviceAction::Create(name)) && name@ == file_name(md_device).unwrap()
        },
    }
}

/// Decides what to do about the MD device `md_device`, given what was found
/// at its path (`None` when nothing is there).
pub fn ensure_md_device(md_device: &str, node: Option<Result<DeviceNode, MdError>>, dry_run: bool) -> (r: Result<MdDeviceAction, MdError>)
    ensures
        spec_md_device(md_device@, node, dry_run, r),
{
    match node {
        Some(Err(e)) => Err(e),
        Some(Ok(n)) => {
            if !n.is_block {
                return Err(MdError::NotBlockDevice(String::from_str(md_device)));
            }
            let major = dev_major(n.rdev);
            if major != MD_MAJOR as i32 {
                let m = String::from_str(md_device).concat(" is block major ").concat(dec_i64(major as i64).as_str())
                    .concat(", not an MD device (major 9)");
                return Err(MdError::InvalidDevice(m));
            }
            Ok(MdDeviceAction::Ready)
        },
        None => match device_name(md_device) {
            None => Err(MdError::InvalidMetadata(String::from_str("Invalid MD device name"))),
            Some(name) => if dry_run {
                Ok(MdDeviceAction::DryRun)
            } else {
                Ok(MdDeviceAction::Create(name))
            },
        },
    }
}

/// The error of a request for an MD device that the kernel refused.
pub fn create_request_failed(md_device: &str, cause: &str) -> (e: MdError)
    ensures
        e matches MdError::Sysfs(m) && m@ == "Failed to create MD device "@ + md_device@ + ": "@ + cause@,
{
    MdError::Sysfs(String::from_str("Failed to create MD device ").concat(md_device).concat(": ").concat(cause))
}

/// The error of an MD device that did not appear after it was asked for.
pub fn device_did_not_appear(md_device: &str) -> (e: MdError)
    ensures
        e matches MdError::Sysfs(m) && m@ == "MD device "@ + md_device@ + " was requested from sysfs but did not appear"@,
{
    MdError::Sysfs(cat3("MD device ", md_device, " was requested from sysfs but did not appear"))
}

/// Where the data and the superblock of a member go, in sectors, for a 1.x
/// minor version and a device of `device_size` bytes: `(data_offset,
/// super_offset, data_size)`. A 1.0 superblock sits 8 KiB before the end
/// (rounded down to 8 KiB) with data from the start; 1.1 and 1.2 put the data
/// 8 KiB in, with the superblock at the start (1.1) or 4 KiB in (1.2).
pub open spec fn member_layout(minor: u32, device_size: u64) -> (u64, u64, u64) {
    if minor == 0 {
        let aligned = device_size - device_size % 8192;
        let sb = if aligned >= 8192 { (aligned - 8192) / 512 } else { 0 };
        (0, sb as u64, sb as u64)
    } else {
        let data_size = if device_size / 512 >= 16 { device_size / 512 - 16 } else { 0 };
        (16, if minor == 1 { 0 } else { 8 }, data_size as u64)
    }
}

/// The layout of a member device.
pub fn component_layout(minor: u32, device_size: u64) -> (r: (u64, u64, u64))
    ensures
        r == member_layout(minor, device_size),
{
    if minor == 0 {
        let aligned = device_size & !0x1FFFu64;
        assert(aligned == device_size - device_size % 8192) by (bit_vector)
            requires aligned == device_size & !0x1FFFu64;
        let sb = aligned.saturating_sub(8192) / 512;
        (0, sb, sb)
    } else {
        let data_off: u64 = 8192 / 512;
        let data_size = (device_size / 512).saturating_sub(data_off);
        (data_off, if minor == 1 { 0 } else { 8 }, data_size)
    }
}

/// An `i32` divided by 512, rounded toward zero.
pub open spec fn div_512(n: i32) -> int {
    if n >= 0 { n as int / 512 } else { -((-(n as int)) / 512) }
}

/// The superblock that member `dev_number` of a new array receives: a fresh
/// 1.x superblock of the array's UUID, times, level and members, with the
/// member's layout, its data area (in sectors) as its size, every role the
/// member's slot number, nothing to resync.
pub open spec fn member_superblock(
    uuid: [u8; 16],
    now: u64,
    level: u8,
    raid_devices: u32,
    minor: u32,
    device_size: u64,
    chunk_size: Option<i32>,
    dev_number: u32,
    sb: SuperblockV1,
) -> bool {
    let (data_offset, super_offset, data_size) = member_layout(minor, device_size);
    let chunk_sectors = div_512(match chunk_size { Some(c) => c, None => DEFAULT_CHUNK_SIZE });
    &&& sb.magic == MD_SB_MAGIC
    &&& sb.major_version == 1
    &&& sb.feature_map == 0
    &&& sb.pad0 == 0
    &&& sb.set_uuid == uuid
    &&& (forall|i: int| 0 <= i < 32 ==> sb.set_name@[i] == 0u8)
    &&& sb.ctime == now
    &&& sb.utime == now
    &&& sb.level == level as i32
    &&& sb.layout == 2
    &&& sb.size == data_size
    &&& sb.chunksize == chunk_sectors
    &&& sb.raid_disks == raid_devices as i32
    &&& sb.bitmap_offset == 0
    &&& sb.new_level == level as i32
    &&& sb.reshape_position == u64::MAX
    &&& sb.delta_disks == 0
    &&& sb.new_layout == 0
    &&& sb.new_chunk == chunk_sectors
    &&& sb.new_offset == 0
    &&& sb.data_offset == data_offset
    &&& sb.data_size == data_size
    &&& sb.super_offset == super_offset
    &&& sb.recovery_offset == u64::MAX
    &&& sb.dev_number == dev_number
    &&& sb.cnt_corrected_read == 0
    &&& sb.dev_roles@.len() == raid_devices
    &&& (forall|i: int| 0 <= i < raid_devices ==> #[trigger] sb.dev_roles@[i] == i as u16)
    &&& sb.sb_csum == 0
    &&& sb.events == 0
    &&& sb.resync_offset == u64::MAX
    &&& sb.bblog_shift == 0
    &&& sb.bblog_size == 0
    &&& sb.bblog_offset == 0
    &&& sb.max_dev == raid_devices
    &&& sb.minor_version == minor
    &&& sb.pad_bytes@.len() == 0
}

/// A new member's superblock records the left-symmetric layout (2), as mdadm
/// creates arrays; the level and the number of disks asked for; the chunk
/// size asked for (512 KiB when none is) in 512-byte sectors; slot `i` in role
/// `i` for every disk; and no reshape or recovery in progress.
pub proof fn lemma_created_member_geometry(
    uuid: [u8; 16],
    now: u64,
    level: u8,
    raid_devices: u32,
    minor: u32,
    device_size: u64,
    chunk_size: Option<i32>,
    dev_number: u32,
    sb: SuperblockV1,
)
    requires
        member_superblock(uuid, now, level, raid_devices, minor, device_size, chunk_size, dev_number, sb),
    ensures
        sb.layout == 2,
        sb.level == level as i32,
        sb.raid_disks == raid_devices as i32,
        chunk_size is None ==> sb.chunksize == 1024,
        chunk_size is Some && chunk_size->Some_0 >= 0 ==> sb.chunksize == chunk_size->Some_0 as int / 512,
        sb.dev_roles@.len() == raid_devices,
        forall|i: int| 0 <= i < raid_devices && i < 0x10000 ==> #[trigger] sb.dev_roles@[i] == i,
        sb.reshape_position == u64::MAX,
        sb.recovery_offset == u64::MAX,
        sb.resync_offset == u64::MAX,
        sb.dev_number == dev_number,
        sb.set_uuid == uuid,
{
}

/// The superblock of member `dev_number` of a new array.
pub fn component_superblock(
    uuid: [u8; 16],
    now: u64,
    level: u8,
    raid_devices: u32,
    minor: u32,
    device_size: u64,
    chunk_size: Option<i32>,
    dev_number: u32,
) -> (sb: SuperblockV1)
    ensures
        member_superblock(uuid, now, level, raid_devices, minor, device_size, chunk_size, dev_number, sb),
        sb.layout == 2,
        sb.level == level as i32,
        sb.raid_disks == raid_devices as i32,
{
    let (data_offset, super_offset, data_size) = component_layout(minor, device_size);
    let mut dev_roles: Vec<u16> = Vec::new();
    let mut idx: u32 = 0;
    while idx < raid_devices
        invariant
            idx <= raid_devices,
            dev_roles@.len() == idx,
            forall|i: int| 0 <= i < idx ==> #[trigger] dev_roles@[i] == i as u16,
        decreases raid_devices - idx,
    {
        dev_roles.push(idx as u16);
        idx = idx + 1;
    }
    let chunk_bytes = match chunk_size {
        Some(c) => c,
        None => DEFAULT_CHUNK_SIZE,
    };
    let chunk_sectors: i32 = if chunk_bytes >= 0 {
        chunk_bytes / 512
    } else {
        let m: i64 = -(chunk_bytes as i64);
        (-(m / 512)) as i32
    };
    let name: [u8; 32] = [0u8; 32];
    SuperblockV1 {
        magic: MD_SB_MAGIC,
        major_version: 1,
        feature_map: 0,
        pad0: 0,
        set_uuid: uuid,
        set_name: name,
        ctime: now,
        utime: now,
        level: level as i32,
        layout: 2,
        size: data_size,
        chunksize: chunk_sectors,
        raid_disks: raid_devices as i32,
        bitmap_offset: 0,
        new_level: level as i32,
        reshape_position: u64::MAX,
        delta_disks: 0,
        new_layout: 0,
        new_chunk: chunk_sectors,
        new_offset: 0,
        data_offset,
        data_size,
        super_offset,
        recovery_offset: u64::MAX,
        dev_number,
        cnt_corrected_read: 0,
        dev_roles,
        sb_csum: 0,
        events: 0,
        resync_offset: u64::MAX,
        bblog_shift: 0,
        bblog_size: 0,
        bblog_offset: 0,
        max_dev: raid_devices,
        minor_version: minor,
        pad_bytes: Vec::new(),
    }
}

/// Whether sixteen bytes carry the marks of a random (version 4) UUID: the
/// high nibble of byte 6 is 4 and the top two bits of byte 8 are `10`.
pub open spec fn is_v4_uuid(u: [u8; 16]) -> bool {
    &&& u@[6] & 0xF0u8 == 0x40u8
    &&& u@[8] & 0xC0u8 == 0x80u8
}

/// Draws a fresh array UUID with `uuid::Uuid::new_v4` and hands back its
/// bytes. The bytes come from a random source, so nothing ties them to a
/// value; the crate masks in the version and variant bits, which is all that
/// is claimed of the result.
#[verifier::external_body]
fn new_array_uuid() -> (u: [u8; 16])
    ensures
        is_v4_uuid(u),
{
    *uuid::Uuid::new_v4().as_bytes()
}

/// The superblocks of the members of a new array, one per device size in
/// `device_sizes` (bytes), in order: all of them of one freshly drawn
/// version-4 UUID, member `i` with slot number `i`.
pub fn create_superblocks(
    level: u8,
    raid_devices: u32,
    minor: u32,
    device_sizes: &Vec<u64>,
    chunk_size: Option<i32>,
    now: u64,
) -> (r: Vec<SuperblockV1>)
    requires
        device_sizes@.len() <= u32::MAX,
    ensures
        r@.len() == device_sizes@.len(),
        exists|u: [u8; 16]| #[trigger] is_v4_uuid(u) && forall|i: int| 0 <= i < r@.len() ==>
            member_superblock(u, now, level, raid_devices, minor, device_sizes@[i], chunk_size, i as u32, #[trigger] r@[i]),
{
    let uuid = new_array_uuid();
    let mut out: Vec<SuperblockV1> = Vec::new();
    let mut i: usize = 0;
    while i < device_sizes.len()
        invariant
            device_sizes@.len() <= u32::MAX,
            i <= device_sizes@.len(),
            out@.len() == i,
            forall|j: int| 0 <= j < i ==>
                member_superblock(uuid, now, level, raid_devices, minor, device_sizes@[j], chunk_size, j as u32, #[trigger] out@[j]),
        decreases device_sizes@.len() - i,
    {
        let sb = component_superblock(uuid, now, level, raid_devices, minor, device_sizes[i], chunk_size, i as u32);
        out.push(sb);
        i = i + 1;
    }
    assert(is_v4_uuid(uuid));
    out
}

/// A superblock that creation gives a member records in `super_offset`
/// (sectors) the very position that writing puts it at, is one that loading
/// accepts, and is read back from there unchanged, the array's UUID included
/// (the positions that a load tries before it holding no superblock).
pub proof fn lemma_created_member_round_trip(
    uuid: [u8; 16],
    now: u64,
    level: u8,
    raid_devices: u32,
    minor: u32,
    device_size: u64,
    chunk_size: Option<i32>,
    dev_number: u32,
    sb: SuperblockV1,
    rest: Seq<u8>,
    at2: Seq<u8>,
    at1: Seq<u8>,
    at0: Seq<u8>,
    r: Result<SuperblockV1, MdError>,
)
    requires
        member_superblock(uuid, now, level, raid_devices, minor, device_size, chunk_size, dev_number, sb),
        minor <= 2,
        minor == 2 ==> at2 == sb.spec_bytes() + rest,
        minor == 1 ==> at1 == sb.spec_bytes() + rest && v1_skips(at2),
        minor == 0 ==> at0 == sb.spec_bytes() + rest && v1_skips(at2) && v1_skips(at1),
        SuperblockV1::load_result(device_size, at2, at1, at0, r),
    ensures
        sb.super_offset * 512 == spec_offset_for_minor(minor, device_size),
        r matches Ok(back) && back.same_as(&sb) && back.set_uuid@ == uuid@,
{
    if minor == 0 {
        let aligned: int = device_size - device_size % 8192;
        assert(aligned % 8192 == 0) by (nonlinear_arith)
            requires aligned == device_size - device_size % 8192, device_size >= 0;
        if aligned >= 8192 {
            assert(((aligned - 8192) / 512) * 512 == aligned - 8192) by (nonlinear_arith)
                requires aligned % 8192 == 0, aligned >= 8192;
        }
    }
    lemma_load_after_write(sb, rest, device_size, at2, at1, at0, r);
}

/// The error of a superblock that could not be written to `component`.
pub fn write_failed(e: MdError, component: &str) -> (r: MdError)
    ensures
        match e {
            MdError::InvalidMetadata(m) => r matches MdError::InvalidMetadata(n)
                && n@ == "Failed to write superblock to "@ + component@ + ": "@ + m@,
            MdError::Sysfs(m) => r matches MdError::Sysfs(n)
                && n@ == "Failed to write superblock to "@ + component@ + ": "@ + m@,
            _ => r == e,
        },
{
    let ctx = cat("Failed to write superblock to ", component);
    e.context(ctx.as_str())
}

} // verus!
