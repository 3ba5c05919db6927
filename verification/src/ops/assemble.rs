//! Assembling an array from its members: which devices belong to it, what
//! the driver is told about the array and about each member.

use vstd::prelude::*;
use crate::error::MdError;
use crate::ioctl::{MduArrayInfo, MduDiskInfo, dev_major, dev_minor, spec_dev_major, spec_dev_minor, disk_state,
    MD_DISK_ACTIVE, MD_DISK_SYNC};
use crate::metadata::report::{lossy_text, trim_nul, hex_bytes, show_name, hex_range_of};
use crate::metadata::v1::SuperblockV1;
use crate::bytes::bytes_eq;
use crate::paths::{file_name, device_name};
use crate::text::{dec, dec_u64, cat, cat3, to_chars, from_chars, trim, trim_chars, starts_with_chars, occurs_at, str_eq};

verus! {

/// `s` without the NUL characters at its start.
pub open spec fn trim_nul_start(s: Seq<char>) -> Seq<char>
    decreases s.len(),
{
    if s.len() > 0 && s[0] == '\0' {
        trim_nul_start(s.drop_first())
    } else {
        s
    }
}

/// The name an array is known by: the name in its superblock, without the
/// NULs and the white space around it; or, when that is empty, `md-` and the
/// first four bytes of its UUID in hexadecimal.
pub open spec fn array_name(sb: SuperblockV1) -> Seq<char> {
    let name = trim(trim_nul_start(trim_nul(lossy_text(sb.set_name@))));
    if name.len() > 0 {
        name
    } else {
        "md-"@ + hex_bytes(sb.set_uuid@.subrange(0, 4))
    }
}

/// A text without the NUL characters at its start.
fn strip_leading_nul(s: &str) -> (r: String)
    ensures
        r@ == trim_nul_start(s@),
{
    let c = to_chars(s);
    let mut start: usize = 0;
    assert(c@.subrange(0, c@.len() as int) =~= c@);
    while start < c.len() && c[start] == '\0'
        invariant
            start <= c@.len(),
            trim_nul_start(c@) == trim_nul_start(c@.subrange(start as int, c@.len() as int)),
        decreases c@.len() - start,
    {
        assert(c@.subrange(start as int, c@.len() as int).drop_first() =~= c@.subrange(start + 1, c@.len() as int));
        start = start + 1;
    }
    let rest = crate::text::slice_chars(c.as_slice(), start, c.len());
    from_chars(rest.as_slice())
}

/// The name an array is known by.
pub fn array_name_from_superblock(sb: &SuperblockV1) -> (r: String)
    ensures
        r@ == array_name(*sb),
{
    let decoded = show_name(&sb.set_name);
    let inner = strip_leading_nul(decoded.as_str());
    let t = trim_chars(to_chars(inner.as_str()).as_slice());
    proof {
        assert(decoded@ == trim_nul(lossy_text(sb.set_name@)));
    }
    if t.len() > 0 {
        from_chars(t.as_slice())
    } else {
        let prefix = hex_range_of(&sb.set_uuid, 0, 4);
        cat("md-", prefix.as_str())
    }
}

/// Whether a device name is one that the scan looks at: a SCSI, virtio, Xen,
/// NVMe or loop disk.
pub open spec fn candidate_name(name: Seq<char>) -> bool {
    occurs_at(name, "sd"@, 0) || occurs_at(name, "vd"@, 0) || occurs_at(name, "xvd"@, 0)
        || occurs_at(name, "nvme"@, 0) || occurs_at(name, "loop"@, 0)
}

/// Whether the device at `path` may be a member: its name is a candidate and
/// it is a block device.
pub fn is_candidate_block_device(path: &str, is_block: bool) -> (r: bool)
    ensures
        r == (file_name(path@) matches Some(n) && candidate_name(n) && is_block),
{
    match device_name(path) {
        Some(n) => {
            let c = to_chars(n.as_str());
            let named = starts_with_chars(c.as_slice(), to_chars("sd").as_slice())
                || starts_with_chars(c.as_slice(), to_chars("vd").as_slice())
                || starts_with_chars(c.as_slice(), to_chars("xvd").as_slice())
                || starts_with_chars(c.as_slice(), to_chars("nvme").as_slice())
                || starts_with_chars(c.as_slice(), to_chars("loop").as_slice());
            named && is_block
        },
        None => false,
    }
}

/// A device found while scanning for the members of an array.
#[derive(Debug, Clone)]
pub struct ScannedDevice {
    pub path: String,
    /// Whether it is a block device.
    pub is_block: bool,
    /// The UUID of the 1.x superblock on it, when one loaded.
    pub uuid: Option<[u8; 16]>,
}

/// Whether a scanned device belongs to the array of `uuid`: it is not the
/// seed, it is a candidate, and its superblock carries the UUID.
pub open spec fn belongs(d: ScannedDevice, seed: Seq<char>, uuid: [u8; 16]) -> bool {
    &&& d.path@ != seed
    &&& file_name(d.path@) matches Some(n) && candidate_name(n) && d.is_block
    &&& d.uuid matches Some(u) && u@ == uuid@
}

/// The paths of the scanned devices that belong to the array, in scan order,
/// after the seed.
pub open spec fn members_found(seed: Seq<char>, uuid: [u8; 16], ds: Seq<ScannedDevice>) -> Seq<Seq<char>>
    decreases ds.len(),
{
    if ds.len() == 0 {
        seq![seed]
    } else if belongs(ds.last(), seed, uuid) {
        members_found(seed, uuid, ds.drop_last()).push(ds.last().path@)
    } else {
        members_found(seed, uuid, ds.drop_last())
    }
}

/// What sorting paths, as `PathBuf`s are ordered, gives.
pub uninterp spec fn sorted_paths(paths: Seq<Seq<char>>) -> Seq<Seq<char>>;

/// `<[PathBuf]>::sort` from std, on the paths. Claimed: the result is
/// `sorted_paths` of the paths, and it holds the same paths, as many times each.
#[verifier::external_body]
fn sort_paths(paths: Vec<String>) -> (r: Vec<String>)
    ensures
        r@.map_values(|s: String| s@) == sorted_paths(paths@.map_values(|s: String| s@)),
        r@.map_values(|s: String| s@).to_multiset() == paths@.map_values(|s: String| s@).to_multiset(),
{
    let mut v: Vec<std::path::PathBuf> = paths.into_iter().map(std::path::PathBuf::from).collect();
    v.sort();
    v.into_iter().map(|p| p.to_string_lossy().to_string()).collect()
}

/// What dropping the paths equal (as `PathBuf`s) to the one before them gives.
pub uninterp spec fn deduped_paths(paths: Seq<Seq<char>>) -> Seq<Seq<char>>;

/// `Vec<PathBuf>::dedup` from std, on the paths. Claimed: the result is
/// `deduped_paths` of the paths, and each path of it is one of them.
#[verifier::external_body]
fn dedup_paths(paths: Vec<String>) -> (r: Vec<String>)
    ensures
        r@.map_values(|s: String| s@) == deduped_paths(paths@.map_values(|s: String| s@)),
        forall|i: int| 0 <= i < r@.len() ==> exists|j: int| 0 <= j < paths@.len() && #[trigger] paths@[j]@ == #[trigger] r@[i]@,
{
    let mut v: Vec<std::path::PathBuf> = paths.into_iter().map(std::path::PathBuf::from).collect();
    v.dedup();
    v.into_iter().map(|p| p.to_string_lossy().to_string()).collect()
}

/// The members of the array of `uuid`, from the seed device and the devices
/// scanned, ordered and without repeats.
pub fn find_components_by_uuid(seed: &str, uuid: [u8; 16], scanned: &Vec<ScannedDevice>) -> (r: Vec<String>)
    ensures
        r@.map_values(|s: String| s@) == deduped_paths(sorted_paths(members_found(seed@, uuid, scanned@))),
{
    let mut found: Vec<String> = Vec::new();
    found.push(String::from_str(seed));
    let mut i: usize = 0;
    assert(found@.map_values(|s: String| s@) =~= members_found(seed@, uuid, scanned@.subrange(0, 0)));
    while i < scanned.len()
        invariant
            i <= scanned@.len(),
            found@.map_values(|s: String| s@) == members_found(seed@, uuid, scanned@.subrange(0, i as int)),
        decreases scanned@.len() - i,
    {
        let d = &scanned[i];
        assert(scanned@.subrange(0, i + 1).drop_last() =~= scanned@.subrange(0, i as int));
        let same = str_eq(d.path.as_str(), seed);
        let matches_uuid = match &d.uuid {
            Some(u) => bytes_eq(u, &uuid),
            None => false,
        };
        if !same && is_candidate_block_device(d.path.as_str(), d.is_block) && matches_uuid {
            let ghost before = found@.map_values(|s: String| s@);
            found.push(String::from_str(d.path.as_str()));
            assert(found@.map_values(|s: String| s@) =~= before.push(d.path@));
        }
        i = i + 1;
    }
    assert(scanned@.subrange(0, scanned@.len() as int) =~= scanned@);
    let sorted = sort_paths(found);
    dedup_paths(sorted)
}

/// The error of a member whose superblock did not load.
pub fn load_failed(e: MdError, component: &str) -> (r: MdError)
    ensures
        match e {
            MdError::InvalidMetadata(m) => r matches MdError::InvalidMetadata(n)
                && n@ == "Failed to load superblock from "@ + component@ + ": "@ + m@,
            MdError::Sysfs(m) => r matches MdError::Sysfs(n)
                && n@ == "Failed to load superblock from "@ + component@ + ": "@ + m@,
            _ => r == e,
        },
{
    let ctx = cat("Failed to load superblock from ", component);
    e.context(ctx.as_str())
}

/// The array that a seed device leads to: its members must be at least as
/// many as its superblock says it has; it is named after its superblock and
/// lives at `/dev/<name>`.
pub open spec fn spec_auto_target(sb: SuperblockV1, components: Seq<String>, r: Result<(String, String), MdError>) -> bool {
    if (components.len() as int) < (sb.raid_disks as usize) as int {
        r matches Err(MdError::InsufficientDevices { level, needed, actual })
            && level == sb.level as u8 && needed == sb.raid_disks as u32 && actual == components.len() as u32
    } else {
        r matches Ok((dev, name)) && name@ == array_name(sb) && dev@ == "/dev/"@ + array_name(sb)
    }
}

/// The device path and the name of the array that the seed's superblock
/// describes, once its members are found.
pub fn auto_target(sb: &SuperblockV1, components: &Vec<String>) -> (r: Result<(String, String), MdError>)
    ensures
        spec_auto_target(*sb, components@, r),
{
    if components.len() < sb.raid_disks as usize {
        return Err(MdError::InsufficientDevices {
            level: sb.level as u8,
            needed: sb.raid_disks as u32,
            actual: components.len() as u32,
        });
    }
    let name = array_name_from_superblock(sb);
    let dev = cat("/dev/", name.as_str());
    Ok((dev, name))
}

/// Whether the MD device must be asked for before assembly: only when it is
/// missing and this is not a dry run.
pub fn must_create_md_device(exists: bool, dry_run: bool) -> (r: bool)
    ensures
        r == (!exists && !dry_run),
{
    !exists && !dry_run
}

/// The error of an MD device that did not appear after it was asked for.
pub fn md_device_missing(md_device: &str) -> (e: MdError)
    ensures
        e matches MdError::Sysfs(m) && m@ == "MD device "@ + md_device@ + " did not appear"@,
{
    MdError::Sysfs(cat3("MD device ", md_device, " did not appear"))
}

impl SuperblockV1 {
    /// The chunk size in bytes: the chunk size in sectors times 512, kept to 32 bits.
    pub fn chunk_size_bytes(&self) -> (r: i32)
        ensures
            r == (self.chunksize as int * 512) as i32,
    {
        ((self.chunksize as i64) * 512) as i32
    }
}

/// What the driver is told of an array assembled from `members` devices
/// whose first superblock is `sb`, on the MD device numbered `md_rdev`.
pub open spec fn array_info_of(sb: SuperblockV1, md_rdev: u64, members: nat) -> MduArrayInfo {
    MduArrayInfo {
        major_version: sb.major_version as i32,
        minor_version: sb.minor_version as i32,
        patch_version: 0,
        ctime: sb.ctime as u32,
        level: sb.level,
        size: sb.size as i32,
        nr_disks: sb.raid_disks,
        raid_disks: sb.raid_disks,
        md_minor: spec_dev_minor(md_rdev) as i32,
        not_persistent: 0,
        utime: sb.utime as u32,
        state: 0,
        active_disks: members as i32,
        working_disks: members as i32,
        failed_disks: 0,
        spare_disks: 0,
        layout: sb.layout,
        chunk_size: (sb.chunksize as int * 512) as i32,
    }
}

/// The geometry the driver is told of an assembled array is the one the
/// first member's superblock records: its level, its layout, its number of
/// disks and its chunk size (in bytes); every member found counts as active
/// and working, none as failed or spare.
pub proof fn lemma_array_info_is_the_superblocks(sb: SuperblockV1, md_rdev: u64, members: nat)
    ensures
        array_info_of(sb, md_rdev, members).level == sb.level,
        array_info_of(sb, md_rdev, members).layout == sb.layout,
        array_info_of(sb, md_rdev, members).raid_disks == sb.raid_disks,
        array_info_of(sb, md_rdev, members).nr_disks == sb.raid_disks,
        array_info_of(sb, md_rdev, members).chunk_size == (sb.chunksize as int * 512) as i32,
        array_info_of(sb, md_rdev, members).size == sb.size as i32,
        array_info_of(sb, md_rdev, members).active_disks == members as i32,
        array_info_of(sb, md_rdev, members).working_disks == members as i32,
        array_info_of(sb, md_rdev, members).failed_disks == 0,
        array_info_of(sb, md_rdev, members).spare_disks == 0,
{
}

/// What the driver is told of an array.
pub fn array_info_for(sb: &SuperblockV1, md_rdev: u64, members: usize) -> (r: MduArrayInfo)
    ensures
        r == array_info_of(*sb, md_rdev, members as nat),
        r.level == sb.level,
        r.layout == sb.layout,
        r.raid_disks == sb.raid_disks,
        r.nr_disks == sb.raid_disks,
        r.chunk_size == (sb.chunksize as int * 512) as i32,
        r.size == sb.size as i32,
        r.active_disks == members as i32,
        r.working_disks == members as i32,
        r.failed_disks == 0,
        r.spare_disks == 0,
{
    MduArrayInfo {
        major_version: sb.major_version as i32,
        minor_version: sb.minor_version as i32,
        patch_version: 0,
        ctime: sb.ctime as u32,
        level: sb.level,
        size: sb.size as i32,
        nr_disks: sb.raid_disks,
        raid_disks: sb.raid_disks,
        md_minor: dev_minor(md_rdev),
        not_persistent: 0,
        utime: sb.utime as u32,
        state: 0,
        active_disks: members as i32,
        working_disks: members as i32,
        failed_disks: 0,
        spare_disks: 0,
        layout: sb.layout,
        chunk_size: sb.chunk_size_bytes(),
    }
}

/// A UUID as `{:?}` shows an array of bytes: `[b0, b1, ...]` in decimal.
pub open spec fn byte_list(b: Seq<u8>) -> Seq<char>
    decreases b.len(),
{
    if b.len() == 0 {
        "[]"@
    } else {
        "["@ + byte_items(b) + "]"@
    }
}

/// The bytes in decimal, separated by `, `.
pub open spec fn byte_items(b: Seq<u8>) -> Seq<char>
    decreases b.len(),
{
    if b.len() <= 1 {
        if b.len() == 0 { Seq::empty() } else { dec(b[0] as nat) }
    } else {
        byte_items(b.drop_last()) + ", "@ + dec(b.last() as nat)
    }
}

/// Shows a UUID as `{:?}` shows an array of bytes.
pub fn format_byte_list(u: &[u8; 16]) -> (r: String)
    ensures
        r@ == byte_list(u@),
{
    let mut s = dec_u64(u[0] as u64);
    let mut i: usize = 1;
    assert(byte_items(u@.subrange(0, 1)) =~= dec(u@[0] as nat));
    while i < 16
        invariant
            1 <= i <= 16,
            u@.len() == 16,
            s@ == byte_items(u@.subrange(0, i as int)),
        decreases 16 - i,
    {
        let d = dec_u64(u[i] as u64);
        s = s.concat(", ").concat(d.as_str());
        assert(u@.subrange(0, i + 1).drop_last() =~= u@.subrange(0, i as int));
        i = i + 1;
    }
    assert(u@.subrange(0, 16) =~= u@);
    String::from_str("[").concat(s.as_str()).concat("]")
}

/// What the driver is told of member `i`, numbered `rdev`: its slot is its
/// place in the list, and its state has exactly the active and in-sync flags.
pub open spec fn is_disk_info(d: MduDiskInfo, i: int, rdev: u64) -> bool {
    &&& d.number == i as i32
    &&& d.raid_disk == i as i32
    &&& d.major == spec_dev_major(rdev) as i32
    &&& d.minor == spec_dev_minor(rdev) as i32
    &&& forall|b: u32| b < 32 ==> ((d.state & (1i32 << b) != 0) <==> (b == MD_DISK_ACTIVE || b == MD_DISK_SYNC))
}

/// The first loaded superblock that failed, if any.
pub open spec fn first_load_error(loaded: Seq<Result<SuperblockV1, MdError>>) -> int {
    choose|i: int| 0 <= i < loaded.len() && #[trigger] loaded[i] is Err && forall|k: int| 0 <= k < i ==> loaded[k] is Ok
}

/// The superblocks of all members, or the error of the first that did not load.
pub fn collect_loaded(loaded: Vec<Result<SuperblockV1, MdError>>) -> (r: Result<Vec<SuperblockV1>, MdError>)
    ensures
        (exists|i: int| 0 <= i < loaded@.len() && #[trigger] loaded@[i] is Err) ==> r == Err::<Vec<SuperblockV1>, MdError>(
            loaded@[first_load_error(loaded@)]->Err_0),
        (forall|i: int| 0 <= i < loaded@.len() ==> #[trigger] loaded@[i] is Ok) ==> (r matches Ok(v)
            && v@.len() == loaded@.len() && forall|i: int| 0 <= i < v@.len() ==> #[trigger] v@[i] == loaded@[i]->Ok_0),
{
    let ghost ls = loaded@;
    let mut pending = loaded;
    let mut out: Vec<SuperblockV1> = Vec::new();
    let n = pending.len();
    let mut i: usize = 0;
    while i < n
        invariant
            ls == loaded@,
            n == ls.len(),
            i <= n,
            pending@ == ls.subrange(i as int, n as int),
            out@.len() == i,
            forall|k: int| 0 <= k < i ==> #[trigger] ls[k] is Ok,
            forall|k: int| 0 <= k < i ==> #[trigger] out@[k] == ls[k]->Ok_0,
        decreases n - i,
    {
        let c = pending.remove(0);
        assert(c == ls[i as int]);
        assert(pending@ =~= ls.subrange(i + 1, n as int));
        match c {
            Ok(sb) => {
                out.push(sb);
            },
            Err(e) => {
                proof {
                    assert(0 <= i < ls.len() && ls[i as int] is Err && forall|k: int| 0 <= k < i ==> ls[k] is Ok);
                    let w = first_load_error(ls);
                    if w != i {
                        if w < i {
                            assert(ls[w] is Ok);
                        } else {
                            assert(ls[i as int] is Ok);
                        }
                    }
                }
                return Err(e);
            },
        }
        i = i + 1;
    }
    Ok(out)
}

/// Whether member `i` stops the assembly: its UUID differs from the first
/// member's, or its device number did not read.
pub open spec fn member_fails(first: SuperblockV1, sbs: Seq<SuperblockV1>, rdevs: Seq<Result<u64, MdError>>, i: int) -> bool {
    sbs[i].set_uuid@ != first.set_uuid@ || rdevs[i] is Err
}

/// The first member that stops the assembly.
pub open spec fn first_failing_member(first: SuperblockV1, sbs: Seq<SuperblockV1>, rdevs: Seq<Result<u64, MdError>>) -> int {
    choose|i: int| 0 <= i < sbs.len() && #[trigger] member_fails(first, sbs, rdevs, i)
        && forall|k: int| 0 <= k < i ==> !member_fails(first, sbs, rdevs, k)
}

/// What the driver is told of each member, in member order: a member whose
/// UUID differs from the first member's ends the assembly with a mismatch, one
/// whose device number did not read with that error.
pub fn member_disks(first: &SuperblockV1, sbs: &Vec<SuperblockV1>, rdevs: &Vec<Result<u64, MdError>>) -> (r: Result<Vec<MduDiskInfo>, MdError>)
    requires
        rdevs@.len() == sbs@.len(),
        sbs@.len() <= i32::MAX,
    ensures
        (forall|i: int| 0 <= i < sbs@.len() ==> !#[trigger] member_fails(*first, sbs@, rdevs@, i)) ==> (r matches Ok(v)
            && v@.len() == sbs@.len()
            && forall|i: int| 0 <= i < v@.len() ==> is_disk_info(#[trigger] v@[i], i, rdevs@[i]->Ok_0)),
        (exists|i: int| 0 <= i < sbs@.len() && #[trigger] member_fails(*first, sbs@, rdevs@, i)) ==> ({
            let i = first_failing_member(*first, sbs@, rdevs@);
            if sbs@[i].set_uuid@ != first.set_uuid@ {
                r matches Err(MdError::UuidMismatch { expected, found })
                    && expected@ == byte_list(first.set_uuid@) && found@ == byte_list(sbs@[i].set_uuid@)
            } else {
                r == Err::<Vec<MduDiskInfo>, MdError>(rdevs@[i]->Err_0)
            }
        }),
{
    let mut out: Vec<MduDiskInfo> = Vec::new();
    let mut i: usize = 0;
    let flags: [i32; 2] = [MD_DISK_ACTIVE, MD_DISK_SYNC];
    while i < sbs.len()
        invariant
            i <= sbs@.len(),
            rdevs@.len() == sbs@.len(),
            sbs@.len() <= i32::MAX,
            flags@ == seq![MD_DISK_ACTIVE, MD_DISK_SYNC],
            out@.len() == i,
            forall|k: int| 0 <= k < i ==> !#[trigger] member_fails(*first, sbs@, rdevs@, k),
            forall|k: int| 0 <= k < i ==> is_disk_info(#[trigger] out@[k], k, rdevs@[k]->Ok_0),
        decreases sbs@.len() - i,
    {
        let sb = &sbs[i];
        if !bytes_eq(&sb.set_uuid, &first.set_uuid) {
            proof {
                assert(member_fails(*first, sbs@, rdevs@, i as int));
                let w = first_failing_member(*first, sbs@, rdevs@);
                if w != i {
                    if w < i {
                        assert(!member_fails(*first, sbs@, rdevs@, w));
                    } else {
                        assert(!member_fails(*first, sbs@, rdevs@, i as int));
                    }
                }
            }
            return Err(MdError::UuidMismatch {
                expected: format_byte_list(&first.set_uuid),
                found: format_byte_list(&sb.set_uuid),
            });
        }
        let rdev = match &rdevs[i] {
            Ok(d) => *d,
            Err(e) => {
                proof {
                    assert(member_fails(*first, sbs@, rdevs@, i as int));
                    let w = first_failing_member(*first, sbs@, rdevs@);
                    if w != i {
                        if w < i {
                            assert(!member_fails(*first, sbs@, rdevs@, w));
                        } else {
                            assert(!member_fails(*first, sbs@, rdevs@, i as int));
                        }
                    }
                }
                return Err(clone_error(e));
            },
        };
        let state = disk_state(&flags);
        let d = MduDiskInfo {
            number: i as i32,
            major: dev_major(rdev),
            minor: dev_minor(rdev),
            raid_disk: i as i32,
            state,
        };
        proof {
            assert forall|b: u32| b < 32 implies ((d.state & (1i32 << b) != 0) <==> (b == MD_DISK_ACTIVE || b == MD_DISK_SYNC)) by {
                if b == MD_DISK_ACTIVE {
                    assert(flags@[0] == b as i32);
                }
                if b == MD_DISK_SYNC {
                    assert(flags@[1] == b as i32);
                }
            }
        }
        out.push(d);
        i = i + 1;
    }
    Ok(out)
}

/// A copy of an error.
pub fn clone_error(e: &MdError) -> (r: MdError)
    ensures
        r == *e,
{
    match e {
        MdError::Io(m) => MdError::Io(m.clone()),
        MdError::Nix(m) => MdError::Nix(m.clone()),
        MdError::InvalidMetadata(m) => MdError::InvalidMetadata(m.clone()),
        MdError::Sysfs(m) => MdError::Sysfs(m.clone()),
        MdError::DeviceInUse(p) => MdError::DeviceInUse(p.clone()),
        MdError::DeviceMounted(p, m) => MdError::DeviceMounted(p.clone(), m.clone()),
        MdError::DeviceHasFilesystem(p, m) => MdError::DeviceHasFilesystem(p.clone(), m.clone()),
        MdError::NotBlockDevice(p) => MdError::NotBlockDevice(p.clone()),
        MdError::DeviceTooSmall(p, a, b) => MdError::DeviceTooSmall(p.clone(), *a, *b),
        MdError::InsufficientDevices { level, needed, actual } => MdError::InsufficientDevices {
            level: *level,
            needed: *needed,
            actual: *actual,
        },
        MdError::ArrayDegraded(a, f, t) => MdError::ArrayDegraded(a.clone(), *f, *t),
        MdError::ArrayNotFound(a) => MdError::ArrayNotFound(a.clone()),
        MdError::DeviceNotFound(d) => MdError::DeviceNotFound(d.clone()),
        MdError::InvalidDevice(d) => MdError::InvalidDevice(d.clone()),
        MdError::InvalidState(m) => MdError::InvalidState(m.clone()),
        MdError::InvalidArrayState(a, b, c) => MdError::InvalidArrayState(a.clone(), b.clone(), c.clone()),
        MdError::UuidMismatch { expected, found } => MdError::UuidMismatch {
            expected: expected.clone(),
            found: found.clone(),
        },
        MdError::MagicMismatch { expected, found } => MdError::MagicMismatch { expected: *expected, found: *found },
        MdError::UnsupportedMetadataVersion(v) => MdError::UnsupportedMetadataVersion(v.clone()),
        MdError::UnsupportedRaidLevel(l) => MdError::UnsupportedRaidLevel(*l),
        MdError::SmartCheckFailed(p, m) => MdError::SmartCheckFailed(p.clone(), m.clone()),
        MdError::ConfigValidation(m) => MdError::ConfigValidation(m.clone()),
        MdError::DataLossRisk(m) => MdError::DataLossRisk(m.clone()),
        MdError::Bitmap(m) => MdError::Bitmap(m.clone()),
        MdError::Reshape(m) => MdError::Reshape(m.clone()),
        MdError::RollbackFailed(m) => MdError::RollbackFailed(m.clone()),
        MdError::Api(m) => MdError::Api(m.clone()),
        MdError::Notification(m) => MdError::Notification(m.clone()),
        MdError::Serialization(m) => MdError::Serialization(m.clone()),
        MdError::Yaml(m) => MdError::Yaml(m.clone()),
        MdError::Http(m) => MdError::Http(m.clone()),
        MdError::Email(m) => MdError::Email(m.clone()),
        MdError::PermissionDenied(m) => MdError::PermissionDenied(m.clone()),
        MdError::Timeout(t) => MdError::Timeout(*t),
        MdError::ConcurrentModification(m) => MdError::ConcurrentModification(m.clone()),
    }
}

} // verus!
