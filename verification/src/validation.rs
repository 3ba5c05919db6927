//! Checks made before an operation: whether a device may join an array,
//! whether a RAID level suits a number of devices, whether an operation
//! risks data.

use vstd::prelude::*;
use crate::error::MdError;
use crate::text::{
    dec, dec_u64, cat, cat3, to_chars, from_chars, trim, trim_chars, contains, contains_chars,
    starts_with_chars, str_eq, parse_unsigned, parse_unsigned_or_error, parse_error_text,
};

verus! {

/// The smallest device that may join an array: 100 MiB.
pub const MIN_DEVICE_SIZE: u64 = 100 * 1024 * 1024;

/// A device that passed the checks.
#[derive(Debug, Clone)]
pub struct DeviceInfo {
    pub path: String,
    /// In bytes.
    pub size: u64,
    /// Whether its SMART self-assessment passed (or could not be run).
    pub smart_healthy: bool,
}

/// What a command that ran printed, and whether it succeeded.
#[derive(Debug, Clone)]
pub struct CommandOutput {
    pub success: bool,
    pub stdout: String,
    pub stderr: String,
}

/// What was found out about a device, by the system calls and the commands
/// that the checks run. A command that could not be started holds the error's
/// message.
#[derive(Debug)]
pub struct DeviceProbe {
    /// Whether the path exists.
    pub exists: bool,
    /// Whether it is a block device, or the error of reading its metadata.
    pub metadata: Result<bool, MdError>,
    /// `findmnt -n -o TARGET -S <device>`.
    pub findmnt: Result<CommandOutput, String>,
    /// `blkid -s TYPE -o value <device>`.
    pub blkid: Result<CommandOutput, String>,
    /// The names in `/sys/class/block/<name>/holders`, when that directory reads.
    pub holders: Option<Vec<String>>,
    /// `blockdev --getsize64 <device>`.
    pub blockdev: Result<CommandOutput, String>,
    /// `smartctl -H <device>`.
    pub smartctl: Result<CommandOutput, String>,
}

/// The trimmed output of a command that succeeded.
pub open spec fn success_text(out: Result<CommandOutput, String>) -> Option<Seq<char>> {
    match out {
        Ok(o) => if o.success { Some(trim(o.stdout@)) } else { None },
        Err(_) => None,
    }
}

/// Where the device is mounted, from `findmnt`: its output when it succeeded
/// and printed something.
pub open spec fn spec_mount_point(out: Result<CommandOutput, String>) -> Option<Seq<char>> {
    match success_text(out) {
        Some(t) => if t.len() == 0 { None } else { Some(t) },
        None => None,
    }
}

/// The trimmed output of a command that succeeded.
fn success_output(out: &Result<CommandOutput, String>) -> (r: Option<String>)
    ensures
        match success_text(*out) {
            Some(t) => r matches Some(s) && s@ == t,
            None => r is None,
        },
{
    match out {
        Ok(o) => if o.success {
            Some(from_chars(trim_chars(to_chars(o.stdout.as_str()).as_slice()).as_slice()))
        } else {
            None
        },
        Err(_) => None,
    }
}

/// Where the device is mounted, if it is.
pub fn is_mounted(out: &Result<CommandOutput, String>) -> (r: Option<String>)
    ensures
        match spec_mount_point(*out) {
            Some(t) => r matches Some(s) && s@ == t,
            None => r is None,
        },
{
    match success_output(out) {
        Some(t) => if t.as_str().unicode_len() == 0 { None } else { Some(t) },
        None => None,
    }
}

/// The file system on the device, from `blkid`: its output when it succeeded,
/// unless empty or a RAID member mark.
pub open spec fn spec_filesystem(out: Result<CommandOutput, String>) -> Option<Seq<char>> {
    match success_text(out) {
        Some(t) => if t.len() == 0 || contains(t, "linux_raid_member"@) { None } else { Some(t) },
        None => None,
    }
}

/// The file system on the device, if it has one.
pub fn has_filesystem(out: &Result<CommandOutput, String>) -> (r: Option<String>)
    ensures
        match spec_filesystem(*out) {
            Some(t) => r matches Some(s) && s@ == t,
            None => r is None,
        },
{
    match success_output(out) {
        Some(t) => {
            let c = to_chars(t.as_str());
            if c.len() == 0 || contains_chars(c.as_slice(), to_chars("linux_raid_member").as_slice()) {
                None
            } else {
                Some(t)
            }
        },
        None => None,
    }
}

/// Whether a name is that of an MD array: it starts with `md`.
pub open spec fn is_md_name(name: Seq<char>) -> bool {
    name.len() >= 2 && name.subrange(0, 2) == "md"@
}

/// Whether some holder of the device is an MD array.
pub open spec fn spec_in_md_use(holders: Option<Vec<String>>) -> bool {
    match holders {
        Some(hs) => exists|i: int| 0 <= i < hs@.len() && #[trigger] is_md_name(hs@[i]@),
        None => false,
    }
}

/// Whether an MD array already holds the device.
pub fn is_in_md_use(holders: &Option<Vec<String>>) -> (r: bool)
    ensures
        r == spec_in_md_use(*holders),
{
    match holders {
        Some(hs) => {
            proof {
                reveal_strlit("md");
            }
            let mut i: usize = 0;
            while i < hs.len()
                invariant
                    i <= hs@.len(),
                    *holders == Some(*hs),
                    forall|k: int| 0 <= k < i ==> !#[trigger] is_md_name(hs@[k]@),
                decreases hs@.len() - i,
            {
                proof {
                    reveal_strlit("md");
                }
                let c = to_chars(hs[i].as_str());
                if starts_with_chars(c.as_slice(), to_chars("md").as_slice()) {
                    proof {
                        let h = holders->Some_0;
                        assert(h@ == hs@);
                        assert(is_md_name(h@[i as int]@));
                    }
                    return true;
                }
                i = i + 1;
            }
            assert(!spec_in_md_use(*holders));
            false
        },
        None => false,
    }
}

/// The size of the device, from `blockdev --getsize64`.
pub open spec fn spec_device_size(out: Result<CommandOutput, String>, r: Result<u64, MdError>) -> bool {
    match out {
        Ok(o) => if o.success {
            let t = trim(o.stdout@);
            match parse_unsigned(t, u64::MAX as nat) {
                Some(v) => r == Ok::<u64, MdError>(v as u64),
                None => r matches Err(MdError::InvalidMetadata(m))
                    && m@ == "Failed to parse device size: "@ + parse_error_text(t, u64::MAX as nat),
            }
        } else {
            r matches Err(MdError::InvalidMetadata(m)) && m@ == "blockdev failed: "@ + o.stderr@
        },
        Err(e) => r matches Err(MdError::Io(m)) && m@ == e@,
    }
}

/// The size of the device in bytes.
pub fn get_device_size(out: &Result<CommandOutput, String>) -> (r: Result<u64, MdError>)
    ensures
        spec_device_size(*out, r),
{
    match out {
        Ok(o) => if o.success {
            let t = trim_chars(to_chars(o.stdout.as_str()).as_slice());
            match parse_unsigned_or_error(t.as_slice(), u64::MAX) {
                Ok(v) => Ok(v),
                Err(m) => Err(MdError::InvalidMetadata(cat("Failed to parse device size: ", m.as_str()))),
            }
        } else {
            Err(MdError::InvalidMetadata(cat("blockdev failed: ", o.stderr.as_str())))
        },
        Err(e) => Err(MdError::Io(String::from_str(e.as_str()))),
    }
}

/// The SMART verdict on `device`, from `smartctl -H`: a run that succeeded
/// must report `PASSED`; a run that failed reports what it printed on its
/// error stream; a tool that could not be started is no verdict against it.
pub open spec fn spec_smart_health(device: Seq<char>, out: Result<CommandOutput, String>, r: Result<(), MdError>) -> bool {
    match out {
        Ok(o) => if o.success {
            if contains(o.stdout@, "PASSED"@) {
                r is Ok
            } else {
                r matches Err(MdError::SmartCheckFailed(p, m)) && p@ == device && m@ == "Health check did not pass"@
            }
        } else {
            r matches Err(MdError::SmartCheckFailed(p, m)) && p@ == device && m@ == o.stderr@
        },
        Err(_) => r is Ok,
    }
}

/// The SMART verdict on `device`.
pub fn check_smart_health(device: &str, out: &Result<CommandOutput, String>) -> (r: Result<(), MdError>)
    ensures
        spec_smart_health(device@, *out, r),
{
    match out {
        Ok(o) => if o.success {
            let c = to_chars(o.stdout.as_str());
            if contains_chars(c.as_slice(), to_chars("PASSED").as_slice()) {
                Ok(())
            } else {
                Err(MdError::SmartCheckFailed(String::from_str(device), String::from_str("Health check did not pass")))
            }
        } else {
            Err(MdError::SmartCheckFailed(String::from_str(device), String::from_str(o.stderr.as_str())))
        },
        Err(_) => Ok(()),
    }
}

/// What the checks decide of `device`: it must exist, be a block device, be
/// neither mounted nor hold a file system nor belong to an array, and be at
/// least `MIN_DEVICE_SIZE` large; its SMART verdict is only recorded.
pub open spec fn spec_check_device(device: Seq<char>, p: DeviceProbe, r: Result<DeviceInfo, MdError>) -> bool {
    if !p.exists {
        r matches Err(MdError::Io(m)) && m@ == "Device "@ + device + " does not exist"@
    } else if p.metadata is Err {
        r == Err::<DeviceInfo, MdError>(p.metadata->Err_0)
    } else if !p.metadata->Ok_0 {
        r matches Err(MdError::NotBlockDevice(d)) && d@ == device
    } else if spec_mount_point(p.findmnt) is Some {
        r matches Err(MdError::DeviceMounted(d, at)) && d@ == device && at@ == spec_mount_point(p.findmnt).unwrap()
    } else if spec_filesystem(p.blkid) is Some {
        r matches Err(MdError::DeviceHasFilesystem(d, f)) && d@ == device && f@ == spec_filesystem(p.blkid).unwrap()
    } else if spec_in_md_use(p.holders) {
        r matches Err(MdError::DeviceInUse(d)) && d@ == device
    } else {
        match p.blockdev {
            Ok(o) if o.success && parse_unsigned(trim(o.stdout@), u64::MAX as nat) is Some => {
                let size = parse_unsigned(trim(o.stdout@), u64::MAX as nat).unwrap();
                if size < MIN_DEVICE_SIZE {
                    r matches Err(MdError::DeviceTooSmall(d, s, m)) && d@ == device && s == size
                        && m == MIN_DEVICE_SIZE
                } else {
                    r matches Ok(info) && info.path@ == device && info.size == size
                        && info.smart_healthy == (exists|x: Result<(), MdError>| x is Ok
                            && spec_smart_health(device, p.smartctl, x))
                }
            },
            _ => r is Err && spec_device_size(p.blockdev, Err(r->Err_0)),
        }
    }
}

/// Checks whether `device` may join an array, from what was found out about it.
pub fn check_device_suitable(device: &str, probe: DeviceProbe) -> (r: Result<DeviceInfo, MdError>)
    ensures
        spec_check_device(device@, probe, r),
{
    if !probe.exists {
        return Err(MdError::Io(cat3("Device ", device, " does not exist")));
    }
    let ghost p = probe;
    let is_block = match probe.metadata {
        Err(e) => {
            return Err(e);
        },
        Ok(b) => b,
    };
    if !is_block {
        return Err(MdError::NotBlockDevice(String::from_str(device)));
    }
    if let Some(m) = is_mounted(&probe.findmnt) {
        return Err(MdError::DeviceMounted(String::from_str(device), m));
    }
    if let Some(f) = has_filesystem(&probe.blkid) {
        return Err(MdError::DeviceHasFilesystem(String::from_str(device), f));
    }
    if is_in_md_use(&probe.holders) {
        return Err(MdError::DeviceInUse(String::from_str(device)));
    }
    let size = match get_device_size(&probe.blockdev) {
        Err(e) => {
            return Err(e);
        },
        Ok(s) => s,
    };
    if size < MIN_DEVICE_SIZE {
        return Err(MdError::DeviceTooSmall(String::from_str(device), size, MIN_DEVICE_SIZE));
    }
    let smart = check_smart_health(device, &probe.smartctl);
    let healthy = smart.is_ok();
    proof {
        if healthy {
            assert(smart is Ok && spec_smart_health(device@, p.smartctl, smart));
        } else {
            assert forall|x: Result<(), MdError>| x is Ok implies !spec_smart_health(device@, p.smartctl, x) by {}
        }
    }
    Ok(DeviceInfo { path: String::from_str(device), size, smart_healthy: healthy })
}

/// The fewest devices that a RAID level needs, for the levels that are supported.
pub open spec fn min_devices(level: u8) -> Option<u32> {
    if level == 0 || level == 1 {
        Some(2)
    } else if level == 4 || level == 5 {
        Some(3)
    } else if level == 6 || level == 10 {
        Some(4)
    } else {
        None
    }
}

/// Whether `level` and `device_count` make a valid array: the level must be
/// supported, have enough devices, and RAID10 an even number of them.
pub open spec fn spec_raid_config(level: u8, device_count: u32, r: Result<(), MdError>) -> bool {
    match min_devices(level) {
        None => r matches Err(MdError::UnsupportedRaidLevel(l)) && l == level,
        Some(min) => if device_count < min {
            r matches Err(MdError::InsufficientDevices { level: l, needed, actual })
                && l == level && needed == min && actual == device_count
        } else if level == 10 && device_count % 2 != 0 {
            r matches Err(MdError::ConfigValidation(m))
                && m@ == "RAID10 requires an even number of devices, got "@ + dec(device_count as nat)
        } else {
            r is Ok
        },
    }
}

/// Checks a RAID level against a number of devices.
pub fn validate_raid_config(level: u8, device_count: u32) -> (r: Result<(), MdError>)
    ensures
        spec_raid_config(level, device_count, r),
{
    let min: u32 = if level == 0 || level == 1 {
        2
    } else if level == 4 || level == 5 {
        3
    } else if level == 6 || level == 10 {
        4
    } else {
        return Err(MdError::UnsupportedRaidLevel(level));
    };
    if device_count < min {
        return Err(MdError::InsufficientDevices { level, needed: min, actual: device_count });
    }
    if level == 10 && device_count % 2 != 0 {
        let n = dec_u64(device_count as u64);
        return Err(MdError::ConfigValidation(cat("RAID10 requires an even number of devices, got ", n.as_str())));
    }
    Ok(())
}

/// The first of the checks that failed.
pub open spec fn first_failure(checks: Seq<Result<DeviceInfo, MdError>>) -> int {
    choose|i: int| 0 <= i < checks.len() && #[trigger] checks[i] is Err
        && forall|k: int| 0 <= k < i ==> checks[k] is Ok
}

/// Checks every device for a new array of `level`: first the level against
/// their number, then each device in order; the first error ends the checks.
pub open spec fn spec_validate_devices(
    devices: Seq<String>,
    level: u8,
    checks: Seq<Result<DeviceInfo, MdError>>,
    r: Result<Vec<DeviceInfo>, MdError>,
) -> bool {
    let n = devices.len();
    if !spec_raid_config(level, n as u32, Ok(())) {
        r is Err && spec_raid_config(level, n as u32, Err(r->Err_0))
    } else if exists|i: int| 0 <= i < n && #[trigger] checks[i] is Err {
        r == Err::<Vec<DeviceInfo>, MdError>(checks[first_failure(checks)]->Err_0)
    } else {
        r matches Ok(v) && v@.len() == n && forall|i: int| 0 <= i < n ==> #[trigger] v@[i] == checks[i]->Ok_0
    }
}

/// Checks the devices of a new array of `level`, given the outcome of
/// checking each of them (in the order of `devices`).
pub fn validate_devices_for_array(
    devices: &Vec<String>,
    level: u8,
    checks: Vec<Result<DeviceInfo, MdError>>,
) -> (r: Result<Vec<DeviceInfo>, MdError>)
    requires
        checks@.len() == devices@.len(),
        devices@.len() <= u32::MAX,
    ensures
        spec_validate_devices(devices@, level, checks@, r),
{
    let n = devices.len();
    let cfg = validate_raid_config(level, n as u32);
    if let Err(e) = cfg {
        return Err(e);
    }
    let ghost cs = checks@;
    let mut infos: Vec<DeviceInfo> = Vec::new();
    let mut pending = checks;
    let mut i: usize = 0;
    while i < n
        invariant
            n == devices@.len(),
            cs.len() == n,
            n <= u32::MAX,
            spec_raid_config(level, n as u32, Ok(())),
            i <= n,
            cs == checks@,
            pending@ == cs.subrange(i as int, n as int),
            infos@.len() == i,
            forall|k: int| 0 <= k < i ==> #[trigger] cs[k] is Ok,
            forall|k: int| 0 <= k < i ==> #[trigger] infos@[k] == cs[k]->Ok_0,
        decreases n - i,
    {
        let c = pending.remove(0);
        assert(c == cs[i as int]);
        assert(pending@ =~= cs.subrange(i + 1, n as int));
        match c {
            Ok(info) => {
                infos.push(info);
            },
            Err(e) => {
                assert(cs[i as int] is Err);
                proof {
                    assert(0 <= i < cs.len() && cs[i as int] is Err && forall|k: int| 0 <= k < i ==> cs[k] is Ok);
                    let w = first_failure(cs);
                    if w != i {
                        if w < i {
                            assert(cs[w] is Ok);
                        } else {
                            assert(cs[i as int] is Ok);
                        }
                    }
                    assert(w == i);
                    assert(spec_raid_config(level, devices@.len() as u32, Ok(())));
                    assert(exists|j: int| 0 <= j < devices@.len() && #[trigger] cs[j] is Err);
                    assert(e == cs[w]->Err_0);
                }
                return Err(e);
            },
        }
        i = i + 1;
    }
    Ok(infos)
}

/// Whether an operation is refused on an array in `state`: a degraded or
/// failed array risks losing data.
pub open spec fn spec_data_loss_risk(operation: Seq<char>, state: Seq<char>, r: Result<(), MdError>) -> bool {
    if state == "degraded"@ || state == "failed"@ {
        r matches Err(MdError::DataLossRisk(m))
            && m@ == "Cannot perform "@ + operation + " on array in "@ + state + " state"@
    } else {
        r is Ok
    }
}

/// Checks whether `operation` would risk data on an array in `array_state`.
pub fn check_data_loss_risk(operation: &str, array_state: &str) -> (r: Result<(), MdError>)
    ensures
        spec_data_loss_risk(operation@, array_state@, r),
{
    if str_eq(array_state, "degraded") || str_eq(array_state, "failed") {
        let m = String::from_str("Cannot perform ").concat(operation).concat(" on array in ")
            .concat(array_state).concat(" state");
        Err(MdError::DataLossRisk(m))
    } else {
        Ok(())
    }
}

} // verus!
