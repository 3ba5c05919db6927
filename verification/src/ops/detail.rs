//! The details of an array, as the driver reports them.

use vstd::prelude::*;
use crate::error::MdError;
use crate::ioctl::MduArrayInfo;
use crate::paths::{file_name, device_name};
use crate::sysfs::ArrayState;
use crate::text::{dec, dec_int, dec_i64, cat, strings_view};

verus! {

/// The details of an array, in the form they are printed as JSON.
#[derive(Debug, Clone)]
pub struct ArrayDetail {
    pub device: String,
    pub state: String,
    pub version: String,
    pub level: String,
    pub size: u64,
    pub raid_disks: i32,
    pub total_disks: i32,
    pub active_disks: i32,
    pub working_disks: i32,
    pub failed_disks: i32,
    pub spare_disks: i32,
}

/// The name under which the details of the array at `md_device` are shown.
pub fn detail_name(md_device: &str) -> (r: Result<String, MdError>)
    ensures
        match file_name(md_device@) {
            Some(n) => r matches Ok(s) && s@ == n,
            None => r matches Err(MdError::InvalidMetadata(m)) && m@ == "Invalid device path"@,
        },
{
    match device_name(md_device) {
        Some(n) => Ok(n),
        None => Err(MdError::InvalidMetadata(String::from_str("Invalid device path"))),
    }
}

/// How the state of the array is shown: its sysfs text, or `Unknown` with
/// the error of reading it.
pub open spec fn detail_state(state: Result<ArrayState, MdError>) -> Seq<char> {
    match state {
        Ok(s) => s.spec_text(),
        Err(e) => "Unknown ("@ + e.spec_text() + ")"@,
    }
}

/// Shows the state of the array.
pub fn detail_state_text(state: &Result<ArrayState, MdError>) -> (r: String)
    ensures
        r@ == detail_state(*state),
{
    match state {
        Ok(s) => s.to_text(),
        Err(e) => String::from_str("Unknown (").concat(e.to_text().as_str()).concat(")"),
    }
}

/// The version of the array's metadata, as `major.minor.patch`.
pub open spec fn version_text(info: MduArrayInfo) -> Seq<char> {
    dec_int(info.major_version as int) + "."@ + dec_int(info.minor_version as int) + "."@
        + dec_int(info.patch_version as int)
}

/// Decimal digits of an `i32`, with its sign.
fn deci(n: i32) -> (r: String)
    ensures
        r@ == dec_int(n as int),
{
    dec_i64(n as i64)
}

/// Shows the version of the array's metadata.
fn version_of(info: &MduArrayInfo) -> (r: String)
    ensures
        r@ == version_text(*info),
{
    deci(info.major_version).concat(".").concat(deci(info.minor_version).as_str()).concat(".")
        .concat(deci(info.patch_version).as_str())
}

/// The details of the array named `name` in `state`, from what the driver reported.
pub fn array_detail(name: &str, state: String, info: &MduArrayInfo) -> (d: ArrayDetail)
    ensures
        d.device@ == name@,
        d.state == state,
        d.version@ == version_text(*info),
        d.level@ == "raid"@ + dec_int(info.level as int),
        d.size == info.size as u64,
        d.raid_disks == info.raid_disks,
        d.total_disks == info.nr_disks,
        d.active_disks == info.active_disks,
        d.working_disks == info.working_disks,
        d.failed_disks == info.failed_disks,
        d.spare_disks == info.spare_disks,
{
    ArrayDetail {
        device: String::from_str(name),
        state,
        version: version_of(info),
        level: cat("raid", deci(info.level).as_str()),
        size: info.size as u64,
        raid_disks: info.raid_disks,
        total_disks: info.nr_disks,
        active_disks: info.active_disks,
        working_disks: info.working_disks,
        failed_disks: info.failed_disks,
        spare_disks: info.spare_disks,
    }
}

/// The lines that show the details as text.
pub open spec fn detail_lines(info: MduArrayInfo) -> Seq<Seq<char>> {
    seq![
        "    Version : "@ + version_text(info),
        " RAID Level : raid"@ + dec_int(info.level as int),
        " Array Size : "@ + dec_int(info.size as int),
        " Raid Disks : "@ + dec_int(info.raid_disks as int),
        "Total Disks : "@ + dec_int(info.nr_disks as int),
        "State Flags : "@ + dec_int(info.state as int),
        "Active Disks: "@ + dec_int(info.active_disks as int),
        "Working Disks: "@ + dec_int(info.working_disks as int),
        "Failed Disks: "@ + dec_int(info.failed_disks as int),
        " Spare Disks: "@ + dec_int(info.spare_disks as int),
    ]
}

/// The lines that show the details as text.
pub fn detail_text(info: &MduArrayInfo) -> (r: Vec<String>)
    ensures
        strings_view(r@) == detail_lines(*info),
{
    let mut r: Vec<String> = Vec::new();
    r.push(cat("    Version : ", version_of(info).as_str()));
    r.push(cat(" RAID Level : raid", deci(info.level).as_str()));
    r.push(cat(" Array Size : ", deci(info.size).as_str()));
    r.push(cat(" Raid Disks : ", deci(info.raid_disks).as_str()));
    r.push(cat("Total Disks : ", deci(info.nr_disks).as_str()));
    r.push(cat("State Flags : ", deci(info.state).as_str()));
    r.push(cat("Active Disks: ", deci(info.active_disks).as_str()));
    r.push(cat("Working Disks: ", deci(info.working_disks).as_str()));
    r.push(cat("Failed Disks: ", deci(info.failed_disks).as_str()));
    r.push(cat(" Spare Disks: ", deci(info.spare_disks).as_str()));
    assert(strings_view(r@) =~= detail_lines(*info));
    r
}

} // verus!
