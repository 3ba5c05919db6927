//! What a dry run promises across the operations: nothing is written.

use vstd::prelude::*;
use crate::error::MdError;
use crate::ops::bitmap::{BitmapConfig, spec_add_bitmap, spec_remove_bitmap};
use crate::ops::create::{DeviceNode, MdDeviceAction, spec_md_device};
use crate::ops::reshape::{ReshapeConfig, ReshapePlan, spec_reshape_array};
use crate::ops::spare::{SpareInfo, spec_add_spare, spec_remove_spare};
use crate::sysfs::{ArrayState, Plan};
use crate::validation::DeviceInfo;

verus! {

/// A dry run of any operation that plans sysfs writes (adding or removing a
/// bitmap or a spare, reshaping) plans none: whatever the operation answers,
/// it carries no write.
pub proof fn lemma_dry_run_plans_no_write(
    md_device: Seq<char>,
    exists: bool,
    location: Option<Seq<char>>,
    bitmap: BitmapConfig,
    add_bitmap_result: Result<Plan, MdError>,
    remove_bitmap_result: Result<Plan, MdError>,
    spare_device: Seq<char>,
    spare_exists: bool,
    force: bool,
    suitable: Result<DeviceInfo, MdError>,
    state: Result<ArrayState, MdError>,
    spares: Result<Vec<SpareInfo>, MdError>,
    add_spare_result: Result<Plan, MdError>,
    remove_spare_result: Result<Plan, MdError>,
    level: Result<String, String>,
    reshape: ReshapeConfig,
    reshape_result: Result<ReshapePlan, MdError>,
)
    requires
        spec_add_bitmap(md_device, exists, location, bitmap, true, add_bitmap_result),
        spec_remove_bitmap(md_device, exists, location, true, remove_bitmap_result),
        spec_add_spare(md_device, exists, spare_device, spare_exists, force, suitable, state, true, add_spare_result),
        spec_remove_spare(md_device, exists, spare_device, spares, true, remove_spare_result),
        spec_reshape_array(md_device, exists, state, level, reshape, true, reshape_result),
    ensures
        add_bitmap_result matches Ok(p) ==> p.writes().len() == 0,
        remove_bitmap_result matches Ok(p) ==> p.writes().len() == 0,
        add_spare_result matches Ok(p) ==> p.writes().len() == 0,
        remove_spare_result matches Ok(p) ==> p.writes().len() == 0,
        reshape_result matches Ok(p) ==> p.dry_run && p.writes@.len() == 0 && p.device_delta is None,
{
}

/// A dry run of a creation asks the kernel for no MD device, whatever is at
/// the device's path.
pub proof fn lemma_dry_run_requests_no_device(
    md_device: Seq<char>,
    node: Option<Result<DeviceNode, MdError>>,
    r: Result<MdDeviceAction, MdError>,
)
    requires
        spec_md_device(md_device, node, true, r),
    ensures
        !(r matches Ok(MdDeviceAction::Create(_))),
{
}

} // verus!
