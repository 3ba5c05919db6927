//! What the API's handlers answer, from what they found about the arrays.

use vstd::prelude::*;
use crate::api::{ApiError, NOT_FOUND, INTERNAL_SERVER_ERROR};
use crate::api::models::{ArrayInfo, ArrayListResponse, ArraySummary, CreateArrayRequest, OperationResponse,
    HealthResponse, ScrubResponse};
use crate::error::MdError;
use crate::paths::{file_name, lemma_file_name_of_child};
use crate::ops::create::{chunk_kib_ok, chunk_size_kib_to_bytes};
use crate::ioctl::MduArrayInfo;
use crate::sysfs::{ArrayState, MdSysfs, SysfsWrite, scrub_action};
use crate::text::{dec, dec_int, dec_i64, cat, cat3, str_eq, to_chars, starts_with_chars, occurs_at, strings_view};

verus! {

/// The state of the service that the handlers share: when it started, in
/// seconds of the monotonic clock.
#[derive(Debug, Clone, Copy)]
pub struct AppState {
    pub start_time: u64,
}

/// An entry of `/sys/block`, with the state of the array when it is one whose
/// state read.
#[derive(Debug, Clone)]
pub struct BlockEntry {
    pub name: String,
    pub state: Option<ArrayState>,
}

/// Whether a block device name is that of an MD array: it starts with `md`.
pub open spec fn is_md(name: Seq<char>) -> bool {
    occurs_at(name, "md"@, 0)
}

/// Whether a block device name is that of an MD array.
pub fn is_md_name(name: &str) -> (r: bool)
    ensures
        r == is_md(name@),
{
    starts_with_chars(to_chars(name).as_slice(), to_chars("md").as_slice())
}

/// The health of an array in a state: `healthy` when active, clean or idle;
/// `degraded` when degraded or recovering; `failed` when failed or inactive;
/// `unknown` otherwise.
pub open spec fn health_of(state: Seq<char>) -> Seq<char> {
    if state == "active"@ || state == "clean"@ || state == "active-idle"@ {
        "healthy"@
    } else if state == "degraded"@ || state == "recovering"@ {
        "degraded"@
    } else if state == "failed"@ || state == "inactive"@ {
        "failed"@
    } else {
        "unknown"@
    }
}

/// The health of an array in a state.
pub fn array_health(state: &str) -> (r: String)
    ensures
        r@ == health_of(state@),
{
    if str_eq(state, "active") || str_eq(state, "clean") || str_eq(state, "active-idle") {
        String::from_str("healthy")
    } else if str_eq(state, "degraded") || str_eq(state, "recovering") {
        String::from_str("degraded")
    } else if str_eq(state, "failed") || str_eq(state, "inactive") {
        String::from_str("failed")
    } else {
        String::from_str("unknown")
    }
}

/// The text of a state that may not have read.
pub open spec fn state_or_unknown(state: Option<ArrayState>) -> Seq<char> {
    match state {
        Some(s) => s.spec_text(),
        None => "unknown"@,
    }
}

/// The text of a state that may not have read.
fn state_text(state: &Option<ArrayState>) -> (r: String)
    ensures
        r@ == state_or_unknown(*state),
{
    match state {
        Some(s) => s.to_text(),
        None => String::from_str("unknown"),
    }
}

/// Whether a summary describes the array of an entry.
pub open spec fn summarizes(s: ArraySummary, e: BlockEntry) -> bool {
    &&& s.name@ == e.name@
    &&& s.device@ == "/dev/"@ + e.name@
    &&& s.level@ == "unknown"@
    &&& s.state@ == state_or_unknown(e.state)
    &&& s.health@ == health_of(state_or_unknown(e.state))
}

/// The entries of `/sys/block` that are MD arrays, in order.
pub open spec fn md_entries(es: Seq<BlockEntry>) -> Seq<BlockEntry>
    decreases es.len(),
{
    if es.len() == 0 {
        Seq::empty()
    } else if is_md(es.last().name@) {
        md_entries(es.drop_last()).push(es.last())
    } else {
        md_entries(es.drop_last())
    }
}

/// The arrays among the entries of `/sys/block`, each summarized, in order.
pub fn list_arrays(entries: &Vec<BlockEntry>) -> (r: ArrayListResponse)
    ensures
        r.arrays@.len() == md_entries(entries@).len(),
        forall|i: int| 0 <= i < r.arrays@.len() ==> summarizes(#[trigger] r.arrays@[i], md_entries(entries@)[i]),
        r.total == r.arrays@.len(),
{
    let mut arrays: Vec<ArraySummary> = Vec::new();
    let mut i: usize = 0;
    while i < entries.len()
        invariant
            i <= entries@.len(),
            arrays@.len() == md_entries(entries@.subrange(0, i as int)).len(),
            forall|k: int| 0 <= k < arrays@.len() ==> summarizes(#[trigger] arrays@[k], md_entries(entries@.subrange(0, i as int))[k]),
        decreases entries@.len() - i,
    {
        let e = &entries[i];
        assert(entries@.subrange(0, i + 1).drop_last() =~= entries@.subrange(0, i as int));
        if is_md_name(e.name.as_str()) {
            let state = state_text(&e.state);
            let health = array_health(state.as_str());
            arrays.push(ArraySummary {
                name: String::from_str(e.name.as_str()),
                device: cat("/dev/", e.name.as_str()),
                level: String::from_str("unknown"),
                state,
                health,
            });
        }
        i = i + 1;
    }
    assert(entries@.subrange(0, entries@.len() as int) =~= entries@);
    let total = arrays.len();
    ArrayListResponse { arrays, total }
}

/// The gauge of an array: 1 when it is active or clean, 0 otherwise.
pub open spec fn gauge(state: Option<ArrayState>) -> int {
    match state {
        Some(ArrayState::Active) => 1,
        Some(ArrayState::Clean) => 1,
        _ => 0,
    }
}

/// The line of the gauge of an array.
pub open spec fn metric_line(e: BlockEntry) -> Seq<char> {
    "md_array_state{device=\""@ + e.name@ + "\"} "@ + dec(gauge(e.state) as nat) + "\n"@
}

/// The lines of the gauges of the arrays among the entries, in order.
pub open spec fn metric_lines(es: Seq<BlockEntry>) -> Seq<char>
    decreases es.len(),
{
    if es.len() == 0 {
        Seq::empty()
    } else if is_md(es.last().name@) {
        metric_lines(es.drop_last()) + metric_line(es.last())
    } else {
        metric_lines(es.drop_last())
    }
}

/// The head of the metrics text.
pub open spec fn metrics_head() -> Seq<char> {
    "# HELP md_array_state The state of the MD array (1=active/clean, 0=inactive/degraded)\n"@
        + "# TYPE md_array_state gauge\n"@
}

/// The metrics of the arrays, in the Prometheus text format.
pub fn metrics(entries: &Vec<BlockEntry>) -> (r: String)
    ensures
        r@ == metrics_head() + metric_lines(entries@),
{
    let mut out = String::from_str("# HELP md_array_state The state of the MD array (1=active/clean, 0=inactive/degraded)\n")
        .concat("# TYPE md_array_state gauge\n");
    let mut i: usize = 0;
    while i < entries.len()
        invariant
            i <= entries@.len(),
            out@ == metrics_head() + metric_lines(entries@.subrange(0, i as int)),
        decreases entries@.len() - i,
    {
        let e = &entries[i];
        assert(entries@.subrange(0, i + 1).drop_last() =~= entries@.subrange(0, i as int));
        if is_md_name(e.name.as_str()) {
            let v: u64 = match &e.state {
                Some(ArrayState::Active) => 1,
                Some(ArrayState::Clean) => 1,
                _ => 0,
            };
            let d = crate::text::dec_u64(v);
            let ghost before = out@;
            out = out.concat("md_array_state{device=\"").concat(e.name.as_str()).concat("\"} ").concat(d.as_str())
                .concat("\n");
            assert(out@ =~= before + metric_line(*e));
        }
        i = i + 1;
    }
    assert(entries@.subrange(0, entries@.len() as int) =~= entries@);
    out
}

/// How the driver's report failed.
#[derive(Debug, Clone)]
pub enum InfoFailure {
    /// The device did not open.
    Open(String),
    /// The driver refused the request.
    Ioctl(String),
}

/// What the details of the array `array_name` are: the array must exist, and
/// the driver's report must have come.
pub open spec fn spec_array_detail(
    array_name: Seq<char>,
    exists: bool,
    state: Option<ArrayState>,
    info: Result<MduArrayInfo, InfoFailure>,
    r: Result<ArrayInfo, ApiError>,
) -> bool {
    if !exists {
        r matches Err(e) && e.status == NOT_FOUND && e.message@ == "Array "@ + array_name + " not found"@
    } else {
        match info {
            Err(InfoFailure::Open(m)) => r matches Err(e) && e.status == INTERNAL_SERVER_ERROR
                && e.message@ == "Failed to open device: "@ + m@,
            Err(InfoFailure::Ioctl(m)) => r matches Err(e) && e.status == INTERNAL_SERVER_ERROR
                && e.message@ == "Failed to get array info: "@ + m@,
            Ok(i) => r matches Ok(a)
                && a.name@ == array_name
                && a.device@ == "/dev/"@ + array_name
                && a.level@ == "raid"@ + dec_int(i.level as int)
                && a.state@ == state_or_unknown(state)
                && a.size == i.size as u64
                && a.raid_disks == i.raid_disks
                && a.total_disks == i.nr_disks
                && a.active_disks == i.active_disks
                && a.working_disks == i.working_disks
                && a.failed_disks == i.failed_disks
                && a.spare_disks == i.spare_disks
                && a.uuid@ == "unknown"@
                && a.chunk_size == i.chunk_size
                && a.layout == i.layout
                && a.created is None
                && a.updated is None,
        }
    }
}

/// The details of the array `array_name`, from whether its device exists,
/// its state, and the driver's report.
pub fn get_array_detail(
    array_name: &str,
    exists: bool,
    state: &Option<ArrayState>,
    info: &Result<MduArrayInfo, InfoFailure>,
) -> (r: Result<ArrayInfo, ApiError>)
    ensures
        spec_array_detail(array_name@, exists, *state, *info, r),
{
    if !exists {
        return Err(ApiError { status: NOT_FOUND, message: cat3("Array ", array_name, " not found") });
    }
    let st = state_text(state);
    match info {
        Err(InfoFailure::Open(m)) => Err(ApiError {
            status: INTERNAL_SERVER_ERROR,
            message: cat("Failed to open device: ", m.as_str()),
        }),
        Err(InfoFailure::Ioctl(m)) => Err(ApiError {
            status: INTERNAL_SERVER_ERROR,
            message: cat("Failed to get array info: ", m.as_str()),
        }),
        Ok(i) => Ok(ArrayInfo {
            name: String::from_str(array_name),
            device: cat("/dev/", array_name),
            level: cat("raid", dec_i64(i.level as i64).as_str()),
            state: st,
            size: i.size as u64,
            raid_disks: i.raid_disks,
            total_disks: i.nr_disks,
            active_disks: i.active_disks,
            working_disks: i.working_disks,
            failed_disks: i.failed_disks,
            spare_disks: i.spare_disks,
            uuid: String::from_str("unknown"),
            chunk_size: i.chunk_size,
            layout: i.layout,
            created: None,
            updated: None,
        }),
    }
}

/// The device path of the array named `array_name`.
pub fn array_device(array_name: &str) -> (r: String)
    ensures
        r@ == "/dev/"@ + array_name@,
{
    cat("/dev/", array_name)
}

/// The API acts on the array that a request names: the device path of a
/// plain array name (not empty, without `/`, neither `.` nor `..`) names that
/// array again, as the operations read a device's name.
pub proof fn lemma_device_names_the_array(name: Seq<char>)
    requires
        name.len() > 0,
        forall|k: int| 0 <= k < name.len() ==> name[k] != '/',
        name != seq!['.'],
        name != seq!['.', '.'],
    ensures
        file_name("/dev/"@ + name) == Some(name),
{
    reveal_strlit("/dev/");
    lemma_file_name_of_child("/dev/"@, name);
}

/// The metadata version that a create request asks for, `1.2` by default.
pub fn create_metadata(request: &CreateArrayRequest) -> (r: String)
    ensures
        r@ == match request.metadata {
            Some(m) => m@,
            None => "1.2"@,
        },
{
    match &request.metadata {
        Some(m) => String::from_str(m.as_str()),
        None => String::from_str("1.2"),
    }
}

/// The chunk size in bytes that a create request asks for, from the size in
/// KiB it carries: none when it gives none; a size that is negative, or not a
/// power of two from 4 to 32768 KiB, is refused as `chunk_size_kib_to_bytes`
/// refuses it.
pub fn create_chunk_size(kib: Option<i32>) -> (r: Result<Option<i32>, MdError>)
    ensures
        match kib {
            None => r == Ok::<Option<i32>, MdError>(None),
            Some(k) => if k >= 0 && chunk_kib_ok(k as u32) {
                r == Ok::<Option<i32>, MdError>(Some((k * 1024) as i32))
            } else {
                r matches Err(MdError::ConfigValidation(m)) && m@ == "Invalid chunk size: "@
                    + dec_int(k as int) + " KiB (must be a power of 2 between 4 and 32768 KiB)"@
            },
        },
{
    match kib {
        None => Ok(None),
        Some(k) => {
            if k < 0 {
                let n = dec_i64(k as i64);
                return Err(MdError::ConfigValidation(
                    cat3("Invalid chunk size: ", n.as_str(), " KiB (must be a power of 2 between 4 and 32768 KiB)"),
                ));
            }
            match chunk_size_kib_to_bytes(k as u32) {
                Ok(b) => Ok(Some(b)),
                Err(e) => Err(e),
            }
        },
    }
}

/// The answer to an operation on `subject` that succeeded: `Array <subject> <what>`.
pub fn create_array(subject: &str, what: &str) -> (r: OperationResponse)
    ensures
        r.success,
        r.message@ == "Array "@ + subject@ + " "@ + what@,
        r.details is None,
{
    OperationResponse {
        success: true,
        message: String::from_str("Array ").concat(subject).concat(" ").concat(what),
        details: None,
    }
}

/// What a scrub request on the array `array_name` leads to: the array's state
/// must read, and then the write that starts the scrub.
pub fn scrub_array(array_name: &str, state: &Result<ArrayState, MdError>, repair: bool) -> (r: Result<SysfsWrite, ApiError>)
    ensures
        match *state {
            Err(e) => r matches Err(a) && a.status == NOT_FOUND
                && a.message@ == "Array "@ + array_name@ + " not found or inactive: "@ + e.spec_text(),
            Ok(_) => r matches Ok(w)
                && w@ == ("md/sync_action"@, scrub_action(repair), "start scrub via sync_action"@, false),
        },
{
    match state {
        Err(e) => Err(ApiError {
            status: NOT_FOUND,
            message: String::from_str("Array ").concat(array_name).concat(" not found or inactive: ")
                .concat(e.to_text().as_str()),
        }),
        Ok(_) => {
            let sys = MdSysfs::new(array_name);
            Ok(sys.start_scrub(repair))
        },
    }
}

/// The answer when the write that starts a scrub failed with `err`.
pub fn scrub_failed(err: &MdError) -> (r: ApiError)
    ensures
        r.status == INTERNAL_SERVER_ERROR,
        r.message@ == "Failed to initiate scrub: "@ + err.spec_text(),
{
    ApiError { status: INTERNAL_SERVER_ERROR, message: cat("Failed to initiate scrub: ", err.to_text().as_str()) }
}

/// The answer to a scrub that started.
pub fn scrub_started() -> (r: ScrubResponse)
    ensures
        r.started,
        r.estimated_duration is None,
{
    ScrubResponse { started: true, estimated_duration: None }
}

/// The number of arrays among the names of `/sys/block`.
pub open spec fn md_count(names: Seq<String>) -> nat
    decreases names.len(),
{
    if names.len() == 0 {
        0
    } else {
        md_count(names.drop_last()) + if is_md(names.last()@) { 1nat } else { 0nat }
    }
}

/// The health of the service: it is healthy, of `version`, up for `uptime`
/// seconds, and watches the arrays among `names`.
pub fn health_check(version: &str, uptime: u64, names: &Vec<String>) -> (r: HealthResponse)
    ensures
        r.status@ == "healthy"@,
        r.version@ == version@,
        r.uptime == uptime,
        r.arrays_monitored == md_count(names@),
{
    let mut count: usize = 0;
    let mut i: usize = 0;
    while i < names.len()
        invariant
            i <= names@.len(),
            count == md_count(names@.subrange(0, i as int)),
            count <= i,
        decreases names@.len() - i,
    {
        assert(names@.subrange(0, i + 1).drop_last() =~= names@.subrange(0, i as int));
        if is_md_name(names[i].as_str()) {
            count = count + 1;
        }
        i = i + 1;
    }
    assert(names@.subrange(0, names@.len() as int) =~= names@);
    HealthResponse {
        status: String::from_str("healthy"),
        version: String::from_str(version),
        uptime,
        arrays_monitored: count,
    }
}

} // verus!
