//! Reshaping an array: changing its level, chunk size or layout, or the
//! number of its devices, through sysfs.

use vstd::prelude::*;
use crate::error::MdError;
use crate::num::{is_power_of_two, power_of_two, lemma_small_powers_of_two};
use crate::paths::{file_name, device_name};
use crate::sysfs::{ArrayState, SysfsWrite, Plan, WriteView, writes_view};
use crate::text::{
    dec, dec_int, dec_u64, dec_i64, cat, cat3, to_chars, trim, trim_chars, chars_eq, str_eq,
    to_lowercase, lowercase, strings_view, parse_unsigned, parse_unsigned_or_error,
    parse_error_text, slice_chars,
};

verus! {

/// The kinds of reshape.
#[derive(Debug, Clone, Copy, PartialEq, Eq, Structural)]
pub enum ReshapeType {
    /// A new RAID level.
    Level,
    /// A new chunk size.
    ChunkSize,
    /// A new layout.
    Layout,
    /// More devices.
    Grow,
    /// Fewer devices.
    Shrink,
}

/// What a reshape is to change.
#[derive(Debug, Clone)]
pub struct ReshapeConfig {
    pub target_level: Option<u8>,
    /// In KiB.
    pub target_chunk_size: Option<u32>,
    pub target_layout: Option<String>,
    /// Devices to add (positive) or remove (negative).
    pub device_delta: Option<i32>,
    /// File that keeps the critical section of the reshape.
    pub backup_file: Option<String>,
    /// Go on without asking.
    pub force: bool,
}

impl Default for ReshapeConfig {
    /// A reshape that changes nothing and asks before it starts.
    fn default() -> (c: Self)
        ensures
            c.target_level is None,
            c.target_chunk_size is None,
            c.target_layout is None,
            c.device_delta is None,
            c.backup_file is None,
            !c.force,
    {
        ReshapeConfig {
            target_level: None,
            target_chunk_size: None,
            target_layout: None,
            device_delta: None,
            backup_file: None,
            force: false,
        }
    }
}

/// The RAID levels that an array can be reshaped to.
pub open spec fn reshape_level_ok(level: u8) -> bool {
    level == 0 || level == 1 || level == 4 || level == 5 || level == 6 || level == 10
}

/// The error of a reshape configuration, if it has one: it must change
/// something, its level must be one of the supported ones, and its chunk size
/// a power of two of 4 to 32768 KiB.
pub open spec fn reshape_config_error(config: ReshapeConfig) -> Option<Seq<char>> {
    if config.target_level is None && config.target_chunk_size is None && config.target_layout is None
        && config.device_delta is None {
        Some("No reshape operation specified"@)
    } else if config.target_level matches Some(l) && !reshape_level_ok(l) {
        Some("Invalid target RAID level: "@ + dec(config.target_level.unwrap() as nat))
    } else if config.target_chunk_size matches Some(c) && (c < 4 || c > 32768 || !is_power_of_two(c as nat)) {
        Some("Invalid chunk size: "@ + dec(config.target_chunk_size.unwrap() as nat)
            + " (must be power of 2, between 4-32768 KB)"@)
    } else {
        None
    }
}

/// The chunk sizes a reshape accepts are exactly the powers of two from 4 to
/// 32768 KiB: a configuration with any other chunk size is refused, and a
/// reshape that goes ahead with a chunk size has one of those.
pub proof fn lemma_reshape_chunk_sizes(
    md_device: Seq<char>,
    exists: bool,
    state: Result<ArrayState, MdError>,
    level: Result<String, String>,
    config: ReshapeConfig,
    dry_run: bool,
    r: Result<ReshapePlan, MdError>,
)
    requires
        spec_reshape_array(md_device, exists, state, level, config, dry_run, r),
    ensures
        config.target_chunk_size is Some && reshape_config_error(config) is None ==> {
            let c = config.target_chunk_size->Some_0;
            c == 4 || c == 8 || c == 16 || c == 32 || c == 64 || c == 128 || c == 256 || c == 512 || c == 1024 || c == 2048 || c == 4096 || c == 8192 || c == 16384 || c == 32768
        },
        config.target_chunk_size is Some && r is Ok ==> {
            let c = config.target_chunk_size->Some_0;
            c == 4 || c == 8 || c == 16 || c == 32 || c == 64 || c == 128 || c == 256 || c == 512 || c == 1024 || c == 2048 || c == 4096 || c == 8192 || c == 16384 || c == 32768
        },
        config.target_chunk_size is Some && !({
            let c = config.target_chunk_size->Some_0;
            c == 4 || c == 8 || c == 16 || c == 32 || c == 64 || c == 128 || c == 256 || c == 512 || c == 1024 || c == 2048 || c == 4096 || c == 8192 || c == 16384 || c == 32768
        }) ==> reshape_config_error(config) is Some && r is Err,
{
    if let Some(c) = config.target_chunk_size {
        if 4 <= c <= 32768 && is_power_of_two(c as nat) {
            lemma_small_powers_of_two(c as nat);
        }
    }
}

/// Checks a reshape configuration, given what the array's `level` read (the
/// array must report its level).
pub fn validate_reshape_config(config: &ReshapeConfig, level: &Result<String, String>) -> (r: Result<(), MdError>)
    ensures
        match reshape_config_error(*config) {
            Some(m) => r matches Err(MdError::ConfigValidation(t)) && t@ == m,
            None => match level {
                Ok(_) => r is Ok,
                Err(e) => r matches Err(MdError::Sysfs(t)) && t@ == "Failed to read level: "@ + e@,
            },
        },
{
    if config.target_level.is_none() && config.target_chunk_size.is_none() && config.target_layout.is_none()
        && config.device_delta.is_none() {
        return Err(MdError::ConfigValidation(String::from_str("No reshape operation specified")));
    }
    if let Some(l) = config.target_level {
        if !(l == 0 || l == 1 || l == 4 || l == 5 || l == 6 || l == 10) {
            let n = dec_u64(l as u64);
            return Err(MdError::ConfigValidation(cat("Invalid target RAID level: ", n.as_str())));
        }
    }
    if let Some(c) = config.target_chunk_size {
        if c < 4 || c > 32768 || !power_of_two(c) {
            let n = dec_u64(c as u64);
            return Err(MdError::ConfigValidation(
                cat3("Invalid chunk size: ", n.as_str(), " (must be power of 2, between 4-32768 KB)"),
            ));
        }
    }
    match level {
        Ok(_) => Ok(()),
        Err(e) => Err(MdError::Sysfs(cat("Failed to read level: ", e.as_str()))),
    }
}

/// The write that starts the reshape once its parameters are set.
pub open spec fn start_reshape() -> WriteView {
    ("sync_action"@, "reshape"@, "start reshape"@, false)
}

/// The writes that set the parameters of a reshape, in order: the level (and
/// the backup file with it), the chunk size, the layout; each followed by the
/// write that starts the reshape.
pub open spec fn parameter_writes(config: ReshapeConfig) -> Seq<WriteView> {
    let level: Seq<WriteView> = match config.target_level {
        Some(l) => seq![
            ("level"@, "raid"@ + dec(l as nat), "set level"@, false),
            match config.backup_file {
                Some(b) => ("sync_action"@, "reshape "@ + b@, "set backup file"@, false),
                None => start_reshape(),
            },
        ],
        None => Seq::empty(),
    };
    let chunk: Seq<WriteView> = match config.target_chunk_size {
        Some(c) => seq![("chunk_size"@, dec(c as nat), "set chunk size"@, false), start_reshape()],
        None => Seq::empty(),
    };
    let layout: Seq<WriteView> = match config.target_layout {
        Some(l) => seq![("layout"@, l@, "set layout"@, false), start_reshape()],
        None => Seq::empty(),
    };
    level + chunk + layout
}

/// What a reshape is to do.
#[derive(Debug)]
pub struct ReshapePlan {
    /// Only show the plan.
    pub dry_run: bool,
    /// Ask the user to confirm before anything is written.
    pub confirm: bool,
    /// The writes that set the new parameters.
    pub writes: Vec<SysfsWrite>,
    /// Devices to add or remove once those writes are done.
    pub device_delta: Option<i32>,
}

/// What reshaping the array at `md_device` decides: the device must exist and
/// be named, its state must read and be `active` or `clean`, the configuration
/// must be valid; then either a dry run, or the writes (after a confirmation
/// unless forced) and the change of device count.
pub open spec fn spec_reshape_array(
    md_device: Seq<char>,
    exists: bool,
    state: Result<ArrayState, MdError>,
    level: Result<String, String>,
    config: ReshapeConfig,
    dry_run: bool,
    r: Result<ReshapePlan, MdError>,
) -> bool {
    if !exists {
        r matches Err(MdError::DeviceNotFound(p)) && p@ == md_device
    } else if file_name(md_device) is None {
        r matches Err(MdError::InvalidDevice(m)) && m@ == "Invalid device name"@
    } else if state is Err {
        r matches Err(MdError::Sysfs(m)) && m@ == "Failed to read array state: "@ + state->Err_0.spec_text()
    } else if state->Ok_0.spec_text() != "active"@ && state->Ok_0.spec_text() != "clean"@ {
        r matches Err(MdError::InvalidState(m))
            && m@ == "Array must be active or clean to reshape, current state: "@ + state->Ok_0.spec_text()
    } else if reshape_config_error(config) is Some {
        r matches Err(MdError::ConfigValidation(m)) && m@ == reshape_config_error(config).unwrap()
    } else if level is Err {
        r matches Err(MdError::Sysfs(m)) && m@ == "Failed to read level: "@ + level->Err_0@
    } else if dry_run {
        r matches Ok(p) && p.dry_run && !p.confirm && p.writes@.len() == 0 && p.device_delta is None
    } else {
        r matches Ok(p) && !p.dry_run && p.confirm == !config.force
            && writes_view(p.writes@) == parameter_writes(config) && p.device_delta == config.device_delta
    }
}

/// Decides how to reshape the array at `md_device`, given whether it exists,
/// its state, and what its `level` attribute read.
pub fn reshape_array(
    md_device: &str,
    exists: bool,
    state: Result<ArrayState, MdError>,
    level: &Result<String, String>,
    config: &ReshapeConfig,
    dry_run: bool,
) -> (r: Result<ReshapePlan, MdError>)
    ensures
        spec_reshape_array(md_device@, exists, state, *level, *config, dry_run, r),
{
    if !exists {
        return Err(MdError::DeviceNotFound(String::from_str(md_device)));
    }
    if device_name(md_device).is_none() {
        return Err(MdError::InvalidDevice(String::from_str("Invalid device name")));
    }
    let st = match state {
        Err(e) => {
            let t = e.to_text();
            return Err(MdError::Sysfs(cat("Failed to read array state: ", t.as_str())));
        },
        Ok(s) => s,
    };
    let text = st.to_text();
    if !str_eq(text.as_str(), "active") && !str_eq(text.as_str(), "clean") {
        return Err(MdError::InvalidState(
            cat("Array must be active or clean to reshape, current state: ", text.as_str()),
        ));
    }
    match validate_reshape_config(config, level) {
        Err(e) => {
            return Err(e);
        },
        Ok(()) => {},
    }
    if dry_run {
        return Ok(ReshapePlan { dry_run: true, confirm: false, writes: Vec::new(), device_delta: None });
    }
    let writes = parameter_writes_of(config);
    Ok(ReshapePlan { dry_run: false, confirm: !config.force, writes, device_delta: config.device_delta })
}

/// The writes that set the parameters of a reshape.
fn parameter_writes_of(config: &ReshapeConfig) -> (r: Vec<SysfsWrite>)
    ensures
        writes_view(r@) == parameter_writes(*config),
{
    let mut ws: Vec<SysfsWrite> = Vec::new();
    if let Some(l) = config.target_level {
        let n = dec_u64(l as u64);
        let value = cat("raid", n.as_str());
        ws.push(SysfsWrite::new("level", value.as_str(), "set level", false));
        match &config.backup_file {
            Some(b) => {
                let v = cat("reshape ", b.as_str());
                ws.push(SysfsWrite::new("sync_action", v.as_str(), "set backup file", false));
            },
            None => {
                ws.push(SysfsWrite::new("sync_action", "reshape", "start reshape", false));
            },
        }
    }
    let ghost n1 = ws@.len();
    if let Some(c) = config.target_chunk_size {
        let n = dec_u64(c as u64);
        ws.push(SysfsWrite::new("chunk_size", n.as_str(), "set chunk size", false));
        ws.push(SysfsWrite::new("sync_action", "reshape", "start reshape", false));
    }
    let ghost n2 = ws@.len();
    if let Some(l) = &config.target_layout {
        ws.push(SysfsWrite::new("layout", l.as_str(), "set layout", false));
        ws.push(SysfsWrite::new("sync_action", "reshape", "start reshape", false));
    }
    proof {
        let cfg = *config;
        let v = writes_view(ws@);
        let level: Seq<WriteView> = match cfg.target_level {
            Some(l) => seq![
                ("level"@, "raid"@ + dec(l as nat), "set level"@, false),
                match cfg.backup_file {
                    Some(b) => ("sync_action"@, "reshape "@ + b@, "set backup file"@, false),
                    None => start_reshape(),
                },
            ],
            None => Seq::empty(),
        };
        let chunk: Seq<WriteView> = match cfg.target_chunk_size {
            Some(c) => seq![("chunk_size"@, dec(c as nat), "set chunk size"@, false), start_reshape()],
            None => Seq::empty(),
        };
        let layout: Seq<WriteView> = match cfg.target_layout {
            Some(l) => seq![("layout"@, l@, "set layout"@, false), start_reshape()],
            None => Seq::empty(),
        };
        assert(v.subrange(0, n1 as int) =~= level);
        assert(v.subrange(n1 as int, n2 as int) =~= chunk);
        assert(v.subrange(n2 as int, v.len() as int) =~= layout);
        assert(v =~= level + chunk + layout);
    }
    ws
}

/// Whether a lower-cased answer is the word that confirms a reshape.
pub fn answer_is_yes(lowered: &str) -> (r: bool)
    ensures
        r == (lowered@ == "yes"@),
{
    str_eq(lowered, "yes")
}

/// Whether the user's answer confirms the reshape: once trimmed and lower-cased, it is `yes`.
pub fn confirmed(answer: &str) -> (r: bool)
    ensures
        r == (lowercase(trim(answer@)) == "yes"@),
{
    let t = crate::text::from_chars(trim_chars(to_chars(answer).as_slice()).as_slice());
    let lowered = to_lowercase(t.as_str());
    answer_is_yes(lowered.as_str())
}

/// The number of member devices, from what `raid_disks` read.
pub open spec fn spec_raid_disks(read: Result<String, String>, r: Result<u32, MdError>) -> bool {
    match read {
        Err(e) => r matches Err(MdError::Sysfs(m)) && m@ == "Failed to read raid_disks: "@ + e@,
        Ok(t) => match parse_unsigned(t@, u32::MAX as nat) {
            Some(v) => r == Ok::<u32, MdError>(v as u32),
            None => r matches Err(MdError::Sysfs(m))
                && m@ == "Failed to read raid_disks: "@ + parse_error_text(t@, u32::MAX as nat),
        },
    }
}

/// The number of member devices of the array.
pub fn read_raid_disks(read: &Result<String, String>) -> (r: Result<u32, MdError>)
    ensures
        spec_raid_disks(*read, r),
{
    match read {
        Err(e) => Err(MdError::Sysfs(cat("Failed to read raid_disks: ", e.as_str()))),
        Ok(t) => match parse_unsigned_or_error(to_chars(t.as_str()).as_slice(), u32::MAX as u64) {
            Ok(v) => Ok(v as u32),
            Err(m) => Err(MdError::Sysfs(cat("Failed to read raid_disks: ", m.as_str()))),
        },
    }
}

/// The writes that set the number of member devices to `n` and start the reshape.
pub open spec fn resize_writes(n: nat) -> Seq<WriteView> {
    seq![("raid_disks"@, dec(n), "set raid_disks"@, false), start_reshape()]
}

/// The writes that grow an array of `current` devices by `num_devices`.
pub fn grow_array(current: u32, num_devices: u32) -> (r: Vec<SysfsWrite>)
    requires
        current + num_devices <= u32::MAX,
    ensures
        writes_view(r@) == resize_writes((current + num_devices) as nat),
{
    let n = dec_u64((current + num_devices) as u64);
    let mut ws: Vec<SysfsWrite> = Vec::new();
    ws.push(SysfsWrite::new("raid_disks", n.as_str(), "set raid_disks", false));
    ws.push(SysfsWrite::new("sync_action", "reshape", "start reshape", false));
    assert(writes_view(ws@) =~= resize_writes((current + num_devices) as nat));
    ws
}

/// The writes that shrink an array of `current` devices by `num_devices`;
/// at least one device must remain.
pub fn shrink_array(current: u32, num_devices: u32) -> (r: Result<Vec<SysfsWrite>, MdError>)
    ensures
        num_devices >= current ==> (r matches Err(MdError::ConfigValidation(m)) && m@ == "Cannot remove "@
            + dec(num_devices as nat) + " devices from array with "@ + dec(current as nat) + " devices"@),
        num_devices < current ==> (r matches Ok(ws) && writes_view(ws@) == resize_writes((current - num_devices) as nat)),
{
    if num_devices >= current {
        let a = dec_u64(num_devices as u64);
        let b = dec_u64(current as u64);
        let m = String::from_str("Cannot remove ").concat(a.as_str()).concat(" devices from array with ")
            .concat(b.as_str()).concat(" devices");
        return Err(MdError::ConfigValidation(m));
    }
    let n = dec_u64((current - num_devices) as u64);
    let mut ws: Vec<SysfsWrite> = Vec::new();
    ws.push(SysfsWrite::new("raid_disks", n.as_str(), "set raid_disks", false));
    ws.push(SysfsWrite::new("sync_action", "reshape", "start reshape", false));
    assert(writes_view(ws@) =~= resize_writes((current - num_devices) as nat));
    Ok(ws)
}

/// The writes that change the device count of an array of `current` devices
/// by `delta`: grow for a positive one, shrink for a negative one, nothing for 0.
pub fn change_device_count(current: u32, delta: i32) -> (r: Result<Vec<SysfsWrite>, MdError>)
    requires
        delta > i32::MIN,
        delta > 0 ==> current + delta <= u32::MAX,
    ensures
        delta == 0 ==> (r matches Ok(ws) && ws@.len() == 0),
        delta > 0 ==> (r matches Ok(ws) && writes_view(ws@) == resize_writes((current + delta) as nat)),
        delta < 0 && -delta >= current ==> (r matches Err(MdError::ConfigValidation(m)) && m@ == "Cannot remove "@
            + dec((-delta) as nat) + " devices from array with "@ + dec(current as nat) + " devices"@),
        delta < 0 && -delta < current ==> (r matches Ok(ws) && writes_view(ws@) == resize_writes((current + delta) as nat)),
{
    if delta > 0 {
        Ok(grow_array(current, delta as u32))
    } else if delta < 0 {
        shrink_array(current, (-delta) as u32)
    } else {
        Ok(Vec::new())
    }
}

/// The lines that show a reshape before it is made, with the level, chunk
/// size and layout that the array reports now (`unknown` where they did not read).
pub open spec fn reshape_plan(
    config: ReshapeConfig,
    level: Seq<char>,
    chunk: Seq<char>,
    layout: Seq<char>,
) -> Seq<Seq<char>> {
    let head = seq!["\n📋 Reshape Plan:"@, "================"@];
    let a: Seq<Seq<char>> = match config.target_level {
        Some(l) => seq!["RAID Level: "@ + level + " → "@ + dec(l as nat)],
        None => Seq::empty(),
    };
    let b: Seq<Seq<char>> = match config.target_chunk_size {
        Some(c) => seq!["Chunk Size: "@ + chunk + " → "@ + dec(c as nat) + " KB"@],
        None => Seq::empty(),
    };
    let c: Seq<Seq<char>> = match config.target_layout {
        Some(l) => seq!["Layout: "@ + layout + " → "@ + l@],
        None => Seq::empty(),
    };
    let d: Seq<Seq<char>> = match config.device_delta {
        Some(n) => if n > 0 {
            seq!["Operation: Grow array by "@ + dec_int(n as int) + " devices"@]
        } else {
            seq!["Operation: Shrink array by "@ + dec_int(-n) + " devices"@]
        },
        None => Seq::empty(),
    };
    let e: Seq<Seq<char>> = match config.backup_file {
        Some(f) => seq!["Backup File: "@ + f@],
        None => Seq::empty(),
    };
    let tail = seq![
        "\n⚠️  Estimated Time: Several hours (depends on array size)"@,
        "⚠️  System Performance: May be degraded during reshape"@,
        "⚠️  Risk Level: HIGH - Ensure backups are current"@,
        ""@,
    ];
    head + a + b + c + d + e + tail
}

/// A value read from sysfs, or `unknown`.
fn or_unknown(read: &Option<String>) -> (r: String)
    ensures
        r@ == match *read {
            Some(s) => s@,
            None => "unknown"@,
        },
{
    match read {
        Some(s) => String::from_str(s.as_str()),
        None => String::from_str("unknown"),
    }
}

/// The lines that show a reshape before it is made.
#[verifier::spinoff_prover]
#[verifier::rlimit(40)]
pub fn print_reshape_plan(
    config: &ReshapeConfig,
    level: &Option<String>,
    chunk: &Option<String>,
    layout: &Option<String>,
) -> (r: Vec<String>)
    requires
        config.device_delta matches Some(n) ==> n > i32::MIN,
    ensures
        strings_view(r@) == reshape_plan(
            *config,
            match *level { Some(s) => s@, None => "unknown"@ },
            match *chunk { Some(s) => s@, None => "unknown"@ },
            match *layout { Some(s) => s@, None => "unknown"@ },
        ),
{
    let cur_level = or_unknown(level);
    let cur_chunk = or_unknown(chunk);
    let cur_layout = or_unknown(layout);
    let mut r: Vec<String> = Vec::new();
    r.push(String::from_str("\n📋 Reshape Plan:"));
    r.push(String::from_str("================"));
    let ghost n0 = r@.len();
    if let Some(l) = config.target_level {
        let n = dec_u64(l as u64);
        r.push(String::from_str("RAID Level: ").concat(cur_level.as_str()).concat(" → ").concat(n.as_str()));
    }
    let ghost n1 = r@.len();
    if let Some(c) = config.target_chunk_size {
        let n = dec_u64(c as u64);
        r.push(String::from_str("Chunk Size: ").concat(cur_chunk.as_str()).concat(" → ").concat(n.as_str())
            .concat(" KB"));
    }
    let ghost n2 = r@.len();
    if let Some(l) = &config.target_layout {
        r.push(String::from_str("Layout: ").concat(cur_layout.as_str()).concat(" → ").concat(l.as_str()));
    }
    let ghost n3 = r@.len();
    if let Some(d) = config.device_delta {
        if d > 0 {
            let n = dec_i64(d as i64);
            r.push(cat3("Operation: Grow array by ", n.as_str(), " devices"));
        } else {
            let n = dec_i64(-(d as i64));
            r.push(cat3("Operation: Shrink array by ", n.as_str(), " devices"));
        }
    }
    let ghost n4 = r@.len();
    if let Some(f) = &config.backup_file {
        r.push(cat("Backup File: ", f.as_str()));
    }
    let ghost n5 = r@.len();
    r.push(String::from_str("\n⚠️  Estimated Time: Several hours (depends on array size)"));
    r.push(String::from_str("⚠️  System Performance: May be degraded during reshape"));
    r.push(String::from_str("⚠️  Risk Level: HIGH - Ensure backups are current"));
    r.push(String::new());
    proof {
        reveal_strlit("");
        assert(""@ =~= Seq::<char>::empty());
        let cfg = *config;
        let v = strings_view(r@);
        let head = seq!["\n📋 Reshape Plan:"@, "================"@];
        let a: Seq<Seq<char>> = match cfg.target_level {
            Some(l) => seq!["RAID Level: "@ + cur_level@ + " → "@ + dec(l as nat)],
            None => Seq::empty(),
        };
        let b: Seq<Seq<char>> = match cfg.target_chunk_size {
            Some(c) => seq!["Chunk Size: "@ + cur_chunk@ + " → "@ + dec(c as nat) + " KB"@],
            None => Seq::empty(),
        };
        let c: Seq<Seq<char>> = match cfg.target_layout {
            Some(l) => seq!["Layout: "@ + cur_layout@ + " → "@ + l@],
            None => Seq::empty(),
        };
        let d: Seq<Seq<char>> = match cfg.device_delta {
            Some(n) => if n > 0 {
                seq!["Operation: Grow array by "@ + dec_int(n as int) + " devices"@]
            } else {
                seq!["Operation: Shrink array by "@ + dec_int(-n) + " devices"@]
            },
            None => Seq::empty(),
        };
        let e: Seq<Seq<char>> = match cfg.backup_file {
            Some(f) => seq!["Backup File: "@ + f@],
            None => Seq::empty(),
        };
        let tail = seq![
            "\n⚠️  Estimated Time: Several hours (depends on array size)"@,
            "⚠️  System Performance: May be degraded during reshape"@,
            "⚠️  Risk Level: HIGH - Ensure backups are current"@,
            ""@,
        ];
        assert(v.subrange(0, n0 as int) =~= head);
        assert(v.subrange(n0 as int, n1 as int) =~= a);
        assert(v.subrange(n1 as int, n2 as int) =~= b);
        assert(v.subrange(n2 as int, n3 as int) =~= c);
        assert(v.subrange(n3 as int, n4 as int) =~= d);
        assert(v.subrange(n4 as int, n5 as int) =~= e);
        assert(v.subrange(n5 as int, v.len() as int) =~= tail);
        assert(v =~= head + a + b + c + d + e + tail);
    }
    r
}

/// How far a reshape has come, from what `sync_completed` reads.
#[derive(Debug, Clone, Copy, PartialEq, Eq, Structural)]
pub enum SyncProgress {
    /// The text is not of the form `done / total`.
    Unknown,
    /// The total is 0: nothing is left to do.
    Complete,
    /// This many sectors are done out of this many.
    Partial(u64, u64),
}

/// Index of the only `/` of `s`, if it has exactly one.
pub open spec fn only_slash(s: Seq<char>) -> Option<int> {
    if exists|i: int| 0 <= i < s.len() && s[i] == '/'
        && forall|j: int| 0 <= j < s.len() && #[trigger] s[j] == '/' ==> j == i {
        Some(choose|i: int| 0 <= i < s.len() && s[i] == '/'
            && forall|j: int| 0 <= j < s.len() && #[trigger] s[j] == '/' ==> j == i)
    } else {
        None
    }
}

/// How far the reshape has come, from the text of `sync_completed`: two
/// numbers on the two sides of its only `/`, each trimmed.
pub open spec fn spec_sync_progress(text: Seq<char>, r: Result<SyncProgress, MdError>) -> bool {
    match only_slash(text) {
        None => r == Ok::<SyncProgress, MdError>(SyncProgress::Unknown),
        Some(i) => {
            let a = trim(text.subrange(0, i));
            let b = trim(text.subrange(i + 1, text.len() as int));
            match parse_unsigned(a, u64::MAX as nat) {
                None => r matches Err(MdError::Sysfs(m))
                    && m@ == "Failed to parse completed: "@ + parse_error_text(a, u64::MAX as nat),
                Some(done) => match parse_unsigned(b, u64::MAX as nat) {
                    None => r matches Err(MdError::Sysfs(m))
                        && m@ == "Failed to parse total: "@ + parse_error_text(b, u64::MAX as nat),
                    Some(total) => if total == 0 {
                        r == Ok::<SyncProgress, MdError>(SyncProgress::Complete)
                    } else {
                        r == Ok::<SyncProgress, MdError>(SyncProgress::Partial(done as u64, total as u64))
                    },
                },
            }
        },
    }
}

/// How far the reshape of the array at `md_device` has come, from what its
/// `sync_completed` attribute read.
pub fn get_reshape_progress(md_device: &str, read: &Result<String, String>) -> (r: Result<SyncProgress, MdError>)
    ensures
        file_name(md_device@) is None ==> (r matches Err(MdError::InvalidDevice(m)) && m@ == "Invalid device name"@),
        file_name(md_device@) is Some ==> match *read {
            Err(e) => r matches Err(MdError::Sysfs(m)) && m@ == "Failed to read sync_completed: "@ + e@,
            Ok(t) => spec_sync_progress(t@, r),
        },
{
    if device_name(md_device).is_none() {
        return Err(MdError::InvalidDevice(String::from_str("Invalid device name")));
    }
    match read {
        Err(e) => Err(MdError::Sysfs(cat("Failed to read sync_completed: ", e.as_str()))),
        Ok(t) => sync_progress(t.as_str()),
    }
}

/// How far the reshape has come, from the text of `sync_completed`.
pub fn sync_progress(text: &str) -> (r: Result<SyncProgress, MdError>)
    ensures
        spec_sync_progress(text@, r),
{
    let s = to_chars(text);
    let n = s.len();
    let mut first: Option<usize> = None;
    let mut count: usize = 0;
    let mut k: usize = 0;
    while k < n
        invariant
            n == s@.len(),
            k <= n,
            count <= k,
            count == 0 ==> first is None && forall|j: int| 0 <= j < k ==> s@[j] != '/',
            count >= 1 ==> (first matches Some(f) && f < k && s@[f as int] == '/'
                && forall|j: int| 0 <= j < f ==> s@[j] != '/'),
            count == 1 ==> forall|j: int| 0 <= j < k && s@[j] == '/' ==> j == first->Some_0,
            count >= 2 ==> exists|j: int| 0 <= j < k && s@[j] == '/' && j != first->Some_0,
        decreases n - k,
    {
        if s[k] == '/' {
            if count == 0 {
                first = Some(k);
            }
            count = count + 1;
        }
        k = k + 1;
    }
    if count != 1 {
        proof {
            if count == 0 {
                assert(only_slash(s@) is None);
            } else {
                let j = choose|j: int| 0 <= j < n && s@[j] == '/' && j != first->Some_0;
                assert forall|i: int| 0 <= i < s@.len() && s@[i] == '/' implies
                    !(forall|j2: int| 0 <= j2 < s@.len() && #[trigger] s@[j2] == '/' ==> j2 == i) by {
                    if i == j {
                        assert(s@[first->Some_0 as int] == '/');
                    } else {
                        assert(s@[j] == '/');
                    }
                }
            }
        }
        return Ok(SyncProgress::Unknown);
    }
    let i = match first {
        Some(f) => f,
        None => 0,
    };
    proof {
        assert(0 <= i < s@.len() && s@[i as int] == '/'
            && forall|j: int| 0 <= j < s@.len() && #[trigger] s@[j] == '/' ==> j == i);
        assert(only_slash(s@) == Some(i as int));
    }
    let a = trim_chars(slice_chars(s.as_slice(), 0, i).as_slice());
    let b = trim_chars(slice_chars(s.as_slice(), i + 1, n).as_slice());
    let done = match parse_unsigned_or_error(a.as_slice(), u64::MAX) {
        Ok(v) => v,
        Err(m) => {
            return Err(MdError::Sysfs(cat("Failed to parse completed: ", m.as_str())));
        },
    };
    let total = match parse_unsigned_or_error(b.as_slice(), u64::MAX) {
        Ok(v) => v,
        Err(m) => {
            return Err(MdError::Sysfs(cat("Failed to parse total: ", m.as_str())));
        },
    };
    if total == 0 {
        Ok(SyncProgress::Complete)
    } else {
        Ok(SyncProgress::Partial(done, total))
    }
}

/// Stops the reshape of the array at `md_device`: its sync action is set to `idle`.
pub fn cancel_reshape(md_device: &str) -> (r: Result<Plan, MdError>)
    ensures
        file_name(md_device@) is None ==> (r matches Err(MdError::InvalidDevice(m)) && m@ == "Invalid device name"@),
        file_name(md_device@) is Some ==> (r matches Ok(p) && p is Writes
            && p.writes() == seq![("sync_action"@, "idle"@, "cancel reshape"@, false)]),
{
    if device_name(md_device).is_none() {
        return Err(MdError::InvalidDevice(String::from_str("Invalid device name")));
    }
    let mut ws: Vec<SysfsWrite> = Vec::new();
    ws.push(SysfsWrite::new("sync_action", "idle", "cancel reshape", false));
    assert(writes_view(ws@) =~= seq![("sync_action"@, "idle"@, "cancel reshape"@, false)]);
    Ok(Plan::Writes(ws))
}

} // verus!
