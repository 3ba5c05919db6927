//! The command line: its commands, and the parts of their handling that
//! decide or format.

use vstd::prelude::*;
use crate::error::MdError;
use crate::ops::bitmap::{BitmapLocation, BitmapInfo};
use crate::ops::spare::SpareInfo;
use crate::text::{dec, dec_int, dec_u64, dec_i64, cat, str_eq, strings_view};

verus! {

/// The command line of the tool.
#[derive(Debug, Clone)]
pub struct Cli {
    /// Print JSON.
    pub json: bool,
    /// Show what would be done, and do nothing.
    pub dry_run: bool,
    pub command: Command,
}

/// The commands of the tool.
#[derive(Debug, Clone)]
pub enum Command {
    /// Assemble a previously created array.
    Assemble { md_device: Option<String>, components: Option<Vec<String>>, auto: Option<String> },
    /// Create a new array.
    Create { md_device: String, level: u8, raid_devices: u32, metadata: String, components: Vec<String> },
    /// Print the details of an array.
    Detail { md_device: String },
    /// Stop an active array.
    Stop { md_device: String, force: bool },
    /// Add, remove or fail member disks.
    Manage {
        md_device: String,
        add: Option<Vec<String>>,
        remove: Option<Vec<String>>,
        fail: Option<Vec<String>>,
        force: bool,
    },
    /// Apply a declarative configuration.
    Apply { config_file: String },
    /// Watch the arrays.
    Monitor,
    /// Serve Prometheus metrics.
    Exporter,
    /// Run the API server and the background monitor.
    Daemon { addr: String },
    /// Reshape an array.
    Reshape {
        md_device: String,
        level: Option<u8>,
        chunk_size: Option<u32>,
        layout: Option<String>,
        delta: Option<i32>,
        backup_file: Option<String>,
        force: bool,
    },
    /// Manage the write-intent bitmap.
    Bitmap { md_device: String, action: BitmapAction },
    /// Manage hot spares.
    Spare { md_device: String, action: SpareAction },
}

/// What to do with a bitmap.
#[derive(Debug, Clone)]
pub enum BitmapAction {
    Add { location: String, chunk_size: Option<u32>, file: Option<String> },
    Remove,
    Info,
    Clear,
}

/// What to do with a spare.
#[derive(Debug, Clone)]
pub enum SpareAction {
    Add { spare_device: String, force: bool },
    Remove { spare_device: String },
    List,
    Activate { spare_device: String, slot: Option<u32> },
}

/// The bitmap location named on the command line: `internal` or `external`.
pub fn parse_bitmap_location(location: &str) -> (r: Result<BitmapLocation, MdError>)
    ensures
        location@ == "internal"@ ==> r == Ok::<BitmapLocation, MdError>(BitmapLocation::Internal),
        location@ == "external"@ ==> r == Ok::<BitmapLocation, MdError>(BitmapLocation::External),
        location@ != "internal"@ && location@ != "external"@ ==> (r matches Err(MdError::ConfigValidation(m))
            && m@ == "Invalid bitmap location: "@ + location@),
{
    proof {
        reveal_strlit("internal");
        reveal_strlit("external");
        assert("internal"@[0] != "external"@[0]);
    }
    if str_eq(location, "internal") {
        Ok(BitmapLocation::Internal)
    } else if str_eq(location, "external") {
        Ok(BitmapLocation::External)
    } else {
        Err(MdError::ConfigValidation(cat("Invalid bitmap location: ", location)))
    }
}

/// How an assemble command is carried out.
#[derive(Debug, Clone)]
pub enum AssembleMode {
    /// Find the array from this seed device.
    Auto(String),
    /// Assemble this array from these members.
    Explicit(String, Vec<String>),
}

/// How an assemble command is carried out: from a seed device when one is
/// given, else from a device and members, which must both be given.
pub fn assemble_mode(md_device: Option<String>, components: Option<Vec<String>>, auto: Option<String>) -> (r: Result<AssembleMode, MdError>)
    ensures
        auto matches Some(a) ==> (r matches Ok(AssembleMode::Auto(s)) && s == a),
        auto is None && md_device is Some && components is Some ==> (r matches Ok(AssembleMode::Explicit(d, c))
            && d == md_device->Some_0 && c == components->Some_0),
        auto is None && (md_device is None || components is None) ==> (r matches Err(MdError::ConfigValidation(m))
            && m@ == "Must provide either --auto or md_device and components"@),
{
    match auto {
        Some(a) => Ok(AssembleMode::Auto(a)),
        None => match (md_device, components) {
            (Some(d), Some(c)) => Ok(AssembleMode::Explicit(d, c)),
            _ => Err(MdError::ConfigValidation(String::from_str("Must provide either --auto or md_device and components"))),
        },
    }
}

/// How a bitmap location is written in the information lines.
pub open spec fn location_name(l: BitmapLocation) -> Seq<char> {
    match l {
        BitmapLocation::Internal => "Internal"@,
        BitmapLocation::External => "External"@,
        BitmapLocation::NoBitmap => "None"@,
    }
}

/// The lines that show the bitmap of an array.
pub open spec fn bitmap_info_lines(info: BitmapInfo) -> Seq<Seq<char>> {
    let head = seq!["Bitmap Information:"@, "  Enabled: "@ + (if info.enabled { "true"@ } else { "false"@ })];
    if !info.enabled {
        head
    } else {
        head + seq!["  Location: "@ + location_name(info.location)]
            + (match info.chunk_size { Some(c) => seq!["  Chunk Size: "@ + dec(c as nat) + " KB"@], None => Seq::empty() })
            + (match info.file_path { Some(p) => seq!["  File Path: "@ + p@], None => Seq::empty() })
            + (match info.pages { Some(n) => seq!["  Total Pages: "@ + dec(n as nat)], None => Seq::empty() })
            + (match info.dirty_pages { Some(n) => seq!["  Dirty Pages: "@ + dec(n as nat)], None => Seq::empty() })
    }
}

/// The lines that show the bitmap of an array.
pub fn show_bitmap_info(info: &BitmapInfo) -> (r: Vec<String>)
    ensures
        strings_view(r@) == bitmap_info_lines(*info),
{
    let mut r: Vec<String> = Vec::new();
    r.push(String::from_str("Bitmap Information:"));
    r.push(cat("  Enabled: ", if info.enabled { "true" } else { "false" }));
    if !info.enabled {
        assert(strings_view(r@) =~= bitmap_info_lines(*info));
        return r;
    }
    let name = match info.location {
        BitmapLocation::Internal => "Internal",
        BitmapLocation::External => "External",
        BitmapLocation::NoBitmap => "None",
    };
    r.push(cat("  Location: ", name));
    let ghost n0 = r@.len();
    if let Some(c) = info.chunk_size {
        r.push(String::from_str("  Chunk Size: ").concat(dec_u64(c as u64).as_str()).concat(" KB"));
    }
    let ghost n1 = r@.len();
    if let Some(p) = &info.file_path {
        r.push(cat("  File Path: ", p.as_str()));
    }
    let ghost n2 = r@.len();
    if let Some(n) = info.pages {
        r.push(cat("  Total Pages: ", dec_u64(n).as_str()));
    }
    let ghost n3 = r@.len();
    if let Some(n) = info.dirty_pages {
        r.push(cat("  Dirty Pages: ", dec_u64(n).as_str()));
    }
    proof {
        let v = strings_view(r@);
        let i = *info;
        let a: Seq<Seq<char>> = match i.chunk_size { Some(c) => seq!["  Chunk Size: "@ + dec(c as nat) + " KB"@], None => Seq::empty() };
        let b: Seq<Seq<char>> = match i.file_path { Some(p) => seq!["  File Path: "@ + p@], None => Seq::empty() };
        let c: Seq<Seq<char>> = match i.pages { Some(n) => seq!["  Total Pages: "@ + dec(n as nat)], None => Seq::empty() };
        let d: Seq<Seq<char>> = match i.dirty_pages { Some(n) => seq!["  Dirty Pages: "@ + dec(n as nat)], None => Seq::empty() };
        assert(v.subrange(n0 as int, n1 as int) =~= a);
        assert(v.subrange(n1 as int, n2 as int) =~= b);
        assert(v.subrange(n2 as int, n3 as int) =~= c);
        assert(v.subrange(n3 as int, v.len() as int) =~= d);
        assert(v =~= v.subrange(0, n0 as int) + a + b + c + d);
    }
    assert(strings_view(r@) =~= bitmap_info_lines(*info));
    r
}

/// The lines that show one spare.
pub open spec fn spare_lines(s: SpareInfo) -> Seq<Seq<char>> {
    seq!["  Device: "@ + s.device@, "    State: "@ + s.state@]
        + (match s.slot { Some(n) => seq!["    Slot: "@ + dec_int(n as int)], None => Seq::empty() })
        + seq![""@]
}

/// The lines that show the spares of an array, one after the other.
pub open spec fn spares_lines(v: Seq<SpareInfo>) -> Seq<Seq<char>>
    decreases v.len(),
{
    if v.len() == 0 {
        Seq::empty()
    } else {
        spares_lines(v.drop_last()) + spare_lines(v.last())
    }
}

/// The lines that list the spares of an array.
pub open spec fn spare_list_lines(v: Seq<SpareInfo>) -> Seq<Seq<char>> {
    if v.len() == 0 {
        seq!["No spare disks found in array"@]
    } else {
        seq!["Spare Disks:"@] + spares_lines(v)
    }
}

/// The lines that list the spares of an array.
pub fn show_spares(spares: &Vec<SpareInfo>) -> (r: Vec<String>)
    ensures
        strings_view(r@) == spare_list_lines(spares@),
{
    let mut r: Vec<String> = Vec::new();
    if spares.len() == 0 {
        r.push(String::from_str("No spare disks found in array"));
        assert(strings_view(r@) =~= spare_list_lines(spares@));
        return r;
    }
    r.push(String::from_str("Spare Disks:"));
    let mut i: usize = 0;
    proof {
        reveal_strlit("");
    }
    assert(spares@.subrange(0, 0) =~= Seq::<SpareInfo>::empty());
    while i < spares.len()
        invariant
            i <= spares@.len(),
            ""@ =~= Seq::<char>::empty(),
            strings_view(r@) == seq!["Spare Disks:"@] + spares_lines(spares@.subrange(0, i as int)),
        decreases spares@.len() - i,
    {
        let s = &spares[i];
        let ghost before = strings_view(r@);
        r.push(cat("  Device: ", s.device.as_str()));
        r.push(cat("    State: ", s.state.as_str()));
        if let Some(n) = s.slot {
            r.push(cat("    Slot: ", dec_i64(n as i64).as_str()));
        }
        r.push(String::new());
        assert(spares@.subrange(0, i + 1).drop_last() =~= spares@.subrange(0, i as int));
        assert(strings_view(r@) =~= before + spare_lines(*s));
        i = i + 1;
    }
    assert(spares@.subrange(0, spares@.len() as int) =~= spares@);
    r
}

} // verus!
