//! Write-intent bitmaps of arrays: whether an array has one, where it is, and
//! the sysfs writes that add, remove or clear it.

use vstd::prelude::*;
use crate::error::MdError;
use crate::num::{is_power_of_two, power_of_two};
use crate::paths::{file_name, device_name};
use crate::sysfs::{SysfsWrite, Plan, WriteView, writes_view};
use crate::text::{
    dec, dec_u64, cat, cat3, to_chars, trim, trim_chars, chars_eq, parse_u32, parse_u64,
    parse_unsigned, strings_view, trim_start, trim_end, lemma_parse_dec,
};

verus! {

/// Where a bitmap is kept.
#[derive(Debug, Clone, Copy, PartialEq, Eq, Structural)]
pub enum BitmapLocation {
    /// In the array's metadata.
    Internal,
    /// In a file of its own.
    External,
    /// There is no bitmap.
    NoBitmap,
}

/// How a bitmap is to be set up.
#[derive(Debug, Clone)]
pub struct BitmapConfig {
    pub location: BitmapLocation,
    /// Granularity of the bitmap, in KiB.
    pub chunk_size: Option<u32>,
    /// The file of an external bitmap.
    pub file_path: Option<String>,
    /// Delay before blocks are marked clean, in seconds.
    pub write_behind: Option<u32>,
}

impl Default for BitmapConfig {
    /// An internal bitmap of 64 KiB chunks.
    fn default() -> (c: Self)
        ensures
            c.location == BitmapLocation::Internal,
            c.chunk_size == Some(64u32),
            c.file_path is None,
            c.write_behind is None,
    {
        BitmapConfig {
            location: BitmapLocation::Internal,
            chunk_size: Some(64),
            file_path: None,
            write_behind: None,
        }
    }
}

/// What is known of the bitmap of an array.
#[derive(Debug, Clone)]
pub struct BitmapInfo {
    pub enabled: bool,
    pub location: BitmapLocation,
    /// In KiB.
    pub chunk_size: Option<u32>,
    pub file_path: Option<String>,
    pub pages: Option<u64>,
    pub dirty_pages: Option<u64>,
}

/// The sysfs attributes of an array's bitmap, as they were read (`None`
/// where the read failed).
#[derive(Debug, Clone)]
pub struct BitmapAttrs {
    /// `bitmap/location`.
    pub location: Option<String>,
    /// `bitmap/chunksize`, in bytes.
    pub chunksize: Option<String>,
    /// `bitmap/metadata/pages`.
    pub pages: Option<String>,
    /// `bitmap/metadata/dirty_pages`.
    pub dirty_pages: Option<String>,
}

/// The view of an optional string.
pub open spec fn opt_view(o: Option<String>) -> Option<Seq<char>> {
    match o {
        Some(s) => Some(s@),
        None => None,
    }
}

/// Whether the array has a bitmap, from what `bitmap/location` read: it has
/// one when the read succeeded and the location is not `none`.
pub open spec fn spec_has_bitmap(location: Option<Seq<char>>) -> bool {
    match location {
        Some(l) => trim(l) != "none"@,
        None => false,
    }
}

/// Whether the array has a bitmap, from what `bitmap/location` read.
pub fn has_bitmap(location: &Option<String>) -> (r: bool)
    ensures
        r == spec_has_bitmap(opt_view(*location)),
{
    match location {
        Some(l) => {
            let t = trim_chars(to_chars(l.as_str()).as_slice());
            !chars_eq(t.as_slice(), to_chars("none").as_slice())
        },
        None => false,
    }
}

/// The error of a bitmap configuration, if it has one: a chunk size outside
/// 4..=2048 KiB or not a power of two, or an external bitmap without a file.
pub open spec fn bitmap_config_error(config: BitmapConfig) -> Option<Seq<char>> {
    match config.chunk_size {
        Some(c) if c < 4 || c > 2048 => Some(
            "Invalid bitmap chunk size: "@ + dec(c as nat) + " KB (must be 4-2048 KB)"@,
        ),
        Some(c) if !is_power_of_two(c as nat) => Some(
            "Bitmap chunk size must be power of 2: "@ + dec(c as nat),
        ),
        _ => if config.location == BitmapLocation::External && config.file_path is None {
            Some("External bitmap requires file_path"@)
        } else {
            None
        },
    }
}

/// Checks a bitmap configuration.
pub fn validate_bitmap_config(config: &BitmapConfig) -> (r: Result<(), MdError>)
    ensures
        match bitmap_config_error(*config) {
            None => r is Ok,
            Some(m) => r matches Err(MdError::ConfigValidation(t)) && t@ == m,
        },
{
    if let Some(chunk_size) = config.chunk_size {
        if chunk_size < 4 || chunk_size > 2048 {
            let n = dec_u64(chunk_size as u64);
            return Err(MdError::ConfigValidation(
                cat3("Invalid bitmap chunk size: ", n.as_str(), " KB (must be 4-2048 KB)"),
            ));
        }
        if !power_of_two(chunk_size) {
            let n = dec_u64(chunk_size as u64);
            return Err(MdError::ConfigValidation(
                cat("Bitmap chunk size must be power of 2: ", n.as_str()),
            ));
        }
    }
    if config.location == BitmapLocation::External && config.file_path.is_none() {
        return Err(MdError::ConfigValidation(String::from_str("External bitmap requires file_path")));
    }
    Ok(())
}

/// The writes that set up a bitmap at `location_value`: the chunk size first
/// when one is asked (in bytes), then the location, then the write-behind
/// delay when one is asked.
pub open spec fn bitmap_writes(config: BitmapConfig, location_value: Seq<char>, action: Seq<char>) -> Seq<WriteView> {
    let chunk: Seq<WriteView> = match config.chunk_size {
        Some(c) => seq![("bitmap/chunksize"@, dec((c * 1024) as nat), "set chunk size"@, true)],
        None => Seq::empty(),
    };
    let behind: Seq<WriteView> = match config.write_behind {
        Some(w) => seq![("bitmap/time_base"@, dec(w as nat), "set write-behind"@, true)],
        None => Seq::empty(),
    };
    chunk + seq![("bitmap/location"@, location_value, action, true)] + behind
}

/// The writes that set up a bitmap of `config` at `location_value`.
fn setup_writes(config: &BitmapConfig, location_value: &str, action: &str) -> (r: Vec<SysfsWrite>)
    requires
        config.chunk_size matches Some(c) ==> c <= 2048,
    ensures
        writes_view(r@) == bitmap_writes(*config, location_value@, action@),
{
    let mut r: Vec<SysfsWrite> = Vec::new();
    if let Some(chunk_size) = config.chunk_size {
        let bytes = dec_u64((chunk_size * 1024) as u64);
        r.push(SysfsWrite::new("bitmap/chunksize", bytes.as_str(), "set chunk size", true));
    }
    r.push(SysfsWrite::new("bitmap/location", location_value, action, true));
    if let Some(write_behind) = config.write_behind {
        let w = dec_u64(write_behind as u64);
        r.push(SysfsWrite::new("bitmap/time_base", w.as_str(), "set write-behind", true));
    }
    assert(writes_view(r@) =~= bitmap_writes(*config, location_value@, action@));
    r
}

/// What adding a bitmap to the array at `md_device` does. The device must
/// exist and be named by a path with a final component; an array that already
/// has a bitmap is left as it is; the configuration must be valid; a dry run
/// writes nothing; an internal bitmap is enabled at offset `+0`, an external
/// one at its file; a bitmap at no location cannot be added.
pub open spec fn spec_add_bitmap(
    md_device: Seq<char>,
    exists: bool,
    location: Option<Seq<char>>,
    config: BitmapConfig,
    dry_run: bool,
    r: Result<Plan, MdError>,
) -> bool {
    if !exists {
        r matches Err(MdError::DeviceNotFound(p)) && p@ == md_device
    } else if file_name(md_device) is None {
        r matches Err(MdError::InvalidDevice(m)) && m@ == "Invalid device name"@
    } else if spec_has_bitmap(location) {
        r matches Ok(Plan::Unchanged)
    } else if bitmap_config_error(config) is Some {
        r matches Err(MdError::ConfigValidation(m)) && m@ == bitmap_config_error(config).unwrap()
    } else if dry_run {
        r matches Ok(Plan::DryRun)
    } else {
        match config.location {
            BitmapLocation::Internal => r matches Ok(p) && p is Writes
                && p.writes() == bitmap_writes(config, "+0"@, "enable internal bitmap"@),
            BitmapLocation::External => r matches Ok(p) && p is Writes
                && p.writes() == bitmap_writes(config, config.file_path.unwrap()@, "enable external bitmap"@),
            BitmapLocation::NoBitmap => r matches Err(MdError::ConfigValidation(m))
                && m@ == "Cannot add bitmap with location 'None'"@,
        }
    }
}

/// Adds a bitmap to the array at `md_device`, given whether the device exists
/// and what its `bitmap/location` read.
pub fn add_bitmap(
    md_device: &str,
    exists: bool,
    location: &Option<String>,
    config: &BitmapConfig,
    dry_run: bool,
) -> (r: Result<Plan, MdError>)
    ensures
        spec_add_bitmap(md_device@, exists, opt_view(*location), *config, dry_run, r),
{
    if !exists {
        return Err(MdError::DeviceNotFound(String::from_str(md_device)));
    }
    if device_name(md_device).is_none() {
        return Err(MdError::InvalidDevice(String::from_str("Invalid device name")));
    }
    if has_bitmap(location) {
        return Ok(Plan::Unchanged);
    }
    match validate_bitmap_config(config) {
        Err(e) => {
            return Err(e);
        },
        Ok(()) => {},
    }
    if dry_run {
        return Ok(Plan::DryRun);
    }
    match config.location {
        BitmapLocation::Internal => {
            let ws = setup_writes(config, "+0", "enable internal bitmap");
            Ok(Plan::Writes(ws))
        },
        BitmapLocation::External => {
            match &config.file_path {
                Some(path) => {
                    let ws = setup_writes(config, path.as_str(), "enable external bitmap");
                    Ok(Plan::Writes(ws))
                },
                None => Err(MdError::ConfigValidation(String::from_str("External bitmap requires file_path"))),
            }
        },
        BitmapLocation::NoBitmap => Err(MdError::ConfigValidation(
            String::from_str("Cannot add bitmap with location 'None'"),
        )),
    }
}

/// What removing the bitmap of the array at `md_device` does: the device must
/// exist and have a name; without a bitmap nothing changes; a dry run writes
/// nothing; otherwise the location is set to `none`.
pub open spec fn spec_remove_bitmap(
    md_device: Seq<char>,
    exists: bool,
    location: Option<Seq<char>>,
    dry_run: bool,
    r: Result<Plan, MdError>,
) -> bool {
    if !exists {
        r matches Err(MdError::DeviceNotFound(p)) && p@ == md_device
    } else if file_name(md_device) is None {
        r matches Err(MdError::InvalidDevice(m)) && m@ == "Invalid device name"@
    } else if !spec_has_bitmap(location) {
        r matches Ok(Plan::Unchanged)
    } else if dry_run {
        r matches Ok(Plan::DryRun)
    } else {
        r matches Ok(p) && p is Writes
            && p.writes() == seq![("bitmap/location"@, "none"@, "remove bitmap"@, true)]
    }
}

/// Removes the bitmap of the array at `md_device`.
pub fn remove_bitmap(md_device: &str, exists: bool, location: &Option<String>, dry_run: bool) -> (r: Result<Plan, MdError>)
    ensures
        spec_remove_bitmap(md_device@, exists, opt_view(*location), dry_run, r),
{
    if !exists {
        return Err(MdError::DeviceNotFound(String::from_str(md_device)));
    }
    if device_name(md_device).is_none() {
        return Err(MdError::InvalidDevice(String::from_str("Invalid device name")));
    }
    if !has_bitmap(location) {
        return Ok(Plan::Unchanged);
    }
    if dry_run {
        return Ok(Plan::DryRun);
    }
    let mut ws: Vec<SysfsWrite> = Vec::new();
    ws.push(SysfsWrite::new("bitmap/location", "none", "remove bitmap", true));
    assert(writes_view(ws@) =~= seq![("bitmap/location"@, "none"@, "remove bitmap"@, true)]);
    Ok(Plan::Writes(ws))
}

/// What clearing the bitmap of the array at `md_device` does: the device must
/// have a name and a bitmap; then `1` is written to `bitmap/can_clear`.
pub open spec fn spec_clear_bitmap(md_device: Seq<char>, location: Option<Seq<char>>, r: Result<Plan, MdError>) -> bool {
    if file_name(md_device) is None {
        r matches Err(MdError::InvalidDevice(m)) && m@ == "Invalid device name"@
    } else if !spec_has_bitmap(location) {
        r matches Err(MdError::Bitmap(m)) && m@ == "Array does not have a bitmap"@
    } else {
        r matches Ok(p) && p is Writes
            && p.writes() == seq![("bitmap/can_clear"@, "1"@, "clear bitmap"@, true)]
    }
}

/// Marks every block of the bitmap of the array at `md_device` clean.
pub fn clear_bitmap(md_device: &str, location: &Option<String>) -> (r: Result<Plan, MdError>)
    ensures
        spec_clear_bitmap(md_device@, opt_view(*location), r),
{
    if device_name(md_device).is_none() {
        return Err(MdError::InvalidDevice(String::from_str("Invalid device name")));
    }
    if !has_bitmap(location) {
        return Err(MdError::Bitmap(String::from_str("Array does not have a bitmap")));
    }
    let mut ws: Vec<SysfsWrite> = Vec::new();
    ws.push(SysfsWrite::new("bitmap/can_clear", "1", "clear bitmap", true));
    assert(writes_view(ws@) =~= seq![("bitmap/can_clear"@, "1"@, "clear bitmap"@, true)]);
    Ok(Plan::Writes(ws))
}

/// The lines that show a bitmap configuration before it is applied.
pub open spec fn bitmap_plan(config: BitmapConfig) -> Seq<Seq<char>> {
    let head = seq!["\n📋 Bitmap Configuration:"@, "========================"@];
    let loc: Seq<Seq<char>> = match config.location {
        BitmapLocation::Internal => seq!["Location: Internal (stored in array metadata)"@],
        BitmapLocation::External => match config.file_path {
            Some(p) => seq!["Location: External"@, "File Path: "@ + p@],
            None => seq!["Location: External"@],
        },
        BitmapLocation::NoBitmap => seq!["Location: None"@],
    };
    let chunk: Seq<Seq<char>> = match config.chunk_size {
        Some(c) => seq![
            "Chunk Size: "@ + dec(c as nat) + " KB"@,
            "  (Smaller = more accurate, larger = less overhead)"@,
        ],
        None => Seq::empty(),
    };
    let behind: Seq<Seq<char>> = match config.write_behind {
        Some(w) => seq!["Write-Behind Delay: "@ + dec(w as nat) + " seconds"@],
        None => Seq::empty(),
    };
    let tail = seq![
        "\n💡 Benefits:"@,
        "  - Faster resync after unclean shutdown"@,
        "  - Only dirty regions need to be resynced"@,
        "  - Minimal performance impact"@,
        ""@,
    ];
    head + loc + chunk + behind + tail
}

/// The lines that show a bitmap configuration before it is applied.
pub fn print_bitmap_plan(config: &BitmapConfig) -> (r: Vec<String>)
    ensures
        strings_view(r@) == bitmap_plan(*config),
{
    let mut r: Vec<String> = Vec::new();
    r.push(String::from_str("\n📋 Bitmap Configuration:"));
    r.push(String::from_str("========================"));
    let ghost n0 = r@.len();
    match config.location {
        BitmapLocation::Internal => {
            r.push(String::from_str("Location: Internal (stored in array metadata)"));
        },
        BitmapLocation::External => {
            r.push(String::from_str("Location: External"));
            if let Some(p) = &config.file_path {
                r.push(cat("File Path: ", p.as_str()));
            }
        },
        BitmapLocation::NoBitmap => {
            r.push(String::from_str("Location: None"));
        },
    }
    let ghost n1 = r@.len();
    if let Some(c) = config.chunk_size {
        let n = dec_u64(c as u64);
        r.push(cat3("Chunk Size: ", n.as_str(), " KB"));
        r.push(String::from_str("  (Smaller = more accurate, larger = less overhead)"));
    }
    let ghost n2 = r@.len();
    if let Some(w) = config.write_behind {
        let n = dec_u64(w as u64);
        r.push(cat3("Write-Behind Delay: ", n.as_str(), " seconds"));
    }
    let ghost n3 = r@.len();
    r.push(String::from_str("\n💡 Benefits:"));
    r.push(String::from_str("  - Faster resync after unclean shutdown"));
    r.push(String::from_str("  - Only dirty regions need to be resynced"));
    r.push(String::from_str("  - Minimal performance impact"));
    r.push(String::new());
    proof {
        reveal_strlit("");
        let v = strings_view(r@);
        let cfg = *config;
        let head = seq!["\n📋 Bitmap Configuration:"@, "========================"@];
        let loc: Seq<Seq<char>> = match cfg.location {
            BitmapLocation::Internal => seq!["Location: Internal (stored in array metadata)"@],
            BitmapLocation::External => match cfg.file_path {
                Some(p) => seq!["Location: External"@, "File Path: "@ + p@],
                None => seq!["Location: External"@],
            },
            BitmapLocation::NoBitmap => seq!["Location: None"@],
        };
        assert(v.subrange(0, n0 as int) =~= head);
        assert(v.subrange(n0 as int, n1 as int) =~= loc);
        let chunk: Seq<Seq<char>> = match cfg.chunk_size {
            Some(c) => seq![
                "Chunk Size: "@ + dec(c as nat) + " KB"@,
                "  (Smaller = more accurate, larger = less overhead)"@,
            ],
            None => Seq::empty(),
        };
        let behind: Seq<Seq<char>> = match cfg.write_behind {
            Some(w) => seq!["Write-Behind Delay: "@ + dec(w as nat) + " seconds"@],
            None => Seq::empty(),
        };
        let tail = seq![
            "\n💡 Benefits:"@,
            "  - Faster resync after unclean shutdown"@,
            "  - Only dirty regions need to be resynced"@,
            "  - Minimal performance impact"@,
            ""@,
        ];
        assert(v.subrange(n1 as int, n2 as int) =~= chunk);
        assert(v.subrange(n2 as int, n3 as int) =~= behind);
        assert(""@ =~= Seq::<char>::empty());
        assert(v.subrange(n3 as int, v.len() as int) =~= tail);
        assert(v =~= head + loc + chunk + behind + tail);
    }
    assert(strings_view(r@) =~= bitmap_plan(*config));
    r
}

/// Where the bitmap is, from the text of `bitmap/location`: `none` is no
/// bitmap, an offset (starting with `+` or `-`) is an internal one, anything
/// else names the file of an external one.
pub open spec fn location_of(text: Seq<char>) -> BitmapLocation {
    if text == "none"@ {
        BitmapLocation::NoBitmap
    } else if text.len() > 0 && (text[0] == '+' || text[0] == '-') {
        BitmapLocation::Internal
    } else {
        BitmapLocation::External
    }
}

/// A number read from an attribute, if it read and parsed.
pub open spec fn read_number(text: Option<Seq<char>>, max: nat) -> Option<nat> {
    match text {
        Some(t) => parse_unsigned(t, max),
        None => None,
    }
}

/// What is known of the bitmap, from its attributes: a disabled bitmap when
/// there is none; otherwise its location, its chunk size in KiB (the bytes
/// read, divided by 1024), its page counts, and the file of an external one.
pub open spec fn spec_bitmap_info(attrs: BitmapAttrs, info: BitmapInfo) -> bool {
    if !spec_has_bitmap(opt_view(attrs.location)) {
        &&& !info.enabled
        &&& info.location == BitmapLocation::NoBitmap
        &&& info.chunk_size is None
        &&& info.file_path is None
        &&& info.pages is None
        &&& info.dirty_pages is None
    } else {
        let text = attrs.location.unwrap()@;
        let loc = location_of(text);
        &&& info.enabled
        &&& info.location == loc
        &&& (match read_number(opt_view(attrs.chunksize), u32::MAX as nat) {
            Some(b) => info.chunk_size == Some((b / 1024) as u32),
            None => info.chunk_size is None,
        })
        &&& (match read_number(opt_view(attrs.pages), u64::MAX as nat) {
            Some(n) => info.pages == Some(n as u64),
            None => info.pages is None,
        })
        &&& (match read_number(opt_view(attrs.dirty_pages), u64::MAX as nat) {
            Some(n) => info.dirty_pages == Some(n as u64),
            None => info.dirty_pages is None,
        })
        &&& (if loc == BitmapLocation::External {
            info.file_path matches Some(f) && f@ == text
        } else {
            info.file_path is None
        })
    }
}

/// Reads an optional `u32` attribute.
fn read_u32(text: &Option<String>) -> (r: Option<u32>)
    ensures
        match read_number(opt_view(*text), u32::MAX as nat) {
            Some(v) => r == Some(v as u32),
            None => r is None,
        },
{
    match text {
        Some(t) => parse_u32(to_chars(t.as_str()).as_slice()),
        None => None,
    }
}

/// Reads an optional `u64` attribute.
fn read_u64(text: &Option<String>) -> (r: Option<u64>)
    ensures
        match read_number(opt_view(*text), u64::MAX as nat) {
            Some(v) => r == Some(v as u64),
            None => r is None,
        },
{
    match text {
        Some(t) => parse_u64(to_chars(t.as_str()).as_slice()),
        None => None,
    }
}

/// What is known of the bitmap of the array at `md_device`, from its
/// attributes; the device path must have a final component.
pub fn get_bitmap_info(md_device: &str, attrs: &BitmapAttrs) -> (r: Result<BitmapInfo, MdError>)
    ensures
        file_name(md_device@) is None ==> (r matches Err(MdError::InvalidDevice(m)) && m@ == "Invalid device name"@),
        file_name(md_device@) is Some ==> (r matches Ok(info) && spec_bitmap_info(*attrs, info)),
{
    if device_name(md_device).is_none() {
        return Err(MdError::InvalidDevice(String::from_str("Invalid device name")));
    }
    if !has_bitmap(&attrs.location) {
        return Ok(BitmapInfo {
            enabled: false,
            location: BitmapLocation::NoBitmap,
            chunk_size: None,
            file_path: None,
            pages: None,
            dirty_pages: None,
        });
    }
    let text: String = match &attrs.location {
        Some(t) => t.clone(),
        None => String::from_str("unknown"),
    };
    let c = to_chars(text.as_str());
    let location = if chars_eq(c.as_slice(), to_chars("none").as_slice()) {
        BitmapLocation::NoBitmap
    } else if c.len() > 0 && (c[0] == '+' || c[0] == '-') {
        BitmapLocation::Internal
    } else {
        BitmapLocation::External
    };
    let chunk_size = match read_u32(&attrs.chunksize) {
        Some(bytes) => Some(bytes / 1024),
        None => None,
    };
    let pages = read_u64(&attrs.pages);
    let dirty_pages = read_u64(&attrs.dirty_pages);
    let file_path = if location == BitmapLocation::External {
        Some(text)
    } else {
        None
    };
    Ok(BitmapInfo { enabled: true, location, chunk_size, file_path, pages, dirty_pages })
}

/// What adding a bitmap writes, reading the bitmap back finds. Where the
/// attributes hold the values that the writes of an added bitmap put there,
/// the bitmap reads as enabled, at the kind of location asked, and of the
/// chunk size asked. An external bitmap's file must be named by an absolute
/// path without surrounding white space (a name such as `none` or `+8` would
/// read back as something else).
pub proof fn lemma_info_after_add(
    md_device: Seq<char>,
    exists: bool,
    location: Option<Seq<char>>,
    config: BitmapConfig,
    dry_run: bool,
    r: Result<Plan, MdError>,
    attrs: BitmapAttrs,
    info: BitmapInfo,
)
    requires
        spec_add_bitmap(md_device, exists, location, config, dry_run, r),
        r matches Ok(p) && p is Writes,
        config.location == BitmapLocation::External ==> (config.file_path matches Some(f)
            && f@.len() > 0 && f@[0] == '/' && trim(f@) == f@),
        forall|i: int| 0 <= i < r->Ok_0.writes().len() ==> {
            let w = #[trigger] r->Ok_0.writes()[i];
            &&& w.0 == "bitmap/location"@ ==> (attrs.location matches Some(l) && l@ == w.1)
            &&& w.0 == "bitmap/chunksize"@ ==> (attrs.chunksize matches Some(c) && c@ == w.1)
        },
        spec_bitmap_info(attrs, info),
    ensures
        info.enabled,
        info.location == config.location,
        config.chunk_size is Some ==> info.chunk_size == config.chunk_size,
{
    reveal_strlit("bitmap/location");
    reveal_strlit("bitmap/chunksize");
    reveal_strlit("+0");
    reveal_strlit("none");
    let ws = r->Ok_0.writes();
    let loc_value = if config.location == BitmapLocation::Internal { "+0"@ } else { config.file_path.unwrap()@ };
    let k: int = if config.chunk_size is Some { 1 } else { 0 };
    assert(ws[k].0 == "bitmap/location"@);
    assert(ws[k].1 == loc_value);
    assert(attrs.location.unwrap()@ == loc_value);
    if config.location == BitmapLocation::Internal {
        assert(trim_start(loc_value) == loc_value);
        assert(trim_end(loc_value) == loc_value);
        assert(trim(loc_value) != "none"@);
        assert(location_of(loc_value) == BitmapLocation::Internal);
    } else {
        assert(loc_value != "none"@);
        assert(location_of(loc_value) == BitmapLocation::External);
    }
    if config.chunk_size is Some {
        let c = config.chunk_size.unwrap();
        assert(ws[0].0 == "bitmap/chunksize"@);
        let b = (c * 1024) as nat;
        assert(attrs.chunksize.unwrap()@ == dec(b));
        lemma_parse_dec(b, u32::MAX as nat);
        assert(b / 1024 == c as nat);
    }
}

} // verus!
