//! Hot spares: which member disks of an array are spares, and the sysfs
//! writes that add, remove and activate them.

use vstd::prelude::*;
use crate::error::MdError;
use crate::paths::{file_name, device_name};
use crate::sysfs::{ArrayState, SysfsWrite, Plan, WriteView, writes_view};
use crate::text::{
    dec, dec_int, dec_u64, cat, cat3, to_chars, trim, trim_chars, from_chars, str_eq,
    contains, contains_chars, starts_with_chars, parse_i32, parse_signed, lines, split_lines, lines_view, lemma_trim_idempotent,
};
use crate::validation::DeviceInfo;

verus! {

/// A disk to add as a spare.
#[derive(Debug, Clone)]
pub struct SpareConfig {
    /// Path of the disk.
    pub device: String,
    /// Add it even when it does not look suitable.
    pub force: bool,
}

/// A spare disk of an array.
#[derive(Debug, Clone)]
pub struct SpareInfo {
    /// Path of the disk, or `unknown`.
    pub device: String,
    /// Its state in the array.
    pub state: String,
    /// Its slot, when it has one.
    pub slot: Option<i32>,
    /// Whether it is a hot spare.
    pub is_spare: bool,
}

/// A spare, seen as its device, state, slot and spare flag.
pub type SpareView = (Seq<char>, Seq<char>, Option<i32>, bool);

impl View for SpareInfo {
    type V = SpareView;

    open spec fn view(&self) -> SpareView {
        (self.device@, self.state@, self.slot, self.is_spare)
    }
}

/// An entry of an array's `md` directory in sysfs, as it was read.
#[derive(Debug)]
pub struct MdDirEntry {
    /// The entry's name, such as `dev-sda1`.
    pub name: String,
    /// The content of its `state` file, or the error of reading it.
    pub state: Result<String, String>,
    /// The content of its `slot` file, if it read.
    pub slot: Option<String>,
    /// The name of the first entry of its `block` directory, if there is one.
    pub block: Option<String>,
}

/// The spare that a member entry describes, with state `state`.
pub open spec fn spare_of(e: MdDirEntry, state: Seq<char>) -> SpareView {
    let device = match e.block {
        Some(b) => "/dev/"@ + b@,
        None => "unknown"@,
    };
    let slot = match e.slot {
        Some(s) => match parse_signed(trim(s@), 0x8000_0000, i32::MAX as nat) {
            Some(v) => Some(v as i32),
            None => None,
        },
        None => None,
    };
    (device, trim(state), slot, true)
}

/// The spares among the entries of an array's `md` directory, in order: the
/// member entries (named `dev-...`) whose state mentions `spare`. A member
/// whose state could not be read ends the listing with that error.
pub open spec fn spares_in(es: Seq<MdDirEntry>) -> Result<Seq<SpareView>, Seq<char>>
    decreases es.len(),
{
    if es.len() == 0 {
        Ok(Seq::empty())
    } else {
        match spares_in(es.drop_last()) {
            Err(m) => Err(m),
            Ok(v) => {
                let e = es.last();
                if !(e.name@.len() >= 4 && e.name@.subrange(0, 4) == "dev-"@) {
                    Ok(v)
                } else {
                    match e.state {
                        Err(m) => Err("Failed to read device state: "@ + m@),
                        Ok(st) => if contains(trim(st@), "spare"@) {
                            Ok(v.push(spare_of(e, st@)))
                        } else {
                            Ok(v)
                        },
                    }
                }
            },
        }
    }
}

/// The views of a list of spares.
pub open spec fn spares_view(v: Seq<SpareInfo>) -> Seq<SpareView> {
    v.map_values(|s: SpareInfo| s@)
}

/// The spare that a member entry describes.
fn spare_from_entry(e: &MdDirEntry, state: &String) -> (r: SpareInfo)
    ensures
        r@ == spare_of(*e, state@),
{
    let device = match &e.block {
        Some(b) => cat("/dev/", b.as_str()),
        None => String::from_str("unknown"),
    };
    let slot = match &e.slot {
        Some(s) => parse_i32(trim_chars(to_chars(s.as_str()).as_slice()).as_slice()),
        None => None,
    };
    let st = from_chars(trim_chars(to_chars(state.as_str()).as_slice()).as_slice());
    SpareInfo { device, state: st, slot, is_spare: true }
}

/// What listing the spares of the array at `md_device` gives: a device
/// without a file name is refused; an error of reading the directory is
/// returned as it came; otherwise the spares that the entries describe.
pub open spec fn spec_list_spares(
    md_device: Seq<char>,
    entries: Result<Vec<MdDirEntry>, MdError>,
    r: Result<Vec<SpareInfo>, MdError>,
) -> bool {
    &&& file_name(md_device) is None ==> (r matches Err(MdError::InvalidDevice(m)) && m@ == "Invalid device name"@)
    &&& file_name(md_device) is Some ==> match entries {
        Err(e) => r == Err::<Vec<SpareInfo>, MdError>(e),
        Ok(es) => match spares_in(es@) {
            Ok(v) => r matches Ok(s) && spares_view(s@) == v,
            Err(m) => r matches Err(MdError::Sysfs(t)) && t@ == m,
        },
    }
}

/// Lists the spares of the array at `md_device`, from the entries of its
/// `md` directory (or the error of reading it).
pub fn list_spares(md_device: &str, entries: Result<Vec<MdDirEntry>, MdError>) -> (r: Result<Vec<SpareInfo>, MdError>)
    ensures
        spec_list_spares(md_device@, entries, r),
{
    if device_name(md_device).is_none() {
        return Err(MdError::InvalidDevice(String::from_str("Invalid device name")));
    }
    let es = match entries {
        Err(e) => {
            return Err(e);
        },
        Ok(es) => es,
    };
    let mut spares: Vec<SpareInfo> = Vec::new();
    let mut i: usize = 0;
    assert(es@.subrange(0, 0) =~= Seq::<MdDirEntry>::empty());
    assert(spares_view(spares@) =~= Seq::<SpareView>::empty());
    while i < es.len()
        invariant
            file_name(md_device@) is Some,
            entries is Ok,
            entries->Ok_0@ == es@,
            i <= es@.len(),
            spares_in(es@.subrange(0, i as int)) == Ok::<Seq<SpareView>, Seq<char>>(spares_view(spares@)),
        decreases es@.len() - i,
    {
        let e = &es[i];
        let ghost pre = es@.subrange(0, i as int);
        let ghost prev = spares_view(spares@);
        assert(es@.subrange(0, i + 1).drop_last() =~= pre);
        assert(es@.subrange(0, i + 1).last() == es@[i as int]);
        let name = to_chars(e.name.as_str());
        proof {
            reveal_strlit("dev-");
        }
        let is_member = starts_with_chars(name.as_slice(), to_chars("dev-").as_slice());
        assert(is_member == (e.name@.len() >= 4 && e.name@.subrange(0, 4) == "dev-"@));
        if is_member {
            match &e.state {
                Err(m) => {
                    proof {
                        lemma_spares_err_stays(es@, i as int + 1);
                    }
                    return Err(MdError::Sysfs(cat("Failed to read device state: ", m.as_str())));
                },
                Ok(st) => {
                    let t = trim_chars(to_chars(st.as_str()).as_slice());
                    if contains_chars(t.as_slice(), to_chars("spare").as_slice()) {
                        let info = spare_from_entry(e, st);
                        spares.push(info);
                        assert(spares_view(spares@) =~= prev.push(info@));
                        assert(spares_in(es@.subrange(0, i + 1)) == Ok::<Seq<SpareView>, Seq<char>>(prev.push(info@)));
                    } else {
                        assert(spares_in(es@.subrange(0, i + 1)) == Ok::<Seq<SpareView>, Seq<char>>(prev));
                    }
                },
            }
        }
        i = i + 1;
    }
    assert(es@.subrange(0, es@.len() as int) =~= es@);
    Ok(spares)
}

/// Once the listing of a prefix fails, the listing of the whole fails the same way.
proof fn lemma_spares_err_stays(es: Seq<MdDirEntry>, n: int)
    requires
        0 <= n <= es.len(),
        spares_in(es.subrange(0, n)) is Err,
    ensures
        spares_in(es) == spares_in(es.subrange(0, n)),
    decreases es.len() - n,
{
    if n < es.len() {
        assert(es.subrange(0, n + 1).drop_last() =~= es.subrange(0, n));
        lemma_spares_err_stays(es, n + 1);
    } else {
        assert(es.subrange(0, n) =~= es);
    }
}

/// Whether `device` is among the spares listed.
pub open spec fn listed(spares: Seq<SpareInfo>, device: Seq<char>) -> bool {
    exists|i: int| 0 <= i < spares.len() && #[trigger] spares[i].device@ == device
}

/// Whether `device` is among the spares listed.
fn is_listed(spares: &Vec<SpareInfo>, device: &str) -> (r: bool)
    ensures
        r == listed(spares@, device@),
{
    let mut i: usize = 0;
    while i < spares.len()
        invariant
            i <= spares@.len(),
            forall|k: int| 0 <= k < i ==> #[trigger] spares@[k].device@ != device@,
        decreases spares@.len() - i,
    {
        if str_eq(spares[i].device.as_str(), device) {
            return true;
        }
        i = i + 1;
    }
    false
}

/// The error for a disk that is not a spare of the array named `array`.
pub open spec fn not_a_spare(device: Seq<char>, array: Seq<char>) -> Seq<char> {
    "Device "@ + device + " is not a spare in array "@ + array
}

/// What adding the spare `spare_device` to the array at `md_device` does. Both
/// must exist; unless forced the disk must be suitable; the array must be
/// named and its state readable; a dry run writes nothing; otherwise the disk
/// is written to `md/new_dev`.
pub open spec fn spec_add_spare(
    md_device: Seq<char>,
    md_exists: bool,
    spare_device: Seq<char>,
    spare_exists: bool,
    force: bool,
    suitable: Result<DeviceInfo, MdError>,
    state: Result<ArrayState, MdError>,
    dry_run: bool,
    r: Result<Plan, MdError>,
) -> bool {
    if !md_exists {
        r matches Err(MdError::DeviceNotFound(p)) && p@ == md_device
    } else if !spare_exists {
        r matches Err(MdError::DeviceNotFound(p)) && p@ == spare_device
    } else if !force && suitable is Err {
        r == Err::<Plan, MdError>(suitable->Err_0)
    } else if file_name(md_device) is None {
        r matches Err(MdError::InvalidDevice(m)) && m@ == "Invalid device name"@
    } else if state is Err {
        r matches Err(MdError::Sysfs(m)) && m@ == "Failed to read array state: "@ + state->Err_0.spec_text()
    } else if dry_run {
        r matches Ok(Plan::DryRun)
    } else {
        r matches Ok(p) && p is Writes && p.writes() == seq![("md/new_dev"@, spare_device, "add spare"@, false)]
    }
}

/// Adds `spare_device` as a hot spare of the array at `md_device`, given
/// whether both exist, whether the disk is suitable, and the array's state.
pub fn add_spare(
    md_device: &str,
    md_exists: bool,
    spare_device: &str,
    spare_exists: bool,
    force: bool,
    suitable: Result<DeviceInfo, MdError>,
    state: Result<ArrayState, MdError>,
    dry_run: bool,
) -> (r: Result<Plan, MdError>)
    ensures
        spec_add_spare(md_device@, md_exists, spare_device@, spare_exists, force, suitable, state, dry_run, r),
{
    if !md_exists {
        return Err(MdError::DeviceNotFound(String::from_str(md_device)));
    }
    if !spare_exists {
        return Err(MdError::DeviceNotFound(String::from_str(spare_device)));
    }
    if !force {
        if let Err(e) = suitable {
            return Err(e);
        }
    }
    if device_name(md_device).is_none() {
        return Err(MdError::InvalidDevice(String::from_str("Invalid device name")));
    }
    if let Err(e) = state {
        let t = e.to_text();
        return Err(MdError::Sysfs(cat("Failed to read array state: ", t.as_str())));
    }
    if dry_run {
        return Ok(Plan::DryRun);
    }
    let mut ws: Vec<SysfsWrite> = Vec::new();
    ws.push(SysfsWrite::new("md/new_dev", spare_device, "add spare", false));
    assert(writes_view(ws@) =~= seq![("md/new_dev"@, spare_device@, "add spare"@, false)]);
    Ok(Plan::Writes(ws))
}

/// What removing the spare `spare_device` from the array at `md_device` does:
/// the array must exist and be named, its spares must list, the disk must be
/// one of them; a dry run writes nothing; otherwise `remove` is written to the
/// disk's state.
pub open spec fn spec_remove_spare(
    md_device: Seq<char>,
    md_exists: bool,
    spare_device: Seq<char>,
    spares: Result<Vec<SpareInfo>, MdError>,
    dry_run: bool,
    r: Result<Plan, MdError>,
) -> bool {
    if !md_exists {
        r matches Err(MdError::DeviceNotFound(p)) && p@ == md_device
    } else if file_name(md_device) is None {
        r matches Err(MdError::InvalidDevice(m)) && m@ == "Invalid device name"@
    } else if spares is Err {
        r == Err::<Plan, MdError>(spares->Err_0)
    } else if !listed(spares->Ok_0@, spare_device) {
        r matches Err(MdError::ConfigValidation(m))
            && m@ == not_a_spare(spare_device, file_name(md_device).unwrap())
    } else if dry_run {
        r matches Ok(Plan::DryRun)
    } else if file_name(spare_device) is None {
        r matches Err(MdError::InvalidDevice(m)) && m@ == "Invalid device name"@
    } else {
        r matches Ok(p) && p is Writes && p.writes() == seq![(
            "md/dev-"@ + file_name(spare_device).unwrap() + "/state"@,
            "remove"@,
            "remove spare"@,
            false,
        )]
    }
}

/// Removes the spare `spare_device` from the array at `md_device`, given
/// whether the array exists and the listing of its spares.
pub fn remove_spare(
    md_device: &str,
    md_exists: bool,
    spare_device: &str,
    spares: Result<Vec<SpareInfo>, MdError>,
    dry_run: bool,
) -> (r: Result<Plan, MdError>)
    ensures
        spec_remove_spare(md_device@, md_exists, spare_device@, spares, dry_run, r),
{
    if !md_exists {
        return Err(MdError::DeviceNotFound(String::from_str(md_device)));
    }
    let array_name = match device_name(md_device) {
        Some(n) => n,
        None => {
            return Err(MdError::InvalidDevice(String::from_str("Invalid device name")));
        },
    };
    let list = match spares {
        Err(e) => {
            return Err(e);
        },
        Ok(l) => l,
    };
    if !is_listed(&list, spare_device) {
        let m = String::from_str("Device ").concat(spare_device).concat(" is not a spare in array ")
            .concat(array_name.as_str());
        return Err(MdError::ConfigValidation(m));
    }
    if dry_run {
        return Ok(Plan::DryRun);
    }
    let dev_name = match device_name(spare_device) {
        Some(n) => n,
        None => {
            return Err(MdError::InvalidDevice(String::from_str("Invalid device name")));
        },
    };
    let attr = cat3("md/dev-", dev_name.as_str(), "/state");
    let mut ws: Vec<SysfsWrite> = Vec::new();
    ws.push(SysfsWrite::new(attr.as_str(), "remove", "remove spare", false));
    assert(writes_view(ws@) =~= seq![(attr@, "remove"@, "remove spare"@, false)]);
    Ok(Plan::Writes(ws))
}

/// How many spares the array has, from the listing of its spares.
pub fn get_spare_count(spares: Result<Vec<SpareInfo>, MdError>) -> (r: Result<u32, MdError>)
    ensures
        match spares {
            Ok(l) => r == Ok::<u32, MdError>(l@.len() as u32),
            Err(e) => r == Err::<u32, MdError>(e),
        },
{
    match spares {
        Ok(l) => Ok(l.len() as u32),
        Err(e) => Err(e),
    }
}

/// The writes that set the spare policy: the minimum, then the maximum
/// number of spares, each when it is given.
pub open spec fn policy_writes(min_spares: Option<u32>, max_spares: Option<u32>) -> Seq<WriteView> {
    let a: Seq<WriteView> = match min_spares {
        Some(n) => seq![("md/min_spare"@, dec(n as nat), "set min_spare"@, false)],
        None => Seq::empty(),
    };
    let b: Seq<WriteView> = match max_spares {
        Some(n) => seq![("md/max_spare"@, dec(n as nat), "set max_spare"@, false)],
        None => Seq::empty(),
    };
    a + b
}

/// Sets how many spares the array at `md_device` keeps.
pub fn configure_spare_policy(md_device: &str, min_spares: Option<u32>, max_spares: Option<u32>) -> (r: Result<Plan, MdError>)
    ensures
        file_name(md_device@) is None ==> (r matches Err(MdError::InvalidDevice(m)) && m@ == "Invalid device name"@),
        file_name(md_device@) is Some ==> (r matches Ok(p) && p is Writes
            && p.writes() == policy_writes(min_spares, max_spares)),
{
    if device_name(md_device).is_none() {
        return Err(MdError::InvalidDevice(String::from_str("Invalid device name")));
    }
    let mut ws: Vec<SysfsWrite> = Vec::new();
    if let Some(min) = min_spares {
        let n = dec_u64(min as u64);
        ws.push(SysfsWrite::new("md/min_spare", n.as_str(), "set min_spare", false));
    }
    if let Some(max) = max_spares {
        let n = dec_u64(max as u64);
        ws.push(SysfsWrite::new("md/max_spare", n.as_str(), "set max_spare", false));
    }
    assert(writes_view(ws@) =~= policy_writes(min_spares, max_spares));
    Ok(Plan::Writes(ws))
}

/// Whether some line of `text` holds both `a` and `b`.
pub open spec fn some_line_with_both(text: Seq<char>, a: Seq<char>, b: Seq<char>) -> bool {
    exists|i: int| 0 <= i < lines(text).len() && #[trigger] contains(lines(text)[i], a) && contains(lines(text)[i], b)
}

/// Whether `device` is a spare of some array, from the text of `/proc/mdstat`:
/// some line names the device and carries the spare mark `(S)`.
pub fn is_spare_device(device: &str, mdstat: &str) -> (r: Result<bool, MdError>)
    ensures
        file_name(device@) is None ==> (r matches Err(MdError::InvalidDevice(m)) && m@ == "Invalid device name"@),
        file_name(device@) matches Some(n) ==> r == Ok::<bool, MdError>(some_line_with_both(mdstat@, n, "(S)"@)),
{
    let name = match device_name(device) {
        Some(n) => n,
        None => {
            return Err(MdError::InvalidDevice(String::from_str("Invalid device name")));
        },
    };
    let ls = split_lines(to_chars(mdstat).as_slice());
    let needle = to_chars(name.as_str());
    let mark = to_chars("(S)");
    let ghost text_lines = lines(mdstat@);
    let mut i: usize = 0;
    while i < ls.len()
        invariant
            i <= ls@.len(),
            lines_view(ls@) == text_lines,
            text_lines == lines(mdstat@),
            needle@ == name@,
            mark@ == "(S)"@,
            file_name(device@) == Some(name@),
            forall|k: int| 0 <= k < i ==> !(#[trigger] contains(text_lines[k], name@) && contains(text_lines[k], "(S)"@)),
        decreases ls@.len() - i,
    {
        assert(ls@[i as int]@ == text_lines[i as int]);
        if contains_chars(ls[i].as_slice(), needle.as_slice()) && contains_chars(ls[i].as_slice(), mark.as_slice()) {
            assert(contains(text_lines[i as int], name@) && contains(text_lines[i as int], "(S)"@));
            return Ok(true);
        }
        i = i + 1;
    }
    assert(!some_line_with_both(mdstat@, name@, "(S)"@));
    Ok(false)
}

/// What activating the spare `spare_device` in the array at `md_device` does:
/// the array must be named, its spares must list and hold the disk; with a
/// target slot the disk is written into that slot, otherwise recovery starts.
pub open spec fn spec_activate_spare(
    md_device: Seq<char>,
    spare_device: Seq<char>,
    spares: Result<Vec<SpareInfo>, MdError>,
    target_slot: Option<u32>,
    r: Result<Plan, MdError>,
) -> bool {
    if file_name(md_device) is None {
        r matches Err(MdError::InvalidDevice(m)) && m@ == "Invalid device name"@
    } else if spares is Err {
        r == Err::<Plan, MdError>(spares->Err_0)
    } else if !listed(spares->Ok_0@, spare_device) {
        r matches Err(MdError::ConfigValidation(m))
            && m@ == not_a_spare(spare_device, file_name(md_device).unwrap())
    } else {
        match target_slot {
            Some(slot) => if file_name(spare_device) is None {
                r matches Err(MdError::InvalidDevice(m)) && m@ == "Invalid device name"@
            } else {
                r matches Ok(p) && p is Writes && p.writes() == seq![(
                    "md/dev-"@ + file_name(spare_device).unwrap() + "/slot"@,
                    dec(slot as nat),
                    "activate spare"@,
                    false,
                )]
            },
            None => r matches Ok(p) && p is Writes
                && p.writes() == seq![("sync_action"@, "recover"@, "trigger recovery"@, false)],
        }
    }
}

/// Makes the spare `spare_device` of the array at `md_device` take over,
/// given the listing of the array's spares.
pub fn activate_spare(
    md_device: &str,
    spare_device: &str,
    spares: Result<Vec<SpareInfo>, MdError>,
    target_slot: Option<u32>,
) -> (r: Result<Plan, MdError>)
    ensures
        spec_activate_spare(md_device@, spare_device@, spares, target_slot, r),
{
    let array_name = match device_name(md_device) {
        Some(n) => n,
        None => {
            return Err(MdError::InvalidDevice(String::from_str("Invalid device name")));
        },
    };
    let list = match spares {
        Err(e) => {
            return Err(e);
        },
        Ok(l) => l,
    };
    if !is_listed(&list, spare_device) {
        let m = String::from_str("Device ").concat(spare_device).concat(" is not a spare in array ")
            .concat(array_name.as_str());
        return Err(MdError::ConfigValidation(m));
    }
    let mut ws: Vec<SysfsWrite> = Vec::new();
    match target_slot {
        Some(slot) => {
            let dev_name = match device_name(spare_device) {
                Some(n) => n,
                None => {
                    return Err(MdError::InvalidDevice(String::from_str("Invalid device name")));
                },
            };
            let attr = cat3("md/dev-", dev_name.as_str(), "/slot");
            let n = dec_u64(slot as u64);
            ws.push(SysfsWrite::new(attr.as_str(), n.as_str(), "activate spare", false));
            assert(writes_view(ws@) =~= seq![(attr@, n@, "activate spare"@, false)]);
        },
        None => {
            ws.push(SysfsWrite::new("sync_action", "recover", "trigger recovery", false));
            assert(writes_view(ws@) =~= seq![("sync_action"@, "recover"@, "trigger recovery"@, false)]);
        },
    }
    Ok(Plan::Writes(ws))
}

/// Whether a directory entry is that of a member device: its name starts with `dev-`.
pub open spec fn is_member_entry(e: MdDirEntry) -> bool {
    e.name@.len() >= 4 && e.name@.subrange(0, 4) == "dev-"@
}

/// Whether a directory entry is that of a spare: a member whose state read
/// and, trimmed, mentions `spare`.
pub open spec fn is_spare_entry(e: MdDirEntry) -> bool {
    is_member_entry(e) && (e.state matches Ok(st) && contains(trim(st@), "spare"@))
}

/// How many entries are those of spares.
pub open spec fn spare_entries(es: Seq<MdDirEntry>) -> nat
    decreases es.len(),
{
    if es.len() == 0 {
        0
    } else {
        spare_entries(es.drop_last()) + if is_spare_entry(es.last()) { 1nat } else { 0nat }
    }
}

/// What listing the spares gives: it fails exactly when some member's state
/// could not be read; otherwise it holds one spare for each member whose
/// trimmed state mentions `spare` (every other entry is left out), each
/// marked as a spare, with its state trimmed and mentioning `spare`.
pub proof fn lemma_spares_listed(es: Seq<MdDirEntry>)
    ensures
        spares_in(es) is Err <==> exists|i: int| 0 <= i < es.len() && is_member_entry(#[trigger] es[i]) && es[i].state is Err,
        spares_in(es) matches Ok(v) ==> v.len() == spare_entries(es) && forall|k: int| 0 <= k < v.len() ==> {
            let sp = #[trigger] v[k];
            &&& sp.3
            &&& contains(sp.1, "spare"@)
            &&& trim(sp.1) == sp.1
        },
    decreases es.len(),
{
    reveal_strlit("dev-");
    if es.len() > 0 {
        let p = es.drop_last();
        lemma_spares_listed(p);
        let e = es.last();
        assert forall|i: int| 0 <= i < p.len() implies #[trigger] es[i] == p[i] by {}
        if spares_in(p) is Err {
            let i = choose|i: int| 0 <= i < p.len() && is_member_entry(#[trigger] p[i]) && p[i].state is Err;
            assert(es[i] == p[i]);
        } else {
            if is_member_entry(e) && e.state is Err {
                assert(es[es.len() - 1] == e);
            } else {
                assert forall|i: int| 0 <= i < es.len() && is_member_entry(#[trigger] es[i]) implies es[i].state is Ok by {
                    if i < es.len() - 1 {
                        assert(es[i] == p[i]);
                    } else {
                        assert(es[i] == e);
                    }
                }
            }
            if let Ok(st) = e.state {
                lemma_trim_idempotent(st@);
            }
        }
    }
}

/// What `list_spares` hands back, spare by spare: when the directory was read
/// and no member's state failed to read, one spare for each member entry whose
/// trimmed state mentions `spare`, each marked as a spare, with its state
/// trimmed and mentioning `spare`; a member whose state could not be read
/// makes the listing fail as a sysfs error.
pub proof fn lemma_listed_spares(
    md_device: Seq<char>,
    entries: Result<Vec<MdDirEntry>, MdError>,
    r: Result<Vec<SpareInfo>, MdError>,
)
    requires
        spec_list_spares(md_device, entries, r),
    ensures
        file_name(md_device) is None ==> r matches Err(MdError::InvalidDevice(_)),
        file_name(md_device) is Some && entries is Err ==> r == Err::<Vec<SpareInfo>, MdError>(entries->Err_0),
        file_name(md_device) is Some && entries is Ok ==> {
            let es = entries->Ok_0@;
            &&& (r is Ok <==> !exists|i: int| 0 <= i < es.len() && is_member_entry(#[trigger] es[i]) && es[i].state is Err)
            &&& (r is Err ==> r matches Err(MdError::Sysfs(_)))
        },
        r matches Ok(s) ==> file_name(md_device) is Some && entries is Ok && s@.len() == spare_entries(entries->Ok_0@)
            && forall|k: int| 0 <= k < s@.len() ==> {
                let sp = #[trigger] s@[k];
                &&& sp.is_spare
                &&& contains(sp.state@, "spare"@)
                &&& trim(sp.state@) == sp.state@
            },
{
    if file_name(md_device) is Some {
        if let Ok(es) = entries {
            lemma_spares_listed(es@);
            if let Ok(s) = r {
                let v = spares_view(s@);
                assert forall|k: int| 0 <= k < s@.len() implies {
                    let sp = #[trigger] s@[k];
                    &&& sp.is_spare
                    &&& contains(sp.state@, "spare"@)
                    &&& trim(sp.state@) == sp.state@
                } by {
                    assert(v[k] == s@[k]@);
                }
            }
        }
    }
}

} // verus!
