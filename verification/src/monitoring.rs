//! Prediction of disk failures from the SMART report of `smartctl -a`.

use vstd::prelude::*;
use crate::text::{
    dec, dec_u64, cat, to_chars, from_chars, contains, contains_chars, lines, first_line_with, find_line,
    last_word, last_word_chars, parse_u64, parse_i64, parse_unsigned, parse_signed, to_lowercase,
    lowercase, strings_view, lemma_dec_digits, is_digit,
};
use crate::validation::CommandOutput;

verus! {

/// What was found out about the health of a disk.
#[derive(Debug, Clone)]
pub struct DiskHealthStatus {
    pub device_name: String,
    pub is_healthy: bool,
    pub predictive_failure: bool,
    pub read_error_rate: u64,
    pub write_error_rate: u64,
    pub temperature_celsius: Option<i64>,
    pub smart_available: bool,
    pub details: Vec<String>,
}

/// Judges disks by their SMART reports; a raw read error rate above the
/// threshold predicts a failure.
#[derive(Debug, Clone)]
pub struct FailureDetector {
    pub threshold: u64,
}

/// The raw value of the SMART attribute `name` in `output`: the last word of
/// the first line that names it, when it is a number.
pub open spec fn attribute(output: Seq<char>, name: Seq<char>) -> Option<nat> {
    match first_line_with(lines(output), name, name) {
        Some(l) => match last_word(l) {
            Some(w) => parse_unsigned(w, u64::MAX as nat),
            None => None,
        },
        None => None,
    }
}

/// The raw value of the SMART attribute `name` in `output`.
pub fn parse_attribute(output: &str, name: &str) -> (r: Option<u64>)
    ensures
        match attribute(output@, name@) {
            Some(v) => r == Some(v as u64),
            None => r is None,
        },
{
    let s = to_chars(output);
    let n = to_chars(name);
    match find_line(s.as_slice(), n.as_slice(), n.as_slice()) {
        Some(l) => match last_word_chars(l.as_slice()) {
            Some(w) => parse_u64(w.as_slice()),
            None => None,
        },
        None => None,
    }
}

/// The temperature in `output`: the last word of the first line that names
/// `Temperature_Celsius` or `Airflow_Temperature_Cel`, when it is a number.
pub open spec fn temperature(output: Seq<char>) -> Option<int> {
    match first_line_with(lines(output), "Temperature_Celsius"@, "Airflow_Temperature_Cel"@) {
        Some(l) => match last_word(l) {
            Some(w) => parse_signed(w, 0x8000_0000_0000_0000, i64::MAX as nat),
            None => None,
        },
        None => None,
    }
}

/// The temperature of the disk, from its SMART report.
pub fn parse_temperature(output: &str) -> (r: Option<i64>)
    ensures
        match temperature(output@) {
            Some(v) => r == Some(v as i64),
            None => r is None,
        },
{
    let s = to_chars(output);
    match find_line(s.as_slice(), to_chars("Temperature_Celsius").as_slice(), to_chars("Airflow_Temperature_Cel").as_slice()) {
        Some(l) => match last_word_chars(l.as_slice()) {
            Some(w) => parse_i64(w.as_slice()),
            None => None,
        },
        None => None,
    }
}

/// Whether a lower-cased SMART report says that the disk failed its health
/// check or shows pre-fail indicators.
pub open spec fn spec_health_failed(lower: Seq<char>) -> bool {
    contains(lower, "smart overall-health self-assessment test result: failed"@)
        || contains(lower, "smart health status: failed"@)
        || contains(lower, "predicted failure"@)
        || contains(lower, "prefail"@)
}

/// Whether a lower-cased SMART report reports a failure.
pub fn health_failed(lower: &str) -> (r: bool)
    ensures
        r == spec_health_failed(lower@),
{
    let l = to_chars(lower);
    contains_chars(l.as_slice(), to_chars("smart overall-health self-assessment test result: failed").as_slice())
        || contains_chars(l.as_slice(), to_chars("smart health status: failed").as_slice())
        || contains_chars(l.as_slice(), to_chars("predicted failure").as_slice())
        || contains_chars(l.as_slice(), to_chars("prefail").as_slice())
}

/// An attribute's value, 0 when it is missing.
pub open spec fn value_or_zero(v: Option<nat>) -> nat {
    match v {
        Some(n) => n,
        None => 0,
    }
}

/// What a SMART report says of a disk, with `lower` the report lower-cased.
/// A failure is predicted when the health check failed, the read error rate
/// is above the threshold, or a sector was reallocated, is pending, or is
/// uncorrectable; the details list why, in that order, after a note when the
/// command itself failed.
pub open spec fn spec_status(
    device: Seq<char>,
    output: Seq<char>,
    lower: Seq<char>,
    success: bool,
    threshold: u64,
    st: DiskHealthStatus,
) -> bool {
    let read = value_or_zero(attribute(output, "Raw_Read_Error_Rate"@));
    let write = match attribute(output, "Write_Error_Rate"@) {
        Some(v) => v,
        None => value_or_zero(attribute(output, "Total_LBAs_Written"@)),
    };
    let realloc = value_or_zero(attribute(output, "Reallocated_Sector_Ct"@));
    let pending = value_or_zero(attribute(output, "Current_Pending_Sector"@));
    let offline = value_or_zero(attribute(output, "Offline_Uncorrectable"@));
    let failed = spec_health_failed(lower);
    let predictive = failed || read > threshold || realloc > 0 || pending > 0 || offline > 0;
    let d1: Seq<Seq<char>> = if !success { seq!["smartctl returned a non-zero status"@] } else { Seq::empty() };
    let d2: Seq<Seq<char>> = if failed {
        seq!["SMART health reports failure or pre-fail indicators"@]
    } else {
        Seq::empty()
    };
    let d3: Seq<Seq<char>> = if realloc > 0 { seq![dec(realloc) + " reallocated sectors"@] } else { Seq::empty() };
    let d4: Seq<Seq<char>> = if pending > 0 { seq![dec(pending) + " pending sectors"@] } else { Seq::empty() };
    let d5: Seq<Seq<char>> = if offline > 0 {
        seq![dec(offline) + " offline uncorrectable sectors"@]
    } else {
        Seq::empty()
    };
    &&& st.device_name@ == device
    &&& st.is_healthy == !predictive
    &&& st.predictive_failure == predictive
    &&& st.read_error_rate == read
    &&& st.write_error_rate == write
    &&& (match temperature(output) {
        Some(t) => st.temperature_celsius == Some(t as i64),
        None => st.temperature_celsius is None,
    })
    &&& st.smart_available
    &&& strings_view(st.details@) == d1 + d2 + d3 + d4 + d5
}

/// The note that the command failed stands among the details of a report
/// exactly when the command failed: none of the other details can read like it.
pub proof fn lemma_nonzero_status_noted(
    device: Seq<char>,
    output: Seq<char>,
    lower: Seq<char>,
    success: bool,
    threshold: u64,
    st: DiskHealthStatus,
)
    requires
        spec_status(device, output, lower, success, threshold, st),
    ensures
        !success <==> strings_view(st.details@).contains("smartctl returned a non-zero status"@),
{
    let note = "smartctl returned a non-zero status"@;
    let health = "SMART health reports failure or pre-fail indicators"@;
    reveal_strlit("smartctl returned a non-zero status");
    reveal_strlit("SMART health reports failure or pre-fail indicators");
    let d = strings_view(st.details@);
    if !success {
        assert(d[0] == note);
    } else {
        let realloc = value_or_zero(attribute(output, "Reallocated_Sector_Ct"@));
        let pending = value_or_zero(attribute(output, "Current_Pending_Sector"@));
        let offline = value_or_zero(attribute(output, "Offline_Uncorrectable"@));
        lemma_dec_digits(realloc);
        lemma_dec_digits(pending);
        lemma_dec_digits(offline);
        assert(is_digit(dec(realloc)[0]) && is_digit(dec(pending)[0]) && is_digit(dec(offline)[0]));
        assert forall|i: int| 0 <= i < d.len() implies #[trigger] d[i][0] != note[0] by {
            assert(d[i] == health || d[i] == dec(realloc) + " reallocated sectors"@
                || d[i] == dec(pending) + " pending sectors"@
                || d[i] == dec(offline) + " offline uncorrectable sectors"@);
        }
        if d.contains(note) {
            let i = choose|i: int| 0 <= i < d.len() && d[i] == note;
            assert(d[i][0] != note[0]);
        }
    }
}

/// A disk is predicted to fail, and so reported unhealthy, exactly when one
/// of the failure reasons is present: the health check failed, the raw read
/// error rate is above the threshold, or some sector was reallocated, is
/// pending, or is offline uncorrectable. A disk reported healthy has no
/// detail but the note that the command failed, if it did.
pub proof fn lemma_healthy_only_without_failure_reasons(
    device: Seq<char>,
    output: Seq<char>,
    lower: Seq<char>,
    success: bool,
    threshold: u64,
    st: DiskHealthStatus,
)
    requires
        spec_status(device, output, lower, success, threshold, st),
    ensures
        st.is_healthy == !st.predictive_failure,
        spec_health_failed(lower) ==> st.predictive_failure,
        (attribute(output, "Raw_Read_Error_Rate"@) matches Some(n) && n > threshold) ==> st.predictive_failure,
        (attribute(output, "Reallocated_Sector_Ct"@) matches Some(n) && n > 0) ==> st.predictive_failure,
        (attribute(output, "Current_Pending_Sector"@) matches Some(n) && n > 0) ==> st.predictive_failure,
        (attribute(output, "Offline_Uncorrectable"@) matches Some(n) && n > 0) ==> st.predictive_failure,
        st.predictive_failure ==> {
            ||| spec_health_failed(lower)
            ||| (attribute(output, "Raw_Read_Error_Rate"@) matches Some(n) && n > threshold)
            ||| (attribute(output, "Reallocated_Sector_Ct"@) matches Some(n) && n > 0)
            ||| (attribute(output, "Current_Pending_Sector"@) matches Some(n) && n > 0)
            ||| (attribute(output, "Offline_Uncorrectable"@) matches Some(n) && n > 0)
        },
        st.is_healthy ==> strings_view(st.details@).len() == (if success { 0int } else { 1int }),
{
}

/// An attribute's value, 0 when it is missing.
fn attribute_or_zero(output: &str, name: &str) -> (r: u64)
    ensures
        r == value_or_zero(attribute(output@, name@)),
{
    match parse_attribute(output, name) {
        Some(v) => v,
        None => 0,
    }
}

/// What a SMART report says of a disk, given the report lower-cased.
pub fn smart_status(device: &str, output: &str, lower: &str, success: bool, threshold: u64) -> (st: DiskHealthStatus)
    ensures
        spec_status(device@, output@, lower@, success, threshold, st),
{
    let read = attribute_or_zero(output, "Raw_Read_Error_Rate");
    let write = match parse_attribute(output, "Write_Error_Rate") {
        Some(v) => v,
        None => attribute_or_zero(output, "Total_LBAs_Written"),
    };
    let realloc = attribute_or_zero(output, "Reallocated_Sector_Ct");
    let pending = attribute_or_zero(output, "Current_Pending_Sector");
    let offline = attribute_or_zero(output, "Offline_Uncorrectable");
    let temp = parse_temperature(output);
    let failed = health_failed(lower);
    let predictive = failed || read > threshold || realloc > 0 || pending > 0 || offline > 0;
    let mut details: Vec<String> = Vec::new();
    if !success {
        details.push(String::from_str("smartctl returned a non-zero status"));
    }
    let ghost n1 = details@.len();
    if failed {
        details.push(String::from_str("SMART health reports failure or pre-fail indicators"));
    }
    let ghost n2 = details@.len();
    if realloc > 0 {
        let n = dec_u64(realloc);
        details.push(cat(n.as_str(), " reallocated sectors"));
    }
    let ghost n3 = details@.len();
    if pending > 0 {
        let n = dec_u64(pending);
        details.push(cat(n.as_str(), " pending sectors"));
    }
    let ghost n4 = details@.len();
    if offline > 0 {
        let n = dec_u64(offline);
        details.push(cat(n.as_str(), " offline uncorrectable sectors"));
    }
    proof {
        let v = strings_view(details@);
        let d1: Seq<Seq<char>> = if !success { seq!["smartctl returned a non-zero status"@] } else { Seq::empty() };
        let d2: Seq<Seq<char>> = if failed {
            seq!["SMART health reports failure or pre-fail indicators"@]
        } else {
            Seq::empty()
        };
        let d3: Seq<Seq<char>> = if realloc > 0 { seq![dec(realloc as nat) + " reallocated sectors"@] } else { Seq::empty() };
        let d4: Seq<Seq<char>> = if pending > 0 { seq![dec(pending as nat) + " pending sectors"@] } else { Seq::empty() };
        let d5: Seq<Seq<char>> = if offline > 0 {
            seq![dec(offline as nat) + " offline uncorrectable sectors"@]
        } else {
            Seq::empty()
        };
        assert(v.subrange(0, n1 as int) =~= d1);
        assert(v.subrange(n1 as int, n2 as int) =~= d2);
        assert(v.subrange(n2 as int, n3 as int) =~= d3);
        assert(v.subrange(n3 as int, n4 as int) =~= d4);
        assert(v.subrange(n4 as int, v.len() as int) =~= d5);
        assert(v =~= d1 + d2 + d3 + d4 + d5);
    }
    DiskHealthStatus {
        device_name: String::from_str(device),
        is_healthy: !predictive,
        predictive_failure: predictive,
        read_error_rate: read,
        write_error_rate: write,
        temperature_celsius: temp,
        smart_available: true,
        details,
    }
}

/// What the SMART report `output` of `device` says, judged against `threshold`.
pub fn parse_smartctl_output(device: &str, output: &str, command_success: bool, threshold: u64) -> (st: DiskHealthStatus)
    ensures
        spec_status(device@, output@, lowercase(output@), command_success, threshold, st),
{
    let lower = to_lowercase(output);
    smart_status(device, output, lower.as_str(), command_success, threshold)
}

/// What is known of a disk whose SMART tool could not be started.
pub open spec fn spec_unavailable(device: Seq<char>, error: Seq<char>, st: DiskHealthStatus) -> bool {
    &&& st.device_name@ == device
    &&& st.is_healthy
    &&& !st.predictive_failure
    &&& st.read_error_rate == 0
    &&& st.write_error_rate == 0
    &&& st.temperature_celsius is None
    &&& !st.smart_available
    &&& strings_view(st.details@) == seq!["smartctl unavailable: "@ + error]
}

/// What `smartctl -a` says of a disk: its report is what it printed on its
/// output, a line feed, and what it printed on its error stream.
pub open spec fn spec_analysis(device: Seq<char>, run: Result<CommandOutput, String>, threshold: u64, st: DiskHealthStatus) -> bool {
    match run {
        Ok(o) => {
            let combined = o.stdout@ + "\n"@ + o.stderr@;
            spec_status(device, combined, lowercase(combined), o.success, threshold, st)
        },
        Err(e) => spec_unavailable(device, e@, st),
    }
}

impl FailureDetector {
    /// A detector with the given threshold of read errors.
    pub fn new(threshold: u64) -> (d: FailureDetector)
        ensures
            d.threshold == threshold,
    {
        FailureDetector { threshold }
    }

    /// Judges the disk `disk_path` from the run of `smartctl -a` on it.
    pub fn analyze_disk(&self, disk_path: &str, run: &Result<CommandOutput, String>) -> (st: DiskHealthStatus)
        ensures
            spec_analysis(disk_path@, *run, self.threshold, st),
    {
        match run {
            Ok(o) => {
                let combined = String::from_str(o.stdout.as_str()).concat("\n").concat(o.stderr.as_str());
                parse_smartctl_output(disk_path, combined.as_str(), o.success, self.threshold)
            },
            Err(e) => {
                let mut details: Vec<String> = Vec::new();
                details.push(cat("smartctl unavailable: ", e.as_str()));
                assert(strings_view(details@) =~= seq!["smartctl unavailable: "@ + e@]);
                DiskHealthStatus {
                    device_name: String::from_str(disk_path),
                    is_healthy: true,
                    predictive_failure: false,
                    read_error_rate: 0,
                    write_error_rate: 0,
                    temperature_celsius: None,
                    smart_available: false,
                    details,
                }
            },
        }
    }

    /// Judges each of `devices`, in order, from the run of `smartctl -a` on it.
    pub fn analyze_devices(&self, devices: &Vec<String>, runs: &Vec<Result<CommandOutput, String>>) -> (r: Vec<DiskHealthStatus>)
        requires
            runs@.len() == devices@.len(),
        ensures
            r@.len() == devices@.len(),
            forall|i: int| 0 <= i < devices@.len() ==> spec_analysis(devices@[i]@, runs@[i], self.threshold, #[trigger] r@[i]),
    {
        let mut out: Vec<DiskHealthStatus> = Vec::new();
        let mut i: usize = 0;
        while i < devices.len()
            invariant
                i <= devices@.len(),
                runs@.len() == devices@.len(),
                out@.len() == i,
                forall|k: int| 0 <= k < i ==> spec_analysis(devices@[k]@, runs@[k], self.threshold, #[trigger] out@[k]),
            decreases devices@.len() - i,
        {
            let st = self.analyze_disk(devices[i].as_str(), &runs[i]);
            out.push(st);
            i = i + 1;
        }
        out
    }
}

} // verus!
