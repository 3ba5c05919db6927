//! Pieces of the text that `examine` shows of a superblock: times, UUIDs, names.

use vstd::prelude::*;
use crate::text::{hex, zero_pad, hex_padded, to_chars, from_chars};

verus! {

/// What chrono shows of the time stamp `secs` (seconds since the epoch, UTC)
/// in the form `%Y-%m-%d %H:%M:%S UTC`; `None` where chrono has no date for it.
pub uninterp spec fn utc_text(secs: i64) -> Option<Seq<char>>;

/// `chrono::DateTime::from_timestamp(secs, 0)`, formatted with
/// `%Y-%m-%d %H:%M:%S UTC`. Claimed: the text is `utc_text(secs)`, and every
/// time stamp of a 32-bit unsigned count of seconds has a date.
#[verifier::external_body]
fn format_utc(secs: i64) -> (r: Option<String>)
    ensures
        match r {
            Some(s) => utc_text(secs) == Some(s@),
            None => utc_text(secs) is None,
        },
        0 <= secs <= u32::MAX ==> r is Some,
{
    match chrono::DateTime::from_timestamp(secs, 0) {
        Some(dt) => Some(dt.format("%Y-%m-%d %H:%M:%S UTC").to_string()),
        None => None,
    }
}

/// How a time stamp is shown: its date, or `unknown` when it has none.
pub open spec fn time_text(secs: i64) -> Seq<char> {
    match utc_text(secs) {
        Some(t) => t,
        None => "unknown"@,
    }
}

/// Shows a time stamp.
pub fn show_time(secs: i64) -> (r: String)
    ensures
        r@ == time_text(secs),
{
    match format_utc(secs) {
        Some(t) => t,
        None => String::from_str("unknown"),
    }
}

/// A byte as two lower-case hexadecimal digits.
pub open spec fn hex2(b: u8) -> Seq<char> {
    zero_pad(hex(b as nat), 2)
}

/// Bytes as hexadecimal digits, two for each.
pub open spec fn hex_bytes(b: Seq<u8>) -> Seq<char>
    decreases b.len(),
{
    if b.len() == 0 {
        Seq::empty()
    } else {
        hex_bytes(b.drop_last()) + hex2(b.last())
    }
}

/// A UUID as it is shown: its 16 bytes in hexadecimal, in groups of 4, 2,
/// 2, 2 and 6 bytes joined by `-`.
pub open spec fn uuid_text(u: Seq<u8>) -> Seq<char> {
    hex_bytes(u.subrange(0, 4)) + "-"@ + hex_bytes(u.subrange(4, 6)) + "-"@ + hex_bytes(u.subrange(6, 8))
        + "-"@ + hex_bytes(u.subrange(8, 10)) + "-"@ + hex_bytes(u.subrange(10, 16))
}

/// The bytes `u[from..to]` in hexadecimal.
pub fn hex_range_of(u: &[u8; 16], from: usize, to: usize) -> (r: String)
    requires
        from <= to <= 16,
    ensures
        r@ == hex_bytes(u@.subrange(from as int, to as int)),
{
    let mut s = String::new();
    let mut i: usize = from;
    assert(u@.subrange(from as int, from as int) =~= Seq::<u8>::empty());
    while i < to
        invariant
            from <= i <= to <= 16,
            u@.len() == 16,
            s@ == hex_bytes(u@.subrange(from as int, i as int)),
        decreases to - i,
    {
        let h = hex_padded(u[i] as u64, 2);
        s = s.concat(h.as_str());
        assert(u@.subrange(from as int, i + 1).drop_last() =~= u@.subrange(from as int, i as int));
        i = i + 1;
    }
    s
}

/// Shows a UUID.
pub fn format_uuid(u: &[u8; 16]) -> (r: String)
    ensures
        r@ == uuid_text(u@),
{
    let a = hex_range_of(u, 0, 4);
    let b = hex_range_of(u, 4, 6);
    let c = hex_range_of(u, 6, 8);
    let d = hex_range_of(u, 8, 10);
    let e = hex_range_of(u, 10, 16);
    a.concat("-").concat(b.as_str()).concat("-").concat(c.as_str()).concat("-").concat(d.as_str())
        .concat("-").concat(e.as_str())
}

/// What `String::from_utf8_lossy` gives for `bytes`.
pub uninterp spec fn lossy_text(bytes: Seq<u8>) -> Seq<char>;

/// `String::from_utf8_lossy` from std. Claimed: its text is `lossy_text` of the bytes.
#[verifier::external_body]
fn utf8_lossy(bytes: &[u8]) -> (r: String)
    ensures
        r@ == lossy_text(bytes@),
{
    String::from_utf8_lossy(bytes).to_string()
}

/// `s` without the NUL characters at its end.
pub open spec fn trim_nul(s: Seq<char>) -> Seq<char>
    decreases s.len(),
{
    if s.len() > 0 && s.last() == '\0' {
        trim_nul(s.drop_last())
    } else {
        s
    }
}

/// A text without the NUL characters at its end.
pub fn strip_trailing_nul(s: &str) -> (r: String)
    ensures
        r@ == trim_nul(s@),
{
    let c = to_chars(s);
    let mut end: usize = c.len();
    assert(c@.subrange(0, end as int) =~= c@);
    while end > 0 && c[end - 1] == '\0'
        invariant
            end <= c@.len(),
            trim_nul(c@) == trim_nul(c@.subrange(0, end as int)),
        decreases end,
    {
        assert(c@.subrange(0, end as int).drop_last() =~= c@.subrange(0, end - 1));
        end = end - 1;
    }
    let mut out: Vec<char> = Vec::new();
    let mut k: usize = 0;
    while k < end
        invariant
            k <= end <= c@.len(),
            out@ == c@.subrange(0, k as int),
        decreases end - k,
    {
        out.push(c[k]);
        k = k + 1;
        assert(out@ =~= c@.subrange(0, k as int));
    }
    from_chars(out.as_slice())
}

/// The name of an array as it is shown: its bytes decoded (invalid UTF-8
/// replaced), without the NUL characters that pad it.
pub open spec fn name_text(bytes: Seq<u8>) -> Seq<char> {
    trim_nul(lossy_text(bytes))
}

/// Shows the name stored in a superblock.
pub fn show_name(bytes: &[u8]) -> (r: String)
    ensures
        r@ == name_text(bytes@),
{
    let t = utf8_lossy(bytes);
    strip_trailing_nul(t.as_str())
}

} // verus!
