//! The text of the live monitor of arrays.

use vstd::prelude::*;
use crate::api::handlers::{BlockEntry, is_md, is_md_name, state_or_unknown};
use crate::sysfs::ArrayState;
use crate::text::cat;

verus! {

/// What `str::to_uppercase` gives for `s`.
pub uninterp spec fn uppercase(s: Seq<char>) -> Seq<char>;

/// `str::to_uppercase` from std. Claimed: its result is `uppercase` of the argument.
#[verifier::external_body]
fn to_uppercase(s: &str) -> (r: String)
    ensures
        r@ == uppercase(s@),
{
    s.to_uppercase()
}

/// The line of an array in the monitor, given its state in upper case.
pub open spec fn monitor_line(name: Seq<char>, upper_state: Seq<char>) -> Seq<char> {
    "🖴 "@ + name + " - State: ["@ + upper_state + "]\n"@
}

/// The line of an array in the monitor, given its state in upper case.
pub fn status_line(name: &str, upper_state: &str) -> (r: String)
    ensures
        r@ == monitor_line(name@, upper_state@),
{
    String::from_str("🖴 ").concat(name).concat(" - State: [").concat(upper_state).concat("]\n")
}

/// The lines of the arrays among the entries of `/sys/block`, in order.
pub open spec fn monitor_lines(es: Seq<BlockEntry>) -> Seq<char>
    decreases es.len(),
{
    if es.len() == 0 {
        Seq::empty()
    } else if is_md(es.last().name@) {
        monitor_lines(es.drop_last()) + monitor_line(es.last().name@, uppercase(state_or_unknown(es.last().state)))
    } else {
        monitor_lines(es.drop_last())
    }
}

/// The text of the monitor: a title, then a line for each array with its
/// state in upper case (`UNKNOWN` when it did not read).
pub fn status_text(entries: &Vec<BlockEntry>) -> (r: String)
    ensures
        r@ == "MD Arrays Status:\n\n"@ + monitor_lines(entries@),
{
    let mut out = String::from_str("MD Arrays Status:\n\n");
    let mut i: usize = 0;
    while i < entries.len()
        invariant
            i <= entries@.len(),
            out@ == "MD Arrays Status:\n\n"@ + monitor_lines(entries@.subrange(0, i as int)),
        decreases entries@.len() - i,
    {
        let e = &entries[i];
        assert(entries@.subrange(0, i + 1).drop_last() =~= entries@.subrange(0, i as int));
        if is_md_name(e.name.as_str()) {
            let state = match &e.state {
                Some(s) => s.to_text(),
                None => String::from_str("unknown"),
            };
            let upper = to_uppercase(state.as_str());
            let line = status_line(e.name.as_str(), upper.as_str());
            let ghost before = out@;
            out = out.concat(line.as_str());
            assert(out@ =~= before + line@);
        }
        i = i + 1;
    }
    assert(entries@.subrange(0, entries@.len() as int) =~= entries@);
    out
}

} // verus!
