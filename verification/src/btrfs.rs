//! Btrfs on top of arrays: the `btrfs` commands that the tool runs, and what
//! their runs amount to.

use vstd::prelude::*;
use crate::error::MdError;
use crate::text::{to_chars, from_chars, trim, trim_chars, strings_view};
use crate::validation::CommandOutput;

verus! {

/// A Btrfs file system.
#[derive(Debug, Clone)]
pub struct BtrfsFilesystem {
    pub label: Option<String>,
    pub uuid: Option<String>,
    pub devices: Vec<String>,
}

/// Arguments from literals and paths.
fn args_of(parts: &[&str]) -> (r: Vec<String>)
    ensures
        r@.len() == parts@.len(),
        forall|i: int| 0 <= i < parts@.len() ==> #[trigger] r@[i]@ == parts@[i]@,
{
    let mut r: Vec<String> = Vec::new();
    let mut i: usize = 0;
    while i < parts.len()
        invariant
            i <= parts@.len(),
            r@.len() == i,
            forall|k: int| 0 <= k < i ==> #[trigger] r@[k]@ == parts@[k]@,
        decreases parts@.len() - i,
    {
        r.push(String::from_str(parts[i]));
        i = i + 1;
    }
    r
}

/// The arguments of `btrfs` that show the file systems, or the one at `path`.
pub fn filesystem_show(path: Option<&str>) -> (r: Vec<String>)
    ensures
        strings_view(r@) == seq!["filesystem"@, "show"@] + match path {
            Some(p) => seq![p@],
            None => Seq::empty(),
        },
{
    let r = match path {
        Some(p) => args_of(&["filesystem", "show", p]),
        None => args_of(&["filesystem", "show"]),
    };
    assert(strings_view(r@) =~= seq!["filesystem"@, "show"@] + match path {
        Some(p) => seq![p@],
        None => Seq::empty(),
    });
    r
}

/// The arguments of `btrfs` that start a scrub of `path`, read-only when asked.
pub fn scrub_start(path: &str, readonly: bool) -> (r: Vec<String>)
    ensures
        strings_view(r@) == seq!["scrub"@, "start"@] + (if readonly { seq!["-r"@] } else { Seq::empty() }) + seq![path@],
{
    let r = if readonly { args_of(&["scrub", "start", "-r", path]) } else { args_of(&["scrub", "start", path]) };
    assert(strings_view(r@) =~= seq!["scrub"@, "start"@] + (if readonly { seq!["-r"@] } else { Seq::empty() }) + seq![path@]);
    r
}

/// The arguments of `btrfs` that report the scrub of `path`.
pub fn scrub_status(path: &str) -> (r: Vec<String>)
    ensures
        strings_view(r@) == seq!["scrub"@, "status"@, path@],
{
    let r = args_of(&["scrub", "status", path]);
    assert(strings_view(r@) =~= seq!["scrub"@, "status"@, path@]);
    r
}

/// The arguments of `btrfs` that balance `path`: only the chunks up to 75 %
/// full, unless a full balance is asked.
pub fn balance_start(path: &str, full: bool) -> (r: Vec<String>)
    ensures
        strings_view(r@) == seq!["balance"@, "start"@]
            + (if full { Seq::empty() } else { seq!["-dusage=75"@, "-musage=75"@] }) + seq![path@],
{
    let r = if full {
        args_of(&["balance", "start", path])
    } else {
        args_of(&["balance", "start", "-dusage=75", "-musage=75", path])
    };
    assert(strings_view(r@) =~= seq!["balance"@, "start"@]
        + (if full { Seq::empty() } else { seq!["-dusage=75"@, "-musage=75"@] }) + seq![path@]);
    r
}

/// The arguments of `btrfs` that snapshot `source` as `destination`,
/// read-only when asked.
pub fn subvolume_snapshot(source: &str, destination: &str, readonly: bool) -> (r: Vec<String>)
    ensures
        strings_view(r@) == seq!["subvolume"@, "snapshot"@] + (if readonly { seq!["-r"@] } else { Seq::empty() })
            + seq![source@, destination@],
{
    let r = if readonly {
        args_of(&["subvolume", "snapshot", "-r", source, destination])
    } else {
        args_of(&["subvolume", "snapshot", source, destination])
    };
    assert(strings_view(r@) =~= seq!["subvolume"@, "snapshot"@] + (if readonly { seq!["-r"@] } else { Seq::empty() })
        + seq![source@, destination@]);
    r
}

/// What a run of `btrfs` amounts to: its trimmed output when it succeeded;
/// otherwise its trimmed error output, or a generic message when that is
/// empty; a command that did not start is an I/O error.
pub open spec fn spec_command_output(run: Result<CommandOutput, String>, r: Result<String, MdError>) -> bool {
    match run {
        Err(e) => r matches Err(MdError::Io(m)) && m@ == e@,
        Ok(o) => if o.success {
            r matches Ok(s) && s@ == trim(o.stdout@)
        } else if trim(o.stderr@).len() == 0 {
            r matches Err(MdError::InvalidState(m)) && m@ == "btrfs command failed"@
        } else {
            r matches Err(MdError::InvalidState(m)) && m@ == trim(o.stderr@)
        },
    }
}

/// What a run of `btrfs` amounts to.
pub fn command_output(run: &Result<CommandOutput, String>) -> (r: Result<String, MdError>)
    ensures
        spec_command_output(*run, r),
{
    match run {
        Err(e) => Err(MdError::Io(String::from_str(e.as_str()))),
        Ok(o) => {
            let out = trim_chars(to_chars(o.stdout.as_str()).as_slice());
            if o.success {
                Ok(from_chars(out.as_slice()))
            } else {
                let err = trim_chars(to_chars(o.stderr.as_str()).as_slice());
                if err.len() == 0 {
                    Err(MdError::InvalidState(String::from_str("btrfs command failed")))
                } else {
                    Err(MdError::InvalidState(from_chars(err.as_slice())))
                }
            }
        },
    }
}

} // verus!
