//! Stopping an array, and failing, removing and adding its member disks.

use vstd::prelude::*;
use crate::error::MdError;
use crate::paths::{file_name, device_name};
use crate::sysfs::ArrayState;
use crate::validation::{check_data_loss_risk, spec_data_loss_risk};

verus! {

/// The name of the array at `md_device`: the last component of its path, or
/// nothing when it has none.
pub open spec fn array_name_of(md_device: Seq<char>) -> Seq<char> {
    match file_name(md_device) {
        Some(n) => n,
        None => Seq::empty(),
    }
}

/// The name of the array at `md_device`.
pub fn array_name(md_device: &str) -> (r: String)
    ensures
        r@ == array_name_of(md_device@),
{
    match device_name(md_device) {
        Some(n) => n,
        None => String::new(),
    }
}

/// The state of the array as the checks see it: its sysfs text, or
/// `unknown` when it could not be read.
pub open spec fn state_text(state: Option<ArrayState>) -> Seq<char> {
    match state {
        Some(s) => s.spec_text(),
        None => "unknown"@,
    }
}

/// The state of the array as the checks see it.
pub fn state_or_unknown(state: &Option<ArrayState>) -> (r: String)
    ensures
        r@ == state_text(*state),
{
    match state {
        Some(s) => s.to_text(),
        None => String::from_str("unknown"),
    }
}

/// Whether the array may be stopped: unless forced, an array whose state
/// read must not be at risk of losing data.
pub fn stop(force: bool, state: &Option<ArrayState>) -> (r: Result<(), MdError>)
    ensures
        force || state is None ==> r is Ok,
        !force && state is Some ==> spec_data_loss_risk("stop"@, state->Some_0.spec_text(), r),
{
    if !force {
        if let Some(s) = state {
            let t = s.to_text();
            return check_data_loss_risk("stop", t.as_str());
        }
    }
    Ok(())
}

/// One change to the members of an array.
#[derive(Debug, Clone)]
pub enum ManageStep {
    /// Mark the disk faulty.
    Fail(String),
    /// Take the disk out of the array.
    Remove(String),
    /// Add the disk to the array.
    Add(String),
}

/// What a `manage` call is to do: the steps in order, then the error it
/// ends with, if any (the steps before it are still made).
#[derive(Debug)]
pub struct ManagePlan {
    pub steps: Vec<ManageStep>,
    pub error: Option<MdError>,
}

/// The step of a kind for a disk.
pub open spec fn step_of(kind: int, dev: Seq<char>, s: ManageStep) -> bool {
    if kind == 0 {
        s matches ManageStep::Fail(d) && d@ == dev
    } else if kind == 1 {
        s matches ManageStep::Remove(d) && d@ == dev
    } else {
        s matches ManageStep::Add(d) && d@ == dev
    }
}

/// Whether `steps[from..from + devs.len()]` are the steps of a kind for `devs`, in order.
pub open spec fn steps_for(steps: Seq<ManageStep>, from: int, kind: int, devs: Seq<String>) -> bool {
    forall|i: int| 0 <= i < devs.len() ==> #[trigger] step_of(kind, devs[i]@, steps[from + i])
}

/// How many disks a list names.
pub open spec fn count(devs: Option<Vec<String>>) -> nat {
    match devs {
        Some(v) => v@.len(),
        None => 0,
    }
}

/// The disks a list names.
pub open spec fn listed(devs: Option<Vec<String>>) -> Seq<String> {
    match devs {
        Some(v) => v@,
        None => Seq::empty(),
    }
}

/// Whether an operation is refused for the array's state: only when not forced.
pub open spec fn refused(op: Seq<char>, state: Seq<char>, force: bool) -> bool {
    !force && (state == "degraded"@ || state == "failed"@)
}

/// What a `manage` call does, given the array's state: the disks to fail
/// first, then those to remove, then those to add. Unless forced, failing
/// and removing are refused on an array at risk of losing data; a refusal
/// ends the call after the steps before it.
pub open spec fn spec_manage(
    state: Seq<char>,
    add: Option<Vec<String>>,
    remove: Option<Vec<String>>,
    fail: Option<Vec<String>>,
    force: bool,
    p: ManagePlan,
) -> bool {
    let nf = count(fail);
    let nr = count(remove);
    let na = count(add);
    if fail is Some && refused("fail"@, state, force) {
        p.steps@.len() == 0 && p.error is Some && spec_data_loss_risk("fail"@, state, Err(p.error->Some_0))
    } else if remove is Some && refused("remove"@, state, force) {
        p.steps@.len() == nf && steps_for(p.steps@, 0, 0, listed(fail))
            && p.error is Some && spec_data_loss_risk("remove"@, state, Err(p.error->Some_0))
    } else {
        p.steps@.len() == nf + nr + na && steps_for(p.steps@, 0, 0, listed(fail))
            && steps_for(p.steps@, nf as int, 1, listed(remove))
            && steps_for(p.steps@, (nf + nr) as int, 2, listed(add)) && p.error is None
    }
}

/// Appends the steps of a kind for `devs`.
fn push_steps(steps: &mut Vec<ManageStep>, kind: u8, devs: &Vec<String>)
    requires
        kind <= 2,
    ensures
        final(steps)@.len() == old(steps)@.len() + devs@.len(),
        forall|i: int| 0 <= i < old(steps)@.len() ==> #[trigger] final(steps)@[i] == old(steps)@[i],
        steps_for(final(steps)@, old(steps)@.len() as int, kind as int, devs@),
{
    let ghost start = steps@.len();
    let mut i: usize = 0;
    while i < devs.len()
        invariant
            kind <= 2,
            i <= devs@.len(),
            steps@.len() == start + i,
            start == old(steps)@.len(),
            forall|k: int| 0 <= k < start ==> #[trigger] steps@[k] == old(steps)@[k],
            forall|k: int| 0 <= k < i ==> #[trigger] step_of(kind as int, devs@[k]@, steps@[start + k]),
        decreases devs@.len() - i,
    {
        let d = String::from_str(devs[i].as_str());
        let s = if kind == 0 {
            ManageStep::Fail(d)
        } else if kind == 1 {
            ManageStep::Remove(d)
        } else {
            ManageStep::Add(d)
        };
        steps.push(s);
        assert(step_of(kind as int, devs@[i as int]@, steps@[start + i]));
        i = i + 1;
    }
}

/// Plans the changes to the members of an array in `state`.
pub fn manage(
    state: &str,
    add: &Option<Vec<String>>,
    remove: &Option<Vec<String>>,
    fail: &Option<Vec<String>>,
    force: bool,
) -> (p: ManagePlan)
    ensures
        spec_manage(state@, *add, *remove, *fail, force, p),
{
    let mut steps: Vec<ManageStep> = Vec::new();
    if let Some(devs) = fail {
        if !force {
            if let Err(e) = check_data_loss_risk("fail", state) {
                return ManagePlan { steps, error: Some(e) };
            }
        }
        push_steps(&mut steps, 0, devs);
    }
    let ghost nf = steps@.len();
    let ghost after_fail = steps@;
    if let Some(devs) = remove {
        if !force {
            if let Err(e) = check_data_loss_risk("remove", state) {
                return ManagePlan { steps, error: Some(e) };
            }
        }
        push_steps(&mut steps, 1, devs);
    }
    let ghost after_remove = steps@;
    if let Some(devs) = add {
        push_steps(&mut steps, 2, devs);
    }
    proof {
        assert(forall|i: int| 0 <= i < count(*fail) ==> #[trigger] steps@[i] == after_fail[i]);
        assert(forall|i: int| 0 <= i < after_remove.len() ==> #[trigger] steps@[i] == after_remove[i]);
        assert forall|i: int| 0 <= i < listed(*fail).len() implies #[trigger] step_of(0, listed(*fail)[i]@, steps@[0 + i]) by {
            assert(steps@[i] == after_remove[i]);
            assert(after_remove[i] == after_fail[i]);
        }
        assert forall|i: int| 0 <= i < listed(*remove).len() implies #[trigger] step_of(1, listed(*remove)[i]@, steps@[nf + i]) by {
            assert(steps@[nf + i] == after_remove[nf + i]);
        }
    }
    ManagePlan { steps, error: None }
}

/// A request to fail or remove disks of an array at risk of losing data, when
/// not forced, changes nothing: no step at all is planned, and the call ends
/// with the refusal of the first such group. A forced request, or one on an
/// array at no risk, plans every step: the failures, then the removals, then
/// the additions.
pub proof fn lemma_refusal_changes_nothing(
    state: Seq<char>,
    add: Option<Vec<String>>,
    remove: Option<Vec<String>>,
    fail: Option<Vec<String>>,
    force: bool,
    p: ManagePlan,
)
    requires
        spec_manage(state, add, remove, fail, force, p),
    ensures
        !force && (fail is Some || remove is Some) && (state == "degraded"@ || state == "failed"@) ==> {
            &&& p.steps@.len() == 0
            &&& p.error matches Some(MdError::DataLossRisk(m))
            &&& m@ == "Cannot perform "@ + (if fail is Some { "fail"@ } else { "remove"@ }) + " on array in "@ + state + " state"@
        },
        (force || !(state == "degraded"@ || state == "failed"@)) ==> {
            &&& p.error is None
            &&& p.steps@.len() == count(fail) + count(remove) + count(add)
            &&& steps_for(p.steps@, 0, 0, listed(fail))
            &&& steps_for(p.steps@, count(fail) as int, 1, listed(remove))
            &&& steps_for(p.steps@, (count(fail) + count(remove)) as int, 2, listed(add))
        },
{
}

} // verus!
