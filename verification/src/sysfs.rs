//! The sysfs view of an MD array (`/sys/block/md*`), and its array states.

use vstd::prelude::*;
use crate::error::MdError;
use crate::text::{cat, cat3, to_chars, trim_chars, chars_eq, from_chars, join_paths, join_path, trim};

verus! {

/// The sysfs directory of one array.
pub struct MdSysfs {
    pub base_path: String,
}

/// The sysfs directory of the array named `md_name`.
pub open spec fn sysfs_base(md_name: Seq<char>) -> Seq<char> {
    "/sys/block/"@ + md_name
}

impl MdSysfs {
    /// The sysfs view of the array named `md_name`.
    pub fn new(md_name: &str) -> (r: Self)
        ensures
            r.base_path@ == sysfs_base(md_name@),
    {
        MdSysfs { base_path: cat("/sys/block/", md_name) }
    }

    /// Path of the attribute `attr` of the array.
    pub fn attr_path(&self, attr: &str) -> (r: String)
        ensures
            r@ == join_path(self.base_path@, attr@),
    {
        join_paths(self.base_path.as_str(), attr)
    }
}

/// One write of a value into a sysfs attribute of an array, as an operation
/// plans it. `action` says what the write does; when it fails, the error
/// reads "Failed to <action>: <cause>", as a bitmap error when `bitmap` is
/// set and as a sysfs error otherwise.
#[derive(Debug, Clone)]
pub struct SysfsWrite {
    pub attr: String,
    pub value: String,
    pub action: String,
    pub bitmap: bool,
}

/// A planned write, seen as its attribute, value, action and error kind.
pub type WriteView = (Seq<char>, Seq<char>, Seq<char>, bool);

impl View for SysfsWrite {
    type V = WriteView;

    open spec fn view(&self) -> WriteView {
        (self.attr@, self.value@, self.action@, self.bitmap)
    }
}

/// The views of a list of planned writes.
pub open spec fn writes_view(ws: Seq<SysfsWrite>) -> Seq<WriteView> {
    ws.map_values(|w: SysfsWrite| w@)
}

/// The message of a failed write.
pub open spec fn failure_message(action: Seq<char>, cause: Seq<char>) -> Seq<char> {
    "Failed to "@ + action + ": "@ + cause
}

impl SysfsWrite {
    /// A planned write.
    pub fn new(attr: &str, value: &str, action: &str, bitmap: bool) -> (w: SysfsWrite)
        ensures
            w@ == (attr@, value@, action@, bitmap),
    {
        SysfsWrite {
            attr: String::from_str(attr),
            value: String::from_str(value),
            action: String::from_str(action),
            bitmap,
        }
    }

    /// The error of this write when it failed for `cause`.
    pub fn failure(&self, cause: &str) -> (e: MdError)
        ensures
            self.bitmap ==> (e matches MdError::Bitmap(m) && m@ == failure_message(self.action@, cause@)),
            !self.bitmap ==> (e matches MdError::Sysfs(m) && m@ == failure_message(self.action@, cause@)),
    {
        let head = cat3("Failed to ", self.action.as_str(), ": ");
        let m = cat(head.as_str(), cause);
        if self.bitmap {
            MdError::Bitmap(m)
        } else {
            MdError::Sysfs(m)
        }
    }
}

/// What an operation decided to do to an array.
#[derive(Debug)]
pub enum Plan {
    /// Nothing: the array already is as asked.
    Unchanged,
    /// A dry run: nothing is written.
    DryRun,
    /// These writes, in this order; the first that fails ends the operation.
    Writes(Vec<SysfsWrite>),
}

impl Plan {
    /// The writes of the plan, none unless it is `Writes`.
    pub open spec fn writes(self) -> Seq<WriteView> {
        match self {
            Plan::Writes(ws) => writes_view(ws@),
            _ => Seq::empty(),
        }
    }
}

/// The action that starts a scrub: `repair` when asked to repair, else `check`.
pub open spec fn scrub_action(repair: bool) -> Seq<char> {
    if repair { "repair"@ } else { "check"@ }
}

/// What a sysfs `md/sync_action` reads as: `idle` when the attribute is
/// missing, otherwise its content without surrounding white space.
pub open spec fn spec_sync_action(content: Option<Seq<char>>) -> Seq<char> {
    match content {
        Some(c) => trim(c),
        None => "idle"@,
    }
}

impl MdSysfs {
    /// The write that starts a scrub of the array.
    pub fn start_scrub(&self, repair: bool) -> (w: SysfsWrite)
        ensures
            w@ == ("md/sync_action"@, scrub_action(repair), "start scrub via sync_action"@, false),
    {
        let action = if repair { "repair" } else { "check" };
        SysfsWrite::new("md/sync_action", action, "start scrub via sync_action", false)
    }

    /// The current sync action, from the content of `md/sync_action` (`None`
    /// when the attribute does not exist).
    pub fn get_sync_action(&self, content: Option<&str>) -> (r: String)
        ensures
            r@ == spec_sync_action(match content { Some(c) => Some(c@), None => None }),
    {
        match content {
            Some(c) => from_chars(trim_chars(to_chars(c).as_slice()).as_slice()),
            None => String::from_str("idle"),
        }
    }

    /// The state of the array, from the content of `md/array_state`.
    pub fn get_array_state(&self, content: &str) -> (r: ArrayState)
        ensures
            ArrayState::spec_parse(trim(content@), r),
    {
        ArrayState::from_sysfs(content)
    }
}

/// State of an array as sysfs reports it in `md/array_state`.
#[derive(Debug, Clone, PartialEq, Eq)]
pub enum ArrayState {
    Clear,
    Inactive,
    Suspended,
    Readonly,
    ReadAuto,
    Clean,
    Active,
    WritePending,
    ActiveIdle,
    Unknown(String),
}

/// The sysfs word of each known state, in declaration order.
pub open spec fn state_word(i: int) -> Seq<char> {
    if i == 0 { "clear"@ }
    else if i == 1 { "inactive"@ }
    else if i == 2 { "suspended"@ }
    else if i == 3 { "readonly"@ }
    else if i == 4 { "read-auto"@ }
    else if i == 5 { "clean"@ }
    else if i == 6 { "active"@ }
    else if i == 7 { "write-pending"@ }
    else { "active-idle"@ }
}

impl ArrayState {
    /// The text of a state: its sysfs word, or the text that was not recognized.
    pub open spec fn spec_text(&self) -> Seq<char> {
        match self {
            ArrayState::Clear => state_word(0),
            ArrayState::Inactive => state_word(1),
            ArrayState::Suspended => state_word(2),
            ArrayState::Readonly => state_word(3),
            ArrayState::ReadAuto => state_word(4),
            ArrayState::Clean => state_word(5),
            ArrayState::Active => state_word(6),
            ArrayState::WritePending => state_word(7),
            ArrayState::ActiveIdle => state_word(8),
            ArrayState::Unknown(s) => s@,
        }
    }

    /// The state that the word `s` names: a known state when `s` is exactly its
    /// word, otherwise `Unknown` holding `s`.
    pub open spec fn spec_parse(s: Seq<char>, r: ArrayState) -> bool {
        if s == state_word(0) { r is Clear }
        else if s == state_word(1) { r is Inactive }
        else if s == state_word(2) { r is Suspended }
        else if s == state_word(3) { r is Readonly }
        else if s == state_word(4) { r is ReadAuto }
        else if s == state_word(5) { r is Clean }
        else if s == state_word(6) { r is Active }
        else if s == state_word(7) { r is WritePending }
        else if s == state_word(8) { r is ActiveIdle }
        else { r matches ArrayState::Unknown(t) && t@ == s }
    }

    /// Reads a state from its sysfs word.
    pub fn parse(s: &str) -> (r: ArrayState)
        ensures
            Self::spec_parse(s@, r),
    {
        let c = to_chars(s);
        if chars_eq(c.as_slice(), to_chars("clear").as_slice()) {
            ArrayState::Clear
        } else if chars_eq(c.as_slice(), to_chars("inactive").as_slice()) {
            ArrayState::Inactive
        } else if chars_eq(c.as_slice(), to_chars("suspended").as_slice()) {
            ArrayState::Suspended
        } else if chars_eq(c.as_slice(), to_chars("readonly").as_slice()) {
            ArrayState::Readonly
        } else if chars_eq(c.as_slice(), to_chars("read-auto").as_slice()) {
            ArrayState::ReadAuto
        } else if chars_eq(c.as_slice(), to_chars("clean").as_slice()) {
            ArrayState::Clean
        } else if chars_eq(c.as_slice(), to_chars("active").as_slice()) {
            ArrayState::Active
        } else if chars_eq(c.as_slice(), to_chars("write-pending").as_slice()) {
            ArrayState::WritePending
        } else if chars_eq(c.as_slice(), to_chars("active-idle").as_slice()) {
            ArrayState::ActiveIdle
        } else {
            ArrayState::Unknown(String::from_str(s))
        }
    }

    /// Reads the state from the raw content of `md/array_state`: the text
    /// without surrounding white space.
    pub fn from_sysfs(raw: &str) -> (r: ArrayState)
        ensures
            Self::spec_parse(trim(raw@), r),
    {
        let t = trim_chars(to_chars(raw).as_slice());
        let s = from_chars(t.as_slice());
        Self::parse(s.as_str())
    }

    /// The text of the state, as it is displayed.
    pub fn to_text(&self) -> (r: String)
        ensures
            r@ == self.spec_text(),
    {
        match self {
            ArrayState::Clear => String::from_str("clear"),
            ArrayState::Inactive => String::from_str("inactive"),
            ArrayState::Suspended => String::from_str("suspended"),
            ArrayState::Readonly => String::from_str("readonly"),
            ArrayState::ReadAuto => String::from_str("read-auto"),
            ArrayState::Clean => String::from_str("clean"),
            ArrayState::Active => String::from_str("active"),
            ArrayState::WritePending => String::from_str("write-pending"),
            ArrayState::ActiveIdle => String::from_str("active-idle"),
            ArrayState::Unknown(s) => s.clone(),
        }
    }
}

/// Displaying a parsed state gives back the word it was parsed from, whatever it was.
pub proof fn lemma_text_of_parse(s: Seq<char>, st: ArrayState)
    requires
        ArrayState::spec_parse(s, st),
    ensures
        st.spec_text() == s,
{
}

/// Parsing the text of a state gives the same state back, unless it is an
/// unknown state that holds one of the known words.
pub proof fn lemma_parse_of_text(st: ArrayState, back: ArrayState)
    requires
        !(st matches ArrayState::Unknown(t) && exists|i: int| 0 <= i < 9 && t@ == #[trigger] state_word(i)),
        ArrayState::spec_parse(st.spec_text(), back),
    ensures
        back == st || (st matches ArrayState::Unknown(t) && back matches ArrayState::Unknown(u) && t@ == u@),
{
    reveal_strlit("clear");
    reveal_strlit("inactive");
    reveal_strlit("suspended");
    reveal_strlit("readonly");
    reveal_strlit("read-auto");
    reveal_strlit("clean");
    reveal_strlit("active");
    reveal_strlit("write-pending");
    reveal_strlit("active-idle");
    assert(state_word(0)[4] != state_word(5)[4]);
    assert(state_word(1)[0] != state_word(3)[0]);
    assert(state_word(2)[0] != state_word(4)[0]);
    assert(state_word(0).len() == 5 && state_word(5).len() == 5);
    assert(state_word(4) != state_word(0));
    assert(state_word(4) != state_word(1));
    assert(state_word(4) != state_word(2));
    assert(state_word(3)[4] != state_word(4)[4]);
    assert(state_word(4) != state_word(3));
    assert(state_word(7).len() == 13);
    assert(state_word(7) != state_word(0));
    assert(state_word(7) != state_word(1));
    assert(state_word(7) != state_word(2));
    assert(state_word(7) != state_word(3));
    assert(state_word(7) != state_word(4));
    assert(state_word(7) != state_word(5));
    assert(state_word(7) != state_word(6));
    assert(state_word(8).len() == 11);
    assert(state_word(8) != state_word(0));
    assert(state_word(8) != state_word(1));
    assert(state_word(8) != state_word(2));
    assert(state_word(8) != state_word(3));
    assert(state_word(8) != state_word(4));
    assert(state_word(8) != state_word(5));
    assert(state_word(8) != state_word(6));
    assert(state_word(8) != state_word(7));
    match st {
        ArrayState::Clear => { assert(back is Clear); }
        ArrayState::Inactive => { assert(back is Inactive); }
        ArrayState::Suspended => { assert(back is Suspended); }
        ArrayState::Readonly => { assert(back is Readonly); }
        ArrayState::ReadAuto => { assert(back is ReadAuto); }
        ArrayState::Clean => { assert(back is Clean); }
        ArrayState::Active => { assert(back is Active); }
        ArrayState::WritePending => { assert(back is WritePending); }
        ArrayState::ActiveIdle => { assert(back is ActiveIdle); }
        _ => {}
    }
    if let ArrayState::Unknown(t) = st {
        assert(!(t@ == state_word(0)));
        assert(!(t@ == state_word(1)));
        assert(!(t@ == state_word(2)));
        assert(!(t@ == state_word(3)));
        assert(!(t@ == state_word(4)));
        assert(!(t@ == state_word(5)));
        assert(!(t@ == state_word(6)));
        assert(!(t@ == state_word(7)));
        assert(!(t@ == state_word(8)));
    }
}

} // verus!
