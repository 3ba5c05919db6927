//! Device paths: the last component of a path, as the array and device
//! operations name a device by it.

use vstd::prelude::*;
use crate::error::MdError;
use crate::text::{to_chars, from_chars, slice_chars};

verus! {

/// Index of the last `/` in `s`, or -1 when there is none.
pub open spec fn last_slash(s: Seq<char>) -> int
    decreases s.len(),
{
    if s.len() == 0 {
        -1
    } else if s.last() == '/' {
        s.len() - 1
    } else {
        last_slash(s.drop_last())
    }
}

/// `last_slash` points at a `/`, inside `s`, after which no `/` follows.
pub proof fn lemma_last_slash(s: Seq<char>)
    ensures
        -1 <= last_slash(s) < s.len(),
        last_slash(s) >= 0 ==> s[last_slash(s)] == '/',
        forall|k: int| last_slash(s) < k < s.len() ==> s[k] != '/',
    decreases s.len(),
{
    if s.len() > 0 && s.last() != '/' {
        let t = s.drop_last();
        lemma_last_slash(t);
        assert forall|k: int| last_slash(s) < k < s.len() implies s[k] != '/' by {
            if k < s.len() - 1 {
                assert(s[k] == t[k]);
            }
        }
    }
}

/// The final component of a Unix path, as `std::path::Path::file_name` has it:
/// empty components and `.` are skipped, a path that ends in `..`, or that has
/// no component left (the root, `.`, the empty path), has none.
pub open spec fn file_name(s: Seq<char>) -> Option<Seq<char>>
    decreases s.len(),
{
    if s.len() == 0 {
        None
    } else {
        let i = last_slash(s);
        let comp = s.subrange(i + 1, s.len() as int);
        if comp.len() == 0 || comp == seq!['.'] {
            if i < 0 {
                None
            } else {
                proof {
                    lemma_last_slash(s);
                }
                file_name(s.subrange(0, i))
            }
        } else if comp == seq!['.', '.'] {
            None
        } else {
            Some(comp)
        }
    }
}

/// Appending characters that hold no `/` leaves the last `/` where it was.
proof fn lemma_last_slash_append(s: Seq<char>, t: Seq<char>)
    requires
        forall|k: int| 0 <= k < t.len() ==> t[k] != '/',
    ensures
        last_slash(s + t) == last_slash(s),
    decreases t.len(),
{
    if t.len() > 0 {
        let u = t.drop_last();
        assert((s + t).drop_last() =~= s + u);
        assert((s + t).last() == t.last());
        lemma_last_slash_append(s, u);
    } else {
        assert(s + t =~= s);
    }
}

/// A directory followed by a plain name (one that is not empty, holds no
/// `/`, and is neither `.` nor `..`) has that name as its final component.
pub proof fn lemma_file_name_of_child(dir: Seq<char>, name: Seq<char>)
    requires
        dir.len() > 0,
        dir.last() == '/',
        name.len() > 0,
        forall|k: int| 0 <= k < name.len() ==> name[k] != '/',
        name != seq!['.'],
        name != seq!['.', '.'],
    ensures
        file_name(dir + name) == Some(name),
{
    lemma_last_slash_append(dir, name);
    let s = dir + name;
    assert(last_slash(dir) == dir.len() - 1);
    assert(s.subrange(dir.len() as int, s.len() as int) =~= name);
}

/// Index of the last `/` among the first `end` characters of `s`.
fn find_last_slash(s: &[char], end: usize) -> (r: Option<usize>)
    requires
        end <= s@.len(),
    ensures
        match r {
            Some(i) => i as int == last_slash(s@.subrange(0, end as int)),
            None => last_slash(s@.subrange(0, end as int)) == -1,
        },
{
    let mut j: usize = end;
    while j > 0
        invariant
            j <= end <= s@.len(),
            last_slash(s@.subrange(0, end as int)) == last_slash(s@.subrange(0, j as int)),
        decreases j,
    {
        if s[j - 1] == '/' {
            return Some(j - 1);
        }
        assert(s@.subrange(0, j as int).drop_last() =~= s@.subrange(0, j - 1));
        j = j - 1;
    }
    None
}

/// The final component of the path `path`, if it has one.
pub fn device_name(path: &str) -> (r: Option<String>)
    ensures
        match r {
            Some(n) => file_name(path@) == Some(n@),
            None => file_name(path@) is None,
        },
{
    let s = to_chars(path);
    let mut end: usize = s.len();
    assert(s@.subrange(0, end as int) =~= path@);
    loop
        invariant
            end <= s@.len(),
            s@ == path@,
            file_name(path@) == file_name(s@.subrange(0, end as int)),
        decreases end,
    {
        if end == 0 {
            return None;
        }
        let ghost sub = s@.subrange(0, end as int);
        let found = find_last_slash(s.as_slice(), end);
        proof {
            lemma_last_slash(sub);
        }
        let start: usize = match found {
            Some(i) => i + 1,
            None => 0,
        };
        let comp = slice_chars(s.as_slice(), start, end);
        assert(comp@ =~= sub.subrange(last_slash(sub) + 1, sub.len() as int));
        let n = comp.len();
        if n == 0 || (n == 1 && comp[0] == '.') {
            assert(n == 1 && comp[0] == '.' ==> comp@ =~= seq!['.']);
            match found {
                None => {
                    return None;
                },
                Some(i) => {
                    assert(sub.subrange(0, i as int) =~= s@.subrange(0, i as int));
                    end = i;
                },
            }
        } else if n == 2 && comp[0] == '.' && comp[1] == '.' {
            assert(comp@ =~= seq!['.', '.']);
            return None;
        } else {
            assert(comp@ != seq!['.']);
            assert(comp@ != seq!['.', '.']);
            return Some(from_chars(comp.as_slice()));
        }
    }
}

/// The final component of `path`, or the error that the operations give for
/// a device path without one.
pub fn device_name_or_error(path: &str) -> (r: Result<String, MdError>)
    ensures
        match r {
            Ok(n) => file_name(path@) == Some(n@),
            Err(e) => file_name(path@) is None
                && (e matches MdError::InvalidDevice(m) && m@ == "Invalid device name"@),
        },
{
    match device_name(path) {
        Some(n) => Ok(n),
        None => Err(MdError::InvalidDevice(String::from_str("Invalid device name"))),
    }
}

} // verus!
