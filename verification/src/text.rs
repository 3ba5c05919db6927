//! Text helpers: number formatting through std, and verified scanning of
//! character sequences.

use vstd::prelude::*;

verus! {

/// The ASCII digit for `d` (which is below 16), lower-case for the letters.
pub open spec fn digit_char(d: nat) -> char {
    if d < 10 {
        ((48 + d) as u8) as char
    } else {
        ((87 + d) as u8) as char
    }
}

/// The decimal representation of `n`, without sign or leading zeros.
pub open spec fn dec(n: nat) -> Seq<char>
    decreases n,
{
    if n < 10 {
        seq![digit_char(n)]
    } else {
        dec(n / 10).push(digit_char(n % 10))
    }
}

/// The decimal representation of a signed integer, with a leading `-` when negative.
pub open spec fn dec_int(n: int) -> Seq<char> {
    if n < 0 {
        seq!['-'] + dec((-n) as nat)
    } else {
        dec(n as nat)
    }
}

/// The lower-case hexadecimal representation of `n`, without leading zeros.
pub open spec fn hex(n: nat) -> Seq<char>
    decreases n,
{
    if n < 16 {
        seq![digit_char(n)]
    } else {
        hex(n / 16).push(digit_char(n % 16))
    }
}

/// `s` preceded by as many `0` as it takes to reach `width` characters.
pub open spec fn zero_pad(s: Seq<char>, width: nat) -> Seq<char> {
    if s.len() >= width {
        s
    } else {
        Seq::new((width - s.len()) as nat, |i: int| '0') + s
    }
}

/// `u64::to_string` from std. Claimed: the decimal digits of `n`.
#[verifier::external_body]
pub(crate) fn dec_u64(n: u64) -> (s: String)
    ensures
        s@ == dec(n as nat),
{
    n.to_string()
}

/// `i64::to_string` from std. Claimed: the decimal digits of `n`, with `-` when negative.
#[verifier::external_body]
pub(crate) fn dec_i64(n: i64) -> (s: String)
    ensures
        s@ == dec_int(n as int),
{
    n.to_string()
}

/// `format!("{:0w$x}", n)` from std. Claimed: the lower-case hexadecimal digits of `n`,
/// zero-padded on the left to `width` characters. A width given at run time must fit in
/// 16 bits, else the formatter refuses it, so wider widths are left out.
#[verifier::external_body]
pub(crate) fn hex_padded(n: u64, width: usize) -> (s: String)
    requires
        width <= 65535,
    ensures
        s@ == zero_pad(hex(n as nat), width as nat),
{
    format!("{:0w$x}", n, w = width)
}

/// The characters of `s`, in order.
pub(crate) fn to_chars(s: &str) -> (v: Vec<char>)
    ensures
        v@ == s@,
{
    broadcast use vstd::string::axiom_spec_iter;
    let mut v: Vec<char> = Vec::new();
    for c in it: s.chars()
        invariant
            v@ == it.seq().subrange(0, it.index() as int),
    {
        v.push(c);
    }
    v
}

/// A `String` collected from characters, from std. Claimed: those characters, in order.
#[verifier::external_body]
pub(crate) fn from_chars(v: &[char]) -> (s: String)
    ensures
        s@ == v@,
{
    v.iter().collect()
}

/// What `str::to_lowercase` gives for `s`.
pub uninterp spec fn lowercase(s: Seq<char>) -> Seq<char>;

/// `str::to_lowercase` from std. Claimed: its result is `lowercase` of the argument.
#[verifier::external_body]
pub(crate) fn to_lowercase(s: &str) -> (r: String)
    ensures
        r@ == lowercase(s@),
{
    s.to_lowercase()
}

/// The texts of a list of strings.
pub open spec fn strings_view(v: Seq<String>) -> Seq<Seq<char>> {
    v.map_values(|s: String| s@)
}

/// `a` followed by `b`.
pub fn cat(a: &str, b: &str) -> (s: String)
    ensures
        s@ == a@ + b@,
{
    let x = String::from_str(a);
    x.concat(b)
}

/// `a`, `b` and `c` one after the other.
pub fn cat3(a: &str, b: &str, c: &str) -> (s: String)
    ensures
        s@ == a@ + b@ + c@,
{
    let x = String::from_str(a);
    let y = x.concat(b);
    y.concat(c)
}

/// Whether two character slices hold the same characters.
pub fn chars_eq(a: &[char], b: &[char]) -> (r: bool)
    ensures
        r == (a@ == b@),
{
    if a.len() != b.len() {
        return false;
    }
    let mut i: usize = 0;
    while i < a.len()
        invariant
            a@.len() == b@.len(),
            i <= a@.len(),
            forall|k: int| 0 <= k < i ==> a@[k] == b@[k],
        decreases a@.len() - i,
    {
        if a[i] != b[i] {
            return false;
        }
        i = i + 1;
    }
    assert(a@ =~= b@);
    true
}

/// Whether two strings are equal.
pub fn str_eq(a: &str, b: &str) -> (r: bool)
    ensures
        r == (a@ == b@),
{
    let x = to_chars(a);
    let y = to_chars(b);
    chars_eq(x.as_slice(), y.as_slice())
}


/// Unicode white space, as `char::is_whitespace` has it.
pub open spec fn is_ws(c: char) -> bool {
    ('\t' <= c && c <= '\r') || c == ' ' || c == '\u{85}' || c == '\u{a0}' || c == '\u{1680}'
        || ('\u{2000}' <= c && c <= '\u{200a}') || c == '\u{2028}' || c == '\u{2029}'
        || c == '\u{202f}' || c == '\u{205f}' || c == '\u{3000}'
}

/// Whether `c` is white space.
pub fn is_whitespace(c: char) -> (r: bool)
    ensures
        r == is_ws(c),
{
    ('\t' <= c && c <= '\r') || c == ' ' || c == '\u{85}' || c == '\u{a0}' || c == '\u{1680}'
        || ('\u{2000}' <= c && c <= '\u{200a}') || c == '\u{2028}' || c == '\u{2029}'
        || c == '\u{202f}' || c == '\u{205f}' || c == '\u{3000}'
}

/// `s` without its leading white space.
pub open spec fn trim_start(s: Seq<char>) -> Seq<char>
    decreases s.len(),
{
    if s.len() > 0 && is_ws(s[0]) { trim_start(s.drop_first()) } else { s }
}

/// `s` without its trailing white space.
pub open spec fn trim_end(s: Seq<char>) -> Seq<char>
    decreases s.len(),
{
    if s.len() > 0 && is_ws(s.last()) { trim_end(s.drop_last()) } else { s }
}

/// `s` without leading and trailing white space, as `str::trim` gives it.
pub open spec fn trim(s: Seq<char>) -> Seq<char> {
    trim_end(trim_start(s))
}

proof fn lemma_trim_start_head(s: Seq<char>)
    ensures
        trim_start(s).len() == 0 || !is_ws(trim_start(s)[0]),
    decreases s.len(),
{
    if s.len() > 0 && is_ws(s[0]) {
        lemma_trim_start_head(s.drop_first());
    }
}

proof fn lemma_trim_end_prefix(s: Seq<char>)
    ensures
        trim_end(s).len() <= s.len(),
        trim_end(s) =~= s.subrange(0, trim_end(s).len() as int),
        trim_end(s).len() == 0 || !is_ws(trim_end(s).last()),
    decreases s.len(),
{
    if s.len() > 0 && is_ws(s.last()) {
        lemma_trim_end_prefix(s.drop_last());
    } else {
        assert(s.subrange(0, s.len() as int) =~= s);
    }
}

/// Trimming twice trims no more than trimming once.
pub proof fn lemma_trim_idempotent(s: Seq<char>)
    ensures
        trim(trim(s)) == trim(s),
{
    let u = trim_start(s);
    let t = trim_end(u);
    lemma_trim_start_head(s);
    lemma_trim_end_prefix(u);
    if t.len() > 0 {
        assert(t[0] == u[0]);
        assert(trim_start(t) == t);
        assert(trim_end(t) == t);
    } else {
        assert(trim_start(t) =~= t);
        assert(trim_end(t) =~= t);
    }
}

proof fn lemma_trim_start_skip(s: Seq<char>, i: int)
    requires
        0 <= i <= s.len(),
        forall|k: int| 0 <= k < i ==> is_ws(#[trigger] s[k]),
    ensures
        trim_start(s) == trim_start(s.subrange(i, s.len() as int)),
    decreases i,
{
    if i > 0 {
        assert(s.drop_first().subrange(i - 1, s.drop_first().len() as int) =~= s.subrange(i, s.len() as int));
        lemma_trim_start_skip(s.drop_first(), i - 1);
    } else {
        assert(s.subrange(0, s.len() as int) =~= s);
    }
}

proof fn lemma_trim_end_cut(s: Seq<char>, j: int)
    requires
        0 <= j <= s.len(),
        forall|k: int| j <= k < s.len() ==> is_ws(#[trigger] s[k]),
    ensures
        trim_end(s) == trim_end(s.subrange(0, j)),
    decreases s.len() - j,
{
    if j < s.len() {
        assert(s.drop_last().subrange(0, j) =~= s.subrange(0, j));
        lemma_trim_end_cut(s.drop_last(), j);
    } else {
        assert(s.subrange(0, j) =~= s);
    }
}

/// Removes leading and trailing white space.
pub fn trim_chars(s: &[char]) -> (r: Vec<char>)
    ensures
        r@ == trim(s@),
{
    let n = s.len();
    let mut i: usize = 0;
    while i < n && is_whitespace(s[i])
        invariant
            n == s@.len(),
            i <= n,
            forall|k: int| 0 <= k < i ==> is_ws(#[trigger] s@[k]),
        decreases n - i,
    {
        i = i + 1;
    }
    proof { lemma_trim_start_skip(s@, i as int); }
    let ghost t = s@.subrange(i as int, n as int);
    assert(trim_start(t) == t);
    let mut j: usize = n;
    while j > i && is_whitespace(s[j - 1])
        invariant
            n == s@.len(),
            i <= j <= n,
            forall|k: int| j <= k < n ==> is_ws(#[trigger] s@[k]),
        decreases j,
    {
        j = j - 1;
    }
    proof {
        assert forall|k: int| j - i <= k < t.len() implies is_ws(#[trigger] t[k]) by {
            assert(t[k] == s@[k + i]);
        }
        lemma_trim_end_cut(t, j - i);
        assert(t.subrange(0, j - i) =~= s@.subrange(i as int, j as int));
    }
    let mut r: Vec<char> = Vec::new();
    let mut k: usize = i;
    while k < j
        invariant
            n == s@.len(),
            i <= k <= j <= n,
            r@ == s@.subrange(i as int, k as int),
        decreases j - k,
    {
        r.push(s[k]);
        k = k + 1;
        assert(r@ =~= s@.subrange(i as int, k as int));
    }
    r
}

/// Whether `needle` occurs in `hay` starting at position `i`.
pub open spec fn occurs_at(hay: Seq<char>, needle: Seq<char>, i: int) -> bool {
    0 <= i && i + needle.len() <= hay.len() && hay.subrange(i, i + needle.len()) == needle
}

/// Whether `needle` occurs somewhere in `hay`, as `str::contains` has it.
pub open spec fn contains(hay: Seq<char>, needle: Seq<char>) -> bool {
    exists|i: int| #[trigger] occurs_at(hay, needle, i)
}

/// Whether `needle` occurs in `hay` at position `i`.
pub fn occurs_at_exec(hay: &[char], needle: &[char], i: usize) -> (r: bool)
    ensures
        r == occurs_at(hay@, needle@, i as int),
{
    if needle.len() > hay.len() || i > hay.len() - needle.len() {
        return false;
    }
    let n = hay.len();
    let mut k: usize = 0;
    while k < needle.len()
        invariant
            n == hay@.len(),
            i + needle@.len() <= hay@.len(),
            k <= needle@.len(),
            forall|m: int| 0 <= m < k ==> hay@[i + m] == needle@[m],
        decreases needle@.len() - k,
    {
        if hay[i + k] != needle[k] {
            assert(hay@.subrange(i as int, i + needle@.len())[k as int] != needle@[k as int]);
            return false;
        }
        k = k + 1;
    }
    assert(hay@.subrange(i as int, i + needle@.len()) =~= needle@);
    true
}

/// Whether `needle` occurs in `hay`.
pub fn contains_chars(hay: &[char], needle: &[char]) -> (r: bool)
    ensures
        r == contains(hay@, needle@),
{
    if needle.len() > hay.len() {
        assert(forall|i: int| !#[trigger] occurs_at(hay@, needle@, i));
        return false;
    }
    let last = hay.len() - needle.len();
    let mut i: usize = 0;
    loop
        invariant
            last == hay@.len() - needle@.len(),
            i <= last,
            forall|j: int| 0 <= j < i ==> !#[trigger] occurs_at(hay@, needle@, j),
        decreases last - i,
    {
        if occurs_at_exec(hay, needle, i) {
            return true;
        }
        if i == last {
            assert(forall|j: int| !#[trigger] occurs_at(hay@, needle@, j));
            return false;
        }
        i = i + 1;
    }
}

/// Whether `hay` starts with `prefix`.
pub fn starts_with_chars(hay: &[char], prefix: &[char]) -> (r: bool)
    ensures
        r == occurs_at(hay@, prefix@, 0),
{
    occurs_at_exec(hay, prefix, 0)
}


/// Index of the first line feed in `s`, or its length when there is none.
pub open spec fn find_nl(s: Seq<char>) -> int
    decreases s.len(),
{
    if s.len() == 0 {
        0
    } else if s[0] == '\n' {
        0
    } else {
        1 + find_nl(s.drop_first())
    }
}

pub proof fn lemma_find_nl_bounds(s: Seq<char>)
    ensures
        0 <= find_nl(s) <= s.len(),
        find_nl(s) < s.len() ==> s[find_nl(s)] == '\n',
        forall|i: int| 0 <= i < find_nl(s) ==> #[trigger] s[i] != '\n',
    decreases s.len(),
{
    if s.len() > 0 && s[0] != '\n' {
        lemma_find_nl_bounds(s.drop_first());
        assert forall|i: int| 0 <= i < find_nl(s) implies #[trigger] s[i] != '\n' by {
            if i > 0 {
                assert(s[i] == s.drop_first()[i - 1]);
            }
        }
    }
}

proof fn lemma_find_nl_is(s: Seq<char>, k: int)
    requires
        0 <= k <= s.len(),
        forall|i: int| 0 <= i < k ==> #[trigger] s[i] != '\n',
        k == s.len() || s[k] == '\n',
    ensures
        find_nl(s) == k,
    decreases k,
{
    if k > 0 {
        assert(s[0] != '\n');
        assert forall|i: int| 0 <= i < k - 1 implies #[trigger] s.drop_first()[i] != '\n' by {
            assert(s.drop_first()[i] == s[i + 1]);
        }
        lemma_find_nl_is(s.drop_first(), k - 1);
    }
}

/// A line without the carriage return that ended it.
pub open spec fn strip_cr(l: Seq<char>) -> Seq<char> {
    if l.len() > 0 && l.last() == '\r' { l.drop_last() } else { l }
}

/// The lines of `s`, as `str::lines` gives them: split at each line feed, a
/// carriage return before the line feed dropped, no empty line after a final
/// line feed.
pub open spec fn lines(s: Seq<char>) -> Seq<Seq<char>>
    decreases s.len(),
{
    if s.len() == 0 {
        Seq::empty()
    } else {
        let k = find_nl(s);
        proof { lemma_find_nl_bounds(s); }
        if k < s.len() {
            seq![strip_cr(s.subrange(0, k))] + lines(s.subrange(k + 1, s.len() as int))
        } else {
            seq![s]
        }
    }
}

/// The first of the lines `ls` that holds `p1` or `p2`.
pub open spec fn first_line_with(ls: Seq<Seq<char>>, p1: Seq<char>, p2: Seq<char>) -> Option<Seq<char>>
    decreases ls.len(),
{
    if ls.len() == 0 {
        None
    } else if contains(ls[0], p1) || contains(ls[0], p2) {
        Some(ls[0])
    } else {
        first_line_with(ls.drop_first(), p1, p2)
    }
}

/// Finds the first line of `s` that holds `p1` or `p2`.
pub fn find_line(s: &[char], p1: &[char], p2: &[char]) -> (r: Option<Vec<char>>)
    ensures
        r matches Some(l) ==> first_line_with(lines(s@), p1@, p2@) == Some(l@),
        r is None ==> first_line_with(lines(s@), p1@, p2@) is None,
{
    let n = s.len();
    let mut start: usize = 0;
    assert(s@.subrange(0, n as int) =~= s@);
    while start < n
        invariant
            n == s@.len(),
            start <= n,
            first_line_with(lines(s@), p1@, p2@) == first_line_with(lines(s@.subrange(start as int, n as int)), p1@, p2@),
        decreases n - start,
    {
        let mut end: usize = start;
        while end < n && s[end] != '\n'
            invariant
                n == s@.len(),
                start <= end <= n,
                forall|i: int| start <= i < end ==> #[trigger] s@[i] != '\n',
            decreases n - end,
        {
            end = end + 1;
        }
        let ghost u = s@.subrange(start as int, n as int);
        proof {
            assert forall|i: int| 0 <= i < end - start implies #[trigger] u[i] != '\n' by {
                assert(u[i] == s@[start + i]);
            }
            lemma_find_nl_is(u, end - start);
        }
        let mut line: Vec<char> = Vec::new();
        let mut k: usize = start;
        while k < end
            invariant
                n == s@.len(),
                start <= k <= end <= n,
                line@ == s@.subrange(start as int, k as int),
            decreases end - k,
        {
            line.push(s[k]);
            k = k + 1;
            assert(line@ =~= s@.subrange(start as int, k as int));
        }
        assert(u.subrange(0, end - start) =~= line@);
        if end < n && line.len() > 0 && line[line.len() - 1] == '\r' {
            line.pop();
        }
        let ghost cur = if end < n { strip_cr(u.subrange(0, end - start)) } else { u };
        assert(end == n ==> u =~= line@);
        assert(line@ =~= cur);
        let ghost rest = if end < n { u.subrange(end - start + 1, u.len() as int) } else { Seq::<char>::empty() };
        assert(lines(u) =~= seq![cur] + lines(rest));
        assert((seq![cur] + lines(rest))[0] == cur);
        assert((seq![cur] + lines(rest)).drop_first() =~= lines(rest));
        let a = contains_chars(line.as_slice(), p1);
        let b = contains_chars(line.as_slice(), p2);
        if a || b {
            return Some(line);
        }
        assert(first_line_with(lines(u), p1@, p2@) == first_line_with(lines(rest), p1@, p2@));
        if end == n {
            assert(lines(rest) =~= Seq::<Seq<char>>::empty());
            assert(first_line_with(lines(rest), p1@, p2@) is None);
            return None;
        }
        assert(rest =~= s@.subrange(end + 1, n as int));
        start = end + 1;
    }
    assert(s@.subrange(start as int, n as int) =~= Seq::<char>::empty());
    None
}

/// The character sequences of a list of lines.
pub open spec fn lines_view(v: Seq<Vec<char>>) -> Seq<Seq<char>> {
    v.map_values(|l: Vec<char>| l@)
}

/// Splits `s` into its lines, as `str::lines` does.
pub fn split_lines(s: &[char]) -> (r: Vec<Vec<char>>)
    ensures
        lines_view(r@) == lines(s@),
{
    let n = s.len();
    let mut out: Vec<Vec<char>> = Vec::new();
    let mut start: usize = 0;
    assert(s@.subrange(0, n as int) =~= s@);
    assert(lines_view(out@) =~= Seq::<Seq<char>>::empty());
    while start < n
        invariant
            n == s@.len(),
            start <= n,
            lines(s@) == lines_view(out@) + lines(s@.subrange(start as int, n as int)),
        decreases n - start,
    {
        let mut end: usize = start;
        while end < n && s[end] != '\n'
            invariant
                n == s@.len(),
                start <= end <= n,
                forall|i: int| start <= i < end ==> #[trigger] s@[i] != '\n',
            decreases n - end,
        {
            end = end + 1;
        }
        let ghost u = s@.subrange(start as int, n as int);
        proof {
            assert forall|i: int| 0 <= i < end - start implies #[trigger] u[i] != '\n' by {
                assert(u[i] == s@[start + i]);
            }
            lemma_find_nl_is(u, end - start);
        }
        let mut line = slice_chars(s, start, end);
        assert(u.subrange(0, end - start) =~= line@);
        if end < n && line.len() > 0 && line[line.len() - 1] == '\r' {
            line.pop();
        }
        let ghost cur = if end < n { strip_cr(u.subrange(0, end - start)) } else { u };
        assert(end == n ==> u =~= line@);
        assert(line@ =~= cur);
        let ghost rest = if end < n { u.subrange(end - start + 1, u.len() as int) } else { Seq::<char>::empty() };
        assert(lines(u) =~= seq![cur] + lines(rest));
        let ghost before = lines_view(out@);
        out.push(line);
        assert(lines_view(out@) =~= before.push(cur));
        if end == n {
            assert(lines(rest) =~= Seq::<Seq<char>>::empty());
            assert(lines(s@) =~= lines_view(out@));
            return out;
        }
        assert(rest =~= s@.subrange(end + 1, n as int));
        assert(lines(s@) =~= lines_view(out@) + lines(rest));
        start = end + 1;
    }
    assert(s@.subrange(start as int, n as int) =~= Seq::<char>::empty());
    assert(lines(s@) =~= lines_view(out@));
    out
}

/// Index just after the last white space of `t`, or 0 when it holds none.
pub open spec fn after_last_ws(t: Seq<char>) -> int
    decreases t.len(),
{
    if t.len() == 0 {
        0
    } else if is_ws(t.last()) {
        t.len() as int
    } else {
        after_last_ws(t.drop_last())
    }
}

/// The last word of `l`, as `split_whitespace().last()` gives it.
pub open spec fn last_word(l: Seq<char>) -> Option<Seq<char>> {
    let t = trim_end(l);
    if t.len() == 0 { None } else { Some(t.subrange(after_last_ws(t), t.len() as int)) }
}

proof fn lemma_after_last_ws(t: Seq<char>, k: int)
    requires
        0 <= k <= t.len(),
        forall|i: int| k <= i < t.len() ==> !is_ws(#[trigger] t[i]),
        k == 0 || is_ws(t[k - 1]),
    ensures
        after_last_ws(t) == k,
    decreases t.len(),
{
    if t.len() > k {
        assert(!is_ws(t.last()));
        lemma_after_last_ws(t.drop_last(), k);
    }
}

/// The last white-space-separated word of `s`.
pub fn last_word_chars(s: &[char]) -> (r: Option<Vec<char>>)
    ensures
        r matches Some(w) ==> last_word(s@) == Some(w@),
        r is None ==> last_word(s@) is None,
{
    let n = s.len();
    let mut j: usize = n;
    while j > 0 && is_whitespace(s[j - 1])
        invariant
            n == s@.len(),
            j <= n,
            forall|k: int| j <= k < n ==> is_ws(#[trigger] s@[k]),
        decreases j,
    {
        j = j - 1;
    }
    let ghost t = s@.subrange(0, j as int);
    proof {
        lemma_trim_end_cut(s@, j as int);
        if j > 0 {
            assert(!is_ws(t.last()));
        }
        assert(trim_end(t) == t);
    }
    if j == 0 {
        return None;
    }
    let mut k: usize = j;
    while k > 0 && !is_whitespace(s[k - 1])
        invariant
            n == s@.len(),
            k <= j <= n,
            forall|i: int| k <= i < j ==> !is_ws(#[trigger] s@[i]),
        decreases k,
    {
        k = k - 1;
    }
    proof {
        assert forall|i: int| k <= i < t.len() implies !is_ws(#[trigger] t[i]) by {
            assert(t[i] == s@[i]);
        }
        lemma_after_last_ws(t, k as int);
    }
    let mut w: Vec<char> = Vec::new();
    let mut m: usize = k;
    while m < j
        invariant
            n == s@.len(),
            k <= m <= j <= n,
            w@ == s@.subrange(k as int, m as int),
        decreases j - m,
    {
        w.push(s[m]);
        m = m + 1;
        assert(w@ =~= s@.subrange(k as int, m as int));
    }
    assert(t.subrange(k as int, j as int) =~= w@);
    Some(w)
}

/// Whether `c` is an ASCII decimal digit.
pub open spec fn is_digit(c: char) -> bool {
    '0' <= c && c <= '9'
}

/// The value of a string of decimal digits.
pub open spec fn digits_val(d: Seq<char>) -> nat
    decreases d.len(),
{
    if d.len() == 0 {
        0
    } else {
        digits_val(d.drop_last()) * 10 + ((d.last() as int - 48) as nat)
    }
}

/// Whether every character of `d` is a decimal digit.
pub open spec fn all_digits(d: Seq<char>) -> bool {
    forall|i: int| 0 <= i < d.len() ==> is_digit(#[trigger] d[i])
}

/// The digits of an unsigned number: `s` without one leading `+`.
pub open spec fn unsigned_digits(s: Seq<char>) -> Seq<char> {
    if s.len() > 0 && s[0] == '+' { s.drop_first() } else { s }
}

/// What `str::parse` gives for an unsigned type whose largest value is `max`:
/// an optional `+` then at least one decimal digit, and nothing else, of a value
/// at most `max`.
pub open spec fn parse_unsigned(s: Seq<char>, max: nat) -> Option<nat> {
    let d = unsigned_digits(s);
    if d.len() > 0 && all_digits(d) && digits_val(d) <= max { Some(digits_val(d)) } else { None }
}

/// What `str::parse` gives for a signed type of range `-neg_max ..= max`: like
/// the unsigned case, and a leading `-` may stand before the digits instead.
pub open spec fn parse_signed(s: Seq<char>, neg_max: nat, max: nat) -> Option<int> {
    if s.len() > 0 && s[0] == '-' {
        let d = s.drop_first();
        if d.len() > 0 && all_digits(d) && digits_val(d) <= neg_max { Some(-(digits_val(d) as int)) } else { None }
    } else {
        match parse_unsigned(s, max) {
            Some(v) => Some(v as int),
            None => None,
        }
    }
}

pub(crate) proof fn lemma_digit_char(d: nat)
    requires
        d < 10,
    ensures
        is_digit(digit_char(d)),
        digit_char(d) as int - 48 == d,
        digit_char(d) != '+',
{
    let b: u8 = (48 + d) as u8;
    assert(b as int == 48 + d);
}

pub(crate) proof fn lemma_dec_digits(n: nat)
    ensures
        dec(n).len() > 0,
        all_digits(dec(n)),
        digits_val(dec(n)) == n,
        dec(n)[0] != '+',
    decreases n,
{
    if n < 10 {
        lemma_digit_char(n);
        assert(dec(n).drop_last() =~= Seq::<char>::empty());
        assert(digits_val(dec(n)) == digits_val(dec(n).drop_last()) * 10 + ((dec(n).last() as int - 48) as nat));
    } else {
        lemma_dec_digits(n / 10);
        lemma_digit_char(n % 10);
        let d = dec(n);
        assert(d.drop_last() =~= dec(n / 10));
        assert(d.last() == digit_char(n % 10));
        assert(d[0] == dec(n / 10)[0]);
        assert(n == (n / 10) * 10 + n % 10) by (nonlinear_arith);
        assert(digits_val(d) == digits_val(dec(n / 10)) * 10 + ((d.last() as int - 48) as nat));
        assert forall|i: int| 0 <= i < d.len() implies is_digit(#[trigger] d[i]) by {
            if i < d.len() - 1 {
                assert(d[i] == dec(n / 10)[i]);
            }
        }
    }
}

/// Decimal digits read back as the number they were written from.
pub proof fn lemma_parse_dec(n: nat, max: nat)
    requires
        n <= max,
    ensures
        parse_unsigned(dec(n), max) == Some(n),
{
    lemma_dec_digits(n);
}

proof fn lemma_digits_mono(d: Seq<char>, i: int)
    requires
        0 <= i <= d.len(),
        all_digits(d),
    ensures
        digits_val(d) >= digits_val(d.subrange(0, i)),
    decreases d.len() - i,
{
    if i < d.len() {
        assert(d.drop_last().subrange(0, i) =~= d.subrange(0, i));
        assert(all_digits(d.drop_last()));
        lemma_digits_mono(d.drop_last(), i);
        assert(is_digit(d[d.len() - 1]));
    } else {
        assert(d.subrange(0, i) =~= d);
    }
}

/// The value of the digits `s[start..]`, when they are all decimal digits,
/// there is at least one, and the value is at most `max`.
fn parse_digits(s: &[char], start: usize, max: u64) -> (r: Option<u64>)
    requires
        start <= s@.len(),
    ensures
        ({
            let d = s@.subrange(start as int, s@.len() as int);
            &&& r matches Some(v) ==> d.len() > 0 && all_digits(d) && digits_val(d) <= max && v == digits_val(d)
            &&& r is None ==> !(d.len() > 0 && all_digits(d) && digits_val(d) <= max)
        }),
{
    let n = s.len();
    let ghost d = s@.subrange(start as int, n as int);
    if start == n {
        return None;
    }
    let mut acc: u64 = 0;
    let mut i: usize = start;
    while i < n
        invariant
            n == s@.len(),
            start <= i <= n,
            d == s@.subrange(start as int, n as int),
            all_digits(d.subrange(0, i - start)),
            acc == digits_val(d.subrange(0, i - start)),
            acc <= max,
        decreases n - i,
    {
        let c = s[i];
        if !('0' <= c && c <= '9') {
            assert(!is_digit(d[i - start]));
            return None;
        }
        let dig: u64 = ((c as u32) - 48) as u64;
        assert(d.subrange(0, i + 1 - start).drop_last() =~= d.subrange(0, i - start));
        let m = acc.checked_mul(10);
        if m.is_none() {
            proof {
                if all_digits(d) {
                    lemma_digits_mono(d, i + 1 - start);
                }
            }
            return None;
        }
        let m = m.unwrap();
        let a = m.checked_add(dig);
        if a.is_none() || a.unwrap() > max {
            proof {
                if all_digits(d) {
                    lemma_digits_mono(d, i + 1 - start);
                }
            }
            return None;
        }
        acc = a.unwrap();
        i = i + 1;
        assert(all_digits(d.subrange(0, i - start)));
    }
    assert(d.subrange(0, n - start) =~= d);
    Some(acc)
}

/// Parses an unsigned decimal number of at most `max`, as `str::parse` does.
pub fn parse_unsigned_chars(s: &[char], max: u64) -> (r: Option<u64>)
    ensures
        r matches Some(v) ==> parse_unsigned(s@, max as nat) == Some(v as nat),
        r is None ==> parse_unsigned(s@, max as nat) is None,
{
    let start: usize = if s.len() > 0 && s[0] == '+' { 1 } else { 0 };
    assert(s@.subrange(start as int, s@.len() as int) =~= unsigned_digits(s@));
    parse_digits(s, start, max)
}

/// The characters `s[from..to]`.
pub fn slice_chars(s: &[char], from: usize, to: usize) -> (r: Vec<char>)
    requires
        from <= to <= s@.len(),
    ensures
        r@ == s@.subrange(from as int, to as int),
{
    let mut r: Vec<char> = Vec::new();
    let mut k: usize = from;
    while k < to
        invariant
            from <= k <= to <= s@.len(),
            r@ == s@.subrange(from as int, k as int),
        decreases to - k,
    {
        r.push(s[k]);
        k = k + 1;
        assert(r@ =~= s@.subrange(from as int, k as int));
    }
    r
}

/// The message of the error that `str::parse` gives for an unsigned number
/// of at most `max` that it rejects: an empty string; a number that grows
/// past `max` before any character that is not a digit; otherwise a character
/// that is not a digit.
pub open spec fn parse_error_text(s: Seq<char>, max: nat) -> Seq<char> {
    let d = unsigned_digits(s);
    if s.len() == 0 {
        "cannot parse integer from empty string"@
    } else if exists|i: int| 0 <= i <= d.len() && all_digits(#[trigger] d.subrange(0, i)) && digits_val(d.subrange(0, i)) > max {
        "number too large to fit in target type"@
    } else {
        "invalid digit found in string"@
    }
}

/// Parses an unsigned number of at most `max` as `str::parse` does, giving
/// the message of its error when it is rejected.
pub fn parse_unsigned_or_error(s: &[char], max: u64) -> (r: Result<u64, String>)
    ensures
        match r {
            Ok(v) => parse_unsigned(s@, max as nat) == Some(v as nat),
            Err(m) => parse_unsigned(s@, max as nat) is None && m@ == parse_error_text(s@, max as nat),
        },
{
    match parse_unsigned_chars(s, max) {
        Some(v) => {
            return Ok(v);
        },
        None => {},
    }
    if s.len() == 0 {
        return Err(String::from_str("cannot parse integer from empty string"));
    }
    let start: usize = if s[0] == '+' { 1 } else { 0 };
    let ghost d = unsigned_digits(s@);
    assert(s@.subrange(start as int, s@.len() as int) =~= d);
    let mut i: usize = start;
    while i < s.len() && '0' <= s[i] && s[i] <= '9'
        invariant
            start <= i <= s@.len(),
            d == s@.subrange(start as int, s@.len() as int),
            all_digits(d.subrange(0, i - start)),
        decreases s@.len() - i,
    {
        i = i + 1;
        assert(d.subrange(0, i - start).drop_last() =~= d.subrange(0, i - 1 - start));
        assert(all_digits(d.subrange(0, i - start)));
    }
    let k: usize = i - start;
    let prefix = slice_chars(s, start, i);
    assert(prefix@ =~= d.subrange(0, k as int));
    let fits: bool = if k == 0 {
        true
    } else {
        match parse_digits(prefix.as_slice(), 0, max) {
            Some(_) => true,
            None => false,
        }
    };
    proof {
        assert(prefix@.subrange(0, prefix@.len() as int) =~= prefix@);
    }
    if !fits {
        assert(all_digits(d.subrange(0, k as int)) && digits_val(d.subrange(0, k as int)) > max);
        return Err(String::from_str("number too large to fit in target type"));
    }
    proof {
        assert(digits_val(d.subrange(0, k as int)) <= max) by {
            if k == 0 {
                assert(d.subrange(0, 0).len() == 0);
            }
        }
        assert forall|j: int| 0 <= j <= d.len() && all_digits(#[trigger] d.subrange(0, j))
            implies digits_val(d.subrange(0, j)) <= max by {
            if j > k {
                assert(d.subrange(0, j)[k as int] == d[k as int]);
                assert(!is_digit(d[k as int]));
            } else {
                lemma_digits_mono(d.subrange(0, k as int), j);
                assert(d.subrange(0, k as int).subrange(0, j) =~= d.subrange(0, j));
            }
        }
    }
    Err(String::from_str("invalid digit found in string"))
}

/// Parses a `u64`, as `str::parse::<u64>` does.
pub fn parse_u64(s: &[char]) -> (r: Option<u64>)
    ensures
        r matches Some(v) ==> parse_unsigned(s@, u64::MAX as nat) == Some(v as nat),
        r is None ==> parse_unsigned(s@, u64::MAX as nat) is None,
{
    parse_unsigned_chars(s, u64::MAX)
}

/// Parses a `u32`, as `str::parse::<u32>` does.
pub fn parse_u32(s: &[char]) -> (r: Option<u32>)
    ensures
        r matches Some(v) ==> parse_unsigned(s@, u32::MAX as nat) == Some(v as nat),
        r is None ==> parse_unsigned(s@, u32::MAX as nat) is None,
{
    match parse_unsigned_chars(s, u32::MAX as u64) {
        Some(v) => Some(v as u32),
        None => None,
    }
}

/// Parses an `i64`, as `str::parse::<i64>` does.
pub fn parse_i64(s: &[char]) -> (r: Option<i64>)
    ensures
        r matches Some(v) ==> parse_signed(s@, 0x8000_0000_0000_0000, i64::MAX as nat) == Some(v as int),
        r is None ==> parse_signed(s@, 0x8000_0000_0000_0000, i64::MAX as nat) is None,
{
    if s.len() > 0 && s[0] == '-' {
        assert(s@.subrange(1, s@.len() as int) =~= s@.drop_first());
        match parse_digits(s, 1, 0x8000_0000_0000_0000) {
            Some(v) => {
                if v == 0x8000_0000_0000_0000 {
                    Some(i64::MIN)
                } else {
                    Some(-(v as i64))
                }
            },
            None => None,
        }
    } else {
        match parse_unsigned_chars(s, i64::MAX as u64) {
            Some(v) => Some(v as i64),
            None => None,
        }
    }
}

/// Parses an `i32`, as `str::parse::<i32>` does.
pub fn parse_i32(s: &[char]) -> (r: Option<i32>)
    ensures
        r matches Some(v) ==> parse_signed(s@, 0x8000_0000, i32::MAX as nat) == Some(v as int),
        r is None ==> parse_signed(s@, 0x8000_0000, i32::MAX as nat) is None,
{
    if s.len() > 0 && s[0] == '-' {
        assert(s@.subrange(1, s@.len() as int) =~= s@.drop_first());
        match parse_digits(s, 1, 0x8000_0000) {
            Some(v) => {
                if v == 0x8000_0000 {
                    Some(i32::MIN)
                } else {
                    Some(-(v as i32))
                }
            },
            None => None,
        }
    } else {
        match parse_unsigned_chars(s, i32::MAX as u64) {
            Some(v) => Some(v as i32),
            None => None,
        }
    }
}


/// `base` joined with `rel` as `Path::join` does on Unix: an absolute `rel`
/// replaces `base`; otherwise a `/` is put between them unless `base` is empty
/// or already ends with one.
pub open spec fn join_path(base: Seq<char>, rel: Seq<char>) -> Seq<char> {
    if rel.len() > 0 && rel[0] == '/' {
        rel
    } else if base.len() == 0 || base.last() == '/' {
        base + rel
    } else {
        base + "/"@ + rel
    }
}

/// Joins two paths, as `Path::join` does on Unix.
pub fn join_paths(base: &str, rel: &str) -> (r: String)
    ensures
        r@ == join_path(base@, rel@),
{
    let b = to_chars(base);
    let c = to_chars(rel);
    proof { reveal_strlit("/"); }
    if c.len() > 0 && c[0] == '/' {
        String::from_str(rel)
    } else if b.len() == 0 || b[b.len() - 1] == '/' {
        cat(base, rel)
    } else {
        cat3(base, "/", rel)
    }
}

/// Index of the first `c` in `s`, or `s.len()` when there is none.
pub open spec fn find_char(s: Seq<char>, c: char) -> int
    decreases s.len(),
{
    if s.len() == 0 {
        0
    } else if s[0] == c {
        0
    } else {
        1 + find_char(s.drop_first(), c)
    }
}

/// `find_char` points at the first `c`, or past the end when there is none.
pub proof fn lemma_find_char(s: Seq<char>, c: char)
    ensures
        0 <= find_char(s, c) <= s.len(),
        find_char(s, c) < s.len() ==> s[find_char(s, c)] == c,
        forall|i: int| 0 <= i < find_char(s, c) ==> s[i] != c,
    decreases s.len(),
{
    if s.len() > 0 && s[0] != c {
        lemma_find_char(s.drop_first(), c);
        assert forall|i: int| 0 <= i < find_char(s, c) implies s[i] != c by {
            if i > 0 {
                assert(s[i] == s.drop_first()[i - 1]);
            }
        }
    }
}

/// The pieces of `s` between the occurrences of `sep`, as `str::split` with a
/// character gives them: there is always at least one, possibly empty.
pub open spec fn split_at_char(s: Seq<char>, sep: char) -> Seq<Seq<char>>
    decreases s.len(),
{
    let k = find_char(s, sep);
    proof { lemma_find_char(s, sep); }
    if k < s.len() {
        seq![s.subrange(0, k)] + split_at_char(s.subrange(k + 1, s.len() as int), sep)
    } else {
        seq![s]
    }
}

proof fn lemma_find_char_is(s: Seq<char>, c: char, k: int)
    requires
        0 <= k <= s.len(),
        forall|i: int| 0 <= i < k ==> s[i] != c,
        k < s.len() ==> s[k] == c,
    ensures
        find_char(s, c) == k,
    decreases s.len(),
{
    if s.len() > 0 && k > 0 {
        let t = s.drop_first();
        assert forall|i: int| 0 <= i < k - 1 implies t[i] != c by {
            assert(t[i] == s[i + 1]);
        }
        lemma_find_char_is(t, c, k - 1);
    }
}

/// Splits `s` at every `sep`, as `str::split` with a character does.
pub fn split_on(s: &str, sep: char) -> (r: Vec<String>)
    ensures
        strings_view(r@) == split_at_char(s@, sep),
{
    let cs = to_chars(s);
    let n = cs.len();
    let mut out: Vec<String> = Vec::new();
    let mut start: usize = 0;
    assert(cs@.subrange(0, n as int) =~= cs@);
    assert(strings_view(out@) =~= Seq::<Seq<char>>::empty());
    loop
        invariant
            n == cs@.len(),
            cs@ == s@,
            start <= n,
            split_at_char(s@, sep) == strings_view(out@) + split_at_char(cs@.subrange(start as int, n as int), sep),
        decreases n - start,
    {
        let mut end: usize = start;
        while end < n && cs[end] != sep
            invariant
                n == cs@.len(),
                start <= end <= n,
                forall|i: int| start <= i < end ==> #[trigger] cs@[i] != sep,
            decreases n - end,
        {
            end = end + 1;
        }
        let ghost u = cs@.subrange(start as int, n as int);
        proof {
            assert forall|i: int| 0 <= i < end - start implies #[trigger] u[i] != sep by {
                assert(u[i] == cs@[start + i]);
            }
            lemma_find_char_is(u, sep, end - start);
        }
        let piece = from_chars(slice_chars(cs.as_slice(), start, end).as_slice());
        assert(piece@ =~= u.subrange(0, end - start));
        let ghost before = strings_view(out@);
        out.push(piece);
        assert(strings_view(out@) =~= before.push(piece@));
        if end == n {
            assert(u.subrange(0, end - start) =~= u);
            assert(split_at_char(u, sep) =~= seq![u]);
            assert(split_at_char(s@, sep) =~= strings_view(out@));
            return out;
        }
        let ghost rest = u.subrange(end - start + 1, u.len() as int);
        assert(split_at_char(u, sep) =~= seq![u.subrange(0, end - start)] + split_at_char(rest, sep));
        assert(rest =~= cs@.subrange(end + 1, n as int));
        assert(split_at_char(s@, sep) =~= strings_view(out@) + split_at_char(rest, sep));
        start = end + 1;
    }
}

} // verus!
