//! Small text helpers over `String` and `&str`, stated over `Seq<char>`.

use vstd::prelude::*;
use vstd::string::{StrSliceExecFns, StringExecFns};

verus! {

/// The views of a sequence of strings.
pub open spec fn texts(v: Seq<String>) -> Seq<Seq<char>> {
    Seq::new(v.len(), |i: int| v[i]@)
}

/// `s` begins with `prefix`.
pub open spec fn has_prefix(s: Seq<char>, prefix: Seq<char>) -> bool {
    prefix.len() <= s.len() && s.subrange(0, prefix.len() as int) == prefix
}

/// Copies a string.
pub fn copy_text(s: &str) -> (res: String)
    ensures
        res@ == s@,
{
    String::from_str(s)
}

/// Copies a list of strings, element by element.
pub fn copy_texts(v: &Vec<String>) -> (res: Vec<String>)
    ensures
        texts(res@) == texts(v@),
{
    let mut out: Vec<String> = Vec::new();
    let mut i: usize = 0;
    while i < v.len()
        invariant
            i <= v.len(),
            out.len() == i,
            forall|j: int| 0 <= j < i ==> out[j]@ == v[j]@,
        decreases v.len() - i,
    {
        out.push(copy_text(v[i].as_str()));
        i = i + 1;
    }
    assert(texts(out@) =~= texts(v@));
    out
}

/// The views of a sequence of string slices.
pub open spec fn slice_texts(v: Seq<&str>) -> Seq<Seq<char>> {
    Seq::new(v.len(), |i: int| v[i]@)
}

/// Whether two strings hold the same text.
pub fn same_text(a: &str, b: &str) -> (same: bool)
    ensures
        same == (a@ == b@),
{
    a.to_owned() == b.to_owned()
}

/// Whether `s` begins with `prefix`.
pub fn starts_with(s: &str, prefix: &str) -> (b: bool)
    ensures
        b == has_prefix(s@, prefix@),
{
    let n = prefix.unicode_len();
    if s.unicode_len() < n {
        return false;
    }
    let mut i: usize = 0;
    while i < n
        invariant
            i <= n,
            n == prefix@.len(),
            n <= s@.len(),
            forall|j: int| 0 <= j < i ==> s@[j] == prefix@[j],
        decreases n - i,
    {
        if s.get_char(i) != prefix.get_char(i) {
            assert(s@.subrange(0, n as int)[i as int] != prefix@[i as int]);
            return false;
        }
        i = i + 1;
    }
    assert(s@.subrange(0, n as int) =~= prefix@);
    true
}

/// The text of `s` behind its first `n` characters; nothing where `s` has no
/// more than `n`.
pub open spec fn spec_text_after(s: Seq<char>, n: nat) -> Seq<char> {
    if n <= s.len() {
        s.skip(n as int)
    } else {
        Seq::empty()
    }
}

/// The text of `s` behind its first `n` characters.
pub fn text_after(s: &str, n: usize) -> (rest: String)
    ensures
        rest@ == spec_text_after(s@, n as nat),
{
    let len = s.unicode_len();
    if n > len {
        return String::new();
    }
    let rest = s.substring_char(n, len);
    assert(s@.subrange(n as int, len as int) =~= s@.skip(n as int));
    copy_text(rest)
}

/// The place of the first line feed in `s`, or the length of `s` where it
/// holds none.
pub open spec fn first_line_feed(s: Seq<char>) -> int
    decreases s.len(),
{
    if s.len() == 0 {
        0
    } else if s[0] == '\n' {
        0
    } else {
        1 + first_line_feed(s.drop_first())
    }
}

/// A line without the carriage return that stood before its line feed.
pub open spec fn without_carriage_return(line: Seq<char>) -> Seq<char> {
    if line.len() > 0 && line.last() == '\r' {
        line.drop_last()
    } else {
        line
    }
}

/// The lines of a text. A line ends at a line feed, or at a carriage return
/// that a line feed follows; neither belongs to the line. What stands behind
/// the last line feed is a line too, as it is, unless it is empty.
pub open spec fn spec_lines(s: Seq<char>) -> Seq<Seq<char>>
    decreases s.len(),
{
    let i = first_line_feed(s);
    if s.len() == 0 {
        Seq::empty()
    } else if 0 <= i < s.len() {
        seq![without_carriage_return(s.take(i))] + spec_lines(s.skip(i + 1))
    } else {
        seq![s]
    }
}

/// The lines of a text, as `str::lines` of the standard library gives them:
/// split at each line feed, a carriage return before it taken off, and no
/// empty line for a text that ends in a line feed.
#[verifier::external_body]
pub(crate) fn split_lines<'a>(s: &'a str) -> (lines: Vec<&'a str>)
    ensures
        slice_texts(lines@) == spec_lines(s@),
{
    s.lines().collect()
}

/// The escape character, which opens a terminal control sequence.
pub open spec fn escape_char() -> char {
    '\u{1b}'
}

/// Whether `s` holds the escape character.
pub fn holds_escape(s: &str) -> (found: bool)
    ensures
        found == s@.contains(escape_char()),
{
    broadcast use vstd::string::group_string_axioms;

    let mut found = false;
    for c in it: s.chars()
        invariant
            it.seq() == s@,
            found ==> s@.contains(escape_char()),
            !found ==> forall|j: int| 0 <= j < it.index() ==> s@[j] != escape_char(),
    {
        assert(c == s@[it.index()]);
        if c == '\u{1b}' {
            found = true;
        }
    }
    found
}

/// The first line feed of a text lies within the text, or the place named
/// is its length.
pub proof fn lemma_first_line_feed_bounds(s: Seq<char>)
    ensures
        0 <= first_line_feed(s) <= s.len(),
    decreases s.len(),
{
    if s.len() > 0 && s[0] != '\n' {
        lemma_first_line_feed_bounds(s.drop_first());
    }
}

/// Every character of a line of a text is a character of the text.
pub proof fn lemma_line_chars_in_text(s: Seq<char>, k: int, j: int)
    requires
        0 <= k < spec_lines(s).len(),
        0 <= j < spec_lines(s)[k].len(),
    ensures
        s.contains(spec_lines(s)[k][j]),
    decreases s.len(),
{
    let i = first_line_feed(s);
    lemma_first_line_feed_bounds(s);
    if s.len() == 0 {
    } else if i < s.len() {
        let head = without_carriage_return(s.take(i));
        if k == 0 {
            assert(head[j] == s[j]);
        } else {
            let rest = s.skip(i + 1);
            assert(spec_lines(s)[k] == spec_lines(rest)[k - 1]);
            lemma_line_chars_in_text(rest, k - 1, j);
            let c = spec_lines(rest)[k - 1][j];
            let m = choose|m: int| 0 <= m < rest.len() && rest[m] == c;
            assert(s[i + 1 + m] == c);
        }
    } else {
        assert(spec_lines(s)[k][j] == s[j]);
    }
}

} // verus!
