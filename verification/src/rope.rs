//! The rope that holds a code editor's text, seen as a sequence of characters, and the rope's
//! line structure: a line ends at LF, VT, FF, CR, NEL, LS or PS, and CR LF counts as one break.
use vstd::prelude::*;

verus! {

#[verifier::external_type_specification]
#[verifier::external_body]
pub struct ExRope(ropey::Rope);

#[verifier::external_type_specification]
#[verifier::external_body]
pub struct ExRopeSlice<'a>(ropey::RopeSlice<'a>);

/// The characters a rope holds, in order.
pub uninterp spec fn rope_chars(r: ropey::Rope) -> Seq<char>;

/// The characters a rope slice holds, in order.
pub uninterp spec fn slice_chars(s: ropey::RopeSlice<'_>) -> Seq<char>;

/// Whether a character ends a line: LF, VT, FF, CR, NEL, LS or PS.
pub open spec fn is_line_break(c: char) -> bool {
    c == '\n' || c == '\u{0B}' || c == '\u{0C}' || c == '\r' || c == '\u{85}' || c == '\u{2028}'
        || c == '\u{2029}'
}

/// The positions right after each line break of `text`, in order. A CR directly followed by an
/// LF is one break, which ends after the LF.
pub open spec fn line_break_ends(text: Seq<char>) -> Seq<int>
    decreases text.len(),
{
    if text.len() == 0 {
        Seq::empty()
    } else {
        let before = line_break_ends(text.drop_last());
        if text.last() == '\n' && text.len() >= 2 && text[text.len() - 2] == '\r' {
            before.update(before.len() - 1, text.len() as int)
        } else if is_line_break(text.last()) {
            before.push(text.len() as int)
        } else {
            before
        }
    }
}

/// How many of the positions `ends` are at most `idx`.
pub open spec fn breaks_up_to(ends: Seq<int>, idx: int) -> int
    decreases ends.len(),
{
    if ends.len() == 0 {
        0
    } else {
        breaks_up_to(ends.drop_last(), idx) + if ends.last() <= idx {
            1int
        } else {
            0int
        }
    }
}

/// The number of lines of a text (`Rope::len_lines`): one more than its line breaks.
pub open spec fn rope_line_count(text: Seq<char>) -> int {
    line_break_ends(text).len() + 1int
}

/// The line that holds character position `idx` (`Rope::char_to_line`): the number of line
/// breaks that end at or before `idx`.
pub open spec fn rope_line_of(text: Seq<char>, idx: int) -> int {
    breaks_up_to(line_break_ends(text), idx)
}

/// The character position where line `line` starts (`Rope::line_to_char`): 0 for the first
/// line, right after the previous line break for the others, and the end of the text one past
/// the last line.
pub open spec fn rope_line_start(text: Seq<char>, line: int) -> int {
    let ends = line_break_ends(text);
    if line <= 0 {
        0
    } else if line <= ends.len() {
        ends[line - 1]
    } else {
        text.len() as int
    }
}

/// The line breaks of a text end at increasing positions within the text.
pub proof fn lemma_break_ends_sorted(text: Seq<char>)
    ensures
        forall|i: int, j: int|
            0 <= i < j < line_break_ends(text).len() ==> #[trigger] line_break_ends(text)[i]
                < #[trigger] line_break_ends(text)[j],
        forall|i: int|
            0 <= i < line_break_ends(text).len() ==> 1 <= #[trigger] line_break_ends(text)[i]
                <= text.len(),
    decreases text.len(),
{
    if text.len() > 0 {
        let t = text.drop_last();
        lemma_break_ends_sorted(t);
        let before = line_break_ends(t);
        if text.last() == '\n' && text.len() >= 2 && text[text.len() - 2] == '\r' {
            assert(t.last() == '\r');
            let tt = t.drop_last();
            assert(before == line_break_ends(tt).push(t.len() as int));
            assert(before.len() > 0 && before.last() == t.len());
        }
    }
}

/// Counting the breaks at or before `idx` among increasing positions gives a prefix: the
/// first `m` end at or before `idx`, the others after it.
proof fn lemma_breaks_up_to(ends: Seq<int>, idx: int)
    requires
        forall|i: int, j: int| 0 <= i < j < ends.len() ==> #[trigger] ends[i] < #[trigger] ends[j],
    ensures
        0 <= breaks_up_to(ends, idx) <= ends.len(),
        breaks_up_to(ends, idx) > 0 ==> ends[breaks_up_to(ends, idx) - 1] <= idx,
        breaks_up_to(ends, idx) < ends.len() ==> ends[breaks_up_to(ends, idx)] > idx,
    decreases ends.len(),
{
    if ends.len() > 0 {
        let front = ends.drop_last();
        lemma_breaks_up_to(front, idx);
        let m = breaks_up_to(front, idx);
        if ends.last() <= idx && m < front.len() {
            assert(ends[m] < ends[ends.len() - 1]);
        }
    }
}

/// The facts about a text's lines that positions rely on: line starts lie within the text and
/// increase, and the line that holds a position starts at or before it.
pub proof fn lemma_line_facts(text: Seq<char>)
    ensures
        rope_line_count(text) >= 1,
        rope_line_start(text, 0) == 0,
        rope_line_start(text, rope_line_count(text)) == text.len(),
        forall|l: int| 0 <= l <= rope_line_count(text) ==> 0 <= #[trigger] rope_line_start(text, l) <= text.len(),
        forall|a: int, b: int|
            0 <= a <= b <= rope_line_count(text) ==> #[trigger] rope_line_start(text, a)
                <= #[trigger] rope_line_start(text, b),
        forall|c: int|
            0 <= c <= text.len() ==> 0 <= #[trigger] rope_line_of(text, c) < rope_line_count(text)
                && rope_line_start(text, rope_line_of(text, c)) <= c,
{
    let ends = line_break_ends(text);
    lemma_break_ends_sorted(text);
    assert forall|a: int, b: int|
        0 <= a <= b <= rope_line_count(text) implies #[trigger] rope_line_start(text, a)
            <= #[trigger] rope_line_start(text, b) by {
        if 0 < a && a < b && b <= ends.len() {
            assert(ends[a - 1] < ends[b - 1]);
        }
    }
    assert forall|c: int|
        0 <= c <= text.len() implies 0 <= #[trigger] rope_line_of(text, c) < rope_line_count(text)
            && rope_line_start(text, rope_line_of(text, c)) <= c by {
        lemma_breaks_up_to(ends, c);
    }
}

/// The characters of line `line`, its line break included.
pub open spec fn line_chars(text: Seq<char>, line: int) -> Seq<char> {
    text.subrange(rope_line_start(text, line), rope_line_start(text, line + 1))
}

/// `ropey::Rope::new`: an empty rope.
#[verifier::external_body]
pub(crate) fn rope_new() -> (r: ropey::Rope)
    ensures
        rope_chars(r) == Seq::<char>::empty(),
{
    ropey::Rope::new()
}

/// `ropey::Rope::from_str`: a rope holding the characters of `s`.
#[verifier::external_body]
pub(crate) fn rope_from_str(s: &str) -> (r: ropey::Rope)
    ensures
        rope_chars(r) == s@,
{
    ropey::Rope::from_str(s)
}

/// `Rope::clone`: a rope with the same characters.
#[verifier::external_body]
pub(crate) fn rope_clone(r: &ropey::Rope) -> (c: ropey::Rope)
    ensures
        rope_chars(c) == rope_chars(*r),
{
    r.clone()
}

/// `Rope == Rope`: whether the two ropes hold the same characters.
#[verifier::external_body]
pub(crate) fn rope_eq(a: &ropey::Rope, b: &ropey::Rope) -> (r: bool)
    ensures
        r == (rope_chars(*a) == rope_chars(*b)),
{
    a == b
}

/// `Rope::len_chars`: the number of characters.
#[verifier::external_body]
pub(crate) fn rope_len_chars(r: &ropey::Rope) -> (n: usize)
    ensures
        n == rope_chars(*r).len(),
{
    r.len_chars()
}

/// `Rope::len_lines`: the number of lines, at least one; the position one past the last line
/// is the end of the text.
#[verifier::external_body]
pub(crate) fn rope_len_lines(r: &ropey::Rope) -> (n: usize)
    ensures
        n == rope_line_count(rope_chars(*r)),
        n >= 1,
        rope_line_start(rope_chars(*r), n as int) == rope_chars(*r).len(),
{
    r.len_lines()
}

/// `Rope::char_to_line`: the line that holds position `idx` (which may be the end of the text).
/// That line exists and starts at or before `idx`.
#[verifier::external_body]
pub(crate) fn rope_char_to_line(r: &ropey::Rope, idx: usize) -> (line: usize)
    requires
        idx <= rope_chars(*r).len(),
    ensures
        line == rope_line_of(rope_chars(*r), idx as int),
        line < rope_line_count(rope_chars(*r)),
        rope_line_start(rope_chars(*r), line as int) <= idx,
{
    r.char_to_line(idx)
}

/// `Rope::line_to_char`: where line `line` starts (one past the last line: the end).
#[verifier::external_body]
pub(crate) fn rope_line_to_char(r: &ropey::Rope, line: usize) -> (idx: usize)
    requires
        line <= rope_line_count(rope_chars(*r)),
    ensures
        idx == rope_line_start(rope_chars(*r), line as int),
        idx <= rope_chars(*r).len(),
{
    r.line_to_char(line)
}

/// `Rope::line`: line `line`, from its start up to the start of the next line.
#[verifier::external_body]
pub(crate) fn rope_line<'a>(r: &'a ropey::Rope, line: usize) -> (s: ropey::RopeSlice<'a>)
    requires
        line < rope_line_count(rope_chars(*r)),
    ensures
        slice_chars(s).len() == rope_line_start(rope_chars(*r), line + 1) - rope_line_start(
            rope_chars(*r),
            line as int,
        ),
        rope_line_start(rope_chars(*r), line as int) + slice_chars(s).len() <= rope_chars(*r).len(),
        slice_chars(s) == line_chars(rope_chars(*r), line as int),
{
    r.line(line)
}

/// `Rope::slice`: the characters at positions `lo..hi`.
#[verifier::external_body]
pub(crate) fn rope_slice<'a>(r: &'a ropey::Rope, lo: usize, hi: usize) -> (s: ropey::RopeSlice<'a>)
    requires
        lo <= hi <= rope_chars(*r).len(),
    ensures
        slice_chars(s) == rope_chars(*r).subrange(lo as int, hi as int),
{
    r.slice(lo..hi)
}

/// `RopeSlice::len_chars`: the number of characters of the slice.
#[verifier::external_body]
pub(crate) fn slice_len_chars(s: &ropey::RopeSlice<'_>) -> (n: usize)
    ensures
        n == slice_chars(*s).len(),
{
    s.len_chars()
}

/// The slice's characters as a string (its `Display`).
#[verifier::external_body]
pub(crate) fn slice_to_string(s: &ropey::RopeSlice<'_>) -> (t: String)
    ensures
        t@ == slice_chars(*s),
{
    s.to_string()
}

/// The rope's characters as a string (`String::from(&Rope)`).
#[verifier::external_body]
pub(crate) fn rope_to_string(r: &ropey::Rope) -> (t: String)
    ensures
        t@ == rope_chars(*r),
{
    String::from(r)
}

/// `Rope::insert`: puts `s` at position `idx`.
#[verifier::external_body]
pub(crate) fn rope_insert(r: &mut ropey::Rope, idx: usize, s: &str)
    requires
        idx <= rope_chars(*old(r)).len(),
    ensures
        rope_chars(*final(r)) == rope_chars(*old(r)).take(idx as int) + s@ + rope_chars(
            *old(r),
        ).skip(idx as int),
{
    r.insert(idx, s)
}

/// `Rope::insert_char`: puts `c` at position `idx`.
#[verifier::external_body]
pub(crate) fn rope_insert_char(r: &mut ropey::Rope, idx: usize, c: char)
    requires
        idx <= rope_chars(*old(r)).len(),
    ensures
        rope_chars(*final(r)) == rope_chars(*old(r)).insert(idx as int, c),
{
    r.insert_char(idx, c)
}

/// `Rope::remove`: cuts out the positions `lo..hi`.
#[verifier::external_body]
pub(crate) fn rope_remove(r: &mut ropey::Rope, lo: usize, hi: usize)
    requires
        lo <= hi <= rope_chars(*old(r)).len(),
    ensures
        rope_chars(*final(r)) == rope_chars(*old(r)).take(lo as int) + rope_chars(*old(r)).skip(
            hi as int,
        ),
{
    r.remove(lo..hi)
}

} // verus!
