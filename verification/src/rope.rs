use crate::source::boundary_at;
use crate::unicode::{byte_len, unit_len};
use vstd::prelude::*;

verus! {

/// ropey's text buffer.
#[verifier::external_type_specification]
#[verifier::external_body]
pub struct ExRope(ropey::Rope);

/// The text that a rope holds.
pub uninterp spec fn rope_text(r: ropey::Rope) -> Seq<char>;

/// The characters that break a line: line feed, vertical tab, form feed,
/// carriage return, next line, line separator and paragraph separator.
pub open spec fn is_break_char(c: char) -> bool {
    c == '\n' || c == '\u{0B}' || c == '\u{0C}' || c == '\r' || c == '\u{85}' || c == '\u{2028}'
        || c == '\u{2029}'
}

/// Whether a line ends with character `i` of the text. A carriage return
/// that a line feed follows does not end the line: the line feed does.
pub open spec fn line_ends_at(s: Seq<char>, i: int) -> bool {
    &&& 0 <= i < s.len()
    &&& is_break_char(s[i])
    &&& !(s[i] == '\r' && i + 1 < s.len() && s[i + 1] == '\n')
}

/// How many lines end before character `c`: the index of the line that
/// character `c` is in.
pub open spec fn breaks_before(s: Seq<char>, c: nat) -> nat
    decreases c,
{
    if c == 0 {
        0
    } else {
        breaks_before(s, (c - 1) as nat) + if line_ends_at(s, c - 1) {
            1nat
        } else {
            0nat
        }
    }
}

/// How many lines a text has: one more than it has line ends.
pub open spec fn line_count(s: Seq<char>) -> nat {
    breaks_before(s, s.len()) + 1
}

/// Where the line begins that is `l` lines further on than the line that
/// begins at `from`; the end of the text where there is no such line.
pub open spec fn line_start_from(s: Seq<char>, l: nat, from: nat) -> nat
    decreases s.len() - from,
{
    if l == 0 {
        from
    } else if from >= s.len() {
        s.len()
    } else if line_ends_at(s, from as int) {
        line_start_from(s, (l - 1) as nat, from + 1)
    } else {
        line_start_from(s, l, from + 1)
    }
}

/// The index of the first character of line `l`; the length of the text
/// for the line behind the last.
pub open spec fn line_start(s: Seq<char>, l: nat) -> nat {
    line_start_from(s, l, 0)
}

/// The character that byte `b` of the text belongs to: the longest prefix
/// of the text that takes no more than `b` bytes.
pub open spec fn char_of_byte(s: Seq<char>, b: nat) -> nat
    decreases s.len(),
{
    if s.len() == 0 || byte_len(s) <= b {
        s.len()
    } else {
        char_of_byte(s.drop_last(), b)
    }
}

/// The character that UTF-16 code unit `u` of the text belongs to: the
/// longest prefix of the text that takes no more than `u` code units.
pub open spec fn char_of_unit(s: Seq<char>, u: nat) -> nat
    decreases s.len(),
{
    if s.len() == 0 || unit_len(s) <= u {
        s.len()
    } else {
        char_of_unit(s.drop_last(), u)
    }
}

/// `Rope::from_str`: a rope that holds the given text.
#[verifier::external_body]
pub(crate) fn rope_from_str(text: &str) -> (rope: ropey::Rope)
    ensures
        rope_text(rope) == text@,
{
    ropey::Rope::from_str(text)
}

/// `Rope::clone`: a rope that holds the same text.
#[verifier::external_body]
pub(crate) fn rope_clone(rope: &ropey::Rope) -> (copy: ropey::Rope)
    ensures
        rope_text(copy) == rope_text(*rope),
{
    rope.clone()
}

/// `Rope::len_bytes`: the length of the text in bytes.
#[verifier::external_body]
pub(crate) fn rope_len_bytes(rope: &ropey::Rope) -> (n: usize)
    ensures
        n == byte_len(rope_text(*rope)),
{
    rope.len_bytes()
}

/// `Rope::len_lines`: one more than the number of line breaks, as ropey
/// counts them with its default features: the seven breaking characters,
/// and a carriage return with a line feed as one break.
#[verifier::external_body]
pub(crate) fn rope_len_lines(rope: &ropey::Rope) -> (n: usize)
    ensures
        n == line_count(rope_text(*rope)),
{
    rope.len_lines()
}

/// `Rope::len_utf16_cu`: the length of the text in UTF-16 code units.
#[verifier::external_body]
pub(crate) fn rope_len_utf16_cu(rope: &ropey::Rope) -> (n: usize)
    ensures
        n == unit_len(rope_text(*rope)),
{
    rope.len_utf16_cu()
}

/// `Rope::line_to_char`: the index of the first character of a line, and
/// the length of the text for the line behind the last. It panics for a
/// line further on.
#[verifier::external_body]
pub(crate) fn rope_line_to_char(rope: &ropey::Rope, line: usize) -> (c: usize)
    requires
        line <= line_count(rope_text(*rope)),
    ensures
        c == line_start(rope_text(*rope), line as nat),
{
    rope.line_to_char(line)
}

/// `Rope::char_to_utf16_cu`: the code units that the characters before
/// the given one take. It panics for an index beyond the text.
#[verifier::external_body]
pub(crate) fn rope_char_to_utf16_cu(rope: &ropey::Rope, c: usize) -> (u: usize)
    requires
        c <= rope_text(*rope).len(),
    ensures
        u == unit_len(rope_text(*rope).take(c as int)),
{
    rope.char_to_utf16_cu(c)
}

/// `Rope::utf16_cu_to_char`: the character that a code unit belongs to,
/// the length of the text for the unit behind the last. It panics for an
/// index beyond that.
#[verifier::external_body]
pub(crate) fn rope_utf16_cu_to_char(rope: &ropey::Rope, u: usize) -> (c: usize)
    requires
        u <= unit_len(rope_text(*rope)),
    ensures
        c == char_of_unit(rope_text(*rope), u as nat),
{
    rope.utf16_cu_to_char(u)
}

/// `Rope::char_to_byte`: the bytes that the characters before the given
/// one take. It panics for an index beyond the text.
#[verifier::external_body]
pub(crate) fn rope_char_to_byte(rope: &ropey::Rope, c: usize) -> (b: usize)
    requires
        c <= rope_text(*rope).len(),
    ensures
        b == byte_len(rope_text(*rope).take(c as int)),
{
    rope.char_to_byte(c)
}

/// `Rope::byte_to_char`: the character that a byte belongs to, the length
/// of the text for the byte behind the last. It panics for an index beyond
/// that.
#[verifier::external_body]
pub(crate) fn rope_byte_to_char(rope: &ropey::Rope, b: usize) -> (c: usize)
    requires
        b <= byte_len(rope_text(*rope)),
    ensures
        c == char_of_byte(rope_text(*rope), b as nat),
{
    rope.byte_to_char(b)
}

/// `Rope::byte_to_line`: the line of the character that a byte belongs
/// to, which is the number of lines that end before that character. It
/// panics for an index beyond the byte behind the last.
#[verifier::external_body]
pub(crate) fn rope_byte_to_line(rope: &ropey::Rope, b: usize) -> (line: usize)
    requires
        b <= byte_len(rope_text(*rope)),
    ensures
        line == breaks_before(rope_text(*rope), char_of_byte(rope_text(*rope), b as nat)),
{
    rope.byte_to_line(b)
}

/// `Rope::remove`: takes the characters of a range out of the text. It
/// panics where the range ends before it starts or beyond the text.
#[verifier::external_body]
pub(crate) fn rope_remove(rope: &mut ropey::Rope, start: usize, end: usize)
    requires
        start <= end <= rope_text(*old(rope)).len(),
    ensures
        rope_text(*final(rope)) == rope_text(*old(rope)).take(start as int) + rope_text(
            *old(rope),
        ).skip(end as int),
{
    rope.remove(start..end)
}

/// `Rope::insert`: puts a text in front of the character with the given
/// index. It panics for an index beyond the text.
#[verifier::external_body]
pub(crate) fn rope_insert(rope: &mut ropey::Rope, at: usize, text: &str)
    requires
        at <= rope_text(*old(rope)).len(),
    ensures
        rope_text(*final(rope)) == rope_text(*old(rope)).take(at as int) + text@ + rope_text(
            *old(rope),
        ).skip(at as int),
{
    rope.insert(at, text)
}

/// ropey's view of a part of a rope.
#[verifier::external_type_specification]
#[verifier::external_body]
pub struct ExRopeSlice<'a>(ropey::RopeSlice<'a>);

/// ropey's iterator over the characters of a rope.
#[verifier::external_type_specification]
#[verifier::external_body]
pub struct ExRopeChars<'a>(ropey::iter::Chars<'a>);

/// The text that a slice of a rope covers.
pub uninterp spec fn rope_slice_text(s: ropey::RopeSlice) -> Seq<char>;

/// The characters that an iterator over a rope has yet to give, in the
/// order in which it gives them.
pub uninterp spec fn rope_chars_rest(it: ropey::iter::Chars) -> Seq<char>;

/// `Rope::slice` with the full range: a slice that covers the whole text.
#[verifier::external_body]
pub(crate) fn rope_slice_all<'a>(rope: &'a ropey::Rope) -> (slice: ropey::RopeSlice<'a>)
    ensures
        rope_slice_text(slice) == rope_text(*rope),
{
    rope.slice(..)
}

/// `RopeSlice::len_bytes`: the length of the slice's text in bytes.
#[verifier::external_body]
pub(crate) fn rope_slice_len_bytes(slice: &ropey::RopeSlice) -> (n: usize)
    ensures
        n == byte_len(rope_slice_text(*slice)),
{
    slice.len_bytes()
}

/// `RopeSlice::chars`: an iterator that gives the characters of the
/// slice from the first on.
#[verifier::external_body]
pub(crate) fn rope_slice_chars<'a>(slice: &ropey::RopeSlice<'a>) -> (it: ropey::iter::Chars<'a>)
    ensures
        rope_chars_rest(it) == rope_slice_text(*slice),
{
    slice.chars()
}

/// `Chars::next`: gives the first of the characters that are left, or
/// `None` when none is.
#[verifier::external_body]
pub(crate) fn rope_chars_next(it: &mut ropey::iter::Chars) -> (c: Option<char>)
    ensures
        rope_chars_rest(*old(it)).len() == 0 ==> c is None && rope_chars_rest(*final(it))
            == rope_chars_rest(*old(it)),
        rope_chars_rest(*old(it)).len() > 0 ==> c == Some(rope_chars_rest(*old(it))[0])
            && rope_chars_rest(*final(it)) == rope_chars_rest(*old(it)).drop_first(),
{
    it.next()
}

/// `RopeSlice::byte_slice`, and the conversion of what it gives into a
/// `String`. The slice panics unless both ends of the range fall on
/// character boundaries, in order and within the text; the result is then
/// the characters between the two boundaries.
#[verifier::external_body]
pub(crate) fn rope_slice_bytes(slice: &ropey::RopeSlice, start: usize, end: usize) -> (text: String)
    requires
        exists|i: int, j: int|
            i <= j && #[trigger] boundary_at(rope_slice_text(*slice), i, start as int)
                && #[trigger] boundary_at(rope_slice_text(*slice), j, end as int),
    ensures
        forall|i: int, j: int|
            i <= j && #[trigger] boundary_at(rope_slice_text(*slice), i, start as int)
                && #[trigger] boundary_at(rope_slice_text(*slice), j, end as int) ==> text@
                == rope_slice_text(*slice).subrange(i, j),
{
    String::from(slice.byte_slice(start..end))
}

} // verus!
