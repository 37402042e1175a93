use crate::rope::{
    breaks_before, char_of_byte, char_of_unit, line_count, line_ends_at, line_start,
    line_start_from, rope_byte_to_char, rope_byte_to_line, rope_char_to_byte,
    rope_char_to_utf16_cu, rope_len_lines, rope_len_utf16_cu, rope_line_to_char, rope_text,
    rope_utf16_cu_to_char,
};
use crate::unicode::{
    byte_len, char_units, lemma_byte_len_push, lemma_unit_len_concat, unit_len,
};
use vstd::prelude::*;

verus! {

/// A place in a text as an editor names it: a line, and a column counted
/// in UTF-16 code units.
#[derive(Debug, Clone, Copy, PartialEq, Eq, Structural)]
pub struct Position {
    pub line: u32,
    pub character: u32,
}

/// The code unit of the text that a position names.
pub open spec fn position_unit(text: Seq<char>, pos: Position) -> nat {
    unit_len(text.take(line_start(text, pos.line as nat) as int)) + pos.character as nat
}

/// Whether a position names a place of the text: a line that the text has
/// (or the line behind the last), and a code unit within the text.
pub open spec fn position_valid(text: Seq<char>, pos: Position) -> bool {
    pos.line <= line_count(text) && position_unit(text, pos) <= unit_len(text)
}

/// The character that a position names: the one that its code unit
/// belongs to.
pub open spec fn position_char(text: Seq<char>, pos: Position) -> nat {
    char_of_unit(text, position_unit(text, pos))
}

/// The byte at which the character starts that a position names.
pub open spec fn position_byte(text: Seq<char>, pos: Position) -> nat {
    byte_len(text.take(position_char(text, pos) as int))
}

/// The position of the character that a byte belongs to: its line, and the
/// code units between the start of that line and the character.
pub open spec fn byte_position(text: Seq<char>, byte: nat) -> (nat, int) {
    let c = char_of_byte(text, byte);
    let line = breaks_before(text, c);
    (line, unit_len(text.take(c as int)) - unit_len(text.take(line_start(text, line) as int)))
}

pub proof fn lemma_unit_len_take(s: Seq<char>, i: int, j: int)
    requires
        0 <= i <= j <= s.len(),
    ensures
        unit_len(s.take(i)) + unit_len(s.subrange(i, j)) == unit_len(s.take(j)),
        unit_len(s.take(i)) <= unit_len(s.take(j)),
        unit_len(s.take(j)) <= unit_len(s),
        i < j ==> unit_len(s.take(i)) < unit_len(s.take(j)),
{
    assert(s.take(j) =~= s.take(i) + s.subrange(i, j));
    lemma_unit_len_concat(s.take(i), s.subrange(i, j));
    assert(s =~= s.take(j) + s.skip(j));
    lemma_unit_len_concat(s.take(j), s.skip(j));
    if i < j {
        let part = s.subrange(i, j);
        assert(unit_len(part) == unit_len(part.drop_last()) + char_units(part.last()));
    }
}

pub proof fn lemma_byte_len_take(s: Seq<char>, i: int, j: int)
    requires
        0 <= i <= j <= s.len(),
    ensures
        byte_len(s.take(i)) <= byte_len(s.take(j)),
        byte_len(s.take(j)) <= byte_len(s),
        i < j ==> byte_len(s.take(i)) < byte_len(s.take(j)),
    decreases j - i,
{
    crate::unicode::lemma_byte_len_take_mono(s, i, j);
    if i < j {
        assert(s.take(j) =~= s.take(j - 1).push(s[j - 1]));
        lemma_byte_len_push(s.take(j - 1), s[j - 1]);
        lemma_byte_len_take(s, i, j - 1);
    }
}

/// The character of a byte is the last one that starts at or before it.
pub proof fn lemma_char_of_byte(s: Seq<char>, b: nat)
    ensures
        char_of_byte(s, b) <= s.len(),
        byte_len(s.take(char_of_byte(s, b) as int)) <= b || char_of_byte(s, b) == 0,
        forall|i: int|
            0 <= i <= s.len() && byte_len(s.take(i)) <= b ==> i <= char_of_byte(s, b),
    decreases s.len(),
{
    if s.len() == 0 || byte_len(s) <= b {
        assert(s.take(s.len() as int) =~= s);
    } else {
        let t = s.drop_last();
        lemma_char_of_byte(t, b);
        let c = char_of_byte(t, b);
        assert(t.take(c as int) =~= s.take(c as int));
        assert forall|i: int| 0 <= i <= s.len() && byte_len(s.take(i)) <= b implies i
            <= char_of_byte(s, b) by {
            if i == s.len() {
                assert(s.take(i) =~= s);
            } else {
                assert(t.take(i) =~= s.take(i));
            }
        }
    }
}

/// A byte at which a character starts belongs to that character.
pub proof fn lemma_char_of_boundary(s: Seq<char>, i: int)
    requires
        0 <= i <= s.len(),
    ensures
        char_of_byte(s, byte_len(s.take(i))) == i,
{
    let b = byte_len(s.take(i));
    lemma_char_of_byte(s, b);
    let c = char_of_byte(s, b);
    if c > i {
        lemma_byte_len_take(s, i, c as int);
        crate::unicode::lemma_byte_len_empty();
        assert(s.take(0) =~= Seq::<char>::empty());
    }
}

/// The character of a code unit is the last one that starts at or before it.
pub proof fn lemma_char_of_unit(s: Seq<char>, u: nat)
    ensures
        char_of_unit(s, u) <= s.len(),
        unit_len(s.take(char_of_unit(s, u) as int)) <= u || char_of_unit(s, u) == 0,
        forall|i: int|
            0 <= i <= s.len() && unit_len(s.take(i)) <= u ==> i <= char_of_unit(s, u),
    decreases s.len(),
{
    if s.len() == 0 || unit_len(s) <= u {
        assert(s.take(s.len() as int) =~= s);
    } else {
        let t = s.drop_last();
        lemma_char_of_unit(t, u);
        let c = char_of_unit(t, u);
        assert(t.take(c as int) =~= s.take(c as int));
        assert forall|i: int| 0 <= i <= s.len() && unit_len(s.take(i)) <= u implies i
            <= char_of_unit(s, u) by {
            if i == s.len() {
                assert(s.take(i) =~= s);
            } else {
                assert(t.take(i) =~= s.take(i));
            }
        }
    }
}

/// A code unit at which a character starts belongs to that character.
pub proof fn lemma_char_of_unit_start(s: Seq<char>, i: int)
    requires
        0 <= i <= s.len(),
    ensures
        char_of_unit(s, unit_len(s.take(i))) == i,
{
    let u = unit_len(s.take(i));
    lemma_char_of_unit(s, u);
    let c = char_of_unit(s, u);
    if c > i {
        lemma_unit_len_take(s, i, c as int);
        assert(s.take(0) =~= Seq::<char>::empty());
    }
}

pub proof fn lemma_breaks_mono(s: Seq<char>, a: nat, b: nat)
    requires
        a <= b,
    ensures
        breaks_before(s, a) <= breaks_before(s, b),
    decreases b - a,
{
    if a < b {
        lemma_breaks_mono(s, a, (b - 1) as nat);
    }
}

pub proof fn lemma_breaks_bound(s: Seq<char>, c: nat)
    ensures
        breaks_before(s, c) <= c,
    decreases c,
{
    if c > 0 {
        lemma_breaks_bound(s, (c - 1) as nat);
    }
}

proof fn lemma_line_start_from(s: Seq<char>, from: nat, c: nat)
    requires
        from <= c <= s.len(),
    ensures
        from <= line_start_from(
            s,
            (breaks_before(s, c) - breaks_before(s, from)) as nat,
            from,
        ) <= c,
    decreases c - from,
{
    lemma_breaks_mono(s, from, c);
    if from < c {
        lemma_breaks_mono(s, from + 1, c);
        lemma_line_start_from(s, from + 1, c);
    }
}

/// The line of a character begins at or before that character.
pub proof fn lemma_line_start_before(s: Seq<char>, c: nat)
    requires
        c <= s.len(),
    ensures
        line_start(s, breaks_before(s, c)) <= c,
        breaks_before(s, c) < line_count(s),
{
    lemma_line_start_from(s, 0, c);
    lemma_breaks_mono(s, c, s.len());
}

/// The character that a position names.
pub fn position_to_char(buffer: &ropey::Rope, pos: Position) -> (c: usize)
    requires
        position_valid(rope_text(*buffer), pos),
    ensures
        c == position_char(rope_text(*buffer), pos),
        c <= rope_text(*buffer).len(),
{
    proof {
        lemma_char_of_unit(rope_text(*buffer), position_unit(rope_text(*buffer), pos));
        lemma_line_start_bound(rope_text(*buffer), pos.line as nat, 0);
    }
    // The number of code units fits a `usize`, and so does every column.
    let _units = rope_len_utf16_cu(buffer);
    let line_char = rope_line_to_char(buffer, pos.line as usize);
    let line_char_utf16 = rope_char_to_utf16_cu(buffer, line_char);
    let position_utf16 = line_char_utf16 + pos.character as usize;
    rope_utf16_cu_to_char(buffer, position_utf16)
}

pub proof fn lemma_line_start_bound(s: Seq<char>, l: nat, from: nat)
    requires
        from <= s.len(),
    ensures
        from <= line_start_from(s, l, from) <= s.len(),
    decreases s.len() - from,
{
    if l != 0 && from < s.len() {
        if line_ends_at(s, from as int) {
            lemma_line_start_bound(s, (l - 1) as nat, from + 1);
        } else {
            lemma_line_start_bound(s, l, from + 1);
        }
    }
}

/// The byte at which the character starts that a position names.
pub fn position_to_byte(buffer: &ropey::Rope, pos: Position) -> (byte: usize)
    requires
        position_valid(rope_text(*buffer), pos),
    ensures
        byte == position_byte(rope_text(*buffer), pos),
        byte <= byte_len(rope_text(*buffer)),
{
    let c = position_to_char(buffer, pos);
    proof {
        lemma_byte_len_take(rope_text(*buffer), c as int, rope_text(*buffer).len() as int);
    }
    rope_char_to_byte(buffer, c)
}

/// Whether a position names a place of the text.
pub fn position_in_text(buffer: &ropey::Rope, pos: Position) -> (valid: bool)
    ensures
        valid == position_valid(rope_text(*buffer), pos),
{
    let lines = rope_len_lines(buffer);
    if pos.line as usize > lines {
        return false;
    }
    let line_char = rope_line_to_char(buffer, pos.line as usize);
    proof {
        lemma_line_start_bound(rope_text(*buffer), pos.line as nat, 0);
        lemma_unit_len_take(
            rope_text(*buffer),
            line_char as int,
            rope_text(*buffer).len() as int,
        );
    }
    let line_char_utf16 = rope_char_to_utf16_cu(buffer, line_char);
    let total = rope_len_utf16_cu(buffer);
    pos.character as usize <= total - line_char_utf16
}

/// The position of the character that a byte belongs to.
pub fn byte_to_position(buffer: &ropey::Rope, byte: usize) -> (pos: Position)
    requires
        byte <= byte_len(rope_text(*buffer)),
        unit_len(rope_text(*buffer)) <= u32::MAX,
    ensures
        pos.line == byte_position(rope_text(*buffer), byte as nat).0,
        pos.character == byte_position(rope_text(*buffer), byte as nat).1,
        position_valid(rope_text(*buffer), pos),
        position_char(rope_text(*buffer), pos) == char_of_byte(rope_text(*buffer), byte as nat),
{
    let ghost text = rope_text(*buffer);
    let ghost c = char_of_byte(text, byte as nat);
    proof {
        lemma_char_of_byte(text, byte as nat);
        lemma_line_start_before(text, c);
        lemma_breaks_bound(text, c);
        lemma_unit_len_take(text, line_start(text, breaks_before(text, c)) as int, c as int);
        lemma_unit_len_take(text, c as int, text.len() as int);
        lemma_unit_len_bound(text);
        lemma_char_of_unit_start(text, c as int);
    }
    let line = rope_byte_to_line(buffer, byte);
    let line_char = rope_line_to_char(buffer, line);
    let line_char_utf16 = rope_char_to_utf16_cu(buffer, line_char);
    let position_char = rope_byte_to_char(buffer, byte);
    let position_char_utf16 = rope_char_to_utf16_cu(buffer, position_char);
    let character_utf16 = position_char_utf16 - line_char_utf16;
    Position { line: line as u32, character: character_utf16 as u32 }
}

/// A text has at least as many code units as characters.
pub proof fn lemma_unit_len_bound(s: Seq<char>)
    ensures
        s.len() <= unit_len(s),
    decreases s.len(),
{
    if s.len() > 0 {
        lemma_unit_len_bound(s.drop_last());
    }
}

/// From a byte to its position and back: for every byte of a text at
/// which a character starts, and for the byte behind the last, the
/// position of the byte names that byte again.
pub proof fn lemma_position_round_trip(text: Seq<char>, i: int)
    requires
        0 <= i <= text.len(),
        unit_len(text) <= u32::MAX,
    ensures
        ({
            let byte = byte_len(text.take(i));
            let (line, character) = byte_position(text, byte);
            &&& 0 <= line <= u32::MAX
            &&& 0 <= character <= u32::MAX
            &&& position_valid(text, Position { line: line as u32, character: character as u32 })
            &&& position_byte(text, Position { line: line as u32, character: character as u32 })
                == byte
        }),
{
    let byte = byte_len(text.take(i));
    lemma_char_of_boundary(text, i);
    let c = i as nat;
    lemma_line_start_before(text, c);
    lemma_breaks_bound(text, c);
    lemma_unit_len_take(text, line_start(text, breaks_before(text, c)) as int, c as int);
    lemma_unit_len_take(text, c as int, text.len() as int);
    lemma_unit_len_bound(text);
    lemma_char_of_unit_start(text, c as int);
}

} // verus!
