use crate::rope::{
    rope_chars_next, rope_chars_rest, rope_slice_bytes, rope_slice_chars, rope_slice_len_bytes,
    rope_slice_text,
};
use crate::unicode::byte_len;
use std::ops::Range;
use vstd::prelude::*;
use vstd::string::StringSliceAdditionalSpecFns;

verus! {

/// Whether byte offset `b` of `text` is where its character `i` starts
/// (for `i` the length of the text: where the text ends).
pub open spec fn boundary_at(text: Seq<char>, i: int, b: int) -> bool {
    0 <= i <= text.len() && byte_len(text.take(i)) == b
}

/// A stream of characters over a text, with one character of lookahead
/// and access to the text by byte range.
pub trait Source {
    spec fn inv(&self) -> bool;

    /// The whole text, read and unread.
    spec fn text(&self) -> Seq<char>;

    /// How many characters have been read.
    spec fn cursor(&self) -> nat;

    proof fn lemma_bounds(&self)
        requires
            self.inv(),
        ensures
            self.cursor() <= self.text().len(),
            byte_len(self.text()) <= usize::MAX,
    ;

    /// Reads the next character, or gives `None` at the end of the text.
    fn next(&mut self) -> (c: Option<char>)
        requires
            old(self).inv(),
        ensures
            final(self).inv(),
            final(self).text() == old(self).text(),
            old(self).cursor() < old(self).text().len() ==> c == Some(
                old(self).text()[old(self).cursor() as int],
            ) && final(self).cursor() == old(self).cursor() + 1,
            old(self).cursor() >= old(self).text().len() ==> c is None && final(self).cursor()
                == old(self).cursor(),
    ;

    /// The next character, without reading it.
    fn peek(&mut self) -> (c: Option<char>)
        requires
            old(self).inv(),
        ensures
            final(self).inv(),
            final(self).text() == old(self).text(),
            final(self).cursor() == old(self).cursor(),
            old(self).cursor() < old(self).text().len() ==> c == Some(
                old(self).text()[old(self).cursor() as int],
            ),
            old(self).cursor() >= old(self).text().len() ==> c is None,
    ;

    /// The part of the text between two byte offsets that both fall on
    /// character boundaries.
    fn slice(&self, range: Range<usize>) -> (s: String)
        requires
            self.inv(),
            exists|i: int, j: int|
                i <= j && #[trigger] boundary_at(self.text(), i, range.start as int)
                    && #[trigger] boundary_at(self.text(), j, range.end as int),
        ensures
            forall|i: int, j: int|
                i <= j && #[trigger] boundary_at(self.text(), i, range.start as int)
                    && #[trigger] boundary_at(self.text(), j, range.end as int) ==> s@
                    == self.text().subrange(i, j),
    ;
}

/// Indexing a `str` by a byte range. std documents that it panics unless
/// both ends fall on character boundaries, in order and within the text;
/// the result is then the characters between the two boundaries.
#[verifier::external_body]
fn str_byte_range<'a>(s: &'a str, start: usize, end: usize) -> (r: &'a str)
    requires
        exists|i: int, j: int|
            i <= j && #[trigger] boundary_at(s@, i, start as int) && #[trigger] boundary_at(
                s@,
                j,
                end as int,
            ),
    ensures
        forall|i: int, j: int|
            i <= j && #[trigger] boundary_at(s@, i, start as int) && #[trigger] boundary_at(
                s@,
                j,
                end as int,
            ) ==> r@ == s@.subrange(i, j),
{
    &s[start..end]
}

/// A source over a string slice.
pub struct StrSource<'a> {
    source: &'a str,
    chars: Vec<char>,
    pos: usize,
}

impl<'a> StrSource<'a> {
    pub fn new(source: &'a str) -> (s: Self)
        ensures
            s.inv(),
            s.text() == source@,
            s.cursor() == 0,
    {
        let mut chars: Vec<char> = Vec::new();
        for c in it: source.chars()
            invariant
                it.seq() == source@,
                chars@ == it.seq().take(it.index() as int),
        {
            chars.push(c);
            assert(it.seq().take(it.index() + 1) =~= it.seq().take(it.index() as int).push(c));
        }
        assert(chars@ =~= source@);
        let size: usize = source.as_bytes().len();
        assert(byte_len(source@) == size);
        StrSource { source, chars, pos: 0 }
    }
}

impl<'a> Source for StrSource<'a> {
    closed spec fn inv(&self) -> bool {
        &&& self.chars@ == self.source@
        &&& self.pos <= self.chars.len()
        &&& byte_len(self.source@) <= usize::MAX
    }

    closed spec fn text(&self) -> Seq<char> {
        self.source@
    }

    closed spec fn cursor(&self) -> nat {
        self.pos as nat
    }

    proof fn lemma_bounds(&self) {
    }

    fn next(&mut self) -> (c: Option<char>) {
        if self.pos < self.chars.len() {
            let c = self.chars[self.pos];
            self.pos = self.pos + 1;
            Some(c)
        } else {
            None
        }
    }

    fn peek(&mut self) -> (c: Option<char>) {
        if self.pos < self.chars.len() {
            Some(self.chars[self.pos])
        } else {
            None
        }
    }

    fn slice(&self, range: Range<usize>) -> (s: String) {
        str_byte_range(self.source, range.start, range.end).to_owned()
    }
}

/// A source over a slice of a rope.
pub struct RopeSource<'a> {
    source: ropey::RopeSlice<'a>,
    chars: ropey::iter::Chars<'a>,
    lookahead: Option<char>,
    pos: usize,
}

impl<'a> RopeSource<'a> {
    /// The characters that have not been read: the one looked at, then
    /// what the iterator has left.
    spec fn unread(&self) -> Seq<char> {
        match self.lookahead {
            Some(c) => seq![c] + rope_chars_rest(self.chars),
            None => Seq::empty(),
        }
    }

    pub fn new(source: ropey::RopeSlice<'a>) -> (s: Self)
        ensures
            s.inv(),
            s.text() == rope_slice_text(source),
            s.cursor() == 0,
    {
        let size = rope_slice_len_bytes(&source);
        let mut chars = rope_slice_chars(&source);
        let lookahead = rope_chars_next(&mut chars);
        let s = RopeSource { source, chars, lookahead, pos: 0 };
        proof {
            assert(s.unread() =~= rope_slice_text(source));
            assert(rope_slice_text(source).skip(0) =~= rope_slice_text(source));
        }
        s
    }
}

impl<'a> Source for RopeSource<'a> {
    closed spec fn inv(&self) -> bool {
        &&& self.pos <= rope_slice_text(self.source).len()
        &&& self.unread() == rope_slice_text(self.source).skip(self.pos as int)
        &&& self.lookahead is None ==> rope_chars_rest(self.chars).len() == 0
        &&& byte_len(rope_slice_text(self.source)) <= usize::MAX
    }

    closed spec fn text(&self) -> Seq<char> {
        rope_slice_text(self.source)
    }

    closed spec fn cursor(&self) -> nat {
        self.pos as nat
    }

    proof fn lemma_bounds(&self) {
    }

    fn next(&mut self) -> (c: Option<char>) {
        let ghost text = rope_slice_text(self.source);
        let ghost rest = rope_chars_rest(self.chars);
        match self.lookahead {
            Some(c) => {
                proof {
                    assert(self.unread().len() > 0);
                    assert(self.unread()[0] == c);
                    assert(text.skip(self.pos as int).len() > 0);
                    assert(self.pos < text.len());
                    assert(text.skip(self.pos as int)[0] == text[self.pos as int]);
                    crate::unicode::lemma_byte_len_bound(text);
                }
                let next = rope_chars_next(&mut self.chars);
                self.lookahead = next;
                self.pos = self.pos + 1;
                proof {
                    let before = text.skip(self.pos - 1);
                    assert(before == seq![c] + rest);
                    assert(text.skip(self.pos as int) =~= before.drop_first());
                    assert(before.drop_first() =~= rest);
                    if rest.len() > 0 {
                        assert(seq![rest[0]] + rest.drop_first() =~= rest);
                    } else {
                        assert(self.unread() =~= rest);
                    }
                }
                Some(c)
            },
            None => {
                proof {
                    assert(text.skip(self.pos as int).len() == 0);
                }
                None
            },
        }
    }

    fn peek(&mut self) -> (c: Option<char>) {
        proof {
            let text = rope_slice_text(self.source);
            match self.lookahead {
                Some(c) => {
                    assert(self.unread().len() > 0);
                    assert(self.unread()[0] == c);
                    assert(text.skip(self.pos as int).len() > 0);
                    assert(text.skip(self.pos as int)[0] == text[self.pos as int]);
                },
                None => {
                    assert(text.skip(self.pos as int).len() == 0);
                },
            }
        }
        self.lookahead
    }

    fn slice(&self, range: Range<usize>) -> (s: String) {
        rope_slice_bytes(&self.source, range.start, range.end)
    }
}

} // verus!
