use crate::helpers::ByteOffset;
use crate::kind::TokenKind;
use crate::source::{boundary_at, Source};
use crate::unicode::{
    byte_len, char_is_alphabetic, char_is_numeric, char_is_whitespace, char_is_xid_continue,
    char_is_xid_start, char_len_utf8, lemma_byte_len_push, lemma_byte_len_take_mono,
};
use std::ops::Range;
use vstd::prelude::*;

verus! {

/// What a token is: its kind and the text it covers.
pub struct Lexeme {
    pub kind: TokenKind,
    pub text: Seq<char>,
}

#[derive(Debug, PartialEq, Eq)]
pub struct Token {
    pub kind: TokenKind,
    pub slice: String,
}

impl View for Token {
    type V = Lexeme;

    open spec fn view(&self) -> Lexeme {
        Lexeme { kind: self.kind, text: self.slice@ }
    }
}

impl Clone for Token {
    fn clone(&self) -> (copy: Self)
        ensures
            copy@ == self@,
    {
        Token { kind: self.kind, slice: self.slice.clone() }
    }
}

impl Token {
    pub fn new(kind: TokenKind, slice: String) -> (token: Self)
        ensures
            token@ == (Lexeme { kind, text: slice@ }),
    {
        Token { kind, slice }
    }
}

/// The texts of a sequence of tokens, one after the other.
pub open spec fn lexemes_text(tokens: Seq<Lexeme>) -> Seq<char>
    decreases tokens.len(),
{
    if tokens.len() == 0 {
        Seq::empty()
    } else {
        tokens[0].text + lexemes_text(tokens.drop_first())
    }
}

/// The kind of a token that is a single punctuation character.
pub open spec fn punct_kind(c: char) -> Option<TokenKind> {
    if c == '{' {
        Some(TokenKind::CurlyOpen)
    } else if c == '}' {
        Some(TokenKind::CurlyClose)
    } else if c == '[' {
        Some(TokenKind::SquareOpen)
    } else if c == ']' {
        Some(TokenKind::SquareClose)
    } else if c == '(' {
        Some(TokenKind::ParenOpen)
    } else if c == ')' {
        Some(TokenKind::ParenClose)
    } else if c == '<' {
        Some(TokenKind::AngleOpen)
    } else if c == '>' {
        Some(TokenKind::AngleClose)
    } else if c == ':' {
        Some(TokenKind::Colon)
    } else if c == ';' {
        Some(TokenKind::Semicolon)
    } else if c == ',' {
        Some(TokenKind::Comma)
    } else if c == '#' {
        Some(TokenKind::Hash)
    } else if c == '.' {
        Some(TokenKind::Dot)
    } else if c == '?' {
        Some(TokenKind::Question)
    } else if c == '=' {
        Some(TokenKind::Eq)
    } else {
        None
    }
}

/// The classes of characters that runs are made of.
#[derive(Debug, Clone, Copy, PartialEq, Eq, Structural)]
pub enum CharClass {
    /// Whitespace other than a line feed.
    Blank,
    /// A numeric character.
    Digit,
    /// An alphabetic or numeric character, or an underscore.
    Word,
    /// A character that may continue an identifier by Unicode's rule.
    Continue,
}

impl CharClass {
    pub open spec fn holds(self, c: char) -> bool {
        match self {
            CharClass::Blank => char_is_whitespace(c) && c != '\n',
            CharClass::Digit => char_is_numeric(c),
            CharClass::Word => char_is_alphabetic(c) || char_is_numeric(c) || c == '_',
            CharClass::Continue => char_is_xid_continue(c),
        }
    }

    pub fn test(self, c: char) -> (b: bool)
        ensures
            b == self.holds(c),
    {
        match self {
            CharClass::Blank => c.is_whitespace() && c != '\n',
            CharClass::Digit => c.is_numeric(),
            CharClass::Word => c.is_alphanumeric() || c == '_',
            CharClass::Continue => unicode_ident::is_xid_continue(c),
        }
    }
}

/// Where the longest run of characters of a class that starts at `from` ends.
pub open spec fn run_while(s: Seq<char>, from: nat, class: CharClass) -> nat
    decreases s.len() - from,
{
    if from < s.len() && class.holds(s[from as int]) {
        run_while(s, from + 1, class)
    } else {
        from
    }
}

/// The position just behind the first `stop` at or after `from`, or the
/// end of the text where there is none.
pub open spec fn run_through(s: Seq<char>, from: nat, stop: char) -> nat
    decreases s.len() - from,
{
    if from >= s.len() {
        from
    } else if s[from as int] == stop {
        from + 1
    } else {
        run_through(s, from + 1, stop)
    }
}

/// The kind of the token that starts at position `i` of `s`.
pub open spec fn token_kind(s: Seq<char>, i: nat) -> TokenKind
    recommends
        i < s.len(),
{
    let c = s[i as int];
    if punct_kind(c) is Some {
        punct_kind(c)->0
    } else if c == '\'' || c == '"' {
        TokenKind::String
    } else if c == '/' && i + 1 < s.len() && s[i as int + 1] == '/' {
        TokenKind::Comment
    } else if c == '\n' {
        TokenKind::NewLine
    } else if char_is_whitespace(c) {
        TokenKind::Space
    } else if char_is_numeric(c) {
        TokenKind::Number
    } else if char_is_alphabetic(c) {
        TokenKind::Ident
    } else if char_is_xid_start(c) {
        TokenKind::Ident
    } else {
        TokenKind::Unknown
    }
}

/// Where the token that starts at position `i` of `s` ends.
///
/// Punctuation, a line feed and an unknown character stand alone. A string
/// runs through its closing quote, a comment through the end of its line,
/// both to the end of the text where that is missing. Blanks, digits and
/// the characters of an identifier run as far as they go.
pub open spec fn token_end(s: Seq<char>, i: nat) -> nat
    recommends
        i < s.len(),
{
    let c = s[i as int];
    if punct_kind(c) is Some {
        i + 1
    } else if c == '\'' || c == '"' {
        run_through(s, i + 1, c)
    } else if c == '/' && i + 1 < s.len() && s[i as int + 1] == '/' {
        run_through(s, i + 2, '\n')
    } else if c == '\n' {
        i + 1
    } else if char_is_whitespace(c) {
        run_while(s, i + 1, CharClass::Blank)
    } else if char_is_numeric(c) {
        run_while(s, i + 1, CharClass::Digit)
    } else if char_is_alphabetic(c) {
        run_while(s, i + 1, CharClass::Word)
    } else if char_is_xid_start(c) {
        run_while(s, i + 1, CharClass::Continue)
    } else {
        i + 1
    }
}

/// The token that starts at position `i` of `s`.
pub open spec fn lexeme_at(s: Seq<char>, i: nat) -> Lexeme {
    Lexeme { kind: token_kind(s, i), text: s.subrange(i as int, token_end(s, i) as int) }
}

pub proof fn lemma_run_while_bounds(s: Seq<char>, from: nat, class: CharClass)
    requires
        from <= s.len(),
    ensures
        from <= run_while(s, from, class) <= s.len(),
    decreases s.len() - from,
{
    if from < s.len() && class.holds(s[from as int]) {
        lemma_run_while_bounds(s, from + 1, class);
    }
}

pub proof fn lemma_run_through_bounds(s: Seq<char>, from: nat, stop: char)
    requires
        from <= s.len(),
    ensures
        from <= run_through(s, from, stop) <= s.len(),
    decreases s.len() - from,
{
    if from < s.len() && s[from as int] != stop {
        lemma_run_through_bounds(s, from + 1, stop);
    }
}

/// Every token holds at least one character and ends within the text.
pub proof fn lemma_token_end_bounds(s: Seq<char>, i: nat)
    requires
        i < s.len(),
    ensures
        i < token_end(s, i) <= s.len(),
{
    let c = s[i as int];
    lemma_run_through_bounds(s, i + 1, c);
    if i + 1 < s.len() {
        lemma_run_through_bounds(s, i + 2, '\n');
    }
    lemma_run_while_bounds(s, i + 1, CharClass::Blank);
    lemma_run_while_bounds(s, i + 1, CharClass::Digit);
    lemma_run_while_bounds(s, i + 1, CharClass::Word);
    lemma_run_while_bounds(s, i + 1, CharClass::Continue);
}

/// The tokens of `s` from position `i` on.
pub open spec fn lex_from(s: Seq<char>, i: nat) -> Seq<Lexeme>
    decreases s.len() - i,
{
    if i >= s.len() {
        Seq::empty()
    } else {
        proof {
            lemma_token_end_bounds(s, i);
        }
        seq![lexeme_at(s, i)] + lex_from(s, token_end(s, i))
    }
}

/// The tokens of a text.
pub open spec fn lex(s: Seq<char>) -> Seq<Lexeme> {
    lex_from(s, 0)
}

/// The tokens from a position on cover the text from that position on.
pub proof fn lemma_lex_from_lossless(s: Seq<char>, i: nat)
    requires
        i <= s.len(),
    ensures
        lexemes_text(lex_from(s, i)) == s.skip(i as int),
    decreases s.len() - i,
{
    if i >= s.len() {
        assert(s.skip(i as int) =~= Seq::<char>::empty());
    } else {
        lemma_token_end_bounds(s, i);
        let e = token_end(s, i);
        lemma_lex_from_lossless(s, e);
        let rest = lex_from(s, e);
        let all = lex_from(s, i);
        assert(all =~= seq![lexeme_at(s, i)] + rest);
        assert(all.drop_first() =~= rest);
        assert(all[0] == lexeme_at(s, i));
        assert(s.subrange(i as int, e as int) + s.skip(e as int) =~= s.skip(i as int));
    }
}

/// Lexing loses nothing: the texts of the tokens of `s`, one after the
/// other, are `s`.
pub proof fn lemma_lex_lossless(s: Seq<char>)
    ensures
        lexemes_text(lex(s)) == s,
{
    lemma_lex_from_lossless(s, 0);
    assert(s.skip(0) =~= s);
}

/// Every character of the text belongs to exactly one token: each token
/// starts where the one before it ends, the first at the start of the text,
/// and the last ends where the text ends.
pub proof fn lemma_lex_from_step(s: Seq<char>, i: nat)
    requires
        i < s.len(),
    ensures
        lex_from(s, i).len() > 0,
        lex_from(s, i)[0] == lexeme_at(s, i),
        lex_from(s, i).drop_first() == lex_from(s, token_end(s, i)),
        lex_from(s, i)[0].text.len() > 0,
{
    lemma_token_end_bounds(s, i);
    assert(lex_from(s, i).drop_first() =~= lex_from(s, token_end(s, i)));
}

/// A lexer over a source of characters. It hands out the tokens of the
/// source's text one by one.
pub struct Lexer<S: Source> {
    source: S,
    offset: ByteOffset,
    consumed: ByteOffset,
}

fn punct(c: char) -> (kind: Option<TokenKind>)
    ensures
        kind == punct_kind(c),
{
    match c {
        '{' => Some(TokenKind::CurlyOpen),
        '}' => Some(TokenKind::CurlyClose),
        '[' => Some(TokenKind::SquareOpen),
        ']' => Some(TokenKind::SquareClose),
        '(' => Some(TokenKind::ParenOpen),
        ')' => Some(TokenKind::ParenClose),
        '<' => Some(TokenKind::AngleOpen),
        '>' => Some(TokenKind::AngleClose),
        ':' => Some(TokenKind::Colon),
        ';' => Some(TokenKind::Semicolon),
        ',' => Some(TokenKind::Comma),
        '#' => Some(TokenKind::Hash),
        '.' => Some(TokenKind::Dot),
        '?' => Some(TokenKind::Question),
        '=' => Some(TokenKind::Eq),
        _ => None,
    }
}

impl<S: Source> Lexer<S> {
    /// The text that the lexer works on.
    pub closed spec fn text(&self) -> Seq<char> {
        self.source.text()
    }

    /// How many characters of the text have been turned into tokens.
    pub closed spec fn cursor(&self) -> nat {
        self.source.cursor()
    }

    /// The byte offset of the next token in the text.
    pub closed spec fn position(&self) -> nat {
        self.offset.0 as nat
    }

    /// Holds between two tokens.
    pub closed spec fn inv(&self) -> bool {
        &&& self.source.inv()
        &&& self.consumed.0 == 0
        &&& self.offset.0 == byte_len(self.text().take(self.cursor() as int))
    }

    /// Holds while a token is read.
    spec fn scanning(&self) -> bool {
        &&& self.source.inv()
        &&& self.offset.0 + self.consumed.0 == byte_len(self.text().take(self.cursor() as int))
    }

    /// What is kept while a token is read.
    spec fn same_token(&self, before: &Self) -> bool {
        &&& self.text() == before.text()
        &&& self.offset == before.offset
    }

    fn consume(&mut self) -> (c: Option<char>)
        requires
            old(self).scanning(),
        ensures
            final(self).scanning(),
            final(self).same_token(old(self)),
            old(self).cursor() < old(self).text().len() ==> c == Some(
                old(self).text()[old(self).cursor() as int],
            ) && final(self).cursor() == old(self).cursor() + 1,
            old(self).cursor() >= old(self).text().len() ==> c is None && final(self).cursor()
                == old(self).cursor(),
    {
        let next = self.source.next();
        match next {
            Some(c) => {
                proof {
                    let text = self.text();
                    let i = old(self).cursor() as int;
                    self.source.lemma_bounds();
                    assert(text.take(i + 1) =~= text.take(i).push(c));
                    lemma_byte_len_push(text.take(i), c);
                    lemma_byte_len_take_mono(text, i, i + 1);
                }
                self.consumed = ByteOffset(self.consumed.0 + char_len_utf8(c));
                Some(c)
            },
            None => None,
        }
    }

    fn consume_while(&mut self, class: CharClass)
        requires
            old(self).scanning(),
        ensures
            final(self).scanning(),
            final(self).same_token(old(self)),
            final(self).cursor() == run_while(old(self).text(), old(self).cursor(), class),
    {
        proof {
            self.source.lemma_bounds();
        }
        loop
            invariant
                self.scanning(),
                self.same_token(old(self)),
                self.cursor() <= self.text().len(),
                run_while(self.text(), self.cursor(), class) == run_while(
                    old(self).text(),
                    old(self).cursor(),
                    class,
                ),
            decreases self.text().len() - self.cursor(),
        {
            match self.source.peek() {
                Some(c) => {
                    if class.test(c) {
                        self.consume();
                    } else {
                        return ;
                    }
                },
                None => {
                    return ;
                },
            }
        }
    }

    fn consume_whitespace(&mut self)
        requires
            old(self).scanning(),
        ensures
            final(self).scanning(),
            final(self).same_token(old(self)),
            final(self).cursor() == run_while(
                old(self).text(),
                old(self).cursor(),
                CharClass::Blank,
            ),
    {
        self.consume_while(CharClass::Blank)
    }

    fn consume_ident(&mut self)
        requires
            old(self).scanning(),
        ensures
            final(self).scanning(),
            final(self).same_token(old(self)),
            final(self).cursor() == run_while(
                old(self).text(),
                old(self).cursor(),
                CharClass::Word,
            ),
    {
        self.consume_while(CharClass::Word)
    }

    fn consume_until_true_including(&mut self, stop: char)
        requires
            old(self).scanning(),
        ensures
            final(self).scanning(),
            final(self).same_token(old(self)),
            final(self).cursor() == run_through(old(self).text(), old(self).cursor(), stop),
    {
        proof {
            self.source.lemma_bounds();
        }
        loop
            invariant
                self.scanning(),
                self.same_token(old(self)),
                self.cursor() <= self.text().len(),
                run_through(self.text(), self.cursor(), stop) == run_through(
                    old(self).text(),
                    old(self).cursor(),
                    stop,
                ),
            decreases self.text().len() - self.cursor(),
        {
            match self.consume() {
                Some(c) => {
                    if c == stop {
                        return ;
                    }
                },
                None => {
                    return ;
                },
            }
        }
    }

    /// The byte offset in the text at which the next token starts: where
    /// the last one ended.
    pub fn offset(&self) -> (offset: ByteOffset)
        ensures
            offset.0 == self.position(),
    {
        self.offset
    }

    /// The next token of the text, or `None` where the text is used up.
    pub fn next(&mut self) -> (token: Option<Token>)
        requires
            old(self).inv(),
        ensures
            final(self).inv(),
            final(self).text() == old(self).text(),
            old(self).cursor() >= old(self).text().len() ==> token is None && final(self).cursor()
                == old(self).cursor() && final(self).position() == old(self).position(),
            old(self).cursor() < old(self).text().len() ==> token is Some && token->0@
                == lexeme_at(old(self).text(), old(self).cursor()) && final(self).cursor()
                == token_end(old(self).text(), old(self).cursor()) && final(self).position()
                == old(self).position() + byte_len(token->0@.text),
    {
        let ghost text = self.text();
        let ghost start = self.cursor();
        proof {
            self.source.lemma_bounds();
        }
        match self.consume() {
            Some(c) => {
                let kind = match punct(c) {
                    Some(kind) => kind,
                    None => {
                        if c == '\'' || c == '"' {
                            self.consume_until_true_including(c);
                            TokenKind::String
                        } else if c == '/' && self.source.peek() == Some('/') {
                            self.consume();
                            self.consume_until_true_including('\n');
                            TokenKind::Comment
                        } else if c == '\n' {
                            TokenKind::NewLine
                        } else if c.is_whitespace() {
                            self.consume_whitespace();
                            TokenKind::Space
                        } else if c.is_numeric() {
                            self.consume_while(CharClass::Digit);
                            TokenKind::Number
                        } else if c.is_alphabetic() {
                            self.consume_ident();
                            TokenKind::Ident
                        } else if unicode_ident::is_xid_start(c) {
                            self.consume_while(CharClass::Continue);
                            TokenKind::Ident
                        } else {
                            TokenKind::Unknown
                        }
                    },
                };
                proof {
                    lemma_token_end_bounds(text, start);
                    lemma_byte_len_take_mono(text, start as int, self.cursor() as int);
                    lemma_byte_len_take_mono(text, self.cursor() as int, text.len() as int);
                }
                let next_offset = self.offset + self.consumed;
                let range = Range { start: self.offset.0, end: next_offset.0 };
                self.consumed = ByteOffset(0);
                self.offset = next_offset;
                proof {
                    assert(boundary_at(text, start as int, range.start as int));
                    assert(boundary_at(text, self.cursor() as int, range.end as int));
                }
                let slice = self.source.slice(range);
                Some(Token { kind, slice })
            },
            None => None,
        }
    }
}

/// A lexer at the start of a source that nothing has been read from.
pub fn tokenize<S: Source>(source: S) -> (lexer: Lexer<S>)
    requires
        source.inv(),
        source.cursor() == 0,
    ensures
        lexer.inv(),
        lexer.text() == source.text(),
        lexer.cursor() == 0,
        lexer.position() == 0,
{
    proof {
        assert(source.text().take(0) =~= Seq::<char>::empty());
    }
    Lexer { offset: ByteOffset(0), consumed: ByteOffset(0), source }
}

} // verus!
