use crate::green::{forest_text, lemma_forest_text_empty, tree_kind, tree_text, Tree};
use crate::kind::{NodeKind, TokenKind};
use crate::lexer::{lemma_lex_lossless, lex, lexemes_text, Lexeme};
use crate::parser::schema::{parse_outcome, syntax_errors, syntax_tree};
use crate::parser::state::{
    lemma_bump, lemma_close, lemma_error_node, lemma_marks_end, lemma_open, lemma_pop,
    lemma_token, ParseState,
};
use crate::parser::utility::combinators::{
    trivia_nl_seq, Always, Either, ExpectPredicate, TokenPredicate, TokenTest,
};
use crate::parser::utility::error::faults_within;
use crate::unicode::{byte_len, lemma_byte_len_empty};
use vstd::prelude::*;

verus! {

pub proof fn law_unexpected(st: ParseState, held: Lexeme)
    requires
        st.wf(),
    ensures
        st.unexpected(held).absorbs(st, held),
        st.unexpected(held).children.len() == st.children.len() + 1,
        st.unexpected(held).tokens == st.tokens,
{
    lemma_error_node(st, held);
}

pub proof fn law_skip_trivia(st: ParseState)
    requires
        st.wf(),
    ensures
        st.skip_trivia().grows(st),
    decreases st.tokens.len(),
{
    if st.tokens.len() > 0 && st.tokens[0].kind.is_trivia_nl() {
        lemma_bump(st);
        law_skip_trivia(st.bump());
    }
}

pub proof fn law_skip_trivia_until_nl(st: ParseState)
    requires
        st.wf(),
    ensures
        st.skip_trivia_until_nl().grows(st),
    decreases st.tokens.len(),
{
    if st.tokens.len() > 0 && st.tokens[0].kind.is_trivia() {
        lemma_bump(st);
        law_skip_trivia_until_nl(st.bump());
    }
}

pub proof fn law_take_maybe(st: ParseState, kind: TokenKind)
    requires
        st.wf(),
    ensures
        st.take_maybe(kind).grows(st),
        st.at(kind) ==> st.take_maybe(kind).tokens.len() < st.tokens.len(),
{
    if st.at(kind) {
        lemma_bump(st);
    }
}

pub proof fn law_expect<P: ExpectPredicate, S: TokenTest>(
    st: ParseState,
    predicate: P,
    skip: Seq<TokenKind>,
    stop_if: S,
    fired: bool,
)
    requires
        st.wf(),
    ensures
        st.expect(predicate, skip, stop_if, fired).0.grows(st),
    decreases st.tokens.len(),
{
    if st.tokens.len() > 0 {
        let token = st.tokens[0];
        let told = if fired {
            st
        } else {
            st.fault(predicate.complaint(token))
        };
        if predicate.accepts(token) {
            lemma_bump(st);
        } else if skip.contains(token.kind) {
            lemma_bump(st);
            law_expect(st.bump(), predicate, skip, stop_if, fired);
        } else if stop_if.holds(token) {
        } else {
            lemma_pop(told);
            lemma_error_node(told.pop(), token);
            law_expect(told.pop().error_node(token), predicate, skip, stop_if, true);
        }
    }
}

pub proof fn law_type_arguments_rest(st: ParseState)
    requires
        st.wf(),
    ensures
        st.type_arguments_rest().grows(st),
    decreases st.tokens.len(), 0nat,
{
    if st.at(TokenKind::Comma) {
        lemma_bump(st);
        law_skip_trivia(st.bump());
        let begun = st.bump().skip_trivia();
        law_type_argument(begun);
        let argued = begun.type_argument();
        law_type_arguments_rest(argued);
    }
}

pub proof fn law_type_argument(st: ParseState)
    requires
        st.wf(),
    ensures
        st.type_argument().grows(st),
    decreases st.tokens.len(), 1nat,
{
    if st.at(TokenKind::Ident) {
        lemma_pop(st);
        law_parse_type(st.pop(), st.tokens[0]);
    }
}

/// A type takes the name that is held and closes what it opens: the same
/// nodes are open afterwards, there is one more finished tree, and no
/// text is lost.
pub proof fn law_parse_type(st: ParseState, ident: Lexeme)
    requires
        st.wf(),
    ensures
        st.parse_type(ident).absorbs(st, ident),
        st.parse_type(ident).children.len() == st.children.len() + 1,
    decreases st.tokens.len(), 2nat,
{
    lemma_marks_end(st);
    lemma_open(st, st.children.len(), NodeKind::Type);
    let opened = st.open(NodeKind::Type);
    lemma_token(opened, ident);
    let named = opened.token(ident);
    assert(named.text() == st.text_with(ident));
    if named.at(TokenKind::AngleOpen) {
        lemma_bump(named);
        let angled = named.bump();
        lemma_open(angled, named.children.len(), NodeKind::TypeArguments);
        let listed = angled.open_at(named.children.len(), NodeKind::TypeArguments);
        law_skip_trivia(listed);
        let begun = listed.skip_trivia();
        law_type_argument(begun);
        law_skip_trivia(begun.type_argument());
        let first = begun.type_argument().skip_trivia();
        law_type_arguments_rest(first);
        let all = first.type_arguments_rest();
        law_expect(all, TokenPredicate(TokenKind::AngleClose), trivia_nl_seq(), Always, false);
        let ended = all.expect(
            TokenPredicate(TokenKind::AngleClose),
            trivia_nl_seq(),
            Always,
            false,
        ).0;
        assert(ended.parents == listed.parents);
        lemma_close(ended);
        assert(ended.close().parents =~= named.parents);
        lemma_close(ended.close());
        assert(ended.close().close().parents =~= st.parents);
    } else {
        lemma_close(named);
        assert(named.close().parents =~= st.parents);
    }
}

pub proof fn law_parse_struct_field(st: ParseState, name: Lexeme, separator: TokenKind)
    requires
        st.wf(),
    ensures
        st.parse_struct_field(name, separator).absorbs(st, name),
        st.parse_struct_field(name, separator).children.len() == st.children.len() + 1,
{
    lemma_marks_end(st);
    lemma_open(st, st.children.len(), NodeKind::StructField);
    let opened = st.open(NodeKind::StructField);
    lemma_token(opened, name);
    let s1 = opened.token(name);
    law_skip_trivia(s1);
    let s2 = s1.skip_trivia();
    law_take_maybe(s2, TokenKind::Question);
    let s3 = s2.take_maybe(TokenKind::Question);
    law_skip_trivia(s3);
    let s4 = s3.skip_trivia();
    let stop = Either(TokenPredicate(TokenKind::Comma), TokenPredicate(TokenKind::CurlyClose));
    law_expect(s4, TokenPredicate(TokenKind::Colon), trivia_nl_seq(), stop, false);
    let s5 = s4.expect(TokenPredicate(TokenKind::Colon), trivia_nl_seq(), stop, false).0;
    law_skip_trivia(s5);
    let s6 = s5.skip_trivia();
    law_type_argument(s6);
    let s7 = s6.type_argument();
    law_skip_trivia(s7);
    let s8 = s7.skip_trivia();
    law_take_maybe(s8, separator);
    let s9 = s8.take_maybe(separator);
    assert(s9.parents == opened.parents);
    lemma_close(s9);
    assert(s9.close().parents =~= st.parents);
}

pub proof fn law_struct_body(st: ParseState)
    requires
        st.wf(),
    ensures
        st.struct_body().grows(st),
    decreases st.tokens.len(),
{
    if st.tokens.len() > 0 {
        let token = st.tokens[0];
        lemma_pop(st);
        if token.kind.is_trivia_nl() {
            lemma_token(st.pop(), token);
            law_struct_body(st.pop().token(token));
        } else if token.kind == TokenKind::Ident {
            law_parse_struct_field(st.pop(), token, TokenKind::Comma);
            law_struct_body(st.pop().parse_struct_field(token, TokenKind::Comma));
        } else if token.kind == TokenKind::CurlyClose {
            lemma_token(st.pop(), token);
        } else {
            law_unexpected(st.pop(), token);
            law_struct_body(st.pop().unexpected(token));
        }
    }
}

pub proof fn law_parse_struct(st: ParseState, mark: nat, keyword: Lexeme)
    requires
        st.wf(),
        st.marks(mark),
    ensures
        st.parse_struct(mark, keyword).absorbs(st, keyword),
{
    lemma_open(st, mark, NodeKind::Struct);
    let opened = st.open_at(mark, NodeKind::Struct);
    lemma_token(opened, keyword);
    let s1 = opened.token(keyword);
    let brace = Either(
        TokenPredicate(TokenKind::CurlyOpen),
        TokenPredicate(TokenKind::CurlyClose),
    );
    law_expect(s1, TokenPredicate(TokenKind::Ident), trivia_nl_seq(), brace, false);
    let s2 = s1.expect(TokenPredicate(TokenKind::Ident), trivia_nl_seq(), brace, false).0;
    law_expect(
        s2,
        TokenPredicate(TokenKind::CurlyOpen),
        trivia_nl_seq(),
        TokenPredicate(TokenKind::CurlyClose),
        false,
    );
    let s3 = s2.expect(
        TokenPredicate(TokenKind::CurlyOpen),
        trivia_nl_seq(),
        TokenPredicate(TokenKind::CurlyClose),
        false,
    ).0;
    law_struct_body(s3);
    let s4 = s3.struct_body();
    law_skip_trivia_until_nl(s4);
    let s5 = s4.skip_trivia_until_nl();
    assert(s5.parents == opened.parents);
    lemma_close(s5);
    assert(s5.close().parents =~= st.parents);
}

pub proof fn law_path_segments(st: ParseState, consumed: bool)
    requires
        st.wf(),
    ensures
        st.path_segments(consumed).0.grows(st),
        !st.path_segments(consumed).1 ==> st.path_segments(consumed).0 == st,
    decreases st.tokens.len(),
{
    if st.tokens.len() > 0 && crate::parser::path::path_segment(st.tokens[0]) {
        lemma_bump(st);
        law_skip_trivia(st.bump());
        let segment = st.bump().skip_trivia();
        if segment.at(TokenKind::Dot) {
            lemma_bump(segment);
            law_path_segments(segment.bump(), true);
            law_path_segments_found(segment.bump());
        } else if segment.at(TokenKind::Colon) {
            lemma_bump(segment);
            if segment.bump().at(TokenKind::Colon) {
                lemma_bump(segment.bump());
                law_path_segments(segment.bump().bump(), true);
                law_path_segments_found(segment.bump().bump());
            }
        }
    }
}

pub proof fn law_path_segments_found(st: ParseState)
    requires
        st.wf(),
    ensures
        st.path_segments(true).1,
    decreases st.tokens.len(),
{
    if st.tokens.len() > 0 && crate::parser::path::path_segment(st.tokens[0]) {
        lemma_bump(st);
        law_skip_trivia(st.bump());
        let segment = st.bump().skip_trivia();
        if segment.at(TokenKind::Dot) {
            lemma_bump(segment);
            law_path_segments_found(segment.bump());
        } else if segment.at(TokenKind::Colon) {
            lemma_bump(segment);
            if segment.bump().at(TokenKind::Colon) {
                lemma_bump(segment.bump());
                law_path_segments_found(segment.bump().bump());
            }
        }
    }
}

pub proof fn law_parse_path(st: ParseState)
    requires
        st.wf(),
    ensures
        st.parse_path().0.follows(st),
{
    law_path_segments(st, false);
    let (walked, consumed) = st.path_segments(false);
    if consumed {
        lemma_marks_end(st);
        lemma_open(walked, st.children.len(), NodeKind::Path);
        lemma_close(walked.open_at(st.children.len(), NodeKind::Path));
        assert(walked.open_at(st.children.len(), NodeKind::Path).close().parents =~= st.parents);
    }
}

pub proof fn law_parse_use(st: ParseState, mark: nat, keyword: Lexeme)
    requires
        st.wf(),
        st.marks(mark),
    ensures
        st.parse_use(mark, keyword).absorbs(st, keyword),
{
    lemma_open(st, mark, NodeKind::Use);
    let opened = st.open_at(mark, NodeKind::Use);
    lemma_token(opened, keyword);
    let s1 = opened.token(keyword);
    law_skip_trivia(s1);
    let begun = s1.skip_trivia();
    law_parse_path(begun);
    let (walked, found) = begun.parse_path();
    let told = if found {
        walked
    } else {
        walked.fault(walked.path_complaint())
    };
    law_take_maybe(told, TokenKind::Semicolon);
    let s2 = told.take_maybe(TokenKind::Semicolon);
    law_skip_trivia_until_nl(s2);
    let s3 = s2.skip_trivia_until_nl();
    assert(s3.parents == opened.parents);
    lemma_close(s3);
    assert(s3.close().parents =~= st.parents);
}

pub proof fn law_declarations(st: ParseState, mark: nat)
    requires
        st.wf(),
        st.marks(mark),
    ensures
        st.declarations(mark).follows(st),
        st.declarations(mark).tokens.len() == 0,
    decreases st.tokens.len(),
{
    if st.tokens.len() > 0 {
        let token = st.tokens[0];
        lemma_pop(st);
        if token.kind.is_trivia_nl() {
            lemma_token(st.pop(), token);
            law_declarations(st.pop().token(token), mark);
        } else if token.kind == TokenKind::Ident && token.text == "use"@ {
            law_parse_use(st.pop(), mark, token);
            let declared = st.pop().parse_use(mark, token);
            lemma_marks_end(declared);
            law_declarations(declared, declared.children.len());
        } else if token.kind == TokenKind::Ident && token.text == "struct"@ {
            law_parse_struct(st.pop(), mark, token);
            let declared = st.pop().parse_struct(mark, token);
            lemma_marks_end(declared);
            law_declarations(declared, declared.children.len());
        } else {
            law_unexpected(st.pop(), token);
            law_declarations(st.pop().unexpected(token), mark);
        }
    }
}

/// Parsing is total and loses nothing: whatever the tokens are, the parse
/// ends with all of them read and every node closed, and leaves one tree,
/// whose root is a `Root` node and whose leaves hold the texts of the
/// tokens in their order. Every error is about bytes of that text.
pub proof fn law_parse_lossless(tokens: Seq<Lexeme>)
    ensures
        parse_outcome(tokens).tokens.len() == 0,
        parse_outcome(tokens).parents.len() == 0,
        parse_outcome(tokens).children.len() == 1,
        syntax_tree(tokens) is Node,
        tree_kind(syntax_tree(tokens)) == NodeKind::Root.raw(),
        tree_text(syntax_tree(tokens)) == lexemes_text(tokens),
        faults_within(syntax_errors(tokens), byte_len(lexemes_text(tokens))),
{
    let start = ParseState::start(tokens);
    lemma_forest_text_empty();
    lemma_byte_len_empty();
    assert(start.text() =~= lexemes_text(tokens));
    lemma_open(start, 0, NodeKind::Root);
    let rooted = start.open(NodeKind::Root);
    law_declarations(rooted, 0);
    let read = rooted.declarations(0);
    lemma_close(read);
    let done = read.close();
    assert(done.parents =~= Seq::empty());
    assert(done.children.drop_last() =~= Seq::<Tree>::empty());
    assert(forest_text(done.children) =~= tree_text(done.children[0]));
    assert(lexemes_text(done.tokens) =~= Seq::<char>::empty());
    assert(done.text() =~= tree_text(done.children[0]));
}

/// From a text to its tree and back: the tree that a text parses to
/// holds exactly that text.
pub proof fn law_text_round_trip(text: Seq<char>)
    ensures
        syntax_tree(lex(text)) is Node,
        tree_kind(syntax_tree(lex(text))) == NodeKind::Root.raw(),
        tree_text(syntax_tree(lex(text))) == text,
        faults_within(syntax_errors(lex(text)), byte_len(text)),
{
    lemma_lex_lossless(text);
    law_parse_lossless(lex(text));
}

} // verus!
