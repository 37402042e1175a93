use crate::ast::helpers::AstNode;
use crate::ast::schema::Schema;
use crate::ast::struct_decl::{Struct, StructField};
use crate::ast::ty::Type;
use crate::db::db::{Database, Db};
use crate::db::ir::find_path;
use crate::green::{tree_children, tree_kind, tree_text, Tree};
use crate::kind::{NodeKind, TokenKind};
use crate::lexer::lex;
use crate::parser::schema::syntax_tree;
use crate::position::{
    lemma_breaks_mono, lemma_char_of_byte, lemma_line_start_before, lemma_unit_len_bound,
    lemma_unit_len_take,
};
use crate::rope::{
    breaks_before, char_of_byte, line_start, rope_byte_to_char, rope_byte_to_line,
    rope_char_to_utf16_cu, rope_line_to_char, rope_text,
};
use crate::syntax::{
    children_of, lemma_child_edges, node_place, syntax_node_kind, syntax_token_kind,
    syntax_token_range, syntax_token_text, token_place, Place, SyntaxElement,
};
use crate::unicode::{byte_len, lemma_unit_len_le_byte_len, str_eq, unit_len};
use rowan::cursor::{SyntaxNode, SyntaxToken};
use vstd::prelude::*;

verus! {

/// The classes that a token can be shown as, in the order of the legend
/// that is sent to the editor once.
#[allow(non_camel_case_types)]
#[derive(Debug, Clone, Copy, PartialEq, Eq, Structural)]
pub enum TokenType {
    NAMESPACE,
    TYPE,
    CLASS,
    ENUM,
    INTERFACE,
    STRUCT,
    TYPE_PARAMETER,
    PARAMETER,
    VARIABLE,
    PROPERTY,
    ENUM_MEMBER,
    EVENT,
    FUNCTION,
    METHOD,
    MACRO,
    KEYWORD,
    MODIFIER,
    COMMENT,
    STRING,
    NUMBER,
    REGEXP,
    OPERATOR,
}

impl TokenType {
    /// The place of the class in the legend.
    pub open spec fn index(self) -> u32 {
        match self {
            TokenType::NAMESPACE => 0,
            TokenType::TYPE => 1,
            TokenType::CLASS => 2,
            TokenType::ENUM => 3,
            TokenType::INTERFACE => 4,
            TokenType::STRUCT => 5,
            TokenType::TYPE_PARAMETER => 6,
            TokenType::PARAMETER => 7,
            TokenType::VARIABLE => 8,
            TokenType::PROPERTY => 9,
            TokenType::ENUM_MEMBER => 10,
            TokenType::EVENT => 11,
            TokenType::FUNCTION => 12,
            TokenType::METHOD => 13,
            TokenType::MACRO => 14,
            TokenType::KEYWORD => 15,
            TokenType::MODIFIER => 16,
            TokenType::COMMENT => 17,
            TokenType::STRING => 18,
            TokenType::NUMBER => 19,
            TokenType::REGEXP => 20,
            TokenType::OPERATOR => 21,
        }
    }

    pub fn to_index(self) -> (index: u32)
        ensures
            index == self.index(),
    {
        match self {
            TokenType::NAMESPACE => 0,
            TokenType::TYPE => 1,
            TokenType::CLASS => 2,
            TokenType::ENUM => 3,
            TokenType::INTERFACE => 4,
            TokenType::STRUCT => 5,
            TokenType::TYPE_PARAMETER => 6,
            TokenType::PARAMETER => 7,
            TokenType::VARIABLE => 8,
            TokenType::PROPERTY => 9,
            TokenType::ENUM_MEMBER => 10,
            TokenType::EVENT => 11,
            TokenType::FUNCTION => 12,
            TokenType::METHOD => 13,
            TokenType::MACRO => 14,
            TokenType::KEYWORD => 15,
            TokenType::MODIFIER => 16,
            TokenType::COMMENT => 17,
            TokenType::STRING => 18,
            TokenType::NUMBER => 19,
            TokenType::REGEXP => 20,
            TokenType::OPERATOR => 21,
        }
    }
}

/// A set of the modifiers that a token can be shown with, one bit each in
/// the order of the legend.
#[derive(Debug, Clone, Copy, PartialEq, Eq, Structural)]
pub struct TokenModifier {
    pub bits: u32,
}

pub const DECLARATION: u32 = 0b0000000001;

pub const DEFINITION: u32 = 0b0000000010;

pub const READONLY: u32 = 0b0000000100;

pub const STATIC: u32 = 0b0000001000;

pub const DEPRECATED: u32 = 0b0000010000;

pub const ABSTRACT: u32 = 0b0000100000;

pub const ASYNC: u32 = 0b0001000000;

pub const MODIFICATION: u32 = 0b0010000000;

pub const DOCUMENTATION: u32 = 0b0100000000;

pub const DEFAULT_LIBRARY: u32 = 0b1000000000;

impl TokenModifier {
    /// The set with the modifiers whose bits are given.
    pub fn from_bits(bits: u32) -> (set: TokenModifier)
        ensures
            set.bits == bits,
    {
        TokenModifier { bits }
    }

    /// The set without a modifier.
    pub fn empty() -> (none: TokenModifier)
        ensures
            none.bits == 0,
    {
        TokenModifier { bits: 0 }
    }

    pub fn bits(self) -> (bits: u32)
        ensures
            bits == self.bits,
    {
        self.bits
    }

    /// The set of the modifiers that are in one of two sets.
    pub fn union(self, other: TokenModifier) -> (both: TokenModifier)
        ensures
            both.bits == self.bits | other.bits,
    {
        TokenModifier { bits: self.bits | other.bits }
    }
}

/// A token as the editor is told of it: where it starts, relative to the
/// token before it, how long it is, and how to show it. Columns and
/// lengths count UTF-16 code units.
#[derive(Debug, Clone, Copy, PartialEq, Eq, Structural)]
pub struct SemanticToken {
    pub delta_line: u32,
    pub delta_start: u32,
    pub length: u32,
    pub token_type: u32,
    pub token_modifiers_bitset: u32,
}

/// A token that is to be shown: the bytes of the text that it covers, and
/// how to show it.
pub struct Mark {
    pub start: nat,
    pub end: nat,
    pub token_type: u32,
    pub modifiers: u32,
}

/// The line of the character that a byte belongs to.
pub open spec fn line_of(text: Seq<char>, byte: nat) -> nat {
    breaks_before(text, char_of_byte(text, byte))
}

/// The code units of the text before the character that a byte belongs to.
pub open spec fn units_before(text: Seq<char>, byte: nat) -> nat {
    unit_len(text.take(char_of_byte(text, byte) as int))
}

/// The column of the character that a byte belongs to: the code units
/// between the start of its line and the character.
pub open spec fn column_of(text: Seq<char>, byte: nat) -> int {
    units_before(text, byte) - unit_len(
        text.take(line_start(text, line_of(text, byte)) as int),
    )
}

/// What the editor is told of a token that follows one that starts at
/// byte `last` (the start of the text, before the first token): how many
/// lines further on it starts, its column (less the column of the token
/// before it where both start on one line), and its length.
pub open spec fn encode_mark(text: Seq<char>, last: nat, mark: Mark) -> SemanticToken {
    SemanticToken {
        delta_line: (line_of(text, mark.start) - line_of(text, last)) as u32,
        delta_start: if line_of(text, last) < line_of(text, mark.start) {
            column_of(text, mark.start) as u32
        } else {
            (column_of(text, mark.start) - column_of(text, last)) as u32
        },
        length: (units_before(text, mark.end) - units_before(text, mark.start)) as u32,
        token_type: mark.token_type,
        token_modifiers_bitset: mark.modifiers,
    }
}

/// Where the token before the one with index `n` starts: the start of
/// the text, before the first token.
pub open spec fn start_before(marks: Seq<Mark>, n: nat) -> nat {
    if n == 0 {
        0
    } else {
        marks[n - 1].start
    }
}

/// What the editor is told of the first `n` tokens of a list.
pub open spec fn encode_marks(text: Seq<char>, marks: Seq<Mark>, n: nat) -> Seq<SemanticToken>
    decreases n,
{
    if n == 0 {
        Seq::empty()
    } else {
        encode_marks(text, marks, (n - 1) as nat).push(
            encode_mark(text, start_before(marks, (n - 1) as nat), marks[n - 1]),
        )
    }
}

/// The character of a later byte is not an earlier one.
pub proof fn lemma_char_of_byte_mono(text: Seq<char>, a: nat, b: nat)
    requires
        a <= b,
    ensures
        char_of_byte(text, a) <= char_of_byte(text, b) <= text.len(),
{
    lemma_char_of_byte(text, a);
    lemma_char_of_byte(text, b);
    let c = char_of_byte(text, a);
    if c > 0 {
        assert(byte_len(text.take(c as int)) <= b);
    }
}

/// A later byte lies on a later line, or on the same line in a later
/// column; and lines, columns and lengths stay within the text's code
/// units.
pub proof fn lemma_marks_in_order(text: Seq<char>, a: nat, b: nat)
    requires
        a <= b,
    ensures
        line_of(text, a) <= line_of(text, b) <= unit_len(text),
        line_of(text, b) < crate::rope::line_count(text),
        0 <= column_of(text, b) <= unit_len(text),
        line_of(text, a) == line_of(text, b) ==> column_of(text, a) <= column_of(text, b),
        units_before(text, a) <= units_before(text, b) <= unit_len(text),
        line_start(text, line_of(text, b)) <= char_of_byte(text, b),
        char_of_byte(text, a) <= char_of_byte(text, b) <= text.len(),
{
    lemma_char_of_byte_mono(text, a, b);
    let ca = char_of_byte(text, a);
    let cb = char_of_byte(text, b);
    lemma_breaks_mono(text, ca, cb);
    crate::position::lemma_breaks_bound(text, cb);
    lemma_unit_len_bound(text);
    lemma_line_start_before(text, cb);
    lemma_line_start_before(text, ca);
    lemma_unit_len_take(text, line_start(text, line_of(text, b)) as int, cb as int);
    lemma_unit_len_take(text, ca as int, cb as int);
    lemma_unit_len_take(text, cb as int, text.len() as int);
}

/// Turns tokens, given in the order of the text, into what the editor is
/// told of them.
pub struct DeltaEncoder<'a> {
    prev_line: usize,
    prev_offset: usize,
    buffer: Vec<SemanticToken>,
    source: &'a ropey::Rope,
    marks: Ghost<Seq<Mark>>,
}

impl<'a> DeltaEncoder<'a> {
    /// The text that the tokens are tokens of.
    pub closed spec fn text(&self) -> Seq<char> {
        rope_text(*self.source)
    }

    /// The tokens that have been pushed.
    pub closed spec fn marks(&self) -> Seq<Mark> {
        self.marks@
    }

    /// What has been gathered for the editor.
    pub closed spec fn tokens(&self) -> Seq<SemanticToken> {
        self.buffer@
    }

    /// Where the token that was pushed last starts: the start of the
    /// text, before the first token.
    pub open spec fn last(&self) -> nat {
        start_before(self.marks(), self.marks().len())
    }

    /// What has been gathered is what the tokens pushed encode to; the
    /// encoder remembers the line and the column of the last of them; and
    /// the text has no more code units than 32 bits count.
    pub closed spec fn inv(&self) -> bool {
        &&& unit_len(self.text()) <= u32::MAX
        &&& self.last() <= byte_len(self.text())
        &&& self.prev_line == line_of(self.text(), self.last())
        &&& self.prev_offset == column_of(self.text(), self.last())
        &&& self.buffer@ == encode_marks(self.text(), self.marks@, self.marks@.len())
    }

    pub fn new(source: &'a ropey::Rope) -> (encoder: Self)
        requires
            unit_len(rope_text(*source)) <= u32::MAX,
        ensures
            encoder.inv(),
            encoder.text() == rope_text(*source),
            encoder.marks() == Seq::<Mark>::empty(),
            encoder.tokens() == Seq::<SemanticToken>::empty(),
    {
        let encoder = DeltaEncoder {
            prev_line: 0,
            prev_offset: 0,
            buffer: Vec::new(),
            source,
            marks: Ghost(Seq::empty()),
        };
        proof {
            let text = rope_text(*source);
            lemma_char_of_byte(text, 0);
            crate::unicode::lemma_byte_len_empty();
            assert(text.take(0) =~= Seq::<char>::empty());
            if char_of_byte(text, 0) > 0 {
                crate::position::lemma_byte_len_take(text, 0, char_of_byte(text, 0) as int);
            }
            assert(char_of_byte(text, 0) == 0);
            assert(line_start(text, 0) == 0);
        }
        encoder
    }

    /// What the editor is told of a token that follows those pushed
    /// before. The encoder then remembers where this token starts.
    fn encode(&mut self, token: &SyntaxToken, ty: TokenType, modifier: TokenModifier) -> (told:
        SemanticToken)
        requires
            old(self).relates(token),
        ensures
            told == encode_mark(
                old(self).text(),
                old(self).last(),
                mark_of(*token, ty, modifier),
            ),
            final(self).text() == old(self).text(),
            final(self).buffer == old(self).buffer,
            final(self).marks == old(self).marks,
            final(self).source == old(self).source,
            final(self).prev_line == line_of(old(self).text(), token_place(*token).offset),
            final(self).prev_offset == column_of(old(self).text(), token_place(*token).offset),
    {
        let ghost text = self.text();
        let ghost last = self.last();
        let range = syntax_token_range(token);
        proof {
            lemma_marks_in_order(text, last, range.start as nat);
            lemma_marks_in_order(text, range.start as nat, range.end as nat);
        }
        let line = rope_byte_to_line(self.source, range.start);
        let line_char = rope_line_to_char(self.source, line);
        let line_units = rope_char_to_utf16_cu(self.source, line_char);
        let start_char = rope_byte_to_char(self.source, range.start);
        let start_units = rope_char_to_utf16_cu(self.source, start_char);
        let end_char = rope_byte_to_char(self.source, range.end);
        let end_units = rope_char_to_utf16_cu(self.source, end_char);
        let offset = start_units - line_units;
        let delta_line = line - self.prev_line;
        if self.prev_line < line {
            self.prev_offset = 0;
        }
        self.prev_line = line;
        let delta_start = offset - self.prev_offset;
        self.prev_offset = offset;
        SemanticToken {
            delta_line: delta_line as u32,
            delta_start: delta_start as u32,
            length: (end_units - start_units) as u32,
            token_type: ty.to_index(),
            token_modifiers_bitset: modifier.bits(),
        }
    }

    /// Whether a token can be pushed: the encoder is in order, and the
    /// token lies in the text, at or behind the start of the token that
    /// was pushed last.
    pub open spec fn relates(&self, token: &SyntaxToken) -> bool {
        &&& self.inv()
        &&& token_place(*token).sound()
        &&& self.last() <= token_place(*token).offset
        &&& token_place(*token).end() <= byte_len(self.text())
    }

    /// Pushes a token that is shown as the given class, without modifiers.
    pub fn push(&mut self, token: &SyntaxToken, ty: TokenType)
        requires
            old(self).relates(token),
        ensures
            final(self).inv(),
            final(self).text() == old(self).text(),
            final(self).marks() == old(self).marks().push(
                mark_of(*token, ty, TokenModifier { bits: 0 }),
            ),
    {
        self.push_mod(token, ty, TokenModifier::empty())
    }

    /// Pushes a token that is shown as the given class with the given
    /// modifiers.
    pub fn push_mod(&mut self, token: &SyntaxToken, ty: TokenType, modifier: TokenModifier)
        requires
            old(self).relates(token),
        ensures
            final(self).inv(),
            final(self).text() == old(self).text(),
            final(self).marks() == old(self).marks().push(mark_of(*token, ty, modifier)),
    {
        let ghost before = self.marks@;
        let told = self.encode(token, ty, modifier);
        self.buffer.push(told);
        proof {
            self.marks@ = before.push(mark_of(*token, ty, modifier));
            let after = self.marks@;
            let n = after.len();
            assert(after.drop_last() =~= before);
            lemma_encode_marks_prefix(self.text(), before, after, before.len());
        }
    }

    /// What has been gathered for the editor: one entry for each token
    /// pushed, in order.
    pub fn finish(self) -> (tokens: Vec<SemanticToken>)
        requires
            self.inv(),
        ensures
            tokens@ == encode_marks(self.text(), self.marks(), self.marks().len()),
    {
        self.buffer
    }
}

/// The token as it is to be shown.
pub open spec fn mark_of(token: SyntaxToken, ty: TokenType, modifier: TokenModifier) -> Mark {
    Mark {
        start: token_place(token).offset,
        end: token_place(token).end(),
        token_type: ty.index(),
        modifiers: modifier.bits,
    }
}

/// What is told of the first tokens of a list does not depend on the
/// tokens behind them.
pub proof fn lemma_encode_marks_prefix(text: Seq<char>, a: Seq<Mark>, b: Seq<Mark>, n: nat)
    requires
        n <= a.len() <= b.len(),
        forall|i: int| 0 <= i < a.len() ==> a[i] == b[i],
    ensures
        encode_marks(text, a, n) == encode_marks(text, b, n),
    decreases n,
{
    if n > 0 {
        lemma_encode_marks_prefix(text, a, b, (n - 1) as nat);
    }
}

/// The rules by which the tokens under a node are shown, one for each
/// kind of node that tokens are shown under.
#[derive(Debug, Clone, Copy, PartialEq, Eq, Structural)]
pub enum Walk {
    /// Under the root: the structs.
    Schema,
    /// Under a struct: comments, the keyword, the name, and the fields.
    Struct,
    /// Under a field: the name, and the type.
    Field,
    /// Under a type: the name, and the arguments.
    Type,
    /// Under a list of type arguments: the types.
    Arguments,
}

/// What is done with a child of a node.
#[derive(Debug, Clone, Copy, PartialEq, Eq, Structural)]
pub enum Step {
    /// Nothing under the child is shown.
    Skip,
    /// The child is a token, which is shown as the given class.
    Show(TokenType),
    /// The child is a node, under which tokens are shown by the given rule.
    Into(Walk),
}

/// What a rule does with a child.
pub open spec fn step(rule: Walk, child: Tree) -> Step {
    let kind = tree_kind(child);
    match rule {
        Walk::Schema => if child is Node && kind == NodeKind::Struct.raw() {
            Step::Into(Walk::Struct)
        } else {
            Step::Skip
        },
        Walk::Struct => if child is Token && kind == TokenKind::Comment.raw() {
            Step::Show(TokenType::COMMENT)
        } else if child is Token && kind == TokenKind::Ident.raw() {
            if tree_text(child) == "struct"@ {
                Step::Show(TokenType::KEYWORD)
            } else {
                Step::Show(TokenType::STRUCT)
            }
        } else if child is Node && kind == NodeKind::StructField.raw() {
            Step::Into(Walk::Field)
        } else {
            Step::Skip
        },
        Walk::Field => if child is Token && kind == TokenKind::Ident.raw() {
            Step::Show(TokenType::PARAMETER)
        } else if child is Node && kind == NodeKind::Type.raw() {
            Step::Into(Walk::Type)
        } else {
            Step::Skip
        },
        Walk::Type => if child is Token && kind == TokenKind::Ident.raw() {
            Step::Show(TokenType::TYPE)
        } else if child is Node && kind == NodeKind::TypeArguments.raw() {
            Step::Into(Walk::Arguments)
        } else {
            Step::Skip
        },
        Walk::Arguments => if child is Node && kind == NodeKind::Type.raw() {
            Step::Into(Walk::Type)
        } else {
            Step::Skip
        },
    }
}

/// The tokens that are shown under the first `n` children of a node, by
/// the given rule, in the order of the text.
pub open spec fn marks_upto(rule: Walk, place: Place, n: nat) -> Seq<Mark>
    decreases place.tree, n,
{
    if n == 0 || n > place.arity() {
        Seq::empty()
    } else {
        let child = place.child(n - 1);
        let before = marks_upto(rule, place, (n - 1) as nat);
        match step(rule, child.tree) {
            Step::Skip => before,
            Step::Show(ty) => before.push(
                Mark {
                    start: child.offset,
                    end: child.end(),
                    token_type: ty.index(),
                    modifiers: 0,
                },
            ),
            Step::Into(inner) => before + marks_upto(inner, child, child.arity()),
        }
    }
}

/// The tokens that are shown under a node, by the given rule.
pub open spec fn marks_under(rule: Walk, place: Place) -> Seq<Mark> {
    marks_upto(rule, place, place.arity())
}

/// What a rule does with a child.
fn step_of(rule: Walk, child: &SyntaxElement) -> (what: Step)
    requires
        child.place().sound(),
        (*child is Node) == (child.place().tree is Node),
    ensures
        what == step(rule, child.place().tree),
        what is Show ==> *child is Token,
        what is Into ==> *child is Node,
{
    match child {
        SyntaxElement::Token(token) => {
            let kind = syntax_token_kind(token);
            match rule {
                Walk::Schema => Step::Skip,
                Walk::Struct => {
                    if kind == TokenKind::Comment.to_raw() {
                        Step::Show(TokenType::COMMENT)
                    } else if kind == TokenKind::Ident.to_raw() {
                        if str_eq(syntax_token_text(token), "struct") {
                            Step::Show(TokenType::KEYWORD)
                        } else {
                            Step::Show(TokenType::STRUCT)
                        }
                    } else {
                        Step::Skip
                    }
                },
                Walk::Field => {
                    if kind == TokenKind::Ident.to_raw() {
                        Step::Show(TokenType::PARAMETER)
                    } else {
                        Step::Skip
                    }
                },
                Walk::Type => {
                    if kind == TokenKind::Ident.to_raw() {
                        Step::Show(TokenType::TYPE)
                    } else {
                        Step::Skip
                    }
                },
                Walk::Arguments => Step::Skip,
            }
        },
        SyntaxElement::Node(node) => {
            let kind = syntax_node_kind(node);
            match rule {
                Walk::Schema => {
                    if kind == NodeKind::Struct.to_raw() {
                        Step::Into(Walk::Struct)
                    } else {
                        Step::Skip
                    }
                },
                Walk::Struct => {
                    if kind == NodeKind::StructField.to_raw() {
                        Step::Into(Walk::Field)
                    } else {
                        Step::Skip
                    }
                },
                Walk::Field => {
                    if kind == NodeKind::Type.to_raw() {
                        Step::Into(Walk::Type)
                    } else {
                        Step::Skip
                    }
                },
                Walk::Type => {
                    if kind == NodeKind::TypeArguments.to_raw() {
                        Step::Into(Walk::Arguments)
                    } else {
                        Step::Skip
                    }
                },
                Walk::Arguments => {
                    if kind == NodeKind::Type.to_raw() {
                        Step::Into(Walk::Type)
                    } else {
                        Step::Skip
                    }
                },
            }
        },
    }
}

/// Pushes the tokens that are shown under a node, by the given rule, in
/// the order of the text.
pub fn collect_semantic_tokens(rule: Walk, node: &SyntaxNode, encoder: &mut DeltaEncoder)
    requires
        old(encoder).inv(),
        node_place(*node).sound(),
        node_place(*node).tree is Node,
        old(encoder).last() <= node_place(*node).offset,
        node_place(*node).end() <= byte_len(old(encoder).text()),
    ensures
        final(encoder).inv(),
        final(encoder).text() == old(encoder).text(),
        final(encoder).marks() == old(encoder).marks() + marks_under(rule, node_place(*node)),
        final(encoder).last() <= node_place(*node).end(),
    decreases node_place(*node).tree,
{
    let kids = children_of(node);
    let ghost parent = node_place(*node);
    let ghost items = kids@;
    let ghost begun = encoder.marks();
    proof {
        assert(begun + marks_upto(rule, parent, 0) =~= begun);
        if parent.arity() > 0 {
            lemma_child_edges(parent, 0);
        } else {
            assert(tree_children(parent.tree).take(0) =~= Seq::<Tree>::empty());
            crate::green::lemma_forest_text_empty();
            crate::unicode::lemma_byte_len_empty();
        }
    }
    for kid in it: kids
        invariant
            it.seq() == items,
            items.len() == parent.arity(),
            parent == node_place(*node),
            parent.sound(),
            parent.tree is Node,
            parent.end() <= byte_len(encoder.text()),
            begun == old(encoder).marks(),
            forall|i: int|
                0 <= i < items.len() ==> (#[trigger] items[i]).place() == parent.child(i)
                    && items[i].place().sound() && (items[i] is Node) == (items[i].place().tree
                    is Node),
            encoder.inv(),
            encoder.text() == old(encoder).text(),
            encoder.marks() == begun + marks_upto(rule, parent, it.index() as nat),
            encoder.last() <= parent.edge(it.index() as int) <= parent.end(),
    {
        let ghost i = it.index() as int;
        let ghost before = marks_upto(rule, parent, i as nat);
        assert(kid == items[i]);
        proof {
            lemma_child_edges(parent, i);
        }
        match step_of(rule, &kid) {
            Step::Skip => {},
            Step::Show(ty) => {
                match kid {
                    SyntaxElement::Token(token) => {
                        encoder.push(&token, ty);
                        proof {
                            let mark = mark_of(token, ty, TokenModifier { bits: 0 });
                            assert((begun + before).push(mark) =~= begun + before.push(mark));
                        }
                    },
                    SyntaxElement::Node(_) => {},
                }
            },
            Step::Into(inner) => {
                match kid {
                    SyntaxElement::Node(child) => {
                        collect_semantic_tokens(inner, &child, encoder);
                        proof {
                            let under = marks_under(inner, node_place(child));
                            assert((begun + before) + under =~= begun + (before + under));
                        }
                    },
                    SyntaxElement::Token(_) => {},
                }
            },
        }
    }
}

/// Pushes a comment.
pub fn collect_semantic_tokens_from_comment(token: &SyntaxToken, encoder: &mut DeltaEncoder)
    requires
        old(encoder).relates(token),
    ensures
        final(encoder).inv(),
        final(encoder).text() == old(encoder).text(),
        final(encoder).marks() == old(encoder).marks().push(
            mark_of(*token, TokenType::COMMENT, TokenModifier { bits: 0 }),
        ),
{
    encoder.push(token, TokenType::COMMENT)
}

/// Pushes the tokens that are shown under a field of a struct: its name
/// as a parameter, and the names in its type as types.
pub fn collect_semantic_tokens_from_struct_field(arg: &StructField, encoder: &mut DeltaEncoder)
    requires
        old(encoder).inv(),
        old(encoder).last() <= arg.place().offset,
        arg.place().end() <= byte_len(old(encoder).text()),
    ensures
        final(encoder).inv(),
        final(encoder).text() == old(encoder).text(),
        final(encoder).marks() == old(encoder).marks() + marks_under(Walk::Field, arg.place()),
        final(encoder).last() <= arg.place().end(),
{
    collect_semantic_tokens(Walk::Field, arg.syntax(), encoder)
}

/// Pushes the tokens that are shown under a type: its name, and the names
/// in its arguments, as types.
pub fn collect_semantic_tokens_from_type(ty: &Type, encoder: &mut DeltaEncoder)
    requires
        old(encoder).inv(),
        old(encoder).last() <= ty.place().offset,
        ty.place().end() <= byte_len(old(encoder).text()),
    ensures
        final(encoder).inv(),
        final(encoder).text() == old(encoder).text(),
        final(encoder).marks() == old(encoder).marks() + marks_under(Walk::Type, ty.place()),
        final(encoder).last() <= ty.place().end(),
{
    collect_semantic_tokens(Walk::Type, ty.syntax(), encoder)
}

/// Pushes the tokens that are shown under a struct: its comments, the
/// keyword, its name, and what is shown under its fields.
pub fn collect_semantic_tokens_from_struct(s: &Struct, encoder: &mut DeltaEncoder)
    requires
        old(encoder).inv(),
        old(encoder).last() <= s.place().offset,
        s.place().end() <= byte_len(old(encoder).text()),
    ensures
        final(encoder).inv(),
        final(encoder).text() == old(encoder).text(),
        final(encoder).marks() == old(encoder).marks() + marks_under(Walk::Struct, s.place()),
        final(encoder).last() <= s.place().end(),
{
    collect_semantic_tokens(Walk::Struct, s.syntax(), encoder)
}

/// Pushes the tokens that are shown under a document: what is shown under
/// its structs.
pub fn collect_semantic_tokens_from_schema(node: &Schema, encoder: &mut DeltaEncoder)
    requires
        old(encoder).inv(),
        old(encoder).last() <= node.place().offset,
        node.place().end() <= byte_len(old(encoder).text()),
    ensures
        final(encoder).inv(),
        final(encoder).text() == old(encoder).text(),
        final(encoder).marks() == old(encoder).marks() + marks_under(Walk::Schema, node.place()),
        final(encoder).last() <= node.place().end(),
{
    collect_semantic_tokens(Walk::Schema, node.syntax(), encoder)
}

/// What the editor is told of the tokens of a document: the tokens shown
/// under the tree that its text parses to, each relative to the one
/// before it.
pub open spec fn semantic_marks(text: Seq<char>) -> Seq<SemanticToken> {
    let root = Place { tree: syntax_tree(lex(text)), offset: 0, frozen: true };
    let marks = marks_under(Walk::Schema, root);
    encode_marks(text, marks, marks.len())
}

/// What the editor is told of the tokens of the document with the given
/// path; `None` where no such document is open, or where its text is too
/// long for a tree. The document is parsed on the way, unless the
/// database remembers its parse.
pub fn semantic_tokens(db: &mut Database, path: &str) -> (tokens: Option<Vec<SemanticToken>>)
    requires
        old(db).wf(),
    ensures
        final(db).wf(),
        final(db).store() == old(db).store(),
        match tokens {
            Some(told) => {
                let at = find_path(old(db)@, path@);
                &&& at < old(db)@.len()
                &&& old(db)@[at].parsable()
                &&& told@ == semantic_marks(old(db)@[at].text)
                &&& final(db)@ == old(db)@.update(at, old(db)@[at].parsed())
            },
            None => {
                let at = find_path(old(db)@, path@);
                &&& at < old(db)@.len() ==> !old(db)@[at].parsable()
                &&& final(db)@ == old(db)@
            },
        },
{
    let schema_file = match db.schema_file(path) {
        Some(file) => file,
        None => {
            return None;
        },
    };
    if !db.parsable(schema_file) {
        return None;
    }
    let ghost text = db@[schema_file.index()].text;
    let parsed = crate::db::source::parse(db, schema_file);
    let source = db.text(schema_file);
    proof {
        lemma_unit_len_le_byte_len(text);
    }
    let root = parsed.syntax();
    let mut delta = DeltaEncoder::new(&source);
    match Schema::cast(root) {
        Some(schema) => {
            collect_semantic_tokens_from_schema(&schema, &mut delta);
            proof {
                assert(Seq::<Mark>::empty() + marks_under(Walk::Schema, schema.place())
                    =~= marks_under(Walk::Schema, schema.place()));
            }
            Some(delta.finish())
        },
        None => None,
    }
}

} // verus!
