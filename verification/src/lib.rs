//! Analysis core for the KIDL schema language.
//!
//! A text is lexed into tokens that cover every character of it
//! ([`lexer`]), and the tokens are parsed into a lossless syntax tree,
//! whatever the text is ([`parser`]). The tree is built by `rowan`
//! ([`green`]), walked through cursors ([`syntax`]) and read through typed
//! views ([`ast`]). A database keeps the open documents as versioned texts
//! and remembers the parse of each version ([`db`]). Positions and changes
//! as an editor sends them are translated over a `ropey` rope
//! ([`position`], [`text`], [`rope`]), and the tokens of a document are
//! told to the editor for highlighting ([`highlight`]).
//!
//! What the functions do is stated in their contracts, over models of the
//! data: a text is a `Seq<char>`, a tree a [`green::Tree`], the state of a
//! parse a [`parser::state::ParseState`], a database a sequence of
//! [`db::ir::FileModel`].

pub mod ast;
pub mod db;
pub mod green;
pub mod helpers;
pub mod highlight;
pub mod kind;
pub mod lang;
pub mod lexer;
pub mod parser;
pub mod position;
pub mod rope;
pub mod source;
pub mod syntax;
pub mod text;
pub mod unicode;
