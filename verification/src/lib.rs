//! A language-server core for translation messages: a verified lexer,
//! parser and extractor for the message language (variables, plural and
//! select placeholders, inline tags), a call-site locator that classifies a
//! cursor within `t(key, params?)` calls in host typescript source, and the
//! feature engines built on them: diagnostics, completion, hover
//! documentation, quick-fix insertion and TypeScript definition generation.
pub mod action;
pub mod ast;
pub mod complete;
pub mod diagnostics;
pub mod docs;
pub mod extract;
pub mod generate;
pub mod host;
pub mod lex;
pub mod locate;
pub mod parse;
pub mod registry;
pub mod text;
