//! The middle of a compiler for a small document language.
//!
//! A source has three sections: a template with defaults, globals and
//! functions, a document with content elements, and a style with rules.
//! The [`lexer`] and the [`parser`] turn the source into a syntax tree
//! ([`ast`]), lowering ([`hlir`]) turns the tree into a module
//! ([`ir_types`]) with an attribute tree ([`attribute_tree`]), and the
//! cascade ([`style_resolver`]) gives each element its computed style
//! ([`style`]). What holds of the cascade is proved in [`cascade_laws`].
//! The [`layout`] tree of a module is built on the `taffy` library.

pub mod text;
pub mod decimal;
pub mod assoc;
pub mod style_map;
pub mod ast;
pub mod style;
pub mod attribute_tree;
pub mod ir_types;
pub mod symbols;
pub mod hlir;
pub mod style_resolver;
pub mod cascade_laws;
pub mod lexer;
pub mod grammar;
pub mod parser;
pub mod layout;
