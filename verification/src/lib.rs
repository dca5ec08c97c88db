//! Renders a TOML document as an HTML page.
//!
//! A document is a table with a required `html` key (the doctype version),
//! an optional `head` table, an optional `body` content value and an optional
//! `lang` string. Content values are text, element tables or arrays of
//! content values; they are rendered depth first into an append-only buffer.

pub mod arg;
pub mod attributes;
pub mod command;
pub mod error;
pub mod html;
pub mod htoml;
pub mod markup;
pub mod text;
pub mod value;
