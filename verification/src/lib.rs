//! The expansion of `#[derive(Deserialize)]`: from a struct or an enum to an
//! implementation of `::serde::de::Deserialize` for it.
//!
//! - [`ast`] is the item that an implementation is derived for.
//! - [`code`] is the syntax tree of generated code, and [`tree`] builds its parts.
//! - [`de`] is the expansion. What it yields is stated in [`shape`], part by part.
//! - [`print`] writes generated code as source text, [`parse`] reads that text, and
//!   [`source`] says of which trees the text is read back.
//! - [`rules`] are rules of Rust about names, types and methods, and [`code_laws`]
//!   that derived code keeps them, that its text says what the tree says, and what
//!   it takes over from the item.
//! - [`meaning`] says what generated code does when it runs, [`outcome`] what an
//!   input stands for, [`requests`] what calls reading it takes, and [`laws`] that
//!   derived code reads it as just that, with just these calls. [`reading_laws`] and
//!   [`request_laws`] say the same value by value and call by call.
pub mod ast;
pub mod code;
pub mod code_laws;
pub mod de;
pub mod laws;
pub mod meaning;
pub mod names;
pub mod outcome;
pub mod parse;
pub mod print;
pub mod reading_laws;
pub mod request_laws;
pub mod requests;
pub mod rules;
pub mod shape;
pub mod source;
pub mod tree;

mod keeps;
mod read_enum;
mod read_key;
mod read_map;
mod read_seq;
mod read_struct;
mod read_unit;
mod steps;
mod text_code;
mod text_derived;
mod text_exact;
mod text_meaning;
mod text_names;
mod text_parts;
mod text_types;
mod visitors;
