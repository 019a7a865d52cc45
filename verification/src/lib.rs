//! Layout of one `key: value` item of a YAML mapping, block or flow.
//!
//! The library decides how an item is laid out and appends the layout to a
//! buffer as a flat run of [`formatter::Element`]s. It reads the source text,
//! the pending comments and the formatting options; it writes no text of the
//! key or of the value itself, only the elements that stand for them.

pub mod ast;
pub mod call_laws;
pub mod choice_laws;
pub mod comments;
pub mod formatter;
pub mod gap;
pub mod gap_laws;
pub mod laws;
pub mod mapping_item;
pub mod print_laws;
pub mod scalar;
pub mod text_laws;
