//! The text buffer and viewport model of a small terminal editor.
//!
//! A [`Row`] is one line of text, edited at grapheme-cluster positions; a
//! [`Document`] is the ordered sequence of rows with its dirty flag; an
//! [`Editor`] holds a document, the cursor in it and the corner of the window
//! through which it is seen, and decides what a key press does.
//!
//! The contracts are proved by Verus. Three small functions are believed
//! rather than proved: the call that splits a string into grapheme clusters
//! (module `grapheme`), and two string operations of the standard library
//! (module `strings`). What a text's clusters are is left to the
//! segmentation crate; the contracts speak of them by name.

pub mod clusters;
pub mod document;
pub mod editor;
pub mod grapheme;
pub mod lines;
pub mod position;
pub mod prompt;
pub mod row;
pub mod status;
mod strings;
pub mod terminal;

pub use document::Document;
pub use editor::{Editor, Key, Request, ScreenRow};
pub use position::Position;
pub use prompt::Prompt;
pub use row::Row;
pub use terminal::Size;
