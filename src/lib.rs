//! Reader for desktop entry files (`.desktop` files): a line grammar, an assembler that builds
//! a validated group/key/value document, typed value decoders, locale-aware key resolution and
//! a decoder for command-line values.
//!
//! Decisions where the file format leaves room:
//! - a blank line holds only spaces and tabs;
//! - spaces and tabs around `=` belong to neither key nor value;
//! - keys are never empty; a locale suffix `[...]` holds one or more of `A-Z a-z 0-9 - _ @`
//!   and is part of the key;
//! - a group name holds any characters but `[`, `]` and the line-feed;
//! - a header that names a group seen before is an error, even when another group came between;
//! - after `\` in a quoted command-line argument any character stands for itself.

pub mod chars;
pub mod define_group;
pub mod desktop_entry;
pub mod document;
pub mod exec;
pub mod locale;
pub mod parser;
pub mod text;
pub mod value;

pub use document::{DesktopFile, DesktopFileError, Group};
pub use locale::{Key, LocalizedKey};
pub use parser::ParseError;
pub use value::FromRaw;
