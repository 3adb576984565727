//! A small registry of command line flags.
//!
//! A program registers its flags in a [`Flags`] store, each with a name, a
//! description and the value that it holds until told otherwise.
//! [`Flags::parse`] then walks an argument list and lets the flags that the
//! list names take the values given there.
//!
//! How a flag is written on the command line:
//!
//! - a flag whose name is one character long is written with one dash:
//!   `-w`, `-p`, `-v`;
//! - a flag with a longer name is written with two dashes: `--bin`, `--lib`;
//! - a name of several words is registered with the words run together
//!   (`allownet`) and written with a dash between them (`--allow-net`).
//!
//! A flag followed by a bare value takes that value. A flag followed by
//! another flag, or by nothing, is toggled, and has to hold a truth value.

pub mod element;
pub mod error;
pub mod flags;
pub mod laws;
pub mod number;
pub mod semantics;
pub mod text;
pub mod token;
pub mod traits;
pub mod value;

pub use element::{Element, Entry};
pub use flags::Flags;
pub use error::{ConversionError, ParseError};
pub use traits::Flag;
pub use value::{Kind, Value};
