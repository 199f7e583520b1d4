//! Conversion of message catalogs whose Cyrillic text was typed in a
//! Latin-keyboard encoding.
//!
//! In such a catalog the value of every `msgstr` entry is written with ASCII
//! letters and a few punctuation signs that stand for the letters of the
//! Ukrainian alphabet. [`deconvert`] replaces each of them by the letter it
//! stands for, [`convert_line`] decides line by line what is to be
//! converted, and [`convert_text`] does so for a whole catalog.
//!
//! Texts are modelled as sequences of characters, `Seq<char>`, and every
//! function states its result over that model.

pub mod alphabet;
pub mod catalog;
pub mod config;
pub mod lines;
pub mod std_string;
pub mod transliterate;

pub use crate::alphabet::{deconvert_char, lookup};
pub use crate::catalog::{convert_line, convert_text, has_prefix};
pub use crate::config::{Config, MISSING_PATH, OUTPUT_PATH};
pub use crate::lines::split_lines;
pub use crate::transliterate::deconvert;
