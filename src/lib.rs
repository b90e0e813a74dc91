//! A command-line argument parser.
//!
//! Options are declared on an [`ArgParser`] with a name, an optional default,
//! a short flag character, a requirement flag, a help text and an [`ArgType`].
//! Parsing a token stream yields an [`ArgParseResults`] from which values are
//! extracted by name, or an error describing why the stream was rejected.
pub mod argparser;
pub mod convert;
pub mod help;
pub mod laws;
pub mod model;
pub mod slide;
pub mod tokens;

pub use argparser::{ArgGetter, ArgParseResults, ArgParser, ArgType, ParseError, ParseResult};
pub use convert::{collect_all, collect_pairs, hashmap_parser, split_pairs, split_words, vec_parser};
pub use slide::{Slide, Slider};
