//! A small line-oriented text search engine together with a collection of
//! independently verified exercise modules.
//!
//! The core of the crate is the pair [`config`] / [`search`]: configuration
//! is resolved from layered sources (explicit flag, environment override,
//! default) and a body of text is scanned line by line for a literal
//! substring, under a configurable case-sensitivity policy.

pub mod adder;
pub mod cacher;
pub mod carols;
pub mod config;
pub mod directory;
pub mod enums;
pub mod fib;
pub mod guessing;
pub mod iterators;
pub mod largest;
pub mod lifetimes;
pub mod outermost;
pub mod ownership;
pub mod pig_latin;
pub mod search;
pub mod shapes;
pub mod stats;
pub mod summaries;
pub mod text;
pub mod words;

pub use config::Config;
pub use config::ConfigError;
pub use fib::fib;
pub use fib::iterative_fib;
pub use search::search;
pub use search::search_case_insensitive;
pub use search::search_with_config;
