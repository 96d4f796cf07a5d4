//! Verified core of a command-line tool for an object store and a key-value
//! table store: rendering of scanned items as CSV or TSV, the keys that bulk
//! deletes use, value inference for attribute updates, page counting, and the
//! lines printed for descriptions and listings.
pub mod lex;
pub mod text;
pub mod render;
pub mod keys;
pub mod infer;
pub mod tally;
pub mod report;
