//! Classification, normalization and generation of soaringspot.com result
//! URLs, and extraction of structured records from the platform's HTML pages.
//!
//! The library is pure: it consumes URL parts and HTML text and produces
//! structured data. All I/O lives with the callers.

pub mod date;
pub mod date_utils;
pub mod parser;
pub mod text;
pub mod url_utils;
