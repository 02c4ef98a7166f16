//! Bibliographic toolkit: identifier detection, citation keys, BibTeX
//! parsing and sanitisation, and the response parsers of the scholarly
//! APIs the command-line tool talks to.

pub mod text;
pub mod api;
pub mod pattern;
pub mod detect;
pub mod format;
pub mod citekey;
pub mod bibtex;
pub mod json;
pub mod sanitize;
pub mod proceedings;
pub mod pdftext;
pub mod config;
pub mod xml;
pub mod cmd;
pub mod db;
pub mod http;
pub mod mcp;
