//! A small library behind a note-searching command-line tool.
//!
//! The heart of the library is a filter-expression compiler: it parses a
//! human-authored boolean filter string (tags, negated tags, date literals,
//! relative durations, `>`/`<` comparators, `AND`/`OR` separators) and
//! compiles it into the textual filter syntax understood by the search
//! backend.  The surrounding pieces (query payloads, the document model,
//! terminal-app selection state) are plain data types with small verified
//! helpers; transport and terminal I/O live outside this crate.

pub mod api;
pub mod date;
pub mod document;
pub mod event;
pub mod filter;
pub mod interactive;
pub mod laws;
