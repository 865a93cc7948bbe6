//! List, compare and trim the names of a directory's entries: the longest
//! run of characters that every name shares, the name without its extension,
//! and the renames that take a given run out of every name.

pub mod substring;
pub mod stem;
pub mod rename;
pub mod run;
