//! What a page about a repository or a crate shows: the rows of its tables,
//! their counts, and the mood of its heading.

pub mod data;
pub mod html;
pub mod status;
