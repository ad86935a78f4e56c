//! Substreams of the DBI stream.

pub mod optional_dbg;
pub mod section_map;
