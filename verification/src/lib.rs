//! Reads CodeView symbol records, COFF image definitions and the byte-level substreams of
//! Program Database (PDB) files.

pub mod offset_segment;
pub mod parser;
pub mod text;
pub mod number;
pub mod machine;
pub mod section;
pub mod image;
pub mod arch;
pub mod syms;
pub mod coff_groups;
pub mod modi;
pub mod dbi;
pub mod sections;
pub mod once;
pub mod section_listing;
pub mod sym_listing;
pub mod find;
pub mod binding;
pub mod listing_text;
pub mod sym_text;
