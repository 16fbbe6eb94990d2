//! Symbol lookup for crash analysis: Breakpad text symbol files, the paths
//! they are stored under, and the unwinding rules they carry.

pub mod cache;
pub mod error;
pub mod frame;
pub mod ident;
pub mod lookup;
pub mod module;
pub mod parser;
pub mod provider;
pub mod records;
pub mod scan;
pub mod supplier;
pub mod sym_file;
pub mod symbolizer;
pub mod table;
pub mod text;
pub mod walker;
