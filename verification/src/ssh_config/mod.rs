//! Host blocks of a configuration file: their keys, their contents, the parser
//! that builds them and the steps that resolve them.
pub mod entries;
pub mod host;
pub mod host_entry;
pub mod host_list;
pub mod line;
pub mod parser;
pub mod parser_error;
pub mod pattern;

pub use host::Host;
pub use host_entry::EntryType;
pub use host_list::HostVecExt;
pub use parser::Parser;
