//! XML values, names and errors, and the decisions taken while reading and
//! writing XML documents.

pub mod error;
pub mod events;
pub mod namespace;
pub mod unparsed;
pub mod value;
pub mod read;
pub mod write;
