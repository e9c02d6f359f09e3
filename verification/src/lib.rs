//! Verified core of a CalDAV/CardDAV server: XML value handling, the
//! decisions taken by the XML derive machinery, webhook events and
//! delivery, and the rules the SQLite stores apply around their queries.

pub mod text;
pub mod xml;
pub mod webhook;
pub mod store;
pub mod xml_derive;
