//! The rules that the SQLite stores apply around their queries: how
//! database errors become store errors, how rows become calendars and
//! principals, birthday calendars, and the collection of sync changes.

pub mod error;
pub mod calendar;
pub mod birthday;
pub mod sync;
pub mod principal;
pub mod notify;
