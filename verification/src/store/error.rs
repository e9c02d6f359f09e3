//! Errors of the stores.

use vstd::prelude::*;

verus! {

/// Errors that the stores report to their callers.
#[derive(Debug, Clone, PartialEq, Eq)]
pub enum StoreError {
    /// The requested item does not exist.
    NotFound,
    /// An item with that key exists already.
    AlreadyExists,
    /// The collection cannot be written.
    ReadOnly,
    /// A password could not be hashed.
    PasswordHash,
    /// Any other failure, in words.
    Other(String),
}

/// What a database error is, as far as the stores tell errors apart.
#[derive(Debug, Clone, Copy, PartialEq, Eq, Structural)]
pub enum DbErrorKind {
    /// A query that returns one row returned none.
    RowNotFound,
    /// A write broke a uniqueness constraint.
    UniqueViolation,
    /// Another error reported by the database.
    Database,
    /// Any other error of the database driver.
    Other,
}

/// A database error: its kind and its message.
#[derive(Debug, Clone)]
pub struct DbError {
    pub kind: DbErrorKind,
    pub message: String,
}

/// Errors inside the SQLite stores.
#[derive(Debug, Clone)]
pub enum SqliteError {
    /// A database error that is no store error.
    SqlxError(DbError),
    /// A store error.
    StoreError(StoreError),
    /// An error of the push notification subsystem, in words.
    DavPushError(String),
    /// An error of calendar or address data, in words.
    IcalError(String),
}

/// Classifies a database error: a missing row is a missing item, a broken
/// uniqueness constraint an existing item, anything else stays a database error.
pub fn from_db_error(err: DbError) -> (res: SqliteError)
    ensures
        err.kind == DbErrorKind::RowNotFound ==> res == SqliteError::StoreError(StoreError::NotFound),
        err.kind == DbErrorKind::UniqueViolation ==> res == SqliteError::StoreError(StoreError::AlreadyExists),
        err.kind != DbErrorKind::RowNotFound && err.kind != DbErrorKind::UniqueViolation ==> res
            == SqliteError::SqlxError(err),
{
    match err.kind {
        DbErrorKind::RowNotFound => SqliteError::StoreError(StoreError::NotFound),
        DbErrorKind::UniqueViolation => SqliteError::StoreError(StoreError::AlreadyExists),
        _ => SqliteError::SqlxError(err),
    }
}

/// The store error that an internal error is reported as: store errors as
/// they are, any other error as `Other` with its message.
pub fn into_store_error(err: SqliteError) -> (res: StoreError)
    ensures
        match err {
            SqliteError::StoreError(e) => res == e,
            SqliteError::SqlxError(e) => res == StoreError::Other(e.message),
            SqliteError::DavPushError(m) => res == StoreError::Other(m),
            SqliteError::IcalError(m) => res == StoreError::Other(m),
        },
{
    match err {
        SqliteError::StoreError(e) => e,
        SqliteError::SqlxError(e) => StoreError::Other(e.message),
        SqliteError::DavPushError(m) => StoreError::Other(m),
        SqliteError::IcalError(m) => StoreError::Other(m),
    }
}

/// The store error of a database error, through both conversions.
pub fn store_error_of_db(err: DbError) -> (res: StoreError)
    ensures
        err.kind == DbErrorKind::RowNotFound ==> res == StoreError::NotFound,
        err.kind == DbErrorKind::UniqueViolation ==> res == StoreError::AlreadyExists,
        err.kind != DbErrorKind::RowNotFound && err.kind != DbErrorKind::UniqueViolation ==> res
            == StoreError::Other(err.message),
{
    into_store_error(from_db_error(err))
}

/// Whether an item existed, from the outcome of looking it up: found means
/// it did, not found that it did not, and any other error is passed on.
pub open spec fn existed_spec<T>(lookup: Result<T, StoreError>) -> Result<bool, StoreError> {
    match lookup {
        Ok(_) => Ok(true),
        Err(StoreError::NotFound) => Ok(false),
        Err(e) => Err(e),
    }
}

/// An item existed exactly when looking it up found it; when the lookup
/// failed with anything but "not found" the failure is passed on as it is.
pub proof fn law_existed<T>(lookup: Result<T, StoreError>)
    ensures
        lookup is Ok <==> existed_spec(lookup) == Ok::<bool, StoreError>(true),
        lookup == Err::<T, StoreError>(StoreError::NotFound) <==> existed_spec(lookup) == Ok::<bool, StoreError>(false),
        lookup matches Err(e) ==> (e != StoreError::NotFound ==> existed_spec(lookup) == Err::<bool, StoreError>(e)),
{
}

/// Decides whether an item existed from the outcome of looking it up.
pub fn existed_before<T>(lookup: Result<T, StoreError>) -> (res: Result<bool, StoreError>)
    ensures
        res == existed_spec(lookup),
{
    match lookup {
        Ok(_) => Ok(true),
        Err(StoreError::NotFound) => Ok(false),
        Err(e) => Err(e),
    }
}

/// Whether a principal may be written: always when overwriting, otherwise
/// only when no principal of that id exists.
pub fn check_insert(overwrite: bool, exists: bool) -> (res: Result<(), StoreError>)
    ensures
        !overwrite && exists ==> res == Err::<(), StoreError>(StoreError::AlreadyExists),
        overwrite || !exists ==> res == Ok::<(), StoreError>(()),
{
    if !overwrite && exists {
        Err(StoreError::AlreadyExists)
    } else {
        Ok(())
    }
}

} // verus!
