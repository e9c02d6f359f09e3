//! Collection of the changes of a collection since a synchronisation token.

use crate::store::error::StoreError;
use vstd::prelude::*;

verus! {

/// A change log entry: an object changed at a synchronisation token.
#[derive(Debug, Clone)]
pub struct ChangeRow {
    pub object_id: String,
    pub synctoken: i64,
}

/// The kind of change an object went through.
#[derive(Debug, Clone, Copy, PartialEq, Eq, Structural)]
pub enum ChangeOperation {
    /// Added or modified; the two are not told apart.
    Add,
    /// Deleted.
    Delete,
}

/// The token after the changes: that of the last change, or 0 when there is none.
pub fn new_synctoken(changes: &Vec<ChangeRow>) -> (res: i64)
    ensures
        changes@.len() == 0 ==> res == 0,
        changes@.len() > 0 ==> res == changes@.last().synctoken,
{
    if changes.len() == 0 {
        0
    } else {
        changes[changes.len() - 1].synctoken
    }
}

/// Takes the outcome of looking up a changed object: a found object is a
/// changed object, a missing one a deleted object, and any other error
/// ends the collection.
pub fn absorb_lookup<T>(objects: &mut Vec<T>, deleted: &mut Vec<String>, object_id: String, lookup: Result<T, StoreError>) -> (res: Result<(), StoreError>)
    ensures
        match lookup {
            Ok(o) => res is Ok && final(objects)@ == old(objects)@.push(o) && final(deleted)@ == old(deleted)@,
            Err(StoreError::NotFound) => res is Ok && final(objects)@ == old(objects)@ && final(deleted)@
                == old(deleted)@.push(object_id),
            Err(e) => res == Err::<(), StoreError>(e) && final(objects)@ == old(objects)@ && final(deleted)@
                == old(deleted)@,
        },
{
    match lookup {
        Ok(o) => {
            objects.push(o);
            Ok(())
        },
        Err(StoreError::NotFound) => {
            deleted.push(object_id);
            Ok(())
        },
        Err(e) => Err(e),
    }
}

} // verus!
