use vstd::prelude::*;

use crate::db::DataError;
use crate::models::Todo;

verus! {

/// Success with a body.
pub const STATUS_OK: u16 = 200;

/// Resource created.
pub const STATUS_CREATED: u16 = 201;

/// Success without a body.
pub const STATUS_NO_CONTENT: u16 = 204;

/// No row with the requested id.
pub const STATUS_NOT_FOUND: u16 = 404;

/// A data-access failure, whatever its cause.
pub const STATUS_INTERNAL_ERROR: u16 = 500;

/// GET /todos: 200 with the full list, or 500 on a data-access failure.
pub fn list_todos(r: Result<Vec<Todo>, DataError>) -> (resp: (u16, Option<Vec<Todo>>))
    ensures
        r matches Ok(v) ==> resp == (STATUS_OK, Some(v)),
        r is Err ==> resp == (STATUS_INTERNAL_ERROR, None::<Vec<Todo>>),
{
    match r {
        Ok(v) => (STATUS_OK, Some(v)),
        Err(_) => (STATUS_INTERNAL_ERROR, None),
    }
}

/// GET /todos/{id}: 200 with the row, 404 when absent, 500 on failure.
pub fn get_todo(r: Result<Option<Todo>, DataError>) -> (resp: (u16, Option<Todo>))
    ensures
        r matches Ok(Some(t)) ==> resp == (STATUS_OK, Some(t)),
        r matches Ok(None) ==> resp == (STATUS_NOT_FOUND, None::<Todo>),
        r is Err ==> resp == (STATUS_INTERNAL_ERROR, None::<Todo>),
{
    match r {
        Ok(Some(t)) => (STATUS_OK, Some(t)),
        Ok(None) => (STATUS_NOT_FOUND, None),
        Err(_) => (STATUS_INTERNAL_ERROR, None),
    }
}

/// POST /todos: 201 with the created row, or 500 on failure.
pub fn create_todo(r: Result<Todo, DataError>) -> (resp: (u16, Option<Todo>))
    ensures
        r matches Ok(t) ==> resp == (STATUS_CREATED, Some(t)),
        r is Err ==> resp == (STATUS_INTERNAL_ERROR, None::<Todo>),
{
    match r {
        Ok(t) => (STATUS_CREATED, Some(t)),
        Err(_) => (STATUS_INTERNAL_ERROR, None),
    }
}

/// PUT /todos/{id}: 200 with the merged row, 404 when absent, 500 on
/// failure.
pub fn update_todo(r: Result<Option<Todo>, DataError>) -> (resp: (u16, Option<Todo>))
    ensures
        r matches Ok(Some(t)) ==> resp == (STATUS_OK, Some(t)),
        r matches Ok(None) ==> resp == (STATUS_NOT_FOUND, None::<Todo>),
        r is Err ==> resp == (STATUS_INTERNAL_ERROR, None::<Todo>),
{
    match r {
        Ok(Some(t)) => (STATUS_OK, Some(t)),
        Ok(None) => (STATUS_NOT_FOUND, None),
        Err(_) => (STATUS_INTERNAL_ERROR, None),
    }
}

/// DELETE /todos/{id}: 204 without a body when a row went, 404 when none
/// matched, 500 on failure.
pub fn delete_todo(r: Result<bool, DataError>) -> (status: u16)
    ensures
        r == Ok::<bool, DataError>(true) ==> status == STATUS_NO_CONTENT,
        r == Ok::<bool, DataError>(false) ==> status == STATUS_NOT_FOUND,
        r is Err ==> status == STATUS_INTERNAL_ERROR,
{
    match r {
        Ok(true) => STATUS_NO_CONTENT,
        Ok(false) => STATUS_NOT_FOUND,
        Err(_) => STATUS_INTERNAL_ERROR,
    }
}

} // verus!
