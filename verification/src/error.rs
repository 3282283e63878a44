//! The errors that a handler answers with, and those that the database layer reports.

use diesel::result::Error as DieselFailure;
use vstd::prelude::*;

verus! {

/// Diesel's error, carried through unread.
#[verifier::external_type_specification]
#[verifier::external_body]
pub struct ExDieselFailure(DieselFailure);

/// What a request is refused with.
#[derive(Debug)]
pub enum Error {
    /// A message could not be read or written.
    BuilderCore(String),
    /// A call into the archive's object store panicked.
    CaughtPanic(String, String),
    /// The request contradicts what is already known.
    Conflict,
    /// No database connection could be had.
    Db(String),
    /// A database query failed.
    DieselError(DieselFailure),
    /// What the request names does not exist, or may not be built.
    NotFound,
    /// The datastore failed; the cause is logged and not passed on.
    System,
    /// Any other failure of the services behind the handlers.
    Other(String),
}

/// Why a database query for one row gave none.
#[derive(Debug)]
pub enum QueryError {
    /// The query ran and matched no row.
    NotFound,
    /// The query failed.
    Failed(DieselFailure),
}

/// Why a lookup that first takes a connection from the pool gave no row.
#[derive(Debug)]
pub enum LookupError {
    /// The pool gave no connection, so nothing was asked.
    Connection(String),
    /// The query gave no row.
    Query(QueryError),
}

} // verus!
