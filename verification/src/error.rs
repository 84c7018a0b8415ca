//! The error taxonomy shared by the catalog loader and the statement
//! builder.

use vstd::prelude::*;

verus! {

/// What went wrong, from the caller's point of view.
///
/// - `Configuration`: the scope filter or the loaded catalog is unusable
///   (empty include list, ambiguous unqualified table name, a table whose
///   metadata breaks the model's invariants). Fatal at load time.
/// - `Connectivity`: the database could not be reached or a query failed.
///   Never produced by this crate's own logic; reserved for the callers
///   that execute statements.
/// - `NotFound`: a requested table, column or record key does not resolve
///   against the current catalog.
/// - `Validation`: a request parameter or submitted value was rejected
///   before any statement was built.
#[derive(Clone, Copy, Debug, PartialEq, Eq, Structural)]
pub enum ErrorKind {
    Configuration,
    Connectivity,
    NotFound,
    Validation,
}

} // verus!
