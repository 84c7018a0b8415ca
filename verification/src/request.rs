//! Plain request-parameter shapes handed in by the routing layer.

use vstd::prelude::*;

verus! {

/// Path parameters addressing a table.
#[derive(Debug, PartialEq)]
pub struct RecordsPath {
    /// The table's catalog object id.
    pub table_oid: u32,
}

/// Query parameters for a record-list request.
#[derive(Debug, PartialEq)]
pub struct RecordsParams {
    /// The requested page, reserved for pagination.
    pub page: Option<i64>,
    /// The column to order by; the first column when absent.
    pub sort_column: Option<String>,
    /// `asc` or `desc`; `asc` when absent. Anything else is rejected.
    pub sort_direction: Option<String>,
}

/// Path parameters addressing one record of a table.
#[derive(Debug, PartialEq)]
pub struct RecordPath {
    /// The table's catalog object id.
    pub table_oid: u32,
    /// The record's identifying key.
    pub record_id: i64,
}

} // verus!
