//! The sort resolver: picks the ordering column for list queries.

use vstd::prelude::*;

use crate::column::Column;
use crate::error::ErrorKind;
use crate::table::{column_lookup, Table};

verus! {

/// Resolves the ordering column of a list query. A requested name must
/// match a column exactly, else the request is a `NotFound`; with no
/// request, the first column — the one at the lowest ordinal position —
/// is the default, on the heuristic that it identifies rows. A table
/// without columns cannot be ordered.
pub fn resolve<'a>(table: &'a Table, requested: Option<&String>) -> (r: Result<
    &'a Column,
    ErrorKind,
>)
    ensures
        r is Err ==> r->Err_0 == ErrorKind::NotFound,
        match requested {
            Some(name) => {
                &&& r is Ok <==> table.has_column(name@)
                &&& r is Ok ==> Some(*r->Ok_0) == column_lookup(table.columns@, name@)
                &&& r is Ok ==> (*r->Ok_0).name@ == name@ && exists|i: int|
                    0 <= i < table.columns@.len() && #[trigger] table.columns@[i] == *r->Ok_0
            },
            None => {
                &&& r is Ok <==> table.columns@.len() > 0
                &&& r is Ok ==> *r->Ok_0 == table.columns@[0]
            },
        },
{
    match requested {
        Some(name) => {
            match table.find_column(name.as_str()) {
                Some(column) => Ok(column),
                None => Err(ErrorKind::NotFound),
            }
        },
        None => {
            if table.columns.len() > 0 {
                Ok(&table.columns[0])
            } else {
                Err(ErrorKind::NotFound)
            }
        },
    }
}

} // verus!
