//! The row projector: reads a generic result row, keyed by column name,
//! into a column-ordered sequence of name/text pairs for presentation.

use vstd::prelude::*;

use crate::column::Column;
use crate::error::ErrorKind;
use crate::table::Table;
use crate::text::str_eq;

verus! {

/// One result row of a list or single-row query: each selected column's
/// text value under the column's name. The shape is generic because the
/// set of columns is only known at runtime from the catalog.
#[derive(Debug, PartialEq)]
pub struct RowData {
    pub values: Vec<(String, String)>,
}

/// The text value the row holds under `name`: the first pair with that
/// name, if any.
pub open spec fn row_lookup(values: Seq<(String, String)>, name: Seq<char>) -> Option<Seq<char>>
    decreases values.len(),
{
    if values.len() == 0 {
        None
    } else if values[0].0@ == name {
        Some(values[0].1@)
    } else {
        row_lookup(values.skip(1), name)
    }
}

/// A name that matches no pair is not in the row.
proof fn lemma_row_lookup_none(values: Seq<(String, String)>, name: Seq<char>)
    requires
        forall|k: int| 0 <= k < values.len() ==> (#[trigger] values[k]).0@ != name,
    ensures
        row_lookup(values, name) is None,
    decreases values.len(),
{
    if values.len() > 0 {
        lemma_row_lookup_none(values.skip(1), name);
    }
}

/// The first matching pair decides the lookup.
proof fn lemma_row_lookup_first(values: Seq<(String, String)>, name: Seq<char>, i: int)
    requires
        0 <= i < values.len(),
        values[i].0@ == name,
        forall|k: int| 0 <= k < i ==> (#[trigger] values[k]).0@ != name,
    ensures
        row_lookup(values, name) == Some(values[i].1@),
    decreases values.len(),
{
    if i > 0 {
        lemma_row_lookup_first(values.skip(1), name, i - 1);
    }
}

/// Reads the first value a name/value list holds under `name`.
pub fn assoc_get<'a>(values: &'a Vec<(String, String)>, name: &str) -> (r: Option<&'a String>)
    ensures
        r is Some <==> row_lookup(values@, name@) is Some,
        r is Some ==> Some(r->0@) == row_lookup(values@, name@),
{
    let mut i: usize = 0;
    while i < values.len()
        invariant
            i <= values@.len(),
            forall|k: int| 0 <= k < i ==> (#[trigger] values@[k]).0@ != name@,
        decreases values@.len() - i,
    {
        if str_eq(values[i].0.as_str(), name) {
            proof {
                lemma_row_lookup_first(values@, name@, i as int);
            }
            return Some(&values[i].1);
        }
        i += 1;
    }
    proof {
        lemma_row_lookup_none(values@, name@);
    }
    None
}

impl RowData {
    /// Reads the text value under `name`, if the row has one.
    pub fn get(&self, name: &str) -> (r: Option<&String>)
        ensures
            r is Some <==> row_lookup(self.values@, name@) is Some,
            r is Some ==> Some(r->0@) == row_lookup(self.values@, name@),
    {
        assoc_get(&self.values, name)
    }
}

/// Projects one generic row through a table's columns: for each column
/// in ordinal order, its name paired with the row's text value for it.
/// A column the row does not answer for is a `NotFound`: the row does
/// not fit the table.
pub fn project(table: &Table, row: &RowData) -> (r: Result<Vec<(String, String)>, ErrorKind>)
    ensures
        r is Ok <==> forall|c: int|
            0 <= c < table.columns@.len() ==> row_lookup(
                row.values@,
                (#[trigger] table.columns@[c]).name@,
            ) is Some,
        r is Err ==> r->Err_0 == ErrorKind::NotFound,
        r is Ok ==> ({
            let out = r->Ok_0@;
            &&& out.len() == table.columns@.len()
            &&& forall|c: int|
                0 <= c < out.len() ==> (#[trigger] out[c]).0@ == table.columns@[c].name@ && Some(
                    out[c].1@,
                ) == row_lookup(row.values@, table.columns@[c].name@)
        }),
{
    let mut out: Vec<(String, String)> = Vec::new();
    let mut c: usize = 0;
    while c < table.columns.len()
        invariant
            c <= table.columns@.len(),
            out@.len() == c,
            forall|k: int|
                0 <= k < c ==> (#[trigger] out@[k]).0@ == table.columns@[k].name@ && Some(
                    out@[k].1@,
                ) == row_lookup(row.values@, table.columns@[k].name@),
        decreases table.columns@.len() - c,
    {
        let column = &table.columns[c];
        match row.get(column.name.as_str()) {
            None => {
                return Err(ErrorKind::NotFound);
            },
            Some(value) => {
                out.push((column.name.clone(), value.clone()));
            },
        }
        c += 1;
    }
    proof {
        assert forall|k: int| 0 <= k < table.columns@.len() implies row_lookup(
            row.values@,
            (#[trigger] table.columns@[k]).name@,
        ) is Some by {
            assert(Some(out@[k].1@) == row_lookup(row.values@, table.columns@[k].name@));
        }
    }
    Ok(out)
}

/// The presentation shape of one column heading: its name and declared
/// type, the latter used as a styling class.
#[derive(Debug, PartialEq)]
pub struct TableColumn {
    pub data_type: String,
    pub name: String,
}

impl TableColumn {
    /// Extracts the presentation shape of one column.
    pub fn from_column(column: &Column) -> (r: TableColumn)
        ensures
            r.data_type@ == column.data_type@,
            r.name@ == column.name@,
    {
        TableColumn { data_type: column.data_type.clone(), name: column.name.clone() }
    }
}

/// The presentation shapes of all of a table's columns, in ordinal
/// order.
pub fn table_columns(table: &Table) -> (r: Vec<TableColumn>)
    ensures
        r@.len() == table.columns@.len(),
        forall|c: int|
            0 <= c < r@.len() ==> (#[trigger] r@[c]).data_type@ == table.columns@[c].data_type@
                && r@[c].name@ == table.columns@[c].name@,
{
    let mut out: Vec<TableColumn> = Vec::new();
    let mut c: usize = 0;
    while c < table.columns.len()
        invariant
            c <= table.columns@.len(),
            out@.len() == c,
            forall|k: int|
                0 <= k < c ==> (#[trigger] out@[k]).data_type@ == table.columns@[k].data_type@
                    && out@[k].name@ == table.columns@[k].name@,
        decreases table.columns@.len() - c,
    {
        out.push(TableColumn::from_column(&table.columns[c]));
        c += 1;
    }
    out
}

} // verus!
