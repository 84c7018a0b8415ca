//! The statement builder: emits identifier-quoted, type-cast,
//! parameter-bound SELECT, INSERT and UPDATE text from a table's
//! metadata and untyped submitted values.
//!
//! Two rules defend against injection. Every identifier is emitted in
//! quoted-identifier syntax ([`crate::text::quote_ident`]), since
//! identifiers cannot be parameter-bound; every value travels as a
//! positional bind parameter and never enters the text. Each parameter
//! carries an explicit cast to the column's declared type, because
//! submitted values arrive as untyped strings. Single-row SELECT and
//! UPDATE identify the row by the conventional `id` column.

use vstd::prelude::*;

use crate::column::Column;
use crate::error::ErrorKind;
use crate::project::row_lookup;
use crate::table::{column_lookup, Meta, Table};
use crate::text::{dec_str, spec_quote_ident, quote_ident, str_eq, u64_to_string};

verus! {

/// One positional bind value, in statement order.
#[derive(Debug, PartialEq)]
pub enum BindValue {
    /// A submitted value, passed through as text for the cast to coerce.
    Text(String),
    /// A record-identifying key.
    Int(i64),
}

/// An executable statement: its text and the bind values, in the order
/// of the positional parameters the text mentions.
#[derive(Debug, PartialEq)]
pub struct Statement {
    pub text: String,
    pub params: Vec<BindValue>,
}

/// The quoted, schema-qualified form of a table's name.
pub open spec fn qualified_table(meta: Meta) -> Seq<char> {
    spec_quote_ident(meta.schema@) + "."@ + spec_quote_ident(meta.name@)
}

/// One selected column: quoted and cast to text, so that one generic
/// row shape fits arbitrarily-typed columns.
pub open spec fn select_item(c: Column) -> Seq<char> {
    spec_quote_ident(c.name@) + "::text"@
}

/// The comma-separated select list over `columns`.
pub open spec fn select_list(columns: Seq<Column>) -> Seq<char>
    decreases columns.len(),
{
    if columns.len() == 0 {
        Seq::empty()
    } else if columns.len() == 1 {
        select_item(columns[0])
    } else {
        select_list(columns.drop_last()) + ", "@ + select_item(columns.last())
    }
}

/// The ordering direction a request asks for; `asc` when unspecified.
pub open spec fn requested_direction(dir: Option<&String>) -> Seq<char> {
    match dir {
        None => "asc"@,
        Some(d) => d@,
    }
}

/// Whether the requested direction is one of the two admissible words.
/// Anything else is rejected, never interpolated.
pub open spec fn direction_valid(dir: Option<&String>) -> bool {
    match dir {
        None => true,
        Some(d) => d@ == "asc"@ || d@ == "desc"@,
    }
}

/// The column a list query is ordered by: the named one, or the first
/// by ordinal position when none is named.
pub open spec fn resolved_sort_column(table: Table, requested: Option<&String>) -> Option<Column> {
    match requested {
        Some(n) => column_lookup(table.columns@, n@),
        None => if table.columns@.len() > 0 {
            Some(table.columns@[0])
        } else {
            None
        },
    }
}

/// The text of a list SELECT: every column cast to text, ordered by the
/// sort column under its declared type, limited.
pub open spec fn spec_select_text(
    table: Table,
    sort: Column,
    dir: Seq<char>,
    limit: u64,
) -> Seq<char> {
    "SELECT "@ + select_list(table.columns@) + " FROM "@ + qualified_table(table.meta)
        + " ORDER BY "@ + spec_quote_ident(sort.name@) + "::"@ + sort.data_type@ + " "@ + dir
        + " LIMIT "@ + dec_str(limit as nat)
}

/// Emits the quoted, schema-qualified form of the table's name.
fn qualified_table_exec(meta: &Meta) -> (r: String)
    ensures
        r@ == qualified_table(*meta),
{
    let mut out = quote_ident(meta.schema.as_str());
    out.append(".");
    let n = quote_ident(meta.name.as_str());
    out.append(n.as_str());
    out
}

/// Emits the comma-separated select list of all columns.
fn select_list_exec(columns: &Vec<Column>) -> (r: String)
    ensures
        r@ == select_list(columns@),
{
    let mut out = String::new();
    let mut c: usize = 0;
    while c < columns.len()
        invariant
            c <= columns@.len(),
            out@ == select_list(columns@.take(c as int)),
        decreases columns@.len() - c,
    {
        proof {
            assert(columns@.take(c as int + 1).drop_last() =~= columns@.take(c as int));
            assert(columns@.take(c as int + 1).last() == columns@[c as int]);
        }
        if c > 0 {
            out.append(", ");
        }
        let q = quote_ident(columns[c].name.as_str());
        out.append(q.as_str());
        out.append("::text");
        proof {
            assert(out@ =~= select_list(columns@.take(c as int + 1)));
        }
        c += 1;
    }
    proof {
        assert(columns@.take(columns@.len() as int) =~= columns@);
    }
    out
}

/// Builds the list SELECT over a table: all columns cast to text,
/// ordered by the requested column (the first column when none is
/// requested) in the requested direction (`asc` when none), limited to
/// `limit` rows. A sort column that does not resolve is a `NotFound`; a
/// direction other than `asc` or `desc` is a `Validation` and never
/// reaches the text. The statement binds no values.
pub fn build_select(
    table: &Table,
    sort_column: Option<&String>,
    sort_direction: Option<&String>,
    limit: u64,
) -> (r: Result<Statement, ErrorKind>)
    ensures
        r is Ok <==> resolved_sort_column(*table, sort_column) is Some && direction_valid(
            sort_direction,
        ),
        resolved_sort_column(*table, sort_column) is None ==> r == Err::<
            Statement,
            ErrorKind,
        >(ErrorKind::NotFound),
        resolved_sort_column(*table, sort_column) is Some && !direction_valid(sort_direction) ==> r
            == Err::<Statement, ErrorKind>(ErrorKind::Validation),
        r is Ok ==> ({
            let stmt = r->Ok_0;
            &&& stmt.text@ == spec_select_text(
                *table,
                resolved_sort_column(*table, sort_column)->0,
                requested_direction(sort_direction),
                limit,
            )
            &&& stmt.params@.len() == 0
        }),
{
    proof {
        match sort_column {
            Some(n) => crate::table::lemma_column_lookup_exists(table.columns@, n@),
            None => {},
        }
    }
    let sort = match crate::sort::resolve(table, sort_column) {
        Ok(column) => column,
        Err(e) => {
            return Err(ErrorKind::NotFound);
        },
    };
    let dir: &str = match sort_direction {
        None => "asc",
        Some(d) => {
            if !(str_eq(d.as_str(), "asc") || str_eq(d.as_str(), "desc")) {
                return Err(ErrorKind::Validation);
            }
            d.as_str()
        },
    };
    let mut text = String::from_str("SELECT ");
    let list = select_list_exec(&table.columns);
    text.append(list.as_str());
    text.append(" FROM ");
    let qualified = qualified_table_exec(&table.meta);
    text.append(qualified.as_str());
    text.append(" ORDER BY ");
    let sort_ident = quote_ident(sort.name.as_str());
    text.append(sort_ident.as_str());
    text.append("::");
    text.append(sort.data_type.as_str());
    text.append(" ");
    text.append(dir);
    text.append(" LIMIT ");
    let limit_text = u64_to_string(limit);
    text.append(limit_text.as_str());
    proof {
        assert(text@ =~= spec_select_text(
            *table,
            resolved_sort_column(*table, sort_column)->0,
            requested_direction(sort_direction),
            limit,
        ));
    }
    Ok(Statement { text, params: Vec::new() })
}

/// The text of a single-row SELECT by the conventional `id` column.
pub open spec fn spec_select_by_key_text(table: Table, id_column: Column) -> Seq<char> {
    "SELECT "@ + select_list(table.columns@) + " FROM "@ + qualified_table(table.meta)
        + " WHERE "@ + spec_quote_ident("id"@) + " = $1::"@ + id_column.data_type@
}

/// Builds the single-row SELECT that fetches the record whose `id`
/// column equals `key`. A table without an `id` column cannot identify
/// a record this way: `NotFound`. The statement binds exactly the key.
pub fn build_select_by_key(table: &Table, key: i64) -> (r: Result<Statement, ErrorKind>)
    ensures
        r is Ok <==> table.has_column("id"@),
        r is Err ==> r->Err_0 == ErrorKind::NotFound,
        r is Ok ==> ({
            let stmt = r->Ok_0;
            &&& stmt.text@ == spec_select_by_key_text(
                *table,
                column_lookup(table.columns@, "id"@)->0,
            )
            &&& stmt.params@ == seq![BindValue::Int(key)]
        }),
{
    let id_column = match table.find_column("id") {
        Some(column) => column,
        None => {
            return Err(ErrorKind::NotFound);
        },
    };
    let mut text = String::from_str("SELECT ");
    let list = select_list_exec(&table.columns);
    text.append(list.as_str());
    text.append(" FROM ");
    let qualified = qualified_table_exec(&table.meta);
    text.append(qualified.as_str());
    text.append(" WHERE ");
    let id_ident = quote_ident("id");
    text.append(id_ident.as_str());
    text.append(" = $1::");
    text.append(id_column.data_type.as_str());
    let mut params: Vec<BindValue> = Vec::new();
    params.push(BindValue::Int(key));
    proof {
        assert(text@ =~= spec_select_by_key_text(*table, column_lookup(table.columns@, "id"@)->0));
        assert(params@ =~= seq![BindValue::Int(key)]);
    }
    Ok(Statement { text, params })
}

/// The column/value pairs an INSERT binds: for each column in ordinal
/// order that is not always generated, the first submitted value under
/// its name — except an empty string, which means "omit this column and
/// let the database apply its default or generation", deliberately
/// distinct from wanting an empty string stored.
pub open spec fn insert_pairs(columns: Seq<Column>, values: Seq<(String, String)>) -> Seq<
    (Column, Seq<char>),
>
    decreases columns.len(),
{
    if columns.len() == 0 {
        Seq::empty()
    } else {
        let rest = insert_pairs(columns.drop_last(), values);
        let c = columns.last();
        let v = row_lookup(values, c.name@);
        if !c.spec_always_generated() && v is Some && v->0.len() > 0 {
            rest.push((c, v->0))
        } else {
            rest
        }
    }
}

/// The column/value pairs an UPDATE binds: as for INSERT, but an empty
/// string is a value like any other.
pub open spec fn update_pairs(columns: Seq<Column>, values: Seq<(String, String)>) -> Seq<
    (Column, Seq<char>),
>
    decreases columns.len(),
{
    if columns.len() == 0 {
        Seq::empty()
    } else {
        let rest = update_pairs(columns.drop_last(), values);
        let c = columns.last();
        let v = row_lookup(values, c.name@);
        if !c.spec_always_generated() && v is Some {
            rest.push((c, v->0))
        } else {
            rest
        }
    }
}

/// An always-generated column is never among the columns an INSERT
/// binds, whatever the submission holds for it.
pub proof fn lemma_insert_pairs_exclude_generated(
    columns: Seq<Column>,
    values: Seq<(String, String)>,
)
    ensures
        forall|k: int|
            0 <= k < insert_pairs(columns, values).len() ==> !(#[trigger] insert_pairs(
                columns,
                values,
            )[k]).0.spec_always_generated(),
    decreases columns.len(),
{
    if columns.len() > 0 {
        lemma_insert_pairs_exclude_generated(columns.drop_last(), values);
        let rest = insert_pairs(columns.drop_last(), values);
        let all = insert_pairs(columns, values);
        assert forall|k: int| 0 <= k < all.len() implies !(#[trigger] all[k]).0.spec_always_generated() by {
            if k < rest.len() {
                assert(all[k] == rest[k]);
            }
        }
    }
}

/// An always-generated column is never among the columns an UPDATE
/// binds, whatever the submission holds for it.
pub proof fn lemma_update_pairs_exclude_generated(
    columns: Seq<Column>,
    values: Seq<(String, String)>,
)
    ensures
        forall|k: int|
            0 <= k < update_pairs(columns, values).len() ==> !(#[trigger] update_pairs(
                columns,
                values,
            )[k]).0.spec_always_generated(),
    decreases columns.len(),
{
    if columns.len() > 0 {
        lemma_update_pairs_exclude_generated(columns.drop_last(), values);
        let rest = update_pairs(columns.drop_last(), values);
        let all = update_pairs(columns, values);
        assert forall|k: int| 0 <= k < all.len() implies !(#[trigger] all[k]).0.spec_always_generated() by {
            if k < rest.len() {
                assert(all[k] == rest[k]);
            }
        }
    }
}

/// The comma-separated quoted column names of the bound pairs.
pub open spec fn column_list_text(pairs: Seq<(Column, Seq<char>)>) -> Seq<char>
    decreases pairs.len(),
{
    if pairs.len() == 0 {
        Seq::empty()
    } else if pairs.len() == 1 {
        spec_quote_ident(pairs[0].0.name@)
    } else {
        column_list_text(pairs.drop_last()) + ", "@ + spec_quote_ident(pairs.last().0.name@)
    }
}

/// The `k`-th positional parameter, cast to the column's declared type.
pub open spec fn bind_item(c: Column, k: int) -> Seq<char> {
    "$"@ + dec_str(k as nat) + "::"@ + c.data_type@
}

/// The comma-separated bind parameters of the pairs, numbered from 1.
pub open spec fn binds_text(pairs: Seq<(Column, Seq<char>)>) -> Seq<char>
    decreases pairs.len(),
{
    if pairs.len() == 0 {
        Seq::empty()
    } else if pairs.len() == 1 {
        bind_item(pairs[0].0, 1)
    } else {
        binds_text(pairs.drop_last()) + ", "@ + bind_item(pairs.last().0, pairs.len() as int)
    }
}

/// One SET assignment: the quoted column name set to its parameter.
pub open spec fn set_item(c: Column, k: int) -> Seq<char> {
    spec_quote_ident(c.name@) + " = "@ + bind_item(c, k)
}

/// The comma-separated SET assignments of the pairs, numbered from 1.
pub open spec fn set_text(pairs: Seq<(Column, Seq<char>)>) -> Seq<char>
    decreases pairs.len(),
{
    if pairs.len() == 0 {
        Seq::empty()
    } else if pairs.len() == 1 {
        set_item(pairs[0].0, 1)
    } else {
        set_text(pairs.drop_last()) + ", "@ + set_item(pairs.last().0, pairs.len() as int)
    }
}

/// Whether the submission names a column the table does not have.
pub open spec fn has_unknown_submission(columns: Seq<Column>, values: Seq<(String, String)>) -> bool {
    exists|j: int| 0 <= j < values.len() && column_lookup(columns, (#[trigger] values[j]).0@) is None
}

/// Whether the bind values hold exactly the pairs' values as text.
pub open spec fn params_hold_pairs(params: Seq<BindValue>, pairs: Seq<(Column, Seq<char>)>) -> bool {
    forall|k: int|
        0 <= k < pairs.len() ==> (#[trigger] params[k]) is Text && params[k]->Text_0@ == pairs[k].1
}

/// Scans a submission for a name that resolves to no column.
fn find_unknown_submission(table: &Table, values: &Vec<(String, String)>) -> (r: bool)
    ensures
        r == has_unknown_submission(table.columns@, values@),
{
    let mut j: usize = 0;
    while j < values.len()
        invariant
            j <= values@.len(),
            forall|k: int|
                0 <= k < j ==> column_lookup(table.columns@, (#[trigger] values@[k]).0@) is Some,
        decreases values@.len() - j,
    {
        proof {
            crate::table::lemma_column_lookup_exists(table.columns@, values@[j as int].0@);
        }
        if table.find_column(values[j].0.as_str()).is_none() {
            return true;
        }
        j += 1;
    }
    false
}

/// The INSERT text over the bound pairs.
pub open spec fn spec_insert_text(table: Table, pairs: Seq<(Column, Seq<char>)>) -> Seq<char> {
    "INSERT INTO "@ + qualified_table(table.meta) + " ("@ + column_list_text(pairs)
        + ") VALUES ("@ + binds_text(pairs) + ")"@
}

/// Builds the INSERT of one submission into a table. Always-generated
/// columns are never bound, whatever the submission holds for them;
/// empty submitted strings mean "omit, let the database decide". A
/// submission naming a column the table does not have, or one that
/// leaves nothing to insert, is a `Validation`.
pub fn build_insert(table: &Table, values: &Vec<(String, String)>) -> (r: Result<
    Statement,
    ErrorKind,
>)
    ensures
        r is Err ==> r->Err_0 == ErrorKind::Validation,
        r is Ok <==> !has_unknown_submission(table.columns@, values@) && insert_pairs(
            table.columns@,
            values@,
        ).len() > 0,
        r is Ok ==> ({
            let pairs = insert_pairs(table.columns@, values@);
            let stmt = r->Ok_0;
            &&& stmt.text@ == spec_insert_text(*table, pairs)
            &&& stmt.params@.len() == pairs.len()
            &&& params_hold_pairs(stmt.params@, pairs)
        }),
{
    if find_unknown_submission(table, values) {
        return Err(ErrorKind::Validation);
    }
    let mut cols_text = String::new();
    let mut binds = String::new();
    let mut params: Vec<BindValue> = Vec::new();
    let mut count: usize = 0;
    let mut c: usize = 0;
    while c < table.columns.len()
        invariant
            c <= table.columns@.len(),
            count <= c,
            count == insert_pairs(table.columns@.take(c as int), values@).len(),
            cols_text@ == column_list_text(insert_pairs(table.columns@.take(c as int), values@)),
            binds@ == binds_text(insert_pairs(table.columns@.take(c as int), values@)),
            params@.len() == count,
            params_hold_pairs(params@, insert_pairs(table.columns@.take(c as int), values@)),
        decreases table.columns@.len() - c,
    {
        proof {
            assert(table.columns@.take(c as int + 1).drop_last() =~= table.columns@.take(c as int));
            assert(table.columns@.take(c as int + 1).last() == table.columns@[c as int]);
        }
        let column = &table.columns[c];
        if !column.always_generated() {
            match crate::project::assoc_get(values, column.name.as_str()) {
                None => {},
                Some(v) => {
                    if !v.as_str().is_empty() {
                        let ghost pairs = insert_pairs(table.columns@.take(c as int), values@);
                        let ghost pair = (table.columns@[c as int], v@);
                        if count > 0 {
                            cols_text.append(", ");
                            binds.append(", ");
                        }
                        let q = quote_ident(column.name.as_str());
                        cols_text.append(q.as_str());
                        binds.append("$");
                        let k = u64_to_string((count + 1) as u64);
                        binds.append(k.as_str());
                        binds.append("::");
                        binds.append(column.data_type.as_str());
                        params.push(BindValue::Text(v.clone()));
                        count += 1;
                        proof {
                            let now = insert_pairs(table.columns@.take(c as int + 1), values@);
                            assert(now == pairs.push(pair));
                            assert(pairs.push(pair).drop_last() =~= pairs);
                            assert(cols_text@ =~= column_list_text(now));
                            assert(binds@ =~= binds_text(now));
                        }
                    }
                },
            }
        }
        c += 1;
    }
    proof {
        assert(table.columns@.take(table.columns@.len() as int) =~= table.columns@);
    }
    if count == 0 {
        return Err(ErrorKind::Validation);
    }
    let mut text = String::from_str("INSERT INTO ");
    let qualified = qualified_table_exec(&table.meta);
    text.append(qualified.as_str());
    text.append(" (");
    text.append(cols_text.as_str());
    text.append(") VALUES (");
    text.append(binds.as_str());
    text.append(")");
    proof {
        assert(text@ =~= spec_insert_text(*table, insert_pairs(table.columns@, values@)));
    }
    Ok(Statement { text, params })
}

/// The UPDATE text over the bound pairs, identifying the row by the
/// `id` column, whose key is the last parameter.
pub open spec fn spec_update_text(
    table: Table,
    pairs: Seq<(Column, Seq<char>)>,
    id_column: Column,
) -> Seq<char> {
    "UPDATE "@ + qualified_table(table.meta) + " SET "@ + set_text(pairs) + " WHERE "@
        + spec_quote_ident("id"@) + " = "@ + bind_item(id_column, pairs.len() as int + 1)
}

/// Builds the UPDATE of one submission against the record whose `id`
/// column equals `key`. Always-generated columns are never bound; an
/// empty submitted string is stored as an empty string (the
/// omit-on-empty rule is INSERT's alone). A submission naming a column
/// the table does not have, or one that leaves nothing to set, is a
/// `Validation`; a table without an `id` column is a `NotFound`.
#[verifier::rlimit(50)]
pub fn build_update(table: &Table, key: i64, values: &Vec<(String, String)>) -> (r: Result<
    Statement,
    ErrorKind,
>)
    requires
        table.columns@.len() < usize::MAX,
    ensures
        has_unknown_submission(table.columns@, values@) ==> r == Err::<
            Statement,
            ErrorKind,
        >(ErrorKind::Validation),
        !has_unknown_submission(table.columns@, values@) && !table.has_column("id"@) ==> r == Err::<
            Statement,
            ErrorKind,
        >(ErrorKind::NotFound),
        r is Ok <==> !has_unknown_submission(table.columns@, values@) && table.has_column("id"@)
            && update_pairs(table.columns@, values@).len() > 0,
        r is Err ==> r->Err_0 == ErrorKind::Validation || r->Err_0 == ErrorKind::NotFound,
        r is Ok ==> ({
            let pairs = update_pairs(table.columns@, values@);
            let stmt = r->Ok_0;
            &&& stmt.text@ == spec_update_text(
                *table,
                pairs,
                column_lookup(table.columns@, "id"@)->0,
            )
            &&& stmt.params@.len() == pairs.len() + 1
            &&& params_hold_pairs(stmt.params@, pairs)
            &&& stmt.params@.last() == BindValue::Int(key)
        }),
{
    if find_unknown_submission(table, values) {
        return Err(ErrorKind::Validation);
    }
    let id_column = match table.find_column("id") {
        Some(column) => column,
        None => {
            return Err(ErrorKind::NotFound);
        },
    };
    let mut sets = String::new();
    let mut params: Vec<BindValue> = Vec::new();
    let mut count: usize = 0;
    let mut c: usize = 0;
    while c < table.columns.len()
        invariant
            c <= table.columns@.len(),
            count <= c,
            count == update_pairs(table.columns@.take(c as int), values@).len(),
            sets@ == set_text(update_pairs(table.columns@.take(c as int), values@)),
            params@.len() == count,
            params_hold_pairs(params@, update_pairs(table.columns@.take(c as int), values@)),
        decreases table.columns@.len() - c,
    {
        proof {
            assert(table.columns@.take(c as int + 1).drop_last() =~= table.columns@.take(c as int));
            assert(table.columns@.take(c as int + 1).last() == table.columns@[c as int]);
        }
        let column = &table.columns[c];
        if !column.always_generated() {
            match crate::project::assoc_get(values, column.name.as_str()) {
                None => {},
                Some(v) => {
                    let ghost pairs = update_pairs(table.columns@.take(c as int), values@);
                    let ghost pair = (table.columns@[c as int], v@);
                    if count > 0 {
                        sets.append(", ");
                    }
                    let q = quote_ident(column.name.as_str());
                    sets.append(q.as_str());
                    sets.append(" = ");
                    sets.append("$");
                    let k = u64_to_string((count + 1) as u64);
                    sets.append(k.as_str());
                    sets.append("::");
                    sets.append(column.data_type.as_str());
                    params.push(BindValue::Text(v.clone()));
                    count += 1;
                    proof {
                        let now = update_pairs(table.columns@.take(c as int + 1), values@);
                        assert(now == pairs.push(pair));
                        assert(pairs.push(pair).drop_last() =~= pairs);
                        assert(sets@ =~= set_text(now));
                    }
                },
            }
        }
        c += 1;
    }
    proof {
        assert(table.columns@.take(table.columns@.len() as int) =~= table.columns@);
    }
    if count == 0 {
        return Err(ErrorKind::Validation);
    }
    let mut text = String::from_str("UPDATE ");
    let qualified = qualified_table_exec(&table.meta);
    text.append(qualified.as_str());
    text.append(" SET ");
    text.append(sets.as_str());
    text.append(" WHERE ");
    let id_ident = quote_ident("id");
    text.append(id_ident.as_str());
    text.append(" = ");
    text.append("$");
    let key_position = u64_to_string((count + 1) as u64);
    text.append(key_position.as_str());
    text.append("::");
    text.append(id_column.data_type.as_str());
    params.push(BindValue::Int(key));
    proof {
        assert(text@ =~= spec_update_text(
            *table,
            update_pairs(table.columns@, values@),
            column_lookup(table.columns@, "id"@)->0,
        ));
    }
    Ok(Statement { text, params })
}

} // verus!
