//! The catalog assembly: filters raw schema/table rows through the
//! scope, refuses ambiguous or empty catalogs, and groups what is
//! visible by schema. All-or-nothing: an error exposes no partial
//! catalog.

use vstd::prelude::*;

use crate::config::Config;
use crate::error::ErrorKind;
use crate::scope::{qualified_name, scope_matches};
use crate::text::str_eq;

verus! {

/// One row of the table introspection view: a table's schema, name and
/// object id.
#[derive(Debug, PartialEq)]
pub struct TableRow {
    pub schema: String,
    pub table: String,
    pub oid: u32,
}

impl Clone for TableRow {
    fn clone(&self) -> (res: Self)
        ensures
            res == *self,
    {
        TableRow { schema: self.schema.clone(), table: self.table.clone(), oid: self.oid }
    }
}

/// One visible table under its schema: name and object id.
#[derive(Debug, PartialEq)]
pub struct SchemaTableValue {
    pub name: String,
    pub oid: u32,
}

impl Clone for SchemaTableValue {
    fn clone(&self) -> (res: Self)
        ensures
            res == *self,
    {
        SchemaTableValue { name: self.name.clone(), oid: self.oid }
    }
}

/// One schema of the catalog and its visible tables, in discovery
/// order.
#[derive(Debug, PartialEq)]
pub struct Schema {
    pub name: String,
    pub tables: Vec<SchemaTableValue>,
}

/// The loaded catalog: the visible schemas, each with its tables.
#[derive(Debug, PartialEq)]
pub struct Schemas(pub Vec<Schema>);

/// The schema-qualified name of a raw row.
pub open spec fn row_qualified(r: TableRow) -> Seq<char> {
    r.schema@ + "."@ + r.table@
}

/// Whether a raw row is visible under the scope.
pub open spec fn row_visible(r: TableRow, config: Config) -> bool {
    scope_matches(
        row_qualified(r),
        config.scope.includes.deep_view(),
        config.scope.exclude.deep_view(),
    )
}

/// The rows the scope lets through, in order.
pub open spec fn visible_rows(rows: Seq<TableRow>, config: Config) -> Seq<TableRow>
    decreases rows.len(),
{
    if rows.len() == 0 {
        Seq::empty()
    } else {
        let rest = visible_rows(rows.drop_last(), config);
        if row_visible(rows.last(), config) {
            rest.push(rows.last())
        } else {
            rest
        }
    }
}

/// The table entry a row becomes.
pub open spec fn row_entry(r: TableRow) -> SchemaTableValue {
    SchemaTableValue { name: r.table, oid: r.oid }
}

/// The table entries of the rows under schema `name`, in order.
pub open spec fn tables_of_schema(rows: Seq<TableRow>, name: Seq<char>) -> Seq<SchemaTableValue>
    decreases rows.len(),
{
    if rows.len() == 0 {
        Seq::empty()
    } else {
        let rest = tables_of_schema(rows.drop_last(), name);
        if rows.last().schema@ == name {
            rest.push(row_entry(rows.last()))
        } else {
            rest
        }
    }
}

/// Whether the configuration names a schema for table `name`, which
/// disambiguates it when it exists in several schemas.
pub open spec fn config_disambiguates(config: Config, name: Seq<char>) -> bool {
    config.tables is Some && exists|k: int|
        0 <= k < config.tables->0@.len() && (#[trigger] config.tables->0@[k]).table@ == name
            && config.tables->0@[k].schema is Some
}

/// Whether two rows share an unqualified table name across different
/// schemas with no configured disambiguation.
pub open spec fn rows_ambiguous(rows: Seq<TableRow>, config: Config) -> bool {
    exists|i: int, j: int|
        0 <= i < rows.len() && 0 <= j < rows.len() && (#[trigger] rows[i]).table@ == (
        #[trigger] rows[j]).table@ && rows[i].schema@ != rows[j].schema@ && !config_disambiguates(
            config,
            rows[i].table@,
        )
}

/// Whether `groups` has exactly one entry per schema name that the
/// kept rows mention.
pub open spec fn groups_complete(groups: Seq<Schema>, kept: Seq<TableRow>) -> bool {
    forall|n: Seq<char>|
        (exists|e: int| 0 <= e < groups.len() && (#[trigger] groups[e]).name@ == n)
            <==> #[trigger] tables_of_schema(kept, n).len() > 0
}

/// Whether each group holds exactly its schema's table entries from the
/// kept rows, in order.
pub open spec fn groups_exact(groups: Seq<Schema>, kept: Seq<TableRow>) -> bool {
    forall|e: int|
        0 <= e < groups.len() ==> (#[trigger] groups[e]).tables@ == tables_of_schema(
            kept,
            groups[e].name@,
        )
}

/// The first schema named `name`, if any.
pub open spec fn schema_lookup(groups: Seq<Schema>, name: Seq<char>) -> Option<Schema>
    decreases groups.len(),
{
    if groups.len() == 0 {
        None
    } else if groups[0].name@ == name {
        Some(groups[0])
    } else {
        schema_lookup(groups.skip(1), name)
    }
}

/// The first table entry named `name`, if any.
pub open spec fn table_lookup(tables: Seq<SchemaTableValue>, name: Seq<char>) -> Option<
    SchemaTableValue,
>
    decreases tables.len(),
{
    if tables.len() == 0 {
        None
    } else if tables[0].name@ == name {
        Some(tables[0])
    } else {
        table_lookup(tables.skip(1), name)
    }
}

/// A name that matches no schema is not in the catalog.
proof fn lemma_schema_lookup_none(groups: Seq<Schema>, name: Seq<char>)
    requires
        forall|k: int| 0 <= k < groups.len() ==> (#[trigger] groups[k]).name@ != name,
    ensures
        schema_lookup(groups, name) is None,
    decreases groups.len(),
{
    if groups.len() > 0 {
        lemma_schema_lookup_none(groups.skip(1), name);
    }
}

/// The first matching schema decides the lookup.
proof fn lemma_schema_lookup_first(groups: Seq<Schema>, name: Seq<char>, i: int)
    requires
        0 <= i < groups.len(),
        groups[i].name@ == name,
        forall|k: int| 0 <= k < i ==> (#[trigger] groups[k]).name@ != name,
    ensures
        schema_lookup(groups, name) == Some(groups[i]),
    decreases groups.len(),
{
    if i > 0 {
        lemma_schema_lookup_first(groups.skip(1), name, i - 1);
    }
}

/// A name that matches no table is not in the schema.
proof fn lemma_table_lookup_none(tables: Seq<SchemaTableValue>, name: Seq<char>)
    requires
        forall|k: int| 0 <= k < tables.len() ==> (#[trigger] tables[k]).name@ != name,
    ensures
        table_lookup(tables, name) is None,
    decreases tables.len(),
{
    if tables.len() > 0 {
        lemma_table_lookup_none(tables.skip(1), name);
    }
}

/// The first matching table decides the lookup.
proof fn lemma_table_lookup_first(tables: Seq<SchemaTableValue>, name: Seq<char>, i: int)
    requires
        0 <= i < tables.len(),
        tables[i].name@ == name,
        forall|k: int| 0 <= k < i ==> (#[trigger] tables[k]).name@ != name,
    ensures
        table_lookup(tables, name) == Some(tables[i]),
    decreases tables.len(),
{
    if i > 0 {
        lemma_table_lookup_first(tables.skip(1), name, i - 1);
    }
}

impl Schema {
    /// Looks up a visible table of this schema by unqualified name: the
    /// first entry under that name.
    pub fn find_table(&self, name: &str) -> (r: Option<&SchemaTableValue>)
        ensures
            r is Some <==> table_lookup(self.tables@, name@) is Some,
            r is Some ==> Some(*r->0) == table_lookup(self.tables@, name@),
    {
        let mut i: usize = 0;
        while i < self.tables.len()
            invariant
                i <= self.tables@.len(),
                forall|k: int| 0 <= k < i ==> (#[trigger] self.tables@[k]).name@ != name@,
            decreases self.tables@.len() - i,
        {
            if str_eq(self.tables[i].name.as_str(), name) {
                proof {
                    lemma_table_lookup_first(self.tables@, name@, i as int);
                }
                return Some(&self.tables[i]);
            }
            i += 1;
        }
        proof {
            lemma_table_lookup_none(self.tables@, name@);
        }
        None
    }
}

/// Checks whether the configuration names a schema for table `name`.
fn disambiguated(config: &Config, name: &str) -> (r: bool)
    ensures
        r == config_disambiguates(*config, name@),
{
    match &config.tables {
        None => false,
        Some(list) => {
            let mut k: usize = 0;
            while k < list.len()
                invariant
                    config.tables == Some(*list),
                    k <= list@.len(),
                    forall|x: int|
                        0 <= x < k ==> !((#[trigger] list@[x]).table@ == name@ && list@[x].schema
                            is Some),
                decreases list@.len() - k,
            {
                if str_eq(list[k].table.as_str(), name) && list[k].schema.is_some() {
                    proof {
                        assert(config.tables->0@[k as int].table@ == name@ && config.tables
                            ->0@[k as int].schema is Some);
                    }
                    return true;
                }
                k += 1;
            }
            false
        },
    }
}

impl Schemas {
    /// How many schemas are visible.
    pub fn len(&self) -> (r: usize)
        ensures
            r == self.0@.len(),
    {
        self.0.len()
    }

    /// The schema at index `i`, in discovery order.
    pub fn get(&self, i: usize) -> (r: &Schema)
        requires
            i < self.0@.len(),
        ensures
            *r == self.0@[i as int],
    {
        &self.0[i]
    }

    /// Looks up a visible schema by name: the first one under that
    /// name (names are unique after assembly).
    pub fn find_schema(&self, name: &str) -> (r: Option<&Schema>)
        ensures
            r is Some <==> schema_lookup(self.0@, name@) is Some,
            r is Some ==> Some(*r->0) == schema_lookup(self.0@, name@),
    {
        let mut i: usize = 0;
        while i < self.0.len()
            invariant
                i <= self.0@.len(),
                forall|k: int| 0 <= k < i ==> (#[trigger] self.0@[k]).name@ != name@,
            decreases self.0@.len() - i,
        {
            if str_eq(self.0[i].name.as_str(), name) {
                proof {
                    lemma_schema_lookup_first(self.0@, name@, i as int);
                }
                return Some(&self.0[i]);
            }
            i += 1;
        }
        proof {
            lemma_schema_lookup_none(self.0@, name@);
        }
        None
    }

    /// Resolves a schema-qualified table name against the catalog.
    pub fn find_table(&self, schema: &str, table: &str) -> (r: Option<&SchemaTableValue>)
        ensures
            r is Some <==> schema_lookup(self.0@, schema@) is Some && table_lookup(
                schema_lookup(self.0@, schema@)->0.tables@,
                table@,
            ) is Some,
            r is Some ==> Some(*r->0) == table_lookup(
                schema_lookup(self.0@, schema@)->0.tables@,
                table@,
            ),
    {
        match self.find_schema(schema) {
            None => None,
            Some(s) => s.find_table(table),
        }
    }

    /// Assembles the catalog from raw introspection rows: keeps the
    /// rows the scope admits, refuses a scope that admits nothing and a
    /// catalog where one unqualified table name means two tables in
    /// different schemas without a configured disambiguation (both are
    /// configuration faults that must halt the load), and groups the
    /// rest by schema in discovery order.
    pub fn build(rows: &Vec<TableRow>, config: &Config) -> (r: Result<Schemas, ErrorKind>)
        ensures
            r is Err ==> r->Err_0 == ErrorKind::Configuration,
            r is Ok <==> visible_rows(rows@, *config).len() > 0 && !rows_ambiguous(
                visible_rows(rows@, *config),
                *config,
            ),
            r is Ok ==> forall|e1: int, e2: int|
                0 <= e1 < e2 < r->Ok_0.0@.len() ==> (#[trigger] r->Ok_0.0@[e1]).name@ != (
                #[trigger] r->Ok_0.0@[e2]).name@,
            r is Ok ==> groups_complete(r->Ok_0.0@, visible_rows(rows@, *config)),
            r is Ok ==> groups_exact(r->Ok_0.0@, visible_rows(rows@, *config)),
    {
        let mut kept: Vec<TableRow> = Vec::new();
        let mut i: usize = 0;
        while i < rows.len()
            invariant
                i <= rows@.len(),
                kept@ == visible_rows(rows@.take(i as int), *config),
            decreases rows@.len() - i,
        {
            proof {
                assert(rows@.take(i as int + 1).drop_last() =~= rows@.take(i as int));
                assert(rows@.take(i as int + 1).last() == rows@[i as int]);
            }
            let row = &rows[i];
            let q = qualified_name(row.schema.as_str(), row.table.as_str());
            if crate::scope::matches(q.as_str(), &config.scope.includes, &config.scope.exclude) {
                kept.push(row.clone());
            }
            i += 1;
        }
        proof {
            assert(rows@.take(rows@.len() as int) =~= rows@);
        }
        if kept.len() == 0 {
            return Err(ErrorKind::Configuration);
        }
        let mut a: usize = 0;
        while a < kept.len()
            invariant
                kept@ == visible_rows(rows@, *config),
                forall|x: int, y: int|
                    0 <= x < a && 0 <= y < kept@.len() ==> !((#[trigger] kept@[x]).table@ == (
                    #[trigger] kept@[y]).table@ && kept@[x].schema@ != kept@[y].schema@
                        && !config_disambiguates(*config, kept@[x].table@)),
            decreases kept@.len() - a,
        {
            let mut b: usize = 0;
            while b < kept.len()
                invariant
                    a < kept@.len(),
                    b <= kept@.len(),
                    kept@ == visible_rows(rows@, *config),
                    forall|y: int|
                        0 <= y < b ==> !((#[trigger] kept@[y]).table@ == kept@[a as int].table@
                            && kept@[a as int].schema@ != kept@[y].schema@ && !config_disambiguates(
                            *config,
                            kept@[a as int].table@,
                        )),
                decreases kept@.len() - b,
            {
                if str_eq(kept[a].table.as_str(), kept[b].table.as_str()) && !str_eq(
                    kept[a].schema.as_str(),
                    kept[b].schema.as_str(),
                ) {
                    if !disambiguated(config, kept[a].table.as_str()) {
                        return Err(ErrorKind::Configuration);
                    }
                }
                b += 1;
            }
            a += 1;
        }
        let mut groups: Vec<Schema> = Vec::new();
        let mut n: usize = 0;
        while n < kept.len()
            invariant
                n <= kept@.len(),
                kept@ == visible_rows(rows@, *config),
                forall|e1: int, e2: int|
                    0 <= e1 < e2 < groups@.len() ==> (#[trigger] groups@[e1]).name@ != (
                    #[trigger] groups@[e2]).name@,
                forall|nm: Seq<char>|
                    (exists|e: int| 0 <= e < groups@.len() && (#[trigger] groups@[e]).name@ == nm)
                        <==> #[trigger] tables_of_schema(kept@.take(n as int), nm).len() > 0,
                forall|e: int|
                    0 <= e < groups@.len() ==> (#[trigger] groups@[e]).tables@ == tables_of_schema(
                        kept@,
                        groups@[e].name@,
                    ),
            decreases kept@.len() - n,
        {
            proof {
                assert(kept@.take(n as int + 1).drop_last() =~= kept@.take(n as int));
                assert(kept@.take(n as int + 1).last() == kept@[n as int]);
            }
            let row = &kept[n];
            let mut e: usize = 0;
            let mut found = false;
            while e < groups.len() && !found
                invariant
                    e <= groups@.len(),
                    !found ==> forall|k: int|
                        0 <= k < e ==> (#[trigger] groups@[k]).name@ != row.schema@,
                    found ==> exists|k: int|
                        0 <= k < groups@.len() && (#[trigger] groups@[k]).name@ == row.schema@,
                decreases groups@.len() - e, (if found {
                    0int
                } else {
                    1int
                }),
            {
                if str_eq(groups[e].name.as_str(), row.schema.as_str()) {
                    found = true;
                } else {
                    e += 1;
                }
            }
            if !found {
                let tables = collect_schema_tables(&kept, row.schema.as_str());
                let ghost before = groups@;
                proof {
                    lemma_schema_contributes(kept@.take(n as int + 1), n as int);
                }
                groups.push(Schema { name: row.schema.clone(), tables });
                proof {
                    assert forall|nm: Seq<char>|
                        (exists|e2: int|
                            0 <= e2 < groups@.len() && (#[trigger] groups@[e2]).name@ == nm)
                            <==> #[trigger] tables_of_schema(kept@.take(n as int + 1), nm).len()
                            > 0 by {
                        assert(tables_of_schema(kept@.take(n as int + 1), nm)
                            == if nm == kept@[n as int].schema@ {
                            tables_of_schema(kept@.take(n as int), nm).push(
                                row_entry(kept@[n as int]),
                            )
                        } else {
                            tables_of_schema(kept@.take(n as int), nm)
                        });
                        if nm == kept@[n as int].schema@ {
                            assert(groups@[groups@.len() - 1].name@ == nm);
                        } else {
                            if exists|e2: int|
                                0 <= e2 < before.len() && (#[trigger] before[e2]).name@ == nm {
                                let w = choose|w: int|
                                    0 <= w < before.len() && (#[trigger] before[w]).name@ == nm;
                                assert(groups@[w].name@ == nm);
                            }
                            if exists|e2: int|
                                0 <= e2 < groups@.len() && (#[trigger] groups@[e2]).name@ == nm {
                                let w = choose|w: int|
                                    0 <= w < groups@.len() && (#[trigger] groups@[w]).name@ == nm;
                                assert(w < before.len() && before[w].name@ == nm);
                            }
                        }
                    }
                }
            } else {
                proof {
                    assert forall|nm: Seq<char>|
                        (exists|e2: int|
                            0 <= e2 < groups@.len() && (#[trigger] groups@[e2]).name@ == nm)
                            <==> #[trigger] tables_of_schema(kept@.take(n as int + 1), nm).len()
                            > 0 by {
                        assert(tables_of_schema(kept@.take(n as int + 1), nm)
                            == if nm == kept@[n as int].schema@ {
                            tables_of_schema(kept@.take(n as int), nm).push(
                                row_entry(kept@[n as int]),
                            )
                        } else {
                            tables_of_schema(kept@.take(n as int), nm)
                        });
                    }
                }
            }
            n += 1;
        }
        proof {
            assert(kept@.take(kept@.len() as int) =~= kept@);
            assert forall|nm: Seq<char>|
                (exists|e: int| 0 <= e < groups@.len() && (#[trigger] groups@[e]).name@ == nm)
                    <==> #[trigger] tables_of_schema(visible_rows(rows@, *config), nm).len()
                    > 0 by {
                assert(tables_of_schema(kept@.take(n as int), nm) == tables_of_schema(
                    visible_rows(rows@, *config),
                    nm,
                ));
            }
            assert(groups_complete(groups@, visible_rows(rows@, *config)));
            assert(groups_exact(groups@, visible_rows(rows@, *config)));
        }
        Ok(Schemas(groups))
    }
}

/// The row at `i` contributes a table entry to its schema's group.
proof fn lemma_schema_contributes(rows: Seq<TableRow>, i: int)
    requires
        0 <= i < rows.len(),
    ensures
        tables_of_schema(rows, rows[i].schema@).len() > 0,
    decreases rows.len(),
{
    if i < rows.len() - 1 {
        lemma_schema_contributes(rows.drop_last(), i);
    }
}

/// Collects the table entries of all rows under schema `name`, in
/// order.
fn collect_schema_tables(rows: &Vec<TableRow>, name: &str) -> (r: Vec<SchemaTableValue>)
    ensures
        r@ == tables_of_schema(rows@, name@),
{
    let mut out: Vec<SchemaTableValue> = Vec::new();
    let mut i: usize = 0;
    while i < rows.len()
        invariant
            i <= rows@.len(),
            out@ == tables_of_schema(rows@.take(i as int), name@),
        decreases rows@.len() - i,
    {
        proof {
            assert(rows@.take(i as int + 1).drop_last() =~= rows@.take(i as int));
            assert(rows@.take(i as int + 1).last() == rows@[i as int]);
        }
        if str_eq(rows[i].schema.as_str(), name) {
            out.push(SchemaTableValue { name: rows[i].table.clone(), oid: rows[i].oid });
            proof {
                assert(out@ =~= tables_of_schema(rows@.take(i as int + 1), name@));
            }
        }
        i += 1;
    }
    proof {
        assert(rows@.take(rows@.len() as int) =~= rows@);
    }
    out
}

} // verus!
