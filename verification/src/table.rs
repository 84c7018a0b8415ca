//! Table metadata: identity, columns in ordinal order, and constraint
//! sets, with the invariants the rest of the crate relies on.

use vstd::prelude::*;

use crate::column::{Column, Position};
use crate::constraint::ConstraintSet;
use crate::error::ErrorKind;
use crate::text::str_eq;

verus! {

/// A table's identity within the catalog.
#[derive(Debug, PartialEq)]
pub struct Meta {
    /// The catalog's internal object id, unique per table.
    pub oid: u32,
    /// The table's unqualified name.
    pub name: String,
    /// The schema the table belongs to.
    pub schema: String,
    /// An optional human description (a catalog comment).
    pub description: Option<String>,
}

impl Clone for Meta {
    fn clone(&self) -> (res: Self)
        ensures
            res == *self,
    {
        Meta {
            oid: self.oid,
            name: self.name.clone(),
            schema: self.schema.clone(),
            description: match &self.description {
                None => None,
                Some(d) => Some(d.clone()),
            },
        }
    }
}

/// One table of the loaded catalog: its identity, its columns by
/// ordinal position, and its constraint sets.
#[derive(Debug)]
pub struct Table {
    pub meta: Meta,
    pub columns: Vec<Column>,
    pub constraints: Vec<ConstraintSet>,
}

/// Whether some column of `columns` holds ordinal position `p`.
pub open spec fn covers(columns: Seq<Column>, p: Position) -> bool {
    exists|i: int| 0 <= i < columns.len() && (#[trigger] columns[i]).position == p
}

/// The invariants a loaded table must satisfy: columns stand in
/// strictly ascending ordinal order (so positions are unique and define
/// the iteration order), column names are unique, and every constraint
/// set covers at least one position, each of which belongs to an
/// existing column.
pub open spec fn parts_wf(columns: Seq<Column>, constraints: Seq<ConstraintSet>) -> bool {
    &&& forall|i: int, j: int|
        0 <= i < j < columns.len() ==> (#[trigger] columns[i]).position < (
        #[trigger] columns[j]).position
    &&& forall|i: int, j: int|
        0 <= i < j < columns.len() ==> (#[trigger] columns[i]).name@ != (
        #[trigger] columns[j]).name@
    &&& forall|s: int| 0 <= s < constraints.len() ==> (#[trigger] constraints[s]).columns@.len() >= 1
    &&& forall|s: int, c: int|
        0 <= s < constraints.len() && 0 <= c < constraints[s].columns@.len() ==> covers(
            columns,
            #[trigger] constraints[s].columns@[c],
        )
}

/// The first column named `name`, if any.
pub open spec fn column_lookup(columns: Seq<Column>, name: Seq<char>) -> Option<Column>
    decreases columns.len(),
{
    if columns.len() == 0 {
        None
    } else if columns[0].name@ == name {
        Some(columns[0])
    } else {
        column_lookup(columns.skip(1), name)
    }
}

/// The lookup finds a column exactly when one of that name exists.
pub proof fn lemma_column_lookup_exists(columns: Seq<Column>, name: Seq<char>)
    ensures
        column_lookup(columns, name) is Some <==> exists|i: int|
            0 <= i < columns.len() && (#[trigger] columns[i]).name@ == name,
    decreases columns.len(),
{
    if columns.len() > 0 && columns[0].name@ != name {
        lemma_column_lookup_exists(columns.skip(1), name);
        if column_lookup(columns, name) is Some {
            let i = choose|i: int|
                0 <= i < columns.skip(1).len() && (#[trigger] columns.skip(1)[i]).name@ == name;
            assert(columns[i + 1].name@ == name);
        }
        if exists|i: int| 0 <= i < columns.len() && (#[trigger] columns[i]).name@ == name {
            let i = choose|i: int| 0 <= i < columns.len() && (#[trigger] columns[i]).name@ == name;
            assert(columns.skip(1)[i - 1].name@ == name);
        }
    }
}

/// A name that matches no column is not in the table.
proof fn lemma_column_lookup_none(columns: Seq<Column>, name: Seq<char>)
    requires
        forall|k: int| 0 <= k < columns.len() ==> (#[trigger] columns[k]).name@ != name,
    ensures
        column_lookup(columns, name) is None,
    decreases columns.len(),
{
    if columns.len() > 0 {
        lemma_column_lookup_none(columns.skip(1), name);
    }
}

/// The first matching column decides the lookup.
proof fn lemma_column_lookup_first(columns: Seq<Column>, name: Seq<char>, i: int)
    requires
        0 <= i < columns.len(),
        columns[i].name@ == name,
        forall|k: int| 0 <= k < i ==> (#[trigger] columns[k]).name@ != name,
    ensures
        column_lookup(columns, name) == Some(columns[i]),
    decreases columns.len(),
{
    if i > 0 {
        lemma_column_lookup_first(columns.skip(1), name, i - 1);
    }
}

impl Table {
    /// Whether this table satisfies the loader's invariants.
    pub open spec fn wf(&self) -> bool {
        parts_wf(self.columns@, self.constraints@)
    }

    /// Whether the table has a column named `name`.
    pub open spec fn has_column(&self, name: Seq<char>) -> bool {
        exists|i: int| 0 <= i < self.columns@.len() && (#[trigger] self.columns@[i]).name@ == name
    }

    /// Whether some constraint set with a non-empty column list
    /// announces a primary-key or uniqueness constraint, i.e. whether a
    /// row of this table can be identified by a column combination.
    pub open spec fn spec_requires_unique(&self) -> bool {
        exists|s: int|
            0 <= s < self.constraints@.len() && (#[trigger] self.constraints@[s]).columns@.len() > 0
                && self.constraints@[s].constraint_map.spec_requires_unique()
    }

    /// Executable form of [`Self::spec_requires_unique`].
    pub fn requires_unique(&self) -> (r: bool)
        ensures
            r == self.spec_requires_unique(),
    {
        let mut s: usize = 0;
        while s < self.constraints.len()
            invariant
                s <= self.constraints@.len(),
                forall|k: int|
                    0 <= k < s ==> !((#[trigger] self.constraints@[k]).columns@.len() > 0
                        && self.constraints@[k].constraint_map.spec_requires_unique()),
            decreases self.constraints@.len() - s,
        {
            if self.constraints[s].columns.len() > 0
                && self.constraints[s].constraint_map.requires_unique() {
                return true;
            }
            s += 1;
        }
        false
    }

    /// Looks up a column by exact name: the first one under that name.
    pub fn find_column(&self, name: &str) -> (r: Option<&Column>)
        ensures
            r is Some <==> self.has_column(name@),
            r is Some ==> Some(*r->0) == column_lookup(self.columns@, name@),
            r is Some ==> (*r->0).name@ == name@ && exists|i: int|
                0 <= i < self.columns@.len() && #[trigger] self.columns@[i] == *r->0,
    {
        let mut i: usize = 0;
        while i < self.columns.len()
            invariant
                i <= self.columns@.len(),
                forall|k: int| 0 <= k < i ==> (#[trigger] self.columns@[k]).name@ != name@,
            decreases self.columns@.len() - i,
        {
            if str_eq(self.columns[i].name.as_str(), name) {
                proof {
                    lemma_column_lookup_first(self.columns@, name@, i as int);
                }
                return Some(&self.columns[i]);
            }
            i += 1;
        }
        proof {
            lemma_column_lookup_none(self.columns@, name@);
        }
        None
    }

    /// Assembles a table from the loader's raw parts, refusing parts
    /// that break [`parts_wf`]: the columns must arrive in strictly
    /// ascending ordinal order under unique names, and every constraint
    /// set must cover at least one existing position. A violation is a
    /// configuration fault of the loaded catalog.
    pub fn from_parts(meta: Meta, columns: Vec<Column>, constraints: Vec<ConstraintSet>) -> (r:
        Result<Table, ErrorKind>)
        ensures
            r is Ok <==> parts_wf(columns@, constraints@),
            r is Ok ==> ({
                let t = r->Ok_0;
                &&& t.wf()
                &&& t.meta == meta
                &&& t.columns@ == columns@
                &&& t.constraints@ == constraints@
            }),
            r is Err ==> r->Err_0 == ErrorKind::Configuration,
    {
        if columns_ascending(&columns) && names_unique(&columns) && sets_cover_columns(
            &columns,
            &constraints,
        ) {
            Ok(Table { meta, columns, constraints })
        } else {
            Err(ErrorKind::Configuration)
        }
    }
}

/// Whether the columns stand in strictly ascending ordinal order.
fn columns_ascending(columns: &Vec<Column>) -> (r: bool)
    ensures
        r == forall|i: int, j: int|
            0 <= i < j < columns@.len() ==> (#[trigger] columns@[i]).position < (
            #[trigger] columns@[j]).position,
{
    let mut i: usize = 1;
    while i < columns.len()
        invariant
            1 <= i,
            forall|a: int, b: int|
                0 <= a < b < i && b < columns@.len() ==> (#[trigger] columns@[a]).position < (
                #[trigger] columns@[b]).position,
        decreases columns@.len() - i,
    {
        if columns[i - 1].position >= columns[i].position {
            return false;
        }
        proof {
            assert forall|a: int, b: int|
                0 <= a < b < i + 1 && b < columns@.len() implies (
            #[trigger] columns@[a]).position < (#[trigger] columns@[b]).position by {
                if b == i && a < i - 1 {
                    assert(columns@[a].position < columns@[i - 1].position);
                }
            }
        }
        i += 1;
    }
    true
}

/// Whether no two columns share a name.
fn names_unique(columns: &Vec<Column>) -> (r: bool)
    ensures
        r == forall|i: int, j: int|
            0 <= i < j < columns@.len() ==> (#[trigger] columns@[i]).name@ != (
            #[trigger] columns@[j]).name@,
{
    let mut a: usize = 0;
    while a < columns.len()
        invariant
            forall|x: int, y: int|
                0 <= x < y < columns@.len() && x < a ==> (#[trigger] columns@[x]).name@ != (
                #[trigger] columns@[y]).name@,
        decreases columns@.len() - a,
    {
        let mut b: usize = a + 1;
        while b < columns.len()
            invariant
                a < b,
                a < columns@.len(),
                forall|y: int| a < y < b ==> (#[trigger] columns@[y]).name@ != columns@[a as int].name@,
            decreases columns@.len() - b,
        {
            if str_eq(columns[a].name.as_str(), columns[b].name.as_str()) {
                return false;
            }
            b += 1;
        }
        a += 1;
    }
    true
}

/// Whether some column holds ordinal position `p`.
fn position_exists(columns: &Vec<Column>, p: Position) -> (r: bool)
    ensures
        r == covers(columns@, p),
{
    let mut i: usize = 0;
    while i < columns.len()
        invariant
            i <= columns@.len(),
            forall|k: int| 0 <= k < i ==> (#[trigger] columns@[k]).position != p,
        decreases columns@.len() - i,
    {
        if columns[i].position == p {
            return true;
        }
        i += 1;
    }
    false
}

/// Whether one constraint set covers at least one position, all of them
/// existing columns' positions.
fn set_covers_columns(columns: &Vec<Column>, set: &ConstraintSet) -> (r: bool)
    ensures
        r == (set.columns@.len() >= 1 && forall|c: int|
            0 <= c < set.columns@.len() ==> covers(columns@, #[trigger] set.columns@[c])),
{
    if set.columns.len() == 0 {
        return false;
    }
    let mut c: usize = 0;
    while c < set.columns.len()
        invariant
            c <= set.columns@.len(),
            forall|x: int| 0 <= x < c ==> covers(columns@, #[trigger] set.columns@[x]),
        decreases set.columns@.len() - c,
    {
        if !position_exists(columns, set.columns[c]) {
            return false;
        }
        c += 1;
    }
    true
}

/// Whether every constraint set covers at least one position, all of
/// them existing columns' positions.
fn sets_cover_columns(columns: &Vec<Column>, constraints: &Vec<ConstraintSet>) -> (r: bool)
    ensures
        r == ((forall|s: int|
            0 <= s < constraints@.len() ==> (#[trigger] constraints@[s]).columns@.len() >= 1)
            && (forall|s: int, c: int|
            0 <= s < constraints@.len() && 0 <= c < constraints@[s].columns@.len() ==> covers(
                columns@,
                #[trigger] constraints@[s].columns@[c],
            ))),
{
    let mut s: usize = 0;
    while s < constraints.len()
        invariant
            s <= constraints@.len(),
            forall|x: int| 0 <= x < s ==> (#[trigger] constraints@[x]).columns@.len() >= 1,
            forall|x: int, c: int|
                0 <= x < s && 0 <= c < constraints@[x].columns@.len() ==> covers(
                    columns@,
                    #[trigger] constraints@[x].columns@[c],
                ),
        decreases constraints@.len() - s,
    {
        if !set_covers_columns(columns, &constraints[s]) {
            return false;
        }
        s += 1;
    }
    true
}

} // verus!
