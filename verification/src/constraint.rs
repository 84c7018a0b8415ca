//! Constraint metadata: the closed set of constraint kinds, the
//! per-kind collections attached to a column list, and merging of those
//! collections.

use vstd::prelude::*;

use crate::column::Position;

verus! {

/// How a foreign key compares multi-column references.
#[derive(Clone, Copy, Debug, PartialEq, Eq, Structural)]
pub enum ForeignKeyMatchType {
    Full,
    Partial,
    Simple,
}

/// The closed set of constraint kinds the catalog exposes.
#[derive(Clone, Copy, Debug, PartialEq, Eq, Structural)]
pub enum ConstraintType {
    Check,
    Exclusion,
    ForeignKey,
    PrimaryKey,
    Trigger,
    Unique,
}

/// The target of a foreign-key constraint.
#[derive(Clone, Copy, Debug, PartialEq, Eq, Structural)]
pub struct ForeignRef {
    /// The referenced table's catalog object id.
    pub oid: u32,
    /// The reference's match type.
    pub match_type: ForeignKeyMatchType,
}

/// A check constraint: a named boolean expression.
#[derive(Debug, PartialEq)]
pub struct CheckConstraint {
    pub name: String,
    pub expression: String,
}

/// An exclusion constraint: a named exclusion expression.
#[derive(Debug, PartialEq)]
pub struct ExclusionConstraint {
    pub name: String,
    pub expression: String,
}

/// A foreign-key constraint and the reference it enforces.
#[derive(Debug, PartialEq)]
pub struct ForeignKeyConstraint {
    pub name: String,
    pub expression: String,
    pub foreign_ref: ForeignRef,
}

/// A primary-key constraint.
#[derive(Debug, PartialEq)]
pub struct PrimaryKeyConstraint {
    pub name: String,
}

/// A uniqueness constraint.
#[derive(Debug, PartialEq)]
pub struct UniqueConstraint {
    pub name: String,
}

impl Clone for CheckConstraint {
    fn clone(&self) -> (res: Self)
        ensures
            res == *self,
    {
        CheckConstraint { name: self.name.clone(), expression: self.expression.clone() }
    }
}

impl Clone for ExclusionConstraint {
    fn clone(&self) -> (res: Self)
        ensures
            res == *self,
    {
        ExclusionConstraint { name: self.name.clone(), expression: self.expression.clone() }
    }
}

impl Clone for ForeignKeyConstraint {
    fn clone(&self) -> (res: Self)
        ensures
            res == *self,
    {
        ForeignKeyConstraint {
            name: self.name.clone(),
            expression: self.expression.clone(),
            foreign_ref: self.foreign_ref,
        }
    }
}

impl Clone for PrimaryKeyConstraint {
    fn clone(&self) -> (res: Self)
        ensures
            res == *self,
    {
        PrimaryKeyConstraint { name: self.name.clone() }
    }
}

impl Clone for UniqueConstraint {
    fn clone(&self) -> (res: Self)
        ensures
            res == *self,
    {
        UniqueConstraint { name: self.name.clone() }
    }
}

/// The constraints of one column list, grouped by kind. A kind's entry
/// is `None` when the catalog reported no constraint of that kind.
#[derive(Debug, PartialEq)]
pub struct ConstraintMap {
    pub check: Option<Vec<CheckConstraint>>,
    pub exclusion: Option<Vec<ExclusionConstraint>>,
    pub foreign_key: Option<Vec<ForeignKeyConstraint>>,
    pub primary_key: Option<Vec<PrimaryKeyConstraint>>,
    pub uniqueness: Option<Vec<UniqueConstraint>>,
}

/// The mathematical content of a [`ConstraintMap`]: each kind's list of
/// constraints, or `None` where the catalog reported none.
pub struct ConstraintMapView {
    pub check: Option<Seq<CheckConstraint>>,
    pub exclusion: Option<Seq<ExclusionConstraint>>,
    pub foreign_key: Option<Seq<ForeignKeyConstraint>>,
    pub primary_key: Option<Seq<PrimaryKeyConstraint>>,
    pub uniqueness: Option<Seq<UniqueConstraint>>,
}

/// The sequence held by an optional vector, if any.
pub open spec fn opt_seq<T>(o: Option<Vec<T>>) -> Option<Seq<T>> {
    match o {
        None => None,
        Some(v) => Some(v@),
    }
}

/// Concatenation on optional sequences; `None` is the neutral element.
pub open spec fn cat_opt<T>(a: Option<Seq<T>>, b: Option<Seq<T>>) -> Option<Seq<T>> {
    match (a, b) {
        (None, None) => None,
        (Some(x), None) => Some(x),
        (None, Some(y)) => Some(y),
        (Some(x), Some(y)) => Some(x + y),
    }
}

/// The kind-wise concatenation of two constraint-map views.
pub open spec fn merge_view(a: ConstraintMapView, b: ConstraintMapView) -> ConstraintMapView {
    ConstraintMapView {
        check: cat_opt(a.check, b.check),
        exclusion: cat_opt(a.exclusion, b.exclusion),
        foreign_key: cat_opt(a.foreign_key, b.foreign_key),
        primary_key: cat_opt(a.primary_key, b.primary_key),
        uniqueness: cat_opt(a.uniqueness, b.uniqueness),
    }
}

impl View for ConstraintMap {
    type V = ConstraintMapView;

    open spec fn view(&self) -> ConstraintMapView {
        ConstraintMapView {
            check: opt_seq(self.check),
            exclusion: opt_seq(self.exclusion),
            foreign_key: opt_seq(self.foreign_key),
            primary_key: opt_seq(self.primary_key),
            uniqueness: opt_seq(self.uniqueness),
        }
    }
}

/// Clones a vector of elements whose `clone` is known to return its
/// argument unchanged.
fn clone_vec_exact<T: Clone>(v: &Vec<T>) -> (r: Vec<T>)
    requires
        forall|a: &T, b: T| #[trigger] call_ensures(T::clone, (a,), b) ==> b == *a,
    ensures
        r@ == v@,
{
    let r = v.clone();
    proof {
        assert forall|i: int| 0 <= i < v@.len() implies r@[i] == v@[i] by {
            assert(cloned(v@[i], r@[i]));
        }
        assert(r@ =~= v@);
    }
    r
}

/// Clones one kind's optional constraint list.
fn clone_opt_vec<T: Clone>(o: &Option<Vec<T>>) -> (r: Option<Vec<T>>)
    requires
        forall|a: &T, b: T| #[trigger] call_ensures(T::clone, (a,), b) ==> b == *a,
    ensures
        opt_seq(r) == opt_seq(*o),
{
    match o {
        None => None,
        Some(v) => Some(clone_vec_exact(v)),
    }
}

impl Clone for ConstraintMap {
    fn clone(&self) -> (res: Self)
        ensures
            res@ == self@,
    {
        let res = ConstraintMap {
            check: clone_opt_vec(&self.check),
            exclusion: clone_opt_vec(&self.exclusion),
            foreign_key: clone_opt_vec(&self.foreign_key),
            primary_key: clone_opt_vec(&self.primary_key),
            uniqueness: clone_opt_vec(&self.uniqueness),
        };
        res
    }
}

/// Concatenates one kind's lists from two maps.
fn opt_concat<T>(a: Option<Vec<T>>, b: Option<Vec<T>>) -> (r: Option<Vec<T>>)
    ensures
        opt_seq(r) == cat_opt(opt_seq(a), opt_seq(b)),
{
    match (a, b) {
        (None, None) => None,
        (Some(x), None) => Some(x),
        (None, Some(y)) => Some(y),
        (Some(x), Some(y)) => {
            let mut x = x;
            let mut y = y;
            x.append(&mut y);
            Some(x)
        },
    }
}

impl ConstraintMap {
    /// Whether this map announces a primary-key or uniqueness
    /// constraint, i.e. whether its column list identifies rows.
    pub open spec fn spec_requires_unique(&self) -> bool {
        (self.primary_key is Some && self.primary_key->0@.len() > 0) || (self.uniqueness is Some
            && self.uniqueness->0@.len() > 0)
    }

    /// Executable form of [`Self::spec_requires_unique`].
    pub fn requires_unique(&self) -> (r: bool)
        ensures
            r == self.spec_requires_unique(),
    {
        if let Some(pk) = &self.primary_key {
            if pk.len() > 0 {
                return true;
            }
        }
        if let Some(u) = &self.uniqueness {
            if u.len() > 0 {
                return true;
            }
        }
        false
    }

    /// Combines two maps kind by kind, keeping both sides' constraints
    /// in order.
    pub fn merge(self, other: ConstraintMap) -> (r: ConstraintMap)
        ensures
            r@ == merge_view(self@, other@),
    {
        let ghost a = self@;
        let ghost b = other@;
        let r = ConstraintMap {
            check: opt_concat(self.check, other.check),
            exclusion: opt_concat(self.exclusion, other.exclusion),
            foreign_key: opt_concat(self.foreign_key, other.foreign_key),
            primary_key: opt_concat(self.primary_key, other.primary_key),
            uniqueness: opt_concat(self.uniqueness, other.uniqueness),
        };
        r
    }
}

/// One constraint set of a table: the column positions it covers and
/// its constraints by kind. A list of length 1 is a column constraint;
/// a longer list is a table constraint.
#[derive(Debug, PartialEq)]
pub struct ConstraintSet {
    pub columns: Vec<Position>,
    pub constraint_map: ConstraintMap,
}

impl Clone for ConstraintSet {
    fn clone(&self) -> (res: Self)
        ensures
            res.columns@ == self.columns@,
            res.constraint_map@ == self.constraint_map@,
    {
        let mut columns: Vec<Position> = Vec::new();
        let mut i: usize = 0;
        while i < self.columns.len()
            invariant
                i <= self.columns.len(),
                columns@ == self.columns@.take(i as int),
            decreases self.columns.len() - i,
        {
            columns.push(self.columns[i]);
            proof {
                assert(columns@ =~= self.columns@.take(i as int + 1));
            }
            i += 1;
        }
        proof {
            assert(columns@ =~= self.columns@);
        }
        ConstraintSet { columns, constraint_map: self.constraint_map.clone() }
    }
}

} // verus!
